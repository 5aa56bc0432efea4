//! Decoding of the percent-escapes in the path part of a `file://` URI.
use vstd::prelude::*;
use crate::text::{chars_of, string_of};

verus! {

/// The value of a hexadecimal digit (`0-9`, `a-f`, `A-F`).
pub open spec fn hex_value(c: char) -> Option<u8> {
    if '0' <= c && c <= '9' {
        Some((c as u32 - '0' as u32) as u8)
    } else if 'a' <= c && c <= 'f' {
        Some((c as u32 - 'a' as u32 + 10) as u8)
    } else if 'A' <= c && c <= 'F' {
        Some((c as u32 - 'A' as u32 + 10) as u8)
    } else {
        None
    }
}

/// The byte that the two characters after a `%` name, if they name one: they do when they
/// read as a base-16 number with an optional leading `+` sign (as `u8::from_str_radix`
/// reads them), that is two hex digits, or a `+` followed by one hex digit.
pub open spec fn escape_value(hi: char, lo: char) -> Option<u8> {
    match (hex_value(hi), hex_value(lo)) {
        (Some(h), Some(l)) => Some((16 * h + l) as u8),
        (None, Some(l)) => if hi == '+' { Some(l) } else { None },
        _ => None,
    }
}

/// The decoded text, read from the front:
/// - `%` and two characters that name a byte give the character with that byte's code
///   (`U+0000` to `U+00FF`);
/// - `%` and two characters that name no byte are kept as they are, all three;
/// - `%` with fewer than two characters after it is kept with what follows;
/// - `+` gives a space;
/// - any other character is kept.
pub open spec fn decoded(s: Seq<char>) -> Seq<char>
    decreases s.len(),
{
    if s.len() == 0 {
        seq![]
    } else if s[0] == '%' {
        if s.len() >= 3 {
            match escape_value(s[1], s[2]) {
                Some(b) => seq![b as char] + decoded(s.skip(3)),
                None => seq!['%', s[1], s[2]] + decoded(s.skip(3)),
            }
        } else {
            s
        }
    } else if s[0] == '+' {
        seq![' '] + decoded(s.skip(1))
    } else {
        seq![s[0]] + decoded(s.skip(1))
    }
}

/// The value of a hexadecimal digit.
pub fn hex_digit_value(c: char) -> (r: Option<u8>)
    ensures
        r == hex_value(c),
{
    if '0' <= c && c <= '9' {
        Some((c as u32 - '0' as u32) as u8)
    } else if 'a' <= c && c <= 'f' {
        Some((c as u32 - 'a' as u32 + 10) as u8)
    } else if 'A' <= c && c <= 'F' {
        Some((c as u32 - 'A' as u32 + 10) as u8)
    } else {
        None
    }
}

/// The byte named by the two characters after a `%`.
pub fn escaped_byte(hi: char, lo: char) -> (r: Option<u8>)
    ensures
        r == escape_value(hi, lo),
{
    match (hex_digit_value(hi), hex_digit_value(lo)) {
        (Some(h), Some(l)) => Some(16 * h + l),
        (None, Some(l)) => if hi == '+' { Some(l) } else { None },
        _ => None,
    }
}

/// Decodes the characters `v[start..end]`.
pub fn decode_chars(v: &Vec<char>, start: usize, end: usize) -> (r: Vec<char>)
    requires
        start <= end <= v@.len(),
    ensures
        r@ == decoded(v@.subrange(start as int, end as int)),
{
    let mut out: Vec<char> = Vec::new();
    let mut i = start;
    while i < end
        invariant
            start <= i <= end <= v@.len(),
            decoded(v@.subrange(start as int, end as int)) == out@ + decoded(v@.subrange(i as int, end as int)),
        decreases end - i,
    {
        let ghost rest = v@.subrange(i as int, end as int);
        let c = v[i];
        if c == '%' {
            if end - i >= 3 {
                let hi = v[i + 1];
                let lo = v[i + 2];
                assert(rest.skip(3) =~= v@.subrange(i + 3, end as int));
                match escaped_byte(hi, lo) {
                    Some(b) => {
                        out.push(b as char);
                    },
                    None => {
                        out.push('%');
                        out.push(hi);
                        out.push(lo);
                    },
                }
                i = i + 3;
            } else {
                while i < end
                    invariant
                        start <= i <= end <= v@.len(),
                        decoded(v@.subrange(start as int, end as int)) == out@ + v@.subrange(i as int, end as int),
                    decreases end - i,
                {
                    assert(v@.subrange(i as int, end as int) =~= seq![v@[i as int]] + v@.subrange(i + 1, end as int));
                    out.push(v[i]);
                    i = i + 1;
                }
                assert(v@.subrange(i as int, end as int) =~= Seq::<char>::empty());
                assert(decoded(v@.subrange(i as int, end as int)) =~= Seq::<char>::empty());
            }
        } else {
            assert(rest.skip(1) =~= v@.subrange(i + 1, end as int));
            if c == '+' {
                out.push(' ');
            } else {
                out.push(c);
            }
            i = i + 1;
        }
    }
    assert(v@.subrange(end as int, end as int) =~= Seq::<char>::empty());
    out
}

/// Text without `%` and `+` decodes to itself.
pub proof fn plain_text_is_kept(s: Seq<char>)
    requires
        forall|i: int| 0 <= i < s.len() ==> #[trigger] s[i] != '%' && s[i] != '+',
    ensures
        decoded(s) == s,
    decreases s.len(),
{
    if s.len() > 0 {
        plain_text_is_kept(s.skip(1));
        assert(seq![s[0]] + s.skip(1) =~= s);
    }
}

/// Decoding never makes a text longer.
pub proof fn decoding_never_lengthens(s: Seq<char>)
    ensures
        decoded(s).len() <= s.len(),
    decreases s.len(),
{
    if s.len() > 0 {
        if s[0] == '%' {
            if s.len() >= 3 {
                decoding_never_lengthens(s.skip(3));
            }
        } else {
            decoding_never_lengthens(s.skip(1));
        }
    }
}

/// A `%` escape that names a byte decodes to the character with that byte's code, and
/// decoding goes on right after the escape.
pub proof fn escape_decodes_to_its_byte(hi: char, lo: char, rest: Seq<char>)
    requires
        escape_value(hi, lo) is Some,
    ensures
        decoded(seq!['%', hi, lo] + rest) == seq![escape_value(hi, lo)->0 as char] + decoded(rest),
{
    assert((seq!['%', hi, lo] + rest).skip(3) =~= rest);
}

/// A `+` decodes to a space, and decoding goes on right after it.
pub proof fn plus_decodes_to_space(rest: Seq<char>)
    ensures
        decoded(seq!['+'] + rest) == seq![' '] + decoded(rest),
{
    assert((seq!['+'] + rest).skip(1) =~= rest);
}

/// Decoding a text that begins with a part free of `%` decodes the two parts apart.
pub proof fn decoding_splits_after_plain_text(a: Seq<char>, b: Seq<char>)
    requires
        forall|i: int| 0 <= i < a.len() ==> #[trigger] a[i] != '%',
    ensures
        decoded(a + b) == decoded(a) + decoded(b),
    decreases a.len(),
{
    if a.len() > 0 {
        decoding_splits_after_plain_text(a.skip(1), b);
        assert((a + b).skip(1) =~= a.skip(1) + b);
        assert((a + b)[0] == a[0]);
    } else {
        assert(a + b =~= b);
    }
}

/// The upper-case hexadecimal digit of `d` (`0 <= d < 16`).
pub open spec fn upper_hex_digit(d: int) -> char {
    if d == 0 { '0' } else if d == 1 { '1' } else if d == 2 { '2' } else if d == 3 { '3' }
    else if d == 4 { '4' } else if d == 5 { '5' } else if d == 6 { '6' } else if d == 7 { '7' }
    else if d == 8 { '8' } else if d == 9 { '9' } else if d == 10 { 'A' } else if d == 11 { 'B' }
    else if d == 12 { 'C' } else if d == 13 { 'D' } else if d == 14 { 'E' } else { 'F' }
}

/// Every character of `s` written as `%` and its code in two upper-case hex digits
/// (`format!("%{:02X}", c as u8)` for each character with a code below 256).
pub open spec fn percent_encoded(s: Seq<char>) -> Seq<char>
    decreases s.len(),
{
    if s.len() == 0 {
        Seq::empty()
    } else {
        let code = s[0] as u32;
        seq!['%', upper_hex_digit((code / 16) as int), upper_hex_digit((code % 16) as int)]
            + percent_encoded(s.skip(1))
    }
}

proof fn lemma_escape_of_code(c: char)
    requires
        (c as u32) < 256,
    ensures
        escape_value(upper_hex_digit(((c as u32) / 16) as int), upper_hex_digit(((c as u32) % 16) as int))
            == Some((c as u32) as u8),
        ((c as u32) as u8) as char == c,
{
    let code = c as u32;
    assert(hex_value(upper_hex_digit((code / 16) as int)) == Some((code / 16) as u8));
    assert(hex_value(upper_hex_digit((code % 16) as int)) == Some((code % 16) as u8));
}

/// Decoding undoes percent-encoding: writing every character of a text whose codes are
/// below 256 as a `%` escape and decoding gives the text back.
pub proof fn percent_encoding_round_trips(s: Seq<char>)
    requires
        forall|i: int| 0 <= i < s.len() ==> (#[trigger] s[i] as u32) < 256,
    ensures
        decoded(percent_encoded(s)) == s,
    decreases s.len(),
{
    if s.len() > 0 {
        let c = s[0];
        let code = c as u32;
        lemma_escape_of_code(c);
        percent_encoding_round_trips(s.skip(1));
        let hi = upper_hex_digit((code / 16) as int);
        let lo = upper_hex_digit((code % 16) as int);
        escape_decodes_to_its_byte(hi, lo, percent_encoded(s.skip(1)));
        assert(seq![c] + s.skip(1) =~= s);
    }
}

/// Hex digits are read in either case: a character has a digit value exactly when it is
/// one of `0-9`, `a-f` or `A-F`, and the value is its place in that run (`a` and `A` are
/// ten, `f` and `F` fifteen).
pub proof fn hex_digits_of_either_case(c: char)
    ensures
        hex_value(c) is Some <==> ('0' <= c <= '9' || 'a' <= c <= 'f' || 'A' <= c <= 'F'),
        '0' <= c <= '9' ==> hex_value(c) == Some((c as u32 - '0' as u32) as u8),
        'a' <= c <= 'f' ==> hex_value(c) == Some((c as u32 - 'a' as u32 + 10) as u8),
        'A' <= c <= 'F' ==> hex_value(c) == Some((c as u32 - 'A' as u32 + 10) as u8),
{
}

/// The lower-case hexadecimal digit of `d` (`0 <= d < 16`).
pub open spec fn lower_hex_digit(d: int) -> char {
    if d == 0 { '0' } else if d == 1 { '1' } else if d == 2 { '2' } else if d == 3 { '3' }
    else if d == 4 { '4' } else if d == 5 { '5' } else if d == 6 { '6' } else if d == 7 { '7' }
    else if d == 8 { '8' } else if d == 9 { '9' } else if d == 10 { 'a' } else if d == 11 { 'b' }
    else if d == 12 { 'c' } else if d == 13 { 'd' } else if d == 14 { 'e' } else { 'f' }
}

/// Every character of `s` written as `%` and its code in two lower-case hex digits
/// (`format!("%{:02x}", c as u8)` for each character with a code below 256).
pub open spec fn lower_percent_encoded(s: Seq<char>) -> Seq<char>
    decreases s.len(),
{
    if s.len() == 0 {
        Seq::empty()
    } else {
        let code = s[0] as u32;
        seq!['%', lower_hex_digit((code / 16) as int), lower_hex_digit((code % 16) as int)]
            + lower_percent_encoded(s.skip(1))
    }
}

/// Decoding also undoes lower-case percent-encoding: writing every character of a text
/// whose codes are below 256 as `%` and two lower-case hex digits and decoding gives the
/// text back.
pub proof fn lower_case_percent_encoding_round_trips(s: Seq<char>)
    requires
        forall|i: int| 0 <= i < s.len() ==> (#[trigger] s[i] as u32) < 256,
    ensures
        decoded(lower_percent_encoded(s)) == s,
    decreases s.len(),
{
    if s.len() > 0 {
        let c = s[0];
        let code = c as u32;
        assert(code < 256);
        let hi = lower_hex_digit((code / 16) as int);
        let lo = lower_hex_digit((code % 16) as int);
        assert(hex_value(hi) == Some((code / 16) as u8));
        assert(hex_value(lo) == Some((code % 16) as u8));
        assert(escape_value(hi, lo) == Some(code as u8));
        lemma_escape_of_code(c);
        lower_case_percent_encoding_round_trips(s.skip(1));
        escape_decodes_to_its_byte(hi, lo, lower_percent_encoded(s.skip(1)));
        assert(seq![c] + s.skip(1) =~= s);
    }
}

/// Decodes the percent-escapes and `+` signs of a URI path (see [`decoded`]).
pub fn urlencoding_decode(input: &str) -> (r: String)
    ensures
        r@ == decoded(input@),
{
    let v = chars_of(input);
    let out = decode_chars(&v, 0, v.len());
    assert(v@.subrange(0, v@.len() as int) =~= v@);
    string_of(&out)
}

} // verus!
