//! Characters, decimal numerals and conversions between `str`, `String` and `Vec<char>`.
use vstd::prelude::*;

verus! {

/// `String::push` (std) appends one character to the string.
pub assume_specification[ String::push ](s: &mut String, ch: char)
    ensures
        final(s)@ == old(s)@.push(ch),
;

/// The character of a decimal digit `d` (`0 <= d < 10`).
pub open spec fn digit_char(d: int) -> char {
    if d == 0 { '0' } else if d == 1 { '1' } else if d == 2 { '2' } else if d == 3 { '3' }
    else if d == 4 { '4' } else if d == 5 { '5' } else if d == 6 { '6' } else if d == 7 { '7' }
    else if d == 8 { '8' } else { '9' }
}

/// The decimal numeral of `n`, without leading zeros ("0" for zero).
pub open spec fn decimal(n: nat) -> Seq<char>
    decreases n,
{
    if n < 10 {
        seq![digit_char(n as int)]
    } else {
        decimal(n / 10).push(digit_char((n % 10) as int))
    }
}

/// `k` zero characters.
pub open spec fn zeros(k: nat) -> Seq<char> {
    Seq::new(k, |i: int| '0')
}

/// The decimal numeral of `n`, padded on the left with zeros to at least `width` characters
/// (what `{:0width}` prints for a non-negative integer).
pub open spec fn zero_padded(n: nat, width: nat) -> Seq<char> {
    let ds = decimal(n);
    if ds.len() < width {
        zeros((width - ds.len()) as nat) + ds
    } else {
        ds
    }
}

/// What `{:0width}` prints for a signed integer: a minus sign for a negative value,
/// then the digits of its magnitude, with zeros between sign and digits up to `width` characters.
pub open spec fn signed_zero_padded(n: int, width: nat) -> Seq<char> {
    if n >= 0 {
        zero_padded(n as nat, width)
    } else {
        seq!['-'] + zero_padded((-n) as nat, if width > 0 { (width - 1) as nat } else { 0 })
    }
}

pub proof fn lemma_decimal_len(n: nat)
    ensures
        decimal(n).len() >= 1,
        n < 10 ==> decimal(n).len() == 1,
        10 <= n < 100 ==> decimal(n).len() == 2,
        100 <= n < 1000 ==> decimal(n).len() == 3,
        1000 <= n < 10000 ==> decimal(n).len() == 4,
        10000 <= n < 100000 ==> decimal(n).len() == 5,
        100000 <= n < 1000000 ==> decimal(n).len() == 6,
        n >= 10 ==> decimal(n).len() == decimal(n / 10).len() + 1,
    decreases n,
{
    if n >= 10 {
        lemma_decimal_len(n / 10);
    }
}

/// The numeral of a single decimal digit.
pub fn digit(d: u64) -> (c: char)
    requires
        d < 10,
    ensures
        c == digit_char(d as int),
{
    if d == 0 { '0' } else if d == 1 { '1' } else if d == 2 { '2' } else if d == 3 { '3' }
    else if d == 4 { '4' } else if d == 5 { '5' } else if d == 6 { '6' } else if d == 7 { '7' }
    else if d == 8 { '8' } else { '9' }
}

/// Appends the decimal numeral of `n`.
pub fn push_decimal(out: &mut Vec<char>, n: u64)
    ensures
        final(out)@ == old(out)@ + decimal(n as nat),
    decreases n,
{
    if n >= 10 {
        push_decimal(out, n / 10);
    }
    out.push(digit(n % 10));
    proof {
        if n >= 10 {
            assert(old(out)@ + decimal(n as nat) =~= old(out)@ + decimal((n / 10) as nat)
                + seq![digit_char((n % 10) as int)]);
        }
    }
}

/// Appends `k` zeros.
pub fn push_zeros(out: &mut Vec<char>, k: usize)
    ensures
        final(out)@ == old(out)@ + zeros(k as nat),
{
    let mut i: usize = 0;
    while i < k
        invariant
            i <= k,
            out@ == old(out)@ + zeros(i as nat),
        decreases k - i,
    {
        out.push('0');
        i += 1;
        assert(out@ =~= old(out)@ + zeros(i as nat));
    }
}

/// Appends what `{:0width}` prints for the non-negative integer `n`.
pub fn push_zero_padded(out: &mut Vec<char>, n: u64, width: usize)
    ensures
        final(out)@ == old(out)@ + zero_padded(n as nat, width as nat),
{
    let mut ds: Vec<char> = Vec::new();
    push_decimal(&mut ds, n);
    assert(ds@ =~= decimal(n as nat));
    if ds.len() < width {
        push_zeros(out, width - ds.len());
    }
    append_chars(out, &ds);
    assert(out@ =~= old(out)@ + zero_padded(n as nat, width as nat));
}

/// Appends what `{:0width}` prints for the signed integer `n`.
pub fn push_signed_zero_padded(out: &mut Vec<char>, n: i64, width: usize)
    ensures
        final(out)@ == old(out)@ + signed_zero_padded(n as int, width as nat),
{
    if n >= 0 {
        push_zero_padded(out, n as u64, width);
    } else {
        out.push('-');
        let magnitude: u64 = (-(n as i128)) as u64;
        let w: usize = if width > 0 { width - 1 } else { 0 };
        push_zero_padded(out, magnitude, w);
        assert(out@ =~= old(out)@ + signed_zero_padded(n as int, width as nat));
    }
}

/// Appends the characters of `more`.
pub fn append_chars(out: &mut Vec<char>, more: &Vec<char>)
    ensures
        final(out)@ == old(out)@ + more@,
{
    let mut i: usize = 0;
    while i < more.len()
        invariant
            i <= more.len(),
            out@ == old(out)@ + more@.take(i as int),
        decreases more.len() - i,
    {
        out.push(more[i]);
        i += 1;
        assert(out@ =~= old(out)@ + more@.take(i as int));
    }
    assert(more@.take(more.len() as int) =~= more@);
}

/// Appends the characters of a string slice.
pub fn append_str(out: &mut Vec<char>, s: &str)
    ensures
        final(out)@ == old(out)@ + s@,
{
    let ghost start = out@;
    for c in it: s.chars()
        invariant
            out@ == start + it.seq().take(it.index() as int),
    {
        out.push(c);
        assert(out@ =~= start + it.seq().take(it.index() + 1));
    }
}

/// The characters of a string slice.
pub fn chars_of(s: &str) -> (v: Vec<char>)
    ensures
        v@ == s@,
{
    let mut v: Vec<char> = Vec::new();
    append_str(&mut v, s);
    assert(v@ =~= s@);
    v
}

/// The string made of the given characters.
pub fn string_of(v: &Vec<char>) -> (s: String)
    ensures
        s@ == v@,
{
    let mut s = String::new();
    let mut i: usize = 0;
    while i < v.len()
        invariant
            i <= v.len(),
            s@ == v@.take(i as int),
        decreases v.len() - i,
    {
        s.push(v[i]);
        i += 1;
        assert(s@ =~= v@.take(i as int));
    }
    assert(v@.take(v.len() as int) =~= v@);
    s
}

/// Whether two string slices hold the same characters.
pub fn same_text(a: &str, b: &str) -> (r: bool)
    ensures
        r == (a@ == b@),
{
    let x: String = a.to_owned();
    let y: String = b.to_owned();
    x == y
}

} // verus!
