//! The order of timestamp texts: for the instants a note can be made at, from 1970
//! through the end of year 9999, the texts sort as the instants do.
use vstd::prelude::*;
use crate::text::{decimal, digit_char, lemma_decimal_len, signed_zero_padded, zero_padded};
use crate::timestamp::{
    date_fields, days_to_march_first, is_leap_year, lemma_march_years, lemma_time_of_day,
    lemma_year_estimate, time_fields, timestamp_fields, timestamp_text,
};

verus! {

/// A number that orders dates `(year, month, day)` with `1 <= month <= 12` and
/// `1 <= day <= 31` as the dates order.
pub open spec fn date_key(f: (int, int, int)) -> int {
    f.0 * 512 + f.1 * 32 + f.2
}

/// The date fields of day `doy` of the March-based year `y` (day 0 is the first of March).
spec fn march_date(y: int, doy: int) -> (int, int, int) {
    let mp = (5 * doy + 2) / 153;
    let d = doy - (153 * mp + 2) / 5 + 1;
    let m = if mp < 10 { mp + 3 } else { mp - 9 };
    (y + if m <= 2 { 1int } else { 0int }, m, d)
}

proof fn lemma_march_date(y: int, doy: int)
    requires
        0 <= doy <= 366,
    ensures
        ({
            let f = march_date(y, doy);
            &&& 1 <= f.1 <= 12
            &&& 1 <= f.2 <= 31
            &&& f.0 == y + if f.1 <= 2 { 1int } else { 0int }
            &&& (doy < 306 ==> f.1 >= 3)
            &&& (doy >= 306 ==> f.1 <= 2)
        }),
{
    let mp = (5 * doy + 2) / 153;
    assert(153 * mp <= 5 * doy + 2 < 153 * mp + 153);
    if mp == 0 { assert((153 * mp + 2) / 5 == 0); }
    else if mp == 1 { assert((153 * mp + 2) / 5 == 31); }
    else if mp == 2 { assert((153 * mp + 2) / 5 == 61); }
    else if mp == 3 { assert((153 * mp + 2) / 5 == 92); }
    else if mp == 4 { assert((153 * mp + 2) / 5 == 122); }
    else if mp == 5 { assert((153 * mp + 2) / 5 == 153); }
    else if mp == 6 { assert((153 * mp + 2) / 5 == 184); }
    else if mp == 7 { assert((153 * mp + 2) / 5 == 214); }
    else if mp == 8 { assert((153 * mp + 2) / 5 == 245); }
    else if mp == 9 { assert((153 * mp + 2) / 5 == 275); }
    else if mp == 10 { assert((153 * mp + 2) / 5 == 306); }
    else { assert(mp == 11); assert((153 * mp + 2) / 5 == 337); }
}

proof fn lemma_march_step(y: int, doy: int)
    requires
        0 <= doy < 366,
    ensures
        date_key(march_date(y, doy)) < date_key(march_date(y, doy + 1)),
{
    lemma_march_date(y, doy);
    lemma_march_date(y, doy + 1);
    let mp = (5 * doy + 2) / 153;
    let mq = (5 * (doy + 1) + 2) / 153;
    assert(153 * mp <= 5 * doy + 2 < 153 * mp + 153);
    assert(153 * mq <= 5 * doy + 7 < 153 * mq + 153);
    assert(mq == mp || mq == mp + 1);
    if mp == 0 { assert((153 * mp + 2) / 5 == 0); }
    else if mp == 1 { assert((153 * mp + 2) / 5 == 31); }
    else if mp == 2 { assert((153 * mp + 2) / 5 == 61); }
    else if mp == 3 { assert((153 * mp + 2) / 5 == 92); }
    else if mp == 4 { assert((153 * mp + 2) / 5 == 122); }
    else if mp == 5 { assert((153 * mp + 2) / 5 == 153); }
    else if mp == 6 { assert((153 * mp + 2) / 5 == 184); }
    else if mp == 7 { assert((153 * mp + 2) / 5 == 214); }
    else if mp == 8 { assert((153 * mp + 2) / 5 == 245); }
    else if mp == 9 { assert((153 * mp + 2) / 5 == 275); }
    else if mp == 10 { assert((153 * mp + 2) / 5 == 306); }
    else { assert((153 * mp + 2) / 5 == 337); }
    if mq == 0 { assert((153 * mq + 2) / 5 == 0); }
    else if mq == 1 { assert((153 * mq + 2) / 5 == 31); }
    else if mq == 2 { assert((153 * mq + 2) / 5 == 61); }
    else if mq == 3 { assert((153 * mq + 2) / 5 == 92); }
    else if mq == 4 { assert((153 * mq + 2) / 5 == 122); }
    else if mq == 5 { assert((153 * mq + 2) / 5 == 153); }
    else if mq == 6 { assert((153 * mq + 2) / 5 == 184); }
    else if mq == 7 { assert((153 * mq + 2) / 5 == 214); }
    else if mq == 8 { assert((153 * mq + 2) / 5 == 245); }
    else if mq == 9 { assert((153 * mq + 2) / 5 == 275); }
    else if mq == 10 { assert((153 * mq + 2) / 5 == 306); }
    else { assert((153 * mq + 2) / 5 == 337); }
}

/// The day within the estimated March-based year never passes 366.
proof fn lemma_day_of_estimated_year(doe: int)
    requires
        doe >= 0,
    ensures
        0 <= doe - days_to_march_first((400 * doe) / 146097) <= 366,
{
    let y = (400 * doe) / 146097;
    lemma_year_estimate(doe);
    lemma_march_years(y);
    let y1 = y + 1;
    assert(400 * doe < 146097 * y1);
    assert(y1 / 4 * 4 >= y1 - 3);
    assert(y1 / 100 * 100 <= y1);
    assert(y1 / 400 * 400 >= y1 - 399);
    assert(doe <= days_to_march_first(y1) + 1);
    if is_leap_year(y1) {
        assert(y1 % 4 == 0);
        assert(y1 / 4 * 4 == y1);
        assert(doe <= days_to_march_first(y1));
    }
}

proof fn lemma_date_fields_march(days: int)
    requires
        days >= 0,
    ensures
        ({
            let doe = days + 719468;
            let y = (400 * doe) / 146097;
            &&& date_fields(days) == march_date(y, doe - days_to_march_first(y))
            &&& 0 <= doe - days_to_march_first(y) <= 366
        }),
{
    let doe = days + 719468;
    lemma_day_of_estimated_year(doe);
    lemma_year_estimate(doe);
    let y = (400 * doe) / 146097;
    assert(doe - y * 365 - y / 4 + y / 100 - y / 400 == doe - days_to_march_first(y));
}

proof fn lemma_date_step(days: int)
    requires
        days >= 0,
    ensures
        date_key(date_fields(days)) < date_key(date_fields(days + 1)),
{
    lemma_date_fields_march(days);
    lemma_date_fields_march(days + 1);
    let doe = days + 719468;
    let y = (400 * doe) / 146097;
    let y2 = (400 * (doe + 1)) / 146097;
    lemma_year_estimate(doe);
    lemma_year_estimate(doe + 1);
    assert(146097 * y <= 400 * doe < 146097 * y + 146097);
    assert(146097 * y2 <= 400 * doe + 400 < 146097 * y2 + 146097);
    assert(y2 == y || y2 == y + 1);
    let doy = doe - days_to_march_first(y);
    if y2 == y {
        lemma_march_step(y, doy);
    } else {
        let doy2 = doe + 1 - days_to_march_first(y2);
        assert(y2 / 4 * 4 >= y2 - 3);
        assert(y2 / 100 * 100 <= y2);
        assert(y2 / 400 * 400 >= y2 - 399);
        assert(doy2 <= 2);
        lemma_march_date(y, doy);
        lemma_march_date(y2, doy2);
    }
}

/// Later days have later dates: the date fields of a later non-negative day count order
/// after those of an earlier one.
pub proof fn date_fields_increase(d1: int, d2: int)
    requires
        0 <= d1 < d2,
    ensures
        date_key(date_fields(d1)) < date_key(date_fields(d2)),
    decreases d2 - d1,
{
    if d2 > d1 + 1 {
        date_fields_increase(d1, d2 - 1);
    }
    lemma_date_step(d2 - 1);
}


/// Whether `a` sorts before `b` character by character (the order of `str`): at the first
/// place where they differ, `a` has the smaller character, or `a` is a proper prefix of `b`.
pub open spec fn text_lt(a: Seq<char>, b: Seq<char>) -> bool {
    differs_first_below(a, b) || (a.len() < b.len() && b.take(a.len() as int) == a)
}

/// Whether `a` and `b` agree up to some place inside both, where `a` has the smaller
/// character.
pub open spec fn differs_first_below(a: Seq<char>, b: Seq<char>) -> bool {
    exists|i: int| 0 <= i < a.len() && i < b.len() && a.take(i) == b.take(i) && #[trigger] a[i] < b[i]
}

/// The last `w` decimal digits of `n`.
spec fn fixed_digits(n: nat, w: nat) -> Seq<char>
    decreases w,
{
    if w == 0 {
        Seq::empty()
    } else {
        fixed_digits(n / 10, (w - 1) as nat).push(digit_char((n % 10) as int))
    }
}

spec fn pow10(w: nat) -> nat
    decreases w,
{
    if w == 0 { 1 } else { 10 * pow10((w - 1) as nat) }
}

proof fn lemma_fixed_digits_len(n: nat, w: nat)
    ensures
        fixed_digits(n, w).len() == w,
    decreases w,
{
    if w > 0 {
        lemma_fixed_digits_len(n / 10, (w - 1) as nat);
    }
}

proof fn lemma_digit_char_order(a: int, b: int)
    requires
        0 <= a < b < 10,
    ensures
        digit_char(a) < digit_char(b),
{
}

proof fn lemma_fixed_digits_lt(n1: nat, n2: nat, w: nat)
    requires
        n1 < n2 < pow10(w),
    ensures
        differs_first_below(fixed_digits(n1, w), fixed_digits(n2, w)),
    decreases w,
{
    lemma_fixed_digits_len(n1, w);
    lemma_fixed_digits_len(n2, w);
    assert(w > 0);
    let w1 = (w - 1) as nat;
    let a = fixed_digits(n1, w);
    let b = fixed_digits(n2, w);
    lemma_fixed_digits_len(n1 / 10, w1);
    lemma_fixed_digits_len(n2 / 10, w1);
    if n1 / 10 == n2 / 10 {
        lemma_digit_char_order((n1 % 10) as int, (n2 % 10) as int);
        assert(a.take(w1 as int) =~= b.take(w1 as int));
        assert(a[w1 as int] < b[w1 as int]);
    } else {
        assert(n2 / 10 < pow10(w1));
        lemma_fixed_digits_lt(n1 / 10, n2 / 10, w1);
        let i = choose|i: int| 0 <= i < fixed_digits(n1 / 10, w1).len() && i < fixed_digits(n2 / 10, w1).len()
            && fixed_digits(n1 / 10, w1).take(i) == fixed_digits(n2 / 10, w1).take(i)
            && #[trigger] fixed_digits(n1 / 10, w1)[i] < fixed_digits(n2 / 10, w1)[i];
        assert(a.take(i) =~= fixed_digits(n1 / 10, w1).take(i));
        assert(b.take(i) =~= fixed_digits(n2 / 10, w1).take(i));
        assert(a[i] < b[i]);
    }
}

proof fn lemma_two_digits(n: nat)
    requires
        n < 100,
    ensures
        zero_padded(n, 2) == fixed_digits(n, 2),
{
    lemma_decimal_len(n);
    reveal_with_fuel(fixed_digits, 3);
    assert(fixed_digits(n, 2) =~= seq![digit_char((n / 10 % 10) as int), digit_char((n % 10) as int)]);
    if n < 10 {
        assert(zero_padded(n, 2) =~= fixed_digits(n, 2));
    } else {
        assert(decimal(n / 10) == seq![digit_char((n / 10) as int)]);
        assert(zero_padded(n, 2) =~= fixed_digits(n, 2));
    }
}

proof fn lemma_four_digits(n: nat)
    requires
        1000 <= n < 10000,
    ensures
        zero_padded(n, 4) == fixed_digits(n, 4),
{
    lemma_decimal_len(n);
    reveal_with_fuel(fixed_digits, 5);
    assert(fixed_digits(n, 4) =~= seq![digit_char((n / 1000 % 10) as int), digit_char((n / 100 % 10) as int),
        digit_char((n / 10 % 10) as int), digit_char((n % 10) as int)]);
    assert(decimal(n / 1000) == seq![digit_char((n / 1000) as int)]);
    assert(decimal(n / 100) =~= seq![digit_char((n / 1000) as int), digit_char((n / 100 % 10) as int)]);
    assert(decimal(n / 10) =~= seq![digit_char((n / 1000) as int), digit_char((n / 100 % 10) as int),
        digit_char((n / 10 % 10) as int)]);
    assert(zero_padded(n, 4) =~= fixed_digits(n, 4));
}

proof fn lemma_lt_after_same(a: Seq<char>, b1: Seq<char>, b2: Seq<char>)
    requires
        text_lt(b1, b2),
    ensures
        text_lt(a + b1, a + b2),
{
    if differs_first_below(b1, b2) {
        let i = choose|i: int| 0 <= i < b1.len() && i < b2.len() && b1.take(i) == b2.take(i) && #[trigger] b1[i] < b2[i];
        assert((a + b1).take(a.len() + i) =~= a + b1.take(i));
        assert((a + b2).take(a.len() + i) =~= a + b2.take(i));
        assert((a + b1)[a.len() + i] < (a + b2)[a.len() + i]);
    } else {
        assert((a + b2).take((a + b1).len() as int) =~= a + b2.take(b1.len() as int));
    }
}

proof fn lemma_lt_in_front(a1: Seq<char>, a2: Seq<char>, b1: Seq<char>, b2: Seq<char>)
    requires
        differs_first_below(a1, a2),
    ensures
        differs_first_below(a1 + b1, a2 + b2),
{
    let i = choose|i: int| 0 <= i < a1.len() && i < a2.len() && a1.take(i) == a2.take(i) && #[trigger] a1[i] < a2[i];
    assert((a1 + b1).take(i) =~= a1.take(i));
    assert((a2 + b2).take(i) =~= a2.take(i));
    assert((a1 + b1)[i] < (a2 + b2)[i]);
}


/// A separator character, then a field, then the rest of a timestamp text.
spec fn level(sep: char, field: Seq<char>, rest: Seq<char>) -> Seq<char> {
    seq![sep] + (field + rest)
}

proof fn lemma_level_lt(sep: char, c1: Seq<char>, c2: Seq<char>, x1: Seq<char>, x2: Seq<char>)
    requires
        differs_first_below(c1, c2) || (c1 == c2 && text_lt(x1, x2)),
    ensures
        text_lt(level(sep, c1, x1), level(sep, c2, x2)),
{
    if differs_first_below(c1, c2) {
        lemma_lt_in_front(c1, c2, x1, x2);
    } else {
        lemma_lt_after_same(c1, x1, x2);
    }
    lemma_lt_after_same(seq![sep], c1 + x1, c2 + x2);
}

/// The timestamp text of the fields, each field in its fixed number of digits.
spec fn stamp(f: (nat, nat, nat, nat, nat, nat)) -> Seq<char> {
    fixed_digits(f.0, 4) + level('-', fixed_digits(f.1, 2), level('-', fixed_digits(f.2, 2),
        level('T', fixed_digits(f.3, 2), level(':', fixed_digits(f.4, 2),
        level(':', fixed_digits(f.5, 2), Seq::empty())))))
}

/// Fields within the ranges of an instant from 1970 through the end of year 9999.
spec fn fields_in_range(f: (nat, nat, nat, nat, nat, nat)) -> bool {
    1000 <= f.0 < 10000 && f.1 < 100 && f.2 < 100 && f.3 < 100 && f.4 < 100 && f.5 < 100
}

/// Whether the fields `f1` come before the fields `f2`, field by field.
spec fn fields_lt(f1: (nat, nat, nat, nat, nat, nat), f2: (nat, nat, nat, nat, nat, nat)) -> bool {
    ||| f1.0 < f2.0
    ||| f1.0 == f2.0 && f1.1 < f2.1
    ||| f1.0 == f2.0 && f1.1 == f2.1 && f1.2 < f2.2
    ||| f1.0 == f2.0 && f1.1 == f2.1 && f1.2 == f2.2 && f1.3 < f2.3
    ||| f1.0 == f2.0 && f1.1 == f2.1 && f1.2 == f2.2 && f1.3 == f2.3 && f1.4 < f2.4
    ||| f1.0 == f2.0 && f1.1 == f2.1 && f1.2 == f2.2 && f1.3 == f2.3 && f1.4 == f2.4 && f1.5 < f2.5
}

proof fn lemma_stamp_lt(f1: (nat, nat, nat, nat, nat, nat), f2: (nat, nat, nat, nat, nat, nat))
    requires
        fields_in_range(f1),
        fields_in_range(f2),
        fields_lt(f1, f2),
    ensures
        text_lt(stamp(f1), stamp(f2)),
{
    reveal_with_fuel(pow10, 5);
    let e: Seq<char> = Seq::empty();
    let l5a = level(':', fixed_digits(f1.5, 2), e);
    let l5b = level(':', fixed_digits(f2.5, 2), e);
    let l4a = level(':', fixed_digits(f1.4, 2), l5a);
    let l4b = level(':', fixed_digits(f2.4, 2), l5b);
    let l3a = level('T', fixed_digits(f1.3, 2), l4a);
    let l3b = level('T', fixed_digits(f2.3, 2), l4b);
    let l2a = level('-', fixed_digits(f1.2, 2), l3a);
    let l2b = level('-', fixed_digits(f2.2, 2), l3b);
    let l1a = level('-', fixed_digits(f1.1, 2), l2a);
    let l1b = level('-', fixed_digits(f2.1, 2), l2b);
    if f1.0 < f2.0 {
        lemma_fixed_digits_lt(f1.0, f2.0, 4);
        lemma_lt_in_front(fixed_digits(f1.0, 4), fixed_digits(f2.0, 4), l1a, l1b);
        return;
    }
    if f1.1 < f2.1 {
        lemma_fixed_digits_lt(f1.1, f2.1, 2);
    } else {
        if f1.2 < f2.2 {
            lemma_fixed_digits_lt(f1.2, f2.2, 2);
        } else {
            if f1.3 < f2.3 {
                lemma_fixed_digits_lt(f1.3, f2.3, 2);
            } else {
                if f1.4 < f2.4 {
                    lemma_fixed_digits_lt(f1.4, f2.4, 2);
                } else {
                    lemma_fixed_digits_lt(f1.5, f2.5, 2);
                    lemma_level_lt(':', fixed_digits(f1.5, 2), fixed_digits(f2.5, 2), e, e);
                }
                lemma_level_lt(':', fixed_digits(f1.4, 2), fixed_digits(f2.4, 2), l5a, l5b);
            }
            lemma_level_lt('T', fixed_digits(f1.3, 2), fixed_digits(f2.3, 2), l4a, l4b);
        }
        lemma_level_lt('-', fixed_digits(f1.2, 2), fixed_digits(f2.2, 2), l3a, l3b);
    }
    lemma_level_lt('-', fixed_digits(f1.1, 2), fixed_digits(f2.1, 2), l2a, l2b);
    lemma_lt_after_same(fixed_digits(f1.0, 4), l1a, l1b);
}


/// Every day from 1970-01-01 through 9999-12-31 has a four-digit year.
proof fn lemma_date_in_range(days: int)
    requires
        0 <= days <= 2932896,
    ensures
        ({
            let f = date_fields(days);
            &&& 1970 <= f.0 <= 9999
            &&& 1 <= f.1 <= 12
            &&& 1 <= f.2 <= 31
        }),
{
    lemma_date_fields_march(days);
    let doe = days + 719468;
    let y = (400 * doe) / 146097;
    lemma_march_date(y, doe - days_to_march_first(y));
    lemma_date_fields_march(0);
    assert((400 * 719468) / 146097 == 1969);
    assert(days_to_march_first(1969) == 719162);
    lemma_march_date(1969, 306);
    assert(date_fields(0) == (1970int, 1int, 1int));
    lemma_date_fields_march(2932896);
    assert((400 * (2932896 + 719468)) / 146097 == 9999);
    assert(days_to_march_first(9999) == 3652059);
    lemma_march_date(9999, 305);
    assert(date_fields(2932896) == (9999int, 12int, 31int));
    if days > 0 {
        date_fields_increase(0, days);
    }
    if days < 2932896 {
        date_fields_increase(days, 2932896);
    }
}

/// The fields of the timestamp of `t` as natural numbers.
spec fn nat_fields(t: int) -> (nat, nat, nat, nat, nat, nat) {
    let f = timestamp_fields(t);
    (f.0 as nat, f.1 as nat, f.2 as nat, f.3 as nat, f.4 as nat, f.5 as nat)
}

proof fn lemma_stamp_shape(y: Seq<char>, m: Seq<char>, d: Seq<char>, h: Seq<char>, mi: Seq<char>, sec: Seq<char>)
    ensures
        y + seq!['-'] + m + seq!['-'] + d + seq!['T'] + h + seq![':'] + mi + seq![':'] + sec
            == y + level('-', m, level('-', d, level('T', h, level(':', mi, level(':', sec, Seq::empty()))))),
{
    let e: Seq<char> = Seq::empty();
    let l5 = level(':', sec, e);
    assert(l5 =~= seq![':'] + sec);
    let l4 = level(':', mi, l5);
    assert(l4 =~= seq![':'] + mi + seq![':'] + sec);
    let l3 = level('T', h, l4);
    assert(l3 =~= seq!['T'] + h + seq![':'] + mi + seq![':'] + sec);
    let l2 = level('-', d, l3);
    assert(l2 =~= seq!['-'] + d + seq!['T'] + h + seq![':'] + mi + seq![':'] + sec);
    let l1 = level('-', m, l2);
    assert(l1 =~= seq!['-'] + m + seq!['-'] + d + seq!['T'] + h + seq![':'] + mi + seq![':'] + sec);
    assert(y + seq!['-'] + m + seq!['-'] + d + seq!['T'] + h + seq![':'] + mi + seq![':'] + sec =~= y + l1);
}

proof fn lemma_text_of_fields(f: (int, int, int, int, int, int))
    requires
        1970 <= f.0 <= 9999,
        0 <= f.1 < 100,
        0 <= f.2 < 100,
        0 <= f.3 < 100,
        0 <= f.4 < 100,
        0 <= f.5 < 100,
    ensures
        signed_zero_padded(f.0, 4) + seq!['-'] + signed_zero_padded(f.1, 2) + seq!['-']
            + signed_zero_padded(f.2, 2) + seq!['T'] + signed_zero_padded(f.3, 2) + seq![':']
            + signed_zero_padded(f.4, 2) + seq![':'] + signed_zero_padded(f.5, 2)
            == stamp((f.0 as nat, f.1 as nat, f.2 as nat, f.3 as nat, f.4 as nat, f.5 as nat)),
{
    lemma_four_digits(f.0 as nat);
    lemma_two_digits(f.1 as nat);
    lemma_two_digits(f.2 as nat);
    lemma_two_digits(f.3 as nat);
    lemma_two_digits(f.4 as nat);
    lemma_two_digits(f.5 as nat);
    assert(signed_zero_padded(f.0, 4) == fixed_digits(f.0 as nat, 4));
    assert(signed_zero_padded(f.1, 2) == fixed_digits(f.1 as nat, 2));
    assert(signed_zero_padded(f.2, 2) == fixed_digits(f.2 as nat, 2));
    assert(signed_zero_padded(f.3, 2) == fixed_digits(f.3 as nat, 2));
    assert(signed_zero_padded(f.4, 2) == fixed_digits(f.4 as nat, 2));
    assert(signed_zero_padded(f.5, 2) == fixed_digits(f.5 as nat, 2));
    lemma_stamp_shape(fixed_digits(f.0 as nat, 4), fixed_digits(f.1 as nat, 2), fixed_digits(f.2 as nat, 2),
        fixed_digits(f.3 as nat, 2), fixed_digits(f.4 as nat, 2), fixed_digits(f.5 as nat, 2));
}

proof fn lemma_text_is_stamp(t: int)
    requires
        0 <= t < 253402300800,
    ensures
        fields_in_range(nat_fields(t)),
        timestamp_text(t) == stamp(nat_fields(t)),
        timestamp_fields(t) == ({
            let d = date_fields(t / 86400);
            let c = time_fields(t % 86400);
            (d.0, d.1, d.2, c.0, c.1, c.2)
        }),
{
    let days = t / 86400;
    lemma_date_in_range(days);
    lemma_time_of_day(t % 86400);
    lemma_text_of_fields(timestamp_fields(t));
}

/// Timestamp texts sort as their instants do: for two instants from 1970-01-01T00:00:00
/// up to the end of year 9999, the earlier one's text comes first in the order of `str`,
/// so sorting notes by creation text sorts them by creation time.
pub proof fn timestamp_texts_sort_as_instants(t1: int, t2: int)
    requires
        0 <= t1 < t2 < 253402300800,
    ensures
        text_lt(timestamp_text(t1), timestamp_text(t2)),
{
    lemma_text_is_stamp(t1);
    lemma_text_is_stamp(t2);
    let d1 = t1 / 86400;
    let d2 = t2 / 86400;
    lemma_time_of_day(t1 % 86400);
    lemma_time_of_day(t2 % 86400);
    lemma_date_in_range(d1);
    lemma_date_in_range(d2);
    if d1 < d2 {
        date_fields_increase(d1, d2);
    }
    assert(fields_lt(nat_fields(t1), nat_fields(t2)));
    lemma_stamp_lt(nat_fields(t1), nat_fields(t2));
}

} // verus!
