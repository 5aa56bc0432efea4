//! The pairing code that a phone must present to join the board's socket.
use vstd::prelude::*;
use rand::rngs::{OsRng, StdRng};
use rand::{Rng, SeedableRng};
use crate::text::{decimal, lemma_decimal_len, push_zero_padded, string_of, zero_padded, zeros};

verus! {

/// A random number below `bound`: a generator seeded from the operating system's random
/// source (`rand::rngs::StdRng::from_rng(OsRng)`), then `gen_range(0..bound)`, which the
/// `rand` crate documents as drawing from the range (it panics only on an empty range,
/// which `bound > 0` rules out).  `None` when the random source fails.
#[verifier::external_body]
fn random_below(bound: u32) -> (r: Option<u32>)
    requires
        bound > 0,
    ensures
        r matches Some(n) ==> n < bound,
{
    match StdRng::from_rng(OsRng) {
        Ok(mut rng) => Some(rng.gen_range(0..bound)),
        Err(_) => None,
    }
}

/// The text of pairing code `n`: its six-digit zero-padded numeral.
pub fn pairing_code_text(n: u32) -> (r: String)
    requires
        n < 1_000_000,
    ensures
        r@ == zero_padded(n as nat, 6),
{
    let mut v: Vec<char> = Vec::new();
    push_zero_padded(&mut v, n as u64, 6);
    assert(v@ =~= zero_padded(n as nat, 6));
    string_of(&v)
}

/// A fresh random pairing code: the six-digit numeral of a number below one million.
/// `None` when the operating system's random source fails.
pub fn new_pairing_code() -> (r: Option<String>)
    ensures
        r matches Some(code) ==> {
            &&& exists|n: nat| n < 1_000_000 && code@ == #[trigger] zero_padded(n, 6)
            &&& code@.len() == 6
            &&& forall|i: int| 0 <= i < 6 ==> '0' <= #[trigger] code@[i] && code@[i] <= '9'
        },
{
    let n = match random_below(1_000_000) {
        Some(n) => n,
        None => return None,
    };
    let r = pairing_code_text(n);
    proof {
        pairing_code_is_six_digits(n as nat);
    }
    Some(r)
}

proof fn lemma_decimal_digits(n: nat)
    ensures
        forall|i: int| 0 <= i < decimal(n).len() ==> '0' <= #[trigger] decimal(n)[i] && decimal(n)[i] <= '9',
    decreases n,
{
    if n >= 10 {
        lemma_decimal_digits(n / 10);
        assert forall|i: int| 0 <= i < decimal(n).len() implies '0' <= #[trigger] decimal(n)[i] && decimal(n)[i] <= '9' by {
            if i < decimal(n / 10).len() {
                assert(decimal(n)[i] == decimal(n / 10)[i]);
            }
        }
    }
}

/// Every pairing code is exactly six decimal digits.
pub proof fn pairing_code_is_six_digits(n: nat)
    requires
        n < 1_000_000,
    ensures
        zero_padded(n, 6).len() == 6,
        forall|i: int| 0 <= i < 6 ==> '0' <= #[trigger] zero_padded(n, 6)[i] && zero_padded(n, 6)[i] <= '9',
{
    lemma_decimal_len(n);
    lemma_decimal_digits(n);
    let ds = decimal(n);
    assert(ds.len() <= 6);
    if ds.len() < 6 {
        let p = zeros((6 - ds.len()) as nat) + ds;
        assert(zero_padded(n, 6) == p);
        assert forall|i: int| 0 <= i < 6 implies '0' <= #[trigger] p[i] && p[i] <= '9' by {
            if i >= 6 - ds.len() {
                assert(p[i] == ds[i - (6 - ds.len())]);
            }
        }
    }
}

/// The code that a join request offers: the `code` query parameter, or the empty text
/// when the request has none.
pub open spec fn offered_code(offered: Option<Seq<char>>) -> Seq<char> {
    match offered {
        Some(c) => c,
        None => Seq::empty(),
    }
}

/// Whether a join request offering `offered` is let in while the board's code is `stored`.
pub open spec fn code_accepted(offered: Option<Seq<char>>, stored: Seq<char>) -> bool {
    offered_code(offered) == stored
}

/// The characters of an offered code, if there is one.
pub open spec fn offered_view(offered: Option<&str>) -> Option<Seq<char>> {
    match offered {
        Some(c) => Some(c@),
        None => None,
    }
}

/// Whether a socket join request that offers `offered` as its `code` parameter is let in
/// while the board's pairing code is `stored`; a refused request is answered
/// `401 Unauthorized`.
pub fn pairing_code_accepted(offered: Option<&str>, stored: &str) -> (r: bool)
    ensures
        r == code_accepted(offered_view(offered), stored@),
{
    match offered {
        Some(c) => crate::text::same_text(c, stored),
        None => {
            let r = stored.is_empty();
            assert(r == (Seq::<char>::empty() =~= stored@));
            r
        },
    }
}

/// A join request is let in exactly when it offers the board's current code; once a
/// code has been handed out (six digits), a request without a code is refused.
pub proof fn only_the_current_code_is_accepted(offered: Seq<char>, stored: Seq<char>)
    ensures
        code_accepted(Some(stored), stored),
        offered != stored ==> !code_accepted(Some(offered), stored),
        stored.len() == 6 ==> !code_accepted(None, stored),
{
}

} // verus!
