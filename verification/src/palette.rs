//! The colour and the position offset of a new note, both drawn from the
//! sub-second part of the clock.
use vstd::prelude::*;
use crate::clock::{fraction_nanos, time_since_epoch};

verus! {

/// The eight colour presets of a note, indexed `0 .. 8`.
pub open spec fn palette_color(i: int) -> Seq<char> {
    if i == 0 { "#FEF08A"@ } else if i == 1 { "#FECACA"@ } else if i == 2 { "#BFDBFE"@ }
    else if i == 3 { "#BBF7D0"@ } else if i == 4 { "#DDD6FE"@ } else if i == 5 { "#FED7AA"@ }
    else if i == 6 { "#FBCFE8"@ } else { "#A5F3FC"@ }
}

/// Whether `c` is one of the eight colour presets.
pub open spec fn is_palette_color(c: Seq<char>) -> bool {
    exists|i: int| 0 <= i < 8 && c == #[trigger] palette_color(i)
}

/// The preset that the clock's nanoseconds `nanos` pick: preset `nanos % 8`.
pub fn color_for_nanos(nanos: u32) -> (r: String)
    ensures
        r@ == palette_color((nanos % 8) as int),
        is_palette_color(r@),
{
    let i = nanos % 8;
    let r = if i == 0 { "#FEF08A".to_owned() } else if i == 1 { "#FECACA".to_owned() }
        else if i == 2 { "#BFDBFE".to_owned() } else if i == 3 { "#BBF7D0".to_owned() }
        else if i == 4 { "#DDD6FE".to_owned() } else if i == 5 { "#FED7AA".to_owned() }
        else if i == 6 { "#FBCFE8".to_owned() } else { "#A5F3FC".to_owned() };
    assert(r@ == palette_color(i as int));
    r
}

/// A colour preset picked by the sub-second part of the clock.  `None` when the clock
/// reads a time before the Unix epoch.
pub fn random_color() -> (r: Option<String>)
    ensures
        r matches Some(c) ==> is_palette_color(c@),
{
    match time_since_epoch() {
        Some(elapsed) => Some(color_for_nanos(fraction_nanos(&elapsed))),
        None => None,
    }
}

/// The position offset that the clock's nanoseconds `nanos` pick: `nanos % 200`.
pub fn offset_for_nanos(nanos: u32) -> (r: u32)
    ensures
        r == nanos % 200,
        r < 200,
{
    nanos % 200
}

/// A position offset in `0 .. 200` picked by the sub-second part of the clock (a note is
/// placed at `200 + offset` on each axis).  `None` when the clock reads a time before the
/// Unix epoch.
pub fn rand_offset() -> (r: Option<u32>)
    ensures
        r matches Some(v) ==> v < 200,
{
    match time_since_epoch() {
        Some(elapsed) => Some(offset_for_nanos(fraction_nanos(&elapsed))),
        None => None,
    }
}

} // verus!
