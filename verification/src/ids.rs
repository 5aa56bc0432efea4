//! Random identifiers: note ids and the file names of stored images.
use vstd::prelude::*;
use crate::text::{append_str, string_of};
use rand::rngs::OsRng;
use rand::RngCore;

verus! {

/// A lower-case hexadecimal digit.
pub open spec fn is_lower_hex(c: char) -> bool {
    ('0' <= c && c <= '9') || ('a' <= c && c <= 'f')
}

/// The text of a version-4 UUID in hyphenated lower-case form
/// (`xxxxxxxx-xxxx-4xxx-Nxxx-xxxxxxxxxxxx`, `N` one of `8 9 a b`).
pub open spec fn is_uuid_v4_text(s: Seq<char>) -> bool {
    &&& s.len() == 36
    &&& forall|i: int| 0 <= i < 36 ==> if i == 8 || i == 13 || i == 18 || i == 23 {
        #[trigger] s[i] == '-'
    } else {
        is_lower_hex(s[i])
    }
    &&& s[14] == '4'
    &&& (s[19] == '8' || s[19] == '9' || s[19] == 'a' || s[19] == 'b')
}

/// A fresh random version-4 UUID in hyphenated lower-case form: sixteen bytes from the
/// operating system's random source (`rand::rngs::OsRng::try_fill_bytes`), made a UUID by
/// `uuid::Builder::from_random_bytes` (which sets the version nibble to 4 and the variant
/// bits to `10`) and written by its `Display`.  `None` when the random source fails.
/// Nothing is stated of the random bits.
#[verifier::external_body]
pub(crate) fn new_uuid_text() -> (r: Option<String>)
    ensures
        r matches Some(s) ==> is_uuid_v4_text(s@),
{
    let mut bytes = [0u8; 16];
    match OsRng.try_fill_bytes(&mut bytes) {
        Ok(()) => Some(uuid::Builder::from_random_bytes(bytes).into_uuid().to_string()),
        Err(_) => None,
    }
}

/// The file name under which a captured image is stored: a fresh UUID and `.png`.
/// `None` when the operating system's random source fails.
pub fn new_image_file_name() -> (r: Option<String>)
    ensures
        r matches Some(name) ==> {
            &&& name@.len() == 40
            &&& is_uuid_v4_text(name@.take(36))
            &&& name@.skip(36) == ".png"@
        },
{
    let id = match new_uuid_text() {
        Some(id) => id,
        None => return None,
    };
    let mut v: Vec<char> = Vec::new();
    append_str(&mut v, id.as_str());
    append_str(&mut v, ".png");
    proof {
        reveal_strlit(".png");
        assert(v@.take(36) =~= id@);
        assert(v@.skip(36) =~= ".png"@);
    }
    Some(string_of(&v))
}

} // verus!
