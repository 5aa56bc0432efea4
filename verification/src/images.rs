//! Copied images: their hash and their decoding.
use vstd::prelude::*;
use std::collections::hash_map::DefaultHasher;
use std::hash::{Hash, Hasher};

verus! {

#[verifier::external_type_specification]
#[verifier::external_body]
pub struct ExDynamicImage(image::DynamicImage);

/// The pixel width and height of the image that `image::load_from_memory` decodes from
/// `bytes` (guessing the format from the bytes), `None` when it decodes none.
pub uninterp spec fn decoded_size(bytes: Seq<u8>) -> Option<(u32, u32)>;

/// The hash of a copied image's bytes: what a `DefaultHasher::new()` (fixed keys) gives
/// after hashing the byte slice.
pub uninterp spec fn bytes_hash(bytes: Seq<u8>) -> u64;

/// `image::load_from_memory`: the decoded image and its `width()` and `height()`, `None`
/// when the bytes decode to no image.  The result is named by `decoded_size`.
#[verifier::external_body]
pub(crate) fn decode_image(bytes: &[u8]) -> (r: Option<(image::DynamicImage, u32, u32)>)
    ensures
        r is None <==> decoded_size(bytes@) is None,
        r matches Some((_, w, h)) ==> decoded_size(bytes@) == Some((w, h)),
{
    match image::load_from_memory(bytes) {
        Ok(img) => {
            let (w, h) = (img.width(), img.height());
            Some((img, w, h))
        },
        Err(_) => None,
    }
}

/// The `std` `DefaultHasher::new()` hash of a byte slice, named by `bytes_hash`.
#[verifier::external_body]
pub(crate) fn image_hash(bytes: &[u8]) -> (h: u64)
    ensures
        h == bytes_hash(bytes@),
{
    let mut hasher = DefaultHasher::new();
    bytes.hash(&mut hasher);
    hasher.finish()
}

} // verus!
