//! What a device can do for the layer.

use crate::vulkan::{FORMAT_B8G8R8A8_UNORM, FORMAT_FEATURE_STORAGE_IMAGE, FORMAT_R8G8B8A8_UNORM};
use vstd::prelude::*;

verus! {

/// Whether a format with these features can be written by a shader.
pub fn supports_storage(features: u32) -> (supported: bool)
    ensures
        supported == (features & FORMAT_FEATURE_STORAGE_IMAGE == FORMAT_FEATURE_STORAGE_IMAGE),
{
    features & FORMAT_FEATURE_STORAGE_IMAGE == FORMAT_FEATURE_STORAGE_IMAGE
}

/// Whether a model's raster is encoded: there is a pass for it, and the format can be written.
pub fn wants_encode(has_pass: bool, features: u32) -> (wants: bool)
    ensures
        wants == (has_pass && features & FORMAT_FEATURE_STORAGE_IMAGE == FORMAT_FEATURE_STORAGE_IMAGE),
{
    has_pass && supports_storage(features)
}

/// The format of a model's raster. Only frames of eight bits a channel are scaled.
pub fn model_scratch_format(eight_bit: bool, bgr_order: bool) -> (format: Option<i32>)
    ensures
        format == (if !eight_bit {
            None
        } else if bgr_order {
            Some(FORMAT_B8G8R8A8_UNORM)
        } else {
            Some(FORMAT_R8G8B8A8_UNORM)
        }),
{
    if !eight_bit {
        None
    } else if bgr_order {
        Some(FORMAT_B8G8R8A8_UNORM)
    } else {
        Some(FORMAT_R8G8B8A8_UNORM)
    }
}

/// The alignment of memory that a device imports, where it says one.
pub fn min_imported_host_pointer_alignment(reported: u64) -> (alignment: Option<u64>)
    ensures
        alignment == (if reported > 0 {
            Some(reported)
        } else {
            None
        }),
{
    if reported > 0 {
        Some(reported)
    } else {
        None
    }
}

/// Whether the frames of a pipeline reach the model encoded: one of its slots has something to encode
/// into.
pub fn proxy_encoded(sets: &[Option<u64>]) -> (encoded: bool)
    ensures
        encoded == exists|i: int| 0 <= i < sets@.len() && #[trigger] sets@[i] is Some,
{
    let mut i: usize = 0;
    while i < sets.len()
        invariant
            i <= sets@.len(),
            forall|k: int| 0 <= k < i ==> #[trigger] sets@[k] is None,
        decreases sets@.len() - i,
    {
        if sets[i].is_some() {
            return true;
        }
        i += 1;
    }
    false
}

/// Whether frames may be captured without a copy: always, unless it is withheld to compare with the
/// copying path.
pub fn zero_copy_allowed(withheld: bool) -> (allowed: bool)
    ensures
        allowed == !withheld,
{
    !withheld
}

} // verus!
