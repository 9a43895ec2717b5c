//! The choice of a memory type.
//!
//! A device offers up to 32 memory types. `types` holds the property flags of each, and a
//! requirement holds one bit per type that it accepts.

use crate::vulkan::{MEMORY_DEVICE_LOCAL, MEMORY_HOST_READBACK, MEMORY_HOST_SHARED};
use vstd::prelude::*;

verus! {

/// Whether a requirement accepts type `i`.
pub open spec fn accepts(type_bits: u32, i: int) -> bool {
    0 <= i < 32 && type_bits & (1u32 << (i as u32)) != 0
}

/// Whether `flags` holds every flag of `wanted`.
pub open spec fn has_flags(flags: u32, wanted: u32) -> bool {
    flags & wanted == wanted
}

/// Whether type `i` is accepted, has every wanted flag, and not all the unwanted ones (where any
/// are named).
pub open spec fn suits(types: Seq<u32>, type_bits: u32, wanted: u32, unwanted: u32, i: int) -> bool {
    &&& accepts(type_bits, i)
    &&& has_flags(types[i], wanted)
    &&& unwanted != 0 ==> !has_flags(types[i], unwanted)
}

/// `choice` is the first type that suits, and there is none when it is `None`.
pub open spec fn is_first_suiting(
    types: Seq<u32>,
    type_bits: u32,
    wanted: u32,
    unwanted: u32,
    choice: Option<u32>,
) -> bool {
    match choice {
        Some(c) => {
            &&& c < types.len()
            &&& suits(types, type_bits, wanted, unwanted, c as int)
            &&& forall|j: int| 0 <= j < c ==> !#[trigger] suits(types, type_bits, wanted, unwanted, j)
        },
        None => forall|j: int| 0 <= j < types.len() ==> !#[trigger] suits(types, type_bits, wanted, unwanted, j),
    }
}

/// `choice` is the first type with the preferred flags and without the others, and where there is
/// none, the first with the fallback flags.
pub open spec fn is_preferred(
    types: Seq<u32>,
    type_bits: u32,
    preferred: u32,
    preferred_without: u32,
    fallback: u32,
    choice: Option<u32>,
) -> bool {
    if exists|j: int| 0 <= j < types.len() && #[trigger] suits(types, type_bits, preferred, preferred_without, j) {
        is_first_suiting(types, type_bits, preferred, preferred_without, choice)
    } else {
        is_first_suiting(types, type_bits, fallback, 0, choice)
    }
}

fn first_suiting(types: &[u32], type_bits: u32, wanted: u32, unwanted: u32) -> (choice: Option<u32>)
    requires
        types@.len() <= 32,
    ensures
        is_first_suiting(types@, type_bits, wanted, unwanted, choice),
{
    let mut i: usize = 0;
    while i < types.len()
        invariant
            i <= types@.len() <= 32,
            forall|j: int| 0 <= j < i ==> !#[trigger] suits(types@, type_bits, wanted, unwanted, j),
        decreases types@.len() - i,
    {
        let flags: u32 = types[i];
        let bit: u32 = 1u32 << (i as u32);
        if type_bits & bit != 0 && flags & wanted == wanted && (unwanted == 0 || flags & unwanted != unwanted) {
            assert(suits(types@, type_bits, wanted, unwanted, i as int));
            return Some(i as u32);
        }
        i = i + 1;
    }
    None
}

/// The first accepted type with every wanted flag.
pub fn find_memory_type(types: &[u32], type_bits: u32, wanted: u32) -> (choice: Option<u32>)
    requires
        types@.len() <= 32,
    ensures
        is_first_suiting(types@, type_bits, wanted, 0, choice),
{
    first_suiting(types, type_bits, wanted, 0)
}

/// The type for a buffer that the device writes and the CPU reads back: the first cached, coherent
/// and host-visible one that is not device-local, whose CPU reads are fast; where there is none,
/// the first that is host-visible and coherent.
pub fn pick_readback_memory_type(types: &[u32], type_bits: u32) -> (choice: Option<u32>)
    requires
        types@.len() <= 32,
    ensures
        is_preferred(
            types@,
            type_bits,
            MEMORY_HOST_READBACK,
            MEMORY_DEVICE_LOCAL,
            MEMORY_HOST_SHARED,
            choice,
        ),
{
    let best: Option<u32> = first_suiting(types, type_bits, MEMORY_HOST_READBACK, MEMORY_DEVICE_LOCAL);
    if best.is_some() {
        assert(suits(types@, type_bits, MEMORY_HOST_READBACK, MEMORY_DEVICE_LOCAL, best.unwrap() as int));
        best
    } else {
        first_suiting(types, type_bits, MEMORY_HOST_SHARED, 0)
    }
}

/// The type for an image or buffer that only the device uses: the first device-local one, and
/// where there is none, the first that is accepted at all.
pub fn pick_device_memory_type(types: &[u32], type_bits: u32) -> (choice: Option<u32>)
    requires
        types@.len() <= 32,
    ensures
        is_preferred(types@, type_bits, MEMORY_DEVICE_LOCAL, 0, 0, choice),
{
    let best: Option<u32> = first_suiting(types, type_bits, MEMORY_DEVICE_LOCAL, 0);
    if best.is_some() {
        assert(suits(types@, type_bits, MEMORY_DEVICE_LOCAL, 0, best.unwrap() as int));
        best
    } else {
        first_suiting(types, type_bits, 0, 0)
    }
}

/// The type for a buffer over imported host memory: the first host-visible and coherent one that
/// both the buffer and the imported pointer accept.
pub fn pick_import_memory_type(types: &[u32], buffer_bits: u32, pointer_bits: u32) -> (choice: Option<u32>)
    requires
        types@.len() <= 32,
    ensures
        is_first_suiting(types@, buffer_bits & pointer_bits, MEMORY_HOST_SHARED, 0, choice),
{
    first_suiting(types, buffer_bits & pointer_bits, MEMORY_HOST_SHARED, 0)
}

/// A type chosen for read-back can always be mapped and needs no flush, and is only device-local
/// when no cached system memory was on offer.
pub proof fn readback_memory_is_host_visible(types: Seq<u32>, type_bits: u32, choice: u32)
    requires
        types.len() <= 32,
        is_preferred(
            types,
            type_bits,
            MEMORY_HOST_READBACK,
            MEMORY_DEVICE_LOCAL,
            MEMORY_HOST_SHARED,
            Some(choice),
        ),
    ensures
        choice < types.len(),
        accepts(type_bits, choice as int),
        has_flags(types[choice as int], MEMORY_HOST_SHARED),
        has_flags(types[choice as int], MEMORY_DEVICE_LOCAL) ==> forall|j: int|
            0 <= j < types.len() ==> !#[trigger] suits(
                types,
                type_bits,
                MEMORY_HOST_READBACK,
                MEMORY_DEVICE_LOCAL,
                j,
            ),
{
    let f = types[choice as int];
    assert(f & 0xe == 0xe ==> f & 0x6 == 0x6) by (bit_vector);
    if has_flags(f, MEMORY_DEVICE_LOCAL) {
        assert forall|j: int| 0 <= j < types.len() implies !#[trigger] suits(
            types,
            type_bits,
            MEMORY_HOST_READBACK,
            MEMORY_DEVICE_LOCAL,
            j,
        ) by {
            assert(!suits(types, type_bits, MEMORY_HOST_READBACK, MEMORY_DEVICE_LOCAL, choice as int));
        }
    }
}

/// A type chosen for an import is one that both sides accept.
pub proof fn imported_memory_suits_both_sides(types: Seq<u32>, buffer_bits: u32, pointer_bits: u32, choice: u32)
    requires
        types.len() <= 32,
        is_first_suiting(types, buffer_bits & pointer_bits, MEMORY_HOST_SHARED, 0, Some(choice)),
    ensures
        accepts(buffer_bits, choice as int),
        accepts(pointer_bits, choice as int),
{
    let bit = 1u32 << choice;
    assert(
        (buffer_bits & pointer_bits) & bit != 0 ==> buffer_bits & bit != 0 && pointer_bits & bit != 0
    ) by (bit_vector);
}

/// A choice is the first type whose bit the requirement has set, with every flag that is wanted and,
/// where flags are unwanted, without at least one of those; and there is none where no type is so.
pub proof fn the_first_that_suits_is_taken(
    types: Seq<u32>,
    type_bits: u32,
    wanted: u32,
    unwanted: u32,
    choice: Option<u32>,
)
    requires
        types.len() <= 32,
        is_first_suiting(types, type_bits, wanted, unwanted, choice),
    ensures
        forall|j: int|
            0 <= j < types.len() ==> {
                let fits = type_bits & (1u32 << (j as u32)) != 0 && types[j] & wanted == wanted && (unwanted == 0
                    || #[trigger] types[j] & unwanted != unwanted);
                &&& choice == Some(j as u32) ==> fits
                &&& fits ==> choice is Some && choice->0 <= j
            },
        choice matches Some(c) ==> c < types.len(),
{
    assert forall|j: int| 0 <= j < types.len() implies {
        let fits = type_bits & (1u32 << (j as u32)) != 0 && types[j] & wanted == wanted && (unwanted == 0
            || #[trigger] types[j] & unwanted != unwanted);
        &&& choice == Some(j as u32) ==> fits
        &&& fits ==> choice is Some && choice->0 <= j
    } by {
        let fits = type_bits & (1u32 << (j as u32)) != 0 && types[j] & wanted == wanted && (unwanted == 0 || types[j]
            & unwanted != unwanted);
        assert(fits == suits(types, type_bits, wanted, unwanted, j));
        assert(choice == Some(j as u32) ==> fits);
        assert(fits ==> choice is Some);
        assert(fits ==> choice->0 <= j);
    }
}

/// Memory that is read back is cached (8), coherent (4) and host-visible (2), and not device-local (1),
/// where such a type is accepted; where none is, host-visible and coherent.
pub proof fn cached_system_memory_is_preferred(types: Seq<u32>, type_bits: u32, choice: Option<u32>)
    requires
        types.len() <= 32,
        is_preferred(
            types,
            type_bits,
            MEMORY_HOST_READBACK,
            MEMORY_DEVICE_LOCAL,
            MEMORY_HOST_SHARED,
            choice,
        ),
    ensures
        forall|j: int|
            0 <= j < types.len() && type_bits & (1u32 << (j as u32)) != 0 && #[trigger] types[j] & 0xe == 0xe && types[j]
                & 1 != 1 ==> choice is Some && choice->0 <= j && types[choice->0 as int] & 0xe == 0xe
                && types[choice->0 as int] & 1 != 1,
        forall|j: int|
            0 <= j < types.len() && type_bits & (1u32 << (j as u32)) != 0 && #[trigger] types[j] & 6 == 6 ==> choice is Some,
        choice matches Some(c) ==> type_bits & (1u32 << c) != 0 && types[c as int] & 6 == 6,
{
    assert forall|j: int|
        0 <= j < types.len() && type_bits & (1u32 << (j as u32)) != 0 && #[trigger] types[j] & 0xe == 0xe && types[j] & 1
            != 1 implies choice is Some && choice->0 <= j && types[choice->0 as int] & 0xe == 0xe
        && types[choice->0 as int] & 1 != 1 by {
        assert(suits(types, type_bits, MEMORY_HOST_READBACK, MEMORY_DEVICE_LOCAL, j));
    }
    assert forall|j: int|
        0 <= j < types.len() && type_bits & (1u32 << (j as u32)) != 0 && #[trigger] types[j] & 6 == 6 implies choice is Some by {
        assert(suits(types, type_bits, MEMORY_HOST_SHARED, 0, j));
    }
    if choice is Some {
        let f = types[choice->0 as int];
        assert(f & 0xe == 0xe ==> f & 0x6 == 0x6) by (bit_vector);
    }
}

/// What only the device uses is in device-local memory (1) where such a type is accepted, and in the
/// first accepted type where none is.
pub proof fn device_memory_is_preferred(types: Seq<u32>, type_bits: u32, choice: Option<u32>, j: int)
    requires
        types.len() <= 32,
        is_preferred(types, type_bits, MEMORY_DEVICE_LOCAL, 0, 0, choice),
        0 <= j < types.len(),
        type_bits & (1u32 << (j as u32)) != 0,
    ensures
        choice matches Some(c) && c < types.len() && type_bits & (1u32 << c) != 0 && {
            &&& types[j] & 1 == 1 ==> c <= j && types[c as int] & 1 == 1
            &&& types[c as int] & 1 != 1 ==> c <= j
        },
{
    let flags = types[j];
    assert(flags & 0 == 0) by (bit_vector);
    assert(suits(types, type_bits, 0, 0, j));
    assert(flags & 1 == 1 ==> suits(types, type_bits, MEMORY_DEVICE_LOCAL, 0, j));
}

} // verus!
