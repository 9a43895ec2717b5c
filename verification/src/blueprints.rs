//! What the objects of a builder are made like: the memory that they get, how large their buffers are,
//! what their images can be used for, and the shape of a pass.

use crate::building::{steps_of, Builder, Object, Step};
use crate::compose_slots::ASYNC_SLOTS;
use crate::memory::{
    accepts, cached_system_memory_is_preferred, device_memory_is_preferred, find_memory_type, has_flags, imported_memory_suits_both_sides, is_first_suiting, is_preferred,
    pick_device_memory_type, pick_import_memory_type, pick_readback_memory_type, readback_memory_is_host_visible,
    suits, the_first_that_suits_is_taken,
};
use crate::vulkan::{
    FORMAT_R8G8B8A8_UNORM, IMAGE_CREATE_MUTABLE_FORMAT, IMAGE_USAGE_STORAGE, IMAGE_USAGE_TRANSFER_DST,
    IMAGE_USAGE_TRANSFER_SRC, MEMORY_DEVICE_LOCAL, MEMORY_HOST_READBACK, MEMORY_HOST_SHARED,
};
use vstd::prelude::*;

verus! {

/// How the type of a memory is chosen.
#[derive(Clone, Copy, Debug, PartialEq, Eq, Structural)]
pub enum MemoryPolicy {
    /// Host memory that is imported.
    Imported,
    /// The device writes it, and the CPU reads it back.
    ReadBack,
    /// The CPU and the device share it.
    Shared,
    /// Only the device uses it.
    DeviceOnly,
}

/// How the type of a builder's memory is chosen.
pub open spec fn policy_of(b: Builder, memory: Object) -> MemoryPolicy {
    if memory == Object::BufferMemory {
        if b == Builder::HostImport {
            MemoryPolicy::Imported
        } else {
            MemoryPolicy::ReadBack
        }
    } else if memory == Object::StagingMemory {
        MemoryPolicy::Shared
    } else {
        MemoryPolicy::DeviceOnly
    }
}

/// How the type of a builder's memory is chosen: what is captured or downloaded is read back, a
/// staging buffer is shared, and images and what is kept on the device are the device's alone.
pub fn memory_policy(b: Builder, memory: Object) -> (p: MemoryPolicy)
    ensures
        p == policy_of(b, memory),
{
    match memory {
        Object::BufferMemory => match b {
            Builder::HostImport => MemoryPolicy::Imported,
            _ => MemoryPolicy::ReadBack,
        },
        Object::StagingMemory => MemoryPolicy::Shared,
        _ => MemoryPolicy::DeviceOnly,
    }
}

/// `choice` is the memory type that a policy chooses, among those that the object accepts and, of an
/// import, that the imported pointer accepts.
pub open spec fn is_choice(
    p: MemoryPolicy,
    types: Seq<u32>,
    type_bits: u32,
    pointer_bits: u32,
    choice: Option<u32>,
) -> bool {
    match p {
        MemoryPolicy::Imported => is_first_suiting(types, type_bits & pointer_bits, MEMORY_HOST_SHARED, 0, choice),
        MemoryPolicy::ReadBack => is_preferred(
            types,
            type_bits,
            MEMORY_HOST_READBACK,
            MEMORY_DEVICE_LOCAL,
            MEMORY_HOST_SHARED,
            choice,
        ),
        MemoryPolicy::Shared => is_first_suiting(types, type_bits, MEMORY_HOST_SHARED, 0, choice),
        MemoryPolicy::DeviceOnly => is_preferred(types, type_bits, MEMORY_DEVICE_LOCAL, 0, 0, choice),
    }
}

/// The memory type that a policy chooses.
pub fn choose_memory(p: MemoryPolicy, types: &[u32], type_bits: u32, pointer_bits: u32) -> (choice: Option<u32>)
    requires
        types@.len() <= 32,
    ensures
        is_choice(p, types@, type_bits, pointer_bits, choice),
{
    match p {
        MemoryPolicy::Imported => pick_import_memory_type(types, type_bits, pointer_bits),
        MemoryPolicy::ReadBack => pick_readback_memory_type(types, type_bits),
        MemoryPolicy::Shared => find_memory_type(types, type_bits, MEMORY_HOST_SHARED),
        MemoryPolicy::DeviceOnly => pick_device_memory_type(types, type_bits),
    }
}

/// How much memory is allocated: as much as the object requires, but of an import exactly what is
/// imported.
pub fn allocation_bytes(p: MemoryPolicy, imported: u64, required: u64) -> (bytes: u64)
    ensures
        bytes == (if p == MemoryPolicy::Imported {
            imported
        } else {
            required
        }),
{
    match p {
        MemoryPolicy::Imported => imported,
        _ => required,
    }
}

/// How much the CPU finds in a buffer of `bytes` bytes whose memory has this policy: all that was
/// allocated where it is read back, and the buffer where it is imported or shared. Of what only the
/// device uses it finds nothing.
pub fn host_capacity(p: MemoryPolicy, bytes: u64, required: u64) -> (capacity: Option<u64>)
    ensures
        capacity == (match p {
            MemoryPolicy::ReadBack => Some(required),
            MemoryPolicy::Imported | MemoryPolicy::Shared => Some(bytes),
            MemoryPolicy::DeviceOnly => None,
        }),
{
    match p {
        MemoryPolicy::ReadBack => Some(required),
        MemoryPolicy::Imported | MemoryPolicy::Shared => Some(bytes),
        MemoryPolicy::DeviceOnly => None,
    }
}

/// The size of a buffer: that of a frame, and for staging that of a frame and its answer.
pub fn buffer_bytes(buffer: Object, frame_bytes: u64) -> (bytes: u64)
    requires
        buffer == Object::StagingBuffer ==> 2 * frame_bytes <= u64::MAX,
    ensures
        bytes == (if buffer == Object::StagingBuffer {
            2 * frame_bytes
        } else {
            frame_bytes as int
        }),
{
    match buffer {
        Object::StagingBuffer => 2 * frame_bytes,
        _ => frame_bytes,
    }
}

/// What an image is for.
#[derive(Clone, Copy, Debug, PartialEq, Eq, Structural)]
pub enum ImageRole {
    /// The model's scratch, which the encode may work on.
    Scratch { encodes: bool },
    /// A picture that the composition reads.
    Input,
    /// The picture that the composition writes.
    Output,
    /// An answer that is smaller than its frame.
    SmallAnswer,
}

/// What an image can be used for: the pictures of the composition are storage images that are copied
/// to, or from, and a scratch is copied both ways and is a storage image where the encode works on it.
pub fn image_usage(role: ImageRole) -> (usage: u32)
    ensures
        usage == (match role {
            ImageRole::Input => IMAGE_USAGE_TRANSFER_DST | IMAGE_USAGE_STORAGE,
            ImageRole::Output => IMAGE_USAGE_TRANSFER_SRC | IMAGE_USAGE_STORAGE,
            ImageRole::SmallAnswer => IMAGE_USAGE_TRANSFER_DST | IMAGE_USAGE_TRANSFER_SRC | IMAGE_USAGE_STORAGE,
            ImageRole::Scratch { encodes: true } => IMAGE_USAGE_TRANSFER_DST | IMAGE_USAGE_TRANSFER_SRC
                | IMAGE_USAGE_STORAGE,
            ImageRole::Scratch { encodes: false } => IMAGE_USAGE_TRANSFER_DST | IMAGE_USAGE_TRANSFER_SRC,
        }),
{
    match role {
        ImageRole::Input => IMAGE_USAGE_TRANSFER_DST | IMAGE_USAGE_STORAGE,
        ImageRole::Output => IMAGE_USAGE_TRANSFER_SRC | IMAGE_USAGE_STORAGE,
        ImageRole::SmallAnswer => IMAGE_USAGE_TRANSFER_DST | IMAGE_USAGE_TRANSFER_SRC | IMAGE_USAGE_STORAGE,
        ImageRole::Scratch { encodes } => if encodes {
            IMAGE_USAGE_TRANSFER_DST | IMAGE_USAGE_TRANSFER_SRC | IMAGE_USAGE_STORAGE
        } else {
            IMAGE_USAGE_TRANSFER_DST | IMAGE_USAGE_TRANSFER_SRC
        },
    }
}

/// The flags that an image is created with: the encode views a scratch in a format of its own.
pub fn image_flags(role: ImageRole) -> (flags: u32)
    ensures
        flags == (if role == (ImageRole::Scratch { encodes: true }) {
            IMAGE_CREATE_MUTABLE_FORMAT
        } else {
            0
        }),
{
    match role {
        ImageRole::Scratch { encodes: true } => IMAGE_CREATE_MUTABLE_FORMAT,
        _ => 0,
    }
}

/// The format of an image: a scratch has that of the frame, and the pictures of the composition have
/// the one that shaders work on.
pub fn image_format(role: ImageRole, frame_format: i32) -> (format: i32)
    ensures
        format == (if role is Scratch {
            frame_format
        } else {
            FORMAT_R8G8B8A8_UNORM
        }),
{
    match role {
        ImageRole::Scratch { .. } => frame_format,
        _ => FORMAT_R8G8B8A8_UNORM,
    }
}

/// The images of a compose slot, in the order in which they are made.
pub fn slot_images() -> (images: Vec<(Object, ImageRole)>)
    ensures
        images@ == seq![
            (Object::OriginalImage, ImageRole::Input),
            (Object::AnswerImage, ImageRole::Input),
            (Object::ProxyImage, ImageRole::Input),
            (Object::OutputImage, ImageRole::Output),
        ],
{
    vec![
        (Object::OriginalImage, ImageRole::Input),
        (Object::AnswerImage, ImageRole::Input),
        (Object::ProxyImage, ImageRole::Input),
        (Object::OutputImage, ImageRole::Output),
    ]
}

/// The images that the composition's set speaks of, binding by binding.
pub open spec fn bindings_of_compose() -> Seq<Object> {
    seq![Object::OriginalImage, Object::ProxyImage, Object::AnswerImage, Object::OutputImage]
}

/// The images that the composition's set speaks of, binding by binding.
pub fn bound_images() -> (images: Vec<Object>)
    ensures
        images@ == bindings_of_compose(),
{
    vec![Object::OriginalImage, Object::ProxyImage, Object::AnswerImage, Object::OutputImage]
}

/// The shape of a pass over images.
#[derive(Clone, Copy, Debug, PartialEq, Eq, Structural)]
pub struct PassShape {
    /// How many images a set speaks of.
    pub bindings: u32,
    /// The size of its constants.
    pub push_bytes: u32,
    /// How many sets its pool has.
    pub sets: u32,
    /// How many images the sets of its pool speak of together.
    pub descriptors: u32,
    /// Its sets are given back one by one.
    pub frees_sets: bool,
}

/// The shape of the pass that a builder makes. The composition has a set for each of its slots, and
/// five words of constants. The encode has sets to spare, which are given back when a scratch is built
/// anew, and three words of constants.
pub open spec fn shape_of(b: Builder) -> Option<PassShape> {
    match b {
        Builder::Compose => Some(
            PassShape { bindings: 4, push_bytes: 20, sets: 3, descriptors: 12, frees_sets: false },
        ),
        Builder::EncodePass => Some(
            PassShape { bindings: 1, push_bytes: 12, sets: 16, descriptors: 16, frees_sets: true },
        ),
        _ => None,
    }
}

/// The shape of the pass that a builder makes, where it makes one.
pub fn pass_shape(b: Builder) -> (shape: Option<PassShape>)
    ensures
        shape == shape_of(b),
{
    match b {
        Builder::Compose => Some(
            PassShape { bindings: 4, push_bytes: 20, sets: 3, descriptors: 12, frees_sets: false },
        ),
        Builder::EncodePass => Some(
            PassShape { bindings: 1, push_bytes: 12, sets: 16, descriptors: 16, frees_sets: true },
        ),
        _ => None,
    }
}

/// A pool serves every set of its pass: there are as many images as all sets speak of, the composition
/// has a set for the slot that is waited for and for each that takes turns, and its sets speak of all
/// its images.
pub proof fn a_pool_serves_every_set(b: Builder, shape: PassShape)
    requires
        shape_of(b) == Some(shape),
    ensures
        shape.descriptors == shape.bindings * shape.sets,
        b == Builder::Compose ==> shape.sets == 1 + ASYNC_SLOTS && shape.bindings == bindings_of_compose().len(),
{
    let (bindings, sets) = (shape.bindings as int, shape.sets as int);
    if b == Builder::Compose {
        assert(bindings * sets == 12) by (nonlinear_arith)
            requires
                bindings == 4,
                sets == 3,
        ;
    } else {
        assert(bindings * sets == 16) by (nonlinear_arith)
            requires
                bindings == 1,
                sets == 16,
        ;
    }
}

/// Whatever is mapped can be: its memory is of a type that the object accepts, that the host sees, and
/// that needs no flush.
pub proof fn what_is_mapped_is_host_visible(
    b: Builder,
    i: int,
    memory: Object,
    types: Seq<u32>,
    type_bits: u32,
    pointer_bits: u32,
    choice: u32,
)
    requires
        0 <= i < steps_of(b).len(),
        steps_of(b)[i] == Step::MapMemory(memory),
        types.len() <= 32,
        is_choice(policy_of(b, memory), types, type_bits, pointer_bits, Some(choice)),
    ensures
        choice < types.len(),
        accepts(type_bits, choice as int),
        has_flags(types[choice as int], MEMORY_HOST_SHARED),
{
    if policy_of(b, memory) == MemoryPolicy::ReadBack {
        readback_memory_is_host_visible(types, type_bits, choice);
    }
}

/// No memory is of a type that its object does not accept; and that of an import is one that the
/// imported pointer accepts, too, and that the host sees.
pub proof fn a_chosen_memory_is_accepted(
    p: MemoryPolicy,
    types: Seq<u32>,
    type_bits: u32,
    pointer_bits: u32,
    choice: u32,
)
    requires
        types.len() <= 32,
        is_choice(p, types, type_bits, pointer_bits, Some(choice)),
    ensures
        choice < types.len(),
        accepts(type_bits, choice as int),
        p == MemoryPolicy::Imported ==> accepts(pointer_bits, choice as int) && has_flags(
            types[choice as int],
            MEMORY_HOST_SHARED,
        ),
{
    if p == MemoryPolicy::Imported {
        imported_memory_suits_both_sides(types, type_bits, pointer_bits, choice);
    }
}

/// The memory of a buffer that takes frames is read back, or imported where the builder imports it;
/// that of a staging buffer is shared; every other memory is the device's alone.
pub proof fn only_buffers_are_seen_by_the_host(b: Builder, memory: Object)
    ensures
        policy_of(b, memory) == (match memory {
            Object::BufferMemory if b == Builder::HostImport => MemoryPolicy::Imported,
            Object::BufferMemory => MemoryPolicy::ReadBack,
            Object::StagingMemory => MemoryPolicy::Shared,
            _ => MemoryPolicy::DeviceOnly,
        }),
{
}

/// Memory that is imported or shared is host-visible and coherent (6), and the first such type that is
/// accepted on every side is taken.
pub proof fn shared_memory_is_the_first_coherent_one(
    types: Seq<u32>,
    type_bits: u32,
    pointer_bits: u32,
    imported: Option<u32>,
    shared: Option<u32>,
    j: int,
)
    requires
        types.len() <= 32,
        is_choice(MemoryPolicy::Imported, types, type_bits, pointer_bits, imported),
        is_choice(MemoryPolicy::Shared, types, type_bits, pointer_bits, shared),
        0 <= j < types.len(),
        types[j] & 6 == 6,
    ensures
        (type_bits & pointer_bits) & (1u32 << (j as u32)) != 0 ==> imported is Some && imported->0 <= j,
        type_bits & (1u32 << (j as u32)) != 0 ==> shared is Some && shared->0 <= j,
        imported matches Some(c) ==> c < types.len() && types[c as int] & 6 == 6 && (type_bits & pointer_bits) & (1u32
            << c) != 0,
        shared matches Some(c) ==> c < types.len() && types[c as int] & 6 == 6 && type_bits & (1u32 << c) != 0,
{
    assert(types[j] & 6 == 6);
    the_first_that_suits_is_taken(types, type_bits & pointer_bits, MEMORY_HOST_SHARED, 0, imported);
    the_first_that_suits_is_taken(types, type_bits, MEMORY_HOST_SHARED, 0, shared);
    assert(types[j] & MEMORY_HOST_SHARED == MEMORY_HOST_SHARED);
    assert(suits(types, type_bits & pointer_bits, MEMORY_HOST_SHARED, 0, j) <== (type_bits & pointer_bits) & (1u32 << (
    j as u32)) != 0);
    assert(suits(types, type_bits, MEMORY_HOST_SHARED, 0, j) <== type_bits & (1u32 << (j as u32)) != 0);
}

/// The composition reads the frame, the proxy and the answer and writes its output, in that order of
/// bindings, with five words of constants; the encode works on one image, with three words. No other
/// builder makes a pass.
pub proof fn passes_are_bound_as_their_shaders_say(b: Builder)
    ensures
        bindings_of_compose() == seq![
            Object::OriginalImage,
            Object::ProxyImage,
            Object::AnswerImage,
            Object::OutputImage,
        ],
        shape_of(b) is Some <==> b == Builder::Compose || b == Builder::EncodePass,
        shape_of(Builder::Compose)->0.bindings == 4,
        shape_of(Builder::Compose)->0.push_bytes == 4 * 5,
        shape_of(Builder::Compose)->0.sets == 3,
        !shape_of(Builder::Compose)->0.frees_sets,
        shape_of(Builder::EncodePass)->0.bindings == 1,
        shape_of(Builder::EncodePass)->0.push_bytes == 4 * 3,
        shape_of(Builder::EncodePass)->0.sets == 16,
        shape_of(Builder::EncodePass)->0.frees_sets,
{
}

/// Memory that is read back is cached (8), coherent (4) and host-visible (2) and not device-local (1) where
/// such a type is accepted, and the first such one; where none is, host-visible and coherent.
pub proof fn what_is_read_back_is_cached(
    types: Seq<u32>,
    type_bits: u32,
    pointer_bits: u32,
    choice: Option<u32>,
    j: int,
)
    requires
        types.len() <= 32,
        is_choice(MemoryPolicy::ReadBack, types, type_bits, pointer_bits, choice),
        0 <= j < types.len(),
        type_bits & (1u32 << (j as u32)) != 0,
    ensures
        types[j] & 0xe == 0xe && types[j] & 1 != 1 ==> choice is Some && choice->0 <= j && types[choice->0 as int] & 0xe
            == 0xe && types[choice->0 as int] & 1 != 1,
        types[j] & 6 == 6 ==> choice is Some,
        choice matches Some(c) ==> type_bits & (1u32 << c) != 0 && types[c as int] & 6 == 6,
{
    cached_system_memory_is_preferred(types, type_bits, choice);
}

/// What only the device uses is device-local (1) where such a type is accepted, and the first such one; where
/// none is, it is the first that is accepted.
pub proof fn what_the_device_keeps_is_its_own(
    types: Seq<u32>,
    type_bits: u32,
    pointer_bits: u32,
    choice: Option<u32>,
    j: int,
)
    requires
        types.len() <= 32,
        is_choice(MemoryPolicy::DeviceOnly, types, type_bits, pointer_bits, choice),
        0 <= j < types.len(),
        type_bits & (1u32 << (j as u32)) != 0,
    ensures
        choice matches Some(c) && c < types.len() && type_bits & (1u32 << c) != 0 && {
            &&& types[j] & 1 == 1 ==> c <= j && types[c as int] & 1 == 1
            &&& types[c as int] & 1 != 1 ==> c <= j
        },
{
    device_memory_is_preferred(types, type_bits, choice, j);
}

} // verus!
