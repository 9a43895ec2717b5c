//! GPU command lists as plain data, and what they do to image layouts.
//!
//! A recording is a list of [`Command`]s. [`replay`] follows such a list over the layouts of the
//! images it touches and is undefined as soon as a command names a layout that its image is not
//! in, so `replay(..) is Some` says that every command of the list sees the layout it was
//! recorded for.

use crate::vulkan::{LAYOUT_GENERAL, LAYOUT_TRANSFER_DST, LAYOUT_TRANSFER_SRC, LAYOUT_UNDEFINED};
use vstd::prelude::*;

verus! {

/// A layout transition of a whole colour image, with the access masks on its two sides. Queue
/// ownership never changes.
#[derive(Clone, Copy, Debug, PartialEq, Eq, Structural)]
pub struct ImageBarrier {
    pub image: u64,
    pub old_layout: i32,
    pub new_layout: i32,
    pub src_access: u32,
    pub dst_access: u32,
}

/// A memory dependency on the first `size` bytes of a buffer.
#[derive(Clone, Copy, Debug, PartialEq, Eq, Structural)]
pub struct BufferBarrier {
    pub buffer: u64,
    pub size: u64,
    pub src_access: u32,
    pub dst_access: u32,
}

/// The dependencies that one pipeline barrier carries.
#[derive(Clone, Copy, Debug, PartialEq, Eq, Structural)]
pub enum Dependencies {
    Image(ImageBarrier),
    Images2(ImageBarrier, ImageBarrier),
    Images3(ImageBarrier, ImageBarrier, ImageBarrier),
    Images4(ImageBarrier, ImageBarrier, ImageBarrier, ImageBarrier),
    Buffer(BufferBarrier),
}

/// A tightly packed rectangle of pixels in a buffer, against the same rectangle at the origin of
/// an image.
#[derive(Clone, Copy, Debug, PartialEq, Eq, Structural)]
pub struct Region {
    pub buffer_offset: u64,
    pub width: u32,
    pub height: u32,
}

/// A compute pipeline with the descriptor set it is dispatched over.
#[derive(Clone, Copy, Debug, PartialEq, Eq, Structural)]
pub struct Dispatcher {
    pub pipeline: u64,
    pub pipeline_layout: u64,
    pub descriptor_set: u64,
}

/// The push constants of the two compute shaders. Real numbers are carried as the bits of their
/// 32-bit encoding.
#[derive(Clone, Copy, Debug, PartialEq, Eq, Structural)]
pub enum PushConstants {
    Encode { white_point: u32, bgr_order: u32, reversible_mode: u32 },
    Compose { colour_strength: u32, transfer_strength: u32, max_ratio: u32, bgr_order: u32, mode: u32 },
}

/// One recorded command.
#[derive(Clone, Copy, Debug, PartialEq, Eq, Structural)]
pub enum Command {
    Barrier { src_stage: u32, dst_stage: u32, dependencies: Dependencies },
    CopyImageToBuffer { image: u64, layout: i32, buffer: u64, region: Region },
    CopyBufferToImage { buffer: u64, image: u64, layout: i32, region: Region },
    /// Copies the first `size` bytes of a buffer onto the first `size` bytes of another.
    CopyBuffer { src: u64, dst: u64, size: u64 },
    /// Scales one whole image onto another, with linear filtering.
    Blit {
        src: u64,
        src_layout: i32,
        src_width: u32,
        src_height: u32,
        dst: u64,
        dst_layout: i32,
        dst_width: u32,
        dst_height: u32,
    },
    Bind { dispatcher: Dispatcher },
    Push { pipeline_layout: u64, constants: PushConstants },
    /// One layer of `groups_x` by `groups_y` work groups.
    Dispatch { groups_x: u32, groups_y: u32 },
}

/// Whether a transfer may read an image in `layout`.
pub open spec fn readable(layout: i32) -> bool {
    layout == LAYOUT_GENERAL || layout == LAYOUT_TRANSFER_SRC
}

/// Whether a transfer may write an image in `layout`.
pub open spec fn writable(layout: i32) -> bool {
    layout == LAYOUT_GENERAL || layout == LAYOUT_TRANSFER_DST
}

/// Whether `image` is in `layout`.
pub open spec fn in_layout(layouts: Map<u64, i32>, image: u64, layout: i32) -> bool {
    layouts.dom().contains(image) && layouts[image] == layout
}

/// The layouts after one image barrier. A transition out of the undefined layout discards the
/// contents and is valid whatever layout the image is in; any other must start from the layout
/// that the image is in.
pub open spec fn transition(layouts: Option<Map<u64, i32>>, b: ImageBarrier) -> Option<Map<u64, i32>> {
    match layouts {
        Some(m) => if b.old_layout == LAYOUT_UNDEFINED || in_layout(m, b.image, b.old_layout) {
            Some(m.insert(b.image, b.new_layout))
        } else {
            None
        },
        None => None,
    }
}

/// The layouts after one command, `None` when the command names a layout its image is not in or
/// one that it may not be used in.
pub open spec fn step(layouts: Map<u64, i32>, c: Command) -> Option<Map<u64, i32>> {
    match c {
        Command::Barrier { src_stage, dst_stage, dependencies } => match dependencies {
            Dependencies::Image(a) => transition(Some(layouts), a),
            Dependencies::Images2(a, b) => transition(transition(Some(layouts), a), b),
            Dependencies::Images3(a, b, c) => transition(
                transition(transition(Some(layouts), a), b),
                c,
            ),
            Dependencies::Images4(a, b, c, d) => transition(
                transition(transition(transition(Some(layouts), a), b), c),
                d,
            ),
            Dependencies::Buffer(_) => Some(layouts),
        },
        Command::CopyImageToBuffer { image, layout, buffer, region } => if in_layout(
            layouts,
            image,
            layout,
        ) && readable(layout) {
            Some(layouts)
        } else {
            None
        },
        Command::CopyBufferToImage { buffer, image, layout, region } => if in_layout(
            layouts,
            image,
            layout,
        ) && writable(layout) {
            Some(layouts)
        } else {
            None
        },
        Command::Blit { src, src_layout, src_width, src_height, dst, dst_layout, dst_width, dst_height } => if in_layout(
            layouts,
            src,
            src_layout,
        ) && readable(src_layout) && in_layout(layouts, dst, dst_layout) && writable(dst_layout) {
            Some(layouts)
        } else {
            None
        },
        Command::CopyBuffer { src, dst, size } => Some(layouts),
        Command::Bind { dispatcher } => Some(layouts),
        Command::Push { pipeline_layout, constants } => Some(layouts),
        Command::Dispatch { groups_x, groups_y } => Some(layouts),
    }
}

/// The layouts after a list of commands, in order; `None` as soon as one of them has none.
pub open spec fn replay(layouts: Map<u64, i32>, commands: Seq<Command>) -> Option<Map<u64, i32>>
    decreases commands.len(),
{
    if commands.len() == 0 {
        Some(layouts)
    } else {
        match replay(layouts, commands.drop_last()) {
            Some(m) => step(m, commands.last()),
            None => None,
        }
    }
}

/// Replaying two lists one after the other is replaying their concatenation.
pub proof fn replay_concatenates(layouts: Map<u64, i32>, first: Seq<Command>, second: Seq<Command>)
    ensures
        replay(layouts, first + second) == (match replay(layouts, first) {
            Some(m) => replay(m, second),
            None => None,
        }),
    decreases second.len(),
{
    if second.len() == 0 {
        assert(first + second =~= first);
    } else {
        replay_concatenates(layouts, first, second.drop_last());
        assert((first + second).drop_last() =~= first + second.drop_last());
        assert((first + second).last() == second.last());
    }
}

/// `step`, on layouts that may already be undefined.
pub open spec fn step_on(layouts: Option<Map<u64, i32>>, c: Command) -> Option<Map<u64, i32>> {
    match layouts {
        Some(m) => step(m, c),
        None => None,
    }
}

/// A replay is the steps of its commands, one after the other.
pub proof fn replay_unrolls(layouts: Map<u64, i32>, commands: Seq<Command>)
    ensures
        replay(layouts, commands.take(0)) == Some(layouts),
        replay(layouts, commands) == replay(layouts, commands.take(commands.len() as int)),
        forall|k: int|
            1 <= k <= commands.len() ==> #[trigger] replay(layouts, commands.take(k)) == step_on(
                replay(layouts, commands.take(k - 1)),
                commands[k - 1],
            ),
{
    assert(commands.take(commands.len() as int) =~= commands);
    assert forall|k: int| 1 <= k <= commands.len() implies #[trigger] replay(layouts, commands.take(k)) == step_on(
        replay(layouts, commands.take(k - 1)),
        commands[k - 1],
    ) by {
        assert(commands.take(k).drop_last() =~= commands.take(k - 1));
    }
}

/// The work groups that cover `pixels` pixels, eight to a group.
pub open spec fn groups(pixels: u32) -> u32 {
    if pixels % 8 == 0 {
        pixels / 8
    } else {
        (pixels / 8 + 1) as u32
    }
}

pub fn work_groups(pixels: u32) -> (count: u32)
    ensures
        count == groups(pixels),
        8 * count >= pixels,
        8 * count < pixels + 8,
{
    if pixels % 8 == 0 {
        pixels / 8
    } else {
        pixels / 8 + 1
    }
}

/// A barrier carrying one image transition.
pub open spec fn image_barrier_spec(
    src_stage: u32,
    dst_stage: u32,
    image: u64,
    old_layout: i32,
    new_layout: i32,
    src_access: u32,
    dst_access: u32,
) -> Command {
    Command::Barrier {
        src_stage,
        dst_stage,
        dependencies: Dependencies::Image(
            ImageBarrier { image, old_layout, new_layout, src_access, dst_access },
        ),
    }
}

pub fn image_barrier(
    src_stage: u32,
    dst_stage: u32,
    image: u64,
    old_layout: i32,
    new_layout: i32,
    src_access: u32,
    dst_access: u32,
) -> (command: Command)
    ensures
        command == image_barrier_spec(
            src_stage,
            dst_stage,
            image,
            old_layout,
            new_layout,
            src_access,
            dst_access,
        ),
{
    Command::Barrier {
        src_stage,
        dst_stage,
        dependencies: Dependencies::Image(
            ImageBarrier { image, old_layout, new_layout, src_access, dst_access },
        ),
    }
}

/// The barrier after which what a transfer wrote to the first `size` bytes of a buffer can be
/// read by a later transfer.
pub open spec fn buffer_ready_spec(buffer: u64, size: u64) -> Command {
    Command::Barrier {
        src_stage: crate::vulkan::STAGE_TRANSFER,
        dst_stage: crate::vulkan::STAGE_TRANSFER,
        dependencies: Dependencies::Buffer(
            BufferBarrier {
                buffer,
                size,
                src_access: crate::vulkan::ACCESS_TRANSFER_WRITE,
                dst_access: crate::vulkan::ACCESS_TRANSFER_READ,
            },
        ),
    }
}

pub fn buffer_ready(buffer: u64, size: u64) -> (command: Command)
    ensures
        command == buffer_ready_spec(buffer, size),
{
    Command::Barrier {
        src_stage: crate::vulkan::STAGE_TRANSFER,
        dst_stage: crate::vulkan::STAGE_TRANSFER,
        dependencies: Dependencies::Buffer(
            BufferBarrier {
                buffer,
                size,
                src_access: crate::vulkan::ACCESS_TRANSFER_WRITE,
                dst_access: crate::vulkan::ACCESS_TRANSFER_READ,
            },
        ),
    }
}

/// Groups of eight cover a row of pixels, and none of them lies beyond it.
pub proof fn groups_cover_the_pixels(pixels: u32)
    ensures
        pixels <= 8 * groups(pixels) < pixels + 8,
{
}

/// A barrier on one image carries the stages, layouts and accesses that it is given, each in its place; one
/// on a buffer makes what transfers wrote readable by transfers.
pub proof fn barriers_carry_what_they_are_given(
    src_stage: u32,
    dst_stage: u32,
    image: u64,
    old_layout: i32,
    new_layout: i32,
    src_access: u32,
    dst_access: u32,
    buffer: u64,
    size: u64,
)
    ensures
        image_barrier_spec(src_stage, dst_stage, image, old_layout, new_layout, src_access, dst_access) == (
        Command::Barrier {
            src_stage,
            dst_stage,
            dependencies: Dependencies::Image(
                ImageBarrier { image, old_layout, new_layout, src_access, dst_access },
            ),
        }),
        buffer_ready_spec(buffer, size) == (Command::Barrier {
            src_stage: 0x1000,
            dst_stage: 0x1000,
            dependencies: Dependencies::Buffer(
                BufferBarrier { buffer, size, src_access: 0x1000, dst_access: 0x800 },
            ),
        }),
{
}

} // verus!
