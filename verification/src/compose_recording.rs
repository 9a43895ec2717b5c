//! What the compose submissions record.
//!
//! A compose slot owns four images of the frame's size (the current frame, the model's answer, the
//! frame the answer was made for and the composed output), three buffers, and a smaller image for
//! answers below the frame's size.

use crate::commands::{
    buffer_ready, buffer_ready_spec, groups, image_barrier, image_barrier_spec, in_layout, replay,
    replay_concatenates, replay_unrolls, work_groups, Command, Dependencies, Dispatcher,
    ImageBarrier, PushConstants, Region,
};
use crate::vulkan::{
    ACCESS_NONE, ACCESS_SHADER_READ, ACCESS_SHADER_WRITE, ACCESS_TRANSFER_READ,
    ACCESS_TRANSFER_WRITE, LAYOUT_GENERAL, LAYOUT_PRESENT_SRC, LAYOUT_TRANSFER_DST,
    LAYOUT_TRANSFER_SRC, LAYOUT_UNDEFINED, STAGE_ALL_COMMANDS, STAGE_COMPUTE_SHADER,
    STAGE_TOP_OF_PIPE, STAGE_TRANSFER, STAGE_TRANSFER_COMPUTE,
};
use crate::scaling::Raster;
use vstd::prelude::*;

verus! {

/// The images and buffers of one compose slot.
#[derive(Clone, Copy, Debug, PartialEq, Eq, Structural)]
pub struct ComposeImages {
    pub original: u64,
    pub model_answer: u64,
    pub proxy: u64,
    pub output: u64,
    pub small_answer: u64,
    pub staging: u64,
    pub cached: u64,
    pub current: u64,
}

/// The shader, its settings (real numbers as the bits of their 32-bit encoding) and what the
/// bytes mean.
#[derive(Clone, Copy, Debug, PartialEq, Eq, Structural)]
pub struct ComposeParams {
    pub dispatcher: Dispatcher,
    pub colour_strength: u32,
    pub transfer_strength: u32,
    pub max_ratio: u32,
    pub bgr_order: bool,
    /// Whether the frame was encoded before the model saw it.
    pub proxy_encoded: bool,
}

pub open spec fn bgr_word(bgr_order: bool) -> u32 {
    if bgr_order {
        1
    } else {
        0
    }
}

/// The formula that an answer is carried onto the current frame with: the encoded-proxy ratio
/// transfer when the proxy was encoded, the guarded additive one when it could not be.
pub open spec fn transfer_mode(proxy_encoded: bool) -> u32 {
    if proxy_encoded {
        2
    } else {
        1
    }
}

/// The layout that the frame, proxy and answer images of a slot are in before a present.
pub open spec fn held(cached_before: bool) -> i32 {
    if cached_before {
        LAYOUT_GENERAL
    } else {
        LAYOUT_UNDEFINED
    }
}

/// The layout that the output image of a slot is in before a present.
pub open spec fn held_output(cached_before: bool) -> i32 {
    if cached_before {
        LAYOUT_TRANSFER_SRC
    } else {
        LAYOUT_UNDEFINED
    }
}

/// The four images of a slot are different images.
pub open spec fn distinct_images(s: ComposeImages) -> bool {
    &&& s.original != s.model_answer
    &&& s.original != s.proxy
    &&& s.original != s.output
    &&& s.model_answer != s.proxy
    &&& s.model_answer != s.output
    &&& s.proxy != s.output
    &&& s.small_answer != s.original
    &&& s.small_answer != s.model_answer
    &&& s.small_answer != s.proxy
    &&& s.small_answer != s.output
}

/// `target` is none of a slot's images.
pub open spec fn foreign(s: ComposeImages, target: u64) -> bool {
    target != s.original && target != s.model_answer && target != s.proxy && target != s.output && target
        != s.small_answer
}

/// The layouts that a slot's images are left in by every compose, so the ones they are in before
/// the next.
pub open spec fn composed_layouts(m: Map<u64, i32>, s: ComposeImages) -> bool {
    &&& in_layout(m, s.original, LAYOUT_GENERAL)
    &&& in_layout(m, s.model_answer, LAYOUT_GENERAL)
    &&& in_layout(m, s.proxy, LAYOUT_GENERAL)
    &&& in_layout(m, s.output, LAYOUT_TRANSFER_SRC)
}

/// Uploads the frame, the answer and the frame once more as its proxy.
pub open spec fn upload_part(s: ComposeImages, width: u32, height: u32, frame_bytes: u64) -> Seq<Command> {
    seq![
        Command::Barrier {
            src_stage: STAGE_TOP_OF_PIPE,
            dst_stage: STAGE_TRANSFER,
            dependencies: Dependencies::Images3(
                ImageBarrier {
                    image: s.original,
                    old_layout: LAYOUT_UNDEFINED,
                    new_layout: LAYOUT_TRANSFER_DST,
                    src_access: ACCESS_NONE,
                    dst_access: ACCESS_TRANSFER_WRITE,
                },
                ImageBarrier {
                    image: s.model_answer,
                    old_layout: LAYOUT_UNDEFINED,
                    new_layout: LAYOUT_TRANSFER_DST,
                    src_access: ACCESS_NONE,
                    dst_access: ACCESS_TRANSFER_WRITE,
                },
                ImageBarrier {
                    image: s.proxy,
                    old_layout: LAYOUT_UNDEFINED,
                    new_layout: LAYOUT_TRANSFER_DST,
                    src_access: ACCESS_NONE,
                    dst_access: ACCESS_TRANSFER_WRITE,
                },
            ),
        },
        Command::CopyBufferToImage {
            buffer: s.staging,
            image: s.original,
            layout: LAYOUT_TRANSFER_DST,
            region: Region { buffer_offset: 0, width, height },
        },
        Command::CopyBufferToImage {
            buffer: s.staging,
            image: s.model_answer,
            layout: LAYOUT_TRANSFER_DST,
            region: Region { buffer_offset: frame_bytes, width, height },
        },
        Command::CopyBufferToImage {
            buffer: s.staging,
            image: s.proxy,
            layout: LAYOUT_TRANSFER_DST,
            region: Region { buffer_offset: 0, width, height },
        },
    ]
}

/// Runs the shader over what was uploaded.
pub open spec fn compute_part(s: ComposeImages, p: ComposeParams, width: u32, height: u32) -> Seq<Command> {
    seq![
        Command::Barrier {
            src_stage: STAGE_TRANSFER,
            dst_stage: STAGE_COMPUTE_SHADER,
            dependencies: Dependencies::Images4(
                ImageBarrier {
                    image: s.original,
                    old_layout: LAYOUT_TRANSFER_DST,
                    new_layout: LAYOUT_GENERAL,
                    src_access: ACCESS_TRANSFER_WRITE,
                    dst_access: ACCESS_SHADER_READ,
                },
                ImageBarrier {
                    image: s.model_answer,
                    old_layout: LAYOUT_TRANSFER_DST,
                    new_layout: LAYOUT_GENERAL,
                    src_access: ACCESS_TRANSFER_WRITE,
                    dst_access: ACCESS_SHADER_READ,
                },
                ImageBarrier {
                    image: s.proxy,
                    old_layout: LAYOUT_TRANSFER_DST,
                    new_layout: LAYOUT_GENERAL,
                    src_access: ACCESS_TRANSFER_WRITE,
                    dst_access: ACCESS_SHADER_READ,
                },
                ImageBarrier {
                    image: s.output,
                    old_layout: LAYOUT_UNDEFINED,
                    new_layout: LAYOUT_GENERAL,
                    src_access: ACCESS_NONE,
                    dst_access: ACCESS_SHADER_WRITE,
                },
            ),
        },
        Command::Bind { dispatcher: p.dispatcher },
        Command::Push {
            pipeline_layout: p.dispatcher.pipeline_layout,
            constants: PushConstants::Compose {
                colour_strength: p.colour_strength,
                transfer_strength: p.transfer_strength,
                max_ratio: p.max_ratio,
                bgr_order: bgr_word(p.bgr_order),
                mode: 0,
            },
        },
        Command::Dispatch { groups_x: groups(width), groups_y: groups(height) },
    ]
}

/// Copies the output over the start of the staging buffer.
pub open spec fn download_part(s: ComposeImages, width: u32, height: u32) -> Seq<Command> {
    seq![
        image_barrier_spec(
            STAGE_COMPUTE_SHADER,
            STAGE_TRANSFER,
            s.output,
            LAYOUT_GENERAL,
            LAYOUT_TRANSFER_SRC,
            ACCESS_SHADER_WRITE,
            ACCESS_TRANSFER_READ,
        ),
        Command::CopyImageToBuffer {
            image: s.output,
            layout: LAYOUT_TRANSFER_SRC,
            buffer: s.staging,
            region: Region { buffer_offset: 0, width, height },
        },
    ]
}

/// A whole upload, dispatch and download.
pub open spec fn upload_and_compute(
    s: ComposeImages,
    width: u32,
    height: u32,
    frame_bytes: u64,
    p: ComposeParams,
) -> Seq<Command> {
    upload_part(s, width, height, frame_bytes) + compute_part(s, p, width, height) + download_part(s, width, height)
}

/// Records the upload of a frame (the first half of the staging buffer) and its answer (the second
/// half), the dispatch over them, and the copy of the output back to the start of the buffer.
pub fn record_upload_and_compute(
    s: ComposeImages,
    width: u32,
    height: u32,
    frame_bytes: u64,
    p: ComposeParams,
) -> (commands: Vec<Command>)
    ensures
        commands@ == upload_and_compute(s, width, height, frame_bytes, p),
{
    let bgr: u32 = if p.bgr_order { 1 } else { 0 };
    let mut commands: Vec<Command> = Vec::new();
    commands.push(
        Command::Barrier {
            src_stage: STAGE_TOP_OF_PIPE,
            dst_stage: STAGE_TRANSFER,
            dependencies: Dependencies::Images3(
                ImageBarrier {
                    image: s.original,
                    old_layout: LAYOUT_UNDEFINED,
                    new_layout: LAYOUT_TRANSFER_DST,
                    src_access: ACCESS_NONE,
                    dst_access: ACCESS_TRANSFER_WRITE,
                },
                ImageBarrier {
                    image: s.model_answer,
                    old_layout: LAYOUT_UNDEFINED,
                    new_layout: LAYOUT_TRANSFER_DST,
                    src_access: ACCESS_NONE,
                    dst_access: ACCESS_TRANSFER_WRITE,
                },
                ImageBarrier {
                    image: s.proxy,
                    old_layout: LAYOUT_UNDEFINED,
                    new_layout: LAYOUT_TRANSFER_DST,
                    src_access: ACCESS_NONE,
                    dst_access: ACCESS_TRANSFER_WRITE,
                },
            ),
        },
    );
    commands.push(
        Command::CopyBufferToImage {
            buffer: s.staging,
            image: s.original,
            layout: LAYOUT_TRANSFER_DST,
            region: Region { buffer_offset: 0, width, height },
        },
    );
    commands.push(
        Command::CopyBufferToImage {
            buffer: s.staging,
            image: s.model_answer,
            layout: LAYOUT_TRANSFER_DST,
            region: Region { buffer_offset: frame_bytes, width, height },
        },
    );
    commands.push(
        Command::CopyBufferToImage {
            buffer: s.staging,
            image: s.proxy,
            layout: LAYOUT_TRANSFER_DST,
            region: Region { buffer_offset: 0, width, height },
        },
    );
    assert(commands@ == upload_part(s, width, height, frame_bytes));
    commands.push(
        Command::Barrier {
            src_stage: STAGE_TRANSFER,
            dst_stage: STAGE_COMPUTE_SHADER,
            dependencies: Dependencies::Images4(
                ImageBarrier {
                    image: s.original,
                    old_layout: LAYOUT_TRANSFER_DST,
                    new_layout: LAYOUT_GENERAL,
                    src_access: ACCESS_TRANSFER_WRITE,
                    dst_access: ACCESS_SHADER_READ,
                },
                ImageBarrier {
                    image: s.model_answer,
                    old_layout: LAYOUT_TRANSFER_DST,
                    new_layout: LAYOUT_GENERAL,
                    src_access: ACCESS_TRANSFER_WRITE,
                    dst_access: ACCESS_SHADER_READ,
                },
                ImageBarrier {
                    image: s.proxy,
                    old_layout: LAYOUT_TRANSFER_DST,
                    new_layout: LAYOUT_GENERAL,
                    src_access: ACCESS_TRANSFER_WRITE,
                    dst_access: ACCESS_SHADER_READ,
                },
                ImageBarrier {
                    image: s.output,
                    old_layout: LAYOUT_UNDEFINED,
                    new_layout: LAYOUT_GENERAL,
                    src_access: ACCESS_NONE,
                    dst_access: ACCESS_SHADER_WRITE,
                },
            ),
        },
    );
    commands.push(Command::Bind { dispatcher: p.dispatcher });
    commands.push(
        Command::Push {
            pipeline_layout: p.dispatcher.pipeline_layout,
            constants: PushConstants::Compose {
                colour_strength: p.colour_strength,
                transfer_strength: p.transfer_strength,
                max_ratio: p.max_ratio,
                bgr_order: bgr,
                mode: 0,
            },
        },
    );
    commands.push(Command::Dispatch { groups_x: work_groups(width), groups_y: work_groups(height) });
    assert(commands@ == upload_part(s, width, height, frame_bytes) + compute_part(s, p, width, height));
    commands.push(
        image_barrier(
            STAGE_COMPUTE_SHADER,
            STAGE_TRANSFER,
            s.output,
            LAYOUT_GENERAL,
            LAYOUT_TRANSFER_SRC,
            ACCESS_SHADER_WRITE,
            ACCESS_TRANSFER_READ,
        ),
    );
    commands.push(
        Command::CopyImageToBuffer {
            image: s.output,
            layout: LAYOUT_TRANSFER_SRC,
            buffer: s.staging,
            region: Region { buffer_offset: 0, width, height },
        },
    );
    commands
}

/// Copies the start of the staging buffer onto `target`, and leaves `target` presentable.
pub open spec fn copy_into_image(
    s: ComposeImages,
    width: u32,
    height: u32,
    frame_bytes: u64,
    target: u64,
) -> Seq<Command> {
    seq![
        image_barrier_spec(
            STAGE_ALL_COMMANDS,
            STAGE_TRANSFER,
            target,
            LAYOUT_PRESENT_SRC,
            LAYOUT_TRANSFER_DST,
            ACCESS_NONE,
            ACCESS_TRANSFER_WRITE,
        ),
        buffer_ready_spec(s.staging, frame_bytes),
        Command::CopyBufferToImage {
            buffer: s.staging,
            image: target,
            layout: LAYOUT_TRANSFER_DST,
            region: Region { buffer_offset: 0, width, height },
        },
        image_barrier_spec(
            STAGE_TRANSFER,
            STAGE_ALL_COMMANDS,
            target,
            LAYOUT_TRANSFER_DST,
            LAYOUT_PRESENT_SRC,
            ACCESS_TRANSFER_WRITE,
            ACCESS_NONE,
        ),
    ]
}

/// Appends the copy of the composed frame from the staging buffer onto the presented image.
pub fn record_copy_into_image(
    commands: &mut Vec<Command>,
    s: ComposeImages,
    width: u32,
    height: u32,
    frame_bytes: u64,
    target: u64,
)
    ensures
        final(commands)@ == old(commands)@ + copy_into_image(s, width, height, frame_bytes, target),
{
    commands.push(
        image_barrier(
            STAGE_ALL_COMMANDS,
            STAGE_TRANSFER,
            target,
            LAYOUT_PRESENT_SRC,
            LAYOUT_TRANSFER_DST,
            ACCESS_NONE,
            ACCESS_TRANSFER_WRITE,
        ),
    );
    commands.push(buffer_ready(s.staging, frame_bytes));
    commands.push(
        Command::CopyBufferToImage {
            buffer: s.staging,
            image: target,
            layout: LAYOUT_TRANSFER_DST,
            region: Region { buffer_offset: 0, width, height },
        },
    );
    commands.push(
        image_barrier(
            STAGE_TRANSFER,
            STAGE_ALL_COMMANDS,
            target,
            LAYOUT_TRANSFER_DST,
            LAYOUT_PRESENT_SRC,
            ACCESS_TRANSFER_WRITE,
            ACCESS_NONE,
        ),
    );
}

/// Refreshes the cached frame from the staging buffer where it is out of date.
pub open spec fn cached_update(s: ComposeImages, frame_bytes: u64, update: bool) -> Seq<Command> {
    if update {
        seq![Command::CopyBuffer { src: s.staging, dst: s.cached, size: frame_bytes }]
    } else {
        seq![]
    }
}

/// Copies the cached frame onto `target`, and leaves `target` presentable.
pub open spec fn cached_present(
    s: ComposeImages,
    width: u32,
    height: u32,
    frame_bytes: u64,
    target: u64,
) -> Seq<Command> {
    seq![
        buffer_ready_spec(s.cached, frame_bytes),
        image_barrier_spec(
            STAGE_ALL_COMMANDS,
            STAGE_TRANSFER,
            target,
            LAYOUT_PRESENT_SRC,
            LAYOUT_TRANSFER_DST,
            ACCESS_NONE,
            ACCESS_TRANSFER_WRITE,
        ),
        Command::CopyBufferToImage {
            buffer: s.cached,
            image: target,
            layout: LAYOUT_TRANSFER_DST,
            region: Region { buffer_offset: 0, width, height },
        },
        image_barrier_spec(
            STAGE_TRANSFER,
            STAGE_ALL_COMMANDS,
            target,
            LAYOUT_TRANSFER_DST,
            LAYOUT_PRESENT_SRC,
            ACCESS_TRANSFER_WRITE,
            ACCESS_NONE,
        ),
    ]
}

/// A held answer presented as it is.
pub open spec fn cached_raw_into_image(
    s: ComposeImages,
    width: u32,
    height: u32,
    frame_bytes: u64,
    update: bool,
    target: u64,
) -> Seq<Command> {
    cached_update(s, frame_bytes, update) + cached_present(s, width, height, frame_bytes, target)
}

/// Records the presentation of a held answer without any shader: the cached copy is refreshed when
/// `update` says so, and copied onto the presented image.
pub fn record_cached_raw_into_image(
    s: ComposeImages,
    width: u32,
    height: u32,
    frame_bytes: u64,
    update: bool,
    target: u64,
) -> (commands: Vec<Command>)
    ensures
        commands@ == cached_raw_into_image(s, width, height, frame_bytes, update, target),
{
    let mut commands: Vec<Command> = Vec::new();
    if update {
        commands.push(Command::CopyBuffer { src: s.staging, dst: s.cached, size: frame_bytes });
    }
    assert(commands@ == cached_update(s, frame_bytes, update));
    commands.push(buffer_ready(s.cached, frame_bytes));
    commands.push(
        image_barrier(
            STAGE_ALL_COMMANDS,
            STAGE_TRANSFER,
            target,
            LAYOUT_PRESENT_SRC,
            LAYOUT_TRANSFER_DST,
            ACCESS_NONE,
            ACCESS_TRANSFER_WRITE,
        ),
    );
    commands.push(
        Command::CopyBufferToImage {
            buffer: s.cached,
            image: target,
            layout: LAYOUT_TRANSFER_DST,
            region: Region { buffer_offset: 0, width, height },
        },
    );
    commands.push(
        image_barrier(
            STAGE_TRANSFER,
            STAGE_ALL_COMMANDS,
            target,
            LAYOUT_TRANSFER_DST,
            LAYOUT_PRESENT_SRC,
            ACCESS_TRANSFER_WRITE,
            ACCESS_NONE,
        ),
    );
    commands
}

/// Reads the presented image into the slot.
pub open spec fn read_current(
    s: ComposeImages,
    width: u32,
    height: u32,
    frame_bytes: u64,
    target: u64,
) -> Seq<Command> {
    seq![
        image_barrier_spec(
            STAGE_ALL_COMMANDS,
            STAGE_TRANSFER,
            target,
            LAYOUT_PRESENT_SRC,
            LAYOUT_TRANSFER_SRC,
            ACCESS_NONE,
            ACCESS_TRANSFER_READ,
        ),
        Command::CopyImageToBuffer {
            image: target,
            layout: LAYOUT_TRANSFER_SRC,
            buffer: s.current,
            region: Region { buffer_offset: 0, width, height },
        },
        buffer_ready_spec(s.current, frame_bytes),
    ]
}

/// Uploads the frame that a new answer was made for.
pub open spec fn take_proxy(s: ComposeImages, width: u32, height: u32, cached_before: bool) -> Seq<Command> {
    seq![
        Command::Barrier {
            src_stage: STAGE_COMPUTE_SHADER,
            dst_stage: STAGE_TRANSFER,
            dependencies: Dependencies::Images2(
                ImageBarrier {
                    image: s.proxy,
                    old_layout: held(cached_before),
                    new_layout: LAYOUT_TRANSFER_DST,
                    src_access: ACCESS_SHADER_READ,
                    dst_access: ACCESS_TRANSFER_WRITE,
                },
                ImageBarrier {
                    image: s.model_answer,
                    old_layout: held(cached_before),
                    new_layout: LAYOUT_TRANSFER_DST,
                    src_access: ACCESS_SHADER_READ,
                    dst_access: ACCESS_TRANSFER_WRITE,
                },
            ),
        },
        Command::CopyBufferToImage {
            buffer: s.staging,
            image: s.proxy,
            layout: LAYOUT_TRANSFER_DST,
            region: Region { buffer_offset: 0, width, height },
        },
    ]
}

/// Uploads a new answer, scaling it up to the frame where it is smaller.
pub open spec fn take_answer(s: ComposeImages, width: u32, height: u32, a: Raster, frame_bytes: u64) -> Seq<Command> {
    if a.width != width || a.height != height {
        seq![
            image_barrier_spec(
                STAGE_ALL_COMMANDS,
                STAGE_TRANSFER,
                s.small_answer,
                LAYOUT_UNDEFINED,
                LAYOUT_TRANSFER_DST,
                ACCESS_NONE,
                ACCESS_TRANSFER_WRITE,
            ),
            Command::CopyBufferToImage {
                buffer: s.staging,
                image: s.small_answer,
                layout: LAYOUT_TRANSFER_DST,
                region: Region { buffer_offset: frame_bytes, width: a.width, height: a.height },
            },
            image_barrier_spec(
                STAGE_TRANSFER,
                STAGE_TRANSFER,
                s.small_answer,
                LAYOUT_TRANSFER_DST,
                LAYOUT_TRANSFER_SRC,
                ACCESS_TRANSFER_WRITE,
                ACCESS_TRANSFER_READ,
            ),
            Command::Blit {
                src: s.small_answer,
                src_layout: LAYOUT_TRANSFER_SRC,
                src_width: a.width,
                src_height: a.height,
                dst: s.model_answer,
                dst_layout: LAYOUT_TRANSFER_DST,
                dst_width: width,
                dst_height: height,
            },
        ]
    } else {
        seq![
            Command::CopyBufferToImage {
                buffer: s.staging,
                image: s.model_answer,
                layout: LAYOUT_TRANSFER_DST,
                region: Region { buffer_offset: frame_bytes, width, height },
            },
        ]
    }
}

/// Hands both to the shader.
pub open spec fn answer_ready(s: ComposeImages) -> Seq<Command> {
    seq![
        Command::Barrier {
            src_stage: STAGE_TRANSFER,
            dst_stage: STAGE_COMPUTE_SHADER,
            dependencies: Dependencies::Images2(
                ImageBarrier {
                    image: s.proxy,
                    old_layout: LAYOUT_TRANSFER_DST,
                    new_layout: LAYOUT_GENERAL,
                    src_access: ACCESS_TRANSFER_WRITE,
                    dst_access: ACCESS_SHADER_READ,
                },
                ImageBarrier {
                    image: s.model_answer,
                    old_layout: LAYOUT_TRANSFER_DST,
                    new_layout: LAYOUT_GENERAL,
                    src_access: ACCESS_TRANSFER_WRITE,
                    dst_access: ACCESS_SHADER_READ,
                },
            ),
        },
    ]
}

/// A new answer with the frame it was made for, where there is one.
pub open spec fn take_update(
    s: ComposeImages,
    width: u32,
    height: u32,
    a: Raster,
    frame_bytes: u64,
    cached_before: bool,
    update: bool,
) -> Seq<Command> {
    if update {
        take_proxy(s, width, height, cached_before) + take_answer(s, width, height, a, frame_bytes) + answer_ready(s)
    } else {
        seq![]
    }
}

/// Composes the answer onto the current frame.
pub open spec fn compose_current(
    s: ComposeImages,
    width: u32,
    height: u32,
    cached_before: bool,
    p: ComposeParams,
) -> Seq<Command> {
    seq![
        Command::Barrier {
            src_stage: STAGE_ALL_COMMANDS,
            dst_stage: STAGE_TRANSFER_COMPUTE,
            dependencies: Dependencies::Images2(
                ImageBarrier {
                    image: s.original,
                    old_layout: held(cached_before),
                    new_layout: LAYOUT_TRANSFER_DST,
                    src_access: ACCESS_SHADER_READ,
                    dst_access: ACCESS_TRANSFER_WRITE,
                },
                ImageBarrier {
                    image: s.output,
                    old_layout: held_output(cached_before),
                    new_layout: LAYOUT_GENERAL,
                    src_access: ACCESS_TRANSFER_READ,
                    dst_access: ACCESS_SHADER_WRITE,
                },
            ),
        },
        Command::CopyBufferToImage {
            buffer: s.current,
            image: s.original,
            layout: LAYOUT_TRANSFER_DST,
            region: Region { buffer_offset: 0, width, height },
        },
        image_barrier_spec(
            STAGE_TRANSFER,
            STAGE_COMPUTE_SHADER,
            s.original,
            LAYOUT_TRANSFER_DST,
            LAYOUT_GENERAL,
            ACCESS_TRANSFER_WRITE,
            ACCESS_SHADER_READ,
        ),
        Command::Bind { dispatcher: p.dispatcher },
        Command::Push {
            pipeline_layout: p.dispatcher.pipeline_layout,
            constants: PushConstants::Compose {
                colour_strength: p.colour_strength,
                transfer_strength: p.transfer_strength,
                max_ratio: p.max_ratio,
                bgr_order: bgr_word(p.bgr_order),
                mode: transfer_mode(p.proxy_encoded),
            },
        },
        Command::Dispatch { groups_x: groups(width), groups_y: groups(height) },
    ]
}

/// Writes the result back, and leaves `target` presentable.
pub open spec fn write_current(
    s: ComposeImages,
    width: u32,
    height: u32,
    frame_bytes: u64,
    target: u64,
) -> Seq<Command> {
    seq![
        image_barrier_spec(
            STAGE_COMPUTE_SHADER,
            STAGE_TRANSFER,
            s.output,
            LAYOUT_GENERAL,
            LAYOUT_TRANSFER_SRC,
            ACCESS_SHADER_WRITE,
            ACCESS_TRANSFER_READ,
        ),
        Command::CopyImageToBuffer {
            image: s.output,
            layout: LAYOUT_TRANSFER_SRC,
            buffer: s.cached,
            region: Region { buffer_offset: 0, width, height },
        },
        buffer_ready_spec(s.cached, frame_bytes),
        image_barrier_spec(
            STAGE_TRANSFER,
            STAGE_TRANSFER,
            target,
            LAYOUT_TRANSFER_SRC,
            LAYOUT_TRANSFER_DST,
            ACCESS_TRANSFER_READ,
            ACCESS_TRANSFER_WRITE,
        ),
        Command::CopyBufferToImage {
            buffer: s.cached,
            image: target,
            layout: LAYOUT_TRANSFER_DST,
            region: Region { buffer_offset: 0, width, height },
        },
        image_barrier_spec(
            STAGE_TRANSFER,
            STAGE_ALL_COMMANDS,
            target,
            LAYOUT_TRANSFER_DST,
            LAYOUT_PRESENT_SRC,
            ACCESS_TRANSFER_WRITE,
            ACCESS_NONE,
        ),
    ]
}

/// A whole present of a held or new answer on the current frame.
pub open spec fn temporal_delta_into_image(
    s: ComposeImages,
    width: u32,
    height: u32,
    a: Raster,
    frame_bytes: u64,
    cached_before: bool,
    update: bool,
    target: u64,
    p: ComposeParams,
) -> Seq<Command> {
    read_current(s, width, height, frame_bytes, target) + take_update(
        s,
        width,
        height,
        a,
        frame_bytes,
        cached_before,
        update,
    )
        + compose_current(s, width, height, cached_before, p) + write_current(s, width, height, frame_bytes, target)
}

/// Appends the upload of a new answer and of the frame it was made for.
fn record_update(
    commands: &mut Vec<Command>,
    s: ComposeImages,
    width: u32,
    height: u32,
    a: Raster,
    frame_bytes: u64,
    cached_before: bool,
)
    ensures
        final(commands)@ == old(commands)@ + take_update(s, width, height, a, frame_bytes, cached_before, true),
{
    let held_layout: i32 = if cached_before { LAYOUT_GENERAL } else { LAYOUT_UNDEFINED };
    let ghost head = commands@;
    commands.push(
        Command::Barrier {
            src_stage: STAGE_COMPUTE_SHADER,
            dst_stage: STAGE_TRANSFER,
            dependencies: Dependencies::Images2(
                ImageBarrier {
                    image: s.proxy,
                    old_layout: held_layout,
                    new_layout: LAYOUT_TRANSFER_DST,
                    src_access: ACCESS_SHADER_READ,
                    dst_access: ACCESS_TRANSFER_WRITE,
                },
                ImageBarrier {
                    image: s.model_answer,
                    old_layout: held_layout,
                    new_layout: LAYOUT_TRANSFER_DST,
                    src_access: ACCESS_SHADER_READ,
                    dst_access: ACCESS_TRANSFER_WRITE,
                },
            ),
        },
    );
    commands.push(
        Command::CopyBufferToImage {
            buffer: s.staging,
            image: s.proxy,
            layout: LAYOUT_TRANSFER_DST,
            region: Region { buffer_offset: 0, width, height },
        },
    );
    assert(commands@ == head + take_proxy(s, width, height, cached_before));
    if a.width != width || a.height != height {
        commands.push(
            image_barrier(
                STAGE_ALL_COMMANDS,
                STAGE_TRANSFER,
                s.small_answer,
                LAYOUT_UNDEFINED,
                LAYOUT_TRANSFER_DST,
                ACCESS_NONE,
                ACCESS_TRANSFER_WRITE,
            ),
        );
        commands.push(
            Command::CopyBufferToImage {
                buffer: s.staging,
                image: s.small_answer,
                layout: LAYOUT_TRANSFER_DST,
                region: Region { buffer_offset: frame_bytes, width: a.width, height: a.height },
            },
        );
        commands.push(
            image_barrier(
                STAGE_TRANSFER,
                STAGE_TRANSFER,
                s.small_answer,
                LAYOUT_TRANSFER_DST,
                LAYOUT_TRANSFER_SRC,
                ACCESS_TRANSFER_WRITE,
                ACCESS_TRANSFER_READ,
            ),
        );
        commands.push(
            Command::Blit {
                src: s.small_answer,
                src_layout: LAYOUT_TRANSFER_SRC,
                src_width: a.width,
                src_height: a.height,
                dst: s.model_answer,
                dst_layout: LAYOUT_TRANSFER_DST,
                dst_width: width,
                dst_height: height,
            },
        );
    } else {
        commands.push(
            Command::CopyBufferToImage {
                buffer: s.staging,
                image: s.model_answer,
                layout: LAYOUT_TRANSFER_DST,
                region: Region { buffer_offset: frame_bytes, width, height },
            },
        );
    }
    assert(
        commands@ == head + (
            take_proxy(s, width, height, cached_before) + take_answer(s, width, height, a, frame_bytes)
        )
    );
    commands.push(
        Command::Barrier {
            src_stage: STAGE_TRANSFER,
            dst_stage: STAGE_COMPUTE_SHADER,
            dependencies: Dependencies::Images2(
                ImageBarrier {
                    image: s.proxy,
                    old_layout: LAYOUT_TRANSFER_DST,
                    new_layout: LAYOUT_GENERAL,
                    src_access: ACCESS_TRANSFER_WRITE,
                    dst_access: ACCESS_SHADER_READ,
                },
                ImageBarrier {
                    image: s.model_answer,
                    old_layout: LAYOUT_TRANSFER_DST,
                    new_layout: LAYOUT_GENERAL,
                    src_access: ACCESS_TRANSFER_WRITE,
                    dst_access: ACCESS_SHADER_READ,
                },
            ),
        },
    );
}

/// Appends the dispatch over the current frame.
fn record_compose(
    commands: &mut Vec<Command>,
    s: ComposeImages,
    width: u32,
    height: u32,
    cached_before: bool,
    p: ComposeParams,
)
    ensures
        final(commands)@ == old(commands)@ + compose_current(s, width, height, cached_before, p),
{
    let bgr: u32 = if p.bgr_order { 1 } else { 0 };
    let mode: u32 = if p.proxy_encoded { 2 } else { 1 };
    let held_layout: i32 = if cached_before { LAYOUT_GENERAL } else { LAYOUT_UNDEFINED };
    let output_layout: i32 = if cached_before { LAYOUT_TRANSFER_SRC } else { LAYOUT_UNDEFINED };
    commands.push(
        Command::Barrier {
            src_stage: STAGE_ALL_COMMANDS,
            dst_stage: STAGE_TRANSFER_COMPUTE,
            dependencies: Dependencies::Images2(
                ImageBarrier {
                    image: s.original,
                    old_layout: held_layout,
                    new_layout: LAYOUT_TRANSFER_DST,
                    src_access: ACCESS_SHADER_READ,
                    dst_access: ACCESS_TRANSFER_WRITE,
                },
                ImageBarrier {
                    image: s.output,
                    old_layout: output_layout,
                    new_layout: LAYOUT_GENERAL,
                    src_access: ACCESS_TRANSFER_READ,
                    dst_access: ACCESS_SHADER_WRITE,
                },
            ),
        },
    );
    commands.push(
        Command::CopyBufferToImage {
            buffer: s.current,
            image: s.original,
            layout: LAYOUT_TRANSFER_DST,
            region: Region { buffer_offset: 0, width, height },
        },
    );
    commands.push(
        image_barrier(
            STAGE_TRANSFER,
            STAGE_COMPUTE_SHADER,
            s.original,
            LAYOUT_TRANSFER_DST,
            LAYOUT_GENERAL,
            ACCESS_TRANSFER_WRITE,
            ACCESS_SHADER_READ,
        ),
    );
    commands.push(Command::Bind { dispatcher: p.dispatcher });
    commands.push(
        Command::Push {
            pipeline_layout: p.dispatcher.pipeline_layout,
            constants: PushConstants::Compose {
                colour_strength: p.colour_strength,
                transfer_strength: p.transfer_strength,
                max_ratio: p.max_ratio,
                bgr_order: bgr,
                mode: mode,
            },
        },
    );
    commands.push(Command::Dispatch { groups_x: work_groups(width), groups_y: work_groups(height) });
}

/// Appends the write-back of the composed frame.
fn record_write(commands: &mut Vec<Command>, s: ComposeImages, width: u32, height: u32, frame_bytes: u64, target: u64)
    ensures
        final(commands)@ == old(commands)@ + write_current(s, width, height, frame_bytes, target),
{
    commands.push(
        image_barrier(
            STAGE_COMPUTE_SHADER,
            STAGE_TRANSFER,
            s.output,
            LAYOUT_GENERAL,
            LAYOUT_TRANSFER_SRC,
            ACCESS_SHADER_WRITE,
            ACCESS_TRANSFER_READ,
        ),
    );
    commands.push(
        Command::CopyImageToBuffer {
            image: s.output,
            layout: LAYOUT_TRANSFER_SRC,
            buffer: s.cached,
            region: Region { buffer_offset: 0, width, height },
        },
    );
    commands.push(buffer_ready(s.cached, frame_bytes));
    commands.push(
        image_barrier(
            STAGE_TRANSFER,
            STAGE_TRANSFER,
            target,
            LAYOUT_TRANSFER_SRC,
            LAYOUT_TRANSFER_DST,
            ACCESS_TRANSFER_READ,
            ACCESS_TRANSFER_WRITE,
        ),
    );
    commands.push(
        Command::CopyBufferToImage {
            buffer: s.cached,
            image: target,
            layout: LAYOUT_TRANSFER_DST,
            region: Region { buffer_offset: 0, width, height },
        },
    );
    commands.push(
        image_barrier(
            STAGE_TRANSFER,
            STAGE_ALL_COMMANDS,
            target,
            LAYOUT_TRANSFER_DST,
            LAYOUT_PRESENT_SRC,
            ACCESS_TRANSFER_WRITE,
            ACCESS_NONE,
        ),
    );
}

/// Records one present: the presented image is read into the slot, a new answer is uploaded when
/// `update` says so (scaled up on the way when it is smaller than the frame), the shader composes
/// the answer onto the frame, and the result is written back to the presented image.
///
/// `cached_before` says that the slot has composed before, so that its images are in the layouts
/// that the last compose left them in.
pub fn record_temporal_delta_into_image(
    s: ComposeImages,
    width: u32,
    height: u32,
    a: Raster,
    frame_bytes: u64,
    cached_before: bool,
    update: bool,
    target: u64,
    p: ComposeParams,
) -> (commands: Vec<Command>)
    ensures
        commands@ == temporal_delta_into_image(s, width, height, a, frame_bytes, cached_before, update, target, p),
{
    let mut commands: Vec<Command> = Vec::new();
    commands.push(
        image_barrier(
            STAGE_ALL_COMMANDS,
            STAGE_TRANSFER,
            target,
            LAYOUT_PRESENT_SRC,
            LAYOUT_TRANSFER_SRC,
            ACCESS_NONE,
            ACCESS_TRANSFER_READ,
        ),
    );
    commands.push(
        Command::CopyImageToBuffer {
            image: target,
            layout: LAYOUT_TRANSFER_SRC,
            buffer: s.current,
            region: Region { buffer_offset: 0, width, height },
        },
    );
    commands.push(buffer_ready(s.current, frame_bytes));
    assert(commands@ == read_current(s, width, height, frame_bytes, target));
    if update {
        record_update(&mut commands, s, width, height, a, frame_bytes, cached_before);
    }
    assert(
        commands@ == read_current(s, width, height, frame_bytes, target) + take_update(
            s,
            width,
            height,
            a,
            frame_bytes,
            cached_before,
            update,
        )
    );
    record_compose(&mut commands, s, width, height, cached_before, p);
    record_write(&mut commands, s, width, height, frame_bytes, target);
    commands
}

proof fn lemma_upload(m: Map<u64, i32>, s: ComposeImages, width: u32, height: u32, frame_bytes: u64)
    requires
        distinct_images(s),
    ensures
        replay(m, upload_part(s, width, height, frame_bytes)) == Some(
            m.insert(s.original, LAYOUT_TRANSFER_DST).insert(s.model_answer, LAYOUT_TRANSFER_DST).insert(
                s.proxy,
                LAYOUT_TRANSFER_DST,
            ),
        ),
{
    let c = upload_part(s, width, height, frame_bytes);
    let r = m.insert(s.original, LAYOUT_TRANSFER_DST).insert(s.model_answer, LAYOUT_TRANSFER_DST).insert(
        s.proxy,
        LAYOUT_TRANSFER_DST,
    );
    replay_unrolls(m, c);
    assert(replay(m, c.take(1)) == Some(r));
    assert(replay(m, c.take(2)) == Some(r));
    assert(replay(m, c.take(3)) == Some(r));
    assert(replay(m, c.take(4)) == Some(r));
}

proof fn lemma_compute(m: Map<u64, i32>, s: ComposeImages, p: ComposeParams, width: u32, height: u32)
    requires
        distinct_images(s),
        in_layout(m, s.original, LAYOUT_TRANSFER_DST),
        in_layout(m, s.model_answer, LAYOUT_TRANSFER_DST),
        in_layout(m, s.proxy, LAYOUT_TRANSFER_DST),
    ensures
        replay(m, compute_part(s, p, width, height)) == Some(
            m.insert(s.original, LAYOUT_GENERAL).insert(s.model_answer, LAYOUT_GENERAL).insert(
                s.proxy,
                LAYOUT_GENERAL,
            ).insert(s.output, LAYOUT_GENERAL),
        ),
{
    let c = compute_part(s, p, width, height);
    let r = m.insert(s.original, LAYOUT_GENERAL).insert(s.model_answer, LAYOUT_GENERAL).insert(
        s.proxy,
        LAYOUT_GENERAL,
    ).insert(s.output, LAYOUT_GENERAL);
    replay_unrolls(m, c);
    assert(replay(m, c.take(1)) == Some(r));
    assert(replay(m, c.take(2)) == Some(r));
    assert(replay(m, c.take(3)) == Some(r));
    assert(replay(m, c.take(4)) == Some(r));
}

/// Whatever layouts a slot's images are in, an upload and dispatch finds every command's image in
/// the layout it names, runs the shader with all four images in the general layout, and leaves
/// the slot in its composed layouts and every other image as it was.
pub proof fn upload_and_compute_leaves_composed_layouts(
    m: Map<u64, i32>,
    s: ComposeImages,
    width: u32,
    height: u32,
    frame_bytes: u64,
    p: ComposeParams,
)
    requires
        distinct_images(s),
    ensures
        replay(m, upload_part(s, width, height, frame_bytes) + compute_part(s, p, width, height)) matches Some(
            d,
        ) && in_layout(d, s.original, LAYOUT_GENERAL) && in_layout(d, s.model_answer, LAYOUT_GENERAL) && in_layout(
            d,
            s.proxy,
            LAYOUT_GENERAL,
        ) && in_layout(d, s.output, LAYOUT_GENERAL),
        replay(m, upload_and_compute(s, width, height, frame_bytes, p)) == Some(
            m.insert(s.original, LAYOUT_GENERAL).insert(s.model_answer, LAYOUT_GENERAL).insert(
                s.proxy,
                LAYOUT_GENERAL,
            ).insert(s.output, LAYOUT_TRANSFER_SRC),
        ),
        replay(m, upload_and_compute(s, width, height, frame_bytes, p)) matches Some(r) && composed_layouts(r, s),
{
    let a = upload_part(s, width, height, frame_bytes);
    let b = compute_part(s, p, width, height);
    let c = download_part(s, width, height);
    lemma_upload(m, s, width, height, frame_bytes);
    let up = replay(m, a)->0;
    lemma_compute(up, s, p, width, height);
    replay_concatenates(m, a, b);
    let at = replay(up, b)->0;
    let end = at.insert(s.output, LAYOUT_TRANSFER_SRC);
    replay_unrolls(at, c);
    assert(replay(at, c.take(1)) == Some(end));
    assert(replay(at, c.take(2)) == Some(end));
    replay_concatenates(m, a + b, c);
    assert(end =~= m.insert(s.original, LAYOUT_GENERAL).insert(s.model_answer, LAYOUT_GENERAL).insert(
        s.proxy,
        LAYOUT_GENERAL,
    ).insert(s.output, LAYOUT_TRANSFER_SRC));
}

/// The copy of a composed frame onto a presentable image leaves it presentable, and changes the
/// layout of nothing.
pub proof fn copy_into_image_restores_the_layout(
    m: Map<u64, i32>,
    s: ComposeImages,
    width: u32,
    height: u32,
    frame_bytes: u64,
    target: u64,
)
    requires
        in_layout(m, target, LAYOUT_PRESENT_SRC),
    ensures
        replay(m, copy_into_image(s, width, height, frame_bytes, target)) == Some(m),
{
    let c = copy_into_image(s, width, height, frame_bytes, target);
    let mid = m.insert(target, LAYOUT_TRANSFER_DST);
    replay_unrolls(m, c);
    assert(replay(m, c.take(1)) == Some(mid));
    assert(replay(m, c.take(2)) == Some(mid));
    assert(replay(m, c.take(3)) == Some(mid));
    assert(mid.insert(target, LAYOUT_PRESENT_SRC) =~= m);
    assert(replay(m, c.take(4)) == Some(m));
}

/// A held answer presented as it is leaves a presentable image presentable, and changes the layout
/// of nothing.
pub proof fn cached_raw_restores_the_layout(
    m: Map<u64, i32>,
    s: ComposeImages,
    width: u32,
    height: u32,
    frame_bytes: u64,
    update: bool,
    target: u64,
)
    requires
        in_layout(m, target, LAYOUT_PRESENT_SRC),
    ensures
        replay(m, cached_raw_into_image(s, width, height, frame_bytes, update, target)) == Some(m),
{
    let a = cached_update(s, frame_bytes, update);
    let c = cached_present(s, width, height, frame_bytes, target);
    replay_unrolls(m, a);
    assert(replay(m, a) == Some(m)) by {
        if update {
            assert(replay(m, a.take(1)) == Some(m));
        }
    }
    let mid = m.insert(target, LAYOUT_TRANSFER_DST);
    replay_unrolls(m, c);
    assert(replay(m, c.take(1)) == Some(m));
    assert(replay(m, c.take(2)) == Some(mid));
    assert(replay(m, c.take(3)) == Some(mid));
    assert(mid.insert(target, LAYOUT_PRESENT_SRC) =~= m);
    assert(replay(m, c.take(4)) == Some(m));
    replay_concatenates(m, a, c);
}

/// The layouts after a new answer was taken.
pub open spec fn after_update(m: Map<u64, i32>, s: ComposeImages, scaled: bool, update: bool) -> Map<u64, i32> {
    if update {
        let v = m.insert(s.proxy, LAYOUT_GENERAL).insert(s.model_answer, LAYOUT_GENERAL);
        if scaled {
            v.insert(s.small_answer, LAYOUT_TRANSFER_SRC)
        } else {
            v
        }
    } else {
        m
    }
}

proof fn lemma_take_answer(
    m: Map<u64, i32>,
    s: ComposeImages,
    width: u32,
    height: u32,
    a: Raster,
    frame_bytes: u64,
)
    requires
        distinct_images(s),
        in_layout(m, s.model_answer, LAYOUT_TRANSFER_DST),
    ensures
        replay(m, take_answer(s, width, height, a, frame_bytes)) == Some(
            if a.width != width || a.height != height {
                m.insert(s.small_answer, LAYOUT_TRANSFER_SRC)
            } else {
                m
            },
        ),
{
    let c = take_answer(s, width, height, a, frame_bytes);
    replay_unrolls(m, c);
    if a.width != width || a.height != height {
        let dst = m.insert(s.small_answer, LAYOUT_TRANSFER_DST);
        let src = m.insert(s.small_answer, LAYOUT_TRANSFER_SRC);
        assert(replay(m, c.take(1)) == Some(dst));
        assert(replay(m, c.take(2)) == Some(dst));
        assert(dst.insert(s.small_answer, LAYOUT_TRANSFER_SRC) =~= src);
        assert(replay(m, c.take(3)) == Some(src));
        assert(replay(m, c.take(4)) == Some(src));
    } else {
        assert(replay(m, c.take(1)) == Some(m));
    }
}

proof fn lemma_take_update(
    m: Map<u64, i32>,
    s: ComposeImages,
    width: u32,
    height: u32,
    a: Raster,
    frame_bytes: u64,
    cached_before: bool,
)
    requires
        distinct_images(s),
        cached_before ==> composed_layouts(m, s),
    ensures
        replay(m, take_update(s, width, height, a, frame_bytes, cached_before, true)) == Some(
            after_update(m, s, a.width != width || a.height != height, true),
        ),
{
    let x = take_proxy(s, width, height, cached_before);
    let y = take_answer(s, width, height, a, frame_bytes);
    let z = answer_ready(s);
    let scaled = a.width != width || a.height != height;
    let m1 = m.insert(s.proxy, LAYOUT_TRANSFER_DST).insert(s.model_answer, LAYOUT_TRANSFER_DST);
    replay_unrolls(m, x);
    assert(replay(m, x.take(1)) == Some(m1));
    assert(replay(m, x.take(2)) == Some(m1));
    lemma_take_answer(m1, s, width, height, a, frame_bytes);
    replay_concatenates(m, x, y);
    let m2 = if scaled {
        m1.insert(s.small_answer, LAYOUT_TRANSFER_SRC)
    } else {
        m1
    };
    let m3 = m2.insert(s.proxy, LAYOUT_GENERAL).insert(s.model_answer, LAYOUT_GENERAL);
    replay_unrolls(m2, z);
    assert(replay(m2, z.take(1)) == Some(m3));
    replay_concatenates(m, x + y, z);
    assert(m3 =~= after_update(m, s, scaled, true));
}

proof fn lemma_compose_current(
    m: Map<u64, i32>,
    s: ComposeImages,
    width: u32,
    height: u32,
    cached_before: bool,
    p: ComposeParams,
)
    requires
        distinct_images(s),
        cached_before ==> in_layout(m, s.original, LAYOUT_GENERAL) && in_layout(m, s.output, LAYOUT_TRANSFER_SRC),
    ensures
        replay(m, compose_current(s, width, height, cached_before, p)) == Some(
            m.insert(s.original, LAYOUT_GENERAL).insert(s.output, LAYOUT_GENERAL),
        ),
{
    let c = compose_current(s, width, height, cached_before, p);
    let m1 = m.insert(s.original, LAYOUT_TRANSFER_DST).insert(s.output, LAYOUT_GENERAL);
    let m2 = m.insert(s.original, LAYOUT_GENERAL).insert(s.output, LAYOUT_GENERAL);
    replay_unrolls(m, c);
    assert(replay(m, c.take(1)) == Some(m1));
    assert(replay(m, c.take(2)) == Some(m1));
    assert(m1.insert(s.original, LAYOUT_GENERAL) =~= m2);
    assert(replay(m, c.take(3)) == Some(m2));
    assert(replay(m, c.take(4)) == Some(m2));
    assert(replay(m, c.take(5)) == Some(m2));
    assert(replay(m, c.take(6)) == Some(m2));
}

proof fn lemma_write_current(
    m: Map<u64, i32>,
    s: ComposeImages,
    width: u32,
    height: u32,
    frame_bytes: u64,
    target: u64,
)
    requires
        foreign(s, target),
        in_layout(m, s.output, LAYOUT_GENERAL),
        in_layout(m, target, LAYOUT_TRANSFER_SRC),
    ensures
        replay(m, write_current(s, width, height, frame_bytes, target)) == Some(
            m.insert(s.output, LAYOUT_TRANSFER_SRC).insert(target, LAYOUT_PRESENT_SRC),
        ),
{
    let c = write_current(s, width, height, frame_bytes, target);
    let m1 = m.insert(s.output, LAYOUT_TRANSFER_SRC);
    let m2 = m1.insert(target, LAYOUT_TRANSFER_DST);
    let m3 = m1.insert(target, LAYOUT_PRESENT_SRC);
    replay_unrolls(m, c);
    assert(replay(m, c.take(1)) == Some(m1));
    assert(replay(m, c.take(2)) == Some(m1));
    assert(replay(m, c.take(3)) == Some(m1));
    assert(replay(m, c.take(4)) == Some(m2));
    assert(replay(m, c.take(5)) == Some(m2));
    assert(m2.insert(target, LAYOUT_PRESENT_SRC) =~= m3);
    assert(replay(m, c.take(6)) == Some(m3));
}

/// A present of an answer finds every command's image in the layout it names, composes with the
/// slot's four images in the general layout, leaves the presented image presentable and the slot
/// in its composed layouts, and changes nothing but the slot. A slot that has not composed before
/// must be given an answer; from then on the layouts it needs are the ones it left.
pub proof fn temporal_delta_keeps_the_layouts(
    m: Map<u64, i32>,
    s: ComposeImages,
    width: u32,
    height: u32,
    a: Raster,
    frame_bytes: u64,
    cached_before: bool,
    update: bool,
    target: u64,
    p: ComposeParams,
)
    requires
        distinct_images(s),
        foreign(s, target),
        in_layout(m, target, LAYOUT_PRESENT_SRC),
        cached_before ==> composed_layouts(m, s),
        update || cached_before,
    ensures
        replay(
            m,
            read_current(s, width, height, frame_bytes, target) + take_update(
                s,
                width,
                height,
                a,
                frame_bytes,
                cached_before,
                update,
            ) + compose_current(s, width, height, cached_before, p),
        ) matches Some(d) && in_layout(d, s.original, LAYOUT_GENERAL) && in_layout(d, s.model_answer, LAYOUT_GENERAL)
            && in_layout(d, s.proxy, LAYOUT_GENERAL) && in_layout(d, s.output, LAYOUT_GENERAL),
        replay(m, temporal_delta_into_image(s, width, height, a, frame_bytes, cached_before, update, target, p))
            == Some(
            after_update(m, s, a.width != width || a.height != height, update).insert(
                s.original,
                LAYOUT_GENERAL,
            ).insert(s.output, LAYOUT_TRANSFER_SRC),
        ),
        replay(m, temporal_delta_into_image(s, width, height, a, frame_bytes, cached_before, update, target, p)) matches Some(
            r,
        ) && composed_layouts(r, s) && in_layout(r, target, LAYOUT_PRESENT_SRC),
{
    let scaled = a.width != width || a.height != height;
    let w = read_current(s, width, height, frame_bytes, target);
    let x = take_update(s, width, height, a, frame_bytes, cached_before, update);
    let y = compose_current(s, width, height, cached_before, p);
    let z = write_current(s, width, height, frame_bytes, target);
    let m1 = m.insert(target, LAYOUT_TRANSFER_SRC);
    replay_unrolls(m, w);
    assert(replay(m, w.take(1)) == Some(m1));
    assert(replay(m, w.take(2)) == Some(m1));
    assert(replay(m, w.take(3)) == Some(m1));
    let m2 = after_update(m1, s, scaled, update);
    if update {
        lemma_take_update(m1, s, width, height, a, frame_bytes, cached_before);
    } else {
        replay_unrolls(m1, x);
    }
    replay_concatenates(m, w, x);
    lemma_compose_current(m2, s, width, height, cached_before, p);
    replay_concatenates(m, w + x, y);
    let m3 = m2.insert(s.original, LAYOUT_GENERAL).insert(s.output, LAYOUT_GENERAL);
    lemma_write_current(m3, s, width, height, frame_bytes, target);
    replay_concatenates(m, w + x + y, z);
    assert(m3.insert(s.output, LAYOUT_TRANSFER_SRC).insert(target, LAYOUT_PRESENT_SRC) =~= after_update(
        m,
        s,
        scaled,
        update,
    ).insert(s.original, LAYOUT_GENERAL).insert(s.output, LAYOUT_TRANSFER_SRC));
}

} // verus!
