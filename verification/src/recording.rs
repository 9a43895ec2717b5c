//! What the capture and compose submissions record.
//!
//! Each function returns the whole command list of one recording. The laws at the end say, over
//! [`replay`], that every command sees its image in the layout it names and in which layout each
//! image is left.

use crate::commands::{
    buffer_ready, buffer_ready_spec, groups, image_barrier, image_barrier_spec, in_layout, replay,
    replay_concatenates, replay_unrolls, work_groups, BufferBarrier, Command, Dependencies,
    Dispatcher, ImageBarrier, PushConstants, Region,
};
use crate::vulkan::{
    ACCESS_NONE, ACCESS_SHADER_READ_WRITE, ACCESS_SHADER_WRITE, ACCESS_TRANSFER_READ,
    ACCESS_TRANSFER_WRITE, LAYOUT_GENERAL, LAYOUT_TRANSFER_DST, LAYOUT_TRANSFER_SRC,
    LAYOUT_UNDEFINED, STAGE_ALL_COMMANDS, STAGE_COMPUTE_SHADER, STAGE_TRANSFER, WHOLE_SIZE,
};
use vstd::prelude::*;

verus! {

/// The scratch image that a frame is scaled onto for the model, with the buffer it is then
/// downloaded to.
#[derive(Clone, Copy, Debug, PartialEq, Eq, Structural)]
pub struct ModelTarget {
    pub image: u64,
    pub buffer: u64,
    pub width: u32,
    pub height: u32,
}

/// The encode dispatch over the scratch image.
#[derive(Clone, Copy, Debug, PartialEq, Eq, Structural)]
pub struct EncodeDispatch {
    pub dispatcher: Dispatcher,
    pub white_point: u32,
    pub bgr_order: u32,
    pub reversible_mode: u32,
}

/// One capture: `image`, found in `initial_layout`, is copied to `buffer` and, where asked for,
/// to a second buffer and onto the model's scratch image.
#[derive(Clone, Copy, Debug, PartialEq, Eq, Structural)]
pub struct CaptureRecording {
    pub image: u64,
    pub initial_layout: i32,
    pub buffer: u64,
    pub extra_dst: Option<u64>,
    pub width: u32,
    pub height: u32,
    pub model: Option<ModelTarget>,
    pub encode: Option<EncodeDispatch>,
}

/// The layout that a captured image is read in. An image found in the general layout is read
/// there, without any transition; any other goes to the transfer-source layout.
pub open spec fn read_layout(initial_layout: i32) -> i32 {
    if initial_layout == LAYOUT_GENERAL {
        LAYOUT_GENERAL
    } else {
        LAYOUT_TRANSFER_SRC
    }
}

pub open spec fn whole(width: u32, height: u32) -> Region {
    Region { buffer_offset: 0, width, height }
}

/// Makes the image readable and copies it to the capture buffer.
pub open spec fn capture_head(r: CaptureRecording) -> Seq<Command> {
    seq![
        image_barrier_spec(
            STAGE_ALL_COMMANDS,
            STAGE_TRANSFER,
            r.image,
            r.initial_layout,
            read_layout(r.initial_layout),
            ACCESS_NONE,
            ACCESS_TRANSFER_READ,
        ),
        Command::CopyImageToBuffer {
            image: r.image,
            layout: read_layout(r.initial_layout),
            buffer: r.buffer,
            region: whole(r.width, r.height),
        },
    ]
}

/// The second copy of the frame, and the barrier that lets a later submission read it.
pub open spec fn capture_extra(r: CaptureRecording) -> Seq<Command> {
    match r.extra_dst {
        Some(extra) => seq![
            Command::CopyImageToBuffer {
                image: r.image,
                layout: read_layout(r.initial_layout),
                buffer: extra,
                region: whole(r.width, r.height),
            },
            buffer_ready_spec(extra, WHOLE_SIZE),
        ],
        None => seq![],
    }
}

/// Scales the frame onto the model's scratch image.
pub open spec fn model_blit(r: CaptureRecording, model: ModelTarget) -> Seq<Command> {
    seq![
        image_barrier_spec(
            STAGE_ALL_COMMANDS,
            STAGE_TRANSFER,
            model.image,
            LAYOUT_UNDEFINED,
            LAYOUT_TRANSFER_DST,
            ACCESS_NONE,
            ACCESS_TRANSFER_WRITE,
        ),
        Command::Blit {
            src: r.image,
            src_layout: read_layout(r.initial_layout),
            src_width: r.width,
            src_height: r.height,
            dst: model.image,
            dst_layout: LAYOUT_TRANSFER_DST,
            dst_width: model.width,
            dst_height: model.height,
        },
    ]
}

/// Takes the scratch image from the blit to the download, through the encode where there is one.
pub open spec fn model_encode(r: CaptureRecording, model: ModelTarget) -> Seq<Command> {
    match r.encode {
        Some(e) => seq![
            image_barrier_spec(
                STAGE_TRANSFER,
                STAGE_COMPUTE_SHADER,
                model.image,
                LAYOUT_TRANSFER_DST,
                LAYOUT_GENERAL,
                ACCESS_TRANSFER_WRITE,
                ACCESS_SHADER_READ_WRITE,
            ),
            Command::Bind { dispatcher: e.dispatcher },
            Command::Push {
                pipeline_layout: e.dispatcher.pipeline_layout,
                constants: PushConstants::Encode {
                    white_point: e.white_point,
                    bgr_order: e.bgr_order,
                    reversible_mode: e.reversible_mode,
                },
            },
            Command::Dispatch { groups_x: groups(model.width), groups_y: groups(model.height) },
            image_barrier_spec(
                STAGE_COMPUTE_SHADER,
                STAGE_TRANSFER,
                model.image,
                LAYOUT_GENERAL,
                LAYOUT_TRANSFER_SRC,
                ACCESS_SHADER_WRITE,
                ACCESS_TRANSFER_READ,
            ),
        ],
        None => seq![
            image_barrier_spec(
                STAGE_TRANSFER,
                STAGE_TRANSFER,
                model.image,
                LAYOUT_TRANSFER_DST,
                LAYOUT_TRANSFER_SRC,
                ACCESS_TRANSFER_WRITE,
                ACCESS_TRANSFER_READ,
            ),
        ],
    }
}

/// Downloads the scratch image.
pub open spec fn model_download(model: ModelTarget) -> Seq<Command> {
    seq![
        Command::CopyImageToBuffer {
            image: model.image,
            layout: LAYOUT_TRANSFER_SRC,
            buffer: model.buffer,
            region: whole(model.width, model.height),
        },
    ]
}

pub open spec fn capture_model(r: CaptureRecording) -> Seq<Command> {
    match r.model {
        Some(model) => model_blit(r, model) + model_encode(r, model) + model_download(model),
        None => seq![],
    }
}

/// Puts the image back in the layout it was found in.
pub open spec fn capture_tail(r: CaptureRecording) -> Seq<Command> {
    seq![
        image_barrier_spec(
            STAGE_TRANSFER,
            STAGE_ALL_COMMANDS,
            r.image,
            read_layout(r.initial_layout),
            r.initial_layout,
            ACCESS_TRANSFER_READ,
            ACCESS_NONE,
        ),
    ]
}

/// A whole capture recording.
pub open spec fn capture_commands(r: CaptureRecording) -> Seq<Command> {
    capture_head(r) + capture_extra(r) + capture_model(r) + capture_tail(r)
}

/// Records a capture of `r.image`: read in place or through the transfer-source layout, copied to
/// `r.buffer` at full size, to `r.extra_dst` as well where there is one, scaled onto the model's
/// scratch image and encoded there where asked for, and back in its own layout at the end.
pub fn record_capture_commands(r: CaptureRecording) -> (commands: Vec<Command>)
    ensures
        commands@ == capture_commands(r),
{
    let read: i32 = if r.initial_layout == LAYOUT_GENERAL {
        LAYOUT_GENERAL
    } else {
        LAYOUT_TRANSFER_SRC
    };
    let region = Region { buffer_offset: 0, width: r.width, height: r.height };
    let mut commands: Vec<Command> = Vec::new();
    commands.push(
        image_barrier(
            STAGE_ALL_COMMANDS,
            STAGE_TRANSFER,
            r.image,
            r.initial_layout,
            read,
            ACCESS_NONE,
            ACCESS_TRANSFER_READ,
        ),
    );
    commands.push(Command::CopyImageToBuffer { image: r.image, layout: read, buffer: r.buffer, region });
    assert(commands@ == capture_head(r));
    if let Some(extra) = r.extra_dst {
        commands.push(Command::CopyImageToBuffer { image: r.image, layout: read, buffer: extra, region });
        commands.push(buffer_ready(extra, WHOLE_SIZE));
    }
    assert(commands@ == capture_head(r) + capture_extra(r));
    if let Some(model) = r.model {
        commands.push(
            image_barrier(
                STAGE_ALL_COMMANDS,
                STAGE_TRANSFER,
                model.image,
                LAYOUT_UNDEFINED,
                LAYOUT_TRANSFER_DST,
                ACCESS_NONE,
                ACCESS_TRANSFER_WRITE,
            ),
        );
        commands.push(
            Command::Blit {
                src: r.image,
                src_layout: read,
                src_width: r.width,
                src_height: r.height,
                dst: model.image,
                dst_layout: LAYOUT_TRANSFER_DST,
                dst_width: model.width,
                dst_height: model.height,
            },
        );
        assert(commands@ == capture_head(r) + capture_extra(r) + model_blit(r, model));
        if let Some(e) = r.encode {
            commands.push(
                image_barrier(
                    STAGE_TRANSFER,
                    STAGE_COMPUTE_SHADER,
                    model.image,
                    LAYOUT_TRANSFER_DST,
                    LAYOUT_GENERAL,
                    ACCESS_TRANSFER_WRITE,
                    ACCESS_SHADER_READ_WRITE,
                ),
            );
            record_encode(&mut commands, e, model.width, model.height);
            commands.push(
                image_barrier(
                    STAGE_COMPUTE_SHADER,
                    STAGE_TRANSFER,
                    model.image,
                    LAYOUT_GENERAL,
                    LAYOUT_TRANSFER_SRC,
                    ACCESS_SHADER_WRITE,
                    ACCESS_TRANSFER_READ,
                ),
            );
        } else {
            commands.push(
                image_barrier(
                    STAGE_TRANSFER,
                    STAGE_TRANSFER,
                    model.image,
                    LAYOUT_TRANSFER_DST,
                    LAYOUT_TRANSFER_SRC,
                    ACCESS_TRANSFER_WRITE,
                    ACCESS_TRANSFER_READ,
                ),
            );
        }
        assert(commands@ == capture_head(r) + capture_extra(r) + (model_blit(r, model) + model_encode(r, model)));
        commands.push(
            Command::CopyImageToBuffer {
                image: model.image,
                layout: LAYOUT_TRANSFER_SRC,
                buffer: model.buffer,
                region: Region { buffer_offset: 0, width: model.width, height: model.height },
            },
        );
    }
    assert(commands@ == capture_head(r) + capture_extra(r) + capture_model(r));
    commands.push(
        image_barrier(
            STAGE_TRANSFER,
            STAGE_ALL_COMMANDS,
            r.image,
            read,
            r.initial_layout,
            ACCESS_TRANSFER_READ,
            ACCESS_NONE,
        ),
    );
    commands
}

/// Appends the encode dispatch over a scratch image of `width` by `height` pixels.
pub fn record_encode(commands: &mut Vec<Command>, e: EncodeDispatch, width: u32, height: u32)
    ensures
        final(commands)@ == old(commands)@ + seq![
            Command::Bind { dispatcher: e.dispatcher },
            Command::Push {
                pipeline_layout: e.dispatcher.pipeline_layout,
                constants: PushConstants::Encode {
                    white_point: e.white_point,
                    bgr_order: e.bgr_order,
                    reversible_mode: e.reversible_mode,
                },
            },
            Command::Dispatch { groups_x: groups(width), groups_y: groups(height) },
        ],
{
    commands.push(Command::Bind { dispatcher: e.dispatcher });
    commands.push(
        Command::Push {
            pipeline_layout: e.dispatcher.pipeline_layout,
            constants: PushConstants::Encode {
                white_point: e.white_point,
                bgr_order: e.bgr_order,
                reversible_mode: e.reversible_mode,
            },
        },
    );
    commands.push(Command::Dispatch { groups_x: work_groups(width), groups_y: work_groups(height) });
}

proof fn lemma_capture_head(layouts: Map<u64, i32>, r: CaptureRecording)
    requires
        in_layout(layouts, r.image, r.initial_layout),
    ensures
        replay(layouts, capture_head(r)) == Some(layouts.insert(r.image, read_layout(r.initial_layout))),
{
    replay_unrolls(layouts, capture_head(r));
}

proof fn lemma_capture_extra(layouts: Map<u64, i32>, r: CaptureRecording)
    requires
        in_layout(layouts, r.image, read_layout(r.initial_layout)),
    ensures
        replay(layouts, capture_extra(r)) == Some(layouts),
{
    replay_unrolls(layouts, capture_extra(r));
}

proof fn lemma_model_encode(layouts: Map<u64, i32>, r: CaptureRecording, model: ModelTarget)
    requires
        in_layout(layouts, model.image, LAYOUT_TRANSFER_DST),
    ensures
        replay(layouts, model_encode(r, model)) == Some(layouts.insert(model.image, LAYOUT_TRANSFER_SRC)),
{
    let b = model_encode(r, model);
    replay_unrolls(layouts, b);
    let end = layouts.insert(model.image, LAYOUT_TRANSFER_SRC);
    match r.encode {
        Some(e) => {
            let general = layouts.insert(model.image, LAYOUT_GENERAL);
            assert(replay(layouts, b.take(1)) == Some(general));
            assert(replay(layouts, b.take(2)) == Some(general));
            assert(replay(layouts, b.take(3)) == Some(general));
            assert(replay(layouts, b.take(4)) == Some(general));
            assert(general.insert(model.image, LAYOUT_TRANSFER_SRC) =~= end);
            assert(replay(layouts, b.take(5)) == Some(end));
        },
        None => {
            assert(replay(layouts, b.take(1)) == Some(end));
        },
    }
}

proof fn lemma_capture_model(layouts: Map<u64, i32>, r: CaptureRecording)
    requires
        in_layout(layouts, r.image, read_layout(r.initial_layout)),
        r.model matches Some(model) ==> model.image != r.image,
    ensures
        replay(layouts, capture_model(r)) == Some(
            match r.model {
                Some(model) => layouts.insert(model.image, LAYOUT_TRANSFER_SRC),
                None => layouts,
            },
        ),
{
    match r.model {
        Some(model) => {
            let a = model_blit(r, model);
            let b = model_encode(r, model);
            let c = model_download(model);
            let blitted = layouts.insert(model.image, LAYOUT_TRANSFER_DST);
            let end = layouts.insert(model.image, LAYOUT_TRANSFER_SRC);
            replay_unrolls(layouts, a);
            assert(replay(layouts, a.take(1)) == Some(blitted));
            assert(replay(layouts, a.take(2)) == Some(blitted));
            lemma_model_encode(blitted, r, model);
            assert(blitted.insert(model.image, LAYOUT_TRANSFER_SRC) =~= end);
            replay_concatenates(layouts, a, b);
            replay_unrolls(end, c);
            assert(replay(end, c.take(1)) == Some(end));
            replay_concatenates(layouts, a + b, c);
        },
        None => {
            replay_unrolls(layouts, capture_model(r));
        },
    }
}

/// A capture finds every command's image in the layout it names, and leaves the captured image
/// exactly in the layout it was found in, the scratch image ready to be read, and every other
/// image as it was.
pub proof fn capture_restores_the_layout(layouts: Map<u64, i32>, r: CaptureRecording)
    requires
        in_layout(layouts, r.image, r.initial_layout),
        r.model matches Some(model) ==> model.image != r.image,
    ensures
        replay(layouts, capture_commands(r)) == Some(
            match r.model {
                Some(model) => layouts.insert(model.image, LAYOUT_TRANSFER_SRC),
                None => layouts,
            },
        ),
{
    let read = layouts.insert(r.image, read_layout(r.initial_layout));
    let (a, b, c, d) = (capture_head(r), capture_extra(r), capture_model(r), capture_tail(r));
    lemma_capture_head(layouts, r);
    lemma_capture_extra(read, r);
    replay_concatenates(layouts, a, b);
    lemma_capture_model(read, r);
    replay_concatenates(layouts, a + b, c);
    let mid = match r.model {
        Some(model) => read.insert(model.image, LAYOUT_TRANSFER_SRC),
        None => read,
    };
    let end = mid.insert(r.image, r.initial_layout);
    replay_unrolls(mid, d);
    assert(replay(mid, d.take(1)) == Some(end));
    replay_concatenates(layouts, a + b + c, d);
    assert(end =~= (match r.model {
        Some(model) => layouts.insert(model.image, LAYOUT_TRANSFER_SRC),
        None => layouts,
    }));
}

/// An image found in the general layout is never taken out of it: every transition that a capture
/// of it records on that image is from the general layout to the general layout.
pub proof fn general_images_are_never_transitioned(r: CaptureRecording, k: int)
    requires
        r.initial_layout == LAYOUT_GENERAL,
        r.model matches Some(model) ==> model.image != r.image,
        0 <= k < capture_commands(r).len(),
    ensures
        match capture_commands(r)[k] {
            Command::Barrier { src_stage, dst_stage, dependencies } => match dependencies {
                Dependencies::Image(b) => b.image == r.image ==> b.old_layout == LAYOUT_GENERAL && b.new_layout
                    == LAYOUT_GENERAL,
                Dependencies::Buffer(_) => true,
                _ => false,
            },
            _ => true,
        },
{
}

} // verus!
