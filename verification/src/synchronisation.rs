//! What holds of every command of a recording: the barriers wait for what was done before them
//! and are ready for what comes after, copies cover the whole picture, and the shaders are told
//! what was asked for.
//!
//! The numbers are those of the Vulkan headers: the layouts general (1), transfer source (6),
//! transfer destination (7) and presentable (1000001002); the stages compute (0x800), transfer
//! (0x1000) and all commands (0x10000); the accesses shader read (0x20), shader write (0x40),
//! transfer read (0x800) and transfer write (0x1000).

use crate::commands::{Command, Dependencies, ImageBarrier, PushConstants, Region};
use crate::compose_recording::{
    answer_ready, cached_present, cached_raw_into_image, cached_update, compose_current, compute_part,
    copy_into_image, download_part, read_current, take_answer, take_proxy, take_update,
    temporal_delta_into_image, upload_and_compute, upload_part, write_current, ComposeImages,
    ComposeParams,
};
use crate::readback::{read_back, write_back};
use crate::recording::{
    capture_commands, capture_extra, capture_head, capture_model, capture_tail, model_blit,
    model_download, model_encode, CaptureRecording,
};
use crate::scaling::Raster;
use vstd::prelude::*;

verus! {

/// Every command of a list is as `f` says.
pub open spec fn each(commands: Seq<Command>, f: spec_fn(Command) -> bool) -> bool {
    forall|i: int| 0 <= i < commands.len() ==> f(#[trigger] commands[i])
}

proof fn lemma_each_of_sum(first: Seq<Command>, second: Seq<Command>, f: spec_fn(Command) -> bool)
    requires
        each(first, f),
        each(second, f),
    ensures
        each(first + second, f),
{
    let both = first + second;
    assert forall|i: int| 0 <= i < both.len() implies f(#[trigger] both[i]) by {
        if i < first.len() {
            assert(both[i] == first[i]);
        } else {
            assert(both[i] == second[i - first.len()]);
        }
    }
}

/// A transition waits for what was done in the layout it leaves, and is ready for what is done in
/// the layout it enters.
pub open spec fn takes_over(src_stage: u32, dst_stage: u32, b: ImageBarrier) -> bool {
    &&& b.old_layout == 7 ==> src_stage == 0x1000 && b.src_access == 0x1000
    &&& b.old_layout == 6 ==> (src_stage == 0x1000 || src_stage == 0x10000) && b.src_access == 0x800
    &&& b.old_layout == 1 ==> (src_stage == 0x800 || src_stage == 0x10000) && (b.src_access == 0x20
        || b.src_access == 0x40)
    &&& b.old_layout == 1000001002 ==> src_stage == 0x10000
    &&& b.new_layout == 7 ==> (dst_stage == 0x1000 || dst_stage == 0x1800) && b.dst_access == 0x1000
    &&& b.new_layout == 6 ==> dst_stage == 0x1000 && b.dst_access == 0x800
    &&& b.new_layout == 1 ==> (dst_stage == 0x800 || dst_stage == 0x1800) && (b.dst_access == 0x20
        || b.dst_access == 0x40 || b.dst_access == 0x60)
    &&& b.new_layout == 1000001002 ==> dst_stage == 0x10000
    &&& b.new_layout == 1 || b.new_layout == 6 || b.new_layout == 7 || b.new_layout == 1000001002
}

/// `takes_over`, of every transition of a command; a buffer barrier makes what a transfer wrote
/// readable by transfers.
pub open spec fn keeps_time(c: Command) -> bool {
    match c {
        Command::Barrier { src_stage, dst_stage, dependencies } => match dependencies {
            Dependencies::Image(a) => takes_over(src_stage, dst_stage, a),
            Dependencies::Images2(a, b) => takes_over(src_stage, dst_stage, a) && takes_over(
                src_stage,
                dst_stage,
                b,
            ),
            Dependencies::Images3(a, b, d) => takes_over(src_stage, dst_stage, a) && takes_over(
                src_stage,
                dst_stage,
                b,
            ) && takes_over(src_stage, dst_stage, d),
            Dependencies::Images4(a, b, d, e) => takes_over(src_stage, dst_stage, a) && takes_over(
                src_stage,
                dst_stage,
                b,
            ) && takes_over(src_stage, dst_stage, d) && takes_over(src_stage, dst_stage, e),
            Dependencies::Buffer(b) => src_stage == 0x1000 && dst_stage == 0x1000 && b.src_access
                == 0x1000 && b.dst_access == 0x800,
        },
        _ => true,
    }
}

/// The shader is given access to an image by `b` as it uses it: it writes `output` and reads the
/// others.
pub open spec fn is_given(b: ImageBarrier, output: u64) -> bool {
    b.new_layout == 1 ==> b.dst_access == (if b.image == output {
        0x40u32
    } else {
        0x20u32
    })
}

/// One command of a composition over a frame of `width` by `height` pixels, as far as it can be
/// told by itself.
pub open spec fn composes(
    c: Command,
    s: ComposeImages,
    width: u32,
    height: u32,
    a: Raster,
    frame_bytes: u64,
    p: ComposeParams,
    mode: u32,
) -> bool {
    &&& keeps_time(c)
    &&& match c {
        Command::Barrier { src_stage, dst_stage, dependencies } => match dependencies {
            Dependencies::Image(x) => is_given(x, s.output),
            Dependencies::Images2(x, y) => is_given(x, s.output) && is_given(y, s.output),
            Dependencies::Images3(x, y, z) => is_given(x, s.output) && is_given(y, s.output) && is_given(
                z,
                s.output,
            ),
            Dependencies::Images4(w, x, y, z) => is_given(w, s.output) && is_given(x, s.output)
                && is_given(y, s.output) && is_given(z, s.output),
            Dependencies::Buffer(b) => b.size == frame_bytes,
        },
        Command::CopyImageToBuffer { image, layout, buffer, region } => region == (Region {
            buffer_offset: 0,
            width,
            height,
        }),
        Command::CopyBufferToImage { buffer, image, layout, region } => if image == s.small_answer {
            region == (Region { buffer_offset: frame_bytes, width: a.width, height: a.height })
        } else {
            region == (Region {
                buffer_offset: if image == s.model_answer {
                    frame_bytes
                } else {
                    0
                },
                width,
                height,
            })
        },
        Command::CopyBuffer { src, dst, size } => size == frame_bytes,
        Command::Blit { src, src_layout, src_width, src_height, dst, dst_layout, dst_width, dst_height } => {
            &&& src == s.small_answer && src_width == a.width && src_height == a.height
            &&& dst == s.model_answer && dst_width == width && dst_height == height
        },
        Command::Bind { dispatcher } => dispatcher == p.dispatcher,
        Command::Push { pipeline_layout, constants } => {
            &&& pipeline_layout == p.dispatcher.pipeline_layout
            &&& constants == (PushConstants::Compose {
                colour_strength: p.colour_strength,
                transfer_strength: p.transfer_strength,
                max_ratio: p.max_ratio,
                bgr_order: if p.bgr_order {
                    1
                } else {
                    0
                },
                mode,
            })
        },
        Command::Dispatch { groups_x, groups_y } => {
            &&& width <= 8 * groups_x < width + 8
            &&& height <= 8 * groups_y < height + 8
        },
    }
}

/// A list binds a pipeline, tells the shader its settings and dispatches it, one right after the
/// other, at `at`.
pub open spec fn dispatches_at(commands: Seq<Command>, at: int) -> bool {
    &&& 1 <= at && at + 1 < commands.len()
    &&& commands[at - 1] is Bind
    &&& commands[at] is Push
    &&& commands[at + 1] is Dispatch
}

/// Composing the frame with its answer: every barrier keeps its time, every copy covers the whole
/// frame, the answer is read behind the frame, and the shader is told the byte order of the frame
/// (1 where blue comes first, 0 where red does), the strengths and the ratio that were asked for,
/// and the plain formula (0), over work groups of eight by eight pixels that cover the frame and
/// no more.
pub proof fn a_composition_is_told_its_settings(
    s: ComposeImages,
    width: u32,
    height: u32,
    a: Raster,
    frame_bytes: u64,
    p: ComposeParams,
)
    requires
        s.small_answer != s.original,
        s.small_answer != s.model_answer,
        s.small_answer != s.proxy,
        s.model_answer != s.original,
        s.model_answer != s.proxy,
        s.output != s.original,
        s.output != s.model_answer,
        s.output != s.proxy,
    ensures
        each(
            upload_and_compute(s, width, height, frame_bytes, p),
            |c: Command| composes(c, s, width, height, a, frame_bytes, p, 0),
        ),
        exists|at: int| dispatches_at(upload_and_compute(s, width, height, frame_bytes, p), at),
{
    let f = |c: Command| composes(c, s, width, height, a, frame_bytes, p, 0);
    let first = upload_part(s, width, height, frame_bytes);
    let second = compute_part(s, p, width, height);
    let third = download_part(s, width, height);
    assert(each(first, f));
    assert(each(second, f));
    assert(each(third, f));
    lemma_each_of_sum(first, second, f);
    lemma_each_of_sum(first + second, third, f);
    let all = upload_and_compute(s, width, height, frame_bytes, p);
    assert(all[5] == second[1]);
    assert(all[6] == second[2]);
    assert(all[7] == second[3]);
    assert(dispatches_at(all, 6));
}

/// The same of carrying an answer onto the frame that is shown: the formula is the ratio transfer
/// (2) where the frame was encoded before the model saw it, and the additive one (1) where not.
pub proof fn a_carried_answer_is_told_its_settings(
    s: ComposeImages,
    width: u32,
    height: u32,
    a: Raster,
    frame_bytes: u64,
    cached_before: bool,
    update: bool,
    target: u64,
    p: ComposeParams,
)
    requires
        s.small_answer != s.original,
        s.small_answer != s.model_answer,
        s.small_answer != s.proxy,
        s.model_answer != s.original,
        s.model_answer != s.proxy,
        s.output != s.original,
        s.output != s.model_answer,
        s.output != s.proxy,
        target != s.small_answer,
        target != s.model_answer,
    ensures
        each(
            temporal_delta_into_image(s, width, height, a, frame_bytes, cached_before, update, target, p),
            |c: Command|
                composes(
                    c,
                    s,
                    width,
                    height,
                    a,
                    frame_bytes,
                    p,
                    if p.proxy_encoded {
                        2
                    } else {
                        1
                    },
                ),
        ),
        exists|at: int|
            dispatches_at(
                temporal_delta_into_image(s, width, height, a, frame_bytes, cached_before, update, target, p),
                at,
            ),
{
    let mode: u32 = if p.proxy_encoded {
        2
    } else {
        1
    };
    let f = |c: Command| composes(c, s, width, height, a, frame_bytes, p, mode);
    let read = read_current(s, width, height, frame_bytes, target);
    let proxy = take_proxy(s, width, height, cached_before);
    let answer = take_answer(s, width, height, a, frame_bytes);
    let ready = answer_ready(s);
    let update_part = take_update(s, width, height, a, frame_bytes, cached_before, update);
    let compose = compose_current(s, width, height, cached_before, p);
    let write = write_current(s, width, height, frame_bytes, target);
    assert(each(read, f));
    assert(each(proxy, f));
    assert(each(answer, f));
    assert(each(ready, f));
    lemma_each_of_sum(proxy, answer, f);
    lemma_each_of_sum(proxy + answer, ready, f);
    assert(each(update_part, f));
    assert(each(compose, f));
    assert(each(write, f));
    lemma_each_of_sum(read, update_part, f);
    lemma_each_of_sum(read + update_part, compose, f);
    lemma_each_of_sum(read + update_part + compose, write, f);
    let all = temporal_delta_into_image(s, width, height, a, frame_bytes, cached_before, update, target, p);
    let before: int = (read + update_part).len() as int;
    assert(all[before + 3] == compose[3]);
    assert(all[before + 4] == compose[4]);
    assert(all[before + 5] == compose[5]);
    assert(dispatches_at(all, before + 4));
}

/// A frame whose bytes start with blue and one whose bytes start with red are never composed by
/// the same recording.
pub proof fn byte_orders_are_told_apart(
    s: ComposeImages,
    width: u32,
    height: u32,
    a: Raster,
    frame_bytes: u64,
    cached_before: bool,
    update: bool,
    target: u64,
    p: ComposeParams,
    q: ComposeParams,
)
    requires
        p.bgr_order,
        !q.bgr_order,
    ensures
        upload_and_compute(s, width, height, frame_bytes, p) != upload_and_compute(
            s,
            width,
            height,
            frame_bytes,
            q,
        ),
        temporal_delta_into_image(s, width, height, a, frame_bytes, cached_before, update, target, p)
            != temporal_delta_into_image(s, width, height, a, frame_bytes, cached_before, update, target, q),
{
    let one = upload_and_compute(s, width, height, frame_bytes, p);
    let other = upload_and_compute(s, width, height, frame_bytes, q);
    assert(one[6] == compute_part(s, p, width, height)[2]);
    assert(other[6] == compute_part(s, q, width, height)[2]);
    assert(one[6] != other[6]);
    let head = read_current(s, width, height, frame_bytes, target) + take_update(
        s,
        width,
        height,
        a,
        frame_bytes,
        cached_before,
        update,
    );
    let at: int = head.len() as int + 4;
    let one = temporal_delta_into_image(s, width, height, a, frame_bytes, cached_before, update, target, p);
    let other = temporal_delta_into_image(s, width, height, a, frame_bytes, cached_before, update, target, q);
    assert(one[at] == compose_current(s, width, height, cached_before, p)[4]);
    assert(other[at] == compose_current(s, width, height, cached_before, q)[4]);
    assert(one[at] != other[at]);
}

/// Putting a composed or a held frame on the image that is shown takes no shader, copies the whole
/// frame, and every barrier of it keeps its time.
pub proof fn a_plain_copy_keeps_time(
    s: ComposeImages,
    width: u32,
    height: u32,
    frame_bytes: u64,
    update: bool,
    target: u64,
)
    ensures
        each(
            copy_into_image(s, width, height, frame_bytes, target),
            |c: Command| copies(c, width, height, frame_bytes),
        ),
        each(
            cached_raw_into_image(s, width, height, frame_bytes, update, target),
            |c: Command| copies(c, width, height, frame_bytes),
        ),
{
    let f = |c: Command| copies(c, width, height, frame_bytes);
    assert(each(copy_into_image(s, width, height, frame_bytes, target), f));
    assert(each(cached_update(s, frame_bytes, update), f));
    assert(each(cached_present(s, width, height, frame_bytes, target), f));
    lemma_each_of_sum(
        cached_update(s, frame_bytes, update),
        cached_present(s, width, height, frame_bytes, target),
        f,
    );
}

/// One command of a plain copy of a frame of `width` by `height` pixels.
pub open spec fn copies(c: Command, width: u32, height: u32, frame_bytes: u64) -> bool {
    &&& keeps_time(c)
    &&& match c {
        Command::Barrier { src_stage, dst_stage, dependencies } => dependencies matches Dependencies::Buffer(b)
            ==> b.size == frame_bytes,
        Command::CopyBufferToImage { buffer, image, layout, region } => region == (Region {
            buffer_offset: 0,
            width,
            height,
        }),
        Command::CopyBuffer { src, dst, size } => size == frame_bytes,
        _ => false,
    }
}

/// The buffer that a command writes.
pub open spec fn writes(c: Command, buffer: u64) -> bool {
    match c {
        Command::CopyImageToBuffer { image, layout, buffer: to, region } => to == buffer,
        Command::CopyBuffer { src, dst, size } => dst == buffer,
        _ => false,
    }
}

/// The buffer that a command reads.
pub open spec fn reads(c: Command, buffer: u64) -> bool {
    match c {
        Command::CopyBufferToImage { buffer: from, image, layout, region } => from == buffer,
        Command::CopyBuffer { src, dst, size } => src == buffer,
        _ => false,
    }
}

/// A barrier after which what transfers wrote to `buffer` can be read.
pub open spec fn settles(c: Command, buffer: u64) -> bool {
    c matches Command::Barrier { src_stage, dst_stage, dependencies } && dependencies matches Dependencies::Buffer(b)
        && b.buffer == buffer
}

/// Between a command that writes a buffer and a later one that reads it stands a barrier for that
/// buffer.
pub open spec fn reads_wait_for_writes(commands: Seq<Command>) -> bool {
    forall|i: int, j: int, buffer: u64|
        0 <= i < j < commands.len() && #[trigger] writes(commands[i], buffer) && #[trigger] reads(
            commands[j],
            buffer,
        ) ==> exists|k: int| i < k < j && #[trigger] settles(commands[k], buffer)
}

/// No recording reads a buffer that it wrote without a barrier in between.
pub proof fn no_buffer_is_read_too_early(
    s: ComposeImages,
    width: u32,
    height: u32,
    a: Raster,
    frame_bytes: u64,
    cached_before: bool,
    update: bool,
    target: u64,
    p: ComposeParams,
)
    requires
        s.staging != s.cached,
        s.staging != s.current,
        s.cached != s.current,
    ensures
        reads_wait_for_writes(upload_and_compute(s, width, height, frame_bytes, p)),
        reads_wait_for_writes(cached_raw_into_image(s, width, height, frame_bytes, update, target)),
        reads_wait_for_writes(
            temporal_delta_into_image(s, width, height, a, frame_bytes, cached_before, update, target, p),
        ),
        exists|k: int|
            0 <= k < copy_into_image(s, width, height, frame_bytes, target).len() && #[trigger] settles(
                copy_into_image(s, width, height, frame_bytes, target)[k],
                s.staging,
            ) && forall|j: int|
                0 <= j < copy_into_image(s, width, height, frame_bytes, target).len() && reads(
                    #[trigger] copy_into_image(s, width, height, frame_bytes, target)[j],
                    s.staging,
                ) ==> k < j,
{
    let held = cached_raw_into_image(s, width, height, frame_bytes, update, target);
    if update {
        assert(held[0] == cached_update(s, frame_bytes, update)[0]);
        assert(held[1] == cached_present(s, width, height, frame_bytes, target)[0]);
        assert(settles(held[1], s.cached));
        assert forall|i: int, j: int, buffer: u64|
            0 <= i < j < held.len() && #[trigger] writes(held[i], buffer) && #[trigger] reads(held[j], buffer) implies exists|
            k: int,
        |
            i < k < j && #[trigger] settles(held[k], buffer) by {
            if i >= 1 {
                assert(held[i] == cached_present(s, width, height, frame_bytes, target)[i - 1]);
            }
            assert(held[j] == cached_present(s, width, height, frame_bytes, target)[j - 1]);
        }
    } else {
        assert(held =~= cached_present(s, width, height, frame_bytes, target));
    }
    let copied = copy_into_image(s, width, height, frame_bytes, target);
    assert(settles(copied[1], s.staging));
    let read = read_current(s, width, height, frame_bytes, target);
    let proxy = take_proxy(s, width, height, cached_before);
    let answer = take_answer(s, width, height, a, frame_bytes);
    let ready = answer_ready(s);
    let update_part = take_update(s, width, height, a, frame_bytes, cached_before, update);
    let compose = compose_current(s, width, height, cached_before, p);
    let write = write_current(s, width, height, frame_bytes, target);
    let all = temporal_delta_into_image(s, width, height, a, frame_bytes, cached_before, update, target, p);
    let quiet = |c: Command|
        {
            &&& forall|buffer: u64| !#[trigger] writes(c, buffer)
            &&& forall|buffer: u64| #[trigger] reads(c, buffer) ==> buffer == s.staging || buffer == s.current
        };
    assert(each(proxy, quiet));
    assert(each(answer, quiet));
    assert(each(ready, quiet));
    lemma_each_of_sum(proxy, answer, quiet);
    lemma_each_of_sum(proxy + answer, ready, quiet);
    assert(each(update_part, quiet));
    assert(each(compose, quiet));
    lemma_each_of_sum(update_part, compose, quiet);
    let middle = update_part + compose;
    let m: int = middle.len() as int;
    assert(all =~= read + middle + write);
    assert(all[0] == read[0] && all[1] == read[1] && all[2] == read[2]);
    assert(all[3 + m] == write[0] && all[3 + m + 1] == write[1] && all[3 + m + 2] == write[2]);
    assert(all[3 + m + 3] == write[3] && all[3 + m + 4] == write[4] && all[3 + m + 5] == write[5]);
    assert(settles(all[2], s.current));
    assert(settles(all[3 + m + 2], s.cached));
    assert forall|i: int, j: int, buffer: u64|
        0 <= i < j < all.len() && #[trigger] writes(all[i], buffer) && #[trigger] reads(all[j], buffer) implies exists|
        k: int,
    |
        i < k < j && #[trigger] settles(all[k], buffer) by {
        if 3 <= i < 3 + m {
            assert(all[i] == middle[i - 3]);
        }
        if 3 <= j < 3 + m {
            assert(all[j] == middle[j - 3]);
        }
        if i < 3 {
            assert(i == 1 && buffer == s.current);
            assert(j > 2);
        }
    }
    let up = upload_and_compute(s, width, height, frame_bytes, p);
    let silent = |c: Command| forall|buffer: u64| !#[trigger] writes(c, buffer);
    assert(each(upload_part(s, width, height, frame_bytes), silent));
    assert(each(compute_part(s, p, width, height), silent));
    lemma_each_of_sum(upload_part(s, width, height, frame_bytes), compute_part(s, p, width, height), silent);
    assert forall|i: int, j: int, buffer: u64|
        0 <= i < j < up.len() && #[trigger] writes(up[i], buffer) && #[trigger] reads(up[j], buffer) implies exists|
        k: int,
    |
        i < k < j && #[trigger] settles(up[k], buffer) by {
        if i < 8 {
            assert(up[i] == (upload_part(s, width, height, frame_bytes) + compute_part(s, p, width, height))[i]);
        } else {
            assert(up[i] == download_part(s, width, height)[i - 8]);
            assert(up[j] == download_part(s, width, height)[j - 8]);
        }
    }
}

/// One command of a capture that stands between its first and its last, as far as it can be told
/// by itself: pictures are copied whole, the frame goes to the buffer, or the second buffer, that
/// was asked for and the scaled frame to the model's, and the encode is told its settings as they
/// are, over work groups of eight by eight pixels that cover the scaled frame and no more.
pub open spec fn captures(c: Command, r: CaptureRecording) -> bool {
    &&& keeps_time(c)
    &&& match c {
        Command::Barrier { src_stage, dst_stage, dependencies } => match dependencies {
            Dependencies::Image(b) => {
                &&& r.model is Some && b.image == r.model->0.image
                &&& b.new_layout == 1 ==> b.dst_access == 0x60
                &&& b.old_layout == 1 ==> b.src_access == 0x40
            },
            Dependencies::Buffer(b) => {
                &&& r.extra_dst == Some(b.buffer)
                &&& b.size == 0xffff_ffff_ffff_ffff
            },
            _ => false,
        },
        Command::CopyImageToBuffer { image, layout, buffer, region } => if image == r.image {
            &&& buffer == r.buffer || r.extra_dst == Some(buffer)
            &&& region == (Region { buffer_offset: 0, width: r.width, height: r.height })
        } else {
            &&& r.model is Some && image == r.model->0.image && buffer == r.model->0.buffer
            &&& region == (Region { buffer_offset: 0, width: r.model->0.width, height: r.model->0.height })
        },
        Command::Blit { src, src_layout, src_width, src_height, dst, dst_layout, dst_width, dst_height } => {
            &&& src == r.image && src_width == r.width && src_height == r.height
            &&& r.model is Some && dst == r.model->0.image
            &&& dst_width == r.model->0.width && dst_height == r.model->0.height
        },
        Command::Bind { dispatcher } => r.encode is Some && dispatcher == r.encode->0.dispatcher,
        Command::Push { pipeline_layout, constants } => {
            &&& r.encode is Some && pipeline_layout == r.encode->0.dispatcher.pipeline_layout
            &&& constants == (PushConstants::Encode {
                white_point: r.encode->0.white_point,
                bgr_order: r.encode->0.bgr_order,
                reversible_mode: r.encode->0.reversible_mode,
            })
        },
        Command::Dispatch { groups_x, groups_y } => {
            &&& r.model is Some
            &&& r.model->0.width <= 8 * groups_x < r.model->0.width + 8
            &&& r.model->0.height <= 8 * groups_y < r.model->0.height + 8
        },
        _ => false,
    }
}

/// A barrier on the captured image that stands at one end of a capture: the first waits for all
/// that was done to the image and lets transfers read it, the last lets all that follows wait for
/// those reads.
pub open spec fn bounds(c: Command, image: u64, old_layout: i32, new_layout: i32, first: bool) -> bool {
    &&& c matches Command::Barrier { src_stage, dst_stage, dependencies }
    &&& dependencies matches Dependencies::Image(b)
    &&& b.image == image && b.old_layout == old_layout && b.new_layout == new_layout
    &&& first ==> src_stage == 0x10000 && dst_stage == 0x1000 && b.src_access == 0 && b.dst_access == 0x800
    &&& !first ==> src_stage == 0x1000 && dst_stage == 0x10000 && b.src_access == 0x800 && b.dst_access == 0
}

/// A capture reads the image in place where it is found in the general layout, and as a transfer
/// source otherwise; it starts and ends with the barriers for that, and all between them is as
/// [`captures`] says. The copy to the capture buffer comes first of all.
pub proof fn a_capture_copies_what_is_asked_for(r: CaptureRecording)
    requires
        r.model matches Some(model) ==> model.image != r.image,
    ensures
        ({
            let all = capture_commands(r);
            let read: i32 = if r.initial_layout == 1 {
                1
            } else {
                6
            };
            &&& all.len() >= 3
            &&& bounds(all[0], r.image, r.initial_layout, read, true)
            &&& bounds(all.last(), r.image, read, r.initial_layout, false)
            &&& all[1] == (Command::CopyImageToBuffer {
                image: r.image,
                layout: read,
                buffer: r.buffer,
                region: Region { buffer_offset: 0, width: r.width, height: r.height },
            })
            &&& each(all.subrange(1, all.len() - 1), |c: Command| captures(c, r))
            &&& r.extra_dst is Some ==> settles(all[3], r.extra_dst->0)
        }),
{
    let f = |c: Command| captures(c, r);
    let head = capture_head(r);
    let start = seq![head[1]];
    let extra = capture_extra(r);
    let model = capture_model(r);
    let tail = capture_tail(r);
    let all = capture_commands(r);
    assert(each(start, f));
    assert(each(extra, f));
    match r.model {
        Some(m) => {
            assert(each(model_blit(r, m), f));
            assert(each(model_encode(r, m), f));
            assert(each(model_download(m), f));
            lemma_each_of_sum(model_blit(r, m), model_encode(r, m), f);
            lemma_each_of_sum(model_blit(r, m) + model_encode(r, m), model_download(m), f);
        },
        None => {},
    }
    assert(each(model, f));
    lemma_each_of_sum(start, extra, f);
    lemma_each_of_sum(start + extra, model, f);
    assert(all[0] == head[0]);
    assert(all[1] == head[1]);
    assert(all.last() == tail[0]);
    if r.extra_dst is Some {
        assert(all[3] == extra[1]);
    }
    assert(all.subrange(1, all.len() - 1) =~= start + extra + model);
}

/// A write-back takes the image from the screen, copies the whole of the buffer onto it, and
/// returns it to the screen.
pub proof fn a_write_back_keeps_time(image: u64, buffer: u64, width: u32, height: u32)
    ensures
        each(write_back(image, buffer, width, height), |c: Command| keeps_time(c)),
        forall|i: int|
            0 <= i < write_back(image, buffer, width, height).len() ==> match #[trigger] write_back(
                image,
                buffer,
                width,
                height,
            )[i] {
                Command::Barrier { src_stage, dst_stage, dependencies } => dependencies matches Dependencies::Image(b)
                    && b.image == image,
                c => c == (Command::CopyBufferToImage {
                    buffer,
                    image,
                    layout: 7,
                    region: Region { buffer_offset: 0, width, height },
                }),
            },
        read_back(image, buffer, width, height) == (CaptureRecording {
            image,
            initial_layout: 1000001002,
            buffer,
            extra_dst: None,
            width,
            height,
            model: None,
            encode: None,
        }),
{
}

/// A transition of one of a slot's images leaves the layout that the slot's last composition left it in,
/// and where there was none yet, or nothing of it is kept, the undefined one (0).
pub open spec fn starts_from(b: ImageBarrier, s: ComposeImages, held: bool) -> bool {
    &&& b.new_layout == 7 && (b.image == s.original || b.image == s.proxy || b.image == s.model_answer) ==> b.old_layout
        == (if held {
        1i32
    } else {
        0i32
    })
    &&& b.image == s.output && b.new_layout == 1 ==> b.old_layout == (if held {
        6i32
    } else {
        0i32
    })
    &&& b.image == s.small_answer && b.new_layout == 7 ==> b.old_layout == 0
}

/// `starts_from`, of every transition of a command.
pub open spec fn takes_up(c: Command, s: ComposeImages, held: bool) -> bool {
    c matches Command::Barrier { src_stage, dst_stage, dependencies } ==> match dependencies {
        Dependencies::Image(x) => starts_from(x, s, held),
        Dependencies::Images2(x, y) => starts_from(x, s, held) && starts_from(y, s, held),
        Dependencies::Images3(x, y, z) => starts_from(x, s, held) && starts_from(y, s, held) && starts_from(z, s, held),
        Dependencies::Images4(w, x, y, z) => starts_from(w, s, held) && starts_from(x, s, held) && starts_from(
            y,
            s,
            held,
        ) && starts_from(z, s, held),
        Dependencies::Buffer(b) => true,
    }
}

/// A composition that is handed back keeps nothing of its slot's images; one that carries an answer onto
/// the shown image takes them up where the last one left them.
pub proof fn a_slot_is_taken_up_where_it_was_left(
    s: ComposeImages,
    width: u32,
    height: u32,
    a: Raster,
    frame_bytes: u64,
    cached_before: bool,
    update: bool,
    target: u64,
    p: ComposeParams,
)
    requires
        s.small_answer != s.original,
        s.small_answer != s.model_answer,
        s.small_answer != s.proxy,
        s.small_answer != s.output,
        s.output != s.original,
        s.output != s.model_answer,
        s.output != s.proxy,
        target != s.original,
        target != s.model_answer,
        target != s.proxy,
        target != s.output,
        target != s.small_answer,
    ensures
        each(upload_and_compute(s, width, height, frame_bytes, p), |c: Command| takes_up(c, s, false)),
        each(
            temporal_delta_into_image(s, width, height, a, frame_bytes, cached_before, update, target, p),
            |c: Command| takes_up(c, s, cached_before),
        ),
{
    let f = |c: Command| takes_up(c, s, false);
    let first = upload_part(s, width, height, frame_bytes);
    let second = compute_part(s, p, width, height);
    let third = download_part(s, width, height);
    assert(each(first, f));
    assert(each(second, f));
    assert(each(third, f));
    lemma_each_of_sum(first, second, f);
    lemma_each_of_sum(first + second, third, f);
    let f = |c: Command| takes_up(c, s, cached_before);
    let read = read_current(s, width, height, frame_bytes, target);
    let proxy = take_proxy(s, width, height, cached_before);
    let answer = take_answer(s, width, height, a, frame_bytes);
    let ready = answer_ready(s);
    let update_part = take_update(s, width, height, a, frame_bytes, cached_before, update);
    let compose = compose_current(s, width, height, cached_before, p);
    let write = write_current(s, width, height, frame_bytes, target);
    assert(each(read, f));
    assert(each(proxy, f));
    assert(each(answer, f));
    assert(each(ready, f));
    lemma_each_of_sum(proxy, answer, f);
    lemma_each_of_sum(proxy + answer, ready, f);
    assert(each(update_part, f));
    assert(each(compose, f));
    assert(each(write, f));
    lemma_each_of_sum(read, update_part, f);
    lemma_each_of_sum(read + update_part, compose, f);
    lemma_each_of_sum(read + update_part + compose, write, f);
}

} // verus!
