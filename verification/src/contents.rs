//! What command lists do to the contents of images and buffers.
//!
//! An image is the bytes of its pixels, row by row, and a buffer is its bytes. [`performed`] follows a
//! command list over them; an image that was taken out of the undefined layout has no contents until
//! it is written. What the shaders and the filter of a blit compute is left open: the laws here hold
//! for every shader and every filter.

use crate::commands::{Command, Dependencies, ImageBarrier, PushConstants};
use crate::compose_recording::{
    answer_ready, bgr_word, cached_present, cached_raw_into_image, cached_update, compose_current, compute_part,
    copy_into_image, distinct_images, download_part, foreign, read_current, take_answer, take_proxy, take_update,
    temporal_delta_into_image, transfer_mode, upload_and_compute, upload_part, write_current, ComposeImages,
    ComposeParams,
};
use crate::readback::{read_back, write_back};
use crate::recording::{
    capture_commands, capture_extra, capture_head, capture_model, capture_tail, model_blit, model_download,
    model_encode, CaptureRecording, ModelTarget,
};
use crate::scaling::Raster;
use crate::vulkan::LAYOUT_UNDEFINED;
use vstd::prelude::*;

verus! {

/// The images that a descriptor set speaks of.
pub enum Bindings {
    /// The image that the encode works on, in place.
    Encode { image: u64 },
    /// The images that the composition reads, and the one it writes.
    Compose { original: u64, proxy: u64, answer: u64, output: u64 },
}

/// What a device computes.
pub struct Device {
    /// The bytes of a pixel.
    pub pixel: nat,
    pub sets: spec_fn(u64) -> Bindings,
    /// A picture scaled from one size to another.
    pub scale: spec_fn(Seq<u8>, (u32, u32), (u32, u32)) -> Seq<u8>,
    /// The encoded picture.
    pub encode: spec_fn(Seq<u8>, PushConstants) -> Seq<u8>,
    /// The composition of a frame, a proxy and an answer.
    pub compose: spec_fn(Seq<u8>, Seq<u8>, Seq<u8>, PushConstants) -> Seq<u8>,
}

/// The contents of images and buffers, and what the next dispatch works with.
#[verifier::ext_equal]
pub struct Memory {
    pub images: Map<u64, Seq<u8>>,
    pub buffers: Map<u64, Seq<u8>>,
    pub bound: u64,
    pub pushed: PushConstants,
}

/// `bytes` with `part` written over them at `at`.
pub open spec fn written(bytes: Seq<u8>, at: int, part: Seq<u8>) -> Seq<u8> {
    bytes.take(at) + part + bytes.skip(at + part.len())
}

/// The bytes of a picture.
pub open spec fn picture_bytes(g: Device, width: u32, height: u32) -> int {
    width * height * g.pixel
}

pub open spec fn with_image(m: Memory, image: u64, bytes: Seq<u8>) -> Memory {
    Memory { images: m.images.insert(image, bytes), ..m }
}

pub open spec fn with_buffer(m: Memory, buffer: u64, bytes: Seq<u8>) -> Memory {
    Memory { buffers: m.buffers.insert(buffer, bytes), ..m }
}

/// After a transition: out of the undefined layout an image has no contents.
pub open spec fn moved(m: Memory, b: ImageBarrier) -> Memory {
    if b.old_layout == LAYOUT_UNDEFINED {
        Memory { images: m.images.remove(b.image), ..m }
    } else {
        m
    }
}

/// After one command.
pub open spec fn effect(g: Device, m: Memory, c: Command) -> Memory {
    match c {
        Command::Barrier { src_stage, dst_stage, dependencies } => match dependencies {
            Dependencies::Image(a) => moved(m, a),
            Dependencies::Images2(a, b) => moved(moved(m, a), b),
            Dependencies::Images3(a, b, c) => moved(moved(moved(m, a), b), c),
            Dependencies::Images4(a, b, c, d) => moved(moved(moved(moved(m, a), b), c), d),
            Dependencies::Buffer(_) => m,
        },
        Command::CopyImageToBuffer { image, layout, buffer, region } => with_buffer(
            m,
            buffer,
            written(m.buffers[buffer], region.buffer_offset as int, m.images[image]),
        ),
        Command::CopyBufferToImage { buffer, image, layout, region } => with_image(
            m,
            image,
            m.buffers[buffer].subrange(
                region.buffer_offset as int,
                region.buffer_offset + picture_bytes(g, region.width, region.height),
            ),
        ),
        Command::CopyBuffer { src, dst, size } => with_buffer(
            m,
            dst,
            written(m.buffers[dst], 0, m.buffers[src].take(size as int)),
        ),
        Command::Blit { src, src_layout, src_width, src_height, dst, dst_layout, dst_width, dst_height } => with_image(
            m,
            dst,
            (g.scale)(m.images[src], (src_width, src_height), (dst_width, dst_height)),
        ),
        Command::Bind { dispatcher } => Memory { bound: dispatcher.descriptor_set, ..m },
        Command::Push { pipeline_layout, constants } => Memory { pushed: constants, ..m },
        Command::Dispatch { groups_x, groups_y } => match (g.sets)(m.bound) {
            Bindings::Encode { image } => with_image(m, image, (g.encode)(m.images[image], m.pushed)),
            Bindings::Compose { original, proxy, answer, output } => with_image(
                m,
                output,
                (g.compose)(m.images[original], m.images[proxy], m.images[answer], m.pushed),
            ),
        },
    }
}

/// After a list of commands, in order.
pub open spec fn performed(g: Device, m: Memory, commands: Seq<Command>) -> Memory
    decreases commands.len(),
{
    if commands.len() == 0 {
        m
    } else {
        effect(g, performed(g, m, commands.drop_last()), commands.last())
    }
}

/// Performing two lists one after the other is performing their concatenation.
pub proof fn performing_concatenates(g: Device, m: Memory, first: Seq<Command>, second: Seq<Command>)
    ensures
        performed(g, m, first + second) == performed(g, performed(g, m, first), second),
    decreases second.len(),
{
    if second.len() == 0 {
        assert(first + second =~= first);
    } else {
        performing_concatenates(g, m, first, second.drop_last());
        assert((first + second).drop_last() =~= first + second.drop_last());
        assert((first + second).last() == second.last());
    }
}

/// A list is performed command by command.
proof fn lemma_one_by_one(g: Device, m: Memory, c: Seq<Command>)
    ensures
        performed(g, m, c.take(0)) == m,
        performed(g, m, c) == performed(g, m, c.take(c.len() as int)),
        forall|k: int|
            1 <= k <= c.len() ==> #[trigger] performed(g, m, c.take(k)) == effect(g, performed(g, m, c.take(k - 1)), c[k - 1]),
{
    assert(c.take(c.len() as int) =~= c);
    assert forall|k: int| 1 <= k <= c.len() implies #[trigger] performed(g, m, c.take(k)) == effect(
        g,
        performed(g, m, c.take(k - 1)),
        c[k - 1],
    ) by {
        assert(c.take(k).drop_last() =~= c.take(k - 1));
    }
}

/// What is written over the start of a buffer is what is read there.
proof fn lemma_written(bytes: Seq<u8>, part: Seq<u8>)
    requires
        part.len() <= bytes.len(),
    ensures
        written(bytes, 0, part).take(part.len() as int) == part,
        written(bytes, 0, part).len() == bytes.len(),
{
    assert(written(bytes, 0, part).take(part.len() as int) =~= part);
}

/// Whether a buffer begins with `bytes`.
pub open spec fn begins_with(m: Memory, buffer: u64, bytes: Seq<u8>) -> bool {
    m.buffers[buffer].len() >= bytes.len() && m.buffers[buffer].take(bytes.len() as int) == bytes
}

proof fn lemma_head(g: Device, m: Memory, r: CaptureRecording, frame: Seq<u8>)
    requires
        r.initial_layout != LAYOUT_UNDEFINED,
        m.images[r.image] == frame,
        m.buffers[r.buffer].len() >= frame.len(),
    ensures
        performed(g, m, capture_head(r)) == with_buffer(m, r.buffer, written(m.buffers[r.buffer], 0, frame)),
{
    let c = capture_head(r);
    lemma_one_by_one(g, m, c);
    assert(performed(g, m, c.take(1)) == m);
    assert(performed(g, m, c.take(2)) == with_buffer(m, r.buffer, written(m.buffers[r.buffer], 0, frame)));
}

/// The image that a capture reads is shown as it was, and its bytes are in the capture buffer.
pub proof fn a_read_back_gives_the_images_bytes(
    g: Device,
    m: Memory,
    image: u64,
    buffer: u64,
    width: u32,
    height: u32,
    frame: Seq<u8>,
)
    requires
        m.images[image] == frame,
        m.buffers[buffer].len() >= frame.len(),
    ensures
        begins_with(performed(g, m, capture_commands(read_back(image, buffer, width, height))), buffer, frame),
        performed(g, m, capture_commands(read_back(image, buffer, width, height))).images == m.images,
{
    let r = read_back(image, buffer, width, height);
    let d = with_buffer(m, buffer, written(m.buffers[buffer], 0, frame));
    lemma_head(g, m, r, frame);
    lemma_written(m.buffers[buffer], frame);
    let tail = capture_tail(r);
    assert(capture_commands(r) =~= capture_head(r) + tail);
    performing_concatenates(g, m, capture_head(r), tail);
    lemma_one_by_one(g, d, tail);
    assert(performed(g, d, tail.take(1)) == d);
}

/// What is written back is what the image shows.
pub proof fn a_write_back_shows_the_buffer(
    g: Device,
    m: Memory,
    image: u64,
    buffer: u64,
    width: u32,
    height: u32,
    frame: Seq<u8>,
)
    requires
        frame.len() == picture_bytes(g, width, height),
        begins_with(m, buffer, frame),
    ensures
        performed(g, m, write_back(image, buffer, width, height)).images == m.images.insert(image, frame),
        performed(g, m, write_back(image, buffer, width, height)).buffers == m.buffers,
{
    let c = write_back(image, buffer, width, height);
    lemma_one_by_one(g, m, c);
    let d = with_image(m, image, frame);
    assert(m.buffers[buffer].subrange(0, frame.len() as int) =~= m.buffers[buffer].take(frame.len() as int));
    assert(performed(g, m, c.take(1)) == m);
    assert(performed(g, m, c.take(2)) == d);
    assert(performed(g, m, c.take(3)) == d);
}

/// What the model is shown of a frame: the frame at the model's raster, encoded where there is an
/// encode.
pub open spec fn shown_to_model(g: Device, r: CaptureRecording, model: ModelTarget, frame: Seq<u8>) -> Seq<u8> {
    let scaled = (g.scale)(frame, (r.width, r.height), (model.width, model.height));
    match r.encode {
        Some(e) => (g.encode)(
            scaled,
            PushConstants::Encode {
                white_point: e.white_point,
                bgr_order: e.bgr_order,
                reversible_mode: e.reversible_mode,
            },
        ),
        None => scaled,
    }
}

/// Whether a capture's images and buffers are different ones, its encode works on its scratch image,
/// and its buffers hold what is copied to them.
pub open spec fn is_well_made(g: Device, m: Memory, r: CaptureRecording, frame: Seq<u8>) -> bool {
    &&& r.initial_layout != LAYOUT_UNDEFINED
    &&& m.images[r.image] == frame
    &&& m.buffers[r.buffer].len() >= frame.len()
    &&& r.extra_dst matches Some(extra) ==> extra != r.buffer && m.buffers[extra].len() >= frame.len()
    &&& r.model matches Some(model) ==> {
        &&& model.image != r.image
        &&& model.buffer != r.buffer
        &&& r.extra_dst matches Some(extra) ==> extra != model.buffer
        &&& r.encode matches Some(e) ==> (g.sets)(e.dispatcher.descriptor_set) == (Bindings::Encode { image: model.image })
        &&& m.buffers[model.buffer].len() >= shown_to_model(g, r, model, frame).len()
    }
}

proof fn lemma_extra(g: Device, m: Memory, r: CaptureRecording, frame: Seq<u8>)
    requires
        m.images[r.image] == frame,
    ensures
        performed(g, m, capture_extra(r)) == (match r.extra_dst {
            Some(extra) => with_buffer(m, extra, written(m.buffers[extra], 0, frame)),
            None => m,
        }),
{
    let c = capture_extra(r);
    lemma_one_by_one(g, m, c);
    if let Some(extra) = r.extra_dst {
        let d = with_buffer(m, extra, written(m.buffers[extra], 0, frame));
        assert(performed(g, m, c.take(1)) == d);
        assert(performed(g, m, c.take(2)) == d);
    }
}

/// The scratch image after the scaled copy and its encode.
proof fn lemma_model_image(g: Device, m: Memory, r: CaptureRecording, model: ModelTarget, frame: Seq<u8>)
    requires
        m.images[r.image] == frame,
        model.image != r.image,
        r.encode matches Some(e) ==> (g.sets)(e.dispatcher.descriptor_set) == (Bindings::Encode { image: model.image }),
    ensures
        ({
            let d = performed(g, m, model_blit(r, model) + model_encode(r, model));
            &&& d.images == m.images.insert(model.image, shown_to_model(g, r, model, frame))
            &&& d.buffers == m.buffers
        }),
{
    let a = model_blit(r, model);
    let b = model_encode(r, model);
    performing_concatenates(g, m, a, b);
    lemma_one_by_one(g, m, a);
    let scaled = (g.scale)(frame, (r.width, r.height), (model.width, model.height));
    let gone = Memory { images: m.images.remove(model.image), ..m };
    assert(performed(g, m, a.take(1)) == gone);
    let x = with_image(gone, model.image, scaled);
    assert(performed(g, m, a.take(2)) == x);
    assert(x.images =~= m.images.insert(model.image, scaled));
    lemma_one_by_one(g, x, b);
    if let Some(e) = r.encode {
        let constants = PushConstants::Encode {
            white_point: e.white_point,
            bgr_order: e.bgr_order,
            reversible_mode: e.reversible_mode,
        };
        assert(performed(g, x, b.take(1)) == x);
        let y = Memory { bound: e.dispatcher.descriptor_set, ..x };
        assert(performed(g, x, b.take(2)) == y);
        let z = Memory { pushed: constants, ..y };
        assert(performed(g, x, b.take(3)) == z);
        let w = with_image(z, model.image, (g.encode)(scaled, constants));
        assert(performed(g, x, b.take(4)) == w);
        assert(performed(g, x, b.take(5)) == w);
        assert(w.images =~= m.images.insert(model.image, (g.encode)(scaled, constants)));
    } else {
        assert(performed(g, x, b.take(1)) == x);
    }
}

/// A capture leaves the image as it was, and puts its bytes into the capture buffer, and into the second
/// buffer where there is one. Where a scaled copy is asked for, what the model is to be shown is in
/// its buffer.
pub proof fn a_capture_takes_the_frame(g: Device, m: Memory, r: CaptureRecording, frame: Seq<u8>)
    requires
        is_well_made(g, m, r, frame),
    ensures
        ({
            let d = performed(g, m, capture_commands(r));
            &&& d.images[r.image] == frame
            &&& begins_with(d, r.buffer, frame)
            &&& r.extra_dst matches Some(extra) ==> begins_with(d, extra, frame)
            &&& r.model matches Some(model) ==> begins_with(d, model.buffer, shown_to_model(g, r, model, frame))
        }),
{
    lemma_head(g, m, r, frame);
    lemma_written(m.buffers[r.buffer], frame);
    let m1 = performed(g, m, capture_head(r));
    lemma_extra(g, m1, r, frame);
    let m2 = performed(g, m1, capture_extra(r));
    if let Some(extra) = r.extra_dst {
        lemma_written(m.buffers[extra], frame);
    }
    let m3 = performed(g, m2, capture_model(r));
    performing_concatenates(g, m, capture_head(r), capture_extra(r));
    performing_concatenates(g, m, capture_head(r) + capture_extra(r), capture_model(r));
    performing_concatenates(g, m, capture_head(r) + capture_extra(r) + capture_model(r), capture_tail(r));
    if let Some(model) = r.model {
        let shown = shown_to_model(g, r, model, frame);
        lemma_model_image(g, m2, r, model, frame);
        let both = model_blit(r, model) + model_encode(r, model);
        let c = model_download(model);
        performing_concatenates(g, m2, both, c);
        let x = performed(g, m2, both);
        lemma_one_by_one(g, x, c);
        assert(performed(g, x, c.take(1)) == with_buffer(x, model.buffer, written(x.buffers[model.buffer], 0, shown)));
        lemma_written(x.buffers[model.buffer], shown);
    } else {
        assert(capture_model(r) =~= Seq::<Command>::empty());
    }
    let tail = capture_tail(r);
    lemma_one_by_one(g, m3, tail);
    assert(performed(g, m3, tail.take(1)) == effect(g, m3, tail[0]));
}

/// A held answer is shown byte for byte: the bytes that were just uploaded where it is new, and those of
/// its copy on the device where it is not. Either way the copy on the device holds it from then on.
pub proof fn a_held_answer_is_shown_as_it_is(
    g: Device,
    m: Memory,
    s: ComposeImages,
    width: u32,
    height: u32,
    frame_bytes: u64,
    update: bool,
    target: u64,
    answer: Seq<u8>,
)
    requires
        frame_bytes == picture_bytes(g, width, height),
        answer.len() == frame_bytes,
        begins_with(m, if update {
            s.staging
        } else {
            s.cached
        }, answer),
        m.buffers[s.cached].len() >= frame_bytes,
    ensures
        ({
            let d = performed(g, m, cached_raw_into_image(s, width, height, frame_bytes, update, target));
            &&& d.images == m.images.insert(target, answer)
            &&& begins_with(d, s.cached, answer)
        }),
{
    let a = cached_update(s, frame_bytes, update);
    let b = cached_present(s, width, height, frame_bytes, target);
    performing_concatenates(g, m, a, b);
    lemma_one_by_one(g, m, a);
    let x = performed(g, m, a);
    if update {
        assert(performed(g, m, a.take(1)) == with_buffer(m, s.cached, written(m.buffers[s.cached], 0, answer)));
        lemma_written(m.buffers[s.cached], answer);
    }
    lemma_one_by_one(g, x, b);
    assert(x.buffers[s.cached].subrange(0, answer.len() as int) =~= answer);
    assert(performed(g, x, b.take(1)) == x);
    assert(performed(g, x, b.take(2)) == x);
    let d = with_image(x, target, answer);
    assert(performed(g, x, b.take(3)) == d);
    assert(performed(g, x, b.take(4)) == d);
}

/// The settings that a composition is made with.
pub open spec fn settings_of(p: ComposeParams, mode: u32) -> PushConstants {
    PushConstants::Compose {
        colour_strength: p.colour_strength,
        transfer_strength: p.transfer_strength,
        max_ratio: p.max_ratio,
        bgr_order: bgr_word(p.bgr_order),
        mode,
    }
}

/// Whether a slot's images are different ones, its descriptor set speaks of them, and its buffers are
/// different ones that hold a frame, the staging buffer two.
pub open spec fn is_slot(g: Device, m: Memory, s: ComposeImages, p: ComposeParams, frame_bytes: u64) -> bool {
    &&& distinct_images(s)
    &&& (g.sets)(p.dispatcher.descriptor_set) == (Bindings::Compose {
        original: s.original,
        proxy: s.proxy,
        answer: s.model_answer,
        output: s.output,
    })
    &&& s.staging != s.cached && s.staging != s.current && s.cached != s.current
    &&& m.buffers[s.staging].len() >= 2 * frame_bytes
    &&& m.buffers[s.cached].len() >= frame_bytes
    &&& m.buffers[s.current].len() >= frame_bytes
}

/// Whether a composition of frames of this size is a frame of this size.
pub open spec fn composes_frames(g: Device, frame_bytes: u64) -> bool {
    forall|original: Seq<u8>, proxy: Seq<u8>, answer: Seq<u8>, constants: PushConstants|
        original.len() == frame_bytes && proxy.len() == frame_bytes && answer.len() == frame_bytes ==> (
        #[trigger] (g.compose)(original, proxy, answer, constants)).len() == frame_bytes
}

/// The staging buffer holds a frame, and an answer behind it.
pub open spec fn is_staged(m: Memory, s: ComposeImages, frame_bytes: u64, base: Seq<u8>, answer: Seq<u8>) -> bool {
    &&& base.len() == frame_bytes
    &&& m.buffers[s.staging].take(frame_bytes as int) == base
    &&& answer.len() + frame_bytes <= m.buffers[s.staging].len()
    &&& m.buffers[s.staging].subrange(frame_bytes as int, frame_bytes + answer.len()) == answer
}

proof fn lemma_upload(
    g: Device,
    m: Memory,
    s: ComposeImages,
    p: ComposeParams,
    width: u32,
    height: u32,
    frame_bytes: u64,
    base: Seq<u8>,
    answer: Seq<u8>,
)
    requires
        frame_bytes == picture_bytes(g, width, height),
        is_slot(g, m, s, p, frame_bytes),
        is_staged(m, s, frame_bytes, base, answer),
        answer.len() == frame_bytes,
    ensures
        ({
            let d = performed(g, m, upload_part(s, width, height, frame_bytes));
            &&& d.images == m.images.insert(s.original, base).insert(s.model_answer, answer).insert(s.proxy, base)
            &&& d.buffers == m.buffers
        }),
{
    let c = upload_part(s, width, height, frame_bytes);
    lemma_one_by_one(g, m, c);
    let staging = m.buffers[s.staging];
    assert(staging.subrange(0, frame_bytes as int) =~= base);
    let gone = Memory {
        images: m.images.remove(s.original).remove(s.model_answer).remove(s.proxy),
        ..m
    };
    assert(performed(g, m, c.take(1)) == gone);
    let x1 = with_image(gone, s.original, base);
    assert(performed(g, m, c.take(2)) == x1);
    let x2 = with_image(x1, s.model_answer, answer);
    assert(performed(g, m, c.take(3)) == x2);
    let x3 = with_image(x2, s.proxy, base);
    assert(performed(g, m, c.take(4)) == x3);
    assert(x3.images =~= m.images.insert(s.original, base).insert(s.model_answer, answer).insert(s.proxy, base));
}

proof fn lemma_compute(
    g: Device,
    m: Memory,
    s: ComposeImages,
    p: ComposeParams,
    width: u32,
    height: u32,
    frame_bytes: u64,
)
    requires
        is_slot(g, m, s, p, frame_bytes),
    ensures
        ({
            let d = performed(g, m, compute_part(s, p, width, height));
            &&& d.images == m.images.insert(
                s.output,
                (g.compose)(m.images[s.original], m.images[s.proxy], m.images[s.model_answer], settings_of(p, 0)),
            )
            &&& d.buffers == m.buffers
        }),
{
    let c = compute_part(s, p, width, height);
    lemma_one_by_one(g, m, c);
    let gone = Memory { images: m.images.remove(s.output), ..m };
    assert(performed(g, m, c.take(1)) == gone);
    let x = Memory { bound: p.dispatcher.descriptor_set, ..gone };
    assert(performed(g, m, c.take(2)) == x);
    let y = Memory { pushed: settings_of(p, 0), ..x };
    assert(performed(g, m, c.take(3)) == y);
    let made = (g.compose)(m.images[s.original], m.images[s.proxy], m.images[s.model_answer], settings_of(p, 0));
    assert(performed(g, m, c.take(4)) == with_image(y, s.output, made));
    assert(with_image(y, s.output, made).images =~= m.images.insert(s.output, made));
}

/// What a composition that is waited for makes of a frame and its answer is at the start of the staging
/// buffer.
pub proof fn a_composition_is_handed_back(
    g: Device,
    m: Memory,
    s: ComposeImages,
    p: ComposeParams,
    width: u32,
    height: u32,
    frame_bytes: u64,
    base: Seq<u8>,
    answer: Seq<u8>,
)
    requires
        frame_bytes == picture_bytes(g, width, height),
        composes_frames(g, frame_bytes),
        is_slot(g, m, s, p, frame_bytes),
        is_staged(m, s, frame_bytes, base, answer),
        answer.len() == frame_bytes,
    ensures
        begins_with(
            performed(g, m, upload_and_compute(s, width, height, frame_bytes, p)),
            s.staging,
            (g.compose)(base, base, answer, settings_of(p, 0)),
        ),
{
    let made = (g.compose)(base, base, answer, settings_of(p, 0));
    let a = upload_part(s, width, height, frame_bytes);
    let b = compute_part(s, p, width, height);
    let c = download_part(s, width, height);
    performing_concatenates(g, m, a, b);
    performing_concatenates(g, m, a + b, c);
    lemma_upload(g, m, s, p, width, height, frame_bytes, base, answer);
    let x = performed(g, m, a);
    lemma_compute(g, x, s, p, width, height, frame_bytes);
    let y = performed(g, x, b);
    assert(y.images[s.output] == made);
    lemma_one_by_one(g, y, c);
    assert(performed(g, y, c.take(1)) == y);
    assert(performed(g, y, c.take(2)) == with_buffer(y, s.staging, written(y.buffers[s.staging], 0, made)));
    lemma_written(y.buffers[s.staging], made);
}

/// Composing into an image shows there exactly what composing for the CPU hands back.
pub proof fn an_image_shows_what_would_be_handed_back(
    g: Device,
    m: Memory,
    s: ComposeImages,
    p: ComposeParams,
    width: u32,
    height: u32,
    frame_bytes: u64,
    target: u64,
    base: Seq<u8>,
    answer: Seq<u8>,
)
    requires
        frame_bytes == picture_bytes(g, width, height),
        composes_frames(g, frame_bytes),
        is_slot(g, m, s, p, frame_bytes),
        is_staged(m, s, frame_bytes, base, answer),
        answer.len() == frame_bytes,
    ensures
        performed(
            g,
            m,
            upload_and_compute(s, width, height, frame_bytes, p) + copy_into_image(s, width, height, frame_bytes, target),
        ).images[target] == performed(g, m, upload_and_compute(s, width, height, frame_bytes, p)).buffers[s.staging].take(
            frame_bytes as int,
        ),
{
    let made = (g.compose)(base, base, answer, settings_of(p, 0));
    let a = upload_and_compute(s, width, height, frame_bytes, p);
    let c = copy_into_image(s, width, height, frame_bytes, target);
    a_composition_is_handed_back(g, m, s, p, width, height, frame_bytes, base, answer);
    performing_concatenates(g, m, a, c);
    let x = performed(g, m, a);
    lemma_one_by_one(g, x, c);
    assert(made.len() == frame_bytes);
    assert(x.buffers[s.staging].subrange(0, frame_bytes as int) =~= x.buffers[s.staging].take(frame_bytes as int));
    assert(performed(g, x, c.take(1)) == x);
    assert(performed(g, x, c.take(2)) == x);
    let d = with_image(x, target, made);
    assert(performed(g, x, c.take(3)) == d);
    assert(performed(g, x, c.take(4)) == d);
}

/// The answer at the frame's size.
pub open spec fn at_frame_size(g: Device, width: u32, height: u32, a: Raster, answer: Seq<u8>) -> Seq<u8> {
    if a.width != width || a.height != height {
        (g.scale)(answer, (a.width, a.height), (width, height))
    } else {
        answer
    }
}

proof fn lemma_read_current(
    g: Device,
    m: Memory,
    s: ComposeImages,
    width: u32,
    height: u32,
    frame_bytes: u64,
    target: u64,
    shown: Seq<u8>,
)
    requires
        m.images[target] == shown,
        shown.len() == frame_bytes,
        m.buffers[s.current].len() >= frame_bytes,
    ensures
        ({
            let d = performed(g, m, read_current(s, width, height, frame_bytes, target));
            &&& d.images == m.images
            &&& begins_with(d, s.current, shown)
            &&& d.buffers[s.current].len() == m.buffers[s.current].len()
            &&& forall|b: u64| b != s.current ==> #[trigger] d.buffers[b] == m.buffers[b]
        }),
{
    let c = read_current(s, width, height, frame_bytes, target);
    lemma_one_by_one(g, m, c);
    lemma_written(m.buffers[s.current], shown);
    assert(performed(g, m, c.take(1)) == m);
    let d = with_buffer(m, s.current, written(m.buffers[s.current], 0, shown));
    assert(performed(g, m, c.take(2)) == d);
    assert(performed(g, m, c.take(3)) == d);
}

proof fn lemma_take_answer(
    g: Device,
    m: Memory,
    s: ComposeImages,
    width: u32,
    height: u32,
    a: Raster,
    frame_bytes: u64,
    base: Seq<u8>,
    answer: Seq<u8>,
)
    requires
        distinct_images(s),
        is_staged(m, s, frame_bytes, base, answer),
        answer.len() == picture_bytes(g, a.width, a.height),
    ensures
        ({
            let d = performed(g, m, take_answer(s, width, height, a, frame_bytes));
            &&& d.images[s.model_answer] == at_frame_size(g, width, height, a, answer)
            &&& d.images[s.proxy] == m.images[s.proxy]
            &&& d.buffers == m.buffers
        }),
{
    let c = take_answer(s, width, height, a, frame_bytes);
    lemma_one_by_one(g, m, c);
    if a.width != width || a.height != height {
        let gone = Memory { images: m.images.remove(s.small_answer), ..m };
        assert(performed(g, m, c.take(1)) == gone);
        let x = with_image(gone, s.small_answer, answer);
        assert(performed(g, m, c.take(2)) == x);
        assert(performed(g, m, c.take(3)) == x);
        assert(performed(g, m, c.take(4)) == with_image(
            x,
            s.model_answer,
            (g.scale)(answer, (a.width, a.height), (width, height)),
        ));
    } else {
        assert(performed(g, m, c.take(1)) == with_image(m, s.model_answer, answer));
    }
}

proof fn lemma_take_update(
    g: Device,
    m: Memory,
    s: ComposeImages,
    width: u32,
    height: u32,
    a: Raster,
    frame_bytes: u64,
    cached_before: bool,
    base: Seq<u8>,
    answer: Seq<u8>,
)
    requires
        frame_bytes == picture_bytes(g, width, height),
        distinct_images(s),
        is_staged(m, s, frame_bytes, base, answer),
        answer.len() == picture_bytes(g, a.width, a.height),
    ensures
        ({
            let d = performed(g, m, take_update(s, width, height, a, frame_bytes, cached_before, true));
            &&& d.images[s.model_answer] == at_frame_size(g, width, height, a, answer)
            &&& d.images[s.proxy] == base
            &&& d.buffers == m.buffers
        }),
{
    let x = take_proxy(s, width, height, cached_before);
    let y = take_answer(s, width, height, a, frame_bytes);
    let z = answer_ready(s);
    performing_concatenates(g, m, x, y);
    performing_concatenates(g, m, x + y, z);
    lemma_one_by_one(g, m, x);
    let m1 = performed(g, m, x.take(1));
    assert(m1.buffers == m.buffers);
    assert(m.buffers[s.staging].subrange(0, frame_bytes as int) =~= base);
    assert(performed(g, m, x.take(2)) == with_image(m1, s.proxy, base));
    let m2 = performed(g, m, x);
    lemma_take_answer(g, m2, s, width, height, a, frame_bytes, base, answer);
    let m3 = performed(g, m2, y);
    lemma_one_by_one(g, m3, z);
    assert(performed(g, m3, z.take(1)) == m3);
}

proof fn lemma_compose_current(
    g: Device,
    m: Memory,
    s: ComposeImages,
    p: ComposeParams,
    width: u32,
    height: u32,
    frame_bytes: u64,
    cached_before: bool,
    shown: Seq<u8>,
)
    requires
        frame_bytes == picture_bytes(g, width, height),
        is_slot(g, m, s, p, frame_bytes),
        shown.len() == frame_bytes,
        begins_with(m, s.current, shown),
    ensures
        ({
            let d = performed(g, m, compose_current(s, width, height, cached_before, p));
            &&& d.images[s.output] == (g.compose)(
                shown,
                m.images[s.proxy],
                m.images[s.model_answer],
                settings_of(p, transfer_mode(p.proxy_encoded)),
            )
            &&& d.images[s.proxy] == m.images[s.proxy]
            &&& d.images[s.model_answer] == m.images[s.model_answer]
            &&& d.buffers == m.buffers
        }),
{
    let c = compose_current(s, width, height, cached_before, p);
    lemma_one_by_one(g, m, c);
    let m1 = performed(g, m, c.take(1));
    assert(m1.images[s.proxy] == m.images[s.proxy] && m1.images[s.model_answer] == m.images[s.model_answer]
        && m1.buffers == m.buffers);
    assert(m.buffers[s.current].subrange(0, frame_bytes as int) =~= shown);
    let m2 = with_image(m1, s.original, shown);
    assert(performed(g, m, c.take(2)) == m2);
    assert(performed(g, m, c.take(3)) == m2);
    let m3 = Memory { bound: p.dispatcher.descriptor_set, ..m2 };
    assert(performed(g, m, c.take(4)) == m3);
    let m4 = Memory { pushed: settings_of(p, transfer_mode(p.proxy_encoded)), ..m3 };
    assert(performed(g, m, c.take(5)) == m4);
    assert(performed(g, m, c.take(6)) == effect(g, m4, c[5]));
}

proof fn lemma_write_current(
    g: Device,
    m: Memory,
    s: ComposeImages,
    width: u32,
    height: u32,
    frame_bytes: u64,
    target: u64,
    made: Seq<u8>,
)
    requires
        frame_bytes == picture_bytes(g, width, height),
        m.images[s.output] == made,
        made.len() == frame_bytes,
        m.buffers[s.cached].len() >= frame_bytes,
    ensures
        performed(g, m, write_current(s, width, height, frame_bytes, target)).images == m.images.insert(target, made),
{
    let c = write_current(s, width, height, frame_bytes, target);
    lemma_one_by_one(g, m, c);
    lemma_written(m.buffers[s.cached], made);
    assert(performed(g, m, c.take(1)) == m);
    let d = with_buffer(m, s.cached, written(m.buffers[s.cached], 0, made));
    assert(performed(g, m, c.take(2)) == d);
    assert(performed(g, m, c.take(3)) == d);
    assert(performed(g, m, c.take(4)) == d);
    assert(d.buffers[s.cached].subrange(0, frame_bytes as int) =~= made);
    let e = with_image(d, target, made);
    assert(performed(g, m, c.take(5)) == e);
    assert(performed(g, m, c.take(6)) == e);
}

/// An answer is carried onto what the image shows: the image then shows the composition of its own
/// frame with the frame that the answer was made for and the answer, brought to the frame's size.
/// Where the answer is not new, both are those that the slot holds.
pub proof fn an_answer_is_carried_onto_the_image(
    g: Device,
    m: Memory,
    s: ComposeImages,
    p: ComposeParams,
    width: u32,
    height: u32,
    a: Raster,
    frame_bytes: u64,
    cached_before: bool,
    update: bool,
    target: u64,
    shown: Seq<u8>,
    base: Seq<u8>,
    answer: Seq<u8>,
)
    requires
        frame_bytes == picture_bytes(g, width, height),
        composes_frames(g, frame_bytes),
        is_slot(g, m, s, p, frame_bytes),
        foreign(s, target),
        m.images[target] == shown,
        shown.len() == frame_bytes,
        at_frame_size(g, width, height, a, answer).len() == frame_bytes,
        base.len() == frame_bytes,
        update ==> is_staged(m, s, frame_bytes, base, answer) && answer.len() == picture_bytes(g, a.width, a.height),
        !update ==> m.images[s.proxy] == base && m.images[s.model_answer] == at_frame_size(
            g,
            width,
            height,
            a,
            answer,
        ),
    ensures
        ({
            let d = performed(
                g,
                m,
                temporal_delta_into_image(s, width, height, a, frame_bytes, cached_before, update, target, p),
            );
            let whole = at_frame_size(g, width, height, a, answer);
            &&& d.images[target] == (g.compose)(shown, base, whole, settings_of(p, transfer_mode(p.proxy_encoded)))
            &&& d.images[s.proxy] == base
            &&& d.images[s.model_answer] == whole
        }),
{
    let c1 = read_current(s, width, height, frame_bytes, target);
    let c2 = take_update(s, width, height, a, frame_bytes, cached_before, update);
    let c3 = compose_current(s, width, height, cached_before, p);
    let c4 = write_current(s, width, height, frame_bytes, target);
    performing_concatenates(g, m, c1, c2);
    performing_concatenates(g, m, c1 + c2, c3);
    performing_concatenates(g, m, c1 + c2 + c3, c4);
    let whole = at_frame_size(g, width, height, a, answer);
    lemma_read_current(g, m, s, width, height, frame_bytes, target, shown);
    let m1 = performed(g, m, c1);
    assert(m1.buffers[s.staging] == m.buffers[s.staging]);
    assert(m1.buffers[s.cached] == m.buffers[s.cached]);
    if update {
        lemma_take_update(g, m1, s, width, height, a, frame_bytes, cached_before, base, answer);
    } else {
        assert(c2 =~= Seq::<Command>::empty());
    }
    let m2 = performed(g, m1, c2);
    assert(m2.images[s.proxy] == base && m2.images[s.model_answer] == whole && m2.buffers == m1.buffers);
    lemma_compose_current(g, m2, s, p, width, height, frame_bytes, cached_before, shown);
    let m3 = performed(g, m2, c3);
    let made = (g.compose)(shown, base, whole, settings_of(p, transfer_mode(p.proxy_encoded)));
    assert(made.len() == frame_bytes);
    lemma_write_current(g, m3, s, width, height, frame_bytes, target, made);
}

} // verus!
