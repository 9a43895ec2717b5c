//! One present, from the captured frame to the composed one.
//!
//! A present is a conversation with the GPU and with the helper process: what is outstanding is
//! asked, the frame is captured, sent and answered, and the answer is composed onto the image that
//! goes out. The outside work is done by the caller. [`PresentCall::advance`] takes what came of
//! the last action and says what to do next, until [`Action::Finish`].
//!
//! In the synchronous present (the default) the answer is this frame's own, and a frame whose
//! answer is not back within [`SYNC_BUDGET`] goes out untouched. In the pipelined one nothing is
//! waited for, and each answer is shown until the next arrives.

use crate::capture_step::{aligned, CaptureFlags, CaptureRequest, CaptureStep};
use crate::scaling::{model_raster, scaled_dims, Raster, ScaledFrame};
use vstd::prelude::*;

verus! {

/// The longest that a synchronous present waits, in nanoseconds.
pub const SYNC_BUDGET: u64 = 250_000_000;

/// How the pixels of a frame are laid out.
#[derive(Clone, Copy, Debug, PartialEq, Eq, Structural)]
pub struct FrameFormat {
    /// The code that the helper knows the format by.
    pub code: u32,
    pub bytes_per_pixel: u32,
    pub eight_bit: bool,
}

/// The frame that is presented.
#[derive(Clone, Copy, Debug, PartialEq, Eq, Structural)]
pub struct Frame {
    pub width: u32,
    pub height: u32,
    pub format: FrameFormat,
    /// The captured image is the presented one.
    pub same_image: bool,
    /// Nothing is waited for.
    pub pipelined: bool,
    pub zero_copy_allowed: bool,
    /// The bytes that a shared region holds.
    pub region_capacity: u64,
}

/// The settings that decide how a present goes.
#[derive(Clone, Copy, Debug, PartialEq, Eq, Structural)]
pub struct Settings {
    pub apply_model: bool,
    pub neural_enabled: bool,
    pub hold_frame: bool,
    /// The model runs on every so many presents.
    pub model_interval: u32,
    /// The guard against ghosting, as the bits of its 32-bit encoding.
    pub ghost_guard: u32,
}

/// A region of shared memory.
#[derive(Clone, Copy, Debug, PartialEq, Eq, Structural)]
pub struct SharedRegion {
    pub address: u64,
    pub capacity: u64,
}

/// What the channel and the device say at the start of a present.
#[derive(Clone, Copy, Debug, PartialEq, Eq, Structural)]
pub struct ChannelFacts {
    /// `None` while the channel is not open.
    pub settings: Option<Settings>,
    /// A dump of this frame was asked for.
    pub capture_requested: bool,
    /// The helper will not answer in this session.
    pub model_unavailable: bool,
    /// The regions that the helper reads frames from, one per slot.
    pub proxy0: Option<SharedRegion>,
    pub proxy1: Option<SharedRegion>,
    /// The region that the helper writes slot 0's answer to.
    pub answer: Option<SharedRegion>,
    /// What imported host memory has to be aligned to, where that is known.
    pub alignment: Option<u64>,
    /// The most pixels that the model is asked to work on.
    pub pixel_limit: u64,
    /// The frame at the scale that is asked for the model, where that is a positive number.
    pub scaled: Option<ScaledFrame>,
}

/// The size and format that a request was made for.
#[derive(Clone, Copy, Debug, PartialEq, Eq, Structural)]
pub struct FrameDims {
    pub width: u32,
    pub height: u32,
    pub format: u32,
}

/// What is carried along for the round trip that was last sent on a slot.
pub struct Inflight {
    /// The frame that was sent, in the pipelined present.
    pub original: Vec<u8>,
    /// The synchronous presents so far.
    pub presents: u64,
    /// The frame's size and format.
    pub dims: Option<FrameDims>,
    /// The raster that it was sent at, where that is not the frame's own size.
    pub proxy_dims: Option<Raster>,
}

/// A frame that every present keeps working on.
pub struct HeldFrame {
    pub width: u32,
    pub height: u32,
    pub original: Vec<u8>,
    /// What was sent for it.
    pub proxy: Vec<u8>,
    pub sent: Raster,
}

/// What a device carries from one present to the next.
pub struct PresentState {
    /// The frame that was captured last.
    pub original_scratch: Vec<u8>,
    /// The scaled copy of it that was sent.
    pub model_scratch: Vec<u8>,
    pub slot0: Inflight,
    pub slot1: Inflight,
    pub bootstrap_complete: bool,
    pub answer_scratch: Vec<u8>,
    /// The frame that the shown answer was made for.
    pub raw_answer_base: Vec<u8>,
    /// Changes with every new answer, and is 0 before the first.
    pub raw_answer_generation: u64,
    /// The shown answer. Empty where there is none, or where it is only on the GPU.
    pub last_answer: Vec<u8>,
    pub last_answer_size: Raster,
    pub held: Option<HeldFrame>,
    /// Frames captured since the start, for the white meter.
    pub meter_frame: u32,
}

/// What an [`Inflight`] stands for.
#[verifier::ext_equal]
pub struct InflightView {
    pub original: Seq<u8>,
    pub presents: u64,
    pub dims: Option<FrameDims>,
    pub proxy_dims: Option<Raster>,
}

/// What a [`HeldFrame`] stands for.
#[verifier::ext_equal]
pub struct HeldView {
    pub width: u32,
    pub height: u32,
    pub original: Seq<u8>,
    pub proxy: Seq<u8>,
    pub sent: Raster,
}

/// What a [`PresentState`] stands for.
#[verifier::ext_equal]
pub struct PresentView {
    pub original_scratch: Seq<u8>,
    pub model_scratch: Seq<u8>,
    pub slot0: InflightView,
    pub slot1: InflightView,
    pub bootstrap_complete: bool,
    pub answer_scratch: Seq<u8>,
    pub raw_answer_base: Seq<u8>,
    pub raw_answer_generation: u64,
    pub last_answer: Seq<u8>,
    pub last_answer_size: Raster,
    pub held: Option<HeldView>,
    pub meter_frame: u32,
}

impl View for Inflight {
    type V = InflightView;

    open spec fn view(&self) -> InflightView {
        InflightView {
            original: self.original@,
            presents: self.presents,
            dims: self.dims,
            proxy_dims: self.proxy_dims,
        }
    }
}

impl View for HeldFrame {
    type V = HeldView;

    open spec fn view(&self) -> HeldView {
        HeldView {
            width: self.width,
            height: self.height,
            original: self.original@,
            proxy: self.proxy@,
            sent: self.sent,
        }
    }
}

impl View for PresentState {
    type V = PresentView;

    open spec fn view(&self) -> PresentView {
        PresentView {
            original_scratch: self.original_scratch@,
            model_scratch: self.model_scratch@,
            slot0: self.slot0@,
            slot1: self.slot1@,
            bootstrap_complete: self.bootstrap_complete,
            answer_scratch: self.answer_scratch@,
            raw_answer_base: self.raw_answer_base@,
            raw_answer_generation: self.raw_answer_generation,
            last_answer: self.last_answer@,
            last_answer_size: self.last_answer_size,
            held: match self.held {
                Some(h) => Some(h@),
                None => None,
            },
            meter_frame: self.meter_frame,
        }
    }
}

/// The size of a held frame, and the raster it was sent at.
#[derive(Clone, Copy, Debug, PartialEq, Eq, Structural)]
pub struct HeldFacts {
    pub width: u32,
    pub height: u32,
    pub sent: Raster,
}

/// What the steps of a present look at in the state.
#[derive(Clone, Copy, Debug, PartialEq, Eq, Structural)]
pub struct StateFacts {
    pub external_memory_host: bool,
    pub bootstrap_complete: bool,
    pub dims0: Option<FrameDims>,
    pub dims1: Option<FrameDims>,
    pub proxy0: Option<Raster>,
    pub proxy1: Option<Raster>,
    /// Counting the present that is under way.
    pub presents: u64,
    pub generation: u64,
    pub last_answer_empty: bool,
    pub last_answer_size: Raster,
    pub model_scratch_len: u64,
    pub held: Option<HeldFacts>,
    pub meter_frame: u32,
}

/// The facts of a state.
pub open spec fn facts_of(v: PresentView, external_memory_host: bool) -> StateFacts {
    StateFacts {
        external_memory_host,
        bootstrap_complete: v.bootstrap_complete,
        dims0: v.slot0.dims,
        dims1: v.slot1.dims,
        proxy0: v.slot0.proxy_dims,
        proxy1: v.slot1.proxy_dims,
        presents: v.slot0.presents,
        generation: v.raw_answer_generation,
        last_answer_empty: v.last_answer.len() == 0,
        last_answer_size: v.last_answer_size,
        model_scratch_len: v.model_scratch.len() as u64,
        held: match v.held {
            Some(h) => Some(HeldFacts { width: h.width, height: h.height, sent: h.sent }),
            None => None,
        },
        meter_frame: v.meter_frame,
    }
}

/// Where a present stands.
#[derive(Clone, Copy, Debug, PartialEq, Eq, Structural)]
pub enum Phase {
    Starting,
    Dropping,
    DumpGuard,
    Dumping,
    BootPending,
    BootPoll,
    BootCapture,
    BootGuard,
    BootBegin,
    SlotPending,
    SlotPoll,
    SlotRead,
    SlotFree,
    SlotCapture,
    SlotGuard,
    SlotBegin,
    Holds,
    Alive,
    LeftPending,
    LeftPoll,
    ZeroCopy,
    HeldSend,
    SyncCapture,
    SyncSleep,
    Metering,
    SyncGuard,
    SyncBegin,
    SyncPoll,
    SyncWait,
    SyncAnswered,
    SyncRead,
    FinalHolds,
    Composing,
    WritingBack,
    Finished,
}

/// What a present has found out so far.
#[derive(Clone, Copy, Debug, PartialEq, Eq, Structural)]
pub struct Locals {
    pub settings: Settings,
    pub facts: ChannelFacts,
    /// The bytes of the frame.
    pub bytes: u64,
    pub use_direct: bool,
    /// The raster that the model works on.
    pub raster: Raster,
    /// The part of the answer region to import, where that can be done.
    pub answer_import: Option<SharedRegion>,
    /// The slot whose turn it is.
    pub slot: usize,
    pub have_answer: bool,
    /// The raster of the answer that arrived on the slot.
    pub answer: Raster,
    /// This present reuses the last answer.
    pub carried: bool,
    /// When the wait is over.
    pub deadline: u64,
    /// When the capture began.
    pub started: u64,
    /// The buffer on the GPU that the capture also fills.
    pub target: Option<u64>,
    /// The raster that the frame was sent at.
    pub sent: Raster,
    pub gpu_original: bool,
    /// A held frame is worked on.
    pub holding: bool,
    /// The scaled copy of the frame is part of the composition.
    pub small_proxy: bool,
    /// The composition is onto the held frame.
    pub held_original: bool,
    /// The answer is only on the GPU.
    pub fresh_on_gpu: bool,
}

/// A present under way.
#[derive(Clone, Copy, Debug, PartialEq, Eq, Structural)]
pub struct PresentCall {
    pub frame: Frame,
    pub phase: Phase,
    pub l: Locals,
}

/// What the caller found.
#[derive(Clone, Copy, Debug, PartialEq, Eq, Structural)]
pub enum Event {
    /// The channel was opened, and says this.
    Facts(ChannelFacts),
    /// The action was carried out.
    Done,
    /// The question was answered, or the action worked, or not.
    Flag(bool),
    /// The request was asked after: answered, still waiting, or gone.
    Polled(Option<bool>),
    /// An attempt at a capture. `original` and `model` say that the frame's bytes and those of its
    /// scaled copy came with it.
    Captured { step: CaptureStep, original: bool, model: bool },
    /// The answer's bytes came.
    AnswerRead,
    /// The buffer that a zero-copy capture is to fill, if there is one.
    Target(Option<u64>),
    /// The raster that the helper says it has answered, if it says so.
    Size(Option<Raster>),
    /// The compose work was submitted, and signals this semaphore.
    Composed(Option<u64>),
}

/// What a composition works with.
#[derive(Clone, Copy, Debug, PartialEq, Eq, Structural)]
pub struct ComposeRequest {
    /// The raster of the answer.
    pub size: Raster,
    pub generation: u64,
    /// The answer and its frame are on the GPU.
    pub on_gpu: bool,
    /// They are this present's own.
    pub fresh: bool,
    /// The scaled copy of the frame goes with them.
    pub small_proxy: bool,
    /// The composition is onto the held frame rather than the presented image.
    pub held_original: bool,
    pub ghost_guard: u32,
}

/// What to do next.
#[derive(Clone, Copy, Debug, PartialEq, Eq, Structural)]
pub enum Action {
    /// Take the request for a dump, which cannot be served.
    TakeCaptureRequest,
    /// Make sure that nothing on the GPU still reads the region that the helper answers to.
    GuardAnswerRegion,
    /// Serve the request for a dump.
    RunSync,
    /// Is a request outstanding on the slot?
    QueryPending { slot: usize },
    /// Ask after the slot's request.
    Poll { slot: usize },
    /// Make an attempt at capturing the frame.
    Capture { slot: usize, request: CaptureRequest },
    /// Hand the captured frame to the helper.
    Begin { slot: usize },
    /// Read this many bytes of the slot's answer.
    ReadAnswer { slot: usize, bytes: u64 },
    /// Does the GPU hold the answer of this generation?
    QueryHolds { generation: u64 },
    /// Is the helper alive?
    QueryHelper,
    /// Import the answer region, and give a buffer for the capture to fill.
    PrepareZeroCopy { address: u64, import_bytes: u64, bytes: u64 },
    /// Send the held frame's proxy.
    SendHeld { slot: usize, sent: Raster },
    /// Sleep for a tenth of a millisecond.
    Sleep,
    /// Meter the frame, which is in the shared region or among the captured bytes.
    Meter { region: bool },
    /// Which raster did the helper answer?
    QueryAnswered,
    /// Compose the answer onto the image.
    Compose(ComposeRequest),
    /// Write the answer onto the image from the CPU.
    WriteBack,
    /// The present is over. Its timing is published where there is one, with whether an answer was
    /// shown.
    Finish { semaphore: Option<u64>, timing: Option<bool> },
}

/// What a step does to the state.
#[derive(Clone, Copy, Debug, PartialEq, Eq, Structural)]
pub enum Effect {
    Nothing,
    /// Keep the bytes that came with a capture.
    StoreCapture { original: bool, model: bool },
    /// The captured frame is on the GPU only.
    ClearOriginal,
    CompleteBootstrap,
    /// A request went out on the slot. `keep_original` keeps the captured frame with it.
    Sent { slot: usize, dims: FrameDims, proxy: Option<Raster>, keep_original: bool },
    /// The slot's answer came; the frame it was made for is kept with it.
    TakeAnswer { slot: usize },
    /// The answer that came becomes the one that is shown.
    PublishAnswer { raster: Raster },
    CountPresent,
    /// The held frame is worked on again.
    LoadHeld,
    DropHeld,
    /// The captured frame is held from now on. `whole` says that it was sent as it is.
    Hold { width: u32, height: u32, sent: Raster, whole: bool },
    CountMeter,
    /// The shown answer is on the GPU only.
    ClearAnswer,
    /// The answer that came is this frame's own.
    TakeSyncAnswer,
    /// The shown answer is new.
    NewAnswer { raster: Raster },
}

/// What a step leads to: the call, what to do, and what happens to the state, in this order.
#[derive(Clone, Copy, Debug, PartialEq, Eq, Structural)]
pub struct Next {
    pub call: PresentCall,
    pub action: Action,
    pub first: Effect,
    pub second: Effect,
    pub third: Effect,
}

/// The bytes of a raster, as far as 64 bits go.
pub open spec fn spec_raster_bytes(width: u32, height: u32, bytes_per_pixel: u32) -> u64 {
    if width * height * bytes_per_pixel <= u64::MAX {
        (width * height * bytes_per_pixel) as u64
    } else {
        u64::MAX
    }
}

pub fn raster_bytes(width: u32, height: u32, bytes_per_pixel: u32) -> (bytes: u64)
    ensures
        bytes == spec_raster_bytes(width, height, bytes_per_pixel),
{
    assert(0 <= width * height <= 0xffff_ffff * 0xffff_ffff) by (nonlinear_arith)
        requires
            0 <= width <= 0xffff_ffff,
            0 <= height <= 0xffff_ffff,
    ;
    let pixels: u64 = width as u64 * height as u64;
    assert(0 <= pixels * bytes_per_pixel <= 0xffff_ffff_ffff_ffff * 0xffff_ffff) by (nonlinear_arith)
        requires
            0 <= pixels <= 0xffff_ffff_ffff_ffff,
            0 <= bytes_per_pixel <= 0xffff_ffff,
    ;
    let product: u128 = pixels as u128 * bytes_per_pixel as u128;
    if product <= u64::MAX as u128 {
        product as u64
    } else {
        u64::MAX
    }
}

/// Whether a region can be imported at this alignment.
pub open spec fn region_aligned(region: Option<SharedRegion>, alignment: Option<u64>) -> bool {
    match (region, alignment) {
        (Some(r), Some(a)) => a != 0 && r.address % a == 0 && r.capacity % a == 0,
        _ => false,
    }
}

fn one_region_aligned(region: Option<SharedRegion>, alignment: Option<u64>) -> (ok: bool)
    ensures
        ok == region_aligned(region, alignment),
{
    match (region, alignment) {
        (Some(r), Some(a)) => a != 0 && r.address % a == 0 && r.capacity % a == 0,
        _ => false,
    }
}

/// Whether both slots' regions can be imported.
pub open spec fn spec_regions_aligned(
    proxy0: Option<SharedRegion>,
    proxy1: Option<SharedRegion>,
    alignment: Option<u64>,
) -> bool {
    region_aligned(proxy0, alignment) && region_aligned(proxy1, alignment)
}

fn regions_aligned(proxy0: Option<SharedRegion>, proxy1: Option<SharedRegion>, alignment: Option<u64>) -> (ok: bool)
    ensures
        ok == spec_regions_aligned(proxy0, proxy1, alignment),
{
    one_region_aligned(proxy0, alignment) && one_region_aligned(proxy1, alignment)
}

/// The raster that the model works on.
pub open spec fn spec_model_size(width: u32, height: u32, limit: u64, scaled: Option<ScaledFrame>) -> Raster {
    let raster = model_raster(width, height, limit, scaled);
    Raster { width: raster.0, height: raster.1 }
}

fn model_size(width: u32, height: u32, limit: u64, scaled: Option<ScaledFrame>) -> (r: Raster)
    ensures
        r == spec_model_size(width, height, limit, scaled),
{
    let (w, h): (u32, u32) = scaled_dims(width, height, limit, scaled);
    Raster { width: w, height: h }
}

/// The part of the answer region that is imported for a frame, where its start is aligned and it
/// holds the frame rounded up to the alignment.
pub open spec fn spec_importable(
    region: Option<SharedRegion>,
    alignment: Option<u64>,
    bytes: u64,
) -> Option<SharedRegion> {
    match (region, alignment) {
        (Some(r), Some(a)) => if a != 0 && r.address % a == 0 && aligned(bytes, a) <= r.capacity {
            Some(SharedRegion { address: r.address, capacity: aligned(bytes, a) as u64 })
        } else {
            None
        },
        _ => None,
    }
}

fn importable(region: Option<SharedRegion>, alignment: Option<u64>, bytes: u64) -> (part: Option<SharedRegion>)
    ensures
        part == spec_importable(region, alignment, bytes),
{
    match (region, alignment) {
        (Some(r), Some(a)) => {
            if a == 0 || r.address % a != 0 {
                return None;
            }
            let rounded: u128 = crate::capture_step::align_up_wide(bytes, a);
            if rounded <= r.capacity as u128 {
                Some(SharedRegion { address: r.address, capacity: rounded as u64 })
            } else {
                None
            }
        },
        _ => None,
    }
}

/// The identity of the next answer: another number, and never 0.
pub open spec fn spec_next_generation(generation: u64) -> u64 {
    if generation == u64::MAX {
        1
    } else {
        (generation + 1) as u64
    }
}

fn next_generation(generation: u64) -> (next: u64)
    ensures
        next == spec_next_generation(generation),
{
    if generation == u64::MAX {
        1
    } else {
        generation + 1
    }
}

/// When a wait that begins now is over.
pub open spec fn spec_deadline_after(now: u64) -> u64 {
    if now <= u64::MAX - SYNC_BUDGET {
        (now + SYNC_BUDGET) as u64
    } else {
        u64::MAX
    }
}

fn deadline_after(now: u64) -> (deadline: u64)
    ensures
        deadline == spec_deadline_after(now),
{
    if now <= u64::MAX - SYNC_BUDGET {
        now + SYNC_BUDGET
    } else {
        u64::MAX
    }
}

pub open spec fn spec_next_slot(slot: usize) -> usize {
    if slot == 0 {
        1
    } else {
        2
    }
}

fn next_slot(slot: usize) -> (next: usize)
    ensures
        next == spec_next_slot(slot),
{
    if slot == 0 {
        1
    } else {
        2
    }
}

pub open spec fn spec_frame_dims(frame: Frame) -> FrameDims {
    FrameDims { width: frame.width, height: frame.height, format: frame.format.code }
}

fn frame_dims(frame: Frame) -> (dims: FrameDims)
    ensures
        dims == spec_frame_dims(frame),
{
    FrameDims { width: frame.width, height: frame.height, format: frame.format.code }
}

/// The raster that a request was sent at, where it is not the frame's size.
pub open spec fn spec_proxy_raster(frame: Frame, sent: Raster) -> Option<Raster> {
    if sent.width != frame.width || sent.height != frame.height {
        Some(sent)
    } else {
        None
    }
}

fn proxy_raster(frame: Frame, sent: Raster) -> (proxy: Option<Raster>)
    ensures
        proxy == spec_proxy_raster(frame, sent),
{
    if sent.width != frame.width || sent.height != frame.height {
        Some(sent)
    } else {
        None
    }
}

/// The raster to scale the frame to for the model: none for formats that cannot be scaled.
pub open spec fn spec_model_request(c: PresentCall) -> Option<Raster> {
    if c.frame.format.eight_bit {
        Some(c.l.raster)
    } else {
        None
    }
}

fn model_request(c: PresentCall) -> (model: Option<Raster>)
    ensures
        model == spec_model_request(c),
{
    if c.frame.format.eight_bit {
        Some(c.l.raster)
    } else {
        None
    }
}

/// What is kept of an attempt at a capture.
pub open spec fn spec_stored(e: Event) -> Effect {
    match e {
        Event::Captured { step, original, model } => match step {
            CaptureStep::Captured { sent, gpu_original, proxy } => if gpu_original {
                Effect::ClearOriginal
            } else {
                Effect::StoreCapture { original, model }
            },
            _ => Effect::StoreCapture { original, model },
        },
        _ => Effect::Nothing,
    }
}

fn stored(e: Event) -> (effect: Effect)
    ensures
        effect == spec_stored(e),
{
    match e {
        Event::Captured { step, original, model } => match step {
            CaptureStep::Captured { sent: _, gpu_original, proxy: _ } => if gpu_original {
                Effect::ClearOriginal
            } else {
                Effect::StoreCapture { original, model }
            },
            _ => Effect::StoreCapture { original, model },
        },
        _ => Effect::Nothing,
    }
}

pub open spec fn spec_slot_dims(f: StateFacts, slot: usize) -> Option<FrameDims> {
    if slot == 0 {
        f.dims0
    } else {
        f.dims1
    }
}

fn slot_dims(f: StateFacts, slot: usize) -> (dims: Option<FrameDims>)
    ensures
        dims == spec_slot_dims(f, slot),
{
    if slot == 0 {
        f.dims0
    } else {
        f.dims1
    }
}

pub open spec fn spec_slot_proxy(f: StateFacts, slot: usize) -> Option<Raster> {
    if slot == 0 {
        f.proxy0
    } else {
        f.proxy1
    }
}

fn slot_proxy(f: StateFacts, slot: usize) -> (proxy: Option<Raster>)
    ensures
        proxy == spec_slot_proxy(f, slot),
{
    if slot == 0 {
        f.proxy0
    } else {
        f.proxy1
    }
}

/// The held frame that a present works on: there is one, holding is still asked for, and it is of
/// the presented size.
pub open spec fn spec_held_frame(c: PresentCall, f: StateFacts) -> Option<HeldFacts> {
    match f.held {
        Some(h) => if c.l.settings.hold_frame && h.width == c.frame.width && h.height == c.frame.height {
            Some(h)
        } else {
            None
        },
        None => None,
    }
}

fn held_frame(c: PresentCall, f: StateFacts) -> (held: Option<HeldFacts>)
    ensures
        held == spec_held_frame(c, f),
{
    match f.held {
        Some(h) => if c.l.settings.hold_frame && h.width == c.frame.width && h.height == c.frame.height {
            Some(h)
        } else {
            None
        },
        None => None,
    }
}

/// Whether this present carries the last answer instead of asking for one: it is not the model's
/// turn, nothing is held, there is an answer, and it is of this frame's size and format.
pub open spec fn spec_carries(c: PresentCall, f: StateFacts, holds: bool) -> bool {
    &&& c.l.settings.model_interval > 1
    &&& before_this(f.presents) % (c.l.settings.model_interval as u64) != 0
    &&& !c.l.settings.hold_frame
    &&& !f.last_answer_empty || holds
    &&& f.dims0 == Some(spec_frame_dims(c.frame))
}

/// The presents before the one that was counted last.
pub open spec fn before_this(presents: u64) -> u64 {
    if presents == 0 {
        u64::MAX
    } else {
        (presents - 1) as u64
    }
}

fn carries(c: PresentCall, f: StateFacts, holds: bool) -> (carry: bool)
    ensures
        carry == spec_carries(c, f, holds),
{
    let number: u64 = if f.presents == 0 {
        u64::MAX
    } else {
        f.presents - 1
    };
    let interval: u32 = c.l.settings.model_interval;
    interval > 1 && number % (interval as u64) != 0 && !c.l.settings.hold_frame && (!f.last_answer_empty || holds)
        && f.dims0 == Some(frame_dims(c.frame))
}

/// Whether the frame stays on the GPU all the way into the composition.
pub open spec fn spec_is_zero_copy(c: PresentCall) -> bool {
    c.l.target is Some && c.l.gpu_original && c.l.sent.width == c.frame.width && c.l.sent.height == c.frame.height
}

fn is_zero_copy(c: PresentCall) -> (zero_copy: bool)
    ensures
        zero_copy == spec_is_zero_copy(c),
{
    c.l.target.is_some() && c.l.gpu_original && c.l.sent.width == c.frame.width && c.l.sent.height == c.frame.height
}

/// Whether the helper says that it has answered another raster than was sent.
pub open spec fn spec_mismatched(echoed: Option<Raster>, sent: Raster) -> bool {
    echoed matches Some(r) && r != sent
}

fn mismatched(echoed: Option<Raster>, sent: Raster) -> (m: bool)
    ensures
        m == spec_mismatched(echoed, sent),
{
    match echoed {
        Some(r) => r != sent,
        None => false,
    }
}

/// The end of a present.
pub open spec fn finish_next(c: PresentCall, semaphore: Option<u64>, timing: Option<bool>) -> Next {
    Next {
        call: PresentCall { phase: Phase::Finished, ..c },
        action: Action::Finish { semaphore, timing },
        first: Effect::Nothing,
        second: Effect::Nothing,
        third: Effect::Nothing,
    }
}

/// On to another phase.
pub open spec fn go_next(c: PresentCall, phase: Phase, action: Action) -> Next {
    Next {
        call: PresentCall { phase, ..c },
        action,
        first: Effect::Nothing,
        second: Effect::Nothing,
        third: Effect::Nothing,
    }
}

/// An attempt at capturing the frame for a slot.
pub open spec fn request_next(
    c: PresentCall,
    slot: usize,
    model: Option<Raster>,
    target: Option<u64>,
    submitted_after: Option<u64>,
    phase: Phase,
) -> Next {
    go_next(
        c,
        phase,
        Action::Capture {
            slot,
            request: CaptureRequest {
                direct: c.l.use_direct,
                width: c.frame.width,
                height: c.frame.height,
                format: c.frame.format.code,
                bytes: c.l.bytes,
                model,
                target,
                submitted_after,
            },
        },
    )
}

/// The turn of a slot in the pipelined present.
pub open spec fn slot_start_next(c: PresentCall, slot: usize) -> Next {
    go_next(
        PresentCall {
            l: Locals {
                slot,
                have_answer: false,
                answer: Raster { width: c.frame.width, height: c.frame.height },
                ..c.l
            },
            ..c
        },
        Phase::SlotPending,
        Action::QueryPending { slot },
    )
}

/// What follows once no capture was requested: nothing for a frame that the region cannot hold, the
/// one-frame bootstrap while the pass is off, and the present proper otherwise.
#[verifier::opaque]
pub open spec fn gate_next(c: PresentCall, f: StateFacts) -> Next {
    let frame = c.frame;
    let facts = c.l.facts;
    let bytes: u64 = spec_raster_bytes(frame.width, frame.height, frame.format.bytes_per_pixel);
    let disabled: bool = !c.l.settings.apply_model || !c.l.settings.neural_enabled || facts.model_unavailable;
    let aligned_regions: bool = spec_regions_aligned(facts.proxy0, facts.proxy1, facts.alignment);
    let capable: bool = f.external_memory_host && aligned_regions;
    if bytes == 0 || bytes > frame.region_capacity {
        finish_next(c, None, None)
    } else if disabled {
        // While the pass is off, one frame is sent so that the helper can build its images early.
        if f.bootstrap_complete {
            finish_next(c, None, None)
        } else {
            go_next(
                PresentCall { l: Locals { bytes, use_direct: capable, slot: 0, ..c.l }, ..c },
                Phase::BootPending,
                Action::QueryPending { slot: 0 },
            )
        }
    } else {
        // A direct capture hands the whole frame on as it is, so it serves only when the model works
        // on exactly the frame.
        let raster = spec_model_size(frame.width, frame.height, facts.pixel_limit, facts.scaled);
        let direct: bool = capable && raster.width == frame.width && raster.height == frame.height;
        let answer_import: Option<SharedRegion> = if direct {
            spec_importable(facts.answer, facts.alignment, bytes)
        } else {
            None
        };
        let ready = PresentCall {
            l: Locals { bytes, use_direct: direct, raster, answer_import, slot: 0, ..c.l },
            ..c
        };
        if frame.pipelined {
            slot_start_next(ready, 0)
        } else {
            Next {
                call: PresentCall { phase: Phase::Holds, ..ready },
                action: Action::QueryHolds { generation: f.generation },
                first: Effect::CountPresent,
                second: Effect::Nothing,
                third: Effect::Nothing,
            }
        }
    }
}

/// The first step: a present does nothing without settings, and a requested capture comes first.
pub open spec fn start_next(c: PresentCall, f: StateFacts, facts: ChannelFacts) -> Next {
    match facts.settings {
        None => finish_next(c, None, None),
        Some(settings) => {
            let known = PresentCall { l: Locals { settings, facts, ..c.l }, ..c };
            if facts.capture_requested && !c.frame.same_image {
                // There is no same-frame original to dump, and the request must not linger.
                go_next(known, Phase::Dropping, Action::TakeCaptureRequest)
            } else if facts.capture_requested {
                go_next(known, Phase::DumpGuard, Action::GuardAnswerRegion)
            } else {
                gate_next(known, f)
            }
        },
    }
}

/// The bootstrap: while the pass is off, one frame is sent on slot 0, and its answer ends it.
#[verifier::opaque]
pub open spec fn boot_next(c: PresentCall, f: StateFacts, e: Event) -> Next {
    let stored: Effect = spec_stored(e);
    match (c.phase, e) {
        (Phase::BootPending, Event::Flag(true)) => go_next(c, Phase::BootPoll, Action::Poll { slot: 0 }),
        (Phase::BootPending, Event::Flag(false)) => request_next(c, 0, None, None, None, Phase::BootCapture),
        (Phase::BootPoll, Event::Polled(Some(true))) => Next {
            first: Effect::CompleteBootstrap,
            ..finish_next(c, None, None)
        },
        (Phase::BootCapture, Event::Captured { step: CaptureStep::Captured { .. }, .. }) => Next {
            first: stored,
            ..go_next(c, Phase::BootGuard, Action::GuardAnswerRegion)
        },
        (Phase::BootCapture, Event::Captured { .. }) => Next { first: stored, ..finish_next(c, None, None) },
        (Phase::BootGuard, Event::Flag(true)) => go_next(c, Phase::BootBegin, Action::Begin { slot: 0 }),
        (Phase::BootBegin, Event::Flag(true)) => Next {
            first: Effect::Sent { slot: 0, dims: spec_frame_dims(c.frame), proxy: None, keep_original: false },
            ..finish_next(c, None, None)
        },
        _ => finish_next(c, None, None),
    }
}

/// The end of a slot's turn. An answer that arrived becomes the one that is shown, if the slot's last
/// request is of the current frame size (`current`).
#[verifier::opaque]
pub open spec fn slot_end_next(c: PresentCall, generation: u64, current: bool, first: Effect) -> Next {
    let publish: bool = c.l.have_answer && current && c.frame.format.eight_bit;
    let second: Effect = if publish {
        Effect::PublishAnswer { raster: c.l.answer }
    } else {
        Effect::Nothing
    };
    let shown: u64 = if publish {
        spec_next_generation(generation)
    } else {
        generation
    };
    if c.l.slot == 0 {
        Next { first, second, ..slot_start_next(c, 1) }
    } else {
        Next { first, second, ..go_next(c, Phase::FinalHolds, Action::QueryHolds { generation: shown }) }
    }
}

/// One slot's turn in the pipelined present: take its answer if there is one, and send the next frame
/// if nothing is outstanding. Nothing is waited for.
#[verifier::opaque]
pub open spec fn slot_next(c: PresentCall, f: StateFacts, e: Event) -> Next {
    let slot: usize = c.l.slot;
    let current: bool = spec_slot_dims(f, slot) == Some(spec_frame_dims(c.frame));
    let stored: Effect = spec_stored(e);
    match (c.phase, e) {
        // What an earlier present sent comes first, before a new capture can replace it.
        (Phase::SlotPending, Event::Flag(true)) => go_next(c, Phase::SlotPoll, Action::Poll { slot }),
        (Phase::SlotPending, Event::Flag(false)) => go_next(c, Phase::SlotFree, Action::QueryPending { slot }),
        (Phase::SlotPoll, Event::Polled(Some(true))) => {
            let answer = match spec_slot_proxy(f, slot) {
                Some(raster) => raster,
                None => Raster { width: c.frame.width, height: c.frame.height },
            };
            go_next(
                PresentCall { l: Locals { answer, ..c.l }, ..c },
                Phase::SlotRead,
                Action::ReadAnswer {
                    slot,
                    bytes: spec_raster_bytes(answer.width, answer.height, c.frame.format.bytes_per_pixel),
                },
            )
        },
        (Phase::SlotPoll, Event::Polled(_)) => go_next(c, Phase::SlotFree, Action::QueryPending { slot }),
        (Phase::SlotRead, Event::AnswerRead) => Next {
            first: Effect::TakeAnswer { slot },
            ..go_next(
                PresentCall { l: Locals { have_answer: true, ..c.l }, ..c },
                Phase::SlotFree,
                Action::QueryPending { slot },
            )
        },
        // A new round trip only starts on a slot with none outstanding.
        (Phase::SlotFree, Event::Flag(false)) => request_next(
            c,
            slot,
            spec_model_request(c),
            None,
            None,
            Phase::SlotCapture,
        ),
        (Phase::SlotFree, Event::Flag(true)) => slot_end_next(c, f.generation, current, Effect::Nothing),
        (Phase::SlotCapture, Event::Captured { step: CaptureStep::Captured { sent, .. }, .. }) => Next {
            first: stored,
            ..go_next(PresentCall { l: Locals { sent, ..c.l }, ..c }, Phase::SlotGuard, Action::GuardAnswerRegion)
        },
        (Phase::SlotCapture, Event::Captured { .. }) => slot_end_next(c, f.generation, current, stored),
        (Phase::SlotGuard, Event::Flag(true)) => go_next(c, Phase::SlotBegin, Action::Begin { slot }),
        (Phase::SlotGuard, Event::Flag(false)) => slot_end_next(c, f.generation, current, Effect::Nothing),
        (Phase::SlotBegin, Event::Flag(true)) => slot_end_next(
            c,
            f.generation,
            true,
            Effect::Sent {
                slot,
                dims: spec_frame_dims(c.frame),
                proxy: spec_proxy_raster(c.frame, c.l.sent),
                keep_original: true,
            },
        ),
        (Phase::SlotBegin, Event::Flag(false)) => slot_end_next(c, f.generation, current, Effect::Nothing),
        _ => finish_next(c, None, None),
    }
}

/// The frame to work on: the held one while there is one, a new capture otherwise.
#[verifier::opaque]
pub open spec fn capture_start_next(c: PresentCall, held: Option<HeldFacts>, target: Option<u64>, now: u64) -> Next {
    let begun = PresentCall { l: Locals { target, started: now, ..c.l }, ..c };
    match held {
        Some(h) => Next {
            first: Effect::LoadHeld,
            ..go_next(
                PresentCall { l: Locals { sent: h.sent, gpu_original: false, holding: true, ..begun.l }, ..begun },
                Phase::HeldSend,
                Action::SendHeld { slot: 0, sent: h.sent },
            )
        },
        None => Next {
            first: Effect::DropHeld,
            ..request_next(
                PresentCall { l: Locals { holding: false, ..begun.l }, ..begun },
                0,
                spec_model_request(c),
                target,
                Some(now),
                Phase::SyncCapture,
            )
        },
    }
}

/// What an earlier frame left outstanding is discarded when it lands and never waited for, slot by
/// slot. Then the zero-copy compose is set up, where it can be.
#[verifier::opaque]
pub open spec fn leftover_next(c: PresentCall, f: StateFacts, slot: usize, now: u64) -> Next {
    if slot < 2 {
        go_next(
            PresentCall { l: Locals { slot, ..c.l }, ..c },
            Phase::LeftPending,
            Action::QueryPending { slot },
        )
    } else {
        let zero_copy: Option<SharedRegion> = if !c.l.settings.hold_frame && c.frame.format.eight_bit
            && c.frame.zero_copy_allowed {
            c.l.answer_import
        } else {
            None
        };
        match zero_copy {
            Some(region) => go_next(
                c,
                Phase::ZeroCopy,
                Action::PrepareZeroCopy { address: region.address, import_bytes: region.capacity, bytes: c.l.bytes },
            ),
            None => capture_start_next(c, spec_held_frame(c, f), None, now),
        }
    }
}

/// The frame is there: it is held from now on if that was just asked for, and metered every eighth
/// time.
pub open spec fn captured_next(c: PresentCall, f: StateFacts, first: Effect) -> Next {
    let hold: bool = c.l.settings.hold_frame && !c.l.holding;
    let second: Effect = if hold {
        Effect::Hold {
            width: c.frame.width,
            height: c.frame.height,
            sent: c.l.sent,
            whole: c.l.use_direct && c.l.sent.width == c.frame.width && c.l.sent.height == c.frame.height,
        }
    } else {
        Effect::Nothing
    };
    if c.l.holding {
        Next { first, second, ..go_next(c, Phase::SyncGuard, Action::GuardAnswerRegion) }
    } else if f.meter_frame % 8 == 0 {
        Next {
            first,
            second,
            third: Effect::CountMeter,
            ..go_next(c, Phase::Metering, Action::Meter { region: spec_is_zero_copy(c) })
        }
    } else {
        Next {
            first,
            second,
            third: Effect::CountMeter,
            ..go_next(c, Phase::SyncGuard, Action::GuardAnswerRegion)
        }
    }
}

/// This frame's own answer is there.
pub open spec fn answered_next(c: PresentCall, f: StateFacts, first: Effect) -> Next {
    let bytes: u64 = spec_raster_bytes(c.l.sent.width, c.l.sent.height, c.frame.format.bytes_per_pixel);
    let whole: bool = c.l.sent.width == c.frame.width && c.l.sent.height == c.frame.height;
    Next {
        first,
        second: Effect::NewAnswer { raster: c.l.sent },
        ..go_next(
            PresentCall {
                l: Locals {
                    small_proxy: !whole && f.model_scratch_len >= bytes,
                    held_original: c.l.settings.hold_frame,
                    fresh_on_gpu: spec_is_zero_copy(c),
                    ..c.l
                },
                ..c
            },
            Phase::FinalHolds,
            Action::QueryHolds { generation: spec_next_generation(f.generation) },
        )
    }
}

/// The synchronous present: this frame is captured, answered and composed before it goes out, within a
/// budget.
#[verifier::opaque]
pub open spec fn sync_next(c: PresentCall, f: StateFacts, e: Event, now: u64) -> Next {
    let stored: Effect = spec_stored(e);
    match (c.phase, e) {
        // Between two runs of the model the last answer is carried onto this frame.
        (Phase::Holds, Event::Flag(holds)) => if spec_carries(c, f, holds) {
            let bytes: u64 = spec_raster_bytes(
                f.last_answer_size.width,
                f.last_answer_size.height,
                c.frame.format.bytes_per_pixel,
            );
            let whole: bool = f.last_answer_size.width == c.frame.width && f.last_answer_size.height == c.frame.height;
            go_next(
                PresentCall {
                    l: Locals { carried: true, small_proxy: !whole && f.model_scratch_len >= bytes, ..c.l },
                    ..c
                },
                Phase::FinalHolds,
                Action::QueryHolds { generation: f.generation },
            )
        } else {
            go_next(c, Phase::Alive, Action::QueryHelper)
        },
        // Without a live helper nothing is waited for.
        (Phase::Alive, Event::Flag(true)) => leftover_next(
            PresentCall { l: Locals { deadline: spec_deadline_after(now), ..c.l }, ..c },
            f,
            0,
            now,
        ),
        (Phase::LeftPending, Event::Flag(true)) => go_next(c, Phase::LeftPoll, Action::Poll { slot: c.l.slot }),
        (Phase::LeftPending, Event::Flag(false)) => leftover_next(c, f, spec_next_slot(c.l.slot), now),
        (Phase::LeftPoll, Event::Polled(answer)) => if answer == Some(false) && c.l.slot == 0 {
            finish_next(c, None, Some(false))
        } else {
            leftover_next(c, f, spec_next_slot(c.l.slot), now)
        },
        (Phase::ZeroCopy, Event::Target(target)) => capture_start_next(c, spec_held_frame(c, f), target, now),
        (Phase::HeldSend, Event::Done) => captured_next(c, f, Effect::Nothing),
        (Phase::SyncCapture, Event::Captured { step: CaptureStep::Captured { sent, gpu_original, .. }, .. }) => captured_next(
            PresentCall { l: Locals { sent, gpu_original, ..c.l }, ..c },
            f,
            stored,
        ),
        (Phase::SyncCapture, Event::Captured { step: CaptureStep::Pending, .. }) => if now < c.l.deadline {
            Next { first: stored, ..go_next(c, Phase::SyncSleep, Action::Sleep) }
        } else {
            Next { first: stored, ..finish_next(c, None, Some(false)) }
        },
        (Phase::SyncCapture, Event::Captured { .. }) => Next { first: stored, ..finish_next(c, None, Some(false)) },
        (Phase::SyncSleep, Event::Done) => request_next(
            c,
            0,
            spec_model_request(c),
            c.l.target,
            Some(c.l.started),
            Phase::SyncCapture,
        ),
        (Phase::Metering, Event::Done) => go_next(c, Phase::SyncGuard, Action::GuardAnswerRegion),
        (Phase::SyncGuard, Event::Flag(true)) => go_next(c, Phase::SyncBegin, Action::Begin { slot: 0 }),
        (Phase::SyncBegin, Event::Flag(true)) => Next {
            first: Effect::Sent {
                slot: 0,
                dims: spec_frame_dims(c.frame),
                proxy: spec_proxy_raster(c.frame, c.l.sent),
                keep_original: false,
            },
            ..go_next(c, Phase::SyncPoll, Action::Poll { slot: 0 })
        },
        (Phase::SyncPoll, Event::Polled(Some(true))) => go_next(c, Phase::SyncAnswered, Action::QueryAnswered),
        (Phase::SyncPoll, Event::Polled(Some(false))) => if now < c.l.deadline {
            go_next(c, Phase::SyncWait, Action::Sleep)
        } else {
            finish_next(c, None, Some(false))
        },
        (Phase::SyncWait, Event::Done) => go_next(c, Phase::SyncPoll, Action::Poll { slot: 0 }),
        // An answer of another raster is someone else's.
        (Phase::SyncAnswered, Event::Size(echoed)) => if spec_mismatched(echoed, c.l.sent) {
            finish_next(c, None, Some(false))
        } else if !c.frame.format.eight_bit {
            finish_next(c, None, None)
        } else if spec_is_zero_copy(c) {
            answered_next(c, f, Effect::ClearAnswer)
        } else {
            go_next(
                c,
                Phase::SyncRead,
                Action::ReadAnswer {
                    slot: 0,
                    bytes: spec_raster_bytes(c.l.sent.width, c.l.sent.height, c.frame.format.bytes_per_pixel),
                },
            )
        },
        (Phase::SyncRead, Event::AnswerRead) => answered_next(c, f, Effect::TakeSyncAnswer),
        _ => finish_next(c, None, Some(false)),
    }
}

/// The end of every present with an answer to show: it is composed on the GPU, and where that fails
/// written back from the CPU.
#[verifier::opaque]
pub open spec fn compose_next(c: PresentCall, f: StateFacts, e: Event) -> Next {
    match (c.phase, e) {
        (Phase::FinalHolds, Event::Flag(holds)) => {
            let on_gpu: bool = c.l.fresh_on_gpu || holds;
            if f.last_answer_empty && !on_gpu {
                finish_next(c, None, None)
            } else {
                go_next(
                    c,
                    Phase::Composing,
                    Action::Compose(
                        ComposeRequest {
                            size: f.last_answer_size,
                            generation: f.generation,
                            on_gpu,
                            fresh: c.l.fresh_on_gpu,
                            small_proxy: c.l.small_proxy,
                            held_original: c.l.held_original,
                            ghost_guard: if c.frame.pipelined || c.l.carried {
                                c.l.settings.ghost_guard
                            } else {
                                0
                            },
                        },
                    ),
                )
            }
        },
        (Phase::Composing, Event::Composed(Some(semaphore))) => finish_next(c, Some(semaphore), Some(true)),
        (Phase::Composing, Event::Composed(None)) => go_next(c, Phase::WritingBack, Action::WriteBack),
        (Phase::WritingBack, Event::Flag(true)) => finish_next(c, None, Some(true)),
        _ => finish_next(c, None, None),
    }
}

/// One step of a present.
pub open spec fn decide_next(c: PresentCall, f: StateFacts, e: Event, now: u64) -> Next {
    match (c.phase, e) {
        (Phase::Starting, Event::Facts(facts)) => start_next(c, f, facts),
        (Phase::Dropping, Event::Done) => gate_next(c, f),
        (Phase::DumpGuard, Event::Flag(true)) => go_next(c, Phase::Dumping, Action::RunSync),
        _ => match c.phase {
            Phase::BootPending | Phase::BootPoll | Phase::BootCapture | Phase::BootGuard | Phase::BootBegin => boot_next(
                c,
                f,
                e,
            ),
            Phase::SlotPending | Phase::SlotPoll | Phase::SlotRead | Phase::SlotFree | Phase::SlotCapture
            | Phase::SlotGuard | Phase::SlotBegin => slot_next(c, f, e),
            Phase::FinalHolds | Phase::Composing | Phase::WritingBack => compose_next(c, f, e),
            Phase::Starting | Phase::Dropping | Phase::DumpGuard | Phase::Dumping | Phase::Finished => finish_next(
                c,
                None,
                None,
            ),
            _ => sync_next(c, f, e, now),
        },
    }
}

fn finish(c: PresentCall, semaphore: Option<u64>, timing: Option<bool>) -> (n: Next)
    ensures
        n == finish_next(c, semaphore, timing),
{
    Next {
        call: PresentCall { phase: Phase::Finished, ..c },
        action: Action::Finish { semaphore, timing },
        first: Effect::Nothing,
        second: Effect::Nothing,
        third: Effect::Nothing,
    }
}

fn go(c: PresentCall, phase: Phase, action: Action) -> (n: Next)
    ensures
        n == go_next(c, phase, action),
{
    Next {
        call: PresentCall { phase, ..c },
        action,
        first: Effect::Nothing,
        second: Effect::Nothing,
        third: Effect::Nothing,
    }
}

fn request(
    c: PresentCall,
    slot: usize,
    model: Option<Raster>,
    target: Option<u64>,
    submitted_after: Option<u64>,
    phase: Phase,
) -> (n: Next)
    ensures
        n == request_next(c, slot, model, target, submitted_after, phase),
{
    go(
        c,
        phase,
        Action::Capture {
            slot,
            request: CaptureRequest {
                direct: c.l.use_direct,
                width: c.frame.width,
                height: c.frame.height,
                format: c.frame.format.code,
                bytes: c.l.bytes,
                model,
                target,
                submitted_after,
            },
        },
    )
}

fn slot_start(c: PresentCall, slot: usize) -> (n: Next)
    ensures
        n == slot_start_next(c, slot),
{
    go(
        PresentCall {
            l: Locals {
                slot,
                have_answer: false,
                answer: Raster { width: c.frame.width, height: c.frame.height },
                ..c.l
            },
            ..c
        },
        Phase::SlotPending,
        Action::QueryPending { slot },
    )
}

fn gate(c: PresentCall, f: StateFacts) -> (n: Next)
    ensures
        n == gate_next(c, f),
{
    proof {
        reveal(gate_next);
    }
    let frame = c.frame;
    let facts = c.l.facts;
    let bytes: u64 = raster_bytes(frame.width, frame.height, frame.format.bytes_per_pixel);
    let disabled: bool = !c.l.settings.apply_model || !c.l.settings.neural_enabled || facts.model_unavailable;
    let aligned_regions: bool = regions_aligned(facts.proxy0, facts.proxy1, facts.alignment);
    let capable: bool = f.external_memory_host && aligned_regions;
    if bytes == 0 || bytes > frame.region_capacity {
        finish(c, None, None)
    } else if disabled {
        if f.bootstrap_complete {
            finish(c, None, None)
        } else {
            go(
                PresentCall { l: Locals { bytes, use_direct: capable, slot: 0, ..c.l }, ..c },
                Phase::BootPending,
                Action::QueryPending { slot: 0 },
            )
        }
    } else {
        let raster = model_size(frame.width, frame.height, facts.pixel_limit, facts.scaled);
        let direct: bool = capable && raster.width == frame.width && raster.height == frame.height;
        let answer_import: Option<SharedRegion> = if direct {
            importable(facts.answer, facts.alignment, bytes)
        } else {
            None
        };
        let ready = PresentCall {
            l: Locals { bytes, use_direct: direct, raster, answer_import, slot: 0, ..c.l },
            ..c
        };
        if frame.pipelined {
            slot_start(ready, 0)
        } else {
            Next {
                call: PresentCall { phase: Phase::Holds, ..ready },
                action: Action::QueryHolds { generation: f.generation },
                first: Effect::CountPresent,
                second: Effect::Nothing,
                third: Effect::Nothing,
            }
        }
    }
}

fn start(c: PresentCall, f: StateFacts, facts: ChannelFacts) -> (n: Next)
    ensures
        n == start_next(c, f, facts),
{
    match facts.settings {
        None => finish(c, None, None),
        Some(settings) => {
            let known = PresentCall { l: Locals { settings, facts, ..c.l }, ..c };
            if facts.capture_requested && !c.frame.same_image {
                go(known, Phase::Dropping, Action::TakeCaptureRequest)
            } else if facts.capture_requested {
                go(known, Phase::DumpGuard, Action::GuardAnswerRegion)
            } else {
                gate(known, f)
            }
        },
    }
}

fn boot(c: PresentCall, f: StateFacts, e: Event) -> (n: Next)
    ensures
        n == boot_next(c, f, e),
{
    proof {
        reveal(boot_next);
    }
    let stored: Effect = stored(e);
    match (c.phase, e) {
        (Phase::BootPending, Event::Flag(true)) => go(c, Phase::BootPoll, Action::Poll { slot: 0 }),
        (Phase::BootPending, Event::Flag(false)) => request(c, 0, None, None, None, Phase::BootCapture),
        (Phase::BootPoll, Event::Polled(Some(true))) => Next {
            first: Effect::CompleteBootstrap,
            ..finish(c, None, None)
        },
        (Phase::BootCapture, Event::Captured { step: CaptureStep::Captured { .. }, .. }) => Next {
            first: stored,
            ..go(c, Phase::BootGuard, Action::GuardAnswerRegion)
        },
        (Phase::BootCapture, Event::Captured { .. }) => Next { first: stored, ..finish(c, None, None) },
        (Phase::BootGuard, Event::Flag(true)) => go(c, Phase::BootBegin, Action::Begin { slot: 0 }),
        (Phase::BootBegin, Event::Flag(true)) => Next {
            first: Effect::Sent { slot: 0, dims: frame_dims(c.frame), proxy: None, keep_original: false },
            ..finish(c, None, None)
        },
        _ => finish(c, None, None),
    }
}

fn slot_end(c: PresentCall, generation: u64, current: bool, first: Effect) -> (n: Next)
    ensures
        n == slot_end_next(c, generation, current, first),
{
    proof {
        reveal(slot_end_next);
    }
    let publish: bool = c.l.have_answer && current && c.frame.format.eight_bit;
    let second: Effect = if publish {
        Effect::PublishAnswer { raster: c.l.answer }
    } else {
        Effect::Nothing
    };
    let shown: u64 = if publish {
        next_generation(generation)
    } else {
        generation
    };
    if c.l.slot == 0 {
        Next { first, second, ..slot_start(c, 1) }
    } else {
        Next { first, second, ..go(c, Phase::FinalHolds, Action::QueryHolds { generation: shown }) }
    }
}

fn slot(c: PresentCall, f: StateFacts, e: Event) -> (n: Next)
    ensures
        n == slot_next(c, f, e),
{
    proof {
        reveal(slot_next);
    }
    let slot: usize = c.l.slot;
    let current: bool = slot_dims(f, slot) == Some(frame_dims(c.frame));
    let stored: Effect = stored(e);
    match (c.phase, e) {
        (Phase::SlotPending, Event::Flag(true)) => go(c, Phase::SlotPoll, Action::Poll { slot }),
        (Phase::SlotPending, Event::Flag(false)) => go(c, Phase::SlotFree, Action::QueryPending { slot }),
        (Phase::SlotPoll, Event::Polled(Some(true))) => {
            let answer = match slot_proxy(f, slot) {
                Some(raster) => raster,
                None => Raster { width: c.frame.width, height: c.frame.height },
            };
            go(
                PresentCall { l: Locals { answer, ..c.l }, ..c },
                Phase::SlotRead,
                Action::ReadAnswer {
                    slot,
                    bytes: raster_bytes(answer.width, answer.height, c.frame.format.bytes_per_pixel),
                },
            )
        },
        (Phase::SlotPoll, Event::Polled(_)) => go(c, Phase::SlotFree, Action::QueryPending { slot }),
        (Phase::SlotRead, Event::AnswerRead) => Next {
            first: Effect::TakeAnswer { slot },
            ..go(
                PresentCall { l: Locals { have_answer: true, ..c.l }, ..c },
                Phase::SlotFree,
                Action::QueryPending { slot },
            )
        },
        (Phase::SlotFree, Event::Flag(false)) => request(
            c,
            slot,
            model_request(c),
            None,
            None,
            Phase::SlotCapture,
        ),
        (Phase::SlotFree, Event::Flag(true)) => slot_end(c, f.generation, current, Effect::Nothing),
        (Phase::SlotCapture, Event::Captured { step: CaptureStep::Captured { sent, .. }, .. }) => Next {
            first: stored,
            ..go(PresentCall { l: Locals { sent, ..c.l }, ..c }, Phase::SlotGuard, Action::GuardAnswerRegion)
        },
        (Phase::SlotCapture, Event::Captured { .. }) => slot_end(c, f.generation, current, stored),
        (Phase::SlotGuard, Event::Flag(true)) => go(c, Phase::SlotBegin, Action::Begin { slot }),
        (Phase::SlotGuard, Event::Flag(false)) => slot_end(c, f.generation, current, Effect::Nothing),
        (Phase::SlotBegin, Event::Flag(true)) => slot_end(
            c,
            f.generation,
            true,
            Effect::Sent {
                slot,
                dims: frame_dims(c.frame),
                proxy: proxy_raster(c.frame, c.l.sent),
                keep_original: true,
            },
        ),
        (Phase::SlotBegin, Event::Flag(false)) => slot_end(c, f.generation, current, Effect::Nothing),
        _ => finish(c, None, None),
    }
}

fn capture_start(c: PresentCall, held: Option<HeldFacts>, target: Option<u64>, now: u64) -> (n: Next)
    ensures
        n == capture_start_next(c, held, target, now),
{
    proof {
        reveal(capture_start_next);
    }
    let begun = PresentCall { l: Locals { target, started: now, ..c.l }, ..c };
    match held {
        Some(h) => Next {
            first: Effect::LoadHeld,
            ..go(
                PresentCall { l: Locals { sent: h.sent, gpu_original: false, holding: true, ..begun.l }, ..begun },
                Phase::HeldSend,
                Action::SendHeld { slot: 0, sent: h.sent },
            )
        },
        None => Next {
            first: Effect::DropHeld,
            ..request(
                PresentCall { l: Locals { holding: false, ..begun.l }, ..begun },
                0,
                model_request(c),
                target,
                Some(now),
                Phase::SyncCapture,
            )
        },
    }
}

fn leftover(c: PresentCall, f: StateFacts, slot: usize, now: u64) -> (n: Next)
    ensures
        n == leftover_next(c, f, slot, now),
{
    proof {
        reveal(leftover_next);
    }
    if slot < 2 {
        go(
            PresentCall { l: Locals { slot, ..c.l }, ..c },
            Phase::LeftPending,
            Action::QueryPending { slot },
        )
    } else {
        let zero_copy: Option<SharedRegion> = if !c.l.settings.hold_frame && c.frame.format.eight_bit
            && c.frame.zero_copy_allowed {
            c.l.answer_import
        } else {
            None
        };
        match zero_copy {
            Some(region) => go(
                c,
                Phase::ZeroCopy,
                Action::PrepareZeroCopy { address: region.address, import_bytes: region.capacity, bytes: c.l.bytes },
            ),
            None => capture_start(c, held_frame(c, f), None, now),
        }
    }
}

fn captured(c: PresentCall, f: StateFacts, first: Effect) -> (n: Next)
    ensures
        n == captured_next(c, f, first),
{
    let hold: bool = c.l.settings.hold_frame && !c.l.holding;
    let second: Effect = if hold {
        Effect::Hold {
            width: c.frame.width,
            height: c.frame.height,
            sent: c.l.sent,
            whole: c.l.use_direct && c.l.sent.width == c.frame.width && c.l.sent.height == c.frame.height,
        }
    } else {
        Effect::Nothing
    };
    if c.l.holding {
        Next { first, second, ..go(c, Phase::SyncGuard, Action::GuardAnswerRegion) }
    } else if f.meter_frame % 8 == 0 {
        Next {
            first,
            second,
            third: Effect::CountMeter,
            ..go(c, Phase::Metering, Action::Meter { region: is_zero_copy(c) })
        }
    } else {
        Next {
            first,
            second,
            third: Effect::CountMeter,
            ..go(c, Phase::SyncGuard, Action::GuardAnswerRegion)
        }
    }
}

fn answered(c: PresentCall, f: StateFacts, first: Effect) -> (n: Next)
    ensures
        n == answered_next(c, f, first),
{
    let bytes: u64 = raster_bytes(c.l.sent.width, c.l.sent.height, c.frame.format.bytes_per_pixel);
    let whole: bool = c.l.sent.width == c.frame.width && c.l.sent.height == c.frame.height;
    Next {
        first,
        second: Effect::NewAnswer { raster: c.l.sent },
        ..go(
            PresentCall {
                l: Locals {
                    small_proxy: !whole && f.model_scratch_len >= bytes,
                    held_original: c.l.settings.hold_frame,
                    fresh_on_gpu: is_zero_copy(c),
                    ..c.l
                },
                ..c
            },
            Phase::FinalHolds,
            Action::QueryHolds { generation: next_generation(f.generation) },
        )
    }
}

fn sync(c: PresentCall, f: StateFacts, e: Event, now: u64) -> (n: Next)
    ensures
        n == sync_next(c, f, e, now),
{
    proof {
        reveal(sync_next);
    }
    let stored: Effect = stored(e);
    match (c.phase, e) {
        (Phase::Holds, Event::Flag(holds)) => if carries(c, f, holds) {
            let bytes: u64 = raster_bytes(
                f.last_answer_size.width,
                f.last_answer_size.height,
                c.frame.format.bytes_per_pixel,
            );
            let whole: bool = f.last_answer_size.width == c.frame.width && f.last_answer_size.height == c.frame.height;
            go(
                PresentCall {
                    l: Locals { carried: true, small_proxy: !whole && f.model_scratch_len >= bytes, ..c.l },
                    ..c
                },
                Phase::FinalHolds,
                Action::QueryHolds { generation: f.generation },
            )
        } else {
            go(c, Phase::Alive, Action::QueryHelper)
        },
        (Phase::Alive, Event::Flag(true)) => leftover(
            PresentCall { l: Locals { deadline: deadline_after(now), ..c.l }, ..c },
            f,
            0,
            now,
        ),
        (Phase::LeftPending, Event::Flag(true)) => go(c, Phase::LeftPoll, Action::Poll { slot: c.l.slot }),
        (Phase::LeftPending, Event::Flag(false)) => leftover(c, f, next_slot(c.l.slot), now),
        (Phase::LeftPoll, Event::Polled(answer)) => if answer == Some(false) && c.l.slot == 0 {
            finish(c, None, Some(false))
        } else {
            leftover(c, f, next_slot(c.l.slot), now)
        },
        (Phase::ZeroCopy, Event::Target(target)) => capture_start(c, held_frame(c, f), target, now),
        (Phase::HeldSend, Event::Done) => captured(c, f, Effect::Nothing),
        (Phase::SyncCapture, Event::Captured { step: CaptureStep::Captured { sent, gpu_original, .. }, .. }) => captured(
            PresentCall { l: Locals { sent, gpu_original, ..c.l }, ..c },
            f,
            stored,
        ),
        (Phase::SyncCapture, Event::Captured { step: CaptureStep::Pending, .. }) => if now < c.l.deadline {
            Next { first: stored, ..go(c, Phase::SyncSleep, Action::Sleep) }
        } else {
            Next { first: stored, ..finish(c, None, Some(false)) }
        },
        (Phase::SyncCapture, Event::Captured { .. }) => Next { first: stored, ..finish(c, None, Some(false)) },
        (Phase::SyncSleep, Event::Done) => request(
            c,
            0,
            model_request(c),
            c.l.target,
            Some(c.l.started),
            Phase::SyncCapture,
        ),
        (Phase::Metering, Event::Done) => go(c, Phase::SyncGuard, Action::GuardAnswerRegion),
        (Phase::SyncGuard, Event::Flag(true)) => go(c, Phase::SyncBegin, Action::Begin { slot: 0 }),
        (Phase::SyncBegin, Event::Flag(true)) => Next {
            first: Effect::Sent {
                slot: 0,
                dims: frame_dims(c.frame),
                proxy: proxy_raster(c.frame, c.l.sent),
                keep_original: false,
            },
            ..go(c, Phase::SyncPoll, Action::Poll { slot: 0 })
        },
        (Phase::SyncPoll, Event::Polled(Some(true))) => go(c, Phase::SyncAnswered, Action::QueryAnswered),
        (Phase::SyncPoll, Event::Polled(Some(false))) => if now < c.l.deadline {
            go(c, Phase::SyncWait, Action::Sleep)
        } else {
            finish(c, None, Some(false))
        },
        (Phase::SyncWait, Event::Done) => go(c, Phase::SyncPoll, Action::Poll { slot: 0 }),
        (Phase::SyncAnswered, Event::Size(echoed)) => if mismatched(echoed, c.l.sent) {
            finish(c, None, Some(false))
        } else if !c.frame.format.eight_bit {
            finish(c, None, None)
        } else if is_zero_copy(c) {
            answered(c, f, Effect::ClearAnswer)
        } else {
            go(
                c,
                Phase::SyncRead,
                Action::ReadAnswer {
                    slot: 0,
                    bytes: raster_bytes(c.l.sent.width, c.l.sent.height, c.frame.format.bytes_per_pixel),
                },
            )
        },
        (Phase::SyncRead, Event::AnswerRead) => answered(c, f, Effect::TakeSyncAnswer),
        _ => finish(c, None, Some(false)),
    }
}

fn compose(c: PresentCall, f: StateFacts, e: Event) -> (n: Next)
    ensures
        n == compose_next(c, f, e),
{
    proof {
        reveal(compose_next);
    }
    match (c.phase, e) {
        (Phase::FinalHolds, Event::Flag(holds)) => {
            let on_gpu: bool = c.l.fresh_on_gpu || holds;
            if f.last_answer_empty && !on_gpu {
                finish(c, None, None)
            } else {
                go(
                    c,
                    Phase::Composing,
                    Action::Compose(
                        ComposeRequest {
                            size: f.last_answer_size,
                            generation: f.generation,
                            on_gpu,
                            fresh: c.l.fresh_on_gpu,
                            small_proxy: c.l.small_proxy,
                            held_original: c.l.held_original,
                            ghost_guard: if c.frame.pipelined || c.l.carried {
                                c.l.settings.ghost_guard
                            } else {
                                0
                            },
                        },
                    ),
                )
            }
        },
        (Phase::Composing, Event::Composed(Some(semaphore))) => finish(c, Some(semaphore), Some(true)),
        (Phase::Composing, Event::Composed(None)) => go(c, Phase::WritingBack, Action::WriteBack),
        (Phase::WritingBack, Event::Flag(true)) => finish(c, None, Some(true)),
        _ => finish(c, None, None),
    }
}

fn decide(c: PresentCall, f: StateFacts, e: Event, now: u64) -> (n: Next)
    ensures
        n == decide_next(c, f, e, now),
{
    match (c.phase, e) {
        (Phase::Starting, Event::Facts(facts)) => start(c, f, facts),
        (Phase::Dropping, Event::Done) => gate(c, f),
        (Phase::DumpGuard, Event::Flag(true)) => go(c, Phase::Dumping, Action::RunSync),
        _ => match c.phase {
            Phase::BootPending | Phase::BootPoll | Phase::BootCapture | Phase::BootGuard | Phase::BootBegin => boot(
                c,
                f,
                e,
            ),
            Phase::SlotPending | Phase::SlotPoll | Phase::SlotRead | Phase::SlotFree | Phase::SlotCapture
            | Phase::SlotGuard | Phase::SlotBegin => slot(c, f, e),
            Phase::FinalHolds | Phase::Composing | Phase::WritingBack => compose(c, f, e),
            Phase::Starting | Phase::Dropping | Phase::DumpGuard | Phase::Dumping | Phase::Finished => finish(
                c,
                None,
                None,
            ),
            _ => sync(c, f, e, now),
        },
    }
}

/// A slot of the state.
pub open spec fn slot_of(v: PresentView, slot: usize) -> InflightView {
    if slot == 0 {
        v.slot0
    } else {
        v.slot1
    }
}

pub open spec fn with_slot(v: PresentView, slot: usize, s: InflightView) -> PresentView {
    if slot == 0 {
        PresentView { slot0: s, ..v }
    } else {
        PresentView { slot1: s, ..v }
    }
}

/// The state after an effect, `bytes` and `more` being what came with the event.
pub open spec fn effected(v: PresentView, e: Effect, bytes: Seq<u8>, more: Seq<u8>) -> PresentView {
    match e {
        Effect::Nothing => v,
        Effect::StoreCapture { original, model } => PresentView {
            original_scratch: if original {
                bytes
            } else {
                v.original_scratch
            },
            model_scratch: if model {
                more
            } else {
                v.model_scratch
            },
            ..v
        },
        Effect::ClearOriginal => PresentView { original_scratch: Seq::empty(), ..v },
        Effect::CompleteBootstrap => PresentView { bootstrap_complete: true, ..v },
        Effect::Sent { slot, dims, proxy, keep_original } => {
            let s = slot_of(v, slot);
            let sent = InflightView {
                original: if keep_original {
                    v.original_scratch
                } else {
                    s.original
                },
                dims: Some(dims),
                proxy_dims: proxy,
                ..s
            };
            PresentView {
                original_scratch: if keep_original {
                    s.original
                } else {
                    v.original_scratch
                },
                ..with_slot(v, slot, sent)
            }
        },
        Effect::TakeAnswer { slot } => PresentView {
            answer_scratch: bytes,
            raw_answer_base: slot_of(v, slot).original,
            ..v
        },
        Effect::PublishAnswer { raster } => PresentView {
            last_answer: v.answer_scratch,
            last_answer_size: raster,
            raw_answer_generation: spec_next_generation(v.raw_answer_generation),
            ..v
        },
        Effect::CountPresent => PresentView {
            slot0: InflightView {
                presents: if v.slot0.presents == u64::MAX {
                    0
                } else {
                    (v.slot0.presents + 1) as u64
                },
                ..v.slot0
            },
            ..v
        },
        Effect::LoadHeld => match v.held {
            Some(h) => PresentView { original_scratch: h.original, model_scratch: h.proxy, ..v },
            None => v,
        },
        Effect::DropHeld => PresentView { held: None, ..v },
        Effect::Hold { width, height, sent, whole } => PresentView {
            held: Some(
                HeldView {
                    width,
                    height,
                    original: v.original_scratch,
                    proxy: if whole {
                        v.original_scratch
                    } else {
                        v.model_scratch
                    },
                    sent,
                },
            ),
            ..v
        },
        Effect::CountMeter => PresentView {
            meter_frame: if v.meter_frame == u32::MAX {
                0
            } else {
                (v.meter_frame + 1) as u32
            },
            ..v
        },
        Effect::ClearAnswer => PresentView { last_answer: Seq::empty(), ..v },
        Effect::TakeSyncAnswer => PresentView {
            last_answer: bytes,
            raw_answer_base: v.original_scratch,
            original_scratch: v.raw_answer_base,
            ..v
        },
        Effect::NewAnswer { raster } => PresentView {
            last_answer_size: raster,
            raw_answer_generation: spec_next_generation(v.raw_answer_generation),
            ..v
        },
    }
}

fn copy_of(bytes: &Vec<u8>) -> (copy: Vec<u8>)
    ensures
        copy@ == bytes@,
{
    let mut copy: Vec<u8> = Vec::new();
    copy.extend_from_slice(bytes.as_slice());
    assert(copy@ =~= bytes@);
    copy
}

impl PresentState {
    /// The state of a device that has not presented.
    pub fn new() -> (s: PresentState)
        ensures
            s@ == (PresentView {
                original_scratch: Seq::empty(),
                model_scratch: Seq::empty(),
                slot0: InflightView { original: Seq::empty(), presents: 0, dims: None, proxy_dims: None },
                slot1: InflightView { original: Seq::empty(), presents: 0, dims: None, proxy_dims: None },
                bootstrap_complete: false,
                answer_scratch: Seq::empty(),
                raw_answer_base: Seq::empty(),
                raw_answer_generation: 0,
                last_answer: Seq::empty(),
                last_answer_size: Raster { width: 0, height: 0 },
                held: None,
                meter_frame: 0,
            }),
    {
        PresentState {
            original_scratch: Vec::new(),
            model_scratch: Vec::new(),
            slot0: Inflight { original: Vec::new(), presents: 0, dims: None, proxy_dims: None },
            slot1: Inflight { original: Vec::new(), presents: 0, dims: None, proxy_dims: None },
            bootstrap_complete: false,
            answer_scratch: Vec::new(),
            raw_answer_base: Vec::new(),
            raw_answer_generation: 0,
            last_answer: Vec::new(),
            last_answer_size: Raster { width: 0, height: 0 },
            held: None,
            meter_frame: 0,
        }
    }

    fn facts(&self, external_memory_host: bool) -> (f: StateFacts)
        ensures
            f == facts_of(self@, external_memory_host),
    {
        StateFacts {
            external_memory_host,
            bootstrap_complete: self.bootstrap_complete,
            dims0: self.slot0.dims,
            dims1: self.slot1.dims,
            proxy0: self.slot0.proxy_dims,
            proxy1: self.slot1.proxy_dims,
            presents: self.slot0.presents,
            generation: self.raw_answer_generation,
            last_answer_empty: self.last_answer.len() == 0,
            last_answer_size: self.last_answer_size,
            model_scratch_len: self.model_scratch.len() as u64,
            held: match &self.held {
                Some(h) => Some(HeldFacts { width: h.width, height: h.height, sent: h.sent }),
                None => None,
            },
            meter_frame: self.meter_frame,
        }
    }

    fn sent(&mut self, slot: usize, dims: FrameDims, proxy: Option<Raster>, keep_original: bool)
        ensures
            final(self)@ == effected(
                old(self)@,
                Effect::Sent { slot, dims, proxy, keep_original },
                Seq::empty(),
                Seq::empty(),
            ),
    {
        if slot == 0 {
            if keep_original {
                std::mem::swap(&mut self.slot0.original, &mut self.original_scratch);
            }
            self.slot0.dims = Some(dims);
            self.slot0.proxy_dims = proxy;
        } else {
            if keep_original {
                std::mem::swap(&mut self.slot1.original, &mut self.original_scratch);
            }
            self.slot1.dims = Some(dims);
            self.slot1.proxy_dims = proxy;
        }
    }

    fn apply(&mut self, e: Effect, bytes: &Vec<u8>, more: &Vec<u8>)
        ensures
            final(self)@ == effected(old(self)@, e, bytes@, more@),
    {
        match e {
            Effect::Nothing => {},
            Effect::StoreCapture { original, model } => {
                if original {
                    self.original_scratch = copy_of(bytes);
                }
                if model {
                    self.model_scratch = copy_of(more);
                }
            },
            Effect::ClearOriginal => {
                self.original_scratch.clear();
            },
            Effect::CompleteBootstrap => {
                self.bootstrap_complete = true;
            },
            Effect::Sent { slot, dims, proxy, keep_original } => {
                self.sent(slot, dims, proxy, keep_original);
            },
            Effect::TakeAnswer { slot } => {
                self.answer_scratch = copy_of(bytes);
                if slot == 0 {
                    self.raw_answer_base = copy_of(&self.slot0.original);
                } else {
                    self.raw_answer_base = copy_of(&self.slot1.original);
                }
            },
            Effect::PublishAnswer { raster } => {
                self.last_answer = copy_of(&self.answer_scratch);
                self.last_answer_size = raster;
                self.raw_answer_generation = next_generation(self.raw_answer_generation);
            },
            Effect::CountPresent => {
                self.slot0.presents = if self.slot0.presents == u64::MAX {
                    0
                } else {
                    self.slot0.presents + 1
                };
            },
            Effect::LoadHeld => match &self.held {
                Some(h) => {
                    self.original_scratch = copy_of(&h.original);
                    self.model_scratch = copy_of(&h.proxy);
                },
                None => {},
            },
            Effect::DropHeld => {
                self.held = None;
            },
            Effect::Hold { width, height, sent, whole } => {
                let proxy: Vec<u8> = if whole {
                    copy_of(&self.original_scratch)
                } else {
                    copy_of(&self.model_scratch)
                };
                self.held = Some(
                    HeldFrame { width, height, original: copy_of(&self.original_scratch), proxy, sent },
                );
            },
            Effect::CountMeter => {
                self.meter_frame = if self.meter_frame == u32::MAX {
                    0
                } else {
                    self.meter_frame + 1
                };
            },
            Effect::ClearAnswer => {
                self.last_answer.clear();
            },
            Effect::TakeSyncAnswer => {
                self.last_answer = copy_of(bytes);
                std::mem::swap(&mut self.raw_answer_base, &mut self.original_scratch);
            },
            Effect::NewAnswer { raster } => {
                self.last_answer_size = raster;
                self.raw_answer_generation = next_generation(self.raw_answer_generation);
            },
        }
    }
}

/// The state after a step.
pub open spec fn state_after(v: PresentView, n: Next, bytes: Seq<u8>, more: Seq<u8>) -> PresentView {
    effected(effected(effected(v, n.first, bytes, more), n.second, bytes, more), n.third, bytes, more)
}

/// What a present knows before it begins: nothing.
pub open spec fn nothing_known() -> Locals {
    let none = Raster { width: 0, height: 0 };
    Locals {
        settings: Settings {
            apply_model: false,
            neural_enabled: false,
            hold_frame: false,
            model_interval: 0,
            ghost_guard: 0,
        },
        facts: ChannelFacts {
            settings: None,
            capture_requested: false,
            model_unavailable: false,
            proxy0: None,
            proxy1: None,
            answer: None,
            alignment: None,
            pixel_limit: 0,
            scaled: None,
        },
        bytes: 0,
        use_direct: false,
        raster: none,
        answer_import: None,
        slot: 0,
        have_answer: false,
        answer: none,
        carried: false,
        deadline: 0,
        started: 0,
        target: None,
        sent: none,
        gpu_original: false,
        holding: false,
        small_proxy: false,
        held_original: false,
        fresh_on_gpu: false,
    }
}

impl PresentCall {
    /// A present that begins.
    pub fn new(frame: Frame) -> (c: PresentCall)
        ensures
            c == (PresentCall { frame, phase: Phase::Starting, l: nothing_known() }),
    {
        let none = Raster { width: 0, height: 0 };
        PresentCall {
            frame,
            phase: Phase::Starting,
            l: Locals {
                settings: Settings {
                    apply_model: false,
                    neural_enabled: false,
                    hold_frame: false,
                    model_interval: 0,
                    ghost_guard: 0,
                },
                facts: ChannelFacts {
                    settings: None,
                    capture_requested: false,
                    model_unavailable: false,
                    proxy0: None,
                    proxy1: None,
                    answer: None,
                    alignment: None,
                    pixel_limit: 0,
                    scaled: None,
                },
                bytes: 0,
                use_direct: false,
                raster: none,
                answer_import: None,
                slot: 0,
                have_answer: false,
                answer: none,
                carried: false,
                deadline: 0,
                started: 0,
                target: None,
                sent: none,
                gpu_original: false,
                holding: false,
                small_proxy: false,
                held_original: false,
                fresh_on_gpu: false,
            },
        }
    }

    /// Takes what came of the last action at the time `now`, with the bytes that came with it
    /// (of a capture, the frame's and its scaled copy's; of an answer, the answer's), and says what
    /// to do next.
    pub fn advance(
        &mut self,
        state: &mut PresentState,
        flags: &CaptureFlags,
        event: Event,
        bytes: &Vec<u8>,
        more: &Vec<u8>,
        now: u64,
    ) -> (action: Action)
        ensures
            ({
                let next = decide_next(
                    *old(self),
                    facts_of(old(state)@, flags.external_memory_host),
                    event,
                    now,
                );
                &&& *final(self) == next.call
                &&& action == next.action
                &&& final(state)@ == state_after(old(state)@, next, bytes@, more@)
            }),
    {
        let f: StateFacts = state.facts(flags.external_memory_host);
        let next: Next = decide(*self, f, event, now);
        state.apply(next.first, bytes, more);
        state.apply(next.second, bytes, more);
        state.apply(next.third, bytes, more);
        *self = next.call;
        next.action
    }
}

/// How far a present is from its end.
pub open spec fn distance(c: PresentCall) -> nat {
    let first: nat = if c.l.slot == 0 {
        8
    } else {
        0
    };
    match c.phase {
        Phase::Finished => 0,
        Phase::WritingBack => 1,
        Phase::Composing => 2,
        Phase::FinalHolds => 3,
        Phase::SyncRead => 4,
        Phase::SyncAnswered => 5,
        Phase::SyncPoll | Phase::SyncWait => 6,
        Phase::SyncBegin => 7,
        Phase::SyncGuard => 8,
        Phase::Metering => 9,
        Phase::SyncCapture | Phase::SyncSleep | Phase::HeldSend => 10,
        Phase::ZeroCopy => 11,
        Phase::LeftPoll => 12 + first,
        Phase::LeftPending => 13 + first,
        Phase::Alive => 22,
        Phase::Holds => 23,
        Phase::SlotBegin => 4 + first,
        Phase::SlotGuard => 5 + first,
        Phase::SlotCapture => 6 + first,
        Phase::SlotFree => 7 + first,
        Phase::SlotRead => 8 + first,
        Phase::SlotPoll => 9 + first,
        Phase::SlotPending => 10 + first,
        Phase::BootBegin => 1,
        Phase::BootGuard => 2,
        Phase::BootCapture | Phase::BootPoll => 3,
        Phase::BootPending => 4,
        Phase::Dumping => 1,
        Phase::DumpGuard => 2,
        Phase::Dropping => 24,
        Phase::Starting => 25,
    }
}

/// The phases of the bootstrap.
pub open spec fn bootstrapping(p: Phase) -> bool {
    p == Phase::BootPending || p == Phase::BootPoll || p == Phase::BootCapture || p == Phase::BootGuard || p
        == Phase::BootBegin
}

/// The phases in which an answer is composed.
pub open spec fn composing(p: Phase) -> bool {
    p == Phase::FinalHolds || p == Phase::Composing || p == Phase::WritingBack
}

/// The phases of a slot's turn in the pipelined present.
pub open spec fn taking_turns(p: Phase) -> bool {
    p == Phase::SlotPending || p == Phase::SlotPoll || p == Phase::SlotRead || p == Phase::SlotFree || p
        == Phase::SlotCapture || p == Phase::SlotGuard || p == Phase::SlotBegin
}

/// Whether an action changes the presented image.
pub open spec fn touches_the_image(a: Action) -> bool {
    a is Compose || a is WriteBack || a is RunSync
}

/// A step only sleeps while a capture or an answer is awaited, and before the deadline, which only the
/// finding that the helper is alive sets.
pub open spec fn waits_lawfully(c: PresentCall, e: Event, now: u64, n: Next) -> bool {
    &&& n.action == Action::Sleep ==> (c.phase == Phase::SyncCapture || c.phase == Phase::SyncPoll) && now
        < c.l.deadline
    &&& c.phase != Phase::Alive ==> n.call.l.deadline == c.l.deadline
    &&& c.phase == Phase::Alive && e == Event::Flag(true) ==> n.call.l.deadline == spec_deadline_after(now)
}

/// A step brings the present closer to its end, or sleeps, or tries again after a sleep.
pub open spec fn moves_on(c: PresentCall, n: Next) -> bool {
    &&& distance(n.call) < distance(c) || (distance(n.call) == distance(c) && (n.action == Action::Sleep || c.phase
        == Phase::SyncSleep || c.phase == Phase::SyncWait))
    &&& n.call.phase == Phase::Finished <==> n.action is Finish
    &&& n.call.frame == c.frame
}

/// The bootstrap leads to nothing but its own end, and never touches the image.
pub open spec fn bootstraps_lawfully(c: PresentCall, n: Next) -> bool {
    bootstrapping(c.phase) ==> {
        &&& bootstrapping(n.call.phase) || n.call.phase == Phase::Finished
        &&& !touches_the_image(n.action) && !(n.action is ReadAnswer)
        &&& n.action matches Action::Finish { semaphore, timing } ==> semaphore is None
    }
}

/// A step composes only an answer that there is, in the phases for it.
pub open spec fn composes_lawfully(c: PresentCall, f: StateFacts, e: Event, n: Next) -> bool {
    &&& n.action is Compose ==> c.phase == Phase::FinalHolds && (!f.last_answer_empty || c.l.fresh_on_gpu || e
        == Event::Flag(true))
    &&& n.action is WriteBack ==> c.phase == Phase::Composing && e == Event::Composed(None)
    &&& n.action is RunSync ==> c.phase == Phase::DumpGuard && n.call.phase == Phase::Dumping
    &&& n.call.phase == Phase::FinalHolds ==> (c.phase == Phase::Holds && (e matches Event::Flag(holds)
        && spec_carries(c, f, holds))) || c.phase == Phase::SyncRead || c.phase == Phase::SyncAnswered || (c.l.slot != 0
        && taking_turns(c.phase))
    &&& composing(c.phase) ==> {
        &&& composing(n.call.phase) || n.call.phase == Phase::Finished
        &&& !(n.action is Capture) && !(n.action is Begin)
        &&& n.first == Effect::Nothing && n.second == Effect::Nothing && n.third == Effect::Nothing
    }
}

/// A step asks for a capture of the presented frame only, and in the synchronous present for one
/// submitted since the capture began.
pub open spec fn captures_lawfully(c: PresentCall, now: u64, n: Next) -> bool {
    n.action matches Action::Capture { slot, request } ==> {
        &&& request.width == c.frame.width
        &&& request.height == c.frame.height
        &&& request.format == c.frame.format.code
        &&& n.call.phase == Phase::BootCapture || n.call.phase == Phase::SlotCapture || n.call.phase == Phase::SyncCapture
        &&& n.call.phase == Phase::SyncCapture ==> request.submitted_after == Some(n.call.l.started) && slot == 0
        &&& n.call.phase == Phase::SyncCapture && c.phase != Phase::SyncSleep ==> n.call.l.started == now
    }
}

/// A step hands a frame over only after a capture, and captures for a slot only when nothing is
/// outstanding there.
pub open spec fn sends_lawfully(c: PresentCall, e: Event, n: Next) -> bool {
    &&& n.action matches Action::Begin { slot } ==> e == Event::Flag(true) && (c.phase == Phase::BootGuard && slot == 0
        || c.phase == Phase::SlotGuard && slot == c.l.slot || c.phase == Phase::SyncGuard && slot == 0)
    &&& n.call.phase == Phase::BootGuard ==> c.phase == Phase::BootCapture
    &&& n.call.phase == Phase::BootCapture ==> c.phase == Phase::BootPending && e == Event::Flag(false)
    &&& n.call.phase == Phase::SlotGuard ==> c.phase == Phase::SlotCapture && n.call.l.slot == c.l.slot
    &&& n.call.phase == Phase::SlotCapture ==> c.phase == Phase::SlotFree && e == Event::Flag(false) && n.call.l.slot
        == c.l.slot
    &&& n.call.phase == Phase::SyncGuard ==> c.phase == Phase::SyncCapture || c.phase == Phase::HeldSend || c.phase
        == Phase::Metering
}

/// All that every step keeps to.
pub open spec fn lawful(c: PresentCall, f: StateFacts, e: Event, now: u64, n: Next) -> bool {
    &&& waits_lawfully(c, e, now, n)
    &&& moves_on(c, n)
    &&& bootstraps_lawfully(c, n)
    &&& composes_lawfully(c, f, e, n)
    &&& captures_lawfully(c, now, n)
    &&& sends_lawfully(c, e, n)
}

proof fn lemma_gate(c: PresentCall, f: StateFacts)
    ensures
        ({
            let n = gate_next(c, f);
            &&& n.call.frame == c.frame
            &&& n.call.l.deadline == c.l.deadline
            &&& (n.call.phase == Phase::Finished && n.action == (Action::Finish { semaphore: None, timing: None })) || ((
            n.call.phase == Phase::BootPending || n.call.phase == Phase::SlotPending) && n.action == (
            Action::QueryPending { slot: 0 }) && n.call.l.slot == 0) || (n.call.phase == Phase::Holds && n.action == (
            Action::QueryHolds { generation: f.generation }))
        }),
{
    reveal(gate_next);
}

proof fn lemma_opening_steps(c: PresentCall, f: StateFacts, e: Event, now: u64)
    requires
        c.phase == Phase::Starting || c.phase == Phase::Dropping || c.phase == Phase::DumpGuard || c.phase
            == Phase::Dumping,
    ensures
        lawful(c, f, e, now, decide_next(c, f, e, now)),
{
    lemma_gate(c, f);
    if let Event::Facts(facts) = e {
        if let Some(settings) = facts.settings {
            lemma_gate(PresentCall { l: Locals { settings, facts, ..c.l }, ..c }, f);
        }
    }
}

proof fn lemma_boot_steps(c: PresentCall, f: StateFacts, e: Event, now: u64)
    requires
        bootstrapping(c.phase),
    ensures
        lawful(c, f, e, now, decide_next(c, f, e, now)),
{
    reveal(boot_next);
}

proof fn lemma_compose_steps(c: PresentCall, f: StateFacts, e: Event, now: u64)
    requires
        composing(c.phase),
    ensures
        lawful(c, f, e, now, decide_next(c, f, e, now)),
{
    reveal(compose_next);
}

proof fn lemma_slot_end(c: PresentCall, generation: u64, current: bool, first: Effect)
    ensures
        ({
            let n = slot_end_next(c, generation, current, first);
            &&& n.call.frame == c.frame
            &&& n.call.l.deadline == c.l.deadline
            &&& c.l.slot == 0 ==> n.call.phase == Phase::SlotPending && n.call.l.slot == 1 && n.action == (
            Action::QueryPending { slot: 1 })
            &&& c.l.slot != 0 ==> n.call.phase == Phase::FinalHolds && n.action is QueryHolds
        }),
{
    reveal(slot_end_next);
}

proof fn lemma_slot_steps(c: PresentCall, f: StateFacts, e: Event, now: u64)
    requires
        taking_turns(c.phase),
    ensures
        lawful(c, f, e, now, decide_next(c, f, e, now)),
{
    reveal(slot_next);
    let current = spec_slot_dims(f, c.l.slot) == Some(spec_frame_dims(c.frame));
    lemma_slot_end(c, f.generation, current, Effect::Nothing);
    lemma_slot_end(c, f.generation, current, spec_stored(e));
    lemma_slot_end(
        c,
        f.generation,
        true,
        Effect::Sent {
            slot: c.l.slot,
            dims: spec_frame_dims(c.frame),
            proxy: spec_proxy_raster(c.frame, c.l.sent),
            keep_original: true,
        },
    );
}

proof fn lemma_capture_start(c: PresentCall, held: Option<HeldFacts>, target: Option<u64>, now: u64)
    ensures
        ({
            let n = capture_start_next(c, held, target, now);
            &&& n.call.frame == c.frame
            &&& n.call.l.deadline == c.l.deadline
            &&& n.call.l.started == now
            &&& held is Some ==> n.call.phase == Phase::HeldSend && n.action is SendHeld
            &&& held is None ==> n.call.phase == Phase::SyncCapture && (n.action matches Action::Capture { slot, request }
                && slot == 0 && request.width == c.frame.width && request.height == c.frame.height && request.format
                == c.frame.format.code && request.submitted_after == Some(now))
        }),
{
    reveal(capture_start_next);
}

proof fn lemma_leftover(c: PresentCall, f: StateFacts, slot: usize, now: u64)
    ensures
        ({
            let n = leftover_next(c, f, slot, now);
            &&& n.call.frame == c.frame
            &&& n.call.l.deadline == c.l.deadline
            &&& slot < 2 ==> n.call.phase == Phase::LeftPending && n.call.l.slot == slot && n.action == (
            Action::QueryPending { slot })
            &&& slot >= 2 ==> (n.call.phase == Phase::ZeroCopy && n.action is PrepareZeroCopy) || n
                == capture_start_next(c, spec_held_frame(c, f), None, now)
        }),
{
    reveal(leftover_next);
    lemma_capture_start(c, spec_held_frame(c, f), None, now);
}

proof fn lemma_alive_steps(c: PresentCall, f: StateFacts, e: Event, now: u64)
    requires
        c.phase == Phase::Holds || c.phase == Phase::Alive,
    ensures
        lawful(c, f, e, now, decide_next(c, f, e, now)),
{
    reveal(sync_next);
    lemma_leftover(
        PresentCall { l: Locals { deadline: spec_deadline_after(now), ..c.l }, ..c },
        f,
        0,
        now,
    );
}

proof fn lemma_leftover_steps(c: PresentCall, f: StateFacts, e: Event, now: u64)
    requires
        c.phase == Phase::LeftPending || c.phase == Phase::LeftPoll,
    ensures
        lawful(c, f, e, now, decide_next(c, f, e, now)),
{
    reveal(sync_next);
    lemma_leftover(c, f, spec_next_slot(c.l.slot), now);
    lemma_capture_start(c, spec_held_frame(c, f), None, now);
}

proof fn lemma_target_steps(c: PresentCall, f: StateFacts, e: Event, now: u64)
    requires
        c.phase == Phase::ZeroCopy,
    ensures
        lawful(c, f, e, now, decide_next(c, f, e, now)),
{
    reveal(sync_next);
    if let Event::Target(target) = e {
        lemma_capture_start(c, spec_held_frame(c, f), target, now);
    }
}

proof fn lemma_captured(c: PresentCall, f: StateFacts, first: Effect)
    ensures
        ({
            let n = captured_next(c, f, first);
            &&& n.call.frame == c.frame
            &&& n.call.l.deadline == c.l.deadline
            &&& (n.call.phase == Phase::SyncGuard && n.action is GuardAnswerRegion) || (n.call.phase == Phase::Metering
                && n.action is Meter)
        }),
{
}

proof fn lemma_answered(c: PresentCall, f: StateFacts, first: Effect)
    ensures
        ({
            let n = answered_next(c, f, first);
            &&& n.call.frame == c.frame
            &&& n.call.l.deadline == c.l.deadline
            &&& n.call.phase == Phase::FinalHolds && n.action is QueryHolds
        }),
{
}

proof fn lemma_capturing_steps(c: PresentCall, f: StateFacts, e: Event, now: u64)
    requires
        c.phase == Phase::HeldSend || c.phase == Phase::SyncCapture,
    ensures
        lawful(c, f, e, now, decide_next(c, f, e, now)),
{
    reveal(sync_next);
    lemma_captured(c, f, Effect::Nothing);
    if let Event::Captured { step: CaptureStep::Captured { sent, gpu_original, proxy }, original, model } = e {
        lemma_captured(PresentCall { l: Locals { sent, gpu_original, ..c.l }, ..c }, f, spec_stored(e));
    }
}

proof fn lemma_sending_steps(c: PresentCall, f: StateFacts, e: Event, now: u64)
    requires
        c.phase == Phase::SyncSleep || c.phase == Phase::Metering || c.phase == Phase::SyncGuard || c.phase
            == Phase::SyncBegin,
    ensures
        lawful(c, f, e, now, decide_next(c, f, e, now)),
{
    reveal(sync_next);
}

proof fn lemma_answer_steps(c: PresentCall, f: StateFacts, e: Event, now: u64)
    requires
        c.phase == Phase::SyncPoll || c.phase == Phase::SyncWait || c.phase == Phase::SyncAnswered || c.phase
            == Phase::SyncRead,
    ensures
        lawful(c, f, e, now, decide_next(c, f, e, now)),
{
    reveal(sync_next);
    lemma_answered(c, f, Effect::ClearAnswer);
    lemma_answered(c, f, Effect::TakeSyncAnswer);
}

proof fn lemma_lawful(c: PresentCall, f: StateFacts, e: Event, now: u64)
    requires
        c.phase != Phase::Finished,
    ensures
        lawful(c, f, e, now, decide_next(c, f, e, now)),
{
    if bootstrapping(c.phase) {
        lemma_boot_steps(c, f, e, now);
    } else if taking_turns(c.phase) {
        lemma_slot_steps(c, f, e, now);
    } else if composing(c.phase) {
        lemma_compose_steps(c, f, e, now);
    } else if c.phase == Phase::Starting || c.phase == Phase::Dropping || c.phase == Phase::DumpGuard || c.phase
        == Phase::Dumping {
        lemma_opening_steps(c, f, e, now);
    } else if c.phase == Phase::Holds || c.phase == Phase::Alive {
        lemma_alive_steps(c, f, e, now);
    } else if c.phase == Phase::LeftPending || c.phase == Phase::LeftPoll {
        lemma_leftover_steps(c, f, e, now);
    } else if c.phase == Phase::ZeroCopy {
        lemma_target_steps(c, f, e, now);
    } else if c.phase == Phase::HeldSend || c.phase == Phase::SyncCapture {
        lemma_capturing_steps(c, f, e, now);
    } else if c.phase == Phase::SyncSleep || c.phase == Phase::Metering || c.phase == Phase::SyncGuard || c.phase
        == Phase::SyncBegin {
        lemma_sending_steps(c, f, e, now);
    } else {
        lemma_answer_steps(c, f, e, now);
    }
}

/// Waiting is bounded: a present only sleeps before its deadline, which is set once, a budget after
/// the helper was found alive.
pub proof fn waiting_is_bounded(c: PresentCall, f: StateFacts, e: Event, now: u64)
    requires
        c.phase != Phase::Finished,
    ensures
        waits_lawfully(c, e, now, decide_next(c, f, e, now)),
{
    lemma_lawful(c, f, e, now);
}

/// A present ends: every step brings it closer to its end, but for the two that sleep and try again,
/// which the deadline bounds.
pub proof fn a_present_ends(c: PresentCall, f: StateFacts, e: Event, now: u64)
    requires
        c.phase != Phase::Finished,
    ensures
        moves_on(c, decide_next(c, f, e, now)),
{
    lemma_lawful(c, f, e, now);
}

/// While the pass is off the image goes out untouched: the one frame that is sent is never composed,
/// and once it was answered nothing is sent any more.
pub proof fn a_disabled_pass_leaves_the_image_alone(c: PresentCall, f: StateFacts, e: Event, now: u64)
    requires
        c.phase != Phase::Finished,
    ensures
        bootstraps_lawfully(c, decide_next(c, f, e, now)),
        !c.l.settings.apply_model || !c.l.settings.neural_enabled || c.l.facts.model_unavailable ==> {
            &&& gate_next(c, f).call.phase == Phase::BootPending || gate_next(c, f).call.phase == Phase::Finished
            &&& f.bootstrap_complete ==> gate_next(c, f).action == (Action::Finish { semaphore: None, timing: None })
        },
{
    lemma_lawful(c, f, e, now);
    reveal(gate_next);
}

/// Only an answer that there is is composed, and the frame is captured before it is composed: once a
/// present composes, it captures and sends nothing more, so what is captured is always the game's
/// own rendering.
pub proof fn only_answers_are_composed(c: PresentCall, f: StateFacts, e: Event, now: u64)
    requires
        c.phase != Phase::Finished,
    ensures
        composes_lawfully(c, f, e, decide_next(c, f, e, now)),
{
    lemma_lawful(c, f, e, now);
}

/// What is captured is the presented frame: every capture is asked for at its size and in its
/// format, and in the synchronous present only one submitted since the present began will do.
pub proof fn the_presented_frame_is_captured(c: PresentCall, f: StateFacts, e: Event, now: u64)
    requires
        c.phase != Phase::Finished,
    ensures
        captures_lawfully(c, now, decide_next(c, f, e, now)),
{
    lemma_lawful(c, f, e, now);
}

/// A slot carries one request at a time: a frame is only handed over after a capture, and in the
/// bootstrap and the pipelined present that capture only follows the finding that nothing is
/// outstanding on the slot.
pub proof fn a_slot_carries_one_request(c: PresentCall, f: StateFacts, e: Event, now: u64)
    requires
        c.phase != Phase::Finished,
    ensures
        sends_lawfully(c, e, decide_next(c, f, e, now)),
{
    lemma_lawful(c, f, e, now);
}

/// In the synchronous present only this frame's own answer is shown: an answer that the helper made
/// for another raster ends the present with the image untouched and the state as it was.
pub proof fn another_frames_answer_is_never_shown(c: PresentCall, f: StateFacts, now: u64, echoed: Raster)
    requires
        c.phase == Phase::SyncAnswered,
        echoed != c.l.sent,
    ensures
        decide_next(c, f, Event::Size(Some(echoed)), now) == finish_next(c, None, Some(false)),
{
    reveal(sync_next);
}

/// A present that carries the last answer asks the helper for nothing: it goes straight on to the
/// composition.
pub proof fn a_carried_present_asks_for_nothing(c: PresentCall, f: StateFacts, now: u64, holds: bool)
    requires
        c.phase == Phase::Holds,
        spec_carries(c, f, holds),
    ensures
        decide_next(c, f, Event::Flag(holds), now).call.phase == Phase::FinalHolds,
        decide_next(c, f, Event::Flag(holds), now).call.l.carried,
        decide_next(c, f, Event::Flag(holds), now).first == Effect::Nothing,
{
    reveal(sync_next);
}

/// The model runs on the first of every `model_interval` presents, whatever else holds.
pub proof fn the_model_runs_on_its_turn(c: PresentCall, f: StateFacts, holds: bool)
    requires
        c.l.settings.model_interval >= 1,
        before_this(f.presents) % (c.l.settings.model_interval as u64) == 0,
    ensures
        !spec_carries(c, f, holds),
{
}

/// A new answer has another identity than the one before it, and never that of no answer.
pub proof fn a_new_answer_has_another_generation(generation: u64)
    ensures
        spec_next_generation(generation) != generation,
        spec_next_generation(generation) != 0,
{
}

/// Without a live helper a present that carries nothing goes out at once.
pub proof fn a_missing_helper_costs_nothing(c: PresentCall, f: StateFacts, now: u64)
    requires
        c.phase == Phase::Alive,
    ensures
        decide_next(c, f, Event::Flag(false), now) == finish_next(c, None, Some(false)),
{
    reveal(sync_next);
}

/// Without settings a present does nothing at all.
pub proof fn a_closed_channel_leaves_everything_alone(c: PresentCall, f: StateFacts, facts: ChannelFacts, now: u64)
    requires
        c.phase == Phase::Starting,
        facts.settings is None,
    ensures
        decide_next(c, f, Event::Facts(facts), now) == finish_next(c, None, None),
{
}

/// A request for a dump that cannot be served is taken, and the present goes on as if it had not
/// been made: it never stops the pass.
pub proof fn an_unservable_dump_request_is_dropped(
    c: PresentCall,
    f: StateFacts,
    settings: Settings,
    facts: ChannelFacts,
    now: u64,
)
    requires
        c.phase == Phase::Starting,
        facts.settings == Some(settings),
        facts.capture_requested,
        !c.frame.same_image,
    ensures
        decide_next(c, f, Event::Facts(facts), now) == go_next(
            PresentCall { l: Locals { settings, facts, ..c.l }, ..c },
            Phase::Dropping,
            Action::TakeCaptureRequest,
        ),
        decide_next(
            PresentCall { phase: Phase::Dropping, l: Locals { settings, facts, ..c.l }, ..c },
            f,
            Event::Done,
            now,
        ) == gate_next(PresentCall { phase: Phase::Dropping, l: Locals { settings, facts, ..c.l }, ..c }, f),
{
}

/// A frame whose answer is late is never waited for again: a synchronous present that finds the request
/// of an earlier one still outstanding goes out at once.
pub proof fn a_late_request_is_never_waited_for(c: PresentCall, f: StateFacts, now: u64)
    requires
        c.phase == Phase::LeftPoll,
        c.l.slot == 0,
    ensures
        decide_next(c, f, Event::Polled(Some(false)), now) == finish_next(c, None, Some(false)),
{
    reveal(sync_next);
}

/// A pipelined answer is shown only where the slot's request was for a frame of the current size and
/// format, unless the slot's next frame is sent in the same step.
pub proof fn a_pipelined_answer_is_shown_at_its_size(c: PresentCall, f: StateFacts, e: Event, now: u64)
    requires
        taking_turns(c.phase),
        decide_next(c, f, e, now).second is PublishAnswer,
    ensures
        c.l.have_answer,
        c.frame.format.eight_bit,
        spec_slot_dims(f, c.l.slot) == Some(spec_frame_dims(c.frame)) || decide_next(c, f, e, now).first is Sent,
{
    reveal(slot_next);
    reveal(slot_end_next);
}

} // verus!
