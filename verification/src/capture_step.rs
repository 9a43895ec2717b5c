//! One attempt at getting the current frame captured.
//!
//! A capture is submitted in one present and picked up in a later one. Each attempt makes sure
//! that the capture's objects exist, looks whether the capture in flight has finished, and either
//! hands its bytes on or submits a new one. The outside work is done by the caller: [`advance`]
//! says what to do next, and takes back what came of it.

use crate::scaling::Raster;
use crate::recording::{CaptureRecording, EncodeDispatch, ModelTarget};
use vstd::prelude::*;

verus! {

/// A submitted capture whose fence has not been seen signalled. Nothing of its slot may be reset
/// or reused while there is one.
#[derive(Clone, Copy, Debug, PartialEq, Eq, Structural)]
pub struct PendingCapture {
    pub width: u32,
    pub height: u32,
    pub format: u32,
    /// The bytes of the whole frame.
    pub bytes: u64,
    /// The raster of the scaled copy, where the submission made one.
    pub model: Option<Raster>,
    /// The buffer that the submission copied the frame to as well.
    pub target: Option<u64>,
    /// When it was submitted.
    pub submitted: u64,
}

/// A capture slot.
#[derive(Clone, Copy, Debug, PartialEq, Eq, Structural)]
pub struct CaptureSlot {
    pub pending: Option<PendingCapture>,
}

/// What a fence says.
#[derive(Clone, Copy, Debug, PartialEq, Eq, Structural)]
pub enum FenceStatus {
    Signaled,
    Unsignaled,
    Error,
}

/// The model's scratch of a slot, as far as a download depends on it.
#[derive(Clone, Copy, Debug, PartialEq, Eq, Structural)]
pub struct ScratchSize {
    pub width: u32,
    pub height: u32,
    pub capacity: u64,
}

/// What is to be captured.
#[derive(Clone, Copy, Debug, PartialEq, Eq, Structural)]
pub struct CaptureRequest {
    /// Straight into the shared region, rather than through a capture buffer.
    pub direct: bool,
    pub width: u32,
    pub height: u32,
    pub format: u32,
    /// The bytes of the whole frame.
    pub bytes: u64,
    /// The raster to scale the frame to for the model, where it is to be.
    pub model: Option<Raster>,
    /// The buffer that a direct capture copies the frame to as well.
    pub target: Option<u64>,
    /// Only a capture submitted no earlier than this is of the current frame.
    pub submitted_after: Option<u64>,
}

/// Where the frame that the helper is to work on comes from.
#[derive(Clone, Copy, Debug, PartialEq, Eq, Structural)]
pub enum ProxySource {
    /// It is in the shared region already.
    Region,
    /// The bytes of the whole frame are to be written there.
    Original,
    /// The bytes of the scaled copy are to be written there.
    Model,
}

/// What an attempt achieved.
#[derive(Clone, Copy, Debug, PartialEq, Eq, Structural)]
pub enum CaptureStep {
    /// The frame is captured, and goes to the helper at the raster `sent`.
    Captured {
        sent: Raster,
        /// The frame's bytes are in the target buffer and were not copied out.
        gpu_original: bool,
        proxy: ProxySource,
    },
    /// A capture is in flight.
    Pending,
    /// Nothing is in flight that could finish.
    Failed,
}

/// Flags that outlive an attempt.
#[derive(Clone, Copy, Debug, PartialEq, Eq, Structural)]
pub struct CaptureFlags {
    /// Setting the capture up failed since this was last taken.
    pub setup_failed: bool,
    /// Host memory can be imported on this device.
    pub external_memory_host: bool,
}

/// Where an attempt stands.
#[derive(Clone, Copy, Debug, PartialEq, Eq, Structural)]
pub enum CapturePhase {
    Starting,
    Ensuring { capacity: u64 },
    Polling { capacity: u64 },
    Downloading { done: PendingCapture, model: Option<Raster> },
    CopyingOut,
    Submitting,
    Finished,
}

/// What the caller did.
#[derive(Clone, Copy, Debug, PartialEq, Eq, Structural)]
pub enum CaptureEvent {
    /// The attempt begins. `capacity` is that of the shared region, where there is one, and
    /// `alignment` what imported memory has to be aligned to, where that is known.
    Begin { capacity: Option<u64>, alignment: Option<u64> },
    /// The capture's objects exist, or could not be made.
    Ensured(bool),
    /// The fence of the capture in flight was asked, the slot's scratch being like this.
    Fence { status: FenceStatus, scratch: Option<ScratchSize> },
    /// The bytes were copied.
    Copied,
    /// A capture was submitted, with a scaled copy of this raster, or could not be.
    Submitted { ok: bool, model: Option<Raster>, now: u64 },
}

/// What to do next.
#[derive(Clone, Copy, Debug, PartialEq, Eq, Structural)]
pub enum CaptureAction {
    /// Make sure that the capture's objects exist and hold `bytes`.
    Ensure { bytes: u64 },
    /// Ask the fence of the capture in flight.
    QueryFence,
    /// Copy `bytes` of the finished capture out, and the scaled copy of this raster if there is
    /// one.
    Download { bytes: u64, model: Option<Raster> },
    /// Copy `bytes` out of the shared region.
    CopyOut { bytes: u64 },
    /// Submit a capture.
    Submit,
    /// The attempt is over.
    Finish(CaptureStep),
}

/// Whether a finished capture is one of the current frame.
pub open spec fn is_usable(r: CaptureRequest, p: PendingCapture) -> bool {
    &&& p.width == r.width
    &&& p.height == r.height
    &&& p.format == r.format
    &&& r.submitted_after matches Some(after) ==> p.submitted >= after
}

fn usable(r: CaptureRequest, p: PendingCapture) -> (u: bool)
    ensures
        u == is_usable(r, p),
{
    p.width == r.width && p.height == r.height && p.format == r.format && (match r.submitted_after {
        Some(after) => p.submitted >= after,
        None => true,
    })
}

/// `bytes` rounded up to a multiple of `alignment`.
pub open spec fn aligned(bytes: u64, alignment: u64) -> int {
    (bytes + alignment - 1) / (alignment as int) * alignment
}

/// The bytes of the shared region that are imported for a frame: the frame, rounded up to the
/// alignment, or the whole region where the alignment is unknown; never more than the region.
pub open spec fn import_size(bytes: u64, alignment: Option<u64>, capacity: u64) -> u64 {
    match alignment {
        Some(a) => if aligned(bytes, a) < capacity {
            aligned(bytes, a) as u64
        } else {
            capacity
        },
        None => capacity,
    }
}

proof fn lemma_aligned(bytes: u64, alignment: u64)
    requires
        alignment > 0,
    ensures
        bytes <= aligned(bytes, alignment) < bytes + alignment,
        aligned(bytes, alignment) % (alignment as int) == 0,
{
    let q = (bytes + alignment - 1) / (alignment as int);
    vstd::arithmetic::div_mod::lemma_fundamental_div_mod(bytes + alignment - 1, alignment as int);
    vstd::arithmetic::mul::lemma_mul_is_commutative(alignment as int, q);
    vstd::arithmetic::div_mod::lemma_mod_multiples_basic(q, alignment as int);
}

/// `bytes` rounded up to a multiple of `alignment`.
pub fn align_up_wide(bytes: u64, alignment: u64) -> (r: u128)
    requires
        alignment > 0,
    ensures
        r == aligned(bytes, alignment),
{
    proof {
        lemma_aligned(bytes, alignment);
    }
    (bytes as u128 + alignment as u128 - 1) / (alignment as u128) * (alignment as u128)
}

/// The bytes of the shared region to import for a frame.
pub fn import_bytes(bytes: u64, alignment: Option<u64>, capacity: u64) -> (size: u64)
    requires
        alignment matches Some(a) ==> a > 0,
    ensures
        size == import_size(bytes, alignment, capacity),
{
    match alignment {
        Some(a) => {
            let rounded: u128 = align_up_wide(bytes, a);
            if rounded < capacity as u128 {
                rounded as u64
            } else {
                capacity
            }
        },
        None => capacity,
    }
}

/// An import covers the frame wherever the region does, is aligned wherever the region's size is,
/// and never reaches beyond the region.
pub proof fn an_import_covers_the_frame(bytes: u64, alignment: u64, capacity: u64)
    requires
        alignment > 0,
        bytes <= capacity,
        capacity % alignment == 0,
    ensures
        bytes <= import_size(bytes, Some(alignment), capacity) <= capacity,
        import_size(bytes, Some(alignment), capacity) % alignment == 0,
{
    lemma_aligned(bytes, alignment);
}

/// The scaled copy that can be downloaded with a finished capture: the one that was made, if the
/// slot's scratch still is of that raster and holds it.
pub open spec fn downloadable(made: Option<Raster>, scratch: Option<ScratchSize>) -> Option<Raster> {
    match (made, scratch) {
        (Some(m), Some(s)) => if s.width == m.width && s.height == m.height && s.capacity >= m.width * m.height * 4 {
            Some(m)
        } else {
            None
        },
        _ => None,
    }
}

fn model_download(made: Option<Raster>, scratch: Option<ScratchSize>) -> (model: Option<Raster>)
    ensures
        model == downloadable(made, scratch),
{
    match (made, scratch) {
        (Some(m), Some(s)) => {
            let (w, h): (u32, u32) = (m.width, m.height);
            assert(0 <= w * h <= 0xffff_ffff * 0xffff_ffff) by (nonlinear_arith)
                requires
                    w <= 0xffff_ffff,
                    h <= 0xffff_ffff,
            ;
            if s.width == w && s.height == h && s.capacity as u128 >= w as u128 * h as u128 * 4 {
                Some(m)
            } else {
                None
            }
        },
        _ => None,
    }
}

/// An attempt in the middle of its work.
#[derive(Clone, Copy, Debug, PartialEq, Eq, Structural)]
pub struct CaptureCall {
    pub request: CaptureRequest,
    pub phase: CapturePhase,
}

/// Where an attempt, its slot and the flags stand.
#[verifier::ext_equal]
pub struct CaptureStanding {
    pub phase: CapturePhase,
    pub pending: Option<PendingCapture>,
    pub flags: CaptureFlags,
}

/// The end of an attempt with this result.
pub open spec fn ended(s: CaptureStanding, step: CaptureStep) -> (CaptureStanding, CaptureAction) {
    (CaptureStanding { phase: CapturePhase::Finished, ..s }, CaptureAction::Finish(step))
}

/// The submission of a new capture, unless one is in flight.
pub open spec fn submitting(s: CaptureStanding) -> (CaptureStanding, CaptureAction) {
    if s.pending is Some {
        ended(s, CaptureStep::Pending)
    } else {
        (CaptureStanding { phase: CapturePhase::Submitting, ..s }, CaptureAction::Submit)
    }
}

/// After the fence of the capture `p` in flight was asked.
pub open spec fn after_fence(
    r: CaptureRequest,
    s: CaptureStanding,
    capacity: u64,
    p: PendingCapture,
    status: FenceStatus,
    scratch: Option<ScratchSize>,
) -> (CaptureStanding, CaptureAction) {
    let freed = CaptureStanding { pending: None, ..s };
    if status != FenceStatus::Signaled {
        submitting(s)
    } else if !r.direct {
        let model = downloadable(p.model, scratch);
        (
            CaptureStanding { phase: CapturePhase::Downloading { done: p, model }, ..freed },
            CaptureAction::Download { bytes: p.bytes, model },
        )
    } else if !is_usable(r, p) {
        submitting(freed)
    } else if p.target is Some && p.target == r.target {
        ended(
            freed,
            CaptureStep::Captured {
                sent: Raster { width: r.width, height: r.height },
                gpu_original: true,
                proxy: ProxySource::Region,
            },
        )
    } else {
        (
            CaptureStanding { phase: CapturePhase::CopyingOut, ..freed },
            CaptureAction::CopyOut {
                bytes: if r.bytes < capacity {
                    r.bytes
                } else {
                    capacity
                },
            },
        )
    }
}

/// One step of an attempt.
pub open spec fn capture_next(r: CaptureRequest, s: CaptureStanding, e: CaptureEvent) -> (
    CaptureStanding,
    CaptureAction,
) {
    match (s.phase, e) {
        // A direct capture imports the part of the region that a frame takes; the other needs a
        // buffer of the frame's size.
        (CapturePhase::Starting, CaptureEvent::Begin { capacity, alignment }) => if r.direct {
            match capacity {
                None => ended(s, CaptureStep::Failed),
                Some(c) => (
                    CaptureStanding { phase: CapturePhase::Ensuring { capacity: c }, ..s },
                    CaptureAction::Ensure { bytes: import_size(r.bytes, alignment, c) },
                ),
            }
        } else {
            (
                CaptureStanding { phase: CapturePhase::Ensuring { capacity: 0 }, ..s },
                CaptureAction::Ensure { bytes: r.bytes },
            )
        },
        // A direct capture that cannot be set up is not tried again on this device.
        (CapturePhase::Ensuring { capacity }, CaptureEvent::Ensured(ok)) => if !ok {
            ended(
                CaptureStanding {
                    flags: CaptureFlags {
                        setup_failed: true,
                        external_memory_host: s.flags.external_memory_host && !r.direct,
                    },
                    ..s
                },
                CaptureStep::Failed,
            )
        } else if s.pending is Some {
            (CaptureStanding { phase: CapturePhase::Polling { capacity }, ..s }, CaptureAction::QueryFence)
        } else {
            submitting(s)
        },
        (CapturePhase::Polling { capacity }, CaptureEvent::Fence { status, scratch }) => match s.pending {
            Some(p) => after_fence(r, s, capacity, p, status, scratch),
            None => submitting(s),
        },
        // A capture of another frame is dropped once its bytes are out, and a new one submitted.
        (CapturePhase::Downloading { done, model }, CaptureEvent::Copied) => if !is_usable(r, done) {
            submitting(s)
        } else {
            match model {
                Some(raster) => ended(
                    s,
                    CaptureStep::Captured { sent: raster, gpu_original: false, proxy: ProxySource::Model },
                ),
                None => ended(
                    s,
                    CaptureStep::Captured {
                        sent: Raster { width: r.width, height: r.height },
                        gpu_original: false,
                        proxy: ProxySource::Original,
                    },
                ),
            }
        },
        (CapturePhase::CopyingOut, CaptureEvent::Copied) => ended(
            s,
            CaptureStep::Captured {
                sent: Raster { width: r.width, height: r.height },
                gpu_original: false,
                proxy: ProxySource::Region,
            },
        ),
        (CapturePhase::Submitting, CaptureEvent::Submitted { ok, model, now }) => if ok {
            ended(
                CaptureStanding {
                    pending: Some(
                        PendingCapture {
                            width: r.width,
                            height: r.height,
                            format: r.format,
                            bytes: r.bytes,
                            model: if r.direct {
                                None
                            } else {
                                model
                            },
                            target: if r.direct {
                                r.target
                            } else {
                                None
                            },
                            submitted: now,
                        },
                    ),
                    ..s
                },
                CaptureStep::Pending,
            )
        } else {
            ended(s, CaptureStep::Failed)
        },
        // Nothing else can happen in these phases.
        _ => ended(s, CaptureStep::Failed),
    }
}

impl CaptureCall {
    /// A new attempt.
    pub fn new(request: CaptureRequest) -> (call: CaptureCall)
        ensures
            call == (CaptureCall { request, phase: CapturePhase::Starting }),
    {
        CaptureCall { request, phase: CapturePhase::Starting }
    }

    fn end(&mut self, step: CaptureStep) -> (action: CaptureAction)
        ensures
            final(self).request == old(self).request,
            final(self).phase == CapturePhase::Finished,
            action == CaptureAction::Finish(step),
    {
        self.phase = CapturePhase::Finished;
        CaptureAction::Finish(step)
    }

    fn submit(&mut self, slot: &CaptureSlot) -> (action: CaptureAction)
        ensures
            final(self).request == old(self).request,
            slot.pending is Some ==> final(self).phase == CapturePhase::Finished && action == CaptureAction::Finish(
                CaptureStep::Pending,
            ),
            slot.pending is None ==> final(self).phase == CapturePhase::Submitting && action == CaptureAction::Submit,
    {
        if slot.pending.is_some() {
            self.end(CaptureStep::Pending)
        } else {
            self.phase = CapturePhase::Submitting;
            CaptureAction::Submit
        }
    }

    fn fence(
        &mut self,
        slot: &mut CaptureSlot,
        capacity: u64,
        p: PendingCapture,
        status: FenceStatus,
        scratch: Option<ScratchSize>,
        flags: Ghost<CaptureFlags>,
    ) -> (action: CaptureAction)
        requires
            old(slot).pending == Some(p),
        ensures
            final(self).request == old(self).request,
            (CaptureStanding { phase: final(self).phase, pending: final(slot).pending, flags: flags@ }, action)
                == after_fence(
                old(self).request,
                CaptureStanding { phase: old(self).phase, pending: old(slot).pending, flags: flags@ },
                capacity,
                p,
                status,
                scratch,
            ),
    {
        let r = self.request;
        if status != FenceStatus::Signaled {
            return self.submit(slot);
        }
        slot.pending = None;
        if !r.direct {
            let model: Option<Raster> = model_download(p.model, scratch);
            self.phase = CapturePhase::Downloading { done: p, model };
            CaptureAction::Download { bytes: p.bytes, model }
        } else if !usable(r, p) {
            self.submit(slot)
        } else if p.target.is_some() && p.target == r.target {
            self.end(
                CaptureStep::Captured {
                    sent: Raster { width: r.width, height: r.height },
                    gpu_original: true,
                    proxy: ProxySource::Region,
                },
            )
        } else {
            self.phase = CapturePhase::CopyingOut;
            CaptureAction::CopyOut { bytes: if r.bytes < capacity { r.bytes } else { capacity } }
        }
    }

    /// Takes what came of the last action, and says what to do next.
    pub fn advance(&mut self, slot: &mut CaptureSlot, flags: &mut CaptureFlags, event: CaptureEvent) -> (action:
        CaptureAction)
        requires
            event matches CaptureEvent::Begin { capacity, alignment } ==> alignment matches Some(a) ==> a > 0,
        ensures
            final(self).request == old(self).request,
            (
                CaptureStanding { phase: final(self).phase, pending: final(slot).pending, flags: *final(flags) },
                action,
            ) == capture_next(
                old(self).request,
                CaptureStanding { phase: old(self).phase, pending: old(slot).pending, flags: *old(flags) },
                event,
            ),
    {
        let r = self.request;
        match (self.phase, event) {
            (CapturePhase::Starting, CaptureEvent::Begin { capacity, alignment }) => if r.direct {
                match capacity {
                    None => self.end(CaptureStep::Failed),
                    Some(c) => {
                        self.phase = CapturePhase::Ensuring { capacity: c };
                        CaptureAction::Ensure { bytes: import_bytes(r.bytes, alignment, c) }
                    },
                }
            } else {
                self.phase = CapturePhase::Ensuring { capacity: 0 };
                CaptureAction::Ensure { bytes: r.bytes }
            },
            (CapturePhase::Ensuring { capacity }, CaptureEvent::Ensured(ok)) => if !ok {
                flags.setup_failed = true;
                flags.external_memory_host = flags.external_memory_host && !r.direct;
                self.end(CaptureStep::Failed)
            } else if slot.pending.is_some() {
                self.phase = CapturePhase::Polling { capacity };
                CaptureAction::QueryFence
            } else {
                self.submit(slot)
            },
            (CapturePhase::Polling { capacity }, CaptureEvent::Fence { status, scratch }) => match slot.pending {
                Some(p) => {
                    let ghost kept = *flags;
                    self.fence(slot, capacity, p, status, scratch, Ghost(kept))
                },
                None => self.submit(slot),
            },
            (CapturePhase::Downloading { done, model }, CaptureEvent::Copied) => if !usable(r, done) {
                self.submit(slot)
            } else {
                match model {
                    Some(raster) => self.end(
                        CaptureStep::Captured { sent: raster, gpu_original: false, proxy: ProxySource::Model },
                    ),
                    None => self.end(
                        CaptureStep::Captured {
                            sent: Raster { width: r.width, height: r.height },
                            gpu_original: false,
                            proxy: ProxySource::Original,
                        },
                    ),
                }
            },
            (CapturePhase::CopyingOut, CaptureEvent::Copied) => self.end(
                CaptureStep::Captured {
                    sent: Raster { width: r.width, height: r.height },
                    gpu_original: false,
                    proxy: ProxySource::Region,
                },
            ),
            (CapturePhase::Submitting, CaptureEvent::Submitted { ok, model, now }) => if ok {
                slot.pending = Some(
                    PendingCapture {
                        width: r.width,
                        height: r.height,
                        format: r.format,
                        bytes: r.bytes,
                        model: if r.direct { None } else { model },
                        target: if r.direct { r.target } else { None },
                        submitted: now,
                    },
                );
                self.end(CaptureStep::Pending)
            } else {
                self.end(CaptureStep::Failed)
            },
            _ => self.end(CaptureStep::Failed),
        }
    }
}

/// A slot is never reused while its capture is in flight: a capture is only submitted from a slot
/// without one, and a capture in flight is only given up once its fence is signalled.
pub proof fn a_slot_in_flight_is_never_reused(r: CaptureRequest, s: CaptureStanding, e: CaptureEvent)
    ensures
        capture_next(r, s, e).1 == CaptureAction::Submit ==> capture_next(r, s, e).0.pending is None,
        s.phase != CapturePhase::Submitting && s.pending is Some && capture_next(r, s, e).0.pending != s.pending ==> (e matches CaptureEvent::Fence {
            status,
            scratch,
        } && status == FenceStatus::Signaled && capture_next(r, s, e).0.pending is None),
{
}

/// What is handed on is the current frame: a finished capture is used only when it has the size
/// and format asked for and was not submitted before the present began.
pub proof fn only_the_current_frame_is_used(r: CaptureRequest, s: CaptureStanding, e: CaptureEvent)
    requires
        s.phase is Polling || s.phase is Downloading,
        capture_next(r, s, e).1 matches CaptureAction::Finish(step) && step is Captured || capture_next(r, s, e).1 is CopyOut,
    ensures
        s.phase is Polling ==> s.pending is Some && is_usable(r, s.pending->0),
        s.phase matches CapturePhase::Downloading { done, model } ==> is_usable(r, done),
{
}

/// A capture that stays on the GPU is only reported when the submission wrote the very buffer that
/// this present asked for.
pub proof fn a_gpu_copy_is_the_one_asked_for(r: CaptureRequest, s: CaptureStanding, e: CaptureEvent)
    requires
        capture_next(r, s, e).1 matches CaptureAction::Finish(step) && step matches CaptureStep::Captured {
            sent,
            gpu_original,
            proxy,
        } && gpu_original,
    ensures
        r.direct,
        r.target is Some,
        s.pending matches Some(p) && p.target == r.target && is_usable(r, p),
{
}

/// Only a scaled copy that was really made and downloaded is reported as sent at its own raster;
/// otherwise the frame's own size is.
pub proof fn the_raster_sent_is_the_one_that_was_made(r: CaptureRequest, s: CaptureStanding, e: CaptureEvent)
    requires
        capture_next(r, s, e).1 matches CaptureAction::Finish(step) && step is Captured,
    ensures
        (capture_next(r, s, e).1->Finish_0)->sent == (Raster { width: r.width, height: r.height }) || (s.phase matches CapturePhase::Downloading {
            done,
            model,
        } && model == Some((capture_next(r, s, e).1->Finish_0)->sent)),
{
}

/// Whether a capture's objects can stay, or have to be built or rebuilt.
#[derive(Clone, Copy, Debug, PartialEq, Eq, Structural)]
pub enum Ensure {
    Keep,
    Build,
    /// The captures in flight are waited for, the objects destroyed, and new ones built. When the
    /// wait fails nothing is touched.
    Rebuild,
}

/// Whether one capture buffer serves a frame: it is of the same queue family, and large enough.
/// `existing` is its queue family and capacity.
pub fn ensure(existing: Option<(u32, u64)>, queue_family: u32, bytes: u64) -> (e: Ensure)
    ensures
        e == (match existing {
            Some((family, capacity)) => if family == queue_family && capacity >= bytes {
                Ensure::Keep
            } else {
                Ensure::Rebuild
            },
            None => Ensure::Build,
        }),
{
    match existing {
        Some((family, capacity)) => if family == queue_family && capacity >= bytes {
            Ensure::Keep
        } else {
            Ensure::Rebuild
        },
        None => Ensure::Build,
    }
}

/// Whether the two buffers of a pipeline serve a frame. `existing` is their queue family and
/// capacities.
pub fn ensure_pipeline(existing: Option<(u32, u64, u64)>, queue_family: u32, bytes: u64) -> (e: Ensure)
    ensures
        e == (match existing {
            Some((family, first, second)) => if family == queue_family && first >= bytes && second >= bytes {
                Ensure::Keep
            } else {
                Ensure::Rebuild
            },
            None => Ensure::Build,
        }),
{
    match existing {
        Some((family, first, second)) => if family == queue_family && first >= bytes && second >= bytes {
            Ensure::Keep
        } else {
            Ensure::Rebuild
        },
        None => Ensure::Build,
    }
}

/// Whether a buffer over the shared region serves a frame: it is of the same queue family, over the
/// same memory, and large enough. `existing` is its queue family, address and capacity.
pub fn ensure_direct_capture(existing: Option<(u32, u64, u64)>, queue_family: u32, address: u64, bytes: u64) -> (e:
    Ensure)
    ensures
        e == (match existing {
            Some((family, at, capacity)) => if family == queue_family && at == address && capacity >= bytes {
                Ensure::Keep
            } else {
                Ensure::Rebuild
            },
            None => Ensure::Build,
        }),
{
    match existing {
        Some((family, at, capacity)) => if family == queue_family && at == address && capacity >= bytes {
            Ensure::Keep
        } else {
            Ensure::Rebuild
        },
        None => Ensure::Build,
    }
}

/// The slots whose captures are in flight, in order: those whose fences a drain waits for.
pub open spec fn in_flight(slots: Seq<Option<CaptureSlot>>) -> Seq<usize>
    decreases slots.len(),
{
    if slots.len() == 0 {
        Seq::empty()
    } else {
        let before = in_flight(slots.drop_last());
        match slots.last() {
            Some(s) => if s.pending is Some {
                before.push((slots.len() - 1) as usize)
            } else {
                before
            },
            None => before,
        }
    }
}

/// The slots to wait for before their objects go, among those that exist.
pub fn wait_in_flight(slots: &[Option<CaptureSlot>]) -> (list: Vec<usize>)
    ensures
        list@ == in_flight(slots@),
{
    let mut list: Vec<usize> = Vec::new();
    let mut i: usize = 0;
    while i < slots.len()
        invariant
            i <= slots@.len(),
            list@ == in_flight(slots@.take(i as int)),
        decreases slots@.len() - i,
    {
        assert(slots@.take(i + 1).drop_last() =~= slots@.take(i as int));
        assert(slots@.take(i + 1).last() == slots@[i as int]);
        if let Some(s) = slots[i] {
            if s.pending.is_some() {
                list.push(i);
            }
        }
        i = i + 1;
    }
    assert(slots@.take(i as int) =~= slots@);
    list
}

/// A drain waits for exactly the slots with a capture in flight.
pub proof fn a_drain_waits_for_every_capture_in_flight(slots: Seq<Option<CaptureSlot>>, i: int)
    requires
        0 <= i < slots.len() <= usize::MAX,
    ensures
        in_flight(slots).contains(i as usize) <==> (slots[i] matches Some(s) && s.pending is Some),
        forall|k: int| 0 <= k < in_flight(slots).len() ==> (#[trigger] in_flight(slots)[k]) < slots.len(),
    decreases slots.len(),
{
    lemma_in_flight_bound(slots);
    let rest = slots.drop_last();
    let before = in_flight(rest);
    broadcast use vstd::seq_lib::lemma_seq_contains_after_push;

    if i < slots.len() - 1 {
        a_drain_waits_for_every_capture_in_flight(rest, i);
    } else {
        lemma_in_flight_bound(rest);
        assert(!before.contains(i as usize));
    }
}

proof fn lemma_in_flight_bound(slots: Seq<Option<CaptureSlot>>)
    requires
        slots.len() <= usize::MAX,
    ensures
        forall|k: int| 0 <= k < in_flight(slots).len() ==> (#[trigger] in_flight(slots)[k]) < slots.len(),
    decreases slots.len(),
{
    if slots.len() > 0 {
        lemma_in_flight_bound(slots.drop_last());
        let before = in_flight(slots.drop_last());
        assert forall|k: int| 0 <= k < in_flight(slots).len() implies (
            #[trigger] in_flight(slots)[k]
        ) < slots.len() by {
            if k < before.len() {
                assert(in_flight(slots)[k] == before[k]);
            }
        }
    }
}

/// What a submission does about the model's scratch of its slot.
#[derive(Clone, Copy, Debug, PartialEq, Eq, Structural)]
pub enum ScratchPlan {
    /// The submission scales nothing.
    Unused,
    /// The scratch there is serves.
    Keep,
    /// The scratch there is, if any, is destroyed, and one of the asked-for raster built.
    Rebuild,
}

/// Decides about the model's scratch, whose raster is `existing`.
pub fn scratch_plan(wanted: Option<Raster>, existing: Option<Raster>) -> (plan: ScratchPlan)
    ensures
        plan == (match wanted {
            None => ScratchPlan::Unused,
            Some(raster) => if existing == Some(raster) {
                ScratchPlan::Keep
            } else {
                ScratchPlan::Rebuild
            },
        }),
{
    match wanted {
        None => ScratchPlan::Unused,
        Some(raster) => if existing == Some(raster) {
            ScratchPlan::Keep
        } else {
            ScratchPlan::Rebuild
        },
    }
}

/// The objects of a model's scratch that a recording names.
#[derive(Clone, Copy, Debug, PartialEq, Eq, Structural)]
pub struct ScratchObjects {
    pub image: u64,
    pub buffer: u64,
    /// The descriptor set of the encode over it, where the encode is available.
    pub encode_set: Option<u64>,
}

/// What a capture of `image`, found in `layout`, records: the scaled copy when one was asked for
/// and there is a scratch for it, and the encode over it when the scratch has a set for that.
pub fn plan_recording(
    r: CaptureRequest,
    image: u64,
    layout: i32,
    buffer: u64,
    scratch: Option<ScratchObjects>,
    encode: EncodeDispatch,
) -> (recording: CaptureRecording)
    ensures
        recording.image == image,
        recording.initial_layout == layout,
        recording.buffer == buffer,
        recording.width == r.width,
        recording.height == r.height,
        recording.extra_dst == (if r.direct {
            r.target
        } else {
            None
        }),
        recording.model == (match (r.model, scratch) {
            (Some(raster), Some(s)) => if r.direct {
                None
            } else {
                Some(ModelTarget { image: s.image, buffer: s.buffer, width: raster.width, height: raster.height })
            },
            _ => None,
        }),
        recording.encode == (match scratch {
            Some(s) => match s.encode_set {
                Some(set) => if recording.model is Some {
                    Some(
                        EncodeDispatch {
                            dispatcher: crate::commands::Dispatcher { descriptor_set: set, ..encode.dispatcher },
                            ..encode
                        },
                    )
                } else {
                    None
                },
                None => None,
            },
            None => None,
        }),
{
    let model: Option<ModelTarget> = match (r.model, scratch) {
        (Some(raster), Some(s)) => if r.direct {
            None
        } else {
            Some(ModelTarget { image: s.image, buffer: s.buffer, width: raster.width, height: raster.height })
        },
        _ => None,
    };
    let dispatch: Option<EncodeDispatch> = match scratch {
        Some(s) => match s.encode_set {
            Some(set) => if model.is_some() {
                Some(
                    EncodeDispatch {
                        dispatcher: crate::commands::Dispatcher { descriptor_set: set, ..encode.dispatcher },
                        ..encode
                    },
                )
            } else {
                None
            },
            None => None,
        },
        None => None,
    };
    CaptureRecording {
        image,
        initial_layout: layout,
        buffer,
        extra_dst: if r.direct { r.target } else { None },
        width: r.width,
        height: r.height,
        model,
        encode: dispatch,
    }
}

/// The encode's view and set of a new scratch.
#[derive(Clone, Copy, Debug, PartialEq, Eq, Structural)]
pub struct EncodeTarget {
    pub view: Option<u64>,
    pub set: Option<u64>,
    /// A view to destroy, because no set could be allocated for it.
    pub discard: Option<u64>,
}

/// What a scratch keeps for the encode, from the view and set that could be made: both, or
/// neither. A scratch without them is used unencoded.
pub fn encode_target(view: Option<u64>, set: Option<u64>) -> (target: EncodeTarget)
    ensures
        target == (match (view, set) {
            (Some(v), Some(s)) => (EncodeTarget { view: Some(v), set: Some(s), discard: None }),
            (Some(v), None) => (EncodeTarget { view: None, set: None, discard: Some(v) }),
            (None, _) => (EncodeTarget { view: None, set: None, discard: None }),
        }),
{
    match (view, set) {
        (Some(v), Some(s)) => EncodeTarget { view: Some(v), set: Some(s), discard: None },
        (Some(v), None) => EncodeTarget { view: None, set: None, discard: Some(v) },
        (None, _) => EncodeTarget { view: None, set: None, discard: None },
    }
}

/// Notes that setting the capture up failed.
pub fn note_setup_failure(flags: &mut CaptureFlags)
    ensures
        *final(flags) == (CaptureFlags { setup_failed: true, ..*old(flags) }),
{
    flags.setup_failed = true;
}

/// Whether setting the capture up failed since this was last asked. A swapchain that cannot drive
/// the channel gives up its claim, so that another can take it.
pub fn take_setup_failure(flags: &mut CaptureFlags) -> (failed: bool)
    ensures
        failed == old(flags).setup_failed,
        *final(flags) == (CaptureFlags { setup_failed: false, ..*old(flags) }),
{
    let failed: bool = flags.setup_failed;
    flags.setup_failed = false;
    failed
}

/// What is imported for a frame is the least multiple of the alignment that holds it, and never more
/// than the region; where the alignment is unknown it is the region.
pub proof fn an_import_is_as_small_as_it_can_be(bytes: u64, alignment: u64, capacity: u64, multiple: int)
    requires
        alignment > 0,
    ensures
        ({
            let size = import_size(bytes, Some(alignment), capacity);
            &&& size <= capacity
            &&& size == capacity || size >= bytes && size % alignment == 0
            &&& multiple >= bytes && multiple % (alignment as int) == 0 ==> size <= multiple
        }),
        import_size(bytes, None, capacity) == capacity,
{
    lemma_aligned(bytes, alignment);
    if multiple >= bytes && multiple % (alignment as int) == 0 {
        let (a, x, m) = (alignment as int, aligned(bytes, alignment), multiple);
        let (p, q) = (x / a, m / a);
        vstd::arithmetic::div_mod::lemma_fundamental_div_mod(x, a);
        vstd::arithmetic::div_mod::lemma_fundamental_div_mod(m, a);
        assert(x <= m) by (nonlinear_arith)
            requires
                x == a * p,
                m == a * q,
                x < m + a,
                a > 0,
        ;
    }
}

/// An attempt begins with its objects: a direct one needs the region, without which it fails, and a
/// buffer over it; the other needs a buffer of the frame's size. Where they cannot be had it fails, and
/// that is noted; importing is not tried again where it was a direct one. Where they can, the capture in
/// flight is asked about, and where there is none one is submitted.
pub proof fn an_attempt_begins_with_its_objects(
    r: CaptureRequest,
    pending: Option<PendingCapture>,
    flags: CaptureFlags,
    region: Option<u64>,
    alignment: Option<u64>,
    capacity: u64,
    ok: bool,
)
    ensures
        ({
            let s = CaptureStanding { phase: CapturePhase::Starting, pending, flags };
            let (t, action) = capture_next(r, s, CaptureEvent::Begin { capacity: region, alignment });
            &&& t.pending == pending && t.flags == flags
            &&& r.direct && region is None ==> t.phase is Finished && action == CaptureAction::Finish(CaptureStep::Failed)
            &&& r.direct && region is Some ==> t.phase == (CapturePhase::Ensuring { capacity: region->0 }) && action == (
            CaptureAction::Ensure { bytes: import_size(r.bytes, alignment, region->0) })
            &&& !r.direct ==> t.phase is Ensuring && action == (CaptureAction::Ensure { bytes: r.bytes })
        }),
        ({
            let s = CaptureStanding { phase: CapturePhase::Ensuring { capacity }, pending, flags };
            let (t, action) = capture_next(r, s, CaptureEvent::Ensured(ok));
            &&& t.pending == pending
            &&& ok ==> t.flags == flags
            &&& !ok ==> {
                &&& t.flags.setup_failed
                &&& t.flags.external_memory_host <==> flags.external_memory_host && !r.direct
                &&& t.phase is Finished && action == CaptureAction::Finish(CaptureStep::Failed)
            }
            &&& ok && pending is Some ==> t.phase == (CapturePhase::Polling { capacity }) && action is QueryFence
            &&& ok && pending is None ==> t.phase is Submitting && action is Submit
        }),
{
}

/// A capture in flight that is not done is left alone. One that is done leaves its slot; through a
/// capture buffer all its bytes are downloaded, with the scaled copy where the scratch still is of its
/// raster and holds four bytes for each of its pixels. A direct one is of use where it has the width,
/// height and format of the frame and was not submitted before the frame: where it was copied to the
/// buffer that this present names it is ready as it is, else the frame, as far as the region reaches, is
/// copied out. One that is of no use is made anew.
pub proof fn a_finished_capture_is_taken_over(
    r: CaptureRequest,
    p: PendingCapture,
    flags: CaptureFlags,
    capacity: u64,
    status: FenceStatus,
    scratch: Option<ScratchSize>,
)
    ensures
        ({
            let s = CaptureStanding { phase: CapturePhase::Polling { capacity }, pending: Some(p), flags };
            let (t, action) = capture_next(r, s, CaptureEvent::Fence { status, scratch });
            let current = p.width == r.width && p.height == r.height && p.format == r.format && !(r.submitted_after is Some
                && p.submitted < r.submitted_after->0);
            let scaled = p.model is Some && scratch is Some && scratch->0.width == p.model->0.width && scratch->0.height
                == p.model->0.height && scratch->0.capacity >= 4 * (p.model->0.width * p.model->0.height);
            &&& t.flags == flags
            &&& !(status is Signaled) ==> t.pending == Some(p) && action == CaptureAction::Finish(CaptureStep::Pending)
            &&& status is Signaled ==> t.pending is None && {
                &&& !r.direct ==> action == (CaptureAction::Download {
                    bytes: p.bytes,
                    model: if scaled {
                        p.model
                    } else {
                        None
                    },
                }) && t.phase == (CapturePhase::Downloading {
                    done: p,
                    model: if scaled {
                        p.model
                    } else {
                        None
                    },
                })
                &&& r.direct && !current ==> t.phase is Submitting && action is Submit
                &&& r.direct && current && p.target is Some && p.target == r.target ==> action == CaptureAction::Finish(
                    CaptureStep::Captured {
                        sent: Raster { width: r.width, height: r.height },
                        gpu_original: true,
                        proxy: ProxySource::Region,
                    },
                )
                &&& r.direct && current && !(p.target is Some && p.target == r.target) ==> t.phase is CopyingOut && action
                    == (CaptureAction::CopyOut { bytes: vstd::math::min(r.bytes as int, capacity as int) as u64 })
            }
        }),
{
}

/// What was downloaded of the frame goes on at the raster of the scaled copy where that came with it, and
/// at the frame's own size where it did not; what was copied out of the region is there already. A
/// download of another frame leads to a new capture. What is submitted is noted with the size, the
/// format and the bytes of the frame and the time, and with what it was copied or scaled to.
pub proof fn a_frame_goes_on_as_it_was_captured(
    r: CaptureRequest,
    done: PendingCapture,
    scaled: Option<Raster>,
    flags: CaptureFlags,
    ok: bool,
    now: u64,
)
    ensures
        ({
            let s = CaptureStanding {
                phase: CapturePhase::Downloading { done, model: scaled },
                pending: None,
                flags,
            };
            let (t, action) = capture_next(r, s, CaptureEvent::Copied);
            let current = done.width == r.width && done.height == r.height && done.format == r.format && !(
            r.submitted_after is Some && done.submitted < r.submitted_after->0);
            &&& t.pending is None && t.flags == flags
            &&& !current ==> t.phase is Submitting && action is Submit
            &&& current ==> action == CaptureAction::Finish(
                CaptureStep::Captured {
                    sent: if scaled is Some {
                        scaled->0
                    } else {
                        Raster { width: r.width, height: r.height }
                    },
                    gpu_original: false,
                    proxy: if scaled is Some {
                        ProxySource::Model
                    } else {
                        ProxySource::Original
                    },
                },
            )
        }),
        ({
            let s = CaptureStanding { phase: CapturePhase::CopyingOut, pending: None, flags };
            let (t, action) = capture_next(r, s, CaptureEvent::Copied);
            &&& t.pending is None && t.flags == flags
            &&& action == CaptureAction::Finish(
                CaptureStep::Captured {
                    sent: Raster { width: r.width, height: r.height },
                    gpu_original: false,
                    proxy: ProxySource::Region,
                },
            )
        }),
        ({
            let s = CaptureStanding { phase: CapturePhase::Submitting, pending: None, flags };
            let (t, action) = capture_next(r, s, CaptureEvent::Submitted { ok, model: scaled, now });
            &&& t.flags == flags
            &&& !ok ==> t.pending is None && action == CaptureAction::Finish(CaptureStep::Failed)
            &&& ok ==> action == CaptureAction::Finish(CaptureStep::Pending) && t.pending == Some(
                PendingCapture {
                    width: r.width,
                    height: r.height,
                    format: r.format,
                    bytes: r.bytes,
                    model: if r.direct {
                        None
                    } else {
                        scaled
                    },
                    target: if r.direct {
                        r.target
                    } else {
                        None
                    },
                    submitted: now,
                },
            )
        }),
{
}

/// The slots that a drain waits for come in their order, none of them twice.
pub proof fn a_drain_goes_slot_by_slot(slots: Seq<Option<CaptureSlot>>)
    requires
        slots.len() <= usize::MAX,
    ensures
        forall|i: int, j: int|
            0 <= i < j < in_flight(slots).len() ==> #[trigger] in_flight(slots)[i] < #[trigger] in_flight(slots)[j],
    decreases slots.len(),
{
    if slots.len() > 0 {
        a_drain_goes_slot_by_slot(slots.drop_last());
        lemma_in_flight_bound(slots.drop_last());
        let before = in_flight(slots.drop_last());
        assert forall|i: int, j: int| 0 <= i < j < in_flight(slots).len() implies #[trigger] in_flight(slots)[i]
            < #[trigger] in_flight(slots)[j] by {
            assert(in_flight(slots)[i] == before[i]);
            assert(before[i] < slots.len() - 1);
            if j < before.len() {
                assert(in_flight(slots)[j] == before[j]);
            }
        }
    }
}

} // verus!
