//! Captures, presents, read-backs and compose slots, played through with a scripted outside.

use neural_forge_layer::capture_step::{
    ensure, ensure_direct_capture, ensure_pipeline, import_bytes, note_setup_failure, scratch_plan, take_setup_failure,
    wait_in_flight, CaptureAction, CaptureCall, CaptureEvent, CaptureFlags, CaptureRequest, CaptureSlot, CaptureStep, Ensure,
    FenceStatus, PendingCapture, ProxySource, ScratchPlan, ScratchSize,
};
use neural_forge_layer::compose_slots::{ComposeAction, ComposeCall, ComposeEvent, SlotId, Slots, Work};
use neural_forge_layer::present::{
    Action, ChannelFacts, Event, Frame, FrameDims, FrameFormat, PresentCall, PresentState, Settings, SharedRegion,
    SYNC_BUDGET,
};
use neural_forge_layer::readback::{ReadbackAction, ReadbackCall, ReadbackEvent, SyncSettings};
use neural_forge_layer::scaling::{Raster, ScaledFrame};
use neural_forge_layer::submission::{submit_next, submit_start, SubmitStep};

const FLAGS: CaptureFlags = CaptureFlags { setup_failed: false, external_memory_host: true };

fn raster(width: u32, height: u32) -> Raster {
    Raster { width, height }
}

fn request(width: u32, height: u32, after: Option<u64>) -> CaptureRequest {
    CaptureRequest {
        direct: false,
        width,
        height,
        format: 1,
        bytes: u64::from(width * height * 4),
        model: None,
        target: None,
        submitted_after: after,
    }
}

/// One attempt, on a device that finishes every capture at once.
fn attempt(slot: &mut CaptureSlot, r: CaptureRequest, now: u64) -> CaptureStep {
    let mut flags = FLAGS;
    let mut call = CaptureCall::new(r);
    let mut event = CaptureEvent::Begin { capacity: None, alignment: None };
    loop {
        event = match call.advance(slot, &mut flags, event) {
            CaptureAction::Ensure { .. } => CaptureEvent::Ensured(true),
            CaptureAction::QueryFence => CaptureEvent::Fence { status: FenceStatus::Signaled, scratch: None },
            CaptureAction::Download { .. } | CaptureAction::CopyOut { .. } => CaptureEvent::Copied,
            CaptureAction::Submit => CaptureEvent::Submitted { ok: true, model: None, now },
            CaptureAction::Finish(step) => return step,
        };
    }
}

#[test]
fn a_completed_capture_of_another_size_or_an_earlier_frame_is_not_sent() {
    let mut slot = CaptureSlot { pending: None };
    let (width, height) = (16u32, 16u32);
    let mut now = 0;
    let mut step = |w: u32, h: u32, after: Option<u64>| {
        now += 10;
        match attempt(&mut slot, request(w, h, after), now) {
            CaptureStep::Captured { sent, .. } => Some((sent.width, sent.height)),
            CaptureStep::Pending => None,
            CaptureStep::Failed => panic!("capture setup failed"),
        }
    };
    assert_eq!(step(8, 8, None), None, "submits an 8x8 capture");
    assert_eq!(step(width, height, None), None, "the 8x8 capture is not sent for a 16x16 frame");
    assert_eq!(step(width, height, None), Some((width, height)), "the replacement is");
    assert_eq!(step(width, height, None), None, "submits again");
    let present_began = Some(45);
    assert_eq!(step(width, height, present_began), None, "a capture from before this present is not sent");
    assert_eq!(step(width, height, present_began), Some((width, height)), "the fresh one is");
}

#[test]
fn a_direct_capture_that_cannot_be_set_up_is_not_tried_again() {
    let mut slot = CaptureSlot { pending: None };
    let mut flags = FLAGS;
    let direct = CaptureRequest { direct: true, ..request(16, 16, None) };
    let mut call = CaptureCall::new(direct);
    let begin = CaptureEvent::Begin { capacity: Some(4096), alignment: Some(256) };
    assert_eq!(call.advance(&mut slot, &mut flags, begin), CaptureAction::Ensure { bytes: 1024 });
    assert_eq!(
        call.advance(&mut slot, &mut flags, CaptureEvent::Ensured(false)),
        CaptureAction::Finish(CaptureStep::Failed)
    );
    assert!(!flags.external_memory_host);
    assert!(take_setup_failure(&mut flags));
    assert!(!take_setup_failure(&mut flags));
    note_setup_failure(&mut flags);
    assert!(flags.setup_failed);
    // Without a region there is nothing to capture into.
    let mut none = CaptureCall::new(direct);
    let begin = CaptureEvent::Begin { capacity: None, alignment: None };
    assert_eq!(none.advance(&mut slot, &mut flags, begin), CaptureAction::Finish(CaptureStep::Failed));
}

#[test]
fn a_capture_in_flight_is_left_alone() {
    let pending = PendingCapture { width: 16, height: 16, format: 1, bytes: 1024, model: None, target: None, submitted: 5 };
    let mut slot = CaptureSlot { pending: Some(pending) };
    let mut flags = FLAGS;
    let mut call = CaptureCall::new(request(16, 16, None));
    call.advance(&mut slot, &mut flags, CaptureEvent::Begin { capacity: None, alignment: None });
    assert_eq!(call.advance(&mut slot, &mut flags, CaptureEvent::Ensured(true)), CaptureAction::QueryFence);
    let fence = CaptureEvent::Fence { status: FenceStatus::Unsignaled, scratch: None };
    assert_eq!(call.advance(&mut slot, &mut flags, fence), CaptureAction::Finish(CaptureStep::Pending));
    assert_eq!(slot.pending, Some(pending));
}

#[test]
fn a_scaled_copy_is_sent_where_it_was_made() {
    let small = raster(8, 8);
    let pending =
        PendingCapture { width: 16, height: 16, format: 1, bytes: 1024, model: Some(small), target: None, submitted: 5 };
    for (capacity, expected) in [(256, small), (255, raster(16, 16))] {
        let mut slot = CaptureSlot { pending: Some(pending) };
        let mut flags = FLAGS;
        let mut call = CaptureCall::new(request(16, 16, None));
        call.advance(&mut slot, &mut flags, CaptureEvent::Begin { capacity: None, alignment: None });
        call.advance(&mut slot, &mut flags, CaptureEvent::Ensured(true));
        let scratch = Some(ScratchSize { width: 8, height: 8, capacity });
        let fence = CaptureEvent::Fence { status: FenceStatus::Signaled, scratch };
        let model = if capacity == 256 { Some(small) } else { None };
        assert_eq!(call.advance(&mut slot, &mut flags, fence), CaptureAction::Download { bytes: 1024, model });
        let proxy = if capacity == 256 { ProxySource::Model } else { ProxySource::Original };
        assert_eq!(
            call.advance(&mut slot, &mut flags, CaptureEvent::Copied),
            CaptureAction::Finish(CaptureStep::Captured { sent: expected, gpu_original: false, proxy })
        );
    }
}

#[test]
fn a_direct_capture_with_a_target_stays_on_the_gpu() {
    let r = CaptureRequest { direct: true, target: Some(9), ..request(16, 16, Some(3)) };
    let mut slot = CaptureSlot { pending: None };
    let mut flags = FLAGS;
    let run = |slot: &mut CaptureSlot, flags: &mut CaptureFlags, r: CaptureRequest| {
        let mut call = CaptureCall::new(r);
        let mut event = CaptureEvent::Begin { capacity: Some(4096), alignment: Some(4096) };
        loop {
            event = match call.advance(slot, flags, event) {
                CaptureAction::Ensure { bytes } => {
                    assert_eq!(bytes, 4096);
                    CaptureEvent::Ensured(true)
                }
                CaptureAction::QueryFence => CaptureEvent::Fence { status: FenceStatus::Signaled, scratch: None },
                CaptureAction::CopyOut { bytes } => {
                    assert_eq!(bytes, 1024);
                    CaptureEvent::Copied
                }
                CaptureAction::Download { .. } => panic!("nothing to download"),
                CaptureAction::Submit => CaptureEvent::Submitted { ok: true, model: None, now: 4 },
                CaptureAction::Finish(step) => return step,
            };
        }
    };
    assert_eq!(run(&mut slot, &mut flags, r), CaptureStep::Pending);
    let captured = |gpu_original| CaptureStep::Captured { sent: raster(16, 16), gpu_original, proxy: ProxySource::Region };
    assert_eq!(run(&mut slot, &mut flags, r), captured(true));
    assert_eq!(run(&mut slot, &mut flags, r), CaptureStep::Pending);
    // Another target has not got the frame, so it is copied out.
    assert_eq!(run(&mut slot, &mut flags, CaptureRequest { target: Some(10), ..r }), captured(false));
}

#[test]
fn resources_are_kept_while_they_serve() {
    assert_eq!(ensure(None, 0, 10), Ensure::Build);
    assert_eq!(ensure(Some((0, 10)), 0, 10), Ensure::Keep);
    assert_eq!(ensure(Some((0, 9)), 0, 10), Ensure::Rebuild);
    assert_eq!(ensure(Some((1, 10)), 0, 10), Ensure::Rebuild);
    assert_eq!(ensure_pipeline(Some((0, 10, 9)), 0, 10), Ensure::Rebuild);
    assert_eq!(ensure_pipeline(Some((0, 10, 10)), 0, 10), Ensure::Keep);
    assert_eq!(ensure_direct_capture(Some((3, 5, 10)), 3, 5, 10), Ensure::Keep);
    assert_eq!(ensure_direct_capture(Some((3, 5, 10)), 3, 6, 10), Ensure::Rebuild);
    assert_eq!(ensure_direct_capture(Some((3, 5, 10)), 3, 5, 11), Ensure::Rebuild);
    assert_eq!(ensure_direct_capture(Some((0, 5, 10)), 1, 5, 10), Ensure::Rebuild);
    assert_eq!(ensure_direct_capture(None, 3, 5, 10), Ensure::Build);
    assert_eq!(scratch_plan(None, Some(raster(1, 1))), ScratchPlan::Unused);
    assert_eq!(scratch_plan(Some(raster(1, 1)), Some(raster(1, 1))), ScratchPlan::Keep);
    assert_eq!(scratch_plan(Some(raster(1, 2)), Some(raster(1, 1))), ScratchPlan::Rebuild);
    assert_eq!(import_bytes(1000, Some(4096), 1 << 20), 4096);
    assert_eq!(import_bytes(1000, None, 5000), 5000);
    assert_eq!(import_bytes(5000, Some(4096), 6000), 6000);
    let busy = CaptureSlot {
        pending: Some(PendingCapture { width: 1, height: 1, format: 0, bytes: 4, model: None, target: None, submitted: 0 }),
    };
    assert_eq!(wait_in_flight(&[None, Some(busy), Some(CaptureSlot { pending: None }), Some(busy)]), [1, 3]);
}

fn frame(pipelined: bool) -> Frame {
    Frame {
        width: 16,
        height: 16,
        format: FrameFormat { code: 1, bytes_per_pixel: 4, eight_bit: true },
        same_image: true,
        pipelined,
        zero_copy_allowed: true,
        region_capacity: 4096,
    }
}

fn settings() -> Settings {
    Settings { apply_model: true, neural_enabled: true, hold_frame: false, model_interval: 1, ghost_guard: 77 }
}

fn facts(settings: Settings) -> ChannelFacts {
    ChannelFacts {
        settings: Some(settings),
        capture_requested: false,
        model_unavailable: false,
        proxy0: None,
        proxy1: None,
        answer: None,
        alignment: None,
        pixel_limit: 3840 * 2160,
        scaled: None,
    }
}

/// A helper and a GPU that do what they are told.
struct Outside {
    now: u64,
    facts: ChannelFacts,
    alive: bool,
    /// How many times the request is still waiting before it is answered.
    delay: u32,
    /// The request is never answered.
    silent: bool,
    capture: CaptureStep,
    composes: bool,
    echoed: Option<Raster>,
    pending: [bool; 2],
    log: Vec<Action>,
}

impl Outside {
    fn new(facts: ChannelFacts) -> Outside {
        let capture = CaptureStep::Captured { sent: raster(16, 16), gpu_original: false, proxy: ProxySource::Original };
        Outside {
            now: 1_000,
            facts,
            alive: true,
            delay: 0,
            silent: false,
            capture,
            composes: true,
            echoed: None,
            pending: [false, false],
            log: Vec::new(),
        }
    }

    fn present(&mut self, state: &mut PresentState, frame: Frame) -> (Option<u64>, Option<bool>) {
        let mut call = PresentCall::new(frame);
        let (mut bytes, mut more) = (Vec::new(), Vec::new());
        let mut event = Event::Facts(self.facts);
        let mut delay = self.delay;
        loop {
            let action = call.advance(state, &FLAGS, event, &bytes, &more, self.now);
            self.log.push(action);
            bytes.clear();
            more.clear();
            event = match action {
                Action::TakeCaptureRequest => Event::Done,
                Action::GuardAnswerRegion => Event::Flag(true),
                Action::RunSync => Event::Done,
                Action::QueryPending { slot } => Event::Flag(self.pending[slot]),
                Action::Poll { slot } => {
                    if self.silent || delay > 0 {
                        delay = delay.saturating_sub(1);
                        Event::Polled(Some(false))
                    } else {
                        self.pending[slot] = false;
                        Event::Polled(Some(true))
                    }
                }
                Action::Capture { .. } => {
                    bytes = vec![1; 1024];
                    Event::Captured { step: self.capture, original: true, model: false }
                }
                Action::Begin { slot } => {
                    self.pending[slot] = true;
                    Event::Flag(true)
                }
                Action::ReadAnswer { bytes: n, .. } => {
                    bytes = vec![2; n as usize];
                    Event::AnswerRead
                }
                Action::QueryHolds { .. } => Event::Flag(false),
                Action::QueryHelper => Event::Flag(self.alive),
                Action::PrepareZeroCopy { .. } => Event::Target(None),
                Action::SendHeld { .. } => Event::Done,
                Action::Sleep => {
                    self.now += 100_000;
                    Event::Done
                }
                Action::Meter { .. } => Event::Done,
                Action::QueryAnswered => Event::Size(self.echoed),
                Action::Compose(_) => Event::Composed(if self.composes { Some(5) } else { None }),
                Action::WriteBack => Event::Flag(true),
                Action::Finish { semaphore, timing } => return (semaphore, timing),
            };
        }
    }

    fn saw(&self, test: impl Fn(&Action) -> bool) -> bool {
        self.log.iter().any(test)
    }
}

#[test]
fn a_synchronous_present_shows_its_own_answer() {
    let mut state = PresentState::new();
    let mut outside = Outside::new(facts(settings()));
    outside.delay = 3;
    assert_eq!(outside.present(&mut state, frame(false)), (Some(5), Some(true)));
    assert_eq!(state.last_answer, vec![2; 1024]);
    assert_eq!(state.raw_answer_base, vec![1; 1024]);
    assert_eq!(state.raw_answer_generation, 1);
    assert_eq!(state.slot0.dims, Some(FrameDims { width: 16, height: 16, format: 1 }));
    assert_eq!(state.slot0.presents, 1);
    assert!(outside.saw(|a| matches!(a, Action::Compose(r) if r.generation == 1 && r.ghost_guard == 0 && !r.on_gpu)));
    assert!(outside.saw(|a| matches!(a, Action::Meter { region: false })));
}

#[test]
fn a_silent_helper_costs_a_frame_its_budget_and_no_more() {
    let mut state = PresentState::new();
    let mut outside = Outside::new(facts(settings()));
    outside.silent = true;
    let began = outside.now;
    assert_eq!(outside.present(&mut state, frame(false)), (None, Some(false)));
    assert!(outside.now - began >= SYNC_BUDGET && outside.now - began <= SYNC_BUDGET + 100_000);
    // The late request is not waited for again.
    let again = outside.now;
    assert_eq!(outside.present(&mut state, frame(false)), (None, Some(false)));
    assert_eq!(outside.now, again);
    assert!(!outside.saw(|a| matches!(a, Action::Compose(_))));
}

#[test]
fn a_failed_capture_or_a_missing_helper_costs_nothing() {
    let mut state = PresentState::new();
    let mut outside = Outside::new(facts(settings()));
    outside.capture = CaptureStep::Failed;
    assert_eq!(outside.present(&mut state, frame(false)), (None, Some(false)));
    assert_eq!(outside.now, 1_000);
    outside.alive = false;
    assert_eq!(outside.present(&mut state, frame(false)), (None, Some(false)));
    assert_eq!(outside.log.iter().filter(|a| matches!(a, Action::Capture { .. })).count(), 1);
}

#[test]
fn an_answer_of_another_raster_is_not_shown() {
    let mut state = PresentState::new();
    let mut outside = Outside::new(facts(settings()));
    outside.echoed = Some(raster(8, 8));
    assert_eq!(outside.present(&mut state, frame(false)), (None, Some(false)));
    assert!(state.last_answer.is_empty());
    outside.echoed = Some(raster(16, 16));
    assert_eq!(outside.present(&mut state, frame(false)), (Some(5), Some(true)));
}

#[test]
fn between_two_runs_of_the_model_the_answer_is_carried() {
    let mut state = PresentState::new();
    let mut outside = Outside::new(facts(Settings { model_interval: 2, ..settings() }));
    assert_eq!(outside.present(&mut state, frame(false)), (Some(5), Some(true)));
    outside.log.clear();
    assert_eq!(outside.present(&mut state, frame(false)), (Some(5), Some(true)));
    assert!(!outside.saw(|a| matches!(a, Action::Capture { .. } | Action::Begin { .. })));
    assert!(outside.saw(|a| matches!(a, Action::Compose(r) if r.generation == 1 && r.ghost_guard == 77)));
    outside.log.clear();
    assert_eq!(outside.present(&mut state, frame(false)), (Some(5), Some(true)));
    assert!(outside.saw(|a| matches!(a, Action::Capture { .. })));
    assert_eq!(state.raw_answer_generation, 2);
}

#[test]
fn a_held_frame_is_worked_on_again() {
    let mut state = PresentState::new();
    let mut outside = Outside::new(facts(Settings { hold_frame: true, ..settings() }));
    assert_eq!(outside.present(&mut state, frame(false)), (Some(5), Some(true)));
    assert!(state.held.is_some());
    outside.log.clear();
    assert_eq!(outside.present(&mut state, frame(false)), (Some(5), Some(true)));
    assert!(outside.saw(|a| matches!(a, Action::SendHeld { slot: 0, .. })));
    assert!(!outside.saw(|a| matches!(a, Action::Capture { .. } | Action::Meter { .. })));
    assert!(outside.saw(|a| matches!(a, Action::Compose(r) if r.held_original)));
    outside.facts = facts(settings());
    outside.present(&mut state, frame(false));
    assert!(state.held.is_none());
}

#[test]
fn a_pass_that_is_off_sends_one_frame_and_shows_none() {
    let mut state = PresentState::new();
    let mut outside = Outside::new(facts(Settings { neural_enabled: false, ..settings() }));
    assert_eq!(outside.present(&mut state, frame(false)), (None, None));
    assert!(outside.saw(|a| matches!(a, Action::Begin { slot: 0 })));
    outside.log.clear();
    assert_eq!(outside.present(&mut state, frame(false)), (None, None));
    assert!(state.bootstrap_complete);
    outside.log.clear();
    assert_eq!(outside.present(&mut state, frame(false)), (None, None));
    assert_eq!(outside.log.len(), 1);
}

#[test]
fn a_pipelined_present_waits_for_nothing() {
    let mut state = PresentState::new();
    let mut outside = Outside::new(facts(settings()));
    assert_eq!(outside.present(&mut state, frame(true)), (None, None));
    assert_eq!(outside.pending, [true, true]);
    assert_eq!(outside.present(&mut state, frame(true)), (Some(5), Some(true)));
    assert_eq!(outside.now, 1_000);
    assert_eq!(state.raw_answer_generation, 2);
    assert_eq!(state.raw_answer_base, vec![1; 1024]);
    assert!(outside.saw(|a| matches!(a, Action::Compose(r) if r.ghost_guard == 77)));
    // The answer stays on show while the next is made.
    outside.silent = true;
    assert_eq!(outside.present(&mut state, frame(true)), (Some(5), Some(true)));
    assert_eq!(state.raw_answer_generation, 2);
}

#[test]
fn an_unservable_dump_is_dropped_and_a_servable_one_served() {
    let mut state = PresentState::new();
    let mut outside = Outside::new(ChannelFacts { capture_requested: true, ..facts(settings()) });
    assert_eq!(outside.present(&mut state, Frame { same_image: false, ..frame(false) }), (Some(5), Some(true)));
    assert!(outside.saw(|a| matches!(a, Action::TakeCaptureRequest)));
    outside.log.clear();
    assert_eq!(outside.present(&mut state, frame(false)), (None, None));
    assert!(outside.saw(|a| matches!(a, Action::RunSync)));
}

#[test]
fn a_closed_channel_and_an_oversized_frame_are_left_alone() {
    let mut state = PresentState::new();
    let mut outside = Outside::new(ChannelFacts { settings: None, ..facts(settings()) });
    assert_eq!(outside.present(&mut state, frame(false)), (None, None));
    outside.facts = facts(settings());
    assert_eq!(outside.present(&mut state, Frame { region_capacity: 1023, ..frame(false) }), (None, None));
    assert_eq!(outside.present(&mut state, Frame { width: 0, ..frame(false) }), (None, None));
    assert_eq!(outside.log.len(), 3);
}

#[test]
fn an_answer_that_cannot_be_composed_is_written_back() {
    let mut state = PresentState::new();
    let mut outside = Outside::new(facts(settings()));
    outside.composes = false;
    assert_eq!(outside.present(&mut state, frame(false)), (None, Some(true)));
    assert!(outside.saw(|a| matches!(a, Action::WriteBack)));
}

#[test]
fn an_aligned_region_is_captured_into_directly() {
    let region = Some(SharedRegion { address: 8192, capacity: 4096 });
    let mut state = PresentState::new();
    let mut outside = Outside::new(ChannelFacts {
        proxy0: region,
        proxy1: region,
        answer: region,
        alignment: Some(4096),
        ..facts(settings())
    });
    outside.present(&mut state, frame(false));
    assert!(outside.saw(|a| matches!(a, Action::Capture { request, .. } if request.direct)));
    assert!(outside.saw(|a| matches!(a, Action::PrepareZeroCopy { address: 8192, import_bytes: 4096, bytes: 1024 })));
    // A model that works on another raster rules it out.
    outside.log.clear();
    outside.facts.scaled = Some(ScaledFrame { near_one: false, half_width: 4, half_height: 4 });
    outside.present(&mut state, frame(false));
    assert!(outside.saw(|a| matches!(a, Action::Capture { request, .. } if !request.direct && request.model == Some(raster(64, 64)))));
}

fn read_back(answered: bool, settings: Option<SyncSettings>, composed: bool, dump: bool) -> Vec<ReadbackAction> {
    let mut call = ReadbackCall::new(16, 16, 4, true, 0, 4096);
    let mut event = ReadbackEvent::Begin { existing: None };
    let mut log = Vec::new();
    loop {
        let action = call.advance(event);
        log.push(action);
        event = match action {
            ReadbackAction::Ensure { plan, bytes } => {
                assert_eq!((plan, bytes), (Ensure::Build, 1024));
                ReadbackEvent::Flag(true)
            }
            ReadbackAction::ReadBack | ReadbackAction::WriteBack => ReadbackEvent::Flag(true),
            ReadbackAction::RoundTrip { bytes } => {
                assert_eq!(bytes, 1024);
                ReadbackEvent::Flag(answered)
            }
            ReadbackAction::ReadAnswer { .. } => ReadbackEvent::AnswerRead { settings },
            ReadbackAction::Compose => ReadbackEvent::Flag(composed),
            ReadbackAction::TakeCaptureRequest => ReadbackEvent::Flag(dump),
            ReadbackAction::ComposeOnCpu { .. } | ReadbackAction::Restore | ReadbackAction::Dump => ReadbackEvent::Done,
            ReadbackAction::Finish { .. } => return log,
        };
    }
}

#[test]
fn a_read_back_composes_what_the_settings_say() {
    let on = SyncSettings { apply_model: true, neural_enabled: true, debug_view: 0 };
    let log = read_back(true, Some(on), true, true);
    assert!(log.contains(&ReadbackAction::Compose) && log.contains(&ReadbackAction::Dump));
    assert_eq!(log.last(), Some(&ReadbackAction::Finish { timing: Some(true) }));
    assert!(read_back(true, Some(on), false, false).contains(&ReadbackAction::ComposeOnCpu { debug_view: 0 }));
    let view = SyncSettings { debug_view: 3, ..on };
    let log = read_back(true, Some(view), true, false);
    assert!(log.contains(&ReadbackAction::ComposeOnCpu { debug_view: 3 }) && !log.contains(&ReadbackAction::Compose));
    let off = SyncSettings { apply_model: false, ..on };
    assert!(read_back(true, Some(off), true, false).contains(&ReadbackAction::Restore));
    let log = read_back(false, Some(on), true, true);
    assert!(log.contains(&ReadbackAction::Dump) && !log.contains(&ReadbackAction::Compose));
    assert_eq!(log.last(), Some(&ReadbackAction::Finish { timing: Some(false) }));
    assert_eq!(read_back(true, None, true, false).len(), 7);
}

#[test]
fn a_read_back_ends_where_something_fails() {
    let mut call = ReadbackCall::new(64, 64, 4, true, 0, 4096);
    let begin = ReadbackEvent::Begin { existing: Some((0, 1 << 20)) };
    assert_eq!(call.advance(begin), ReadbackAction::Finish { timing: None });
    let mut call = ReadbackCall::new(16, 16, 4, true, 0, 4096);
    assert_eq!(call.advance(begin), ReadbackAction::Ensure { plan: Ensure::Keep, bytes: 1024 });
    assert_eq!(call.advance(ReadbackEvent::Flag(true)), ReadbackAction::ReadBack);
    assert_eq!(call.advance(ReadbackEvent::Flag(false)), ReadbackAction::Finish { timing: None });
}

fn compose(slots: &mut Slots, work: Work, base: u64, answer: u64) -> Vec<ComposeAction> {
    let mut call = ComposeCall::new(work, 16, 16, base, answer);
    let mut event = ComposeEvent::Begin;
    let mut log = Vec::new();
    loop {
        let action = call.advance(slots, event);
        log.push(action);
        event = match action {
            ComposeAction::Acquire | ComposeAction::Wait { .. } | ComposeAction::Shrink { .. } => ComposeEvent::Flag(true),
            ComposeAction::Submit { .. } => ComposeEvent::Flag(true),
            ComposeAction::Size { .. } => ComposeEvent::Sized { ok: true, capacity: 2048 },
            ComposeAction::Upload { .. } | ComposeAction::Download { .. } => ComposeEvent::Done,
            ComposeAction::Finish { .. } => return log,
        };
    }
}

const FAILED: ComposeAction = ComposeAction::Finish { ok: false };
const COMPOSED: ComposeAction = ComposeAction::Finish { ok: true };

#[test]
fn a_delta_upscales_a_smaller_answer_and_rejects_an_oversized_one() {
    let mut slots = Slots::new();
    let delta = |w, h, generation| Work::TemporalDelta { answer: raster(w, h), generation };
    let log = compose(&mut slots, delta(8, 8, 1), 1024, 256);
    assert!(log.contains(&ComposeAction::Shrink { slot: SlotId::First, plan: Ensure::Build, answer: raster(8, 8) }));
    assert!(log.contains(&ComposeAction::Upload { slot: SlotId::First, base_bytes: 1024, answer_bytes: 256 }));
    assert_eq!(log.last(), Some(&COMPOSED));
    assert_eq!(compose(&mut slots, delta(24, 24, 2), 1024, 4096).last(), Some(&FAILED));
    assert_eq!(compose(&mut slots, delta(16, 16, 0), 1024, 1024).last(), Some(&FAILED));
    assert_eq!(compose(&mut slots, delta(16, 16, 1), 1023, 1024).last(), Some(&FAILED));
    assert_eq!(compose(&mut slots, delta(16, 16, 1), 1024, 1023).last(), Some(&FAILED));
}

#[test]
fn an_answer_is_uploaded_once_to_each_slot() {
    let mut slots = Slots::new();
    let raw = Work::CachedRaw { generation: 4 };
    for round in 0..4 {
        let log = compose(&mut slots, raw, 0, 1024);
        let slot = if round % 2 == 0 { SlotId::First } else { SlotId::Second };
        assert!(log.contains(&ComposeAction::Wait { slot }));
        assert_eq!(log.iter().any(|a| matches!(a, ComposeAction::Upload { .. })), round < 2);
        assert_eq!(log.last(), Some(&COMPOSED));
    }
    assert_eq!(compose(&mut slots, Work::CachedRaw { generation: 0 }, 0, 1024).last(), Some(&FAILED));
    // Another size is built anew, and holds nothing.
    let mut call = ComposeCall::new(raw, 8, 8, 0, 1024);
    call.advance(&mut slots, ComposeEvent::Begin);
    call.advance(&mut slots, ComposeEvent::Flag(true));
    assert_eq!(
        call.advance(&mut slots, ComposeEvent::Flag(true)),
        ComposeAction::Size { slot: SlotId::Second, plan: Ensure::Rebuild }
    );
    assert_eq!(slots.second.cached_generation, 0);
}

#[test]
fn a_waited_composition_hands_its_frame_back() {
    let mut slots = Slots::new();
    let log = compose(&mut slots, Work::Download, 1024, 1024);
    assert!(log.contains(&ComposeAction::Download { slot: SlotId::Waited, bytes: 1024 }));
    assert!(!log.contains(&ComposeAction::Acquire));
    assert_eq!(slots.next, 0);
    let into = compose(&mut slots, Work::IntoImage, 1024, 1024);
    assert!(into.contains(&ComposeAction::Size { slot: SlotId::Waited, plan: Ensure::Keep }));
    let later = compose(&mut slots, Work::IntoImageAsync, 1024, 1024);
    assert_eq!(later[0], ComposeAction::Acquire);
    assert_eq!(compose(&mut slots, Work::Download, 1024, 1000).last(), Some(&FAILED));
    let mut call = ComposeCall::new(Work::Download, 16, 16, 1024, 1024);
    call.advance(&mut slots, ComposeEvent::Begin);
    assert_eq!(call.advance(&mut slots, ComposeEvent::Sized { ok: true, capacity: 2047 }), FAILED);
}

#[test]
fn a_submission_performs_its_steps_in_order() {
    let mut step = submit_start();
    let mut seen = Vec::new();
    while step != SubmitStep::Succeeded {
        seen.push(step);
        step = submit_next(step, true, true);
    }
    assert_eq!(
        seen,
        [
            SubmitStep::ResetCommands,
            SubmitStep::Begin,
            SubmitStep::Record,
            SubmitStep::End,
            SubmitStep::ResetFence,
            SubmitStep::Submit,
            SubmitStep::Wait
        ]
    );
    assert_eq!(submit_next(SubmitStep::Submit, true, false), SubmitStep::Succeeded);
    assert_eq!(submit_next(SubmitStep::End, false, true), SubmitStep::Failed);
    assert_eq!(submit_next(SubmitStep::Failed, true, true), SubmitStep::Failed);
}
