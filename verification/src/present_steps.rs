//! What each step of a present comes to, told by what it was asked and what came of it.
//!
//! The laws of this module speak of one step at a time. Those of [`crate::present_runs`] speak of whole
//! presents.

use crate::capture_step::{aligned, CaptureRequest, CaptureStep};
use crate::present::{
    boot_next, capture_start_next, compose_next, decide_next, effected, facts_of, gate_next, leftover_next,
    nothing_known, slot_end_next, slot_next, spec_deadline_after, spec_importable, spec_next_generation,
    spec_next_slot, spec_raster_bytes, sync_next, Action, ChannelFacts, ComposeRequest, Effect, Event, FrameDims,
    HeldFacts, HeldView, InflightView, Locals, Next, Phase, PresentCall, PresentView, SharedRegion, StateFacts,
};
use crate::scaling::{model_raster, Raster};
use vstd::prelude::*;

verus! {

/// A step that ends a present, with nothing done to the state.
pub open spec fn ends(n: Next, semaphore: Option<u64>, timing: Option<bool>) -> bool {
    &&& n.call.phase == Phase::Finished
    &&& n.action == (Action::Finish { semaphore, timing })
    &&& n.first == Effect::Nothing && n.second == Effect::Nothing && n.third == Effect::Nothing
}

/// A step that leads on to a phase and changes nothing that the present knows, nor the state.
pub open spec fn leads_to(c: PresentCall, n: Next, phase: Phase, action: Action) -> bool {
    &&& n.call == (PresentCall { phase, ..c })
    &&& n.action == action
    &&& n.first == Effect::Nothing && n.second == Effect::Nothing && n.third == Effect::Nothing
}

/// The bytes of a raster are its pixels times the bytes of one, as far as 64 bits go; a generation is
/// followed by the next number, and the largest by one; a wait ends a quarter of a second after it began,
/// as far as 64 bits go.
pub proof fn sizes_and_times_are_counted(width: u32, height: u32, each: u32, generation: u64, now: u64)
    ensures
        spec_raster_bytes(width, height, each) as int == vstd::math::min(
            width * height * each,
            0xffff_ffff_ffff_ffff,
        ),
        spec_next_generation(generation) as int == (if generation < u64::MAX {
            generation + 1
        } else {
            1
        }),
        spec_deadline_after(now) as int == vstd::math::min(now + 250_000_000, 0xffff_ffff_ffff_ffff),
{
    let pixels = width * height;
    assert(0 <= pixels * each) by (nonlinear_arith)
        requires
            pixels == width * height,
            0 <= width,
            0 <= height,
            0 <= each,
    ;
}

/// The part of the answer region that is imported begins where the region does, and is the least multiple
/// of the alignment that holds the frame; it can be imported where the region begins at a multiple of the
/// alignment and holds that much.
pub proof fn an_answer_is_imported_aligned(region: SharedRegion, alignment: u64, bytes: u64, multiple: int)
    ensures
        spec_importable(None, Some(alignment), bytes) is None,
        spec_importable(Some(region), None, bytes) is None,
        alignment == 0 || region.address % alignment != 0 ==> spec_importable(
            Some(region),
            Some(alignment),
            bytes,
        ) is None,
        spec_importable(Some(region), Some(alignment), bytes) matches Some(part) ==> {
            &&& part.address == region.address
            &&& bytes <= part.capacity <= region.capacity
            &&& part.capacity % alignment == 0
            &&& multiple >= bytes && multiple % (alignment as int) == 0 ==> part.capacity <= multiple
        },
        alignment > 0 && region.address % alignment == 0 && bytes <= multiple <= region.capacity && multiple % (
        alignment as int) == 0 ==> spec_importable(Some(region), Some(alignment), bytes) is Some,
{
    if alignment > 0 {
        let rounded = aligned(bytes, alignment);
        let (a, b) = (alignment as int, bytes as int);
        let q = (b + a - 1) / a;
        vstd::arithmetic::div_mod::lemma_fundamental_div_mod(b + a - 1, a);
        vstd::arithmetic::mul::lemma_mul_is_commutative(a, q);
        vstd::arithmetic::div_mod::lemma_mod_multiples_basic(q, a);
        assert(b <= rounded < b + a && rounded % a == 0);
        if multiple >= b && multiple % a == 0 {
            let (p, r) = (rounded / a, multiple / a);
            vstd::arithmetic::div_mod::lemma_fundamental_div_mod(rounded, a);
            vstd::arithmetic::div_mod::lemma_fundamental_div_mod(multiple, a);
            assert(rounded <= multiple) by (nonlinear_arith)
                requires
                    rounded == a * p,
                    multiple == a * r,
                    rounded < multiple + a,
                    a > 0,
            ;
        }
    }
}

proof fn lemma_gate_ignores_the_phase(c: PresentCall, f: StateFacts, phase: Phase)
    ensures
        gate_next(PresentCall { phase, ..c }, f) == gate_next(c, f),
{
    reveal(gate_next);
}

/// A present without settings ends at once. One of which a dump was asked serves it where it shows the
/// captured image, and else drops the request; then, and without one, it goes on the same way.
pub proof fn a_present_begins_with_its_settings(c: PresentCall, f: StateFacts, facts: ChannelFacts, now: u64)
    requires
        c.phase == Phase::Starting,
    ensures
        ({
            let n = decide_next(c, f, Event::Facts(facts), now);
            match facts.settings {
                None => ends(n, None, None),
                Some(settings) => {
                    let known = PresentCall { l: Locals { settings, facts, ..c.l }, ..c };
                    let dropped = PresentCall { phase: Phase::Dropping, ..known };
                    if !facts.capture_requested {
                        n == decide_next(dropped, f, Event::Done, now)
                    } else if c.frame.same_image {
                        leads_to(known, n, Phase::DumpGuard, Action::GuardAnswerRegion)
                    } else {
                        leads_to(known, n, Phase::Dropping, Action::TakeCaptureRequest)
                    }
                },
            }
        }),
{
    if facts.settings is Some {
        let known = PresentCall { l: Locals { settings: facts.settings->0, facts, ..c.l }, ..c };
        lemma_gate_ignores_the_phase(known, f, Phase::Dropping);
    }
}

/// A dump is served once nothing on the GPU reads the answer region, and ends the present.
pub proof fn a_dump_ends_the_present(c: PresentCall, f: StateFacts, now: u64)
    ensures
        leads_to(
            c,
            decide_next(PresentCall { phase: Phase::DumpGuard, ..c }, f, Event::Flag(true), now),
            Phase::Dumping,
            Action::RunSync,
        ),
        ends(decide_next(PresentCall { phase: Phase::DumpGuard, ..c }, f, Event::Flag(false), now), None, None),
        ends(decide_next(PresentCall { phase: Phase::Dumping, ..c }, f, Event::Done, now), None, None),
{
}

/// A region that begins and ends at multiples of the alignment.
pub open spec fn is_aligned(region: Option<SharedRegion>, alignment: Option<u64>) -> bool {
    &&& region is Some && alignment is Some && alignment->0 > 0
    &&& region->0.address % alignment->0 == 0
    &&& region->0.capacity % alignment->0 == 0
}

/// What a present does: nothing for a frame without pixels or one that the region does not hold; while
/// the model is not applied, the pass is off or the model is not there, one frame is sent for the helper
/// to build its images by, and once it was answered, none. Else a pipelined present goes through its two
/// slots, and a synchronous one counts itself and asks for the answer that the GPU holds. A frame is
/// captured straight into the regions where host memory can be imported, both are aligned, and the model
/// works on the frame as it is; only then is the answer imported.
pub proof fn a_present_takes_one_of_four_ways(c: PresentCall, f: StateFacts, now: u64)
    requires
        c.phase == Phase::Dropping,
    ensures
        ({
            let n = decide_next(c, f, Event::Done, now);
            let facts = c.l.facts;
            let bytes = vstd::math::min(
                c.frame.width * c.frame.height * c.frame.format.bytes_per_pixel,
                0xffff_ffff_ffff_ffff,
            );
            let off = !(c.l.settings.apply_model && c.l.settings.neural_enabled) || facts.model_unavailable;
            let importing = f.external_memory_host && is_aligned(facts.proxy0, facts.alignment) && is_aligned(
                facts.proxy1,
                facts.alignment,
            );
            &&& n.second == Effect::Nothing && n.third == Effect::Nothing
            &&& if bytes == 0 || bytes > c.frame.region_capacity || off && f.bootstrap_complete {
                ends(n, None, None)
            } else if off {
                &&& n.call.phase == Phase::BootPending && n.action == (Action::QueryPending { slot: 0 })
                &&& n.call.l.bytes == bytes && n.call.l.use_direct == importing
                &&& n.first == Effect::Nothing
            } else {
                let raster = n.call.l.raster;
                let direct = importing && raster.width == c.frame.width && raster.height == c.frame.height;
                &&& n.call.l.bytes == bytes && n.call.l.slot == 0 && n.call.l.use_direct == direct
                &&& (raster.width, raster.height) == model_raster(
                    c.frame.width,
                    c.frame.height,
                    facts.pixel_limit,
                    facts.scaled,
                )
                &&& n.call.l.answer_import == (if direct {
                    spec_importable(facts.answer, facts.alignment, bytes as u64)
                } else {
                    None
                })
                &&& n.call.l.settings == c.l.settings && n.call.frame == c.frame
                &&& c.frame.pipelined ==> {
                    &&& n.call.phase == Phase::SlotPending && n.action == (Action::QueryPending { slot: 0 })
                    &&& !n.call.l.have_answer && n.first == Effect::Nothing
                }
                &&& !c.frame.pipelined ==> {
                    &&& n.call.phase == Phase::Holds && n.action == (Action::QueryHolds { generation: f.generation })
                    &&& n.first == Effect::CountPresent
                }
            }
        }),
{
    reveal(gate_next);
    let (w, h, b) = (c.frame.width, c.frame.height, c.frame.format.bytes_per_pixel);
    sizes_and_times_are_counted(w, h, b, 0, 0);
}

/// What is asked of a capture.
pub open spec fn asks_for_frame(c: PresentCall, r: CaptureRequest) -> bool {
    &&& r.direct == c.l.use_direct
    &&& r.width == c.frame.width && r.height == c.frame.height && r.format == c.frame.format.code
    &&& r.bytes == c.l.bytes
}

/// What a capture leaves: the bytes that came with it, and no frame where that is on the GPU only.
pub open spec fn leaves(step: CaptureStep, original: bool, model: bool) -> Effect {
    match step {
        CaptureStep::Captured { sent, gpu_original: true, proxy } => Effect::ClearOriginal,
        _ => Effect::StoreCapture { original, model },
    }
}

/// The frame that is sent while the pass is off goes out on the first slot, without a scaled copy, once
/// nothing is outstanding there; the answer to it completes the matter. Whatever fails ends the present.
pub proof fn one_frame_is_sent_to_begin_with(
    c: PresentCall,
    f: StateFacts,
    now: u64,
    flag: bool,
    polled: Option<bool>,
    step: CaptureStep,
    original: bool,
    model: bool,
)
    ensures
        ({
            let n = decide_next(PresentCall { phase: Phase::BootPending, ..c }, f, Event::Flag(flag), now);
            &&& flag ==> leads_to(c, n, Phase::BootPoll, Action::Poll { slot: 0 })
            &&& !flag ==> n.call.phase == Phase::BootCapture && (n.action matches Action::Capture { slot, request }
                && slot == 0 && asks_for_frame(c, request) && request.model is None && request.target is None
                && request.submitted_after is None)
        }),
        ({
            let n = decide_next(PresentCall { phase: Phase::BootPoll, ..c }, f, Event::Polled(polled), now);
            if polled == Some(true) {
                &&& n.first == Effect::CompleteBootstrap && n.second == Effect::Nothing && n.third == Effect::Nothing
                &&& n.action == (Action::Finish { semaphore: None, timing: None })
            } else {
                ends(n, None, None)
            }
        }),
        ({
            let e = Event::Captured { step, original, model };
            let n = decide_next(PresentCall { phase: Phase::BootCapture, ..c }, f, e, now);
            &&& n.first == leaves(step, original, model) && n.second == Effect::Nothing
            &&& step is Captured ==> n.call.phase == Phase::BootGuard && n.action == Action::GuardAnswerRegion
            &&& !(step is Captured) ==> n.action == (Action::Finish { semaphore: None, timing: None })
        }),
        ({
            let n = decide_next(PresentCall { phase: Phase::BootGuard, ..c }, f, Event::Flag(flag), now);
            &&& flag ==> leads_to(c, n, Phase::BootBegin, Action::Begin { slot: 0 })
            &&& !flag ==> ends(n, None, None)
        }),
        ({
            let n = decide_next(PresentCall { phase: Phase::BootBegin, ..c }, f, Event::Flag(flag), now);
            &&& n.action == (Action::Finish { semaphore: None, timing: None })
            &&& flag ==> n.first == (Effect::Sent {
                slot: 0,
                dims: FrameDims { width: c.frame.width, height: c.frame.height, format: c.frame.format.code },
                proxy: None,
                keep_original: false,
            })
            &&& !flag ==> n.first == Effect::Nothing
        }),
{
    reveal(boot_next);
}

/// The end of a slot's turn: an answer that came is shown where it was `current` and has eight bits a
/// channel; then the second slot has its turn, or the present goes on to the composition.
pub open spec fn ends_turn(c: PresentCall, f: StateFacts, n: Next, current: bool, first: Effect) -> bool {
    let shows = c.l.have_answer && current && c.frame.format.eight_bit;
    &&& n.first == first && n.third == Effect::Nothing
    &&& n.second == (if shows {
        Effect::PublishAnswer { raster: c.l.answer }
    } else {
        Effect::Nothing
    })
    &&& c.l.slot == 0 ==> {
        &&& n.call.phase == Phase::SlotPending && n.action == (Action::QueryPending { slot: 1 })
        &&& n.call.l.slot == 1 && !n.call.l.have_answer
    }
    &&& c.l.slot != 0 ==> n.call.phase == Phase::FinalHolds && n.action == (Action::QueryHolds {
        generation: if !shows {
            f.generation
        } else if f.generation == u64::MAX {
            1
        } else {
            (f.generation + 1) as u64
        },
    })
}

/// A slot has its turn in a pipelined present: the answer to what is outstanding on it is read, as many
/// bytes as the raster has that it was sent at, and then it is asked whether anything is outstanding.
/// Nothing is waited for.
pub proof fn a_slot_reads_its_answer(c: PresentCall, f: StateFacts, now: u64, polled: Option<bool>)
    ensures
        ({
            let slot = c.l.slot;
            let scaled = if slot == 0 {
                f.proxy0
            } else {
                f.proxy1
            };
            let answer = if scaled is Some {
                scaled->0
            } else {
                Raster { width: c.frame.width, height: c.frame.height }
            };
            let n = decide_next(PresentCall { phase: Phase::SlotPoll, ..c }, f, Event::Polled(polled), now);
            &&& polled != Some(true) ==> leads_to(c, n, Phase::SlotFree, Action::QueryPending { slot })
            &&& polled == Some(true) ==> n.call.phase == Phase::SlotRead && n.call.l.answer == answer && n.call.l.slot
                == slot && n.first == Effect::Nothing && (n.action matches Action::ReadAnswer { slot: s, bytes } && s
                == slot && bytes == vstd::math::min(
                answer.width * answer.height * c.frame.format.bytes_per_pixel,
                0xffff_ffff_ffff_ffff,
            ))
        }),
        leads_to(
            c,
            decide_next(PresentCall { phase: Phase::SlotPending, ..c }, f, Event::Flag(true), now),
            Phase::SlotPoll,
            Action::Poll { slot: c.l.slot },
        ),
        leads_to(
            c,
            decide_next(PresentCall { phase: Phase::SlotPending, ..c }, f, Event::Flag(false), now),
            Phase::SlotFree,
            Action::QueryPending { slot: c.l.slot },
        ),
        ({
            let n = decide_next(PresentCall { phase: Phase::SlotRead, ..c }, f, Event::AnswerRead, now);
            &&& n.first == (Effect::TakeAnswer { slot: c.l.slot }) && n.second == Effect::Nothing
            &&& n.call.phase == Phase::SlotFree && n.call.l.have_answer && n.call.l.answer == c.l.answer
            &&& n.call.l.slot == c.l.slot && n.action == (Action::QueryPending { slot: c.l.slot })
        }),
{
    reveal(slot_next);
    let scaled = if c.l.slot == 0 {
        f.proxy0
    } else {
        f.proxy1
    };
    let answer = if scaled is Some {
        scaled->0
    } else {
        Raster { width: c.frame.width, height: c.frame.height }
    };
    sizes_and_times_are_counted(answer.width, answer.height, c.frame.format.bytes_per_pixel, 0, 0);
}

/// Where nothing is outstanding on a slot, the frame is captured for it, scaled to the model's raster
/// where it has eight bits a channel.
pub proof fn a_slot_captures_when_free(c: PresentCall, f: StateFacts, now: u64)
    requires
        c.phase == Phase::SlotFree,
    ensures
        ({
            let n = decide_next(c, f, Event::Flag(false), now);
            &&& n.call.phase == Phase::SlotCapture && n.call.l == c.l && n.first == Effect::Nothing
            &&& n.action matches Action::Capture { slot: s, request } && s == c.l.slot && asks_for_frame(c, request)
                && request.target is None && request.submitted_after is None && request.model == (
            if c.frame.format.eight_bit {
                Some(c.l.raster)
            } else {
                None
            })
        }),
{
    reveal(slot_next);
}

/// Whether the last request of the slot was for a frame of this size and format.
pub open spec fn is_current(c: PresentCall, f: StateFacts) -> bool {
    (if c.l.slot == 0 {
        f.dims0
    } else {
        f.dims1
    }) == Some(FrameDims { width: c.frame.width, height: c.frame.height, format: c.frame.format.code })
}

/// A captured frame is handed over once nothing on the GPU reads the answer region, and goes out with its
/// size and format, the raster that it was sent at where that is another, and its bytes; whatever fails,
/// or is outstanding, ends the slot's turn. What came for it is kept.
pub proof fn a_slot_sends_what_it_captured(
    c: PresentCall,
    f: StateFacts,
    now: u64,
    flag: bool,
    step: CaptureStep,
    original: bool,
    model: bool,
)
    ensures
        c.phase == Phase::SlotFree ==> ends_turn(
            c,
            f,
            decide_next(c, f, Event::Flag(true), now),
            is_current(c, f),
            Effect::Nothing,
        ),
        c.phase == Phase::SlotCapture ==> {
            let n = decide_next(c, f, Event::Captured { step, original, model }, now);
            match step {
                CaptureStep::Captured { sent, gpu_original, proxy } => {
                    &&& n.first == leaves(step, original, model) && n.second == Effect::Nothing
                    &&& n.call.phase == Phase::SlotGuard && n.action == Action::GuardAnswerRegion
                    &&& n.call.l.sent == sent && n.call.l.slot == c.l.slot && n.call.l.have_answer == c.l.have_answer
                },
                _ => ends_turn(c, f, n, is_current(c, f), leaves(step, original, model)),
            }
        },
        c.phase == Phase::SlotGuard ==> {
            let n = decide_next(c, f, Event::Flag(flag), now);
            &&& flag ==> leads_to(c, n, Phase::SlotBegin, Action::Begin { slot: c.l.slot })
            &&& !flag ==> ends_turn(c, f, n, is_current(c, f), Effect::Nothing)
        },
        c.phase == Phase::SlotBegin ==> {
            let n = decide_next(c, f, Event::Flag(flag), now);
            &&& !flag ==> ends_turn(c, f, n, is_current(c, f), Effect::Nothing)
            &&& flag ==> ends_turn(
                c,
                f,
                n,
                true,
                Effect::Sent {
                    slot: c.l.slot,
                    dims: FrameDims { width: c.frame.width, height: c.frame.height, format: c.frame.format.code },
                    proxy: if c.l.sent.width == c.frame.width && c.l.sent.height == c.frame.height {
                        None
                    } else {
                        Some(c.l.sent)
                    },
                    keep_original: true,
                },
            )
        },
{
    reveal(slot_next);
    reveal(slot_end_next);
}

/// A synchronous present carries the last answer where the model runs on every so many presents only,
/// this is none of them, no frame is held, there is an answer on the CPU or the GPU, and it was made for a
/// frame of this size and format. The model runs on the first of them: the count includes this present.
pub proof fn an_answer_is_carried_between_runs(c: PresentCall, f: StateFacts, now: u64, holds: bool)
    requires
        c.phase == Phase::Holds,
    ensures
        ({
            let n = decide_next(c, f, Event::Flag(holds), now);
            let number = if f.presents == 0 {
                0xffff_ffff_ffff_ffff
            } else {
                f.presents - 1
            };
            let carry = c.l.settings.model_interval >= 2 && number % (c.l.settings.model_interval as int) != 0
                && !c.l.settings.hold_frame && (holds || !f.last_answer_empty) && f.dims0 == Some(
                FrameDims { width: c.frame.width, height: c.frame.height, format: c.frame.format.code },
            );
            let size = f.last_answer_size;
            let bytes = vstd::math::min(
                size.width * size.height * c.frame.format.bytes_per_pixel,
                0xffff_ffff_ffff_ffff,
            );
            &&& n.first == Effect::Nothing && n.second == Effect::Nothing && n.third == Effect::Nothing
            &&& carry ==> {
                &&& n.call.phase == Phase::FinalHolds && n.action == (Action::QueryHolds { generation: f.generation })
                &&& n.call.l.carried
                &&& n.call.l.small_proxy <==> !(size.width == c.frame.width && size.height == c.frame.height)
                    && f.model_scratch_len >= bytes
            }
            &&& !carry ==> leads_to(c, n, Phase::Alive, Action::QueryHelper)
        }),
{
    reveal(sync_next);
    sizes_and_times_are_counted(
        f.last_answer_size.width,
        f.last_answer_size.height,
        c.frame.format.bytes_per_pixel,
        0,
        0,
    );
}

/// Where a step goes on once the slots were looked through: a zero-copy capture is prepared where no frame
/// is held, the frame has eight bits a channel, it is allowed, and a part of the answer region can be
/// imported; else the frame is taken.
pub open spec fn goes_for_the_frame(c: PresentCall, f: StateFacts, now: u64, n: Next) -> bool {
    if !c.l.settings.hold_frame && c.frame.format.eight_bit && c.frame.zero_copy_allowed && c.l.answer_import is Some {
        leads_to(
            c,
            n,
            Phase::ZeroCopy,
            Action::PrepareZeroCopy {
                address: c.l.answer_import->0.address,
                import_bytes: c.l.answer_import->0.capacity,
                bytes: c.l.bytes,
            },
        )
    } else {
        takes_the_frame(c, f, None, now, n)
    }
}

/// The held frame is sent again where one is held, holding is asked for, and it is of this size; else it
/// is dropped, and this frame captured, by a submission from now on, into the buffer `target` too.
pub open spec fn takes_the_frame(c: PresentCall, f: StateFacts, target: Option<u64>, now: u64, n: Next) -> bool {
    &&& n.second == Effect::Nothing && n.third == Effect::Nothing
    &&& n.call.l.target == target && n.call.l.started == now && n.call.l.deadline == c.l.deadline
    &&& n.call.l.settings == c.l.settings && n.call.frame == c.frame && n.call.l.use_direct == c.l.use_direct
    &&& if f.held is Some && c.l.settings.hold_frame && f.held->0.width == c.frame.width && f.held->0.height
        == c.frame.height {
        &&& n.first == Effect::LoadHeld && n.call.l.holding && !n.call.l.gpu_original
        &&& n.call.l.sent == f.held->0.sent
        &&& n.call.phase == Phase::HeldSend && n.action == (Action::SendHeld { slot: 0, sent: f.held->0.sent })
    } else {
        &&& n.first == Effect::DropHeld && !n.call.l.holding
        &&& n.call.phase == Phase::SyncCapture
        &&& n.action matches Action::Capture { slot, request } && slot == 0 && asks_for_frame(c, request)
            && request.target == target && request.submitted_after == Some(now) && request.model == (
        if c.frame.format.eight_bit {
            Some(c.l.raster)
        } else {
            None
        })
    }
}

/// With a live helper the wait begins, for a quarter of a second at most, and the first slot is looked at;
/// without one the present ends.
pub proof fn the_wait_begins_with_a_live_helper(c: PresentCall, f: StateFacts, now: u64, alive: bool)
    requires
        c.phase == Phase::Alive,
    ensures
        ({
            let n = decide_next(c, f, Event::Flag(alive), now);
            &&& !alive ==> ends(n, None, Some(false))
            &&& alive ==> n.call.phase == Phase::LeftPending && n.action == (Action::QueryPending { slot: 0 })
                && n.call.l.slot == 0 && n.call.l.deadline as int == vstd::math::min(
                now + 250_000_000,
                0xffff_ffff_ffff_ffff,
            ) && n.first == Effect::Nothing
        }),
{
    reveal(sync_next);
    reveal(leftover_next);
    sizes_and_times_are_counted(0, 0, 0, 0, now);
}

/// What is outstanding on a slot is asked after, and a request that is still unanswered on the first slot
/// ends the present.
pub proof fn a_leftover_is_asked_after(c: PresentCall, f: StateFacts, now: u64)
    ensures
        c.phase == Phase::LeftPending ==> leads_to(
            c,
            decide_next(c, f, Event::Flag(true), now),
            Phase::LeftPoll,
            Action::Poll { slot: c.l.slot },
        ),
        c.phase == Phase::LeftPoll && c.l.slot == 0 ==> ends(
            decide_next(c, f, Event::Polled(Some(false)), now),
            None,
            Some(false),
        ),
{
    reveal(sync_next);
}

/// The slots are looked through one after the other: behind the first comes the second, and behind that
/// the frame.
pub open spec fn looks_further(c: PresentCall, f: StateFacts, now: u64, n: Next) -> bool {
    &&& c.l.slot == 0 ==> n.call.phase == Phase::LeftPending && n.action == (Action::QueryPending { slot: 1 })
        && n.call.l.slot == 1 && n.first == Effect::Nothing && n.call.l.deadline == c.l.deadline
    &&& c.l.slot != 0 ==> goes_for_the_frame(c, f, now, n)
}

proof fn lemma_looks_further(c: PresentCall, f: StateFacts, now: u64)
    ensures
        looks_further(c, f, now, leftover_next(c, f, spec_next_slot(c.l.slot), now)),
{
    reveal(leftover_next);
    reveal(capture_start_next);
}

/// A slot on which nothing is outstanding, or on which what is outstanding was answered or is gone, is
/// passed by, and so is the second slot whatever is outstanding there.
pub proof fn slots_are_passed_by(c: PresentCall, f: StateFacts, now: u64, polled: Option<bool>)
    ensures
        c.phase == Phase::LeftPending ==> looks_further(c, f, now, decide_next(c, f, Event::Flag(false), now)),
        c.phase == Phase::LeftPoll && !(polled == Some(false) && c.l.slot == 0) ==> looks_further(
            c,
            f,
            now,
            decide_next(c, f, Event::Polled(polled), now),
        ),
{
    reveal(sync_next);
    lemma_looks_further(c, f, now);
}

/// The buffer that a zero-copy capture is to fill goes with the capture.
pub proof fn a_zero_copy_capture_fills_its_buffer(c: PresentCall, f: StateFacts, now: u64, target: Option<u64>)
    requires
        c.phase == Phase::ZeroCopy,
    ensures
        takes_the_frame(c, f, target, now, decide_next(c, f, Event::Target(target), now)),
{
    reveal(sync_next);
    reveal(capture_start_next);
}

/// Once the frame is there, it is held from now on where that is asked for and it is not held already, and
/// metered where the count of frames is a multiple of eight; the frame of the answer region is metered there
/// where it is on the GPU whole. A held frame is neither counted nor metered.
pub open spec fn has_the_frame(c: PresentCall, f: StateFacts, first: Effect, n: Next) -> bool {
    let whole = c.l.sent.width == c.frame.width && c.l.sent.height == c.frame.height;
    &&& n.first == first
    &&& n.call.l == c.l && n.call.frame == c.frame
    &&& n.second == (if c.l.settings.hold_frame && !c.l.holding {
        Effect::Hold {
            width: c.frame.width,
            height: c.frame.height,
            sent: c.l.sent,
            whole: c.l.use_direct && whole,
        }
    } else {
        Effect::Nothing
    })
    &&& n.third == (if c.l.holding {
        Effect::Nothing
    } else {
        Effect::CountMeter
    })
    &&& if !c.l.holding && f.meter_frame % 8 == 0 {
        n.call.phase == Phase::Metering && n.action == (Action::Meter {
            region: c.l.target is Some && c.l.gpu_original && whole,
        })
    } else {
        n.call.phase == Phase::SyncGuard && n.action == Action::GuardAnswerRegion
    }
}

/// A capture is waited for, by asking again after a short sleep, before the deadline and not from then on;
/// one that failed ends the present. What came with it is kept.
pub proof fn a_capture_is_waited_for(
    c: PresentCall,
    f: StateFacts,
    now: u64,
    step: CaptureStep,
    original: bool,
    model: bool,
)
    ensures
        c.phase == Phase::HeldSend ==> has_the_frame(c, f, Effect::Nothing, decide_next(c, f, Event::Done, now)),
        c.phase == Phase::SyncCapture ==> {
            let n = decide_next(c, f, Event::Captured { step, original, model }, now);
            match step {
                CaptureStep::Captured { sent, gpu_original, proxy } => has_the_frame(
                    PresentCall { l: Locals { sent, gpu_original, ..c.l }, ..c },
                    f,
                    leaves(step, original, model),
                    n,
                ),
                _ => {
                    &&& n.first == leaves(step, original, model) && n.second == Effect::Nothing
                    &&& step is Pending && now < c.l.deadline ==> n.action == Action::Sleep && n.call == (PresentCall {
                        phase: Phase::SyncSleep,
                        ..c
                    })
                    &&& !(step is Pending && now < c.l.deadline) ==> n.action == (Action::Finish {
                        semaphore: None,
                        timing: Some(false),
                    })
                },
            }
        },
        c.phase == Phase::SyncSleep ==> {
            let n = decide_next(c, f, Event::Done, now);
            &&& n.first == Effect::Nothing && n.call == (PresentCall { phase: Phase::SyncCapture, ..c })
            &&& n.action matches Action::Capture { slot, request } && slot == 0 && asks_for_frame(c, request)
                && request.target == c.l.target && request.submitted_after == Some(c.l.started) && request.model == (
            if c.frame.format.eight_bit {
                Some(c.l.raster)
            } else {
                None
            })
        },
{
    reveal(sync_next);
}

/// The frame is handed over once nothing on the GPU reads the answer region, and goes out with its size and
/// format, and the raster that it was sent at where that is another.
pub proof fn a_frame_is_handed_over(c: PresentCall, f: StateFacts, now: u64, flag: bool)
    ensures
        c.phase == Phase::Metering ==> leads_to(
            c,
            decide_next(c, f, Event::Done, now),
            Phase::SyncGuard,
            Action::GuardAnswerRegion,
        ),
        c.phase == Phase::SyncGuard ==> {
            let n = decide_next(c, f, Event::Flag(flag), now);
            &&& flag ==> leads_to(c, n, Phase::SyncBegin, Action::Begin { slot: 0 })
            &&& !flag ==> ends(n, None, Some(false))
        },
        c.phase == Phase::SyncBegin ==> {
            let n = decide_next(c, f, Event::Flag(flag), now);
            &&& !flag ==> ends(n, None, Some(false))
            &&& flag ==> {
                &&& n.call == (PresentCall { phase: Phase::SyncPoll, ..c }) && n.action == (Action::Poll { slot: 0 })
                &&& n.second == Effect::Nothing && n.first == (Effect::Sent {
                    slot: 0,
                    dims: FrameDims { width: c.frame.width, height: c.frame.height, format: c.frame.format.code },
                    proxy: if c.l.sent.width == c.frame.width && c.l.sent.height == c.frame.height {
                        None
                    } else {
                        Some(c.l.sent)
                    },
                    keep_original: false,
                })
            }
        },
{
    reveal(sync_next);
}

/// Its answer is waited for until the deadline, and not from then on.
pub proof fn an_answer_is_waited_for(c: PresentCall, f: StateFacts, now: u64, polled: Option<bool>)
    ensures
        c.phase == Phase::SyncPoll ==> {
            let n = decide_next(c, f, Event::Polled(polled), now);
            &&& polled == Some(true) ==> leads_to(c, n, Phase::SyncAnswered, Action::QueryAnswered)
            &&& polled == Some(false) && now < c.l.deadline ==> leads_to(c, n, Phase::SyncWait, Action::Sleep)
            &&& polled == Some(false) && now >= c.l.deadline ==> ends(n, None, Some(false))
            &&& polled is None ==> ends(n, None, Some(false))
        },
        c.phase == Phase::SyncWait ==> leads_to(
            c,
            decide_next(c, f, Event::Done, now),
            Phase::SyncPoll,
            Action::Poll { slot: 0 },
        ),
{
    reveal(sync_next);
}

/// This frame's answer becomes the shown one, at the raster that the frame was sent at and with the next
/// generation. The scaled copy goes into the composition where the frame was sent at another size and all
/// of the copy is there.
pub open spec fn has_its_answer(c: PresentCall, f: StateFacts, first: Effect, n: Next) -> bool {
    let whole = c.l.sent.width == c.frame.width && c.l.sent.height == c.frame.height;
    &&& n.first == first && n.third == Effect::Nothing
    &&& n.second == (Effect::NewAnswer { raster: c.l.sent })
    &&& n.call.phase == Phase::FinalHolds && n.call.frame == c.frame && n.call.l.settings == c.l.settings
    &&& n.action == (Action::QueryHolds {
        generation: if f.generation == u64::MAX {
            1
        } else {
            (f.generation + 1) as u64
        },
    })
    &&& n.call.l.small_proxy <==> !whole && f.model_scratch_len >= vstd::math::min(
        c.l.sent.width * c.l.sent.height * c.frame.format.bytes_per_pixel,
        0xffff_ffff_ffff_ffff,
    )
    &&& n.call.l.held_original == c.l.settings.hold_frame
    &&& n.call.l.fresh_on_gpu <==> c.l.target is Some && c.l.gpu_original && whole
    &&& n.call.l.carried == c.l.carried
}

/// An answer is taken where the helper does not say that it is of another raster and the frame has eight
/// bits a channel: where the frame stayed on the GPU whole, the answer stays in its region, and else as
/// many bytes are read as the raster has that was sent.
pub proof fn an_answer_is_taken_at_its_raster(c: PresentCall, f: StateFacts, now: u64, echoed: Option<Raster>)
    ensures
        c.phase == Phase::SyncAnswered ==> {
            let n = decide_next(c, f, Event::Size(echoed), now);
            let whole = c.l.sent.width == c.frame.width && c.l.sent.height == c.frame.height;
            if echoed is Some && !(echoed->0.width == c.l.sent.width && echoed->0.height == c.l.sent.height) {
                ends(n, None, Some(false))
            } else if !c.frame.format.eight_bit {
                ends(n, None, None)
            } else if c.l.target is Some && c.l.gpu_original && whole {
                has_its_answer(c, f, Effect::ClearAnswer, n)
            } else {
                &&& n.call == (PresentCall { phase: Phase::SyncRead, ..c }) && n.first == Effect::Nothing
                &&& n.action matches Action::ReadAnswer { slot, bytes } && slot == 0 && bytes == vstd::math::min(
                    c.l.sent.width * c.l.sent.height * c.frame.format.bytes_per_pixel,
                    0xffff_ffff_ffff_ffff,
                )
            }
        },
        c.phase == Phase::SyncRead ==> has_its_answer(
            c,
            f,
            Effect::TakeSyncAnswer,
            decide_next(c, f, Event::AnswerRead, now),
        ),
{
    reveal(sync_next);
    sizes_and_times_are_counted(c.l.sent.width, c.l.sent.height, c.frame.format.bytes_per_pixel, 0, 0);
}

/// An answer is composed where there is one on the CPU or the GPU, at its own raster, and with the guard
/// against ghosting where it is not this frame's own. Where the GPU cannot, it is written back, and that an
/// answer was shown is timed in both cases.
pub proof fn an_answer_is_composed(c: PresentCall, f: StateFacts, now: u64, flag: bool, semaphore: Option<u64>)
    ensures
        c.phase == Phase::FinalHolds ==> {
            let n = decide_next(c, f, Event::Flag(flag), now);
            if f.last_answer_empty && !flag && !c.l.fresh_on_gpu {
                ends(n, None, None)
            } else {
                leads_to(
                    c,
                    n,
                    Phase::Composing,
                    Action::Compose(
                        ComposeRequest {
                            size: f.last_answer_size,
                            generation: f.generation,
                            on_gpu: flag || c.l.fresh_on_gpu,
                            fresh: c.l.fresh_on_gpu,
                            small_proxy: c.l.small_proxy,
                            held_original: c.l.held_original,
                            ghost_guard: if !c.frame.pipelined && !c.l.carried {
                                0
                            } else {
                                c.l.settings.ghost_guard
                            },
                        },
                    ),
                )
            }
        },
        c.phase == Phase::Composing ==> {
            let n = decide_next(c, f, Event::Composed(semaphore), now);
            &&& semaphore is Some ==> ends(n, semaphore, Some(true))
            &&& semaphore is None ==> leads_to(c, n, Phase::WritingBack, Action::WriteBack)
        },
        c.phase == Phase::WritingBack ==> ends(
            decide_next(c, f, Event::Flag(flag), now),
            None,
            if flag {
                Some(true)
            } else {
                None
            },
        ),
{
    reveal(compose_next);
}

/// A present knows nothing when it begins.
pub proof fn a_present_begins_knowing_nothing()
    ensures
        ({
            let l = nothing_known();
            &&& !l.carried && !l.have_answer && !l.gpu_original && !l.holding && !l.small_proxy
            &&& !l.held_original && !l.fresh_on_gpu && !l.use_direct
            &&& l.target is None && l.answer_import is None
            &&& l.deadline == 0 && l.started == 0 && l.bytes == 0 && l.slot == 0
        }),
{
}

/// What a step looks at is what the state holds.
pub proof fn facts_are_those_of_the_state(v: PresentView, importing: bool)
    ensures
        ({
            let f = facts_of(v, importing);
            &&& f.external_memory_host == importing && f.bootstrap_complete == v.bootstrap_complete
            &&& f.dims0 == v.slot0.dims && f.dims1 == v.slot1.dims
            &&& f.proxy0 == v.slot0.proxy_dims && f.proxy1 == v.slot1.proxy_dims
            &&& f.presents == v.slot0.presents && f.generation == v.raw_answer_generation
            &&& f.last_answer_empty <==> v.last_answer =~= Seq::empty()
            &&& f.last_answer_size == v.last_answer_size
            &&& v.model_scratch.len() <= u64::MAX ==> f.model_scratch_len == v.model_scratch.len()
            &&& f.held is Some <==> v.held is Some
            &&& v.held is Some ==> f.held == Some(
                HeldFacts { width: v.held->0.width, height: v.held->0.height, sent: v.held->0.sent },
            )
            &&& f.meter_frame == v.meter_frame
        }),
{
}

/// What captures and answers do to the state. A frame that is sent on with its slot changes places with
/// the one that the slot held; an answer comes with the frame that its slot held, or, in the synchronous
/// present, with the captured one, which changes places with the one before.
pub proof fn frames_and_answers_are_kept(
    v: PresentView,
    bytes: Seq<u8>,
    more: Seq<u8>,
    slot: usize,
    dims: FrameDims,
    proxy: Option<Raster>,
    raster: Raster,
    original: bool,
    model: bool,
)
    ensures
        effected(v, Effect::Nothing, bytes, more) == v,
        ({
            let w = effected(v, Effect::StoreCapture { original, model }, bytes, more);
            &&& w.original_scratch == (if original { bytes } else { v.original_scratch })
            &&& w.model_scratch == (if model { more } else { v.model_scratch })
            &&& w == (PresentView { original_scratch: w.original_scratch, model_scratch: w.model_scratch, ..v })
        }),
        effected(v, Effect::ClearOriginal, bytes, more) == (PresentView { original_scratch: seq![], ..v }),
        ({
            let w = effected(v, Effect::Sent { slot, dims, proxy, keep_original: true }, bytes, more);
            let (before, after, other) = if slot == 0 {
                (v.slot0, w.slot0, w.slot1 == v.slot1)
            } else {
                (v.slot1, w.slot1, w.slot0 == v.slot0)
            };
            &&& other
            &&& after.original == v.original_scratch && w.original_scratch == before.original
            &&& after.dims == Some(dims) && after.proxy_dims == proxy && after.presents == before.presents
            &&& w == (PresentView {
                original_scratch: w.original_scratch,
                slot0: w.slot0,
                slot1: w.slot1,
                ..v
            })
        }),
        ({
            let w = effected(v, Effect::Sent { slot, dims, proxy, keep_original: false }, bytes, more);
            let (before, after, other) = if slot == 0 {
                (v.slot0, w.slot0, w.slot1 == v.slot1)
            } else {
                (v.slot1, w.slot1, w.slot0 == v.slot0)
            };
            &&& other
            &&& after == (InflightView { dims: Some(dims), proxy_dims: proxy, ..before })
            &&& w == (PresentView { slot0: w.slot0, slot1: w.slot1, ..v })
        }),
        effected(v, Effect::TakeAnswer { slot }, bytes, more) == (PresentView {
            answer_scratch: bytes,
            raw_answer_base: if slot == 0 {
                v.slot0.original
            } else {
                v.slot1.original
            },
            ..v
        }),
        ({
            let w = effected(v, Effect::PublishAnswer { raster }, bytes, more);
            &&& w.last_answer == v.answer_scratch && w.last_answer_size == raster
            &&& w.raw_answer_generation as int == (if v.raw_answer_generation < u64::MAX {
                v.raw_answer_generation + 1
            } else {
                1
            })
            &&& w == (PresentView {
                last_answer: w.last_answer,
                last_answer_size: w.last_answer_size,
                raw_answer_generation: w.raw_answer_generation,
                ..v
            })
        }),
        effected(v, Effect::TakeSyncAnswer, bytes, more) == (PresentView {
            last_answer: bytes,
            raw_answer_base: v.original_scratch,
            original_scratch: v.raw_answer_base,
            ..v
        }),
        effected(v, Effect::ClearAnswer, bytes, more) == (PresentView { last_answer: seq![], ..v }),
        ({
            let w = effected(v, Effect::NewAnswer { raster }, bytes, more);
            &&& w.last_answer_size == raster
            &&& w.raw_answer_generation as int == (if v.raw_answer_generation < u64::MAX {
                v.raw_answer_generation + 1
            } else {
                1
            })
            &&& w == (PresentView {
                last_answer_size: w.last_answer_size,
                raw_answer_generation: w.raw_answer_generation,
                ..v
            })
        }),
{
}

/// What counting and holding do to the state. A held frame is kept with what was sent for it, which is the
/// frame itself where it was sent whole, and both are the captured ones again while it is worked on.
pub proof fn counts_and_held_frames_are_kept(
    v: PresentView,
    bytes: Seq<u8>,
    more: Seq<u8>,
    width: u32,
    height: u32,
    sent: Raster,
    whole: bool,
)
    ensures
        effected(v, Effect::CompleteBootstrap, bytes, more) == (PresentView { bootstrap_complete: true, ..v }),
        ({
            let w = effected(v, Effect::CountPresent, bytes, more);
            &&& w.slot0.presents as int == (v.slot0.presents + 1) % 0x1_0000_0000_0000_0000
            &&& w == (PresentView { slot0: InflightView { presents: w.slot0.presents, ..v.slot0 }, ..v })
        }),
        ({
            let w = effected(v, Effect::CountMeter, bytes, more);
            &&& w.meter_frame as int == (v.meter_frame + 1) % 0x1_0000_0000
            &&& w == (PresentView { meter_frame: w.meter_frame, ..v })
        }),
        effected(v, Effect::DropHeld, bytes, more) == (PresentView { held: None, ..v }),
        effected(v, Effect::Hold { width, height, sent, whole }, bytes, more) == (PresentView {
            held: Some(
                HeldView {
                    width,
                    height,
                    original: v.original_scratch,
                    proxy: if whole {
                        v.original_scratch
                    } else {
                        v.model_scratch
                    },
                    sent,
                },
            ),
            ..v
        }),
        v.held is Some ==> effected(v, Effect::LoadHeld, bytes, more) == (PresentView {
            original_scratch: v.held->0.original,
            model_scratch: v.held->0.proxy,
            ..v
        }),
        v.held is None ==> effected(v, Effect::LoadHeld, bytes, more) == v,
{
}

} // verus!
