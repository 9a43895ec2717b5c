//! What holds of a whole present, from its first step to its last.
//!
//! A [run](is_run) is a present with everything that happened in it: what each action came to, when,
//! and with which bytes. Nothing is asked of what happened, so the laws here hold whatever the GPU and
//! the helper do.

use crate::capture_step::CaptureStep;
use crate::present::{
    a_disabled_pass_leaves_the_image_alone, a_present_ends, a_slot_carries_one_request, answered_next, boot_next,
    bootstrapping, capture_start_next, compose_next, composing, decide_next, distance, facts_of, gate_next,
    leftover_next, nothing_known, only_answers_are_composed, slot_end_next, slot_next, spec_deadline_after,
    spec_held_frame, spec_is_zero_copy, spec_mismatched, spec_next_slot, state_after, sync_next, taking_turns,
    the_presented_frame_is_captured, touches_the_image, waiting_is_bounded,
    Action, ChannelFacts, Effect, Event, Frame, HeldFacts, Locals, Next, Phase, PresentCall, PresentView, StateFacts,
};
use vstd::prelude::*;

verus! {

/// One step of a present: where it stood, what came of its last action, with which bytes, and when.
pub struct Moment {
    pub call: PresentCall,
    pub state: PresentView,
    /// Host memory can be imported on the device.
    pub external_memory_host: bool,
    pub event: Event,
    pub bytes: Seq<u8>,
    pub more: Seq<u8>,
    pub now: u64,
}

/// What follows from a moment.
pub open spec fn next_of(m: Moment) -> Next {
    decide_next(m.call, facts_of(m.state, m.external_memory_host), m.event, m.now)
}

/// Whether each moment follows from the one before.
pub open spec fn follows(run: Seq<Moment>, i: int) -> bool {
    &&& run[i + 1].call == next_of(run[i]).call
    &&& run[i + 1].state == state_after(run[i].state, next_of(run[i]), run[i].bytes, run[i].more)
}

/// A present of `frame`, from its beginning.
pub open spec fn is_run(frame: Frame, run: Seq<Moment>) -> bool {
    &&& run.len() > 0
    &&& run[0].call == (PresentCall { frame, phase: Phase::Starting, l: nothing_known() })
    &&& forall|i: int| 0 <= i < run.len() - 1 ==> #[trigger] follows(run, i)
}

/// The phases of the synchronous present, but for its composition.
pub open spec fn in_step(p: Phase) -> bool {
    p == Phase::Holds || p == Phase::Alive || awaiting(p)
}

/// The phases that follow the finding that the helper is alive.
pub open spec fn awaiting(p: Phase) -> bool {
    p == Phase::LeftPending || p == Phase::LeftPoll || p == Phase::ZeroCopy || p == Phase::HeldSend || p
        == Phase::SyncCapture || p == Phase::SyncSleep || p == Phase::Metering || p == Phase::SyncGuard || p
        == Phase::SyncBegin || p == Phase::SyncPoll || p == Phase::SyncWait || p == Phase::SyncAnswered || p
        == Phase::SyncRead
}

/// The helper was found alive.
pub open spec fn found_alive(m: Moment) -> bool {
    m.call.phase == Phase::Alive && m.event == Event::Flag(true)
}

/// The frame of the synchronous present was captured.
pub open spec fn captured(m: Moment) -> bool {
    m.call.phase == Phase::SyncCapture && (m.event matches Event::Captured { step, original, model }
        && step is Captured)
}

/// The held frame was sent in its place.
pub open spec fn reused(m: Moment) -> bool {
    m.call.phase == Phase::HeldSend && m.event == Event::Done
}

/// The frame was handed to the helper.
pub open spec fn handed_over(m: Moment) -> bool {
    m.call.phase == Phase::SyncBegin && m.event == Event::Flag(true)
}

/// The helper answered it.
pub open spec fn answered(m: Moment) -> bool {
    m.call.phase == Phase::SyncPoll && m.event == Event::Polled(Some(true))
}

/// The answer is not for another raster than was sent.
pub open spec fn matched(m: Moment) -> bool {
    m.call.phase == Phase::SyncAnswered && (m.event matches Event::Size(echoed) && !spec_mismatched(
        echoed,
        m.call.l.sent,
    ))
}

/// The answer was read.
pub open spec fn was_read(m: Moment) -> bool {
    m.call.phase == Phase::SyncRead && m.event == Event::AnswerRead
}

/// Whether `base` is the frame that was worked on: the captured bytes, where they came with the
/// capture.
pub open spec fn is_its_frame(m: Moment, base: Seq<u8>) -> bool {
    captured(m) ==> (m.event matches Event::Captured { step: CaptureStep::Captured { sent, gpu_original, proxy }, original, model }
        && (original && !gpu_original ==> base == m.bytes))
}

/// Before `k` there was a frame, and `base` is it.
pub open spec fn has_frame(run: Seq<Moment>, k: int, base: Seq<u8>) -> bool {
    exists|i: int| 0 <= i < k && (captured(#[trigger] run[i]) || reused(run[i])) && is_its_frame(run[i], base)
}

/// Before `k` the frame was handed over.
pub open spec fn has_sent(run: Seq<Moment>, k: int, base: Seq<u8>) -> bool {
    exists|i: int| 0 <= i < k && handed_over(#[trigger] run[i]) && has_frame(run, i, base)
}

/// Before `k` the frame was answered.
pub open spec fn has_answer(run: Seq<Moment>, k: int, base: Seq<u8>) -> bool {
    exists|i: int| 0 <= i < k && answered(#[trigger] run[i]) && has_sent(run, i, base)
}

/// Before `k` the answer was found to be for the raster that was sent.
pub open spec fn has_match(run: Seq<Moment>, k: int, base: Seq<u8>) -> bool {
    exists|i: int| 0 <= i < k && matched(#[trigger] run[i]) && has_answer(run, i, base)
}

/// Before `k` the answer `answer` was read.
pub open spec fn has_read(run: Seq<Moment>, k: int, base: Seq<u8>, answer: Seq<u8>) -> bool {
    exists|i: int|
        0 <= i < k && was_read(#[trigger] run[i]) && run[i].bytes == answer && has_match(run, i, base)
}

/// Before `k` the helper was found alive, at the time that the deadline was counted from.
pub open spec fn has_deadline(run: Seq<Moment>, k: int, deadline: u64) -> bool {
    exists|i: int| 0 <= i < k && found_alive(#[trigger] run[i]) && deadline == spec_deadline_after(run[i].now)
}

/// The answer that a synchronous present is about to compose is this frame's own.
pub open spec fn is_own_answer(run: Seq<Moment>, k: int) -> bool {
    if run[k].call.l.fresh_on_gpu {
        // Frame and answer are on the GPU.
        exists|base: Seq<u8>| #[trigger] has_match(run, k, base)
    } else {
        has_read(run, k, run[k].state.raw_answer_base, run[k].state.last_answer)
    }
}

/// What the phase of a step says of the steps before it.
pub open spec fn remembers(run: Seq<Moment>, k: int) -> bool {
    let c = run[k].call;
    let base = run[k].state.original_scratch;
    &&& c.phase == Phase::Starting || c.phase == Phase::Dropping ==> !c.l.carried
    &&& taking_turns(c.phase) ==> c.frame.pipelined
    &&& in_step(c.phase) ==> !c.frame.pipelined && !c.l.carried
    &&& awaiting(c.phase) ==> has_deadline(run, k, c.l.deadline)
    &&& c.phase == Phase::Metering || c.phase == Phase::SyncGuard || c.phase == Phase::SyncBegin ==> has_frame(
        run,
        k,
        base,
    )
    &&& c.phase == Phase::SyncPoll || c.phase == Phase::SyncWait ==> has_sent(run, k, base)
    &&& c.phase == Phase::SyncAnswered ==> has_answer(run, k, base)
    &&& c.phase == Phase::SyncRead ==> has_match(run, k, base) && !spec_is_zero_copy(c)
    &&& composing(c.phase) && !c.frame.pipelined && !c.l.carried ==> is_own_answer(run, k)
}

proof fn lemma_opening(run: Seq<Moment>, k: int)
    requires
        0 <= k < run.len() - 1,
        follows(run, k),
        remembers(run, k),
        run[k].call.phase == Phase::Starting || run[k].call.phase == Phase::Dropping || run[k].call.phase
            == Phase::DumpGuard || run[k].call.phase == Phase::Dumping || run[k].call.phase == Phase::Finished
            || bootstrapping(run[k].call.phase),
    ensures
        remembers(run, k + 1),
{
    reveal(gate_next);
    reveal(boot_next);
}

proof fn lemma_turns(run: Seq<Moment>, k: int)
    requires
        0 <= k < run.len() - 1,
        follows(run, k),
        remembers(run, k),
        taking_turns(run[k].call.phase),
    ensures
        remembers(run, k + 1),
{
    reveal(slot_next);
    reveal(slot_end_next);
}

/// The held frame is sent in place of a capture.
pub open spec fn is_held_start(c: PresentCall, n: Next) -> bool {
    &&& n.call.phase == Phase::HeldSend
    &&& n.call.l.holding
    &&& n.call.l.settings == c.l.settings
    &&& n.call.l.facts == c.l.facts
    &&& n.action is SendHeld
    &&& n.first == Effect::LoadHeld && n.second == Effect::Nothing && n.third == Effect::Nothing
}

/// The question after what is left over, or the import of the answer region, is put.
pub open spec fn is_question(c: PresentCall, n: Next) -> bool {
    &&& n.call.phase == Phase::LeftPending || n.call.phase == Phase::ZeroCopy
    &&& n.call.l.settings == c.l.settings
    &&& n.call.l.facts == c.l.facts
    &&& n.action is QueryPending || n.action is PrepareZeroCopy
    &&& n.first == Effect::Nothing && n.second == Effect::Nothing && n.third == Effect::Nothing
}

/// The start of a capture leads on with the deadline it was given.
proof fn lemma_capture_start(c: PresentCall, held: Option<HeldFacts>, target: Option<u64>, now: u64)
    ensures
        ({
            let n = capture_start_next(c, held, target, now);
            &&& n.call.phase == Phase::HeldSend || n.call.phase == Phase::SyncCapture
            &&& n.call.frame == c.frame
            &&& n.call.l.deadline == c.l.deadline
            &&& n.call.l.carried == c.l.carried
            &&& n.call.l.started == now
            &&& held is Some ==> is_held_start(c, n)
        }),
{
    reveal(capture_start_next);
}

proof fn lemma_leftover(c: PresentCall, f: StateFacts, slot: usize, now: u64)
    ensures
        ({
            let n = leftover_next(c, f, slot, now);
            &&& n.call.phase == Phase::LeftPending || n.call.phase == Phase::ZeroCopy || n.call.phase == Phase::HeldSend
                || n.call.phase == Phase::SyncCapture
            &&& n.call.frame == c.frame
            &&& n.call.l.deadline == c.l.deadline
            &&& n.call.l.carried == c.l.carried
            &&& n.call.phase == Phase::SyncCapture ==> n.call.l.started == now
            &&& is_question(c, n) || (n.call.phase == Phase::SyncCapture && spec_held_frame(c, f) is None)
                || is_held_start(c, n)
        }),
{
    reveal(leftover_next);
    lemma_capture_start(c, spec_held_frame(c, f), None, now);
    assert(spec_held_frame(c, f) is None ==> capture_start_next(c, None, None, now).call.phase == Phase::SyncCapture)
        by {
        reveal(capture_start_next);
    }
}

/// What was remembered of a deadline is remembered a step later.
proof fn lemma_deadline_kept(run: Seq<Moment>, k: int, deadline: u64)
    requires
        has_deadline(run, k, deadline),
    ensures
        has_deadline(run, k + 1, deadline),
{
    let i = choose|i: int|
        0 <= i < k && found_alive(#[trigger] run[i]) && deadline == spec_deadline_after(run[i].now);
    assert(found_alive(run[i]));
}

proof fn lemma_setting_out(run: Seq<Moment>, k: int)
    requires
        0 <= k < run.len() - 1,
        follows(run, k),
        remembers(run, k),
        run[k].call.phase == Phase::Holds || run[k].call.phase == Phase::Alive || run[k].call.phase
            == Phase::LeftPending || run[k].call.phase == Phase::LeftPoll || run[k].call.phase == Phase::ZeroCopy,
    ensures
        remembers(run, k + 1),
{
    reveal(sync_next);
    let m = run[k];
    let c = m.call;
    let f = facts_of(m.state, m.external_memory_host);
    if c.phase == Phase::Alive {
        let begun = PresentCall { l: Locals { deadline: spec_deadline_after(m.now), ..c.l }, ..c };
        lemma_leftover(begun, f, 0, m.now);
        if m.event == Event::Flag(true) {
            assert(found_alive(run[k]));
            assert(has_deadline(run, k + 1, spec_deadline_after(m.now)));
        }
    }
    lemma_leftover(c, f, spec_next_slot(c.l.slot), m.now);
    if let Event::Target(target) = m.event {
        lemma_capture_start(c, spec_held_frame(c, f), target, m.now);
    }
    if awaiting(c.phase) {
        lemma_deadline_kept(run, k, c.l.deadline);
    }
}

proof fn lemma_capturing(run: Seq<Moment>, k: int)
    requires
        0 <= k < run.len() - 1,
        follows(run, k),
        remembers(run, k),
        run[k].call.phase == Phase::HeldSend || run[k].call.phase == Phase::SyncCapture || run[k].call.phase
            == Phase::SyncSleep,
    ensures
        remembers(run, k + 1),
{
    reveal(sync_next);
    let m = run[k];
    lemma_deadline_kept(run, k, m.call.l.deadline);
    let base = run[k + 1].state.original_scratch;
    if captured(m) || reused(m) {
        assert(is_its_frame(run[k], base));
        assert(has_frame(run, k + 1, base));
    }
}

proof fn lemma_sending(run: Seq<Moment>, k: int)
    requires
        0 <= k < run.len() - 1,
        follows(run, k),
        remembers(run, k),
        run[k].call.phase == Phase::Metering || run[k].call.phase == Phase::SyncGuard || run[k].call.phase
            == Phase::SyncBegin,
    ensures
        remembers(run, k + 1),
{
    reveal(sync_next);
    let m = run[k];
    let base = m.state.original_scratch;
    lemma_deadline_kept(run, k, m.call.l.deadline);
    let i = choose|i: int|
        0 <= i < k && (captured(#[trigger] run[i]) || reused(run[i])) && is_its_frame(run[i], base);
    assert(captured(run[i]) || reused(run[i]));
    assert(has_frame(run, k + 1, base));
    if handed_over(m) {
        assert(handed_over(run[k]));
        assert(has_sent(run, k + 1, base));
    }
}

proof fn lemma_awaiting_answer(run: Seq<Moment>, k: int)
    requires
        0 <= k < run.len() - 1,
        follows(run, k),
        remembers(run, k),
        run[k].call.phase == Phase::SyncPoll || run[k].call.phase == Phase::SyncWait,
    ensures
        remembers(run, k + 1),
{
    reveal(sync_next);
    let m = run[k];
    let base = m.state.original_scratch;
    lemma_deadline_kept(run, k, m.call.l.deadline);
    let i = choose|i: int| 0 <= i < k && handed_over(#[trigger] run[i]) && has_frame(run, i, base);
    assert(handed_over(run[i]));
    assert(has_sent(run, k + 1, base));
    if answered(m) {
        assert(answered(run[k]));
        assert(has_answer(run, k + 1, base));
    }
}

proof fn lemma_matching(run: Seq<Moment>, k: int)
    requires
        0 <= k < run.len() - 1,
        follows(run, k),
        remembers(run, k),
        run[k].call.phase == Phase::SyncAnswered,
    ensures
        remembers(run, k + 1),
{
    let m = run[k];
    let base = m.state.original_scratch;
    lemma_deadline_kept(run, k, m.call.l.deadline);
    if matched(m) {
        assert(matched(run[k]));
        assert(has_match(run, k + 1, base));
    }
    assert(next_of(m).call.l.carried == m.call.l.carried && next_of(m).call.frame == m.call.frame) by {
        reveal(sync_next);
    }
    assert(matched(m) || next_of(m).call.phase == Phase::Finished) by {
        reveal(sync_next);
    }
    assert(next_of(m).call.phase == Phase::Finished || (next_of(m).call.phase == Phase::SyncRead && next_of(m).first
        == Effect::Nothing && next_of(m).second == Effect::Nothing && next_of(m).third == Effect::Nothing && next_of(
        m,
    ).call.l == m.call.l && !spec_is_zero_copy(m.call)) || (next_of(m).call.phase == Phase::FinalHolds && next_of(
        m,
    ).call.l.fresh_on_gpu)) by {
        reveal(sync_next);
    }
}

proof fn lemma_reading(run: Seq<Moment>, k: int)
    requires
        0 <= k < run.len() - 1,
        follows(run, k),
        remembers(run, k),
        run[k].call.phase == Phase::SyncRead,
    ensures
        remembers(run, k + 1),
{
    let m = run[k];
    let base = m.state.original_scratch;
    if was_read(m) {
        assert(was_read(run[k]));
        assert(has_read(run, k + 1, base, m.bytes));
        assert(next_of(m) == answered_next(m.call, facts_of(m.state, m.external_memory_host), Effect::TakeSyncAnswer)) by {
            reveal(sync_next);
        }
    } else {
        assert(next_of(m).call.phase == Phase::Finished) by {
            reveal(sync_next);
        }
    }
}

proof fn lemma_composing(run: Seq<Moment>, k: int)
    requires
        0 <= k < run.len() - 1,
        follows(run, k),
        remembers(run, k),
        composing(run[k].call.phase),
    ensures
        remembers(run, k + 1),
{
    reveal(compose_next);
    let m = run[k];
    if !m.call.frame.pipelined && !m.call.l.carried {
        if m.call.l.fresh_on_gpu {
            let base = choose|base: Seq<u8>| #[trigger] has_match(run, k, base);
            let i = choose|i: int| 0 <= i < k && matched(#[trigger] run[i]) && has_answer(run, i, base);
            assert(matched(run[i]));
            assert(has_match(run, k + 1, base));
        } else {
            let (base, answer) = (m.state.raw_answer_base, m.state.last_answer);
            let i = choose|i: int|
                0 <= i < k && was_read(#[trigger] run[i]) && run[i].bytes == answer && has_match(run, i, base);
            assert(was_read(run[i]));
            assert(has_read(run, k + 1, base, answer));
        }
    }
}

proof fn lemma_remembers(frame: Frame, run: Seq<Moment>, k: int)
    requires
        is_run(frame, run),
        0 <= k < run.len(),
    ensures
        remembers(run, k),
        run[k].call.frame == frame,
    decreases k,
{
    if k > 0 {
        lemma_remembers(frame, run, k - 1);
        assert(follows(run, k - 1));
        let c = run[k - 1].call;
        if c.phase != Phase::Finished {
            a_present_ends(
                c,
                facts_of(run[k - 1].state, run[k - 1].external_memory_host),
                run[k - 1].event,
                run[k - 1].now,
            );
        }
        if taking_turns(c.phase) {
            lemma_turns(run, k - 1);
        } else if composing(c.phase) {
            lemma_composing(run, k - 1);
        } else if !in_step(c.phase) {
            lemma_opening(run, k - 1);
        } else if c.phase == Phase::HeldSend || c.phase == Phase::SyncCapture || c.phase == Phase::SyncSleep {
            lemma_capturing(run, k - 1);
        } else if c.phase == Phase::Metering || c.phase == Phase::SyncGuard || c.phase == Phase::SyncBegin {
            lemma_sending(run, k - 1);
        } else if c.phase == Phase::SyncPoll || c.phase == Phase::SyncWait {
            lemma_awaiting_answer(run, k - 1);
        } else if c.phase == Phase::SyncAnswered {
            lemma_matching(run, k - 1);
        } else if c.phase == Phase::SyncRead {
            lemma_reading(run, k - 1);
        } else {
            lemma_setting_out(run, k - 1);
        }
    }
}

/// In the synchronous present, what is composed is this frame's own answer: unless it carries the
/// last one between two runs of the model, the frame was captured in this present (or is the held
/// one), then handed to the helper, then answered, and the answer was found to be for the raster that
/// was sent. The frame that the answer is composed with is the one that was captured, and the answer
/// the one that was read.
pub proof fn a_synchronous_present_shows_its_own_answer(frame: Frame, run: Seq<Moment>, k: int)
    requires
        is_run(frame, run),
        0 <= k < run.len(),
        !frame.pipelined,
        next_of(run[k]).action is Compose || next_of(run[k]).action is WriteBack,
        !run[k].call.l.carried,
    ensures
        is_own_answer(run, k),
{
    lemma_remembers(frame, run, k);
    only_answers_are_composed(
        run[k].call,
        facts_of(run[k].state, run[k].external_memory_host),
        run[k].event,
        run[k].now,
    );
}

/// A present that waits does so within its budget: it only sleeps once the helper was found alive, and
/// no longer than the budget from then on.
pub proof fn a_present_waits_within_its_budget(frame: Frame, run: Seq<Moment>, k: int)
    requires
        is_run(frame, run),
        0 <= k < run.len(),
        next_of(run[k]).action == Action::Sleep,
    ensures
        exists|i: int|
            0 <= i < k && found_alive(#[trigger] run[i]) && run[k].now < spec_deadline_after(run[i].now),
{
    lemma_remembers(frame, run, k);
    let m = run[k];
    let f = facts_of(m.state, m.external_memory_host);
    waiting_is_bounded(m.call, f, m.event, m.now);
    let i = choose|i: int|
        0 <= i < k && found_alive(#[trigger] run[i]) && m.call.l.deadline == spec_deadline_after(run[i].now);
    assert(found_alive(run[i]));
}

/// The pipelined present waits for nothing, whatever the GPU and the helper do.
pub proof fn a_pipelined_present_never_sleeps(frame: Frame, run: Seq<Moment>, k: int)
    requires
        is_run(frame, run),
        0 <= k < run.len(),
        frame.pipelined,
    ensures
        next_of(run[k]).action != Action::Sleep,
{
    lemma_remembers(frame, run, k);
    if next_of(run[k]).action == Action::Sleep {
        a_present_waits_within_its_budget(frame, run, k);
        let i = choose|i: int|
            0 <= i < k && found_alive(#[trigger] run[i]) && run[k].now < spec_deadline_after(run[i].now);
        lemma_remembers(frame, run, i);
    }
}

/// Whether a present composes or dumps, or has come to its end.
pub open spec fn is_past_capture(p: Phase) -> bool {
    composing(p) || p == Phase::Dumping || p == Phase::Finished
}

/// Once a present composes it captures and sends nothing more: what is captured is the game's own
/// rendering, and never what the layer made of it.
pub proof fn nothing_is_captured_once_composed(frame: Frame, run: Seq<Moment>, i: int, k: int)
    requires
        is_run(frame, run),
        0 <= i < k < run.len(),
        touches_the_image(next_of(run[i]).action),
    ensures
        !(next_of(run[k]).action is Capture) && !(next_of(run[k]).action is Begin),
{
    lemma_past_capture(frame, run, i, k);
    let m = run[k];
    if m.call.phase != Phase::Dumping && m.call.phase != Phase::Finished {
        let f = facts_of(m.state, m.external_memory_host);
        only_answers_are_composed(m.call, f, m.event, m.now);
    }
}

proof fn lemma_past_capture(frame: Frame, run: Seq<Moment>, i: int, k: int)
    requires
        is_run(frame, run),
        0 <= i < k < run.len(),
        touches_the_image(next_of(run[i]).action),
    ensures
        is_past_capture(run[k].call.phase),
    decreases k,
{
    assert(follows(run, k - 1));
    let m = run[k - 1];
    if k - 1 > i {
        lemma_past_capture(frame, run, i, k - 1);
    }
    if m.call.phase != Phase::Dumping && m.call.phase != Phase::Finished {
        let f = facts_of(m.state, m.external_memory_host);
        only_answers_are_composed(m.call, f, m.event, m.now);
    }
}

/// Whether the pass is off, by what the channel says.
pub open spec fn is_off(facts: ChannelFacts) -> bool {
    facts.settings matches Some(s) && (!s.apply_model || !s.neural_enabled || facts.model_unavailable)
}

proof fn lemma_stays_off(frame: Frame, run: Seq<Moment>, facts: ChannelFacts, k: int)
    requires
        is_run(frame, run),
        0 <= k < run.len(),
        run[0].event == Event::Facts(facts),
        is_off(facts),
        !(facts.capture_requested && frame.same_image),
    ensures
        ({
            let c = run[k].call;
            ||| k == 0 && c.phase == Phase::Starting
            ||| c.phase == Phase::Dropping && c.l.facts == facts && facts.settings == Some(c.l.settings)
            ||| bootstrapping(c.phase)
            ||| c.phase == Phase::Finished
        }),
    decreases k,
{
    if k > 0 {
        lemma_stays_off(frame, run, facts, k - 1);
        assert(follows(run, k - 1));
        let m = run[k - 1];
        let f = facts_of(m.state, m.external_memory_host);
        if bootstrapping(m.call.phase) {
            a_disabled_pass_leaves_the_image_alone(m.call, f, m.event, m.now);
        } else {
            reveal(gate_next);
        }
    }
}

/// While the pass is off, and no dump is asked for that can be served, a present never touches the
/// image and leaves nothing to wait for.
pub proof fn a_pass_that_is_off_shows_the_clean_frame(frame: Frame, run: Seq<Moment>, facts: ChannelFacts, k: int)
    requires
        is_run(frame, run),
        0 <= k < run.len(),
        run[0].event == Event::Facts(facts),
        is_off(facts),
        !(facts.capture_requested && frame.same_image),
    ensures
        !touches_the_image(next_of(run[k]).action),
        next_of(run[k]).action matches Action::Finish { semaphore, timing } ==> semaphore is None,
{
    lemma_stays_off(frame, run, facts, k);
    let m = run[k];
    let f = facts_of(m.state, m.external_memory_host);
    if bootstrapping(m.call.phase) {
        a_disabled_pass_leaves_the_image_alone(m.call, f, m.event, m.now);
    } else {
        reveal(gate_next);
    }
}

/// How often a present has slept before the step `k`.
pub open spec fn sleeps(run: Seq<Moment>, k: int) -> nat
    decreases k,
{
    if k <= 0 {
        0
    } else if next_of(run[k - 1]).action == Action::Sleep {
        sleeps(run, k - 1) + 1
    } else {
        sleeps(run, k - 1)
    }
}

proof fn lemma_steps(frame: Frame, run: Seq<Moment>, k: int)
    requires
        is_run(frame, run),
        0 <= k < run.len(),
        forall|i: int| 0 <= i < k ==> (#[trigger] run[i]).call.phase != Phase::Finished,
    ensures
        ({
            let c = run[k].call;
            let owed: int = if c.phase == Phase::SyncSleep || c.phase == Phase::SyncWait {
                1
            } else {
                0
            };
            k + distance(c) + owed <= 25 + 2 * sleeps(run, k)
        }),
    decreases k,
{
    if k > 0 {
        lemma_steps(frame, run, k - 1);
        assert(follows(run, k - 1));
        let m = run[k - 1];
        let f = facts_of(m.state, m.external_memory_host);
        a_present_ends(m.call, f, m.event, m.now);
        waiting_is_bounded(m.call, f, m.event, m.now);
        lemma_resting(m.call, f, m.event, m.now);
    }
}

/// A present rests only after it was told to sleep.
proof fn lemma_resting(c: PresentCall, f: StateFacts, e: Event, now: u64)
    ensures
        ({
            let n = decide_next(c, f, e, now);
            n.call.phase == Phase::SyncSleep || n.call.phase == Phase::SyncWait ==> n.action == Action::Sleep
        }),
{
    if in_step(c.phase) {
        assert(decide_next(c, f, e, now) == sync_next(c, f, e, now));
        lemma_leftover(PresentCall { l: Locals { deadline: spec_deadline_after(now), ..c.l }, ..c }, f, 0, now);
        lemma_leftover(c, f, spec_next_slot(c.l.slot), now);
        if let Event::Target(target) = e {
            lemma_capture_start(c, spec_held_frame(c, f), target, now);
        }
        reveal(sync_next);
    } else if taking_turns(c.phase) {
        reveal(slot_next);
        reveal(slot_end_next);
    } else {
        reveal(gate_next);
        reveal(boot_next);
        reveal(compose_next);
    }
}

/// A present comes to its end: it takes at most 25 steps, and two more for each time that it sleeps.
pub proof fn a_present_takes_few_steps(frame: Frame, run: Seq<Moment>, k: int)
    requires
        is_run(frame, run),
        0 <= k < run.len(),
        forall|i: int| 0 <= i < k ==> (#[trigger] run[i]).call.phase != Phase::Finished,
    ensures
        k <= 25 + 2 * sleeps(run, k),
{
    lemma_steps(frame, run, k);
}

/// Whether the clock never goes back.
pub open spec fn time_passes(run: Seq<Moment>) -> bool {
    forall|i: int, j: int| 0 <= i <= j < run.len() ==> (#[trigger] run[i]).now <= (#[trigger] run[j]).now
}

/// Whether `started` is the time of a step before `k`.
pub open spec fn has_start(run: Seq<Moment>, k: int, started: u64) -> bool {
    exists|i: int| 0 <= i < k && (#[trigger] run[i]).now == started
}

/// Where a capture that is tried again has its time from.
proof fn lemma_capture_time(c: PresentCall, f: StateFacts, e: Event, now: u64)
    ensures
        ({
            let n = decide_next(c, f, e, now);
            &&& n.call.phase == Phase::SyncCapture || n.call.phase == Phase::SyncSleep ==> n.call.l.started == now || ((
            c.phase == Phase::SyncCapture || c.phase == Phase::SyncSleep) && n.call.l.started == c.l.started)
        }),
{
    if in_step(c.phase) {
        assert(decide_next(c, f, e, now) == sync_next(c, f, e, now));
        lemma_leftover(PresentCall { l: Locals { deadline: spec_deadline_after(now), ..c.l }, ..c }, f, 0, now);
        lemma_leftover(c, f, spec_next_slot(c.l.slot), now);
        if let Event::Target(target) = e {
            lemma_capture_start(c, spec_held_frame(c, f), target, now);
        }
        reveal(sync_next);
    } else if taking_turns(c.phase) {
        reveal(slot_next);
        reveal(slot_end_next);
    } else {
        reveal(gate_next);
        reveal(boot_next);
        reveal(compose_next);
    }
}

proof fn lemma_started(frame: Frame, run: Seq<Moment>, k: int)
    requires
        is_run(frame, run),
        0 <= k < run.len(),
        run[k].call.phase == Phase::SyncCapture || run[k].call.phase == Phase::SyncSleep,
    ensures
        has_start(run, k, run[k].call.l.started),
    decreases k,
{
    if k > 0 {
        assert(follows(run, k - 1));
        let m = run[k - 1];
        lemma_capture_time(m.call, facts_of(m.state, m.external_memory_host), m.event, m.now);
        if run[k].call.l.started == m.now {
            assert(run[k - 1].now == run[k].call.l.started);
        } else {
            lemma_started(frame, run, k - 1);
            let i = choose|i: int| 0 <= i < k - 1 && (#[trigger] run[i]).now == run[k].call.l.started;
            assert(run[i].now == run[k].call.l.started);
        }
    }
}

/// The frame that a synchronous present works on is captured in that present: what it asks for is a
/// capture that was submitted no earlier than the present began.
pub proof fn the_frame_is_captured_in_this_present(frame: Frame, run: Seq<Moment>, k: int)
    requires
        is_run(frame, run),
        time_passes(run),
        0 <= k < run.len(),
        !frame.pipelined,
        !bootstrapping(run[k].call.phase),
        next_of(run[k]).action is Capture,
    ensures
        next_of(run[k]).action matches Action::Capture { slot, request } && (request.submitted_after matches Some(t)
            && run[0].now <= t <= run[k].now),
{
    lemma_remembers(frame, run, k);
    let m = run[k];
    let f = facts_of(m.state, m.external_memory_host);
    if m.call.phase != Phase::Finished {
        the_presented_frame_is_captured(m.call, f, m.event, m.now);
        a_slot_carries_one_request(m.call, f, m.event, m.now);
        lemma_capture_time(m.call, f, m.event, m.now);
        if m.call.phase == Phase::SyncCapture || m.call.phase == Phase::SyncSleep {
            lemma_started(frame, run, k);
            let i = choose|i: int| 0 <= i < k && (#[trigger] run[i]).now == m.call.l.started;
            assert(run[0].now <= run[i].now && run[i].now <= run[k].now);
        }
        assert(run[0].now <= run[k].now);
    }
}

/// Whether the pass is on and the frame is to be held.
pub open spec fn holds_on(facts: ChannelFacts) -> bool {
    facts.settings matches Some(s) && s.apply_model && s.neural_enabled && s.hold_frame && !facts.model_unavailable
}

/// Whether a present works on a held frame of its size, and has not let go of it.
pub open spec fn works_on_held(c: PresentCall, v: PresentView, facts: ChannelFacts) -> bool {
    &&& v.held matches Some(h) && h.width == c.frame.width && h.height == c.frame.height
    &&& c.phase != Phase::Starting && c.phase != Phase::Finished ==> c.l.settings.hold_frame && c.l.facts == facts
        && facts.settings == Some(c.l.settings)
    &&& c.phase != Phase::SyncCapture && c.phase != Phase::SyncSleep && !bootstrapping(c.phase) && !taking_turns(
        c.phase,
    )
    &&& c.phase == Phase::HeldSend ==> c.l.holding
}

/// What a step of a present that works on a held frame comes to.
pub open spec fn keeps_held(m: Moment, facts: ChannelFacts) -> bool {
    let after = state_after(m.state, next_of(m), m.bytes, m.more);
    &&& after.held == m.state.held
    &&& works_on_held(next_of(m).call, after, facts)
    &&& !(next_of(m).action is Capture)
    &&& next_of(m).call.phase != Phase::Starting
}

proof fn lemma_keeps_held_at_first(m: Moment, facts: ChannelFacts)
    requires
        works_on_held(m.call, m.state, facts),
        !m.call.frame.pipelined,
        holds_on(facts),
        m.call.phase == Phase::Starting ==> m.event == Event::Facts(facts),
        !in_step(m.call.phase),
    ensures
        keeps_held(m, facts),
{
    reveal(gate_next);
    reveal(compose_next);
}

proof fn lemma_keeps_held_on_the_way(m: Moment, facts: ChannelFacts)
    requires
        works_on_held(m.call, m.state, facts),
        holds_on(facts),
        m.call.phase == Phase::Holds || m.call.phase == Phase::Alive || m.call.phase == Phase::LeftPending
            || m.call.phase == Phase::LeftPoll || m.call.phase == Phase::ZeroCopy,
    ensures
        keeps_held(m, facts),
{
    let c = m.call;
    let f = facts_of(m.state, m.external_memory_host);
    assert(next_of(m) == sync_next(c, f, m.event, m.now));
    let begun = PresentCall { l: Locals { deadline: spec_deadline_after(m.now), ..c.l }, ..c };
    assert(spec_held_frame(c, f) is Some && spec_held_frame(begun, f) is Some);
    lemma_leftover(begun, f, 0, m.now);
    lemma_leftover(c, f, spec_next_slot(c.l.slot), m.now);
    if let Event::Target(target) = m.event {
        lemma_capture_start(c, spec_held_frame(c, f), target, m.now);
    }
    reveal(sync_next);
}

proof fn lemma_keeps_held_later(m: Moment, facts: ChannelFacts)
    requires
        works_on_held(m.call, m.state, facts),
        holds_on(facts),
        m.call.phase == Phase::HeldSend || m.call.phase == Phase::Metering || m.call.phase == Phase::SyncGuard
            || m.call.phase == Phase::SyncBegin || m.call.phase == Phase::SyncPoll || m.call.phase == Phase::SyncWait,
    ensures
        keeps_held(m, facts),
{
    assert(next_of(m) == sync_next(m.call, facts_of(m.state, m.external_memory_host), m.event, m.now));
    reveal(sync_next);
}

proof fn lemma_keeps_held_at_last(m: Moment, facts: ChannelFacts)
    requires
        works_on_held(m.call, m.state, facts),
        holds_on(facts),
        m.call.phase == Phase::SyncAnswered || m.call.phase == Phase::SyncRead,
    ensures
        keeps_held(m, facts),
{
    assert(next_of(m) == sync_next(m.call, facts_of(m.state, m.external_memory_host), m.event, m.now));
    reveal(sync_next);
}

proof fn lemma_keeps_held(m: Moment, facts: ChannelFacts)
    requires
        works_on_held(m.call, m.state, facts),
        !m.call.frame.pipelined,
        holds_on(facts),
        m.call.phase == Phase::Starting ==> m.event == Event::Facts(facts),
    ensures
        keeps_held(m, facts),
{
    let p = m.call.phase;
    if !in_step(p) {
        lemma_keeps_held_at_first(m, facts);
    } else if p == Phase::Holds || p == Phase::Alive || p == Phase::LeftPending || p == Phase::LeftPoll || p
        == Phase::ZeroCopy {
        lemma_keeps_held_on_the_way(m, facts);
    } else if p == Phase::SyncAnswered || p == Phase::SyncRead {
        lemma_keeps_held_at_last(m, facts);
    } else {
        lemma_keeps_held_later(m, facts);
    }
}

/// While a frame is held, every present works on that frame: it is kept as it is, and nothing else is
/// captured.
pub proof fn a_held_frame_is_kept(frame: Frame, run: Seq<Moment>, facts: ChannelFacts, k: int)
    requires
        is_run(frame, run),
        0 <= k < run.len(),
        !frame.pipelined,
        run[0].event == Event::Facts(facts),
        holds_on(facts),
        run[0].state.held matches Some(h) && h.width == frame.width && h.height == frame.height,
    ensures
        run[k].state.held == run[0].state.held,
        works_on_held(run[k].call, run[k].state, facts),
        !(next_of(run[k]).action is Capture),
        k > 0 ==> run[k].call.phase != Phase::Starting,
    decreases k,
{
    lemma_remembers(frame, run, k);
    if k > 0 {
        a_held_frame_is_kept(frame, run, facts, k - 1);
        assert(follows(run, k - 1));
        lemma_remembers(frame, run, k - 1);
        lemma_keeps_held(run[k - 1], facts);
    }
    lemma_keeps_held(run[k], facts);
}

/// Once one frame was sent and answered while the pass is off, no other is captured or sent until it
/// is switched on.
pub proof fn one_frame_is_sent_while_the_pass_is_off(frame: Frame, run: Seq<Moment>, facts: ChannelFacts, k: int)
    requires
        is_run(frame, run),
        0 <= k < run.len(),
        run[0].event == Event::Facts(facts),
        is_off(facts),
        !(facts.capture_requested && frame.same_image),
        run[0].state.bootstrap_complete,
    ensures
        !(next_of(run[k]).action is Capture) && !(next_of(run[k]).action is Begin),
        run[k].state.bootstrap_complete,
        !bootstrapping(run[k].call.phase),
    decreases k,
{
    lemma_stays_off(frame, run, facts, k);
    if k > 0 {
        lemma_stays_off(frame, run, facts, k - 1);
        one_frame_is_sent_while_the_pass_is_off(frame, run, facts, k - 1);
        assert(follows(run, k - 1));
        reveal(gate_next);
    }
    reveal(gate_next);
}

/// How a step treats what a present has settled on: that is settled before the first question, and kept.
pub open spec fn keeps_the_plan(c: PresentCall, f: StateFacts, n: Next) -> bool {
    &&& c.phase != Phase::Starting && c.phase != Phase::Dropping ==> n.call.l.use_direct == c.l.use_direct
        && n.call.l.raster == c.l.raster
    &&& c.phase == Phase::Starting || c.phase == Phase::Dropping ==> {
        &&& n.call.l.use_direct ==> c.l.use_direct || f.external_memory_host
        &&& n.call.l.use_direct && in_step_or_turns(n.call.phase) ==> is_whole(n.call)
        &&& !(n.action is Capture)
    }
    &&& bootstrapping(n.call.phase) ==> bootstrapping(c.phase) || c.phase == Phase::Starting || c.phase
        == Phase::Dropping
    &&& n.action matches Action::Capture { slot, request } ==> request.direct == c.l.use_direct
}

/// The phases in which the pass is on.
pub open spec fn in_step_or_turns(p: Phase) -> bool {
    in_step(p) || taking_turns(p)
}

/// Whether the model works on exactly the frame.
pub open spec fn is_whole(c: PresentCall) -> bool {
    c.l.raster.width == c.frame.width && c.l.raster.height == c.frame.height
}

proof fn lemma_keeps_the_plan(c: PresentCall, f: StateFacts, e: Event, now: u64)
    ensures
        keeps_the_plan(c, f, decide_next(c, f, e, now)),
{
    if in_step(c.phase) {
        lemma_keeps_the_plan_in_step(c, f, e, now);
    } else if taking_turns(c.phase) {
        reveal(slot_next);
        reveal(slot_end_next);
    } else {
        reveal(gate_next);
        reveal(boot_next);
        reveal(compose_next);
    }
}

proof fn lemma_leftover_plan(c: PresentCall, f: StateFacts, slot: usize, now: u64)
    ensures
        ({
            let n = leftover_next(c, f, slot, now);
            &&& n.call.l.use_direct == c.l.use_direct && n.call.l.raster == c.l.raster
            &&& n.action matches Action::Capture { slot, request } ==> request.direct == c.l.use_direct
            &&& !bootstrapping(n.call.phase)
        }),
{
    reveal(leftover_next);
    reveal(capture_start_next);
}

proof fn lemma_start_plan(c: PresentCall, held: Option<HeldFacts>, target: Option<u64>, now: u64)
    ensures
        ({
            let n = capture_start_next(c, held, target, now);
            &&& n.call.l.use_direct == c.l.use_direct && n.call.l.raster == c.l.raster
            &&& n.action matches Action::Capture { slot, request } ==> request.direct == c.l.use_direct
            &&& !bootstrapping(n.call.phase)
        }),
{
    reveal(capture_start_next);
}

proof fn lemma_keeps_the_plan_in_step(c: PresentCall, f: StateFacts, e: Event, now: u64)
    requires
        in_step(c.phase),
    ensures
        keeps_the_plan(c, f, decide_next(c, f, e, now)),
{
    assert(decide_next(c, f, e, now) == sync_next(c, f, e, now));
    lemma_leftover_plan(PresentCall { l: Locals { deadline: spec_deadline_after(now), ..c.l }, ..c }, f, 0, now);
    lemma_leftover_plan(c, f, spec_next_slot(c.l.slot), now);
    if let Event::Target(target) = e {
        lemma_start_plan(c, spec_held_frame(c, f), target, now);
    }
    reveal(sync_next);
}

/// Whether host memory could be imported at a step before `k`.
pub open spec fn could_import(run: Seq<Moment>, k: int) -> bool {
    exists|i: int| 0 <= i < k && (#[trigger] run[i]).external_memory_host
}

proof fn lemma_plan(frame: Frame, run: Seq<Moment>, k: int)
    requires
        is_run(frame, run),
        0 <= k < run.len(),
    ensures
        run[k].call.l.use_direct ==> could_import(run, k),
        run[k].call.l.use_direct && in_step_or_turns(run[k].call.phase) ==> is_whole(run[k].call),
        run[k].call.phase == Phase::Starting || run[k].call.phase == Phase::Dropping ==> !run[k].call.l.use_direct,
    decreases k,
{
    if k > 0 {
        lemma_plan(frame, run, k - 1);
        lemma_remembers(frame, run, k);
        lemma_remembers(frame, run, k - 1);
        assert(follows(run, k - 1));
        let m = run[k - 1];
        let f = facts_of(m.state, m.external_memory_host);
        lemma_keeps_the_plan(m.call, f, m.event, m.now);
        if m.call.phase != Phase::Finished {
            a_present_ends(m.call, f, m.event, m.now);
            waiting_is_bounded(m.call, f, m.event, m.now);
        }
        if run[k].call.l.use_direct {
            if m.call.l.use_direct {
                let i = choose|i: int| 0 <= i < k - 1 && (#[trigger] run[i]).external_memory_host;
                assert(run[i].external_memory_host);
            } else {
                assert(run[k - 1].external_memory_host);
            }
        }
        assert(in_step_or_turns(run[k].call.phase) ==> in_step_or_turns(m.call.phase) || m.call.phase
            == Phase::Starting || m.call.phase == Phase::Dropping) by {
            reveal(boot_next);
            reveal(compose_next);
        }
        // Nothing leads back to the beginning.
        assert(distance(m.call) <= 25);
        assert(run[k].call.phase != Phase::Starting);
        assert(run[k].call.phase == Phase::Dropping ==> m.call.phase == Phase::Starting);
        assert(m.call.phase == Phase::Starting && run[k].call.phase == Phase::Dropping ==> run[k].call.l.use_direct
            == m.call.l.use_direct) by {
            reveal(gate_next);
        }
    }
}

/// A frame goes straight into the shared region only where host memory can be imported, and only where
/// the model works on exactly the frame: a scaled or an odd frame is never captured that way.
pub proof fn a_direct_capture_is_of_the_whole_frame(frame: Frame, run: Seq<Moment>, k: int)
    requires
        is_run(frame, run),
        0 <= k < run.len(),
        next_of(run[k]).action matches Action::Capture { slot, request } && request.direct,
    ensures
        could_import(run, k),
        !bootstrapping(run[k].call.phase) ==> is_whole(run[k].call),
{
    lemma_plan(frame, run, k);
    let m = run[k];
    let f = facts_of(m.state, m.external_memory_host);
    lemma_keeps_the_plan(m.call, f, m.event, m.now);
    if m.call.phase != Phase::Finished {
        only_answers_are_composed(m.call, f, m.event, m.now);
    }
}

} // verus!
