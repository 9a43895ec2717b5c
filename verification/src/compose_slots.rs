//! How a composition is put on the GPU: which slot does it, what of the slot is built anew, what is
//! uploaded and what is still there.
//!
//! One slot serves the compositions that are waited for. The others take turns, so that a
//! composition is only waited for when its slot comes round again.

use crate::capture_step::Ensure;
use crate::present::{raster_bytes, spec_raster_bytes};
use crate::scaling::Raster;
use vstd::prelude::*;

verus! {

/// How many slots take turns.
pub const ASYNC_SLOTS: usize = 2;

/// One slot of the compositor.
#[derive(Clone, Copy, Debug, PartialEq, Eq, Structural)]
pub enum SlotId {
    /// The slot of the compositions that are waited for.
    Waited,
    First,
    Second,
}

/// What a slot holds.
#[derive(Clone, Copy, Debug, PartialEq, Eq, Structural)]
pub struct SlotState {
    /// The raster that its images and buffers were built for.
    pub sized: Option<Raster>,
    /// The raster of its image for smaller answers.
    pub small: Option<Raster>,
    /// The generation of the answer that it holds, 0 for none.
    pub cached_generation: u64,
}

/// Every slot, and the one whose turn it is.
#[derive(Clone, Copy, Debug, PartialEq, Eq, Structural)]
pub struct Slots {
    pub waited: SlotState,
    pub first: SlotState,
    pub second: SlotState,
    pub next: usize,
}

/// A slot that was never used.
pub open spec fn fresh_slot() -> SlotState {
    SlotState { sized: None, small: None, cached_generation: 0 }
}

/// What one slot holds.
pub open spec fn slot_of(b: Slots, id: SlotId) -> SlotState {
    match id {
        SlotId::Waited => b.waited,
        SlotId::First => b.first,
        SlotId::Second => b.second,
    }
}

/// The slots with one of them changed.
pub open spec fn with_slot(b: Slots, id: SlotId, s: SlotState) -> Slots {
    match id {
        SlotId::Waited => Slots { waited: s, ..b },
        SlotId::First => Slots { first: s, ..b },
        SlotId::Second => Slots { second: s, ..b },
    }
}

/// The slot whose turn it is.
pub open spec fn whose_turn(b: Slots) -> SlotId {
    if b.next == 0 {
        SlotId::First
    } else {
        SlotId::Second
    }
}

/// The slots after one of them has had its turn.
pub open spec fn turn_taken(b: Slots) -> Slots {
    Slots { next: ((b.next + 1) % 2) as usize, ..b }
}

/// A slot that holds an answer has images to hold it in, and the turn is that of one of the slots.
pub open spec fn slots_ok(b: Slots) -> bool {
    &&& b.next < ASYNC_SLOTS
    &&& b.waited.cached_generation != 0 ==> b.waited.sized is Some
    &&& b.first.cached_generation != 0 ==> b.first.sized is Some
    &&& b.second.cached_generation != 0 ==> b.second.sized is Some
}

impl Slots {
    /// The slots of a new compositor.
    pub fn new() -> (b: Slots)
        ensures
            b == (Slots { waited: fresh_slot(), first: fresh_slot(), second: fresh_slot(), next: 0 }),
            slots_ok(b),
    {
        let fresh = SlotState { sized: None, small: None, cached_generation: 0 };
        Slots { waited: fresh, first: fresh, second: fresh, next: 0 }
    }

    /// What one slot holds.
    pub fn slot(&self, id: SlotId) -> (s: SlotState)
        ensures
            s == slot_of(*self, id),
    {
        match id {
            SlotId::Waited => self.waited,
            SlotId::First => self.first,
            SlotId::Second => self.second,
        }
    }

    /// Changes one slot.
    pub fn set_slot(&mut self, id: SlotId, s: SlotState)
        ensures
            *final(self) == with_slot(*old(self), id, s),
    {
        match id {
            SlotId::Waited => {
                self.waited = s;
            },
            SlotId::First => {
                self.first = s;
            },
            SlotId::Second => {
                self.second = s;
            },
        }
    }

    /// Takes the slot whose turn it is.
    pub fn take_turn(&mut self) -> (id: SlotId)
        requires
            slots_ok(*old(self)),
        ensures
            id == whose_turn(*old(self)),
            *final(self) == turn_taken(*old(self)),
            slots_ok(*final(self)),
    {
        let id: SlotId = if self.next == 0 {
            SlotId::First
        } else {
            SlotId::Second
        };
        self.next = (self.next + 1) % ASYNC_SLOTS;
        id
    }
}

/// What is to be composed.
#[derive(Clone, Copy, Debug, PartialEq, Eq, Structural)]
pub enum Work {
    /// The composed frame is handed back to the CPU.
    Download,
    /// The composed frame is written into the image, and waited for.
    IntoImage,
    /// The composed frame is written into the image.
    IntoImageAsync,
    /// An answer is shown as it is, and uploaded only once.
    CachedRaw { generation: u64 },
    /// The change that an answer made to its own frame is carried onto the image.
    TemporalDelta { answer: Raster, generation: u64 },
}

/// Whether a composition is finished when the call returns.
pub open spec fn is_waited_for(work: Work) -> bool {
    work is Download || work is IntoImage
}

/// Where a composition stands.
#[derive(Clone, Copy, Debug, PartialEq, Eq, Structural)]
pub enum ComposePhase {
    Starting,
    Acquiring,
    Waiting,
    Sizing,
    Shrinking,
    Uploading,
    Submitting,
    Downloading,
    Finished,
}

/// A composition under way.
#[derive(Clone, Copy, Debug, PartialEq, Eq, Structural)]
pub struct ComposeCall {
    pub work: Work,
    pub width: u32,
    pub height: u32,
    /// The bytes of the frame at hand.
    pub base_length: u64,
    /// The bytes of the answer at hand.
    pub answer_length: u64,
    pub phase: ComposePhase,
    pub slot: SlotId,
    /// The slot takes a new answer.
    pub update: bool,
}

/// What came of an action.
#[derive(Clone, Copy, Debug, PartialEq, Eq, Structural)]
pub enum ComposeEvent {
    Begin,
    /// It worked, or not.
    Flag(bool),
    /// The slot has images of the frame's size, or not, and a staging buffer of this capacity.
    Sized { ok: bool, capacity: u64 },
    Done,
}

/// What to do next.
#[derive(Clone, Copy, Debug, PartialEq, Eq, Structural)]
pub enum ComposeAction {
    /// Find or make the semaphore of the image.
    Acquire,
    /// Wait until the slot's last submission is done.
    Wait { slot: SlotId },
    /// Keep, build or rebuild the slot's images and buffers.
    Size { slot: SlotId, plan: Ensure },
    /// Keep, build or rebuild the slot's image for a smaller answer.
    Shrink { slot: SlotId, plan: Ensure, answer: Raster },
    /// Copy this much of the frame and, behind it, this much of the answer to the staging buffer.
    Upload { slot: SlotId, base_bytes: u64, answer_bytes: u64 },
    /// Record the work, and submit it. `held` says that the slot held an answer before.
    Submit { slot: SlotId, held: bool, update: bool },
    /// Copy this much of the staging buffer over the answer.
    Download { slot: SlotId, bytes: u64 },
    /// The composition is over.
    Finish { ok: bool },
}

/// Whether to keep something that was built for a raster, or build it.
pub open spec fn plan_for(existing: Option<Raster>, wanted: Raster) -> Ensure {
    match existing {
        Some(r) => if r == wanted {
            Ensure::Keep
        } else {
            Ensure::Rebuild
        },
        None => Ensure::Build,
    }
}

/// The bytes of the frame.
pub open spec fn frame_bytes(c: ComposeCall) -> u64 {
    spec_raster_bytes(c.width, c.height, 4)
}

/// The bytes of a frame and of an answer that a composition reads.
pub open spec fn answer_bytes(c: ComposeCall) -> u64 {
    match c.work {
        Work::TemporalDelta { answer, .. } => spec_raster_bytes(answer.width, answer.height, 4),
        _ => frame_bytes(c),
    }
}

/// Whether a composition has all it needs: frame and answer are as long as they must be, an answer
/// that is kept has a generation, and no answer is larger than the frame, whose staging buffer it
/// has to fit.
pub open spec fn is_served(c: ComposeCall) -> bool {
    &&& c.answer_length >= answer_bytes(c)
    &&& answer_bytes(c) <= frame_bytes(c)
    &&& match c.work {
        Work::CachedRaw { generation } => generation != 0,
        Work::TemporalDelta { generation, .. } => generation != 0 && c.base_length >= frame_bytes(c),
        _ => c.base_length >= frame_bytes(c),
    }
}

/// The generation of the answer, 0 where it is not kept.
pub open spec fn generation_of(work: Work) -> u64 {
    match work {
        Work::CachedRaw { generation } => generation,
        Work::TemporalDelta { generation, .. } => generation,
        _ => 0,
    }
}

/// A step: the composition, the slots and the action.
pub struct ComposeNext {
    pub call: ComposeCall,
    pub slots: Slots,
    pub action: ComposeAction,
}

pub open spec fn compose_go(c: ComposeCall, b: Slots, phase: ComposePhase, action: ComposeAction) -> ComposeNext {
    ComposeNext { call: ComposeCall { phase, ..c }, slots: b, action }
}

pub open spec fn compose_finish(c: ComposeCall, b: Slots, ok: bool) -> ComposeNext {
    compose_go(c, b, ComposePhase::Finished, ComposeAction::Finish { ok })
}

/// With the slot at rest: refuse what cannot be served, else size the slot. Images that are built
/// anew hold no answer.
pub open spec fn size_next(c: ComposeCall, b: Slots) -> ComposeNext {
    let wanted = Raster { width: c.width, height: c.height };
    let s = slot_of(b, c.slot);
    let plan = plan_for(s.sized, wanted);
    if !is_served(c) {
        compose_finish(c, b, false)
    } else {
        compose_go(
            c,
            if plan == Ensure::Rebuild {
                with_slot(b, c.slot, SlotState { sized: None, cached_generation: 0, ..s })
            } else {
                b
            },
            ComposePhase::Sizing,
            ComposeAction::Size { slot: c.slot, plan },
        )
    }
}

/// Submits the work.
pub open spec fn submit_next(c: ComposeCall, b: Slots, update: bool) -> ComposeNext {
    compose_go(
        ComposeCall { update, ..c },
        b,
        ComposePhase::Submitting,
        ComposeAction::Submit {
            slot: c.slot,
            held: slot_of(b, c.slot).cached_generation != 0,
            update,
        },
    )
}

/// Takes the answer, unless the slot holds it.
pub open spec fn update_next(c: ComposeCall, b: Slots) -> ComposeNext {
    if slot_of(b, c.slot).cached_generation != generation_of(c.work) {
        compose_go(
            ComposeCall { update: true, ..c },
            b,
            ComposePhase::Uploading,
            ComposeAction::Upload { slot: c.slot, base_bytes: frame_bytes(c), answer_bytes: answer_bytes(c) },
        )
    } else {
        submit_next(c, b, false)
    }
}

/// With the slot sized.
pub open spec fn sized_next(c: ComposeCall, b: Slots, capacity: u64) -> ComposeNext {
    let wanted = Raster { width: c.width, height: c.height };
    let s = SlotState { sized: Some(wanted), ..slot_of(b, c.slot) };
    let b = with_slot(b, c.slot, s);
    match c.work {
        Work::CachedRaw { generation } => if s.cached_generation == generation {
            submit_next(c, b, false)
        } else if capacity < frame_bytes(c) {
            compose_finish(c, b, false)
        } else {
            // The slot counts as holding the answer from here on.
            compose_go(
                ComposeCall { update: true, ..c },
                with_slot(b, c.slot, SlotState { cached_generation: generation, ..s }),
                ComposePhase::Uploading,
                ComposeAction::Upload { slot: c.slot, base_bytes: 0, answer_bytes: frame_bytes(c) },
            )
        },
        Work::TemporalDelta { answer, .. } => if answer == wanted {
            update_next(c, b)
        } else {
            let plan = plan_for(s.small, answer);
            compose_go(
                c,
                if plan == Ensure::Rebuild {
                    with_slot(b, c.slot, SlotState { small: None, ..s })
                } else {
                    b
                },
                ComposePhase::Shrinking,
                ComposeAction::Shrink { slot: c.slot, plan, answer },
            )
        },
        _ => if capacity < 2 * frame_bytes(c) {
            compose_finish(c, b, false)
        } else {
            compose_go(
                ComposeCall { update: true, ..c },
                b,
                ComposePhase::Uploading,
                ComposeAction::Upload { slot: c.slot, base_bytes: frame_bytes(c), answer_bytes: frame_bytes(c) },
            )
        },
    }
}

/// With the work submitted: a slot that took an answer holds it now.
pub open spec fn submitted_next(c: ComposeCall, b: Slots) -> ComposeNext {
    match c.work {
        Work::Download => compose_go(
            c,
            b,
            ComposePhase::Downloading,
            ComposeAction::Download { slot: c.slot, bytes: frame_bytes(c) },
        ),
        Work::TemporalDelta { generation, .. } => compose_finish(
            c,
            if c.update {
                with_slot(b, c.slot, SlotState { cached_generation: generation, ..slot_of(b, c.slot) })
            } else {
                b
            },
            true,
        ),
        _ => compose_finish(c, b, true),
    }
}

/// One step of a composition.
pub open spec fn compose_next(c: ComposeCall, b: Slots, e: ComposeEvent) -> ComposeNext {
    match (c.phase, e) {
        (ComposePhase::Starting, ComposeEvent::Begin) => if is_waited_for(c.work) {
            size_next(ComposeCall { slot: SlotId::Waited, ..c }, b)
        } else {
            compose_go(c, b, ComposePhase::Acquiring, ComposeAction::Acquire)
        },
        (ComposePhase::Acquiring, ComposeEvent::Flag(true)) => compose_go(
            ComposeCall { slot: whose_turn(b), ..c },
            turn_taken(b),
            ComposePhase::Waiting,
            ComposeAction::Wait { slot: whose_turn(b) },
        ),
        (ComposePhase::Waiting, ComposeEvent::Flag(true)) => size_next(c, b),
        (ComposePhase::Sizing, ComposeEvent::Sized { ok: true, capacity }) => sized_next(c, b, capacity),
        (ComposePhase::Shrinking, ComposeEvent::Flag(true)) => update_next(
            c,
            with_slot(
                b,
                c.slot,
                SlotState {
                    small: match c.work {
                        Work::TemporalDelta { answer, .. } => Some(answer),
                        _ => None,
                    },
                    ..slot_of(b, c.slot)
                },
            ),
        ),
        (ComposePhase::Uploading, ComposeEvent::Done) => submit_next(c, b, c.update),
        (ComposePhase::Submitting, ComposeEvent::Flag(true)) => submitted_next(c, b),
        (ComposePhase::Downloading, ComposeEvent::Done) => compose_finish(c, b, true),
        // Whatever fails ends the composition, with nothing composed.
        _ => compose_finish(c, b, false),
    }
}

/// Whether to keep something that was built for a raster, or build it.
pub fn plan_raster(existing: Option<Raster>, wanted: Raster) -> (plan: Ensure)
    ensures
        plan == plan_for(existing, wanted),
{
    match existing {
        Some(r) => if r.width == wanted.width && r.height == wanted.height {
            Ensure::Keep
        } else {
            Ensure::Rebuild
        },
        None => Ensure::Build,
    }
}

impl ComposeCall {
    /// A composition that begins.
    pub fn new(work: Work, width: u32, height: u32, base_length: u64, answer_length: u64) -> (c: ComposeCall)
        ensures
            c == (ComposeCall {
                work,
                width,
                height,
                base_length,
                answer_length,
                phase: ComposePhase::Starting,
                slot: SlotId::Waited,
                update: false,
            }),
    {
        ComposeCall {
            work,
            width,
            height,
            base_length,
            answer_length,
            phase: ComposePhase::Starting,
            slot: SlotId::Waited,
            update: false,
        }
    }

    fn go(&mut self, phase: ComposePhase, action: ComposeAction) -> (a: ComposeAction)
        ensures
            *final(self) == (ComposeCall { phase, ..*old(self) }),
            a == action,
    {
        self.phase = phase;
        action
    }

    fn finish(&mut self, ok: bool) -> (a: ComposeAction)
        ensures
            *final(self) == (ComposeCall { phase: ComposePhase::Finished, ..*old(self) }),
            a == (ComposeAction::Finish { ok }),
    {
        self.go(ComposePhase::Finished, ComposeAction::Finish { ok })
    }

    fn frame_bytes(&self) -> (bytes: u64)
        ensures
            bytes == frame_bytes(*self),
    {
        raster_bytes(self.width, self.height, 4)
    }

    fn answer_bytes(&self) -> (bytes: u64)
        ensures
            bytes == answer_bytes(*self),
    {
        match self.work {
            Work::TemporalDelta { answer, .. } => raster_bytes(answer.width, answer.height, 4),
            _ => self.frame_bytes(),
        }
    }

    /// Whether the composition has all it needs.
    pub fn served(&self) -> (served: bool)
        ensures
            served == is_served(*self),
    {
        let frame: u64 = self.frame_bytes();
        let answer: u64 = self.answer_bytes();
        self.answer_length >= answer && answer <= frame && match self.work {
            Work::CachedRaw { generation } => generation != 0,
            Work::TemporalDelta { generation, .. } => generation != 0 && self.base_length >= frame,
            _ => self.base_length >= frame,
        }
    }

    fn size(&mut self, slots: &mut Slots) -> (action: ComposeAction)
        ensures
            (ComposeNext { call: *final(self), slots: *final(slots), action }) == size_next(*old(self), *old(slots)),
    {
        if !self.served() {
            return self.finish(false);
        }
        let slot: SlotId = self.slot;
        let state: SlotState = slots.slot(slot);
        let plan: Ensure = plan_raster(state.sized, Raster { width: self.width, height: self.height });
        if plan == Ensure::Rebuild {
            slots.set_slot(slot, SlotState { sized: None, small: state.small, cached_generation: 0 });
        }
        self.go(ComposePhase::Sizing, ComposeAction::Size { slot, plan })
    }

    fn submit(&mut self, slots: &Slots, update: bool) -> (action: ComposeAction)
        ensures
            (ComposeNext { call: *final(self), slots: *slots, action }) == submit_next(*old(self), *slots, update),
    {
        let slot: SlotId = self.slot;
        let held: bool = slots.slot(slot).cached_generation != 0;
        self.update = update;
        self.go(ComposePhase::Submitting, ComposeAction::Submit { slot, held, update })
    }

    fn take(&mut self, slots: &Slots) -> (action: ComposeAction)
        ensures
            (ComposeNext { call: *final(self), slots: *slots, action }) == update_next(*old(self), *slots),
    {
        let slot: SlotId = self.slot;
        let generation: u64 = match self.work {
            Work::CachedRaw { generation } => generation,
            Work::TemporalDelta { generation, .. } => generation,
            _ => 0,
        };
        if slots.slot(slot).cached_generation != generation {
            let base_bytes: u64 = self.frame_bytes();
            let answer_bytes: u64 = self.answer_bytes();
            self.update = true;
            self.go(ComposePhase::Uploading, ComposeAction::Upload { slot, base_bytes, answer_bytes })
        } else {
            self.submit(slots, false)
        }
    }

    fn with_images(&mut self, slots: &mut Slots, capacity: u64) -> (action: ComposeAction)
        ensures
            (ComposeNext { call: *final(self), slots: *final(slots), action }) == sized_next(
                *old(self),
                *old(slots),
                capacity,
            ),
    {
        let slot: SlotId = self.slot;
        let wanted = Raster { width: self.width, height: self.height };
        let before: SlotState = slots.slot(slot);
        let state = SlotState {
            sized: Some(wanted),
            small: before.small,
            cached_generation: before.cached_generation,
        };
        slots.set_slot(slot, state);
        let bytes: u64 = self.frame_bytes();
        match self.work {
            Work::CachedRaw { generation } => {
                if state.cached_generation == generation {
                    self.submit(slots, false)
                } else if capacity < bytes {
                    self.finish(false)
                } else {
                    slots.set_slot(
                        slot,
                        SlotState { sized: state.sized, small: state.small, cached_generation: generation },
                    );
                    self.update = true;
                    self.go(
                        ComposePhase::Uploading,
                        ComposeAction::Upload { slot, base_bytes: 0, answer_bytes: bytes },
                    )
                }
            },
            Work::TemporalDelta { answer, .. } => {
                if answer.width == wanted.width && answer.height == wanted.height {
                    self.take(slots)
                } else {
                    let plan: Ensure = plan_raster(state.small, answer);
                    if plan == Ensure::Rebuild {
                        slots.set_slot(
                            slot,
                            SlotState {
                                sized: state.sized,
                                small: None,
                                cached_generation: state.cached_generation,
                            },
                        );
                    }
                    self.go(ComposePhase::Shrinking, ComposeAction::Shrink { slot, plan, answer })
                }
            },
            _ => {
                if (capacity as u128) < 2 * (bytes as u128) {
                    self.finish(false)
                } else {
                    self.update = true;
                    self.go(
                        ComposePhase::Uploading,
                        ComposeAction::Upload { slot, base_bytes: bytes, answer_bytes: bytes },
                    )
                }
            },
        }
    }

    fn submitted(&mut self, slots: &mut Slots) -> (action: ComposeAction)
        ensures
            (ComposeNext { call: *final(self), slots: *final(slots), action }) == submitted_next(
                *old(self),
                *old(slots),
            ),
    {
        let slot: SlotId = self.slot;
        match self.work {
            Work::Download => {
                let bytes: u64 = self.frame_bytes();
                self.go(ComposePhase::Downloading, ComposeAction::Download { slot, bytes })
            },
            Work::TemporalDelta { generation, .. } => {
                if self.update {
                    let before: SlotState = slots.slot(slot);
                    slots.set_slot(
                        slot,
                        SlotState { sized: before.sized, small: before.small, cached_generation: generation },
                    );
                }
                self.finish(true)
            },
            _ => self.finish(true),
        }
    }

    /// Takes what came of the last action, and says what to do next.
    pub fn advance(&mut self, slots: &mut Slots, event: ComposeEvent) -> (action: ComposeAction)
        requires
            slots_ok(*old(slots)),
        ensures
            (ComposeNext { call: *final(self), slots: *final(slots), action }) == compose_next(
                *old(self),
                *old(slots),
                event,
            ),
    {
        match (self.phase, event) {
            (ComposePhase::Starting, ComposeEvent::Begin) => {
                match self.work {
                    Work::Download | Work::IntoImage => {
                        self.slot = SlotId::Waited;
                        self.size(slots)
                    },
                    _ => self.go(ComposePhase::Acquiring, ComposeAction::Acquire),
                }
            },
            (ComposePhase::Acquiring, ComposeEvent::Flag(true)) => {
                let slot: SlotId = slots.take_turn();
                self.slot = slot;
                self.go(ComposePhase::Waiting, ComposeAction::Wait { slot })
            },
            (ComposePhase::Waiting, ComposeEvent::Flag(true)) => self.size(slots),
            (ComposePhase::Sizing, ComposeEvent::Sized { ok: true, capacity }) => self.with_images(slots, capacity),
            (ComposePhase::Shrinking, ComposeEvent::Flag(true)) => {
                let slot: SlotId = self.slot;
                let before: SlotState = slots.slot(slot);
                let small: Option<Raster> = match self.work {
                    Work::TemporalDelta { answer, .. } => Some(answer),
                    _ => None,
                };
                slots.set_slot(
                    slot,
                    SlotState { sized: before.sized, small, cached_generation: before.cached_generation },
                );
                self.take(slots)
            },
            (ComposePhase::Uploading, ComposeEvent::Done) => {
                let update: bool = self.update;
                self.submit(slots, update)
            },
            (ComposePhase::Submitting, ComposeEvent::Flag(true)) => self.submitted(slots),
            (ComposePhase::Downloading, ComposeEvent::Done) => self.finish(true),
            _ => self.finish(false),
        }
    }
}

/// What holds of a composition between its steps.
pub open spec fn compose_ok(c: ComposeCall, b: Slots) -> bool {
    &&& slots_ok(b)
    &&& !(c.phase == ComposePhase::Starting || c.phase == ComposePhase::Acquiring || c.phase == ComposePhase::Waiting
        || c.phase == ComposePhase::Finished) ==> is_served(c)
    &&& c.phase == ComposePhase::Uploading ==> c.update
    &&& c.phase == ComposePhase::Shrinking || c.phase == ComposePhase::Uploading || c.phase
        == ComposePhase::Submitting ==> slot_of(b, c.slot).sized == Some(Raster { width: c.width, height: c.height })
}

/// Every step keeps that a slot that holds an answer has images, and that work is only submitted to
/// a slot that was sized for it.
pub proof fn composing_keeps_the_slots_in_order(c: ComposeCall, b: Slots, e: ComposeEvent)
    requires
        compose_ok(c, b),
    ensures
        compose_ok(compose_next(c, b, e).call, compose_next(c, b, e).slots),
        compose_next(c, b, e).action is Submit ==> slot_of(compose_next(c, b, e).slots, c.slot).sized == Some(
            Raster { width: c.width, height: c.height },
        ),
{
}

/// Whenever the change of an answer is carried onto an image, the slot takes the answer, or took one
/// of the same generation before, be it to carry its change or to show it as it is.
pub proof fn a_delta_always_has_an_answer(c: ComposeCall, b: Slots, e: ComposeEvent)
    requires
        compose_ok(c, b),
        c.work is TemporalDelta,
        compose_next(c, b, e).action is Submit,
    ensures
        compose_next(c, b, e).action->update || compose_next(c, b, e).action->held && slot_of(
            b,
            c.slot,
        ).cached_generation == generation_of(c.work),
{
}

/// Images that are built anew hold no answer: whatever is kept is uploaded again.
pub proof fn a_rebuilt_slot_holds_no_answer(c: ComposeCall, b: Slots, e: ComposeEvent)
    requires
        compose_ok(c, b),
        compose_next(c, b, e).action is Size,
        compose_next(c, b, e).action->Size_plan != Ensure::Keep,
    ensures
        slot_of(compose_next(c, b, e).slots, compose_next(c, b, e).call.slot).cached_generation == 0,
{
}

/// A slot that takes turns is only touched once its last submission has been waited for, and a
/// composition changes no slot but its own.
pub proof fn a_slot_is_waited_for_before_it_is_used(c: ComposeCall, b: Slots, e: ComposeEvent, other: SlotId)
    ensures
        compose_next(c, b, e).action is Size && c.phase != ComposePhase::Waiting ==> compose_next(c, b, e).call.slot
            == SlotId::Waited,
        compose_next(c, b, e).action is Size && c.phase == ComposePhase::Waiting ==> e == ComposeEvent::Flag(true)
            && compose_next(c, b, e).call.slot == c.slot,
        other != compose_next(c, b, e).call.slot ==> slot_of(compose_next(c, b, e).slots, other) == slot_of(b, other),
{
}

/// The slots take turns: the one that has had its turn comes round again after all the others.
pub proof fn the_slots_take_turns(b: Slots)
    requires
        slots_ok(b),
    ensures
        whose_turn(turn_taken(b)) != whose_turn(b),
        whose_turn(turn_taken(turn_taken(b))) == whose_turn(b),
        whose_turn(b) != SlotId::Waited,
        turn_taken(turn_taken(b)) == b,
{
}

/// An answer that a slot holds is not uploaded again while its frame keeps its size.
pub proof fn a_held_answer_is_not_uploaded_again(c: ComposeCall, b: Slots, capacity: u64)
    requires
        compose_ok(c, b),
        c.phase == ComposePhase::Sizing,
        c.work is CachedRaw || c.work is TemporalDelta,
        slot_of(b, c.slot).cached_generation == generation_of(c.work),
    ensures
        compose_next(c, b, ComposeEvent::Sized { ok: true, capacity }).action !is Upload,
{
}

/// There are three slots, and changing one changes no other.
pub proof fn slots_are_kept_apart(b: Slots, id: SlotId, other: SlotId, s: SlotState)
    ensures
        slot_of(b, SlotId::Waited) == b.waited && slot_of(b, SlotId::First) == b.first && slot_of(b, SlotId::Second)
            == b.second,
        slot_of(with_slot(b, id, s), other) == (if id == other {
            s
        } else {
            slot_of(b, other)
        }),
        with_slot(b, id, s).next == b.next,
        fresh_slot().sized is None && fresh_slot().small is None && fresh_slot().cached_generation == 0,
{
}

/// A composition that is waited for takes its own slot at once; every other first needs the semaphore
/// of its image, and then waits for the first slot and the second in turn.
pub proof fn a_slot_is_taken_by_turns(c: ComposeCall, b: Slots)
    requires
        slots_ok(b),
    ensures
        ({
            let n = compose_next(ComposeCall { phase: ComposePhase::Starting, ..c }, b, ComposeEvent::Begin);
            match c.work {
                Work::Download | Work::IntoImage => n.call.slot == SlotId::Waited && !(n.action is Acquire),
                _ => n.action is Acquire && n.slots == b && n.call == (ComposeCall {
                    phase: ComposePhase::Acquiring,
                    ..c
                }),
            }
        }),
        ({
            let n = compose_next(ComposeCall { phase: ComposePhase::Acquiring, ..c }, b, ComposeEvent::Flag(true));
            let slot = if b.next == 0 {
                SlotId::First
            } else {
                SlotId::Second
            };
            &&& n.action == (ComposeAction::Wait { slot })
            &&& n.call == (ComposeCall { phase: ComposePhase::Waiting, slot, ..c })
            &&& n.slots == (Slots { next: (1 - b.next) as usize, ..b })
        }),
{
}

/// The bytes of a raster of four bytes a pixel that a composition counts with.
pub open spec fn picture_size(r: Raster) -> u64 {
    spec_raster_bytes(r.width, r.height, 4)
}

/// With its slot at rest, a composition is refused where its answer is shorter than the answer's raster
/// or that is larger than the frame's, where it reads the frame and that is too short, and where it
/// keeps an answer and gives no generation. Else its slot is sized: kept where it is of the frame's
/// raster, built where it is of none, and else rebuilt, which forgets its images and their answer.
pub proof fn only_what_is_whole_is_composed(c: ComposeCall, b: Slots)
    requires
        c.phase == ComposePhase::Waiting,
    ensures
        ({
            let n = compose_next(c, b, ComposeEvent::Flag(true));
            let frame = picture_size(Raster { width: c.width, height: c.height });
            let s = slot_of(b, c.slot);
            let (answer, reads_frame, keeps, generation) = match c.work {
                Work::TemporalDelta { answer, generation } => (picture_size(answer), true, true, generation),
                Work::CachedRaw { generation } => (frame, false, true, generation),
                _ => (frame, true, false, 0),
            };
            if c.answer_length < answer || answer > frame || reads_frame && c.base_length < frame || keeps && generation
                == 0 {
                n.action == (ComposeAction::Finish { ok: false }) && n.slots == b
            } else {
                let rebuilt = s.sized is Some && !(s.sized->0.width == c.width && s.sized->0.height == c.height);
                &&& n.call == (ComposeCall { phase: ComposePhase::Sizing, ..c })
                &&& n.action == (ComposeAction::Size {
                    slot: c.slot,
                    plan: if s.sized is None {
                        Ensure::Build
                    } else if rebuilt {
                        Ensure::Rebuild
                    } else {
                        Ensure::Keep
                    },
                })
                &&& !rebuilt ==> n.slots == b
                &&& rebuilt ==> slot_of(n.slots, c.slot) == (SlotState {
                    sized: None,
                    small: s.small,
                    cached_generation: 0,
                }) && n.slots.next == b.next
            }
        }),
{
}

/// A waited-for composition is held to the same.
pub proof fn a_waited_for_composition_is_held_to_the_same(c: ComposeCall, b: Slots)
    requires
        c.phase == ComposePhase::Starting,
        c.work is Download || c.work is IntoImage,
    ensures
        compose_next(c, b, ComposeEvent::Begin) == compose_next(
            ComposeCall { phase: ComposePhase::Waiting, slot: SlotId::Waited, ..c },
            b,
            ComposeEvent::Flag(true),
        ),
{
}

/// With the slot sized, a new frame and its answer are uploaded, one behind the other, where the staging
/// buffer holds both. An answer that is shown as it is is uploaded alone, where the buffer holds it,
/// unless the slot holds it already. An answer whose change is carried over gets an image of its own
/// raster first where that is not the frame's.
pub proof fn what_is_composed_is_uploaded(c: ComposeCall, b: Slots, capacity: u64)
    requires
        c.phase == ComposePhase::Sizing,
    ensures
        ({
            let n = compose_next(c, b, ComposeEvent::Sized { ok: true, capacity });
            let wanted = Raster { width: c.width, height: c.height };
            let frame = picture_size(wanted);
            let before = slot_of(b, c.slot);
            let after = slot_of(n.slots, c.slot);
            &&& after.sized == Some(wanted)
            &&& n.slots.next == b.next
            &&& match c.work {
                Work::CachedRaw { generation } => if before.cached_generation == generation {
                    &&& n.action == (ComposeAction::Submit { slot: c.slot, held: generation != 0, update: false })
                    &&& after.cached_generation == generation && after.small == before.small
                } else if capacity < frame {
                    &&& n.action == (ComposeAction::Finish { ok: false })
                    &&& after.cached_generation == before.cached_generation && after.small == before.small
                } else {
                    &&& n.action == (ComposeAction::Upload { slot: c.slot, base_bytes: 0, answer_bytes: frame })
                    &&& after.cached_generation == generation && after.small == before.small
                    &&& n.call.update
                },
                Work::TemporalDelta { answer, generation } => if answer.width == c.width && answer.height == c.height {
                    &&& before.cached_generation != generation ==> n.call.update && n.action == (
                    ComposeAction::Upload { slot: c.slot, base_bytes: frame, answer_bytes: frame })
                    &&& before.cached_generation == generation ==> !n.call.update && n.action == (
                    ComposeAction::Submit { slot: c.slot, held: generation != 0, update: false })
                    &&& after.cached_generation == before.cached_generation && after.small == before.small
                } else {
                    &&& n.action == (ComposeAction::Shrink {
                        slot: c.slot,
                        plan: if before.small is None {
                            Ensure::Build
                        } else if before.small->0.width == answer.width && before.small->0.height == answer.height {
                            Ensure::Keep
                        } else {
                            Ensure::Rebuild
                        },
                        answer,
                    })
                    &&& after.cached_generation == before.cached_generation
                    &&& after.small == Some(answer) || after.small is None
                    &&& before.small == Some(answer) ==> after.small == Some(answer)
                },
                _ => if capacity < 2 * frame {
                    n.action == (ComposeAction::Finish { ok: false })
                } else {
                    n.call.update && n.action == (ComposeAction::Upload {
                        slot: c.slot,
                        base_bytes: frame,
                        answer_bytes: frame,
                    })
                },
            }
        }),
{
}

/// With an image for it, an answer that is smaller than its frame is uploaded behind the frame it was
/// made for, unless the slot holds it; what was uploaded is submitted as an update. A submission that
/// worked leaves its answer with the slot, and is done, but for a frame that is handed back, which is
/// copied first.
pub proof fn an_answer_stays_with_its_slot(c: ComposeCall, b: Slots)
    ensures
        c.work matches Work::TemporalDelta { answer, generation } ==> {
            let n = compose_next(ComposeCall { phase: ComposePhase::Shrinking, ..c }, b, ComposeEvent::Flag(true));
            let before = slot_of(b, c.slot);
            &&& slot_of(n.slots, c.slot) == (SlotState { small: Some(answer), ..before })
            &&& before.cached_generation != generation ==> n.call.update && n.action == (ComposeAction::Upload {
                slot: c.slot,
                base_bytes: picture_size(Raster { width: c.width, height: c.height }),
                answer_bytes: picture_size(answer),
            })
            &&& before.cached_generation == generation ==> !n.call.update && n.action == (ComposeAction::Submit {
                slot: c.slot,
                held: generation != 0,
                update: false,
            })
        },
        ({
            let n = compose_next(ComposeCall { phase: ComposePhase::Uploading, ..c }, b, ComposeEvent::Done);
            &&& n.action == (ComposeAction::Submit {
                slot: c.slot,
                held: slot_of(b, c.slot).cached_generation > 0,
                update: c.update,
            })
            &&& n.slots == b && n.call.update == c.update
        }),
        ({
            let n = compose_next(ComposeCall { phase: ComposePhase::Submitting, ..c }, b, ComposeEvent::Flag(true));
            let before = slot_of(b, c.slot);
            match c.work {
                Work::Download => n.slots == b && n.action == (ComposeAction::Download {
                    slot: c.slot,
                    bytes: picture_size(Raster { width: c.width, height: c.height }),
                }),
                Work::TemporalDelta { answer, generation } => {
                    &&& n.action == (ComposeAction::Finish { ok: true })
                    &&& slot_of(n.slots, c.slot) == (SlotState {
                        cached_generation: if c.update {
                            generation
                        } else {
                            before.cached_generation
                        },
                        ..before
                    })
                },
                _ => n.slots == b && n.action == (ComposeAction::Finish { ok: true }),
            }
        }),
        ({
            let n = compose_next(ComposeCall { phase: ComposePhase::Downloading, ..c }, b, ComposeEvent::Done);
            n.slots == b && n.action == (ComposeAction::Finish { ok: true })
        }),
{
}

/// Whatever fails ends the composition without success, and leaves the slots as they are.
pub proof fn a_failure_ends_a_composition(c: ComposeCall, b: Slots, capacity: u64)
    ensures
        ({
            let n = compose_next(c, b, ComposeEvent::Flag(false));
            n.action == (ComposeAction::Finish { ok: false }) && n.slots == b && n.call.phase == ComposePhase::Finished
        }),
        ({
            let n = compose_next(c, b, ComposeEvent::Sized { ok: false, capacity });
            n.action == (ComposeAction::Finish { ok: false }) && n.slots == b && n.call.phase == ComposePhase::Finished
        }),
{
}

} // verus!
