//! Swapchains: how one is created, and which presented image the layer works on.

use crate::capture_step::{take_setup_failure, CaptureFlags};
use crate::present_sync::{retired_after, PresentSemaphores};
use crate::primary::{claim_primary, release_device, release_primary, PrimaryClaim};
use crate::tap::{TapTracker, Taps};
use crate::vulkan::{
    IMAGE_USAGE_TRANSFER_DST, LAYOUT_GENERAL, LAYOUT_PRESENT_SRC, NULL_HANDLE,
    RESULT_ERROR_DEVICE_LOST, RESULT_SUCCESS, STAGE_ALL_COMMANDS,
};
use std::collections::HashMap;
use vstd::prelude::*;

verus! {

broadcast use {vstd::std_specs::hash::group_hash_axioms, vstd::map::group_map_axioms};

/// What is known of a live swapchain.
pub struct SwapchainState {
    pub format: i32,
    pub width: u32,
    pub height: u32,
    pub hdr_kind: u32,
    /// The layer did not enlarge the usage of its images.
    pub pass_through: bool,
    /// The usage that its images were really created with.
    pub image_usage: u32,
    /// Its images, in the order of their indices.
    pub images: Vec<u64>,
}

/// What a [`SwapchainState`] stands for.
#[verifier::ext_equal]
pub struct Swapchain {
    pub format: i32,
    pub width: u32,
    pub height: u32,
    pub hdr_kind: u32,
    pub pass_through: bool,
    pub image_usage: u32,
    pub images: Seq<u64>,
}

impl View for SwapchainState {
    type V = Swapchain;

    open spec fn view(&self) -> Swapchain {
        Swapchain {
            format: self.format,
            width: self.width,
            height: self.height,
            hdr_kind: self.hdr_kind,
            pass_through: self.pass_through,
            image_usage: self.image_usage,
            images: self.images@,
        }
    }
}

/// What decides whether a new swapchain is worth enlarging.
#[derive(Clone, Copy, Debug, PartialEq, Eq, Structural)]
pub struct Admission {
    pub layer_enabled: bool,
    pub process_eligible: bool,
    pub supported_format: bool,
    pub plausible_size: bool,
    pub max_width: u32,
    pub max_height: u32,
}

/// Whether a swapchain of this size may be captured: the layer is on, the process may own the
/// channel, the format is one that the layer handles, and the size is that of a game within the
/// channel's limits.
pub fn is_eligible(a: Admission, width: u32, height: u32) -> (eligible: bool)
    ensures
        eligible == (a.layer_enabled && a.process_eligible && a.supported_format && width <= a.max_width && height
            <= a.max_height && a.plausible_size),
{
    a.layer_enabled && a.process_eligible && a.supported_format && width <= a.max_width && height <= a.max_height
        && a.plausible_size
}

/// One call of the next `vkCreateSwapchainKHR`. Everything but the usage and the old swapchain is
/// the application's own request.
#[derive(Clone, Copy, Debug, PartialEq, Eq, Structural)]
pub struct CreateAttempt {
    pub image_usage: u32,
    pub old_swapchain: u64,
    /// The usage is the enlarged one.
    pub enlarged: bool,
}

/// What to do after an attempt.
#[derive(Clone, Copy, Debug, PartialEq, Eq, Structural)]
pub enum CreateOutcome {
    /// Try again, like this.
    Retry(CreateAttempt),
    /// The application's own request was refused with this result.
    Refused(i32),
    /// The swapchain exists, with images of this usage.
    Created { pass_through: bool, image_usage: u32 },
}

/// The first attempt: with the enlarged usage, where the surface was found to support one.
pub fn first_attempt(image_usage: u32, old_swapchain: u64, enlarged_usage: Option<u32>) -> (attempt: CreateAttempt)
    ensures
        attempt == (match enlarged_usage {
            Some(usage) => (CreateAttempt { image_usage: usage, old_swapchain, enlarged: true }),
            None => (CreateAttempt { image_usage, old_swapchain, enlarged: false }),
        }),
{
    match enlarged_usage {
        Some(usage) => CreateAttempt { image_usage: usage, old_swapchain, enlarged: true },
        None => CreateAttempt { image_usage, old_swapchain, enlarged: false },
    }
}

/// What follows an attempt with this result, `image_usage` being what the application asked for.
pub open spec fn outcome_of(image_usage: u32, attempt: CreateAttempt, result: i32) -> CreateOutcome {
    if result == RESULT_SUCCESS {
        CreateOutcome::Created { pass_through: !attempt.enlarged, image_usage: attempt.image_usage }
    } else if attempt.enlarged {
        CreateOutcome::Retry(CreateAttempt { image_usage, old_swapchain: NULL_HANDLE, enlarged: false })
    } else {
        CreateOutcome::Refused(result)
    }
}

/// Decides what follows an attempt. A refused enlargement is tried again with the application's
/// own usage, and without its old swapchain, which the refused attempt has retired.
pub fn after_attempt(image_usage: u32, attempt: CreateAttempt, result: i32) -> (outcome: CreateOutcome)
    ensures
        outcome == outcome_of(image_usage, attempt, result),
{
    if result == RESULT_SUCCESS {
        CreateOutcome::Created { pass_through: !attempt.enlarged, image_usage: attempt.image_usage }
    } else if attempt.enlarged {
        CreateOutcome::Retry(CreateAttempt { image_usage, old_swapchain: NULL_HANDLE, enlarged: false })
    } else {
        CreateOutcome::Refused(result)
    }
}

/// The layer is never the reason that a game loses its swapchain: a request is refused only with
/// the result of an attempt with the application's own usage, there are at most two attempts, and
/// a swapchain is marked enhanced exactly when its images got the enlarged usage.
pub proof fn enlarging_never_loses_a_swapchain(
    image_usage: u32,
    old_swapchain: u64,
    enlarged_usage: Option<u32>,
    first: i32,
    second: i32,
)
    ensures
        ({
            let attempt = match enlarged_usage {
                Some(usage) => CreateAttempt { image_usage: usage, old_swapchain, enlarged: true },
                None => CreateAttempt { image_usage, old_swapchain, enlarged: false },
            };
            match outcome_of(image_usage, attempt, first) {
                CreateOutcome::Retry(again) => {
                    &&& first != RESULT_SUCCESS
                    &&& again.image_usage == image_usage
                    &&& again.old_swapchain == NULL_HANDLE
                    &&& match outcome_of(image_usage, again, second) {
                        CreateOutcome::Retry(_) => false,
                        CreateOutcome::Refused(r) => r == second && second != RESULT_SUCCESS,
                        CreateOutcome::Created { pass_through, image_usage: usage } => pass_through && usage
                            == image_usage,
                    }
                },
                CreateOutcome::Refused(r) => enlarged_usage is None && r == first && first != RESULT_SUCCESS,
                CreateOutcome::Created { pass_through, image_usage: usage } => {
                    &&& pass_through == enlarged_usage is None
                    &&& usage == attempt.image_usage
                },
            }
        }),
{
}

/// The swapchains and queues of a device.
pub struct DeviceState {
    pub swapchains: HashMap<u64, SwapchainState>,
    /// The family of every queue that the application has fetched.
    pub queue_families: HashMap<u64, u32>,
    /// The semaphores that stand in for the application's present waits, one per image.
    pub relay_semaphores: PresentSemaphores,
}

/// What a device's swapchains stand for.
pub open spec fn swapchains_of(m: Map<u64, SwapchainState>) -> Map<u64, Swapchain> {
    m.map_values(|s: SwapchainState| s@)
}

impl DeviceState {
    /// The known swapchains.
    pub open spec fn known(&self) -> Map<u64, Swapchain> {
        swapchains_of(self.swapchains@)
    }

    /// A device without swapchains or queues.
    pub fn new() -> (state: DeviceState)
        ensures
            state.known() == Map::<u64, Swapchain>::empty(),
            state.queue_families@ == Map::<u64, u32>::empty(),
            state.relay_semaphores.active@ == Map::<u64, u64>::empty(),
            state.relay_semaphores.retired@ == Seq::<u64>::empty(),
    {
        let state = DeviceState {
            swapchains: HashMap::new(),
            queue_families: HashMap::new(),
            relay_semaphores: PresentSemaphores { active: HashMap::new(), retired: Vec::new() },
        };
        assert(state.known() =~= Map::<u64, Swapchain>::empty());
        state
    }

    /// Notes the family of a queue that the application fetched.
    pub fn note_queue(&mut self, queue: u64, family: u32)
        ensures
            final(self).queue_families@ == old(self).queue_families@.insert(queue, family),
            final(self).swapchains == old(self).swapchains,
            final(self).relay_semaphores == old(self).relay_semaphores,
    {
        self.queue_families.insert(queue, family);
    }

    /// Notes a new swapchain, and its images with the render tap.
    pub fn track_swapchain(&mut self, tracker: &mut TapTracker, handle: u64, state: SwapchainState)
        ensures
            final(self).known() == old(self).known().insert(handle, state@),
            final(self).queue_families == old(self).queue_families,
            final(self).relay_semaphores == old(self).relay_semaphores,
            final(tracker)@ == old(tracker)@.add_images(state@.images),
    {
        tracker.add_swapchain_images(state.images.as_slice());
        self.swapchains.insert(handle, state);
        assert(self.known() =~= old(self).known().insert(handle, state@));
    }

    /// Forgets a swapchain that is destroyed: it gives up the claim, the render tap forgets its
    /// images, and their relay semaphores retire. Returns its images, for whatever else is kept
    /// per image.
    pub fn forget_swapchain(&mut self, tracker: &mut TapTracker, claim: &mut PrimaryClaim, device: u64, handle: u64) -> (
        images: Vec<u64>)
        ensures
            *final(claim) == old(claim).after_release(device, handle),
            final(self).known() == old(self).known().remove(handle),
            final(self).queue_families == old(self).queue_families,
            images@ == (if old(self).known().contains_key(handle) {
                old(self).known()[handle].images
            } else {
                Seq::empty()
            }),
            final(tracker)@ == old(tracker)@.remove_images(images@),
            (final(self).relay_semaphores.active@, final(self).relay_semaphores.retired@) == retired_after(
                old(self).relay_semaphores.active@,
                old(self).relay_semaphores.retired@,
                images@,
            ),
    {
        release_primary(claim, device, handle);
        let removed: Option<SwapchainState> = self.swapchains.remove(&handle);
        assert(self.known() =~= old(self).known().remove(handle));
        match removed {
            Some(old_state) => {
                tracker.remove_swapchain_images(old_state.images.as_slice());
                self.relay_semaphores.retire(old_state.images.as_slice());
                old_state.images
            },
            None => Vec::new(),
        }
    }

    /// Forgets every swapchain of a device that is destroyed, and gives up its claim.
    pub fn forget_device(&mut self, claim: &mut PrimaryClaim, device: u64)
        ensures
            *final(claim) == old(claim).after_device_loss(device),
            final(self).known() == Map::<u64, Swapchain>::empty(),
            final(self).queue_families == old(self).queue_families,
            final(self).relay_semaphores == old(self).relay_semaphores,
    {
        self.swapchains.clear();
        assert(self.known() =~= Map::<u64, Swapchain>::empty());
        release_device(claim, device);
    }
}

/// Whether a device that is being destroyed must be waited for: it holds something that submitted
/// work may still use.
pub fn teardown_must_wait(capture: bool, pipeline: bool, direct: bool, compose: bool, no_relay_semaphores: bool) -> (wait:
    bool)
    ensures
        wait == (capture || pipeline || direct || compose || !no_relay_semaphores),
{
    capture || pipeline || direct || compose || !no_relay_semaphores
}

/// Whether a device's objects may be destroyed after this result of the wait: it is idle, or lost.
/// After any other result they are left alone.
pub fn teardown_may_destroy(wait_result: i32) -> (may: bool)
    ensures
        may == (wait_result == RESULT_SUCCESS || wait_result == RESULT_ERROR_DEVICE_LOST),
{
    wait_result == RESULT_SUCCESS || wait_result == RESULT_ERROR_DEVICE_LOST
}

/// Why a present goes out untouched.
#[derive(Clone, Copy, Debug, PartialEq, Eq, Structural)]
pub enum PresentSkip {
    /// The images of this pass-through swapchain cannot be written to.
    NotWritable { image_usage: u32 },
    /// This pass-through swapchain's image has no known source to read from.
    NoSource,
    /// The source is not in the general layout.
    SourceNotGeneral { layout: i32 },
    /// The image index is not one of the swapchain's.
    NoSuchImage,
    /// Another swapchain holds the claim.
    NotPrimary { width: u32, height: u32 },
    /// The family of the presenting queue is unknown.
    UnknownQueue,
}

/// The image that a present is worked on.
#[derive(Clone, Copy, Debug, PartialEq, Eq, Structural)]
pub struct PresentTarget {
    pub swapchain: u64,
    pub image: u64,
    pub format: i32,
    pub width: u32,
    pub height: u32,
    pub queue_family: u32,
    /// The image to capture, which is the source of `image` where there is one.
    pub capture_image: u64,
    pub capture_layout: i32,
}

/// What one presented swapchain leads to, the claim aside.
pub enum Verdict {
    /// It is passed over, for this reason if it is known at all.
    Pass(Option<PresentSkip>),
    /// Nothing is worked on in this present.
    Stop(PresentSkip),
    /// It may be worked on, reading this image in this layout.
    Candidate { image: u64, capture_image: u64, capture_layout: i32 },
}

/// The verdict on one presented swapchain.
pub open spec fn verdict(known: Map<u64, Swapchain>, taps: Taps, swapchain: u64, index: u32) -> Verdict {
    if !known.contains_key(swapchain) {
        Verdict::Pass(None)
    } else {
        let sw = known[swapchain];
        if index >= sw.images.len() {
            Verdict::Stop(PresentSkip::NoSuchImage)
        } else {
            let image = sw.images[index as int];
            let tap = taps.tap_for(image);
            if sw.pass_through && sw.image_usage & IMAGE_USAGE_TRANSFER_DST != IMAGE_USAGE_TRANSFER_DST {
                Verdict::Pass(Some(PresentSkip::NotWritable { image_usage: sw.image_usage }))
            } else if sw.pass_through && tap is None {
                Verdict::Pass(Some(PresentSkip::NoSource))
            } else if sw.pass_through && (tap->0).1 != LAYOUT_GENERAL {
                Verdict::Pass(Some(PresentSkip::SourceNotGeneral { layout: (tap->0).1 }))
            } else {
                match tap {
                    Some((source, layout)) => Verdict::Candidate {
                        image,
                        capture_image: source,
                        capture_layout: layout,
                    },
                    None => Verdict::Candidate { image, capture_image: image, capture_layout: LAYOUT_PRESENT_SRC },
                }
            }
        }
    }
}

/// The first presented swapchain, from `from` on, that is not passed over.
pub open spec fn decisive(
    known: Map<u64, Swapchain>,
    taps: Taps,
    swapchains: Seq<u64>,
    indices: Seq<u32>,
    from: int,
) -> Option<int>
    decreases swapchains.len() - from,
{
    if from < 0 || from >= swapchains.len() || from >= indices.len() {
        None
    } else if verdict(known, taps, swapchains[from], indices[from]) is Pass {
        decisive(known, taps, swapchains, indices, from + 1)
    } else {
        Some(from)
    }
}

/// The target of a present, and the claim after it.
pub open spec fn selection(
    known: Map<u64, Swapchain>,
    queue_families: Map<u64, u32>,
    taps: Taps,
    claim: PrimaryClaim,
    device: u64,
    queue: u64,
    swapchains: Seq<u64>,
    indices: Seq<u32>,
) -> (Option<PresentTarget>, PrimaryClaim) {
    match decisive(known, taps, swapchains, indices, 0) {
        None => (None, claim),
        Some(i) => {
            let swapchain = swapchains[i];
            let sw = known[swapchain];
            match verdict(known, taps, swapchain, indices[i]) {
                Verdict::Candidate { image, capture_image, capture_layout } => {
                    let after = claim.after_claim(device, swapchain, sw.width, sw.height);
                    if claim.grants(device, swapchain, sw.width, sw.height) && queue_families.contains_key(queue) {
                        (
                            Some(
                                PresentTarget {
                                    swapchain,
                                    image,
                                    format: sw.format,
                                    width: sw.width,
                                    height: sw.height,
                                    queue_family: queue_families[queue],
                                    capture_image,
                                    capture_layout,
                                },
                            ),
                            after,
                        )
                    } else {
                        (None, after)
                    }
                },
                _ => (None, claim),
            }
        },
    }
}

/// Why the presented swapchains before `upto` are passed over.
pub open spec fn reasons_before(
    known: Map<u64, Swapchain>,
    taps: Taps,
    swapchains: Seq<u64>,
    indices: Seq<u32>,
    upto: int,
) -> Seq<PresentSkip>
    decreases upto,
{
    if upto <= 0 {
        Seq::empty()
    } else {
        let before = reasons_before(known, taps, swapchains, indices, upto - 1);
        match verdict(known, taps, swapchains[upto - 1], indices[upto - 1]) {
            Verdict::Pass(Some(reason)) => before.push(reason),
            _ => before,
        }
    }
}

/// Why a present, or a part of it, goes out untouched.
pub open spec fn skip_reasons(
    known: Map<u64, Swapchain>,
    queue_families: Map<u64, u32>,
    taps: Taps,
    claim: PrimaryClaim,
    device: u64,
    queue: u64,
    swapchains: Seq<u64>,
    indices: Seq<u32>,
) -> Seq<PresentSkip> {
    let count = if swapchains.len() < indices.len() {
        swapchains.len()
    } else {
        indices.len()
    };
    match decisive(known, taps, swapchains, indices, 0) {
        None => reasons_before(known, taps, swapchains, indices, count as int),
        Some(i) => {
            let before = reasons_before(known, taps, swapchains, indices, i);
            let sw = known[swapchains[i]];
            match verdict(known, taps, swapchains[i], indices[i]) {
                Verdict::Stop(reason) => before.push(reason),
                _ => if !claim.grants(device, swapchains[i], sw.width, sw.height) {
                    before.push(PresentSkip::NotPrimary { width: sw.width, height: sw.height })
                } else if !queue_families.contains_key(queue) {
                    before.push(PresentSkip::UnknownQueue)
                } else {
                    before
                },
            }
        },
    }
}

/// Chooses the image that a present is worked on, if any, and says why others are not. The first
/// presented swapchain that the layer can write to and has something to read for is asked for the
/// claim; without the claim, or on a queue of unknown family, nothing is worked on.
pub fn select_present(
    state: &DeviceState,
    tracker: &TapTracker,
    claim: &mut PrimaryClaim,
    device: u64,
    queue: u64,
    swapchains: &[u64],
    indices: &[u32],
) -> (choice: (Option<PresentTarget>, Vec<PresentSkip>))
    ensures
        (choice.0, *final(claim)) == selection(
            state.known(),
            state.queue_families@,
            tracker@,
            *old(claim),
            device,
            queue,
            swapchains@,
            indices@,
        ),
        choice.1@ == skip_reasons(
            state.known(),
            state.queue_families@,
            tracker@,
            *old(claim),
            device,
            queue,
            swapchains@,
            indices@,
        ),
{
    let mut skips: Vec<PresentSkip> = Vec::new();
    let ghost known = state.known();
    let ghost taps = tracker@;
    let mut i: usize = 0;
    while i < swapchains.len() && i < indices.len()
        invariant
            i <= swapchains@.len(),
            i <= indices@.len(),
            known == state.known(),
            taps == tracker@,
            *claim == *old(claim),
            skips@ == reasons_before(known, taps, swapchains@, indices@, i as int),
            decisive(known, taps, swapchains@, indices@, 0) == decisive(known, taps, swapchains@, indices@, i as int),
        decreases swapchains@.len() - i,
    {
        let swapchain: u64 = swapchains[i];
        let index: usize = indices[i] as usize;
        match state.swapchains.get(&swapchain) {
            None => {
                assert(!known.contains_key(swapchain));
            },
            Some(sw) => {
                assert(known.contains_key(swapchain) && known[swapchain] == sw@);
                if index >= sw.images.len() {
                    skips.push(PresentSkip::NoSuchImage);
                    return (None, skips);
                }
                let image: u64 = sw.images[index];
                let tap: Option<(u64, i32)> = tracker.tap_for(image);
                let writable: bool = sw.image_usage & IMAGE_USAGE_TRANSFER_DST == IMAGE_USAGE_TRANSFER_DST;
                if sw.pass_through && !writable {
                    skips.push(PresentSkip::NotWritable { image_usage: sw.image_usage });
                } else if sw.pass_through && tap.is_none() {
                    skips.push(PresentSkip::NoSource);
                } else if sw.pass_through && tap.unwrap().1 != LAYOUT_GENERAL {
                    skips.push(PresentSkip::SourceNotGeneral { layout: tap.unwrap().1 });
                } else {
                    let width: u32 = sw.width;
                    let height: u32 = sw.height;
                    let format: i32 = sw.format;
                    if !claim_primary(claim, device, swapchain, width, height) {
                        skips.push(PresentSkip::NotPrimary { width, height });
                        return (None, skips);
                    }
                    match state.queue_families.get(&queue) {
                        None => {
                            skips.push(PresentSkip::UnknownQueue);
                            return (None, skips);
                        },
                        Some(family) => {
                            let (capture_image, capture_layout): (u64, i32) = match tap {
                                Some((source, layout)) => (source, layout),
                                None => (image, LAYOUT_PRESENT_SRC),
                            };
                            let target = PresentTarget {
                                swapchain,
                                image,
                                format,
                                width,
                                height,
                                queue_family: *family,
                                capture_image,
                                capture_layout,
                            };
                            return (Some(target), skips);
                        },
                    }
                }
            },
        }
        i = i + 1;
    }
    (None, skips)
}

/// What follows once a target is chosen.
#[derive(Clone, Copy, Debug, PartialEq, Eq, Structural)]
pub enum PresentStep {
    /// The present goes out as it came.
    Untouched,
    /// The application's waits are relayed first.
    Relay,
    /// The frame is captured and composed.
    Run,
}

/// Decides what follows once a target is chosen: nothing when the model will never answer in this
/// session; the relay first when the application waits on anything before presenting.
pub fn after_selection(model_unavailable: bool, application_waits: usize) -> (step: PresentStep)
    ensures
        step == (if model_unavailable {
            PresentStep::Untouched
        } else if application_waits > 0 {
            PresentStep::Relay
        } else {
            PresentStep::Run
        }),
{
    if model_unavailable {
        PresentStep::Untouched
    } else if application_waits > 0 {
        PresentStep::Relay
    } else {
        PresentStep::Run
    }
}

/// Decides what follows the relay: without it no layer work can safely read the image.
pub fn after_relay(relay: Option<u64>) -> (step: PresentStep)
    ensures
        step == (if relay is Some {
            PresentStep::Run
        } else {
            PresentStep::Untouched
        }),
{
    if relay.is_some() {
        PresentStep::Run
    } else {
        PresentStep::Untouched
    }
}

/// After a present was worked on: a swapchain whose capture could not be set up gives the claim up, so
/// that it does not keep another from driving the channel.
pub fn after_run(claim: &mut PrimaryClaim, flags: &mut CaptureFlags, device: u64, swapchain: u64)
    ensures
        *final(flags) == (CaptureFlags { setup_failed: false, ..*old(flags) }),
        *final(claim) == (if old(flags).setup_failed {
            old(claim).after_release(device, swapchain)
        } else {
            *old(claim)
        }),
{
    if take_setup_failure(flags) {
        release_primary(claim, device, swapchain);
    }
}

/// The stages at which the relay waits on each of the application's semaphores: all of them, so
/// that everything submitted later on the queue comes after.
pub fn relay_stages(count: usize) -> (stages: Vec<u32>)
    ensures
        stages@ == Seq::new(count as nat, |i: int| STAGE_ALL_COMMANDS),
{
    let mut stages: Vec<u32> = Vec::new();
    let mut i: usize = 0;
    while i < count
        invariant
            i <= count,
            stages@ == Seq::new(i as nat, |i: int| STAGE_ALL_COMMANDS),
        decreases count - i,
    {
        stages.push(STAGE_ALL_COMMANDS);
        i = i + 1;
    }
    stages
}

/// What the real present waits on: `None` for exactly what the application asked for.
pub open spec fn combined_waits(application: Seq<u64>, relay: Option<u64>, compose: Option<u64>) -> Option<Seq<u64>> {
    if relay is None && compose is None {
        None
    } else {
        let first = match relay {
            Some(r) => seq![r],
            None => application,
        };
        Some(
            match compose {
                Some(c) => first.push(c),
                None => first,
            },
        )
    }
}

/// The wait list of the real present: the relay in place of the application's waits, or those
/// waits themselves, and the compose work on top. `None` when nothing was added, so that the
/// present goes out as it came.
pub fn combine_waits(application: &[u64], relay: Option<u64>, compose: Option<u64>) -> (waits: Option<Vec<u64>>)
    ensures
        (match waits {
            Some(list) => Some(list@),
            None => None,
        }) == combined_waits(application@, relay, compose),
{
    if relay.is_none() && compose.is_none() {
        return None;
    }
    let mut list: Vec<u64> = Vec::new();
    match relay {
        Some(r) => {
            list.push(r);
            assert(list@ =~= seq![r]);
        },
        None => {
            let mut i: usize = 0;
            while i < application.len()
                invariant
                    i <= application@.len(),
                    list@ == application@.take(i as int),
                decreases application@.len() - i,
            {
                list.push(application[i]);
                assert(application@.take(i + 1) =~= application@.take(i as int).push(application@[i as int]));
                i = i + 1;
            }
            assert(application@.take(i as int) =~= application@);
        },
    }
    if let Some(c) = compose {
        list.push(c);
    }
    Some(list)
}

/// A present never loses a dependency: it waits on everything that the application asked for, or
/// on the relay that has waited on all of it, and on the compose work wherever there was any.
pub proof fn no_wait_is_dropped(application: Seq<u64>, relay: Option<u64>, compose: Option<u64>)
    ensures
        match combined_waits(application, relay, compose) {
            None => relay is None && compose is None,
            Some(list) => {
                &&& relay matches Some(r) ==> list.contains(r)
                &&& relay is None ==> forall|s: u64| application.contains(s) ==> list.contains(s)
                &&& compose matches Some(c) ==> list.contains(c)
            },
        },
{
    if let Some(list) = combined_waits(application, relay, compose) {
        if let Some(c) = compose {
            assert(list[list.len() - 1] == c);
        }
        if let Some(r) = relay {
            assert(list[0] == r);
        } else {
            assert forall|s: u64| application.contains(s) implies list.contains(s) by {
                assert(list[application.index_of(s)] == s);
            }
        }
    }
}

proof fn lemma_decisive(known: Map<u64, Swapchain>, taps: Taps, swapchains: Seq<u64>, indices: Seq<u32>, from: int)
    requires
        0 <= from,
    ensures
        decisive(known, taps, swapchains, indices, from) matches Some(i) ==> from <= i < swapchains.len() && i
            < indices.len() && !(verdict(known, taps, swapchains[i], indices[i]) is Pass),
    decreases swapchains.len() - from,
{
    if from < swapchains.len() && from < indices.len() && verdict(
        known,
        taps,
        swapchains[from],
        indices[from],
    ) is Pass {
        lemma_decisive(known, taps, swapchains, indices, from + 1);
    }
}

/// An image is only worked on when that is legal: it is an image of a known swapchain that holds
/// the claim, and, where the layer did not enlarge that swapchain, one that can be written to and
/// whose source is in the general layout.
pub proof fn only_writable_images_are_worked_on(
    known: Map<u64, Swapchain>,
    queue_families: Map<u64, u32>,
    taps: Taps,
    claim: PrimaryClaim,
    device: u64,
    queue: u64,
    swapchains: Seq<u64>,
    indices: Seq<u32>,
)
    ensures
        selection(known, queue_families, taps, claim, device, queue, swapchains, indices).0 matches Some(t) ==> {
            let sw = known[t.swapchain];
            &&& known.contains_key(t.swapchain)
            &&& sw.images.contains(t.image)
            &&& queue_families.contains_key(queue) && t.queue_family == queue_families[queue]
            &&& selection(known, queue_families, taps, claim, device, queue, swapchains, indices).1.held_by(
                device,
                t.swapchain,
            )
            &&& sw.pass_through ==> sw.image_usage & IMAGE_USAGE_TRANSFER_DST == IMAGE_USAGE_TRANSFER_DST
                && taps.tap_for(t.image) == Some((t.capture_image, LAYOUT_GENERAL))
            &&& taps.tap_for(t.image) is None ==> t.capture_image == t.image && t.capture_layout == LAYOUT_PRESENT_SRC
        },
{
    lemma_decisive(known, taps, swapchains, indices, 0);
    if let Some(t) = selection(known, queue_families, taps, claim, device, queue, swapchains, indices).0 {
        let i = decisive(known, taps, swapchains, indices, 0)->0;
        assert(known[t.swapchain].images[indices[i] as int] == t.image);
    }
}

/// A swapchain is created where the result is 0. Where an enlarged request has any other, the
/// application's own usage is asked for, with no old swapchain; where its own request has, it sees that.
pub proof fn only_success_creates_a_swapchain(image_usage: u32, attempt: CreateAttempt, result: i32)
    ensures
        outcome_of(image_usage, attempt, result) == (if result == 0 {
            CreateOutcome::Created { pass_through: !attempt.enlarged, image_usage: attempt.image_usage }
        } else if attempt.enlarged {
            CreateOutcome::Retry(CreateAttempt { image_usage, old_swapchain: 0, enlarged: false })
        } else {
            CreateOutcome::Refused(result)
        }),
{
}

/// The reason to pass a presented image over: its swapchain is one that the layer did not enlarge, and its
/// images cannot be copied to (2), or it has no source, or its source is not in the general layout (1).
pub open spec fn passed_over_for(sw: Swapchain, tap: Option<(u64, i32)>) -> Option<PresentSkip> {
    if !sw.pass_through {
        None
    } else if sw.image_usage & 2 != 2 {
        Some(PresentSkip::NotWritable { image_usage: sw.image_usage })
    } else {
        match tap {
            None => Some(PresentSkip::NoSource),
            Some((source, layout)) => if layout == 1 {
                None
            } else {
                Some(PresentSkip::SourceNotGeneral { layout })
            },
        }
    }
}

/// A presented swapchain that is not known is passed over without a reason, and one that is, for the
/// reason that there is. An index beyond its images stops the search. What is left is captured from the
/// source that the image was copied from, and where none is known from the image itself, as presentable.
pub proof fn an_image_is_judged_by_its_swapchain(known: Map<u64, Swapchain>, taps: Taps, swapchain: u64, index: u32)
    ensures
        ({
            let v = verdict(known, taps, swapchain, index);
            let sw = known[swapchain];
            let image = sw.images[index as int];
            if !known.dom().contains(swapchain) {
                v == Verdict::Pass(None)
            } else if index as int >= sw.images.len() {
                v == Verdict::Stop(PresentSkip::NoSuchImage)
            } else {
                match passed_over_for(sw, taps.tap_for(image)) {
                    Some(reason) => v == Verdict::Pass(Some(reason)),
                    None => match taps.tap_for(image) {
                        Some((source, layout)) => v == (Verdict::Candidate {
                            image,
                            capture_image: source,
                            capture_layout: layout,
                        }),
                        None => v == (Verdict::Candidate {
                            image,
                            capture_image: image,
                            capture_layout: 1000001002,
                        }),
                    },
                }
            }
        }),
{
}

proof fn lemma_first_is_decisive(
    known: Map<u64, Swapchain>,
    taps: Taps,
    swapchains: Seq<u64>,
    indices: Seq<u32>,
    from: int,
    i: int,
)
    requires
        0 <= from <= i,
        i < swapchains.len(),
        i < indices.len(),
        forall|j: int| from <= j < i ==> verdict(known, taps, #[trigger] swapchains[j], indices[j]) is Pass,
        !(verdict(known, taps, swapchains[i], indices[i]) is Pass),
    ensures
        decisive(known, taps, swapchains, indices, from) == Some(i),
    decreases i - from,
{
    if from < i {
        assert(verdict(known, taps, swapchains[from], indices[from]) is Pass);
        lemma_first_is_decisive(known, taps, swapchains, indices, from + 1, i);
    }
}

proof fn lemma_none_is_decisive(
    known: Map<u64, Swapchain>,
    taps: Taps,
    swapchains: Seq<u64>,
    indices: Seq<u32>,
    from: int,
)
    requires
        0 <= from,
        forall|j: int|
            from <= j < swapchains.len() && j < indices.len() ==> verdict(
                known,
                taps,
                #[trigger] swapchains[j],
                indices[j],
            ) is Pass,
    ensures
        decisive(known, taps, swapchains, indices, from) is None,
    decreases swapchains.len() - from,
{
    if from < swapchains.len() && from < indices.len() {
        assert(verdict(known, taps, swapchains[from], indices[from]) is Pass);
        lemma_none_is_decisive(known, taps, swapchains, indices, from + 1);
    }
}

/// The first presented swapchain that is not passed over is the one that is worked on: it asks for the
/// claim with its size, and where it is granted and the queue's family is known, its image is the target,
/// with its format and size. Where it is not granted, or the family is not known, there is none, and no
/// later swapchain is tried; an index beyond its images leaves the claim alone.
pub proof fn the_first_that_will_do_is_worked_on(
    known: Map<u64, Swapchain>,
    queue_families: Map<u64, u32>,
    taps: Taps,
    claim: PrimaryClaim,
    device: u64,
    queue: u64,
    swapchains: Seq<u64>,
    indices: Seq<u32>,
    i: int,
)
    requires
        0 <= i < swapchains.len(),
        i < indices.len(),
        forall|j: int| 0 <= j < i ==> verdict(known, taps, #[trigger] swapchains[j], indices[j]) is Pass,
    ensures
        ({
            let (target, after) = selection(
                known,
                queue_families,
                taps,
                claim,
                device,
                queue,
                swapchains,
                indices,
            );
            let s = swapchains[i];
            let sw = known[s];
            match verdict(known, taps, s, indices[i]) {
                Verdict::Pass(_) => true,
                Verdict::Stop(_) => target is None && after == claim,
                Verdict::Candidate { image, capture_image, capture_layout } => {
                    &&& after == claim.after_claim(device, s, sw.width, sw.height)
                    &&& target == (if claim.grants(device, s, sw.width, sw.height) && queue_families.dom().contains(
                        queue,
                    ) {
                        Some(
                            PresentTarget {
                                swapchain: s,
                                image,
                                format: sw.format,
                                width: sw.width,
                                height: sw.height,
                                queue_family: queue_families[queue],
                                capture_image,
                                capture_layout,
                            },
                        )
                    } else {
                        None
                    })
                },
            }
        }),
{
    if !(verdict(known, taps, swapchains[i], indices[i]) is Pass) {
        lemma_first_is_decisive(known, taps, swapchains, indices, 0, i);
    }
}

/// Where all are passed over, nothing is worked on, and the claim is left alone.
pub proof fn nothing_is_worked_on_where_all_are_passed_over(
    known: Map<u64, Swapchain>,
    queue_families: Map<u64, u32>,
    taps: Taps,
    claim: PrimaryClaim,
    device: u64,
    queue: u64,
    swapchains: Seq<u64>,
    indices: Seq<u32>,
)
    requires
        forall|j: int|
            0 <= j < swapchains.len() && j < indices.len() ==> verdict(
                known,
                taps,
                #[trigger] swapchains[j],
                indices[j],
            ) is Pass,
    ensures
        selection(known, queue_families, taps, claim, device, queue, swapchains, indices) == (
            None::<PresentTarget>,
            claim,
        ),
        skip_reasons(known, queue_families, taps, claim, device, queue, swapchains, indices) == reasons_before(
            known,
            taps,
            swapchains,
            indices,
            vstd::math::min(swapchains.len() as int, indices.len() as int),
        ),
{
    lemma_none_is_decisive(known, taps, swapchains, indices, 0);
}

/// The reasons come in the order of the presented swapchains: one for each that was passed over and is
/// known, and then the one for which the search ended, if it ended with nothing.
pub proof fn reasons_come_in_order(
    known: Map<u64, Swapchain>,
    queue_families: Map<u64, u32>,
    taps: Taps,
    claim: PrimaryClaim,
    device: u64,
    queue: u64,
    swapchains: Seq<u64>,
    indices: Seq<u32>,
    i: int,
)
    requires
        0 <= i < swapchains.len(),
        i < indices.len(),
    ensures
        reasons_before(known, taps, swapchains, indices, 0) == Seq::<PresentSkip>::empty(),
        ({
            let before = reasons_before(known, taps, swapchains, indices, i);
            let sw = known[swapchains[i]];
            let v = verdict(known, taps, swapchains[i], indices[i]);
            let all = skip_reasons(known, queue_families, taps, claim, device, queue, swapchains, indices);
            &&& reasons_before(known, taps, swapchains, indices, i + 1) == (match v {
                Verdict::Pass(Some(reason)) => before + seq![reason],
                _ => before,
            })
            &&& !(v is Pass) && (forall|j: int|
                0 <= j < i ==> verdict(known, taps, #[trigger] swapchains[j], indices[j]) is Pass) ==> all == before + (
            match v {
                Verdict::Stop(reason) => seq![reason],
                _ => if !claim.grants(device, swapchains[i], sw.width, sw.height) {
                    seq![PresentSkip::NotPrimary { width: sw.width, height: sw.height }]
                } else if !queue_families.dom().contains(queue) {
                    seq![PresentSkip::UnknownQueue]
                } else {
                    seq![]
                },
            })
        }),
{
    if !(verdict(known, taps, swapchains[i], indices[i]) is Pass) && (forall|j: int|
        0 <= j < i ==> verdict(known, taps, #[trigger] swapchains[j], indices[j]) is Pass) {
        lemma_first_is_decisive(known, taps, swapchains, indices, 0, i);
    }
}

/// The real present waits on the relay, or else on what the application asked for, and then on the
/// composition; where neither the relay nor the composition is there, it is left as it was.
pub proof fn the_relay_stands_in_for_the_application(application: Seq<u64>, relay: u64, compose: u64)
    ensures
        combined_waits(application, None, None) is None,
        combined_waits(application, Some(relay), None) == Some(seq![relay]),
        combined_waits(application, Some(relay), Some(compose)) == Some(seq![relay, compose]),
        combined_waits(application, None, Some(compose)) == Some(application + seq![compose]),
{
    assert(application.push(compose) =~= application + seq![compose]);
}

} // verus!
