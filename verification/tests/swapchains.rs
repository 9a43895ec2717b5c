//! Swapchains: their creation, the claim on the channel, and what a present works on.

use neural_forge_layer::capture_step::CaptureFlags;
use neural_forge_layer::primary::{claim_primary, release_device, release_primary, PrimaryClaim};
use neural_forge_layer::swapchains::{
    after_attempt, after_relay, after_run, after_selection, combine_waits, first_attempt, is_eligible, relay_stages, select_present,
    teardown_may_destroy, teardown_must_wait, Admission, CreateAttempt, CreateOutcome, DeviceState, PresentSkip, PresentStep,
    SwapchainState,
};
use neural_forge_layer::tap::TapTracker;
use neural_forge_layer::vulkan::{
    IMAGE_USAGE_TRANSFER_DST, LAYOUT_GENERAL, LAYOUT_PRESENT_SRC, LAYOUT_TRANSFER_SRC, RESULT_ERROR_DEVICE_LOST,
    STAGE_ALL_COMMANDS,
};

fn swapchain(pass_through: bool, image_usage: u32, images: &[u64]) -> SwapchainState {
    SwapchainState { format: 44, width: 1920, height: 1080, hdr_kind: 0, pass_through, image_usage, images: images.to_vec() }
}

fn device(s: SwapchainState) -> (DeviceState, TapTracker) {
    let mut state = DeviceState::new();
    let mut taps = TapTracker::default();
    state.note_queue(9, 3);
    state.track_swapchain(&mut taps, 50, s);
    (state, taps)
}

#[test]
fn a_refused_enlargement_is_tried_again_as_it_was_asked_for() {
    let first = first_attempt(16, 7, Some(19));
    assert_eq!(first, CreateAttempt { image_usage: 19, old_swapchain: 7, enlarged: true });
    assert_eq!(after_attempt(16, first, 0), CreateOutcome::Created { pass_through: false, image_usage: 19 });
    let CreateOutcome::Retry(again) = after_attempt(16, first, -9) else { panic!("a retry") };
    assert_eq!(again, CreateAttempt { image_usage: 16, old_swapchain: 0, enlarged: false });
    assert_eq!(after_attempt(16, again, -9), CreateOutcome::Refused(-9));
    assert_eq!(after_attempt(16, again, 0), CreateOutcome::Created { pass_through: true, image_usage: 16 });
    assert_eq!(first_attempt(16, 7, None), CreateAttempt { image_usage: 16, old_swapchain: 7, enlarged: false });
}

#[test]
fn only_games_are_let_in() {
    let a = Admission {
        layer_enabled: true,
        process_eligible: true,
        supported_format: true,
        plausible_size: true,
        max_width: 100,
        max_height: 100,
    };
    assert!(is_eligible(a, 100, 100));
    assert!(!is_eligible(a, 101, 100) && !is_eligible(a, 100, 101));
    assert!(!is_eligible(Admission { layer_enabled: false, ..a }, 1, 1));
    assert!(!is_eligible(Admission { process_eligible: false, ..a }, 1, 1));
    assert!(!is_eligible(Admission { supported_format: false, ..a }, 1, 1));
    assert!(!is_eligible(Admission { plausible_size: false, ..a }, 1, 1));
}

#[test]
fn the_largest_swapchain_holds_the_claim() {
    let mut claim = PrimaryClaim { holder: None };
    assert!(claim_primary(&mut claim, 1, 10, 100, 100));
    assert!(!claim_primary(&mut claim, 1, 11, 100, 100));
    assert!(claim_primary(&mut claim, 1, 10, 100, 100));
    assert!(claim_primary(&mut claim, 1, 11, 101, 100));
    assert!(!claim_primary(&mut claim, 1, 10, 100, 100));
    release_primary(&mut claim, 1, 10);
    assert_eq!(claim.holder.unwrap().swapchain, 11);
    release_primary(&mut claim, 1, 11);
    assert!(claim_primary(&mut claim, 1, 10, 1, 1));
    release_device(&mut claim, 2);
    assert!(claim.holder.is_some());
    release_device(&mut claim, 1);
    assert!(claim.holder.is_none());
}

#[test]
fn a_swapchain_that_cannot_be_captured_gives_the_claim_up() {
    let mut claim = PrimaryClaim { holder: None };
    assert!(claim_primary(&mut claim, 1, 10, 100, 100));
    let mut flags = CaptureFlags { setup_failed: false, external_memory_host: true };
    after_run(&mut claim, &mut flags, 1, 10);
    assert!(!claim_primary(&mut claim, 1, 11, 50, 50));
    flags.setup_failed = true;
    after_run(&mut claim, &mut flags, 1, 10);
    assert!(!flags.setup_failed);
    assert!(flags.external_memory_host);
    assert!(claim_primary(&mut claim, 1, 11, 50, 50));
}

#[test]
fn a_present_works_on_the_image_it_can_read_and_write() {
    let mut claim = PrimaryClaim { holder: None };
    let (state, taps) = device(swapchain(false, 19, &[100, 101]));
    let (target, skips) = select_present(&state, &taps, &mut claim, 1, 9, &[50], &[1]);
    let target = target.unwrap();
    assert_eq!((target.image, target.capture_image, target.capture_layout), (101, 101, LAYOUT_PRESENT_SRC));
    assert_eq!((target.queue_family, target.width, target.height), (3, 1920, 1080));
    assert!(skips.is_empty());
    let (none, _) = select_present(&state, &taps, &mut claim, 1, 9, &[51], &[0]);
    assert!(none.is_none());
    let (none, skips) = select_present(&state, &taps, &mut claim, 1, 8, &[50], &[0]);
    assert!(none.is_none());
    assert_eq!(skips, [PresentSkip::UnknownQueue]);
}

#[test]
fn a_pass_through_swapchain_needs_a_source() {
    let mut claim = PrimaryClaim { holder: None };
    let (state, taps) = device(swapchain(true, 16, &[100]));
    let (none, skips) = select_present(&state, &taps, &mut claim, 1, 9, &[50], &[0]);
    assert!(none.is_none());
    assert_eq!(skips, [PresentSkip::NotWritable { image_usage: 16 }]);

    let (state, mut taps) = device(swapchain(true, IMAGE_USAGE_TRANSFER_DST, &[100]));
    let (none, skips) = select_present(&state, &taps, &mut claim, 1, 9, &[50], &[0]);
    assert!(none.is_none());
    assert_eq!(skips, [PresentSkip::NoSource]);
    taps.observe_write(1, 7, LAYOUT_TRANSFER_SRC, 100);
    taps.commit_submit(&[1]);
    let (none, skips) = select_present(&state, &taps, &mut claim, 1, 9, &[50], &[0]);
    assert!(none.is_none());
    assert_eq!(skips, [PresentSkip::SourceNotGeneral { layout: LAYOUT_TRANSFER_SRC }]);
    taps.record_barrier(2, 7, LAYOUT_GENERAL);
    taps.commit_submit(&[2]);
    let (target, _) = select_present(&state, &taps, &mut claim, 1, 9, &[50], &[0]);
    let target = target.unwrap();
    assert_eq!((target.image, target.capture_image, target.capture_layout), (100, 7, LAYOUT_GENERAL));
}

#[test]
fn a_destroyed_swapchain_leaves_nothing_behind() {
    let mut claim = PrimaryClaim { holder: None };
    let (mut state, mut taps) = device(swapchain(false, 19, &[100, 101]));
    select_present(&state, &taps, &mut claim, 1, 9, &[50], &[0]);
    assert!(claim.holder.is_some());
    state.relay_semaphores.get(100, || Some(77));
    assert_eq!(state.forget_swapchain(&mut taps, &mut claim, 1, 50), [100, 101]);
    assert!(claim.holder.is_none());
    assert!(taps.swapchain_images.is_empty());
    assert_eq!(state.relay_semaphores.retired, [77]);
    assert!(state.forget_swapchain(&mut taps, &mut claim, 1, 50).is_empty());
    state.forget_device(&mut claim, 1);
    assert!(state.swapchains.is_empty());
}

#[test]
fn a_device_is_waited_for_before_its_objects_go() {
    assert!(!teardown_must_wait(false, false, false, false, true));
    assert!(teardown_must_wait(false, false, false, false, false));
    assert!(teardown_must_wait(true, false, false, false, true));
    assert!(teardown_may_destroy(0) && teardown_may_destroy(RESULT_ERROR_DEVICE_LOST));
    assert!(!teardown_may_destroy(2) && !teardown_may_destroy(-1));
}

#[test]
fn no_wait_of_the_application_is_lost() {
    assert_eq!(after_selection(true, 0), PresentStep::Untouched);
    assert_eq!(after_selection(false, 2), PresentStep::Relay);
    assert_eq!(after_selection(false, 0), PresentStep::Run);
    assert_eq!(after_relay(Some(1)), PresentStep::Run);
    assert_eq!(after_relay(None), PresentStep::Untouched);
    assert_eq!(relay_stages(2), [STAGE_ALL_COMMANDS, STAGE_ALL_COMMANDS]);
    assert_eq!(combine_waits(&[1, 2], None, None), None);
    assert_eq!(combine_waits(&[1, 2], Some(3), Some(4)), Some(vec![3, 4]));
    assert_eq!(combine_waits(&[1, 2], Some(3), None), Some(vec![3]));
    assert_eq!(combine_waits(&[], None, Some(4)), Some(vec![4]));
}
