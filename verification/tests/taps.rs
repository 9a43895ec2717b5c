//! The render tap, and the semaphores of presented images.

use neural_forge_layer::present_sync::PresentSemaphores;
use neural_forge_layer::tap::{prune_orphaned_tap_source, TapTracker};
use neural_forge_layer::vulkan::{LAYOUT_GENERAL, LAYOUT_TRANSFER_SRC};

#[test]
fn prune_orphaned_tap_source_removes_a_truly_unreferenced_source() {
    let mut state = TapTracker::default();
    state.tapped_source_layouts.insert(1, LAYOUT_GENERAL);
    prune_orphaned_tap_source(&mut state, 1);
    assert!(!state.tapped_source_layouts.contains_key(&1));
}

#[test]
fn prune_orphaned_tap_source_keeps_a_source_still_referenced_elsewhere() {
    let mut state = TapTracker::default();
    state.tapped_source_layouts.insert(1, LAYOUT_GENERAL);
    state.tap_sources_by_destination.insert(2, 1);
    prune_orphaned_tap_source(&mut state, 1);
    assert!(state.tapped_source_layouts.contains_key(&1));
}

#[test]
fn destroying_the_only_swapchain_referencing_a_source_prunes_it() {
    let mut state = TapTracker::default();
    let source = 10;
    let destination = 20;
    state.tapped_source_layouts.insert(source, LAYOUT_TRANSFER_SRC);
    state.tap_sources_by_destination.insert(destination, source);
    state.remove_swapchain_images(&[destination]);
    assert!(!state.tap_sources_by_destination.contains_key(&destination));
    assert!(!state.tapped_source_layouts.contains_key(&source));
}

#[test]
fn a_source_shared_by_two_destinations_survives_until_both_are_gone() {
    let mut state = TapTracker::default();
    let source = 10;
    state.tapped_source_layouts.insert(source, LAYOUT_GENERAL);
    state.tap_sources_by_destination.insert(20, source);
    state.tap_sources_by_destination.insert(21, source);

    state.tap_sources_by_destination.remove(&20);
    prune_orphaned_tap_source(&mut state, source);
    assert!(state.tapped_source_layouts.contains_key(&source), "still referenced by 21");

    state.tap_sources_by_destination.remove(&21);
    prune_orphaned_tap_source(&mut state, source);
    assert!(!state.tapped_source_layouts.contains_key(&source));
}

#[test]
fn retargeting_a_destination_to_a_new_source_prunes_the_old_one_if_unreferenced() {
    let mut state = TapTracker::default();
    let destination = 20;
    let old_source = 1;
    let new_source = 2;
    state.swapchain_images.insert(destination);
    state.tapped_source_layouts.insert(old_source, LAYOUT_GENERAL);
    state.tap_sources_by_destination.insert(destination, old_source);

    state.observe_write(7, new_source, LAYOUT_GENERAL, destination);
    state.commit_submit(&[7]);

    assert!(!state.tapped_source_layouts.contains_key(&old_source));
    assert!(state.tapped_source_layouts.contains_key(&new_source));
}

#[test]
fn destroying_a_source_image_drops_its_layout_and_every_mapping_to_it() {
    let mut state = TapTracker::default();
    let source = 10;
    let unrelated_source = 11;
    state.tapped_source_layouts.insert(source, LAYOUT_GENERAL);
    state.tapped_source_layouts.insert(unrelated_source, LAYOUT_GENERAL);
    state.tap_sources_by_destination.insert(20, source);
    state.tap_sources_by_destination.insert(21, source);
    state.tap_sources_by_destination.insert(22, unrelated_source);

    state.destroy_image(source);

    assert!(!state.tapped_source_layouts.contains_key(&source));
    assert!(!state.tap_sources_by_destination.contains_key(&20));
    assert!(!state.tap_sources_by_destination.contains_key(&21));
    assert!(state.tapped_source_layouts.contains_key(&unrelated_source));
    assert_eq!(state.tap_sources_by_destination.get(&22), Some(&unrelated_source));
}

fn tracker_with_swapchain() -> TapTracker {
    let mut t = TapTracker::default();
    t.swapchain_images.insert(100);
    t
}

#[test]
fn recorded_layout_is_invisible_until_submit() {
    let mut t = tracker_with_swapchain();
    assert_eq!(t.observe_write(1, 1, LAYOUT_TRANSFER_SRC, 100), Some(true));
    assert_eq!(t.tap_for(100), None);
    t.commit_submit(&[1]);
    assert_eq!(t.tap_for(100), Some((1, LAYOUT_TRANSFER_SRC)));
}

#[test]
fn submission_order_wins_over_recording_order() {
    let mut t = tracker_with_swapchain();
    t.observe_write(1, 1, LAYOUT_TRANSFER_SRC, 100);
    t.record_barrier(2, 1, LAYOUT_GENERAL);
    t.commit_submit(&[2, 1]);
    assert_eq!(t.tap_for(100).map(|x| x.1), Some(LAYOUT_TRANSFER_SRC));
}

#[test]
fn a_barrier_after_the_blit_in_the_same_buffer_is_the_final_layout() {
    let mut t = tracker_with_swapchain();
    t.observe_write(1, 1, LAYOUT_TRANSFER_SRC, 100);
    t.record_barrier(1, 1, LAYOUT_GENERAL);
    t.commit_submit(&[1]);
    assert_eq!(t.tap_for(100).map(|x| x.1), Some(LAYOUT_GENERAL));
}

#[test]
fn unsubmitted_and_re_recorded_buffers_never_commit() {
    let mut t = tracker_with_swapchain();
    t.observe_write(1, 1, LAYOUT_GENERAL, 100);
    t.begin_recording(1);
    t.commit_submit(&[1]);
    assert_eq!(t.tap_for(100), None);
}

#[test]
fn barriers_on_unrelated_images_are_ignored() {
    let mut t = tracker_with_swapchain();
    t.record_barrier(1, 7, LAYOUT_GENERAL);
    assert!(t.pending.is_empty());
}

#[test]
fn writes_into_non_swapchain_images_are_ignored() {
    let mut t = tracker_with_swapchain();
    assert_eq!(t.observe_write(1, 1, LAYOUT_GENERAL, 555), None);
    assert!(t.pending.is_empty() && t.tap_sources_by_destination.is_empty());
}

#[test]
fn secondary_buffers_contribute_when_executed() {
    let mut t = tracker_with_swapchain();
    t.observe_write(1, 1, LAYOUT_GENERAL, 100);
    t.execute_secondary(9, &[1]);
    t.commit_submit(&[9]);
    assert_eq!(t.tap_for(100).map(|x| x.1), Some(LAYOUT_GENERAL));
    t.free(&[1, 9]);
    assert!(t.pending.is_empty());
}

#[test]
fn a_source_destroyed_before_submit_is_not_committed() {
    let mut t = tracker_with_swapchain();
    t.observe_write(1, 1, LAYOUT_GENERAL, 100);
    t.tap_sources_by_destination.clear();
    t.commit_submit(&[1]);
    assert!(t.tapped_source_layouts.is_empty());
}

#[test]
fn submitting_twice_is_as_submitting_one_batch() {
    let mut one = tracker_with_swapchain();
    let mut two = tracker_with_swapchain();
    for t in [&mut one, &mut two] {
        t.observe_write(1, 5, LAYOUT_TRANSFER_SRC, 100);
        t.record_barrier(2, 5, LAYOUT_GENERAL);
    }
    one.commit_submit(&[1, 2]);
    two.commit_submit(&[1]);
    two.commit_submit(&[2]);
    assert_eq!(one.tap_for(100), two.tap_for(100));
    assert_eq!(one.tap_for(100), Some((5, LAYOUT_GENERAL)));
}

#[test]
fn a_second_copy_into_an_image_is_not_the_first() {
    let mut t = tracker_with_swapchain();
    assert_eq!(t.observe_write(1, 1, LAYOUT_GENERAL, 100), Some(true));
    assert_eq!(t.observe_write(1, 1, LAYOUT_GENERAL, 100), Some(false));
    assert!(t.is_source(1));
    assert!(!t.is_source(100));
}

#[test]
fn three_images_do_not_share_a_two_slot_semaphore_ring() {
    let mut sems = PresentSemaphores::default();
    let mut next: u64 = 10;
    for image in [2u64, 0, 1, 2, 0, 1, 2, 0] {
        let sem = sems
            .get(image + 1, || {
                next += 1;
                Some(next)
            })
            .unwrap();
        assert_eq!(sem, [12, 13, 11][image as usize]);
    }
    assert_eq!(next, 13);
    sems.retire(&[1]);
    assert_eq!(sems.retired, [12]);
    // An image that takes over a handle does not take over its semaphore.
    assert_eq!(sems.get(1, || Some(14)), Some(14));
}

#[test]
fn a_semaphore_that_could_not_be_made_leaves_no_trace() {
    let mut sems = PresentSemaphores::default();
    assert!(sems.is_empty());
    assert_eq!(sems.get(1, || None), None);
    assert!(sems.is_empty());
    assert_eq!(sems.get(1, || Some(5)), Some(5));
    assert!(!sems.is_empty());
    sems.retire(&[1]);
    sems.get(2, || Some(6));
    let mut all = sems.destroy();
    all.sort_unstable();
    assert_eq!(all, [5, 6]);
}
