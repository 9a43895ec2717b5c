//! The render tap: which image the game copies into each swapchain image, and in which layout
//! that source image is.
//!
//! Layouts follow submission order, not recording order. What a command buffer records is parked
//! until the buffer is submitted, and only then becomes the layout of the source. A source's
//! layout is dropped as soon as no swapchain image is fed from it any more, because the value of
//! a destroyed image's handle may come back as another image.

use std::collections::{HashMap, HashSet};
use vstd::prelude::*;

verus! {

broadcast use {vstd::std_specs::hash::group_hash_axioms, vstd::map::group_map_axioms};

/// Render-tap bookkeeping of one device.
pub struct TapTracker {
    /// Every image of every live swapchain.
    pub swapchain_images: HashSet<u64>,
    /// The swapchain images that the game was seen to copy into.
    pub observed_swapchain_writes: HashSet<u64>,
    /// The layout of each source, as of the last submission.
    pub tapped_source_layouts: HashMap<u64, i32>,
    /// The source that each swapchain image is fed from.
    pub tap_sources_by_destination: HashMap<u64, u64>,
    /// The layouts of sources that each command buffer has recorded, in recording order.
    pub pending: HashMap<u64, Vec<(u64, i32)>>,
}

/// What a [`TapTracker`] stands for.
#[verifier::ext_equal]
pub struct Taps {
    pub swapchain_images: Set<u64>,
    pub observed: Set<u64>,
    pub layouts: Map<u64, i32>,
    pub sources: Map<u64, u64>,
    pub pending: Map<u64, Seq<(u64, i32)>>,
}

impl View for TapTracker {
    type V = Taps;

    open spec fn view(&self) -> Taps {
        Taps {
            swapchain_images: self.swapchain_images@,
            observed: self.observed_swapchain_writes@,
            layouts: self.tapped_source_layouts@,
            sources: self.tap_sources_by_destination@,
            pending: self.pending@.map_values(|list: Vec<(u64, i32)>| list@),
        }
    }
}

impl Taps {
    /// Nothing tracked.
    pub open spec fn none() -> Taps {
        Taps {
            swapchain_images: Set::empty(),
            observed: Set::empty(),
            layouts: Map::empty(),
            sources: Map::empty(),
            pending: Map::empty(),
        }
    }

    /// Every layout belongs to an image that feeds a swapchain image, and only images of live
    /// swapchains are fed.
    pub open spec fn is_consistent(self) -> bool {
        &&& forall|source: u64| self.layouts.contains_key(source) ==> #[trigger] self.is_source(source)
        &&& forall|d: u64| self.sources.contains_key(d) ==> #[trigger] self.swapchain_images.contains(d)
    }

    /// Whether any swapchain image is fed from `image`.
    pub open spec fn is_source(self, image: u64) -> bool {
        self.sources.contains_value(image)
    }

    /// The source of a swapchain image with its last submitted layout.
    pub open spec fn tap_for(self, destination: u64) -> Option<(u64, i32)> {
        if self.sources.contains_key(destination) && self.layouts.contains_key(self.sources[destination]) {
            Some((self.sources[destination], self.layouts[self.sources[destination]]))
        } else {
            None
        }
    }

    /// What a command buffer has recorded.
    pub open spec fn recorded(self, command_buffer: u64) -> Seq<(u64, i32)> {
        if self.pending.contains_key(command_buffer) {
            self.pending[command_buffer]
        } else {
            Seq::empty()
        }
    }

    /// With one more layout recorded.
    pub open spec fn record(self, command_buffer: u64, image: u64, layout: i32) -> Taps {
        Taps {
            pending: self.pending.insert(command_buffer, self.recorded(command_buffer).push((image, layout))),
            ..self
        }
    }

    /// Without the layout of `source`, unless something is still fed from it.
    pub open spec fn prune(self, source: u64) -> Taps {
        if self.is_source(source) {
            self
        } else {
            Taps { layouts: self.layouts.remove(source), ..self }
        }
    }

    /// After a copy from `src`, in `src_layout`, into `dst` was recorded.
    pub open spec fn observe(self, command_buffer: u64, src: u64, src_layout: i32, dst: u64) -> Taps {
        if !self.swapchain_images.contains(dst) {
            self
        } else {
            let fed = Taps { observed: self.observed.insert(dst), sources: self.sources.insert(dst, src), ..self };
            let pruned = if self.sources.contains_key(dst) && self.sources[dst] != src {
                fed.prune(self.sources[dst])
            } else {
                fed
            };
            pruned.record(command_buffer, src, src_layout)
        }
    }

    /// After a barrier that leaves `image` in `new_layout` was recorded.
    pub open spec fn barrier(self, command_buffer: u64, image: u64, new_layout: i32) -> Taps {
        if self.is_source(image) {
            self.record(command_buffer, image, new_layout)
        } else {
            self
        }
    }

    /// Without what a command buffer had recorded.
    pub open spec fn forget(self, command_buffer: u64) -> Taps {
        Taps { pending: self.pending.remove(command_buffer), ..self }
    }

    /// Without what any of several command buffers had recorded.
    pub open spec fn forget_all(self, command_buffers: Seq<u64>) -> Taps
        decreases command_buffers.len(),
    {
        if command_buffers.len() == 0 {
            self
        } else {
            self.forget_all(command_buffers.drop_last()).forget(command_buffers.last())
        }
    }

    /// What several command buffers have recorded, one after the other.
    pub open spec fn recorded_by_all(self, command_buffers: Seq<u64>) -> Seq<(u64, i32)>
        decreases command_buffers.len(),
    {
        if command_buffers.len() == 0 {
            Seq::empty()
        } else {
            self.recorded_by_all(command_buffers.drop_last()) + self.recorded(command_buffers.last())
        }
    }

    /// After a command buffer recorded the execution of others.
    pub open spec fn execute(self, primary: u64, secondaries: Seq<u64>) -> Taps {
        let inherited = self.recorded_by_all(secondaries);
        if inherited.len() == 0 {
            self
        } else {
            Taps { pending: self.pending.insert(primary, self.recorded(primary) + inherited), ..self }
        }
    }

    /// After some recorded layouts took effect, those of images that still feed something.
    pub open spec fn take_effect(self, recorded: Seq<(u64, i32)>) -> Taps
        decreases recorded.len(),
    {
        if recorded.len() == 0 {
            self
        } else {
            let before = self.take_effect(recorded.drop_last());
            let (image, layout) = recorded.last();
            if self.is_source(image) {
                Taps { layouts: before.layouts.insert(image, layout), ..before }
            } else {
                before
            }
        }
    }

    /// After command buffers were submitted, in this order.
    pub open spec fn submit(self, command_buffers: Seq<u64>) -> Taps
        decreases command_buffers.len(),
    {
        if command_buffers.len() == 0 {
            self
        } else {
            let before = self.submit(command_buffers.drop_last());
            before.take_effect(before.recorded(command_buffers.last()))
        }
    }

    /// After a swapchain with these images was created.
    pub open spec fn add_images(self, images: Seq<u64>) -> Taps {
        Taps { swapchain_images: self.swapchain_images.union(images.to_set()), ..self }
    }

    /// After one image of a swapchain was destroyed.
    pub open spec fn remove_image(self, image: u64) -> Taps {
        let gone = Taps {
            swapchain_images: self.swapchain_images.remove(image),
            observed: self.observed.remove(image),
            sources: self.sources.remove(image),
            ..self
        };
        if self.sources.contains_key(image) {
            gone.prune(self.sources[image])
        } else {
            gone
        }
    }

    /// After a swapchain with these images was destroyed.
    pub open spec fn remove_images(self, images: Seq<u64>) -> Taps
        decreases images.len(),
    {
        if images.len() == 0 {
            self
        } else {
            self.remove_images(images.drop_last()).remove_image(images.last())
        }
    }

    /// After the game destroyed `image`.
    pub open spec fn destroy(self, image: u64) -> Taps {
        Taps {
            layouts: self.layouts.remove(image),
            sources: self.sources.restrict(Set::new(|d: u64| self.sources[d] != image)),
            ..self
        }
    }
}

impl Default for TapTracker {
    fn default() -> (t: TapTracker)
        ensures
            t@ == Taps::none(),
    {
        let t = TapTracker {
            swapchain_images: HashSet::new(),
            observed_swapchain_writes: HashSet::new(),
            tapped_source_layouts: HashMap::new(),
            tap_sources_by_destination: HashMap::new(),
            pending: HashMap::new(),
        };
        assert(t@.pending =~= Map::<u64, Seq<(u64, i32)>>::empty());
        t
    }
}

/// Whether any swapchain image is fed from `image`.
fn feeds(sources: &HashMap<u64, u64>, image: u64) -> (found: bool)
    ensures
        found == sources@.contains_value(image),
{
    let mut found: bool = false;
    let ghost all = vstd::std_specs::iter::IteratorSpec::remaining(&vstd::std_specs::hash::spec_values_iter(sources));
    for source in it: sources.values()
        invariant
            it.seq() == all,
            found == (exists|i: int| 0 <= i < it.index() && #[trigger] all.unref()[i] == image),
    {
        if *source == image {
            found = true;
            assert(all.unref()[it.index() as int] == image);
        }
    }
    assert(found == all.unref().to_set().contains(image));
    found
}

/// The swapchain images that are fed from `image`.
fn fed_from(sources: &HashMap<u64, u64>, image: u64) -> (list: Vec<u64>)
    ensures
        forall|d: u64| list@.contains(d) <==> sources@.contains_key(d) && sources@[d] == image,
{
    let mut list: Vec<u64> = Vec::new();
    let ghost all = vstd::std_specs::iter::IteratorSpec::remaining(
        &vstd::std_specs::hash::spec_hash_map_iter(sources),
    );
    for entry in it: sources.iter()
        invariant
            it.seq() == all,
            forall|i: int|
                0 <= i < all.len() ==> sources@.contains_key(
                    *(#[trigger] all[i]).0,
                ) && sources@[*all[i].0] == *all[i].1,
            forall|d: u64|
                list@.contains(d) <==> exists|i: int|
                    0 <= i < it.index() && *(#[trigger] all[i]).0 == d && *all[i].1 == image,
    {
        let ghost before = list@;
        if *entry.1 == image {
            list.push(*entry.0);
            assert forall|d: u64| list@.contains(d) <==> exists|i: int|
                0 <= i < it.index() + 1 && *(#[trigger] all[i]).0 == d && *all[i].1 == image by {
                assert(*all[it.index() as int].0 == *entry.0);
                assert(list@[list@.len() - 1] == *entry.0);
                if before.contains(d) {
                    let k = before.index_of(d);
                    assert(list@[k] == d);
                }
                if list@.contains(d) && !before.contains(d) {
                    let k = list@.index_of(d);
                    assert(k == list@.len() - 1);
                }
            }
        }
    }
    assert forall|d: u64| list@.contains(d) <==> sources@.contains_key(d) && sources@[d] == image by {
        if sources@.contains_key(d) && sources@[d] == image {
            assert(all.contains((&d, &sources@[d])));
            let i = all.index_of((&d, &sources@[d]));
            assert(*all[i].0 == d);
        }
    }
    list
}

/// Drops the layout of `source` once nothing is fed from it any more.
pub fn prune_orphaned_tap_source(tracker: &mut TapTracker, source: u64)
    ensures
        final(tracker)@ == old(tracker)@.prune(source),
{
    if !feeds(&tracker.tap_sources_by_destination, source) {
        tracker.tapped_source_layouts.remove(&source);
    }
}

impl TapTracker {
    /// Whether any swapchain image is fed from `image`.
    pub fn is_source(&self, image: u64) -> (found: bool)
        ensures
            found == self@.is_source(image),
    {
        feeds(&self.tap_sources_by_destination, image)
    }

    /// The source of a swapchain image with its last submitted layout, if it has one.
    pub fn tap_for(&self, destination: u64) -> (tap: Option<(u64, i32)>)
        ensures
            tap == self@.tap_for(destination),
    {
        match self.tap_sources_by_destination.get(&destination) {
            Some(source) => match self.tapped_source_layouts.get(source) {
                Some(layout) => Some((*source, *layout)),
                None => None,
            },
            None => None,
        }
    }

    fn record(&mut self, command_buffer: u64, image: u64, layout: i32)
        ensures
            final(self)@ == old(self)@.record(command_buffer, image, layout),
    {
        let mut list: Vec<(u64, i32)> = match self.pending.remove(&command_buffer) {
            Some(list) => list,
            None => Vec::new(),
        };
        list.push((image, layout));
        self.pending.insert(command_buffer, list);
        assert(self@.pending =~= old(self)@.record(command_buffer, image, layout).pending);
    }

    /// Notes that the game records a copy from `src`, in `src_layout`, into `dst`. `None` when
    /// `dst` belongs to no swapchain; otherwise whether it is the first such copy into `dst`.
    pub fn observe_write(&mut self, command_buffer: u64, src: u64, src_layout: i32, dst: u64) -> (first: Option<bool>)
        ensures
            final(self)@ == old(self)@.observe(command_buffer, src, src_layout, dst),
            first == (if old(self)@.swapchain_images.contains(dst) {
                Some(!old(self)@.observed.contains(dst))
            } else {
                None
            }),
    {
        if !self.swapchain_images.contains(&dst) {
            return None;
        }
        let first: bool = self.observed_swapchain_writes.insert(dst);
        match self.tap_sources_by_destination.insert(dst, src) {
            Some(previous) => if previous != src {
                prune_orphaned_tap_source(self, previous);
            },
            None => {},
        }
        self.record(command_buffer, src, src_layout);
        Some(first)
    }

    /// Notes that the game records a barrier that leaves `image` in `new_layout`.
    pub fn record_barrier(&mut self, command_buffer: u64, image: u64, new_layout: i32)
        ensures
            final(self)@ == old(self)@.barrier(command_buffer, image, new_layout),
    {
        if self.is_source(image) {
            self.record(command_buffer, image, new_layout);
        }
    }

    /// Notes that a command buffer is recorded anew.
    pub fn begin_recording(&mut self, command_buffer: u64)
        ensures
            final(self)@ == old(self)@.forget(command_buffer),
    {
        self.pending.remove(&command_buffer);
        assert(self@.pending =~= old(self)@.forget(command_buffer).pending);
    }

    /// Notes that command buffers are freed.
    pub fn free(&mut self, command_buffers: &[u64])
        ensures
            final(self)@ == old(self)@.forget_all(command_buffers@),
    {
        let mut i: usize = 0;
        while i < command_buffers.len()
            invariant
                i <= command_buffers@.len(),
                self@ == old(self)@.forget_all(command_buffers@.take(i as int)),
            decreases command_buffers@.len() - i,
        {
            self.begin_recording(command_buffers[i]);
            assert(command_buffers@.take(i + 1).drop_last() =~= command_buffers@.take(i as int));
            i = i + 1;
        }
        assert(command_buffers@.take(i as int) =~= command_buffers@);
    }

    /// Notes that a command buffer records the execution of others: it takes over what they have
    /// recorded.
    pub fn execute_secondary(&mut self, primary: u64, secondaries: &[u64])
        ensures
            final(self)@ == old(self)@.execute(primary, secondaries@),
    {
        let mut inherited: Vec<(u64, i32)> = Vec::new();
        let mut i: usize = 0;
        while i < secondaries.len()
            invariant
                i <= secondaries@.len(),
                *self == *old(self),
                inherited@ == self@.recorded_by_all(secondaries@.take(i as int)),
            decreases secondaries@.len() - i,
        {
            let ghost before = inherited@;
            let ghost own = self@.recorded(secondaries@[i as int]);
            if let Some(list) = self.pending.get(&secondaries[i]) {
                let mut k: usize = 0;
                while k < list.len()
                    invariant
                        k <= list@.len(),
                        list@ == own,
                        inherited@ == before + own.take(k as int),
                    decreases list@.len() - k,
                {
                    inherited.push(list[k]);
                    assert(own.take(k + 1) =~= own.take(k as int).push(own[k as int]));
                    k = k + 1;
                }
                assert(own.take(k as int) =~= own);
            } else {
                assert(own =~= Seq::<(u64, i32)>::empty());
                assert(inherited@ =~= before + own);
            }
            assert(secondaries@.take(i + 1).drop_last() =~= secondaries@.take(i as int));
            i = i + 1;
        }
        assert(secondaries@.take(i as int) =~= secondaries@);
        if inherited.len() > 0 {
            let mut list: Vec<(u64, i32)> = match self.pending.remove(&primary) {
                Some(list) => list,
                None => Vec::new(),
            };
            list.append(&mut inherited);
            self.pending.insert(primary, list);
            assert(self@.pending =~= old(self)@.execute(primary, secondaries@).pending);
        }
    }

    fn commit(&mut self, command_buffer: u64)
        ensures
            final(self)@ == old(self)@.take_effect(old(self)@.recorded(command_buffer)),
    {
        let ghost recorded = self@.recorded(command_buffer);
        let count: usize = match self.pending.get(&command_buffer) {
            Some(list) => list.len(),
            None => 0,
        };
        let mut k: usize = 0;
        while k < count
            invariant
                k <= count,
                count == recorded.len(),
                recorded == old(self)@.recorded(command_buffer),
                self.pending == old(self).pending,
                self.tap_sources_by_destination == old(self).tap_sources_by_destination,
                self@ == old(self)@.take_effect(recorded.take(k as int)),
            decreases count - k,
        {
            assert(recorded.take(k + 1).drop_last() =~= recorded.take(k as int));
            let entry: (u64, i32) = match self.pending.get(&command_buffer) {
                Some(list) => list[k],
                None => (0, 0),
            };
            assert(entry == recorded[k as int]);
            if feeds(&self.tap_sources_by_destination, entry.0) {
                self.tapped_source_layouts.insert(entry.0, entry.1);
            }
            k = k + 1;
        }
        assert(recorded.take(k as int) =~= recorded);
    }

    /// Applies what each submitted command buffer has recorded, in submission order. A buffer
    /// keeps what it has recorded, since it may be submitted again unchanged.
    pub fn commit_submit(&mut self, command_buffers: &[u64])
        ensures
            final(self)@ == old(self)@.submit(command_buffers@),
    {
        let mut i: usize = 0;
        while i < command_buffers.len()
            invariant
                i <= command_buffers@.len(),
                self@ == old(self)@.submit(command_buffers@.take(i as int)),
            decreases command_buffers@.len() - i,
        {
            self.commit(command_buffers[i]);
            assert(command_buffers@.take(i + 1).drop_last() =~= command_buffers@.take(i as int));
            i = i + 1;
        }
        assert(command_buffers@.take(i as int) =~= command_buffers@);
    }

    /// Notes a new swapchain's images.
    pub fn add_swapchain_images(&mut self, images: &[u64])
        ensures
            final(self)@ == old(self)@.add_images(images@),
    {
        let mut i: usize = 0;
        while i < images.len()
            invariant
                i <= images@.len(),
                self@ == old(self)@.add_images(images@.take(i as int)),
            decreases images@.len() - i,
        {
            self.swapchain_images.insert(images[i]);
            assert(images@.take(i + 1) =~= images@.take(i as int).push(images@[i as int]));
            broadcast use vstd::seq_lib::lemma_seq_contains_after_push;

            assert(self@.swapchain_images =~= old(self)@.add_images(images@.take(i + 1)).swapchain_images);
            i = i + 1;
        }
        assert(images@.take(i as int) =~= images@);
    }

    /// Notes that a swapchain is destroyed: its images are no longer fed from anything.
    pub fn remove_swapchain_images(&mut self, images: &[u64])
        ensures
            final(self)@ == old(self)@.remove_images(images@),
    {
        let mut i: usize = 0;
        while i < images.len()
            invariant
                i <= images@.len(),
                self@ == old(self)@.remove_images(images@.take(i as int)),
            decreases images@.len() - i,
        {
            let image: u64 = images[i];
            self.swapchain_images.remove(&image);
            self.observed_swapchain_writes.remove(&image);
            let source: Option<u64> = self.tap_sources_by_destination.remove(&image);
            assert(images@.take(i + 1).drop_last() =~= images@.take(i as int));
            if let Some(source) = source {
                prune_orphaned_tap_source(self, source);
            }
            i = i + 1;
        }
        assert(images@.take(i as int) =~= images@);
    }

    /// Notes that the game destroys `image`: if it was a source, nothing is fed from it any more.
    pub fn destroy_image(&mut self, image: u64)
        ensures
            final(self)@ == old(self)@.destroy(image),
    {
        self.tapped_source_layouts.remove(&image);
        let list: Vec<u64> = fed_from(&self.tap_sources_by_destination, image);
        let ghost sources = self.tap_sources_by_destination@;
        let mut i: usize = 0;
        while i < list.len()
            invariant
                i <= list@.len(),
                self.swapchain_images == old(self).swapchain_images,
                self.observed_swapchain_writes == old(self).observed_swapchain_writes,
                self.pending == old(self).pending,
                self.tapped_source_layouts@ == old(self).tapped_source_layouts@.remove(image),
                forall|d: u64| #[trigger]
                    self.tap_sources_by_destination@.contains_key(d) <==> sources.contains_key(d)
                        && !list@.take(i as int).contains(d),
                forall|d: u64| #[trigger]
                    self.tap_sources_by_destination@.contains_key(d) ==> self.tap_sources_by_destination@[d]
                        == sources[d],
            decreases list@.len() - i,
        {
            self.tap_sources_by_destination.remove(&list[i]);
            assert(list@.take(i + 1) =~= list@.take(i as int).push(list@[i as int]));
            broadcast use vstd::seq_lib::lemma_seq_contains_after_push;

            i = i + 1;
        }
        assert(list@.take(i as int) =~= list@);
        assert(self@.sources =~= old(self)@.destroy(image).sources);
    }
}

proof fn lemma_take_effect_frame(t: Taps, recorded: Seq<(u64, i32)>)
    ensures
        t.take_effect(recorded).sources == t.sources,
        t.take_effect(recorded).pending == t.pending,
        t.take_effect(recorded).swapchain_images == t.swapchain_images,
        t.take_effect(recorded).observed == t.observed,
        forall|image: u64| #[trigger]
            t.take_effect(recorded).layouts.contains_key(image) ==> t.layouts.contains_key(image) || t.is_source(image),
        forall|image: u64| #[trigger]
            t.layouts.contains_key(image) ==> t.take_effect(recorded).layouts.contains_key(image),
    decreases recorded.len(),
{
    if recorded.len() > 0 {
        lemma_take_effect_frame(t, recorded.drop_last());
    }
}

proof fn lemma_submit_frame(t: Taps, command_buffers: Seq<u64>)
    ensures
        t.submit(command_buffers).sources == t.sources,
        t.submit(command_buffers).pending == t.pending,
        t.submit(command_buffers).swapchain_images == t.swapchain_images,
        t.is_consistent() ==> t.submit(command_buffers).is_consistent(),
    decreases command_buffers.len(),
{
    if command_buffers.len() > 0 {
        lemma_submit_frame(t, command_buffers.drop_last());
        let before = t.submit(command_buffers.drop_last());
        lemma_take_effect_frame(before, before.recorded(command_buffers.last()));
        let after = t.submit(command_buffers);
        assert forall|s: u64| t.is_consistent() && after.layouts.contains_key(s) implies #[trigger] after.is_source(
            s,
        ) by {
            assert(before.is_source(s));
        }
    }
}

/// A tracker that starts empty stays consistent: whatever is recorded, submitted, created or
/// destroyed, every layout it holds is that of an image that feeds a live swapchain image.
pub proof fn taps_stay_consistent(
    t: Taps,
    command_buffer: u64,
    command_buffers: Seq<u64>,
    image: u64,
    layout: i32,
    dst: u64,
    images: Seq<u64>,
)
    requires
        t.is_consistent(),
    ensures
        Taps::none().is_consistent(),
        t.observe(command_buffer, image, layout, dst).is_consistent(),
        t.barrier(command_buffer, image, layout).is_consistent(),
        t.forget(command_buffer).is_consistent(),
        t.forget_all(command_buffers).is_consistent(),
        t.execute(command_buffer, command_buffers).is_consistent(),
        t.submit(command_buffers).is_consistent(),
        t.add_images(images).is_consistent(),
        t.remove_images(images).is_consistent(),
        t.destroy(image).is_consistent(),
{
    lemma_observe_consistent(t, command_buffer, image, layout, dst);
    lemma_forget_all_frame(t, command_buffers);
    lemma_submit_frame(t, command_buffers);
    lemma_remove_images_consistent(t, images);
    let d = t.destroy(image);
    assert forall|s: u64| d.layouts.contains_key(s) implies #[trigger] d.is_source(s) by {
        assert(t.is_source(s));
        let k = choose|k: u64| #[trigger] t.sources.dom().contains(k) && t.sources[k] == s;
        assert(d.sources.dom().contains(k) && d.sources[k] == s);
    }
    assert(t.add_images(images).is_consistent()) by {
        assert forall|s: u64| t.layouts.contains_key(s) implies #[trigger] t.add_images(images).is_source(s) by {
            assert(t.is_source(s));
        }
    }
    assert(t.barrier(command_buffer, image, layout).is_consistent()) by {
        assert forall|s: u64| t.layouts.contains_key(s) implies #[trigger] t.barrier(
            command_buffer,
            image,
            layout,
        ).is_source(s) by {
            assert(t.is_source(s));
        }
    }
    assert(t.forget(command_buffer).is_consistent()) by {
        assert forall|s: u64| t.layouts.contains_key(s) implies #[trigger] t.forget(command_buffer).is_source(s) by {
            assert(t.is_source(s));
        }
    }
    assert(t.execute(command_buffer, command_buffers).is_consistent()) by {
        assert forall|s: u64| t.layouts.contains_key(s) implies #[trigger] t.execute(
            command_buffer,
            command_buffers,
        ).is_source(s) by {
            assert(t.is_source(s));
        }
    }
}

proof fn lemma_forget_all_frame(t: Taps, command_buffers: Seq<u64>)
    ensures
        t.forget_all(command_buffers).sources == t.sources,
        t.forget_all(command_buffers).layouts == t.layouts,
        t.forget_all(command_buffers).swapchain_images == t.swapchain_images,
        t.is_consistent() ==> t.forget_all(command_buffers).is_consistent(),
    decreases command_buffers.len(),
{
    if command_buffers.len() > 0 {
        lemma_forget_all_frame(t, command_buffers.drop_last());
    }
    let u = t.forget_all(command_buffers);
    assert forall|s: u64| t.is_consistent() && u.layouts.contains_key(s) implies #[trigger] u.is_source(s) by {
        assert(t.is_source(s));
    }
}

proof fn lemma_observe_consistent(t: Taps, command_buffer: u64, src: u64, layout: i32, dst: u64)
    requires
        t.is_consistent(),
    ensures
        t.observe(command_buffer, src, layout, dst).is_consistent(),
{
    if t.swapchain_images.contains(dst) {
        let u = t.observe(command_buffer, src, layout, dst);
        assert(u.sources == t.sources.insert(dst, src));
        assert forall|s: u64| u.layouts.contains_key(s) implies #[trigger] u.is_source(s) by {
            assert(t.is_source(s));
            let k = choose|k: u64| #[trigger] t.sources.dom().contains(k) && t.sources[k] == s;
            if k != dst {
                assert(u.sources.dom().contains(k) && u.sources[k] == s);
            } else if s == src {
                assert(u.sources.dom().contains(dst) && u.sources[dst] == s);
            }
        }
    }
}

proof fn lemma_remove_image_consistent(t: Taps, image: u64)
    requires
        t.is_consistent(),
    ensures
        t.remove_image(image).is_consistent(),
{
    let u = t.remove_image(image);
    assert forall|s: u64| u.layouts.contains_key(s) implies #[trigger] u.is_source(s) by {
        assert(t.is_source(s));
        let k = choose|k: u64| #[trigger] t.sources.dom().contains(k) && t.sources[k] == s;
        if k != image {
            assert(u.sources.dom().contains(k) && u.sources[k] == s);
        }
    }
}

proof fn lemma_remove_images_consistent(t: Taps, images: Seq<u64>)
    requires
        t.is_consistent(),
    ensures
        t.remove_images(images).is_consistent(),
    decreases images.len(),
{
    if images.len() > 0 {
        lemma_remove_images_consistent(t, images.drop_last());
        lemma_remove_image_consistent(t.remove_images(images.drop_last()), images.last());
    }
}

/// What is recorded is invisible until it is submitted: recording into a buffer, re-recording it,
/// freeing it or executing it from another changes the tap of no swapchain image.
pub proof fn recording_changes_no_tap(
    t: Taps,
    command_buffer: u64,
    command_buffers: Seq<u64>,
    image: u64,
    layout: i32,
    destination: u64,
)
    ensures
        t.barrier(command_buffer, image, layout).tap_for(destination) == t.tap_for(destination),
        t.forget(command_buffer).tap_for(destination) == t.tap_for(destination),
        t.forget_all(command_buffers).tap_for(destination) == t.tap_for(destination),
        t.execute(command_buffer, command_buffers).tap_for(destination) == t.tap_for(destination),
{
    lemma_forget_all_frame(t, command_buffers);
}

/// A copy that is recorded from a source never changes a layout: until it is submitted, a
/// swapchain image newly fed from it has the source's earlier layout or none, and every other
/// swapchain image keeps its tap.
pub proof fn an_observed_copy_commits_nothing(
    t: Taps,
    command_buffer: u64,
    src: u64,
    layout: i32,
    dst: u64,
    other: u64,
)
    requires
        t.is_consistent(),
        t.swapchain_images.contains(dst),
        other != dst,
    ensures
        t.observe(command_buffer, src, layout, dst).tap_for(dst) == (if t.layouts.contains_key(src) {
            Some((src, t.layouts[src]))
        } else {
            None
        }),
        t.observe(command_buffer, src, layout, dst).tap_for(other) == t.tap_for(other),
{
    let u = t.observe(command_buffer, src, layout, dst);
    let fed = Taps { observed: t.observed.insert(dst), sources: t.sources.insert(dst, src), ..t };
    assert(u.sources == fed.sources);
    assert(fed.sources.dom().contains(dst) && fed.sources[dst] == src);
    assert(fed.is_source(src));
    if t.sources.contains_key(other) {
        assert(fed.sources.dom().contains(other) && fed.sources[other] == t.sources[other]);
        assert(fed.is_source(t.sources[other]));
    }
}

/// Submitting two groups of buffers one after the other is submitting them together.
pub proof fn submissions_concatenate(t: Taps, first: Seq<u64>, second: Seq<u64>)
    ensures
        t.submit(first + second) == t.submit(first).submit(second),
    decreases second.len(),
{
    if second.len() == 0 {
        assert(first + second =~= first);
    } else {
        submissions_concatenate(t, first, second.drop_last());
        assert((first + second).drop_last() =~= first + second.drop_last());
        assert((first + second).last() == second.last());
    }
}

/// Submission order wins: the layout of a source is the last one that the last submitted buffer
/// has recorded for it, whatever was recorded or submitted before.
pub proof fn the_last_submitted_layout_wins(t: Taps, earlier: Seq<u64>, last: u64, source: u64, layout: i32)
    requires
        t.is_source(source),
        t.recorded(last).len() > 0,
        t.recorded(last).last() == (source, layout),
    ensures
        t.submit(earlier.push(last)).layouts.contains_key(source),
        t.submit(earlier.push(last)).layouts[source] == layout,
        forall|d: u64| #[trigger]
            t.sources.contains_key(d) && t.sources[d] == source ==> t.submit(earlier.push(last)).tap_for(d) == Some(
                (source, layout),
            ),
{
    let before = t.submit(earlier);
    assert(earlier.push(last).drop_last() =~= earlier);
    assert(earlier.push(last).last() == last);
    lemma_submit_frame(t, earlier);
    lemma_submit_frame(t, earlier.push(last));
    lemma_take_effect_frame(before, before.recorded(last).drop_last());
    assert(before.is_source(source));
}

/// A buffer that was recorded anew or freed has nothing left to submit.
pub proof fn forgotten_buffers_commit_nothing(t: Taps, command_buffer: u64)
    ensures
        t.forget(command_buffer).submit(seq![command_buffer]) == t.forget(command_buffer),
{
    let u = t.forget(command_buffer);
    let one = seq![command_buffer];
    assert(one.drop_last() =~= Seq::<u64>::empty());
    assert(u.submit(one.drop_last()) == u);
    assert(u.recorded(command_buffer) =~= Seq::<(u64, i32)>::empty());
}

/// Layouts recorded for an image that feeds nothing are never committed.
pub proof fn unfed_images_are_never_committed(t: Taps, command_buffers: Seq<u64>, image: u64)
    requires
        !t.is_source(image),
        !t.layouts.contains_key(image),
    ensures
        !t.submit(command_buffers).layouts.contains_key(image),
    decreases command_buffers.len(),
{
    if command_buffers.len() > 0 {
        unfed_images_are_never_committed(t, command_buffers.drop_last(), image);
        let before = t.submit(command_buffers.drop_last());
        lemma_submit_frame(t, command_buffers.drop_last());
        lemma_take_effect_frame(before, before.recorded(command_buffers.last()));
    }
}

/// A destroyed image is forgotten at once: it has no layout, nothing is fed from it, and nothing
/// that was recorded for it can be committed later. Every other source and its swapchain images
/// stay as they were.
pub proof fn a_destroyed_source_is_forgotten(t: Taps, image: u64, command_buffers: Seq<u64>, destination: u64)
    ensures
        !t.destroy(image).is_source(image),
        !t.destroy(image).layouts.contains_key(image),
        !t.destroy(image).submit(command_buffers).layouts.contains_key(image),
        t.sources.contains_key(destination) && t.sources[destination] != image ==> t.destroy(image).tap_for(
            destination,
        ) == t.tap_for(destination),
{
    let u = t.destroy(image);
    unfed_images_are_never_committed(u, command_buffers, image);
}

/// A destroyed swapchain's images are forgotten: they belong to no swapchain and are fed from
/// nothing, and a source that fed only them has no layout left.
pub proof fn a_destroyed_swapchain_is_forgotten(t: Taps, images: Seq<u64>, image: u64)
    requires
        t.is_consistent(),
        images.contains(image),
    ensures
        !t.remove_images(images).swapchain_images.contains(image),
        !t.remove_images(images).sources.contains_key(image),
        forall|s: u64| #[trigger]
            t.remove_images(images).layouts.contains_key(s) ==> t.remove_images(images).is_source(s),
    decreases images.len(),
{
    lemma_remove_images_consistent(t, images);
    let before = t.remove_images(images.drop_last());
    if images.last() != image {
        let k = images.index_of(image);
        assert(images.drop_last()[k] == image);
        a_destroyed_swapchain_is_forgotten(t, images.drop_last(), image);
    }
}

/// What a copy and a barrier record: the layout goes behind what the command buffer has recorded, of a
/// copy where it is into a swapchain image and of a barrier where its image feeds one. No other command
/// buffer is touched.
pub proof fn layouts_are_recorded_in_order(
    t: Taps,
    command_buffer: u64,
    other: u64,
    image: u64,
    layout: i32,
    dst: u64,
)
    requires
        other != command_buffer,
    ensures
        ({
            let u = t.observe(command_buffer, image, layout, dst);
            &&& u.recorded(other) == t.recorded(other)
            &&& u.swapchain_images == t.swapchain_images
            &&& !t.swapchain_images.contains(dst) ==> u == t
            &&& t.swapchain_images.contains(dst) ==> {
                &&& u.recorded(command_buffer) == t.recorded(command_buffer) + seq![(image, layout)]
                &&& u.observed == t.observed.insert(dst)
                &&& u.sources == t.sources.insert(dst, image)
            }
        }),
        ({
            let u = t.barrier(command_buffer, image, layout);
            &&& u.recorded(other) == t.recorded(other)
            &&& u.layouts == t.layouts && u.sources == t.sources && u.observed == t.observed
            &&& u.swapchain_images == t.swapchain_images
            &&& u.recorded(command_buffer) == (if exists|d: u64| #[trigger]
                t.sources.contains_key(d) && t.sources[d] == image {
                t.recorded(command_buffer) + seq![(image, layout)]
            } else {
                t.recorded(command_buffer)
            })
        }),
{
    let u = t.observe(command_buffer, image, layout, dst);
    if t.swapchain_images.contains(dst) {
        assert(u.recorded(command_buffer) =~= t.recorded(command_buffer) + seq![(image, layout)]);
    }
    if exists|d: u64| #[trigger] t.sources.contains_key(d) && t.sources[d] == image {
        let d = choose|d: u64| #[trigger] t.sources.contains_key(d) && t.sources[d] == image;
        assert(t.sources.dom().contains(d) && t.sources[d] == image);
        assert(t.is_source(image));
        assert(t.barrier(command_buffer, image, layout).recorded(command_buffer) =~= t.recorded(command_buffer) + seq![
            (image, layout),
        ]);
    } else {
        if t.is_source(image) {
            let d = choose|d: u64| #[trigger] t.sources.dom().contains(d) && t.sources[d] == image;
            assert(t.sources.contains_key(d) && t.sources[d] == image);
        }
    }
}

/// The layout of a source is dropped when the last swapchain image that was fed from it is fed from
/// another, and only then.
pub proof fn a_layout_lasts_as_long_as_its_source(
    t: Taps,
    command_buffer: u64,
    image: u64,
    layout: i32,
    dst: u64,
    source: u64,
)
    requires
        t.swapchain_images.contains(dst),
        t.layouts.contains_key(source),
    ensures
        ({
            let u = t.observe(command_buffer, image, layout, dst);
            let replaced = t.sources.contains_key(dst) && t.sources[dst] == source && source != image;
            let elsewhere = exists|d: u64| d != dst && #[trigger] t.sources.contains_key(d) && t.sources[d] == source;
            &&& u.layouts.contains_key(source) <==> !replaced || elsewhere
            &&& u.layouts.contains_key(source) ==> u.layouts[source] == t.layouts[source]
        }),
{
    let fed = Taps { observed: t.observed.insert(dst), sources: t.sources.insert(dst, image), ..t };
    let elsewhere = exists|d: u64| d != dst && #[trigger] t.sources.contains_key(d) && t.sources[d] == source;
    if elsewhere {
        let d = choose|d: u64| d != dst && #[trigger] t.sources.contains_key(d) && t.sources[d] == source;
        assert(fed.sources.dom().contains(d) && fed.sources[d] == source);
        assert(fed.is_source(source));
    } else if source != image && fed.is_source(source) {
        let d = choose|d: u64| #[trigger] fed.sources.dom().contains(d) && fed.sources[d] == source;
        assert(d != dst && t.sources.contains_key(d) && t.sources[d] == source);
    }
}

/// A command buffer that executes others has then recorded what it had and what they have, one after the
/// other; nothing else changes.
pub proof fn executed_recordings_follow(t: Taps, primary: u64, secondaries: Seq<u64>, other: u64)
    ensures
        ({
            let u = t.execute(primary, secondaries);
            &&& u.recorded(primary) == t.recorded(primary) + secondaries.map_values(
                |s: u64| t.recorded(s),
            ).flatten()
            &&& other != primary ==> u.recorded(other) == t.recorded(other)
            &&& u.layouts == t.layouts && u.sources == t.sources && u.observed == t.observed
            &&& u.swapchain_images == t.swapchain_images
        }),
{
    lemma_recorded_by_all(t, secondaries);
    let u = t.execute(primary, secondaries);
    let inherited = t.recorded_by_all(secondaries);
    assert(u.recorded(primary) =~= t.recorded(primary) + inherited);
}

proof fn lemma_recorded_by_all(t: Taps, command_buffers: Seq<u64>)
    ensures
        t.recorded_by_all(command_buffers) == command_buffers.map_values(|s: u64| t.recorded(s)).flatten(),
    decreases command_buffers.len(),
{
    let list = command_buffers.map_values(|s: u64| t.recorded(s));
    if command_buffers.len() == 0 {
        assert(list.flatten() =~= Seq::empty());
    } else {
        lemma_recorded_by_all(t, command_buffers.drop_last());
        let before = command_buffers.drop_last().map_values(|s: u64| t.recorded(s));
        assert(list =~= before.push(t.recorded(command_buffers.last())));
        before.lemma_flatten_push(t.recorded(command_buffers.last()));
    }
}

proof fn lemma_taken_effect(t: Taps, recorded: Seq<(u64, i32)>, k: int)
    requires
        0 <= k < recorded.len(),
        t.is_source(recorded[k].0),
        forall|j: int| k < j < recorded.len() ==> (#[trigger] recorded[j]).0 != recorded[k].0,
    ensures
        t.take_effect(recorded).layouts.contains_key(recorded[k].0),
        t.take_effect(recorded).layouts[recorded[k].0] == recorded[k].1,
    decreases recorded.len(),
{
    let n = recorded.len() - 1;
    if k < n {
        let rest = recorded.drop_last();
        assert(recorded[n].0 != recorded[k].0);
        assert forall|j: int| k < j < rest.len() implies (#[trigger] rest[j]).0 != rest[k].0 by {
            assert(recorded[j].0 != recorded[k].0);
        }
        lemma_taken_effect(t, rest, k);
    }
}

proof fn lemma_untouched_layout(t: Taps, recorded: Seq<(u64, i32)>, image: u64)
    requires
        forall|j: int| 0 <= j < recorded.len() ==> (#[trigger] recorded[j]).0 != image,
    ensures
        t.take_effect(recorded).layouts.contains_key(image) == t.layouts.contains_key(image),
        t.take_effect(recorded).layouts[image] == t.layouts[image],
    decreases recorded.len(),
{
    if recorded.len() > 0 {
        let rest = recorded.drop_last();
        assert forall|j: int| 0 <= j < rest.len() implies (#[trigger] rest[j]).0 != image by {
            assert(recorded[j].0 != image);
        }
        assert(recorded[recorded.len() - 1].0 != image);
        lemma_untouched_layout(t, rest, image);
    }
}

/// Submitting a command buffer gives every image that feeds a swapchain image the layout that the buffer
/// recorded last for it, and leaves those that it recorded none for; the buffer can be submitted again,
/// and nothing else changes.
pub proof fn every_recorded_layout_takes_effect(t: Taps, command_buffer: u64, k: int, image: u64)
    requires
        0 <= k < t.recorded(command_buffer).len(),
        forall|j: int|
            k < j < t.recorded(command_buffer).len() ==> (#[trigger] t.recorded(command_buffer)[j]).0 != t.recorded(
                command_buffer,
            )[k].0,
    ensures
        ({
            let u = t.submit(seq![command_buffer]);
            let (source, layout) = t.recorded(command_buffer)[k];
            &&& t.is_source(source) ==> u.layouts.contains_key(source) && u.layouts[source] == layout
            &&& (forall|j: int|
                0 <= j < t.recorded(command_buffer).len() ==> (#[trigger] t.recorded(command_buffer)[j]).0 != image)
                ==> u.layouts.contains_key(image) == t.layouts.contains_key(image) && u.layouts[image] == t.layouts[image]
            &&& u.pending == t.pending && u.sources == t.sources && u.observed == t.observed
            &&& u.swapchain_images == t.swapchain_images
        }),
{
    let one = seq![command_buffer];
    let recorded = t.recorded(command_buffer);
    assert(one.drop_last() =~= Seq::<u64>::empty());
    assert(t.submit(one.drop_last()) == t);
    if t.is_source(recorded[k].0) {
        lemma_taken_effect(t, recorded, k);
    }
    if forall|j: int| 0 <= j < recorded.len() ==> (#[trigger] recorded[j]).0 != image {
        lemma_untouched_layout(t, recorded, image);
    }
    lemma_take_effect_frame(t, recorded);
}

/// New swapchain images are added to those that there are, and destroyed ones leave the others as they
/// are, with their taps.
pub proof fn other_swapchains_are_left_alone(t: Taps, images: Seq<u64>, destination: u64)
    ensures
        t.add_images(images).swapchain_images.contains(destination) <==> t.swapchain_images.contains(destination)
            || images.contains(destination),
        t.add_images(images).tap_for(destination) == t.tap_for(destination),
        t.add_images(images).pending == t.pending && t.add_images(images).observed == t.observed,
        t.remove_images(images).pending == t.pending,
        !images.contains(destination) ==> {
            let u = t.remove_images(images);
            &&& u.swapchain_images.contains(destination) == t.swapchain_images.contains(destination)
            &&& u.observed.contains(destination) == t.observed.contains(destination)
            &&& u.sources.contains_key(destination) == t.sources.contains_key(destination)
            &&& u.tap_for(destination) == t.tap_for(destination)
        },
    decreases images.len(),
{
    if images.len() > 0 {
        let rest = images.drop_last();
        other_swapchains_are_left_alone(t, rest, destination);
        assert(images =~= rest.push(images.last()));
        broadcast use vstd::seq_lib::lemma_seq_contains_after_push;

        if !images.contains(destination) {
            let before = t.remove_images(rest);
            let image = images.last();
            assert(destination != image);
            lemma_remove_image_keeps(before, image, destination);
        }
    }
}

proof fn lemma_remove_image_keeps(t: Taps, image: u64, destination: u64)
    requires
        destination != image,
    ensures
        t.remove_image(image).tap_for(destination) == t.tap_for(destination),
{
    let gone = Taps {
        swapchain_images: t.swapchain_images.remove(image),
        observed: t.observed.remove(image),
        sources: t.sources.remove(image),
        ..t
    };
    if t.sources.contains_key(destination) {
        assert(gone.sources.dom().contains(destination) && gone.sources[destination] == t.sources[destination]);
        assert(gone.is_source(t.sources[destination]));
    }
}

/// The tap of a swapchain image is the image that it is fed from, in the layout of the last submission,
/// where both are known. Destroying an image touches nothing that was recorded, and no swapchain.
pub proof fn a_tap_is_a_source_with_its_layout(t: Taps, destination: u64, source: u64, layout: i32, image: u64)
    ensures
        t.tap_for(destination) == Some((source, layout)) <==> t.sources.dom().contains(destination)
            && t.sources[destination] == source && t.layouts.dom().contains(source) && t.layouts[source] == layout,
        t.tap_for(destination) is None <==> !(t.sources.dom().contains(destination) && t.layouts.dom().contains(
            t.sources[destination],
        )),
        t.destroy(image).pending == t.pending && t.destroy(image).observed == t.observed,
        t.destroy(image).swapchain_images == t.swapchain_images,
        t.destroy(image).sources.dom().contains(destination) <==> t.sources.dom().contains(destination)
            && t.sources[destination] != image,
{
}

/// Command buffers that are freed have recorded nothing, and the others are left alone.
pub proof fn freed_buffers_have_recorded_nothing(t: Taps, command_buffers: Seq<u64>, buffer: u64)
    ensures
        t.forget_all(command_buffers).recorded(buffer) == (if command_buffers.contains(buffer) {
            Seq::empty()
        } else {
            t.recorded(buffer)
        }),
        t.forget(buffer).recorded(buffer) == Seq::<(u64, i32)>::empty(),
    decreases command_buffers.len(),
{
    if command_buffers.len() > 0 {
        let rest = command_buffers.drop_last();
        freed_buffers_have_recorded_nothing(t, rest, buffer);
        assert(command_buffers =~= rest.push(command_buffers.last()));
        broadcast use vstd::seq_lib::lemma_seq_contains_after_push;

    }
}

} // verus!
