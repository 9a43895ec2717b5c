//! Presentation semaphores, one per acquired image.
//!
//! The completion of a presentation belongs to the image that was acquired, not to a command
//! slot. The semaphore of a retired image is kept until the device goes, and is never handed out
//! again: the value of a destroyed image's handle may come back as another image.

use std::collections::HashMap;
use vstd::prelude::*;

verus! {

broadcast use {vstd::std_specs::hash::group_hash_axioms, vstd::map::group_map_axioms};

/// The semaphores of the images in use, and those of images that are gone.
pub struct PresentSemaphores {
    pub active: HashMap<u64, u64>,
    pub retired: Vec<u64>,
}

impl Default for PresentSemaphores {
    fn default() -> (s: PresentSemaphores)
        ensures
            s.active@ == Map::<u64, u64>::empty(),
            s.retired@ == Seq::<u64>::empty(),
    {
        PresentSemaphores { active: HashMap::new(), retired: Vec::new() }
    }
}

/// After `images` were retired, in order: the semaphores still in use, and those retired.
pub open spec fn retired_after(active: Map<u64, u64>, retired: Seq<u64>, images: Seq<u64>) -> (
    Map<u64, u64>,
    Seq<u64>,
)
    decreases images.len(),
{
    if images.len() == 0 {
        (active, retired)
    } else {
        let (a, r) = retired_after(active, retired, images.drop_last());
        let image = images.last();
        if a.contains_key(image) {
            (a.remove(image), r.push(a[image]))
        } else {
            (a, r)
        }
    }
}

/// No semaphore serves two images, or an image and a retired one.
pub open spec fn never_shared(active: Map<u64, u64>, retired: Seq<u64>) -> bool {
    &&& forall|a: u64, b: u64|
        #![trigger active[a], active[b]]
        active.contains_key(a) && active.contains_key(b) && active[a] == active[b] ==> a == b
    &&& forall|a: u64, i: int|
        #![trigger active[a], retired[i]]
        active.contains_key(a) && 0 <= i < retired.len() ==> active[a] != retired[i]
    &&& retired.no_duplicates()
}

/// `list` holds the semaphore of every image in use once, then the retired ones.
pub open spec fn lists_all(active: Map<u64, u64>, retired: Seq<u64>, list: Seq<u64>) -> bool {
    exists|images: Seq<u64>| #[trigger]
        images.no_duplicates() && images.to_set() == active.dom() && list == images.map_values(|i: u64| active[i])
            + retired
}

impl PresentSemaphores {
    /// The semaphore of `image`: the one it has, or else one that `create` makes, which it keeps.
    pub fn get<F: FnOnce() -> Option<u64>>(&mut self, image: u64, create: F) -> (semaphore: Option<u64>)
        requires
            !old(self).active@.contains_key(image) ==> call_requires(create, ()),
        ensures
            final(self).retired@ == old(self).retired@,
            old(self).active@.contains_key(image) ==> semaphore == Some(old(self).active@[image])
                && final(self).active@ == old(self).active@,
            !old(self).active@.contains_key(image) ==> call_ensures(create, (), semaphore) && final(self).active@
                == (match semaphore {
                Some(s) => old(self).active@.insert(image, s),
                None => old(self).active@,
            }),
    {
        if let Some(semaphore) = self.active.get(&image) {
            return Some(*semaphore);
        }
        match create() {
            Some(semaphore) => {
                self.active.insert(image, semaphore);
                Some(semaphore)
            },
            None => None,
        }
    }

    /// Whether there is no semaphore at all.
    pub fn is_empty(&self) -> (empty: bool)
        ensures
            empty == (self.active@.dom().len() == 0 && self.retired@.len() == 0),
    {
        self.active.len() == 0 && self.retired.len() == 0
    }

    /// Retires the semaphores of images that are going away.
    pub fn retire(&mut self, images: &[u64])
        ensures
            (final(self).active@, final(self).retired@) == retired_after(
                old(self).active@,
                old(self).retired@,
                images@,
            ),
    {
        let mut i: usize = 0;
        while i < images.len()
            invariant
                i <= images@.len(),
                (self.active@, self.retired@) == retired_after(
                    old(self).active@,
                    old(self).retired@,
                    images@.take(i as int),
                ),
            decreases images@.len() - i,
        {
            assert(images@.take(i + 1).drop_last() =~= images@.take(i as int));
            if let Some(semaphore) = self.active.remove(&images[i]) {
                self.retired.push(semaphore);
            }
            i = i + 1;
        }
        assert(images@.take(i as int) =~= images@);
    }

    /// Every semaphore, for destruction with the device: those in use in no particular order, then
    /// the retired ones.
    pub fn destroy(&self) -> (list: Vec<u64>)
        ensures
            lists_all(self.active@, self.retired@, list@),
    {
        let mut list: Vec<u64> = Vec::new();
        let ghost all = vstd::std_specs::iter::IteratorSpec::remaining(
            &vstd::std_specs::hash::spec_hash_map_iter(&self.active),
        );
        for entry in it: self.active.iter()
            invariant
                it.seq() == all,
                list@.len() == it.index(),
                forall|i: int| 0 <= i < it.index() ==> #[trigger] list@[i] == *all[i].1,
        {
            list.push(*entry.1);
        }
        proof {
            let active = self.active@;
            let images = Seq::new(all.len(), |i: int| *all[i].0);
            assert(images.no_duplicates()) by {
                assert forall|i: int, j: int| 0 <= i < images.len() && 0 <= j < images.len() && i != j implies images[i]
                    != images[j] by {
                    if images[i] == images[j] {
                        assert(active[*all[i].0] == *all[i].1 && active[*all[j].0] == *all[j].1);
                        assert(all[i] == all[j]);
                    }
                }
            }
            assert(images.to_set() =~= active.dom()) by {
                assert forall|k: u64| active.contains_key(k) implies images.contains(k) by {
                    assert(all.contains((&k, &active[k])));
                    let i = all.index_of((&k, &active[k]));
                    assert(images[i] == k);
                }
                assert forall|k: u64| images.contains(k) implies active.contains_key(k) by {
                    let i = images.index_of(k);
                    assert(active.contains_key(*all[i].0));
                }
            }
            assert(list@ =~= images.map_values(|i: u64| active[i])) by {
                assert forall|i: int| 0 <= i < list@.len() implies list@[i] == active[images[i]] by {
                    assert(active[*all[i].0] == *all[i].1);
                }
            }
            assert(images.no_duplicates() && images.to_set() == active.dom() && list@ + self.retired@
                == images.map_values(|i: u64| active[i]) + self.retired@);
        }
        let mut i: usize = 0;
        let ghost first = list@;
        while i < self.retired.len()
            invariant
                i <= self.retired@.len(),
                list@ == first + self.retired@.take(i as int),
            decreases self.retired@.len() - i,
        {
            list.push(self.retired[i]);
            assert(self.retired@.take(i + 1) =~= self.retired@.take(i as int).push(self.retired@[i as int]));
            i = i + 1;
        }
        assert(self.retired@.take(i as int) =~= self.retired@);
        list
    }
}

/// Semaphores stay unshared, as long as each new one is new: neither in use nor retired.
pub proof fn new_semaphores_stay_unshared(active: Map<u64, u64>, retired: Seq<u64>, image: u64, semaphore: u64)
    requires
        never_shared(active, retired),
        !active.contains_key(image),
        !active.contains_value(semaphore),
        !retired.contains(semaphore),
    ensures
        never_shared(Map::<u64, u64>::empty(), Seq::empty()),
        never_shared(active.insert(image, semaphore), retired),
{
    let after = active.insert(image, semaphore);
    assert forall|a: u64, b: u64|
        #![trigger after[a], after[b]]
        after.contains_key(a) && after.contains_key(b) && after[a] == after[b] implies a == b by {
        if a != image {
            assert(active.dom().contains(a));
        }
        if b != image {
            assert(active.dom().contains(b));
        }
    }
}

/// Retiring keeps every semaphore and shares none, and an image that was retired has none, so the
/// next image with its handle gets a semaphore of its own.
pub proof fn retired_semaphores_are_not_reused(active: Map<u64, u64>, retired: Seq<u64>, images: Seq<u64>)
    requires
        never_shared(active, retired),
    ensures
        never_shared(
            retired_after(active, retired, images).0,
            retired_after(active, retired, images).1,
        ),
        forall|image: u64| #[trigger]
            images.contains(image) ==> !retired_after(active, retired, images).0.contains_key(image),
        forall|image: u64| #[trigger]
            active.contains_key(image) && images.contains(image) ==> retired_after(active, retired, images).1.contains(
                active[image],
            ),
        forall|image: u64| #[trigger]
            active.contains_key(image) && !images.contains(image) ==> retired_after(
                active,
                retired,
                images,
            ).0.contains_key(image) && retired_after(active, retired, images).0[image] == active[image],
        forall|image: u64|
            #![trigger retired_after(active, retired, images).0.contains_key(image)]
            retired_after(active, retired, images).0.contains_key(image) ==> active.contains_key(image)
                && retired_after(active, retired, images).0[image] == active[image],
    decreases images.len(),
{
    if images.len() > 0 {
        let rest = images.drop_last();
        retired_semaphores_are_not_reused(active, retired, rest);
        let (a, r) = retired_after(active, retired, rest);
        let (a2, r2) = retired_after(active, retired, images);
        let last = images.last();
        assert(images =~= rest.push(last));
        broadcast use vstd::seq_lib::lemma_seq_contains_after_push;

        if a.contains_key(last) {
            assert forall|image: u64, i: int|
                #![trigger a2[image], r2[i]]
                a2.contains_key(image) && 0 <= i < r2.len() implies a2[image] != r2[i] by {
                if i < r.len() {
                    assert(a[image] != r[i]);
                } else {
                    assert(a[image] != a[last]);
                }
            }
            assert(r2.no_duplicates()) by {
                assert forall|i: int, j: int| 0 <= i < r2.len() && 0 <= j < r2.len() && i != j implies r2[i] != r2[j] by {
                    if i == r.len() {
                        assert(a[last] != r[j]);
                    }
                    if j == r.len() {
                        assert(a[last] != r[i]);
                    }
                }
            }
        }
    }
}

/// Images are retired one after the other: the semaphore of each that has one goes to the end of the
/// retired ones, and nothing else changes.
pub proof fn a_retired_semaphore_comes_last(active: Map<u64, u64>, retired: Seq<u64>, images: Seq<u64>, image: u64)
    ensures
        retired_after(active, retired, Seq::empty()) == (active, retired),
        ({
            let (a, r) = retired_after(active, retired, images);
            let (b, s) = retired_after(active, retired, images.push(image));
            if a.contains_key(image) {
                b == a.remove(image) && s == r + seq![a[image]]
            } else {
                b == a && s == r
            }
        }),
{
    assert(images.push(image).drop_last() =~= images);
    let (a, r) = retired_after(active, retired, images);
    assert(r.push(a[image]) =~= r + seq![a[image]]);
}

/// A list of all semaphores holds that of every image, every retired one, and no others; the retired
/// ones come last, in their order.
pub proof fn no_semaphore_is_left_out(active: Map<u64, u64>, retired: Seq<u64>, list: Seq<u64>)
    requires
        lists_all(active, retired, list),
    ensures
        forall|image: u64| #[trigger] active.contains_key(image) ==> list.contains(active[image]),
        forall|i: int| 0 <= i < list.len() ==> active.contains_value(#[trigger] list[i]) || retired.contains(list[i]),
        list.len() == active.dom().len() + retired.len(),
        list.skip(list.len() - retired.len()) == retired,
{
    let images = choose|images: Seq<u64>| #[trigger]
        images.no_duplicates() && images.to_set() == active.dom() && list == images.map_values(|i: u64| active[i])
            + retired;
    images.unique_seq_to_set();
    assert(list.skip(list.len() - retired.len()) =~= retired);
    assert forall|image: u64| #[trigger] active.contains_key(image) implies list.contains(active[image]) by {
        assert(images.to_set().contains(image));
        let i = images.index_of(image);
        assert(list[i] == active[image]);
    }
    assert forall|i: int| 0 <= i < list.len() implies active.contains_value(#[trigger] list[i]) || retired.contains(
        list[i],
    ) by {
        if i < images.len() {
            assert(images.to_set().contains(images[i]));
            assert(active.contains_key(images[i]) && active[images[i]] == list[i]);
        } else {
            assert(list[i] == retired[i - images.len()]);
        }
    }
}

} // verus!
