//! A ring of the last stages that presents went through, read only when something has stalled.

use crate::text::{append_number, numeral};
use vstd::prelude::*;
use vstd::string::*;

verus! {

/// How many stages are remembered.
pub const CAPACITY: usize = 64;

/// A stage that was reached.
#[derive(Clone, Copy, Debug)]
pub struct Mark {
    pub stage: &'static str,
    /// When, in nanoseconds.
    pub at: u64,
}

/// The ring.
pub struct Ring {
    next: usize,
    entries: Vec<Option<Mark>>,
}

/// A stage and how long ago it was reached, in nanoseconds.
#[derive(Clone, Copy, Debug)]
pub struct Line {
    pub stage: &'static str,
    pub age: u64,
}

/// What is reported of a stall.
pub struct Dump {
    /// The line above the stages: why the report is made, and how many stages there are.
    pub heading: String,
    /// The stages, the newest first.
    pub lines: Vec<Line>,
}

/// The marks among the places of a ring.
pub open spec fn marks(places: Seq<Option<Mark>>) -> Seq<Mark>
    decreases places.len(),
{
    if places.len() == 0 {
        Seq::empty()
    } else {
        let before = marks(places.drop_last());
        match places.last() {
            Some(m) => before.push(m),
            None => before,
        }
    }
}

/// The line of a mark.
pub open spec fn line_of(m: Mark, now: u64) -> Line {
    Line {
        stage: m.stage,
        age: if now >= m.at {
            (now - m.at) as u64
        } else {
            0
        },
    }
}

/// The places of a ring after another mark: the oldest is given up.
pub open spec fn marked(places: Seq<Option<Mark>>, m: Mark) -> Seq<Option<Mark>> {
    seq![Some(m)] + places.drop_last()
}

impl View for Ring {
    type V = Seq<Option<Mark>>;

    /// The places of the ring, the newest first.
    closed spec fn view(&self) -> Seq<Option<Mark>> {
        Seq::new(CAPACITY as nat, |i: int| self.entries@[(self.next + CAPACITY - 1 - i) % CAPACITY as int])
    }
}

impl Ring {
    /// The ring is as large as it should be.
    pub closed spec fn is_ok(&self) -> bool {
        self.entries@.len() == CAPACITY && self.next < CAPACITY
    }

    /// A ring without marks.
    pub fn new() -> (ring: Ring)
        ensures
            ring.is_ok(),
            ring@ == Seq::new(CAPACITY as nat, |i: int| None::<Mark>),
    {
        let mut entries: Vec<Option<Mark>> = Vec::new();
        let mut i: usize = 0;
        while i < CAPACITY
            invariant
                i <= CAPACITY,
                entries@.len() == i,
                forall|k: int| 0 <= k < i ==> #[trigger] entries@[k] is None,
            decreases CAPACITY - i,
        {
            entries.push(None);
            i += 1;
        }
        let ring = Ring { next: 0, entries };
        assert(ring@ =~= Seq::new(CAPACITY as nat, |i: int| None::<Mark>));
        ring
    }
}

/// Notes that a stage was reached.
pub fn mark(ring: &mut Ring, stage: &'static str, now: u64)
    requires
        old(ring).is_ok(),
    ensures
        final(ring).is_ok(),
        final(ring)@ == marked(old(ring)@, Mark { stage, at: now }),
{
    let ghost before = ring.entries@;
    let next: usize = ring.next;
    ring.entries.set(next, Some(Mark { stage, at: now }));
    ring.next = (next + 1) % CAPACITY;
    proof {
        let after = ring.entries@;
        let places = ring@;
        assert forall|i: int| 0 <= i < CAPACITY implies #[trigger] places[i] == marked(
            old(ring)@,
            Mark { stage, at: now },
        )[i] by {
            let at = (ring.next + CAPACITY - 1 - i) % CAPACITY as int;
            if i == 0 {
                assert(at == next);
            } else {
                assert(at == (next + CAPACITY - 1 - (i - 1)) % CAPACITY as int);
                assert(at != next);
                assert(marked(old(ring)@, Mark { stage, at: now })[i] == old(ring)@[i - 1]);
            }
        }
        assert(places =~= marked(old(ring)@, Mark { stage, at: now }));
    }
}

/// The line above the stages of a report.
pub open spec fn heading(reason: Seq<char>, stages: nat) -> Seq<char> {
    "[breadcrumbs] "@ + reason + " -- last "@ + numeral(stages) + " stage marker(s), newest first:"@
}

fn write_heading(reason: &str, stages: usize) -> (line: String)
    ensures
        line@ == heading(reason@, stages as nat),
{
    let mut line: String = "[breadcrumbs] ".to_owned();
    line.append(reason);
    line.append(" -- last ");
    append_number(&mut line, stages);
    line.append(" stage marker(s), newest first:");
    line
}

/// Reports the stages of the ring, the newest first, with how long ago each was reached, under a
/// heading with the reason and their number.
pub fn dump(ring: &Ring, reason: &str, now: u64) -> (report: Dump)
    requires
        ring.is_ok(),
    ensures
        report.heading@ == heading(reason@, marks(ring@).len()),
        report.lines@ == marks(ring@).map_values(|m: Mark| line_of(m, now)),
{
    let mut lines: Vec<Line> = Vec::new();
    let mut i: usize = 0;
    assert(ring@.take(0) =~= Seq::<Option<Mark>>::empty());
    while i < CAPACITY
        invariant
            ring.is_ok(),
            i <= CAPACITY,
            lines@ =~= marks(ring@.take(i as int)).map_values(|m: Mark| line_of(m, now)),
        decreases CAPACITY - i,
    {
        let at: usize = (ring.next + CAPACITY - 1 - i) % CAPACITY;
        assert(ring@.take(i + 1).drop_last() =~= ring@.take(i as int));
        assert(ring@.take(i + 1).last() == ring.entries@[at as int]);
        match ring.entries[at] {
            Some(m) => {
                let age: u64 = if now >= m.at {
                    now - m.at
                } else {
                    0
                };
                lines.push(Line { stage: m.stage, age });
            },
            None => {},
        }
        i += 1;
    }
    assert(ring@.take(CAPACITY as int) =~= ring@);
    let heading: String = write_heading(reason, lines.len());
    Dump { heading, lines }
}

/// The places of a ring after many marks.
pub open spec fn all_marked(places: Seq<Option<Mark>>, list: Seq<Mark>) -> Seq<Option<Mark>>
    decreases list.len(),
{
    if list.len() == 0 {
        places
    } else {
        marked(all_marked(places, list.drop_last()), list.last())
    }
}

/// The ring holds the last marks that were made, the newest first: the mark that was made `i` marks
/// ago stands at place `i`, whatever came before.
pub proof fn the_newest_marks_are_kept(places: Seq<Option<Mark>>, list: Seq<Mark>, i: int)
    requires
        places.len() == CAPACITY,
        0 <= i < CAPACITY,
        i < list.len(),
    ensures
        all_marked(places, list).len() == CAPACITY,
        all_marked(places, list)[i] == Some(list[list.len() - 1 - i]),
    decreases list.len(),
{
    let before = all_marked(places, list.drop_last());
    all_marked_keeps_the_size(places, list.drop_last());
    if i > 0 {
        the_newest_marks_are_kept(places, list.drop_last(), i - 1);
        assert(marked(before, list.last())[i] == before[i - 1]);
    }
}

proof fn all_marked_keeps_the_size(places: Seq<Option<Mark>>, list: Seq<Mark>)
    requires
        places.len() == CAPACITY,
    ensures
        all_marked(places, list).len() == CAPACITY,
    decreases list.len(),
{
    if list.len() > 0 {
        all_marked_keeps_the_size(places, list.drop_last());
    }
}

/// What is reported are the places that hold a mark, in their order: 64 at most, each with the time
/// from its mark to now, or with nothing where the clock went back. The heading gives the reason and
/// their number.
pub proof fn a_report_holds_the_marks(places: Seq<Option<Mark>>, reason: Seq<char>, m: Mark, now: u64)
    ensures
        marks(places) == places.filter(|p: Option<Mark>| p is Some).map_values(|p: Option<Mark>| p->0),
        line_of(m, now).stage == m.stage,
        line_of(m, now).age == vstd::math::max(0, now - m.at),
        CAPACITY == 64,
        heading(reason, marks(places).len()) == "[breadcrumbs] "@ + reason + " -- last "@ + numeral(
            marks(places).len(),
        ) + " stage marker(s), newest first:"@,
    decreases places.len(),
{
    let held = |p: Option<Mark>| p is Some;
    let mark = |p: Option<Mark>| p->0;
    reveal(Seq::filter);
    if places.len() > 0 {
        a_report_holds_the_marks(places.drop_last(), reason, m, now);
        let before = places.drop_last().filter(held);
        if places.last() is Some {
            assert(before.push(places.last()).map_values(mark) =~= before.map_values(mark).push(places.last()->0));
        }
    } else {
        assert(marks(places) =~= places.filter(held).map_values(mark));
    }
}

/// A mark comes to stand before all others, and the last place gives up what it held.
pub proof fn a_mark_moves_the_others_back(places: Seq<Option<Mark>>, m: Mark, i: int)
    requires
        places.len() == 64,
        0 <= i < 64,
    ensures
        marked(places, m).len() == 64,
        marked(places, m)[0] == Some(m),
        i > 0 ==> marked(places, m)[i] == places[i - 1],
{
}

} // verus!
