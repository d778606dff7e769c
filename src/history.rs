//! A bounded log of reversible edits, and undo.
use crate::entity::{created, destroyed};
use crate::intersection::{Intersection, IntersectionManager};
use crate::road::{Road, RoadManager};
use std::collections::VecDeque;
use vstd::prelude::*;

verus! {

/// How many entries the history keeps; past that the oldest is dropped.
pub const HISTORY_CAP: usize = 15;

/// The record an entry carries: the created record as stored, or the
/// destroyed record as it was.
#[derive(Debug)]
pub enum HistoryEntryData {
    Road(Road),
    Intersection(Intersection),
}

/// The edit an entry records.
#[derive(Debug, Clone, Copy, PartialEq, Eq)]
pub enum HistoryEntryType {
    Create,
    Destroy,
}

/// The store an entry applies to.
#[derive(Debug, Clone, Copy, PartialEq, Eq)]
pub enum Manager {
    Road,
    Intersection,
}

/// One past edit, with what it takes to reverse it.
#[derive(Debug)]
pub struct HistoryEntry {
    pub data: HistoryEntryData,
    pub entry_type: HistoryEntryType,
    pub manager: Manager,
}

impl HistoryEntry {
    /// The entry names the store of the record it carries, and a creation
    /// carries the identifier that was given.
    pub open spec fn wf(&self) -> bool {
        match self.data {
            HistoryEntryData::Road(road) => {
                &&& self.manager == Manager::Road
                &&& self.entry_type == HistoryEntryType::Create ==> road._id is Some
            },
            HistoryEntryData::Intersection(i) => {
                &&& self.manager == Manager::Intersection
                &&& self.entry_type == HistoryEntryType::Create ==> i._id is Some
            },
        }
    }
}

/// `h` after `e` is appended, and the oldest entry dropped where that makes
/// more than `HISTORY_CAP`.
pub open spec fn recorded(h: Seq<HistoryEntry>, e: HistoryEntry) -> Seq<HistoryEntry> {
    let s = h.push(e);
    if s.len() > HISTORY_CAP {
        s.subrange(1, s.len() as int)
    } else {
        s
    }
}

/// `h` after each entry of `es` is recorded in turn.
pub open spec fn recorded_all(h: Seq<HistoryEntry>, es: Seq<HistoryEntry>) -> Seq<HistoryEntry>
    decreases es.len(),
{
    if es.len() == 0 {
        h
    } else {
        recorded(recorded_all(h, es.drop_last()), es.last())
    }
}

/// Recording entries one after another keeps exactly the newest `HISTORY_CAP`
/// of all entries, oldest first; the older ones are lost.
pub proof fn lemma_history_keeps_newest(h: Seq<HistoryEntry>, es: Seq<HistoryEntry>)
    requires
        h.len() <= HISTORY_CAP,
    ensures
        recorded_all(h, es) == (h + es).subrange(
            if h.len() + es.len() > HISTORY_CAP {
                h.len() + es.len() - HISTORY_CAP
            } else {
                0
            },
            (h.len() + es.len()) as int,
        ),
    decreases es.len(),
{
    let all = h + es;
    let n = h.len() + es.len();
    if es.len() == 0 {
        assert(all.subrange(0, n as int) =~= h);
    } else {
        let es1 = es.drop_last();
        lemma_history_keeps_newest(h, es1);
        let n1 = h.len() + es1.len();
        let lo1: int = if n1 > HISTORY_CAP {
            n1 - HISTORY_CAP
        } else {
            0
        };
        let prev = recorded_all(h, es1);
        assert(prev == (h + es1).subrange(lo1, n1 as int));
        assert((h + es1) =~= all.subrange(0, n1 as int));
        let pushed = prev.push(es.last());
        assert(pushed =~= all.subrange(lo1, n as int));
    }
}

/// History, roads and intersections after the newest entry of `h` is taken off
/// and reversed: a creation by destroying the identifier it gave, a destruction
/// by creating its record anew, which takes the smallest free identifier then.
/// Nothing changes where `h` is empty.
pub open spec fn undone(h: Seq<HistoryEntry>, roads: Seq<Road>, intersections: Seq<Intersection>) -> (
    Seq<HistoryEntry>,
    Seq<Road>,
    Seq<Intersection>,
) {
    if h.len() == 0 {
        (h, roads, intersections)
    } else {
        let e = h.last();
        let rest = h.drop_last();
        match e.data {
            HistoryEntryData::Road(road) => match e.entry_type {
                HistoryEntryType::Create => (rest, destroyed(roads, road._id.unwrap()), intersections),
                HistoryEntryType::Destroy => (rest, created(roads, road), intersections),
            },
            HistoryEntryData::Intersection(i) => match e.entry_type {
                HistoryEntryType::Create => (rest, roads, destroyed(intersections, i._id.unwrap())),
                HistoryEntryType::Destroy => (rest, roads, created(intersections, i)),
            },
        }
    }
}

/// The history of edits, oldest first.
#[derive(Debug)]
pub struct HistoryManager {
    history: VecDeque<HistoryEntry>,
}

impl View for HistoryManager {
    type V = Seq<HistoryEntry>;

    closed spec fn view(&self) -> Seq<HistoryEntry> {
        self.history@
    }
}

impl HistoryManager {
    /// At most `HISTORY_CAP` entries, each well formed.
    pub open spec fn wf(&self) -> bool {
        &&& self@.len() <= HISTORY_CAP
        &&& forall|i: int| 0 <= i < self@.len() ==> (#[trigger] self@[i]).wf()
    }

    /// An empty history.
    pub fn new() -> (r: Self)
        ensures
            r.wf(),
            r@ == Seq::<HistoryEntry>::empty(),
    {
        HistoryManager { history: VecDeque::new() }
    }

    /// Appends `entry`; where that makes more than `HISTORY_CAP`, drops the oldest.
    pub fn create(&mut self, entry: HistoryEntry)
        requires
            old(self).wf(),
            entry.wf(),
        ensures
            final(self).wf(),
            final(self)@ == recorded(old(self)@, entry),
    {
        self.history.push_back(entry);
        if self.history.len() > HISTORY_CAP {
            self.history.pop_front();
        }
    }

    /// Takes off the newest entry and reverses it on the store it names. The
    /// reversal is not itself recorded. Does nothing where the history is empty.
    pub fn undo(&mut self, roads: &mut RoadManager, intersections: &mut IntersectionManager)
        requires
            old(self).wf(),
            old(roads).is_initialized(),
            old(intersections).is_initialized(),
            old(roads).items().len() < i32::MAX,
            old(intersections).items().len() < i32::MAX,
        ensures
            final(self).wf(),
            final(roads).is_initialized(),
            final(intersections).is_initialized(),
            (final(self)@, final(roads).items(), final(intersections).items()) == undone(
                old(self)@,
                old(roads).items(),
                old(intersections).items(),
            ),
    {
        let entry = match self.history.pop_back() {
            Some(entry) => entry,
            None => return,
        };
        assert(self@ == old(self)@.drop_last());
        assert(entry.wf());
        match (entry.manager, entry.data) {
            (Manager::Road, HistoryEntryData::Road(road)) => match entry.entry_type {
                HistoryEntryType::Create => {
                    if let Some(id) = road._id {
                        roads.destroy(id);
                    }
                },
                HistoryEntryType::Destroy => {
                    roads.create(road);
                },
            },
            (Manager::Intersection, HistoryEntryData::Intersection(i)) => match entry.entry_type {
                HistoryEntryType::Create => {
                    if let Some(id) = i._id {
                        intersections.destroy(id);
                    }
                },
                HistoryEntryType::Destroy => {
                    intersections.create(i);
                },
            },
            _ => {
                proof {
                    assert(false);
                }
            },
        }
    }
}

} // verus!
