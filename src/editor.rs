//! The edit coordinator: the one owner of both stores and of the history. Every
//! edit made through it is recorded, and undo replays against the store that
//! the entry names.
use crate::entity::{
    created, destroyed, first_index, id_used, ids_unique, is_smallest_free, lemma_created_keeps_ids_unique,
    lemma_destroy_after_create, lemma_destroyed_keeps_ids_unique, lemma_smallest_free, smallest_free_id,
    Entity,
};
use crate::geometry::{hit_intersections, hit_roads, intersection_hit_ids, road_hit_ids};
use crate::history::{
    recorded, undone, HistoryEntry, HISTORY_CAP, HistoryEntryData, HistoryEntryType, HistoryManager, Manager,
};
use crate::intersection::{Intersection, IntersectionManager};
use crate::logger::{LogLevel, Logger};
use crate::road::{Road, RoadManager};
use crate::session::Action;
use vstd::prelude::*;

verus! {

/// What an editor holds: the roads, the intersections and the history, oldest first.
pub struct EditorView {
    pub roads: Seq<Road>,
    pub intersections: Seq<Intersection>,
    pub history: Seq<HistoryEntry>,
}

impl EditorView {
    /// After `road` is created and the creation recorded.
    pub open spec fn road_created(self, road: Road) -> EditorView {
        let roads = created(self.roads, road);
        EditorView {
            roads,
            history: recorded(
                self.history,
                HistoryEntry {
                    data: HistoryEntryData::Road(roads.last()),
                    entry_type: HistoryEntryType::Create,
                    manager: Manager::Road,
                },
            ),
            ..self
        }
    }

    /// After `intersection` is created and the creation recorded.
    pub open spec fn intersection_created(self, intersection: Intersection) -> EditorView {
        let intersections = created(self.intersections, intersection);
        EditorView {
            intersections,
            history: recorded(
                self.history,
                HistoryEntry {
                    data: HistoryEntryData::Intersection(intersections.last()),
                    entry_type: HistoryEntryType::Create,
                    manager: Manager::Intersection,
                },
            ),
            ..self
        }
    }

    /// After the first road that holds `id` is destroyed and the destruction
    /// recorded with the road as it was. Unchanged where `id` is negative or no
    /// road holds it.
    pub open spec fn road_destroyed(self, id: i32) -> EditorView {
        if id >= 0 && id_used(self.roads, id as int) {
            EditorView {
                roads: destroyed(self.roads, id),
                history: recorded(
                    self.history,
                    HistoryEntry {
                        data: HistoryEntryData::Road(self.roads[first_index(self.roads, id as int)]),
                        entry_type: HistoryEntryType::Destroy,
                        manager: Manager::Road,
                    },
                ),
                ..self
            }
        } else {
            self
        }
    }

    /// After the first intersection that holds `id` is destroyed and the
    /// destruction recorded. Unchanged where `id` is negative or no
    /// intersection holds it.
    pub open spec fn intersection_destroyed(self, id: i32) -> EditorView {
        if id >= 0 && id_used(self.intersections, id as int) {
            EditorView {
                intersections: destroyed(self.intersections, id),
                history: recorded(
                    self.history,
                    HistoryEntry {
                        data: HistoryEntryData::Intersection(
                            self.intersections[first_index(self.intersections, id as int)],
                        ),
                        entry_type: HistoryEntryType::Destroy,
                        manager: Manager::Intersection,
                    },
                ),
                ..self
            }
        } else {
            self
        }
    }

    /// After the roads holding `ids` are destroyed one by one, in order.
    pub open spec fn roads_destroyed(self, ids: Seq<i32>) -> EditorView
        decreases ids.len(),
    {
        if ids.len() == 0 {
            self
        } else {
            self.roads_destroyed(ids.drop_last()).road_destroyed(ids.last())
        }
    }

    /// After the intersections holding `ids` are destroyed one by one, in order.
    pub open spec fn intersections_destroyed(self, ids: Seq<i32>) -> EditorView
        decreases ids.len(),
    {
        if ids.len() == 0 {
            self
        } else {
            self.intersections_destroyed(ids.drop_last()).intersection_destroyed(ids.last())
        }
    }

    /// After every road, then every intersection, that `(x, y)` hits is destroyed.
    pub open spec fn destroyed_at(self, x: int, y: int) -> EditorView {
        self.roads_destroyed(road_hit_ids(self.roads, x, y)).intersections_destroyed(
            intersection_hit_ids(self.intersections, x, y),
        )
    }

    /// After the newest entry of the history is taken off and reversed.
    pub open spec fn undone(self) -> EditorView {
        let (history, roads, intersections) = undone(self.history, self.roads, self.intersections);
        EditorView { roads, intersections, history }
    }
}

/// The stores and the history of one editing session.
pub struct Editor {
    logger: Logger,
    history: HistoryManager,
    roads: RoadManager,
    intersections: IntersectionManager,
}

impl View for Editor {
    type V = EditorView;

    closed spec fn view(&self) -> EditorView {
        EditorView {
            roads: self.roads.items(),
            intersections: self.intersections.items(),
            history: self.history@,
        }
    }
}

impl Editor {
    /// The history is well formed and both stores are initialised.
    pub closed spec fn wf(&self) -> bool {
        &&& self.history.wf()
        &&& self.roads.is_initialized()
        &&& self.intersections.is_initialized()
    }

    /// The level of the editor's logger.
    pub closed spec fn log_level(&self) -> LogLevel {
        self.logger.threshold()
    }

    /// An editor with empty stores, an empty history, and a logger at `level`.
    pub fn new(level: LogLevel) -> (r: Editor)
        ensures
            r@.roads == Seq::<Road>::empty(),
            r@.intersections == Seq::<Intersection>::empty(),
            r@.history == Seq::<HistoryEntry>::empty(),
            r.log_level() == level,
            r.wf(),
    {
        Editor {
            logger: Logger::new(level),
            history: HistoryManager::new(),
            roads: RoadManager::new(),
            intersections: IntersectionManager::new(),
        }
    }

    /// Creates `road` with the smallest free road identifier, records the
    /// creation, and returns the identifier.
    pub fn create_road(&mut self, road: Road) -> (r: i32)
        requires
            old(self).wf(),
            old(self)@.roads.len() < i32::MAX,
        ensures
            final(self).wf(),
            final(self)@ == old(self)@.road_created(road),
            r == smallest_free_id(old(self)@.roads),
            is_smallest_free(old(self)@.roads, r as int),
            final(self).log_level() == old(self).log_level(),
    {
        let stamped = self.roads.create(road);
        let id = stamped._id.unwrap();
        self.history.create(
            HistoryEntry {
                data: HistoryEntryData::Road(stamped),
                entry_type: HistoryEntryType::Create,
                manager: Manager::Road,
            },
        );
        id
    }

    /// Creates `intersection` with the smallest free intersection identifier,
    /// records the creation, and returns the identifier.
    pub fn create_intersection(&mut self, intersection: Intersection) -> (r: i32)
        requires
            old(self).wf(),
            old(self)@.intersections.len() < i32::MAX,
        ensures
            final(self).wf(),
            final(self)@ == old(self)@.intersection_created(intersection),
            r == smallest_free_id(old(self)@.intersections),
            is_smallest_free(old(self)@.intersections, r as int),
            final(self).log_level() == old(self).log_level(),
    {
        let stamped = self.intersections.create(intersection);
        let id = stamped._id.unwrap();
        self.history.create(
            HistoryEntry {
                data: HistoryEntryData::Intersection(stamped),
                entry_type: HistoryEntryType::Create,
                manager: Manager::Intersection,
            },
        );
        id
    }

    /// Destroys the first road that holds `id` and records it as it was.
    /// Returns whether there was one; a negative `id` is never looked up.
    pub fn destroy_road(&mut self, id: i32) -> (r: bool)
        requires
            old(self).wf(),
        ensures
            final(self).wf(),
            final(self)@ == old(self)@.road_destroyed(id),
            r == (id >= 0 && id_used(old(self)@.roads, id as int)),
            id < 0 ==> final(self)@ == old(self)@,
            final(self).log_level() == old(self).log_level(),
    {
        if id < 0 {
            return false;
        }
        let snapshot = match self.roads.resolve(id) {
            Some(road) => road.clone(),
            None => return false,
        };
        self.roads.destroy(id);
        self.history.create(
            HistoryEntry {
                data: HistoryEntryData::Road(snapshot),
                entry_type: HistoryEntryType::Destroy,
                manager: Manager::Road,
            },
        );
        true
    }

    /// Destroys the first intersection that holds `id` and records it as it
    /// was. Returns whether there was one; a negative `id` is never looked up.
    pub fn destroy_intersection(&mut self, id: i32) -> (r: bool)
        requires
            old(self).wf(),
        ensures
            final(self).wf(),
            final(self)@ == old(self)@.intersection_destroyed(id),
            r == (id >= 0 && id_used(old(self)@.intersections, id as int)),
            id < 0 ==> final(self)@ == old(self)@,
            final(self).log_level() == old(self).log_level(),
    {
        if id < 0 {
            return false;
        }
        let snapshot = match self.intersections.resolve(id) {
            Some(i) => *i,
            None => return false,
        };
        self.intersections.destroy(id);
        self.history.create(
            HistoryEntry {
                data: HistoryEntryData::Intersection(snapshot),
                entry_type: HistoryEntryType::Destroy,
                manager: Manager::Intersection,
            },
        );
        true
    }

    /// Destroys every road that `(x, y)` hits, then every intersection it hits,
    /// recording each.
    pub fn destroy_at(&mut self, x: i32, y: i32)
        requires
            old(self).wf(),
        ensures
            final(self).wf(),
            final(self)@ == old(self)@.destroyed_at(x as int, y as int),
            final(self).log_level() == old(self).log_level(),
    {
        let road_ids = hit_roads(&self.roads, x, y);
        let mut k: usize = 0;
        while k < road_ids.len()
            invariant
                0 <= k <= road_ids.len(),
                road_ids@ == road_hit_ids(old(self)@.roads, x as int, y as int),
                self.wf(),
                self@ == old(self)@.roads_destroyed(road_ids@.subrange(0, k as int)),
                self.log_level() == old(self).log_level(),
            decreases road_ids.len() - k,
        {
            assert(road_ids@.subrange(0, k + 1).drop_last() == road_ids@.subrange(0, k as int));
            self.destroy_road(road_ids[k]);
            k += 1;
        }
        assert(road_ids@.subrange(0, road_ids.len() as int) == road_ids@);
        let ghost middle = self@;
        assert(middle.intersections == old(self)@.intersections) by {
            lemma_roads_destroyed_keeps_intersections(old(self)@, road_ids@);
        }
        let intersection_ids = hit_intersections(&self.intersections, x, y);
        let mut k: usize = 0;
        while k < intersection_ids.len()
            invariant
                0 <= k <= intersection_ids.len(),
                intersection_ids@ == intersection_hit_ids(
                    old(self)@.intersections,
                    x as int,
                    y as int,
                ),
                self.wf(),
                self@ == middle.intersections_destroyed(intersection_ids@.subrange(0, k as int)),
                self.log_level() == old(self).log_level(),
            decreases intersection_ids.len() - k,
        {
            assert(intersection_ids@.subrange(0, k + 1).drop_last() == intersection_ids@.subrange(
                0,
                k as int,
            ));
            self.destroy_intersection(intersection_ids[k]);
            k += 1;
        }
        assert(intersection_ids@.subrange(0, intersection_ids.len() as int) == intersection_ids@);
    }

    /// Takes off the newest history entry and reverses it; the reversal is not
    /// recorded. Does nothing where the history is empty.
    pub fn undo(&mut self)
        requires
            old(self).wf(),
            old(self)@.roads.len() < i32::MAX,
            old(self)@.intersections.len() < i32::MAX,
        ensures
            final(self).wf(),
            final(self)@ == old(self)@.undone(),
            final(self).log_level() == old(self).log_level(),
    {
        self.history.undo(&mut self.roads, &mut self.intersections);
    }

    /// Carries out `action`: creates, destroys at a point, undoes, or nothing.
    pub fn apply(&mut self, action: Action)
        requires
            old(self).wf(),
            old(self)@.roads.len() < i32::MAX,
            old(self)@.intersections.len() < i32::MAX,
        ensures
            final(self).wf(),
            final(self).log_level() == old(self).log_level(),
            final(self)@ == match action {
                Action::Nothing => old(self)@,
                Action::CreateRoad(road) => old(self)@.road_created(road),
                Action::CreateIntersection(i) => old(self)@.intersection_created(i),
                Action::DestroyAt(p) => old(self)@.destroyed_at(p.x as int, p.y as int),
                Action::Undo => old(self)@.undone(),
            },
    {
        match action {
            Action::Nothing => {},
            Action::CreateRoad(road) => {
                self.create_road(road);
            },
            Action::CreateIntersection(i) => {
                self.create_intersection(i);
            },
            Action::DestroyAt(p) => self.destroy_at(p.x, p.y),
            Action::Undo => self.undo(),
        }
    }

    /// Replaces the roads with `roads`, as they are; nothing is recorded.
    pub fn load_roads(&mut self, roads: Vec<Road>)
        requires
            old(self).wf(),
        ensures
            final(self).wf(),
            final(self)@ == (EditorView { roads: roads@, ..old(self)@ }),
            final(self).log_level() == old(self).log_level(),
    {
        self.roads.load(roads);
    }

    /// Replaces the intersections with `intersections`, as they are; nothing is recorded.
    pub fn load_intersections(&mut self, intersections: Vec<Intersection>)
        requires
            old(self).wf(),
        ensures
            final(self).wf(),
            final(self)@ == (EditorView { intersections: intersections@, ..old(self)@ }),
            final(self).log_level() == old(self).log_level(),
    {
        self.intersections.load(intersections);
    }

    /// Empties the roads; nothing is recorded.
    pub fn reset_roads(&mut self)
        requires
            old(self).wf(),
        ensures
            final(self).wf(),
            final(self)@ == (EditorView { roads: Seq::empty(), ..old(self)@ }),
            final(self).log_level() == old(self).log_level(),
    {
        self.roads.reset();
    }

    /// Empties the intersections; nothing is recorded.
    pub fn reset_intersections(&mut self)
        requires
            old(self).wf(),
        ensures
            final(self).wf(),
            final(self)@ == (EditorView { intersections: Seq::empty(), ..old(self)@ }),
            final(self).log_level() == old(self).log_level(),
    {
        self.intersections.reset();
    }
}

/// Undoing a road creation takes the created road out again: the roads and
/// the intersections are as they were before, and so is the history where it
/// was not full.
pub proof fn lemma_undo_inverts_create(v: EditorView, road: Road)
    requires
        v.roads.len() < i32::MAX,
    ensures
        v.road_created(road).undone().roads == v.roads,
        v.road_created(road).undone().intersections == v.intersections,
        v.history.len() < HISTORY_CAP ==> v.road_created(road).undone().history == v.history,
{
    lemma_smallest_free(v.roads);
    let f = smallest_free_id(v.roads);
    road.lemma_with_id(f as i32);
    lemma_destroy_after_create(v.roads, road);
    let w = v.road_created(road);
    if v.history.len() < HISTORY_CAP {
        assert(w.history.drop_last() =~= v.history);
    }
}

/// Undoing a road destruction puts the road back as it was, at the end of the
/// store, under the smallest identifier free at that time; the other roads stay
/// as the destruction left them.
pub proof fn lemma_undo_inverts_destroy(v: EditorView, id: i32)
    requires
        id >= 0,
        id_used(v.roads, id as int),
        v.roads.len() < i32::MAX,
    ensures
        v.road_destroyed(id).undone().roads == created(
            destroyed(v.roads, id),
            v.roads[first_index(v.roads, id as int)],
        ),
        v.road_destroyed(id).undone().intersections == v.intersections,
{
}

/// Every edit and every undo keeps the identifiers of each store unique and positive.
pub proof fn lemma_edits_keep_ids_unique(v: EditorView, road: Road, i: Intersection, id: i32)
    requires
        ids_unique(v.roads),
        ids_unique(v.intersections),
        v.roads.len() < i32::MAX,
        v.intersections.len() < i32::MAX,
    ensures
        ids_unique(v.road_created(road).roads),
        ids_unique(v.intersection_created(i).intersections),
        ids_unique(v.road_destroyed(id).roads),
        ids_unique(v.intersection_destroyed(id).intersections),
        ids_unique(v.undone().roads),
        ids_unique(v.undone().intersections),
{
    lemma_created_keeps_ids_unique(v.roads, road);
    lemma_created_keeps_ids_unique(v.intersections, i);
    lemma_destroyed_keeps_ids_unique(v.roads, id);
    lemma_destroyed_keeps_ids_unique(v.intersections, id);
    if v.history.len() > 0 {
        let e = v.history.last();
        match e.data {
            HistoryEntryData::Road(r) => {
                lemma_created_keeps_ids_unique(v.roads, r);
                lemma_destroyed_keeps_ids_unique(v.roads, r._id.unwrap());
            },
            HistoryEntryData::Intersection(x) => {
                lemma_created_keeps_ids_unique(v.intersections, x);
                lemma_destroyed_keeps_ids_unique(v.intersections, x._id.unwrap());
            },
        }
    }
}

proof fn lemma_roads_destroyed_keeps_intersections(v: EditorView, ids: Seq<i32>)
    ensures
        v.roads_destroyed(ids).intersections == v.intersections,
    decreases ids.len(),
{
    if ids.len() > 0 {
        lemma_roads_destroyed_keeps_intersections(v, ids.drop_last());
    }
}

/// The logger of `editor`.
pub fn get_logger(editor: &Editor) -> (r: &Logger)
    requires
        editor.wf(),
    ensures
        r.threshold() == editor.log_level(),
{
    &editor.logger
}

/// The history of `editor`.
pub fn get_history_manager(editor: &Editor) -> (r: &HistoryManager)
    requires
        editor.wf(),
    ensures
        r@ == editor@.history,
        r.wf(),
{
    &editor.history
}

/// The road store of `editor`.
pub fn get_road_manager(editor: &Editor) -> (r: &RoadManager)
    requires
        editor.wf(),
    ensures
        r.items() == editor@.roads,
        r.is_initialized(),
{
    &editor.roads
}

/// The intersection store of `editor`.
pub fn get_intersection_manager(editor: &Editor) -> (r: &IntersectionManager)
    requires
        editor.wf(),
    ensures
        r.items() == editor@.intersections,
        r.is_initialized(),
{
    &editor.intersections
}

} // verus!
