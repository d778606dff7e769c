//! Roads and the store that owns them.
use crate::entity::{
    created, destroyed, find_index, ids_unique, is_smallest_free, lemma_first_index_unique, resolved,
    smallest_free, Entity,
};
use vstd::prelude::*;

verus! {

/// A road segment on the editing canvas. Coordinates are whole canvas units.
#[derive(Debug, PartialEq, Eq)]
pub struct Road {
    pub _id: Option<i32>,
    pub name: String,
    pub start_lat: i32,
    pub stop_lat: i32,
    pub start_lon: i32,
    pub stop_lon: i32,
    pub speed_limit: u32,
    pub lane_count: u32,
    pub road_type: String,
}

impl Clone for Road {
    fn clone(&self) -> (r: Self)
        ensures
            r == *self,
    {
        Road {
            _id: self._id,
            name: self.name.clone(),
            start_lat: self.start_lat,
            stop_lat: self.stop_lat,
            start_lon: self.start_lon,
            stop_lon: self.stop_lon,
            speed_limit: self.speed_limit,
            lane_count: self.lane_count,
            road_type: self.road_type.clone(),
        }
    }
}

impl Entity for Road {
    open spec fn spec_id(&self) -> Option<i32> {
        self._id
    }

    open spec fn spec_with_id(self, id: i32) -> Self {
        Road { _id: Some(id), ..self }
    }

    fn id(&self) -> (r: Option<i32>) {
        self._id
    }

    fn with_id(self, id: i32) -> (r: Self) {
        Road { _id: Some(id), ..self }
    }

    proof fn lemma_with_id(self, id: i32) {
    }
}

impl Road {
    /// The start and stop points, as `[start_lat, start_lon, stop_lat, stop_lon]`.
    pub fn get_points(&self) -> (r: [i32; 4])
        ensures
            r@ == seq![self.start_lat, self.start_lon, self.stop_lat, self.stop_lon],
    {
        let r = [self.start_lat, self.start_lon, self.stop_lat, self.stop_lon];
        assert(r@ =~= seq![self.start_lat, self.start_lon, self.stop_lat, self.stop_lon]);
        r
    }
}

/// Clones of the roads of `items`, in order.
pub fn clone_roads(items: &Vec<Road>) -> (r: Vec<Road>)
    ensures
        r@ == items@,
{
    let mut r: Vec<Road> = Vec::new();
    let mut i: usize = 0;
    while i < items.len()
        invariant
            0 <= i <= items.len(),
            r@ == items@.subrange(0, i as int),
        decreases items.len() - i,
    {
        r.push(items[i].clone());
        i += 1;
    }
    assert(r@ =~= items@);
    r
}

/// The store of roads. It is initialised when `cache` holds a collection.
#[derive(Debug)]
pub struct RoadManager {
    pub cache: Option<Vec<Road>>,
}

impl RoadManager {
    /// The roads held, in insertion order; none while uninitialised.
    pub open spec fn items(&self) -> Seq<Road> {
        match self.cache {
            Some(v) => v@,
            None => Seq::empty(),
        }
    }

    pub open spec fn is_initialized(&self) -> bool {
        self.cache is Some
    }

    /// An initialised, empty store.
    pub fn new() -> (r: Self)
        ensures
            r.is_initialized(),
            r.items() == Seq::<Road>::empty(),
    {
        RoadManager { cache: Some(Vec::new()) }
    }

    fn _add(&mut self, road: Road)
        ensures
            final(self).is_initialized() == old(self).is_initialized(),
            old(self).is_initialized() ==> final(self).items() == old(self).items().push(road),
            !old(self).is_initialized() ==> final(self).items() == old(self).items(),
    {
        if let Some(cache) = &mut self.cache {
            cache.push(road);
        }
    }

    fn _remove(&mut self, id: i32)
        requires
            id >= 0,
        ensures
            final(self).is_initialized() == old(self).is_initialized(),
            final(self).items() == destroyed(old(self).items(), id),
    {
        if let Some(cache) = &mut self.cache {
            if let Some(index) = find_index(cache, id) {
                proof {
                    lemma_first_index_unique(cache@, id as int, index as int);
                }
                cache.remove(index);
            }
        }
    }

    /// The first road that holds `id`, or `None` where none does.
    pub fn resolve(&self, id: i32) -> (r: Option<&Road>)
        ensures
            r matches Some(road) ==> resolved(self.items(), id as int) == Some(*road),
            r is None ==> resolved(self.items(), id as int) is None,
    {
        if let Some(cache) = &self.cache {
            if let Some(index) = find_index(cache, id) {
                proof {
                    lemma_first_index_unique(cache@, id as int, index as int);
                }
                return Some(&cache[index]);
            }
        }
        None
    }

    /// Stamps `road` with the smallest positive identifier that no road holds,
    /// appends it, and returns a copy of what was appended.
    pub fn create(&mut self, road: Road) -> (r: Road)
        requires
            old(self).is_initialized(),
            old(self).items().len() < i32::MAX,
        ensures
            final(self).is_initialized(),
            final(self).items() == created(old(self).items(), road),
            r == final(self).items().last(),
            is_smallest_free(old(self).items(), r._id.unwrap() as int),
    {
        let id = match &self.cache {
            Some(cache) => smallest_free(cache),
            None => 1,
        };
        let road = road.with_id(id);
        let copy = road.clone();
        self._add(road);
        copy
    }

    /// Takes out the first road that holds `id`. Does nothing where `id` is
    /// negative or no road holds it.
    pub fn destroy(&mut self, id: i32)
        ensures
            final(self).is_initialized() == old(self).is_initialized(),
            final(self).items() == destroyed(old(self).items(), id),
            id < 0 ==> final(self).items() == old(self).items(),
    {
        if id < 0 {
            return;
        }
        self._remove(id);
    }

    /// The whole collection, in order, for writing out.
    pub fn store(&self) -> (r: Vec<Road>)
        requires
            self.is_initialized(),
        ensures
            r@ == self.items(),
    {
        match &self.cache {
            Some(cache) => clone_roads(cache),
            None => Vec::new(),
        }
    }

    /// Replaces the collection with `roads`, in their order and with the
    /// identifiers they hold.
    pub fn load(&mut self, roads: Vec<Road>)
        ensures
            final(self).is_initialized(),
            final(self).items() == roads@,
    {
        self.cache = Some(roads);
    }

    /// Replaces the collection with an empty one.
    pub fn reset(&mut self)
        ensures
            final(self).is_initialized(),
            final(self).items() == Seq::<Road>::empty(),
    {
        self.cache = Some(Vec::new());
    }
}

/// Writing a store out and loading what was written into a store gives the
/// same collection: the same records, in the same order, with the same
/// identifiers, so every identifier resolves as it did.
pub proof fn lemma_store_load_round_trip(before: RoadManager, written: Seq<Road>, after: RoadManager)
    requires
        before.is_initialized(),
        ids_unique(before.items()),
        written == before.items(),
        after.items() == written,
    ensures
        after.items() == before.items(),
        ids_unique(after.items()),
        forall|id: int| resolved(after.items(), id) == resolved(before.items(), id),
{
}

} // verus!
