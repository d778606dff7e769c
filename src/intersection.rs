//! Intersections and the store that owns them.
use crate::entity::{
    created, destroyed, find_index, ids_unique, is_smallest_free, lemma_first_index_unique, resolved,
    smallest_free, Entity,
};
use vstd::prelude::*;

verus! {

/// An intersection point on the editing canvas, in whole canvas units.
#[derive(Debug, Clone, Copy, PartialEq, Eq)]
pub struct Intersection {
    pub _id: Option<i32>,
    pub lat: i32,
    pub lon: i32,
    pub traffic_lights: bool,
}

impl Entity for Intersection {
    open spec fn spec_id(&self) -> Option<i32> {
        self._id
    }

    open spec fn spec_with_id(self, id: i32) -> Self {
        Intersection { _id: Some(id), ..self }
    }

    fn id(&self) -> (r: Option<i32>) {
        self._id
    }

    fn with_id(self, id: i32) -> (r: Self) {
        Intersection { _id: Some(id), ..self }
    }

    proof fn lemma_with_id(self, id: i32) {
    }
}

/// Copies of the intersections of `items`, in order.
pub fn copy_intersections(items: &Vec<Intersection>) -> (r: Vec<Intersection>)
    ensures
        r@ == items@,
{
    let mut r: Vec<Intersection> = Vec::new();
    let mut i: usize = 0;
    while i < items.len()
        invariant
            0 <= i <= items.len(),
            r@ == items@.subrange(0, i as int),
        decreases items.len() - i,
    {
        r.push(items[i]);
        i += 1;
    }
    assert(r@ =~= items@);
    r
}

/// The store of intersections. It is initialised when `cache` holds a collection.
#[derive(Debug)]
pub struct IntersectionManager {
    pub cache: Option<Vec<Intersection>>,
}

impl IntersectionManager {
    /// The intersections held, in insertion order; none while uninitialised.
    pub open spec fn items(&self) -> Seq<Intersection> {
        match self.cache {
            Some(v) => v@,
            None => Seq::empty(),
        }
    }

    pub open spec fn is_initialized(&self) -> bool {
        self.cache is Some
    }

    /// An initialised, empty store.
    pub fn new() -> (r: Self)
        ensures
            r.is_initialized(),
            r.items() == Seq::<Intersection>::empty(),
    {
        IntersectionManager { cache: Some(Vec::new()) }
    }

    fn _add(&mut self, intersection: Intersection)
        ensures
            final(self).is_initialized() == old(self).is_initialized(),
            old(self).is_initialized() ==> final(self).items() == old(self).items().push(
                intersection,
            ),
            !old(self).is_initialized() ==> final(self).items() == old(self).items(),
    {
        if let Some(cache) = &mut self.cache {
            cache.push(intersection);
        }
    }

    fn _remove(&mut self, id: i32)
        requires
            id >= 0,
        ensures
            final(self).is_initialized() == old(self).is_initialized(),
            final(self).items() == destroyed(old(self).items(), id),
    {
        if let Some(cache) = &mut self.cache {
            if let Some(index) = find_index(cache, id) {
                proof {
                    lemma_first_index_unique(cache@, id as int, index as int);
                }
                cache.remove(index);
            }
        }
    }

    /// The first intersection that holds `id`, or `None` where none does.
    pub fn resolve(&self, id: i32) -> (r: Option<&Intersection>)
        ensures
            r matches Some(i) ==> resolved(self.items(), id as int) == Some(*i),
            r is None ==> resolved(self.items(), id as int) is None,
    {
        if let Some(cache) = &self.cache {
            if let Some(index) = find_index(cache, id) {
                proof {
                    lemma_first_index_unique(cache@, id as int, index as int);
                }
                return Some(&cache[index]);
            }
        }
        None
    }

    /// Stamps `intersection` with the smallest positive identifier that no
    /// intersection holds, appends it, and returns a copy of what was appended.
    pub fn create(&mut self, intersection: Intersection) -> (r: Intersection)
        requires
            old(self).is_initialized(),
            old(self).items().len() < i32::MAX,
        ensures
            final(self).is_initialized(),
            final(self).items() == created(old(self).items(), intersection),
            r == final(self).items().last(),
            is_smallest_free(old(self).items(), r._id.unwrap() as int),
    {
        let id = match &self.cache {
            Some(cache) => smallest_free(cache),
            None => 1,
        };
        let intersection = intersection.with_id(id);
        self._add(intersection);
        intersection
    }

    /// Takes out the first intersection that holds `id`. Does nothing where
    /// `id` is negative or no intersection holds it.
    pub fn destroy(&mut self, id: i32)
        ensures
            final(self).is_initialized() == old(self).is_initialized(),
            final(self).items() == destroyed(old(self).items(), id),
            id < 0 ==> final(self).items() == old(self).items(),
    {
        if id < 0 {
            return;
        }
        self._remove(id);
    }

    /// The whole collection, in order, for writing out.
    pub fn store(&self) -> (r: Vec<Intersection>)
        requires
            self.is_initialized(),
        ensures
            r@ == self.items(),
    {
        match &self.cache {
            Some(cache) => copy_intersections(cache),
            None => Vec::new(),
        }
    }

    /// Replaces the collection with `intersections`, in their order and with
    /// the identifiers they hold.
    pub fn load(&mut self, intersections: Vec<Intersection>)
        ensures
            final(self).is_initialized(),
            final(self).items() == intersections@,
    {
        self.cache = Some(intersections);
    }

    /// Replaces the collection with an empty one.
    pub fn reset(&mut self)
        ensures
            final(self).is_initialized(),
            final(self).items() == Seq::<Intersection>::empty(),
    {
        self.cache = Some(Vec::new());
    }
}

/// Writing a store out and loading what was written into a store gives the
/// same collection: the same records, in the same order, with the same
/// identifiers, so every identifier resolves as it did.
pub proof fn lemma_store_load_round_trip(before: IntersectionManager, written: Seq<Intersection>, after: IntersectionManager)
    requires
        before.is_initialized(),
        ids_unique(before.items()),
        written == before.items(),
        after.items() == written,
    ensures
        after.items() == before.items(),
        ids_unique(after.items()),
        forall|id: int| resolved(after.items(), id) == resolved(before.items(), id),
{
}

} // verus!
