//! What both stores share: identifiers, their allocation, and lookup by identifier.
use vstd::prelude::*;
use vstd::relations::injective_on;
use vstd::set_lib::*;

verus! {

/// A record that a store keeps and hands an identifier to.
pub trait Entity: Sized {
    /// The record's identifier; `None` until a store has accepted it.
    spec fn spec_id(&self) -> Option<i32>;

    /// The same record, stamped with `id`.
    spec fn spec_with_id(self, id: i32) -> Self;

    /// The record's identifier.
    fn id(&self) -> (r: Option<i32>)
        ensures
            r == self.spec_id(),
    ;

    /// The record, stamped with `id`.
    fn with_id(self, id: i32) -> (r: Self)
        ensures
            r == self.spec_with_id(id),
    ;

    /// Stamping sets the identifier.
    proof fn lemma_with_id(self, id: i32)
        ensures
            self.spec_with_id(id).spec_id() == Some(id),
    ;
}

/// `e` holds the identifier `id`.
pub open spec fn has_id<T: Entity>(e: T, id: int) -> bool {
    match e.spec_id() {
        Some(x) => x == id,
        None => false,
    }
}

/// Some record of `s` holds the identifier `id`.
pub open spec fn id_used<T: Entity>(s: Seq<T>, id: int) -> bool {
    exists|i: int| 0 <= i < s.len() && #[trigger] has_id(s[i], id)
}

/// `id` is the smallest positive identifier that no record of `s` holds.
pub open spec fn is_smallest_free<T: Entity>(s: Seq<T>, id: int) -> bool {
    &&& 1 <= id
    &&& !id_used(s, id)
    &&& forall|j: int| 1 <= j < id ==> id_used(s, j)
}

/// The smallest positive identifier that no record of `s` holds.
pub open spec fn smallest_free_id<T: Entity>(s: Seq<T>) -> int {
    choose|id: int| is_smallest_free(s, id)
}

/// `i` is the position of the first record of `s` that holds `id`.
pub open spec fn is_first_index<T: Entity>(s: Seq<T>, id: int, i: int) -> bool {
    &&& 0 <= i < s.len()
    &&& has_id(s[i], id)
    &&& forall|j: int| 0 <= j < i ==> !has_id(#[trigger] s[j], id)
}

/// The position of the first record of `s` that holds `id`.
pub open spec fn first_index<T: Entity>(s: Seq<T>, id: int) -> int {
    choose|i: int| is_first_index(s, id, i)
}

/// The first record of `s` that holds `id`, if any.
pub open spec fn resolved<T: Entity>(s: Seq<T>, id: int) -> Option<T> {
    if id_used(s, id) {
        Some(s[first_index(s, id)])
    } else {
        None
    }
}

/// `s` after `e` is stamped with the smallest free identifier and appended.
pub open spec fn created<T: Entity>(s: Seq<T>, e: T) -> Seq<T> {
    s.push(e.spec_with_id(smallest_free_id(s) as i32))
}

/// `s` after the first record that holds `id` is taken out; `s` itself where `id`
/// is negative or no record holds it.
pub open spec fn destroyed<T: Entity>(s: Seq<T>, id: i32) -> Seq<T> {
    if id >= 0 && id_used(s, id as int) {
        s.remove(first_index(s, id as int))
    } else {
        s
    }
}

/// No two records of `s` hold the same identifier, and every identifier is positive.
pub open spec fn ids_unique<T: Entity>(s: Seq<T>) -> bool {
    &&& forall|i: int, j: int|
        0 <= i < j < s.len() && (#[trigger] s[i]).spec_id() is Some
            ==> s[i].spec_id() != (#[trigger] s[j]).spec_id()
    &&& forall|i: int| 0 <= i < s.len() && (#[trigger] s[i]).spec_id() is Some
            ==> s[i].spec_id().unwrap() >= 1
}

/// Where every identifier from 1 to `m` is held, `s` has at least `m` records.
pub proof fn lemma_used_ids_bounded<T: Entity>(s: Seq<T>, m: int)
    requires
        0 <= m,
        forall|j: int| 1 <= j <= m ==> id_used(s, j),
    ensures
        m <= s.len(),
{
    let ids = set_int_range(1, m + 1);
    let pos = set_int_range(0, s.len() as int);
    let f = |j: int| choose|i: int| 0 <= i < s.len() && has_id(s[i], j);
    lemma_int_range(1, m + 1);
    lemma_int_range(0, s.len() as int);
    assert forall|j: int| ids.contains(j) implies 0 <= #[trigger] f(j) < s.len() && has_id(s[f(j)], j) by {
        assert(id_used(s, j));
    }
    assert(injective_on(f, ids)) by {
        assert forall|a: int, b: int| ids.contains(a) && ids.contains(b) && #[trigger] f(a) == #[trigger] f(b) implies a == b by {
            assert(has_id(s[f(a)], a));
            assert(has_id(s[f(b)], b));
        }
    }
    lemma_map_size(ids, ids.map(f), f);
    assert(ids.map(f).subset_of(pos)) by {
        assert forall|i: int| #[trigger] ids.map(f).contains(i) implies pos.contains(i) by {
            let j = choose|j: int| ids.contains(j) && f(j) == i;
        }
    }
    lemma_len_subset(ids.map(f), pos);
}

/// A store with fewer than `i32::MAX` records has a smallest free identifier, and it
/// is at most one more than the number of records.
pub proof fn lemma_smallest_free<T: Entity>(s: Seq<T>)
    requires
        s.len() < i32::MAX,
    ensures
        is_smallest_free(s, smallest_free_id(s)),
        1 <= smallest_free_id(s) <= s.len() + 1,
{
    lemma_free_from(s, 1);
    let id = smallest_free_id(s);
    if id > s.len() + 1 {
        lemma_used_ids_bounded(s, s.len() + 1 as int);
    }
}

proof fn lemma_free_from<T: Entity>(s: Seq<T>, k: int)
    requires
        1 <= k <= s.len() + 1,
        forall|j: int| 1 <= j < k ==> id_used(s, j),
    ensures
        exists|id: int| is_smallest_free(s, id),
    decreases s.len() + 1 - k,
{
    if !id_used(s, k) {
        assert(is_smallest_free(s, k));
    } else if k == s.len() + 1 {
        lemma_used_ids_bounded(s, k);
    } else {
        lemma_free_from(s, k + 1);
    }
}

/// There is one smallest free identifier.
pub proof fn lemma_smallest_free_unique<T: Entity>(s: Seq<T>, id: int)
    requires
        is_smallest_free(s, id),
    ensures
        smallest_free_id(s) == id,
{
    let other = smallest_free_id(s);
    assert(is_smallest_free(s, other));
    if other < id {
        assert(id_used(s, other));
    } else if id < other {
        assert(id_used(s, id));
    }
}

/// There is one first position that holds an identifier.
pub proof fn lemma_first_index_unique<T: Entity>(s: Seq<T>, id: int, i: int)
    requires
        is_first_index(s, id, i),
    ensures
        first_index(s, id) == i,
{
    let other = first_index(s, id);
    assert(is_first_index(s, id, other));
    if other < i {
        assert(!has_id(s[other], id));
    } else if i < other {
        assert(!has_id(s[i], id));
    }
}

/// A held identifier has a first position.
pub proof fn lemma_first_index<T: Entity>(s: Seq<T>, id: int)
    requires
        id_used(s, id),
    ensures
        is_first_index(s, id, first_index(s, id)),
    decreases s.len(),
{
    let i = choose|i: int| 0 <= i < s.len() && has_id(s[i], id);
    if is_first_index(s, id, i) {
    } else {
        let j = choose|j: int| 0 <= j < i && has_id(#[trigger] s[j], id);
        let t = s.subrange(0, i);
        assert(has_id(t[j], id));
        lemma_first_index(t, id);
        let k = first_index(t, id);
        assert forall|m: int| 0 <= m < k implies !has_id(#[trigger] s[m], id) by {
            assert(s[m] == t[m]);
        }
        assert(is_first_index(s, id, k));
    }
}

/// `s` after each record of `es` is created in turn.
pub open spec fn created_all<T: Entity>(s: Seq<T>, es: Seq<T>) -> Seq<T>
    decreases es.len(),
{
    if es.len() == 0 {
        s
    } else {
        created(created_all(s, es.drop_last()), es.last())
    }
}

/// Creating records one after another keeps what was there, gives each new
/// record the smallest positive identifier free at the time of its creation,
/// and so gives pairwise distinct identifiers.
pub proof fn lemma_created_ids_distinct<T: Entity>(s: Seq<T>, es: Seq<T>)
    requires
        s.len() + es.len() < i32::MAX,
    ensures
        created_all(s, es).len() == s.len() + es.len(),
        created_all(s, es).subrange(0, s.len() as int) == s,
        forall|i: int|
            s.len() <= i < s.len() + es.len() ==> (#[trigger] created_all(s, es)[i]).spec_id() is Some
                && is_smallest_free(
                created_all(s, es).subrange(0, i),
                created_all(s, es)[i].spec_id().unwrap() as int,
            ),
        forall|i: int, j: int|
            s.len() <= i < j < s.len() + es.len() ==> (#[trigger] created_all(s, es)[i]).spec_id()
                != (#[trigger] created_all(s, es)[j]).spec_id(),
    decreases es.len(),
{
    let t = created_all(s, es);
    if es.len() == 0 {
        assert(t.subrange(0, s.len() as int) =~= s);
    } else {
        let prev = created_all(s, es.drop_last());
        lemma_created_ids_distinct(s, es.drop_last());
        lemma_smallest_free(prev);
        let f = smallest_free_id(prev);
        es.last().lemma_with_id(f as i32);
        assert(t == prev.push(es.last().spec_with_id(f as i32)));
        assert(t.subrange(0, s.len() as int) =~= prev.subrange(0, s.len() as int));
        assert(t.subrange(0, prev.len() as int) =~= prev);
        assert forall|i: int| s.len() <= i < s.len() + es.len() implies (#[trigger] t[i]).spec_id() is Some
            && is_smallest_free(t.subrange(0, i), t[i].spec_id().unwrap() as int) by {
            if i < prev.len() {
                assert(t[i] == prev[i]);
                assert(t.subrange(0, i) =~= prev.subrange(0, i));
            }
        }
        assert forall|i: int, j: int| s.len() <= i < j < s.len() + es.len() implies (#[trigger] t[i]).spec_id()
            != (#[trigger] t[j]).spec_id() by {
            if j < prev.len() {
                assert(t[i] == prev[i]);
                assert(t[j] == prev[j]);
            } else {
                assert(t[i] == prev[i]);
                assert(!has_id(prev[i], f));
            }
        }
    }
}

/// Creating keeps the identifiers of a store unique and positive.
pub proof fn lemma_created_keeps_ids_unique<T: Entity>(s: Seq<T>, e: T)
    requires
        ids_unique(s),
        s.len() < i32::MAX,
    ensures
        ids_unique(created(s, e)),
{
    lemma_smallest_free(s);
    let f = smallest_free_id(s);
    e.lemma_with_id(f as i32);
    let t = created(s, e);
    assert forall|i: int, j: int| 0 <= i < j < t.len() && (#[trigger] t[i]).spec_id() is Some implies t[i].spec_id()
        != (#[trigger] t[j]).spec_id() by {
        assert(t[i] == s[i]);
        if j < s.len() {
            assert(t[j] == s[j]);
        } else {
            assert(!has_id(s[i], f));
        }
    }
    assert forall|i: int| 0 <= i < t.len() && (#[trigger] t[i]).spec_id() is Some implies t[i].spec_id().unwrap()
        >= 1 by {
        if i < s.len() {
            assert(t[i] == s[i]);
        }
    }
}

/// Destroying keeps the identifiers of a store unique and positive.
pub proof fn lemma_destroyed_keeps_ids_unique<T: Entity>(s: Seq<T>, id: i32)
    requires
        ids_unique(s),
    ensures
        ids_unique(destroyed(s, id)),
{
    if id >= 0 && id_used(s, id as int) {
        lemma_first_index(s, id as int);
        let k = first_index(s, id as int);
        let t = destroyed(s, id);
        assert(t == s.remove(k));
        assert forall|i: int, j: int| 0 <= i < j < t.len() && (#[trigger] t[i]).spec_id() is Some implies t[i].spec_id()
            != (#[trigger] t[j]).spec_id() by {
            let i2 = if i < k { i } else { i + 1 };
            let j2 = if j < k { j } else { j + 1 };
            assert(t[i] == s[i2]);
            assert(t[j] == s[j2]);
        }
        assert forall|i: int| 0 <= i < t.len() && (#[trigger] t[i]).spec_id() is Some implies t[i].spec_id().unwrap()
            >= 1 by {
            let i2 = if i < k { i } else { i + 1 };
            assert(t[i] == s[i2]);
        }
    }
}

/// A record created and then destroyed by the identifier it was given cannot be
/// resolved afterwards, and the store is as it was before the creation.
pub proof fn lemma_destroy_after_create<T: Entity>(s: Seq<T>, e: T)
    requires
        s.len() < i32::MAX,
    ensures
        destroyed(created(s, e), smallest_free_id(s) as i32) == s,
        resolved(destroyed(created(s, e), smallest_free_id(s) as i32), smallest_free_id(s)) is None,
{
    lemma_smallest_free(s);
    let f = smallest_free_id(s);
    e.lemma_with_id(f as i32);
    let t = created(s, e);
    assert(has_id(t[s.len() as int], f));
    assert(is_first_index(t, f, s.len() as int)) by {
        assert forall|j: int| 0 <= j < s.len() implies !has_id(#[trigger] t[j], f) by {
            assert(t[j] == s[j]);
        }
    }
    lemma_first_index_unique(t, f, s.len() as int);
    assert(t.remove(s.len() as int) =~= s);
}

/// The position of the first record of `items` that holds `id`, if any.
pub fn find_index<T: Entity>(items: &Vec<T>, id: i32) -> (r: Option<usize>)
    ensures
        match r {
            Some(i) => is_first_index(items@, id as int, i as int),
            None => !id_used(items@, id as int),
        },
{
    let mut i: usize = 0;
    while i < items.len()
        invariant
            0 <= i <= items.len(),
            forall|j: int| 0 <= j < i ==> !has_id(#[trigger] items@[j], id as int),
        decreases items.len() - i,
    {
        if let Some(x) = items[i].id() {
            if x == id {
                return Some(i);
            }
        }
        i += 1;
    }
    None
}

/// The smallest positive identifier that no record of `items` holds.
pub fn smallest_free<T: Entity>(items: &Vec<T>) -> (r: i32)
    requires
        items.len() < i32::MAX,
    ensures
        is_smallest_free(items@, r as int),
        r == smallest_free_id(items@),
        r <= items.len() + 1,
{
    let mut id: i32 = 1;
    loop
        invariant
            1 <= id <= items.len() + 1,
            items.len() < i32::MAX,
            forall|j: int| 1 <= j < id ==> id_used(items@, j),
        decreases items.len() + 1 - id,
    {
        match find_index(items, id) {
            None => {
                proof {
                    lemma_smallest_free_unique(items@, id as int);
                }
                return id;
            },
            Some(i) => {
                proof {
                    assert(has_id(items@[i as int], id as int));
                    assert(forall|j: int| 1 <= j <= id ==> id_used(items@, j));
                    lemma_used_ids_bounded(items@, id as int);
                }
                id += 1;
            },
        }
    }
}

} // verus!
