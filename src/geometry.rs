//! Sample points along a road, and proximity tests against a query point.
//!
//! Coordinates are whole canvas units. A sample point may fall between units, so it
//! is held as an exact fraction over a shared denominator, and every distance
//! comparison is made on squares, without rounding.
use crate::intersection::{Intersection, IntersectionManager};
use crate::road::{Road, RoadManager};
use vstd::prelude::*;

verus! {

/// Spacing of the sample points along a road.
pub const SEGMENT_STEP: u32 = 10;

/// A query point hits a road where it lies within this distance of a sample point.
pub const ROAD_HIT_RADIUS: u16 = 5;

/// A query point hits an intersection where it lies within this distance of it.
pub const INTERSECTION_HIT_RADIUS: u16 = 6;

/// The point `(lat_num / den, lon_num / den)`.
#[derive(Debug, Clone, Copy, PartialEq, Eq)]
pub struct SamplePoint {
    pub lat_num: i128,
    pub lon_num: i128,
    pub den: i128,
}

/// The range of sample points that the distance test takes without overflow.
pub open spec fn in_bounds(p: SamplePoint) -> bool {
    &&& 1 <= p.den <= 0x2_0000_0000
    &&& -0x10_0000_0000_0000_0000 < p.lat_num < 0x10_0000_0000_0000_0000
    &&& -0x10_0000_0000_0000_0000 < p.lon_num < 0x10_0000_0000_0000_0000
}

/// The Euclidean distance from `p` to `(x, y)` is at most `radius`.
pub open spec fn spec_within(p: SamplePoint, x: int, y: int, radius: int) -> bool {
    let dx = p.lat_num - x * p.den;
    let dy = p.lon_num - y * p.den;
    dx * dx + dy * dy <= (radius * p.den) * (radius * p.den)
}

/// Whether the Euclidean distance from `p` to `(x, y)` is at most `radius`.
pub fn within(p: &SamplePoint, x: i32, y: i32, radius: u16) -> (r: bool)
    requires
        in_bounds(*p),
    ensures
        r == spec_within(*p, x as int, y as int, radius as int),
{
    let den = p.den;
    assert(-0x1_0000_0000_0000_0000_0000 < x * den < 0x1_0000_0000_0000_0000_0000) by (nonlinear_arith)
        requires
            1 <= den <= 0x2_0000_0000,
            -0x8000_0000 <= x < 0x8000_0000,
    ;
    assert(-0x1_0000_0000_0000_0000_0000 < y * den < 0x1_0000_0000_0000_0000_0000) by (nonlinear_arith)
        requires
            1 <= den <= 0x2_0000_0000,
            -0x8000_0000 <= y < 0x8000_0000,
    ;
    assert(0 <= radius * den <= 0x2_0000_0000_0000) by (nonlinear_arith)
        requires
            1 <= den <= 0x2_0000_0000,
            0 <= radius < 0x1_0000,
    ;
    let dx = p.lat_num - (x as i128) * den;
    let dy = p.lon_num - (y as i128) * den;
    let reach = (radius as i128) * den;
    if dx > reach || dx < -reach || dy > reach || dy < -reach {
        assert(dx * dx + dy * dy > reach * reach) by (nonlinear_arith)
            requires
                reach >= 0,
                dx > reach || dx < -reach || dy > reach || dy < -reach,
        ;
        return false;
    }
    assert(0 <= dx * dx <= reach * reach && 0 <= dy * dy <= reach * reach) by (nonlinear_arith)
        requires
            -reach <= dx <= reach,
            -reach <= dy <= reach,
    ;
    assert(reach * reach <= 0x4_0000_0000_0000_0000_0000_0000) by (nonlinear_arith)
        requires
            0 <= reach <= 0x2_0000_0000_0000,
    ;
    dx * dx + dy * dy <= reach * reach
}

impl Road {
    pub open spec fn delta_lat(&self) -> int {
        self.stop_lat - self.start_lat
    }

    pub open spec fn delta_lon(&self) -> int {
        self.stop_lon - self.start_lon
    }

    /// The square of the road's Euclidean length.
    pub open spec fn spec_length_squared(&self) -> int {
        self.delta_lat() * self.delta_lat() + self.delta_lon() * self.delta_lon()
    }

    /// `n` is the number of steps of length `step` that cover the road: the
    /// smallest `n` with `step * n` at least the road's length.
    pub open spec fn is_step_count(&self, step: int, n: int) -> bool {
        &&& 0 <= n
        &&& (step * n) * (step * n) >= self.spec_length_squared()
        &&& n == 0 || (step * (n - 1)) * (step * (n - 1)) < self.spec_length_squared()
    }

    /// The number of steps of length `step` that cover the road.
    pub open spec fn step_count(&self, step: int) -> int {
        choose|n: int| self.is_step_count(step, n)
    }

    /// Sample `k` of a road covered by `n` steps: the point `k / n` of the way
    /// from start to stop for `k < n`, and the stop point itself for the last.
    pub open spec fn sample(&self, n: int, k: int) -> SamplePoint {
        if k < n {
            SamplePoint {
                lat_num: (self.start_lat * n + k * self.delta_lat()) as i128,
                lon_num: (self.start_lon * n + k * self.delta_lon()) as i128,
                den: n as i128,
            }
        } else {
            SamplePoint { lat_num: self.stop_lat as i128, lon_num: self.stop_lon as i128, den: 1 }
        }
    }

    /// The square of the road's Euclidean length.
    pub fn length_squared(&self) -> (r: i128)
        ensures
            r == self.spec_length_squared(),
            0 <= r < 0x2_0000_0000_0000_0000,
    {
        let dlat = self.stop_lat as i128 - self.start_lat as i128;
        let dlon = self.stop_lon as i128 - self.start_lon as i128;
        assert(0 <= dlat * dlat < 0x1_0000_0000_0000_0000) by (nonlinear_arith)
            requires
                -0x1_0000_0000 < dlat < 0x1_0000_0000,
        ;
        assert(0 <= dlon * dlon < 0x1_0000_0000_0000_0000) by (nonlinear_arith)
            requires
                -0x1_0000_0000 < dlon < 0x1_0000_0000,
        ;
        dlat * dlat + dlon * dlon
    }

    /// The number of steps of length `step` that cover the road.
    pub fn segment_count(&self, step: u32) -> (n: i128)
        requires
            step > 0,
        ensures
            self.is_step_count(step as int, n as int),
            n == self.step_count(step as int),
            0 <= n <= 0x2_0000_0000,
    {
        let len2 = self.length_squared();
        let unit = step as i128;
        let mut n: i128 = 0;
        loop
            invariant
                0 <= n <= 0x2_0000_0000,
                1 <= unit < 0x1_0000_0000,
                unit == step,
                len2 == self.spec_length_squared(),
                0 <= len2 < 0x2_0000_0000_0000_0000,
                n == 0 || (unit * (n - 1)) * (unit * (n - 1)) < len2,
            decreases 0x2_0000_0000 - n,
        {
            assert(0 <= unit * n <= 0x2_0000_0000_0000_0000) by (nonlinear_arith)
                requires
                    0 <= n <= 0x2_0000_0000,
                    1 <= unit < 0x1_0000_0000,
            ;
            let span = unit * n;
            if span >= 0x2_0000_0000 {
                assert(span * span >= len2) by (nonlinear_arith)
                    requires
                        span >= 0x2_0000_0000,
                        len2 < 0x2_0000_0000_0000_0000,
                ;
                proof {
                    lemma_step_count_unique(*self, unit as int, n as int);
                }
                return n;
            }
            assert(0 <= span * span < 0x4_0000_0000_0000_0000) by (nonlinear_arith)
                requires
                    0 <= span < 0x2_0000_0000,
            ;
            if span * span >= len2 {
                proof {
                    lemma_step_count_unique(*self, unit as int, n as int);
                }
                return n;
            }
            assert(n < 0x2_0000_0000) by (nonlinear_arith)
                requires
                    span == unit * n,
                    span < 0x2_0000_0000,
                    unit >= 1,
                    n >= 0,
            ;
            n += 1;
        }
    }

    /// The sample points along the road, `step` apart: the start point, then one
    /// every `step` of the road's length, then the exact stop point.
    pub fn segment(&self, step: u32) -> (r: Vec<SamplePoint>)
        requires
            step > 0,
        ensures
            r.len() == self.step_count(step as int) + 1,
            forall|k: int| 0 <= k < r.len() ==> r[k] == self.sample(r.len() - 1, k),
            forall|k: int| 0 <= k < r.len() ==> in_bounds(#[trigger] r[k]),
    {
        let n = self.segment_count(step);
        let start_lat = self.start_lat as i128;
        let start_lon = self.start_lon as i128;
        let dlat = self.stop_lat as i128 - start_lat;
        let dlon = self.stop_lon as i128 - start_lon;
        let mut r: Vec<SamplePoint> = Vec::new();
        let mut k: i128 = 0;
        while k < n
            invariant
                0 <= k <= n <= 0x2_0000_0000,
                n == self.step_count(step as int),
                start_lat == self.start_lat,
                start_lon == self.start_lon,
                dlat == self.delta_lat(),
                dlon == self.delta_lon(),
                r.len() == k,
                forall|j: int| 0 <= j < k ==> r[j] == self.sample(n as int, j),
                forall|j: int| 0 <= j < k ==> in_bounds(#[trigger] r[j]),
            decreases n - k,
        {
            proof {
                lemma_sample_bound(start_lat as int, dlat as int, n as int, k as int);
                lemma_sample_bound(start_lon as int, dlon as int, n as int, k as int);
            }
            let p = SamplePoint {
                lat_num: start_lat * n + k * dlat,
                lon_num: start_lon * n + k * dlon,
                den: n,
            };
            r.push(p);
            k += 1;
        }
        r.push(
            SamplePoint { lat_num: self.stop_lat as i128, lon_num: self.stop_lon as i128, den: 1 },
        );
        r
    }
}

/// `(x, y)` lies within `ROAD_HIT_RADIUS` of one of the road's sample points,
/// taken `SEGMENT_STEP` apart.
pub open spec fn road_is_hit(road: Road, x: int, y: int) -> bool {
    let n = road.step_count(SEGMENT_STEP as int);
    exists|k: int| 0 <= k <= n && spec_within(#[trigger] road.sample(n, k), x, y, ROAD_HIT_RADIUS as int)
}

/// `(x, y)` lies within `INTERSECTION_HIT_RADIUS` of the intersection.
pub open spec fn intersection_is_hit(i: Intersection, x: int, y: int) -> bool {
    let dx = i.lat - x;
    let dy = i.lon - y;
    dx * dx + dy * dy <= INTERSECTION_HIT_RADIUS * INTERSECTION_HIT_RADIUS
}

/// The identifiers of the roads of `s` that `(x, y)` hits, in order. Roads
/// without an identifier are passed over.
pub open spec fn road_hit_ids(s: Seq<Road>, x: int, y: int) -> Seq<i32>
    decreases s.len(),
{
    if s.len() == 0 {
        Seq::empty()
    } else {
        let rest = road_hit_ids(s.drop_last(), x, y);
        let road = s.last();
        if road._id is Some && road_is_hit(road, x, y) {
            rest.push(road._id.unwrap())
        } else {
            rest
        }
    }
}

/// The identifiers of the intersections of `s` that `(x, y)` hits, in order.
/// Intersections without an identifier are passed over.
pub open spec fn intersection_hit_ids(s: Seq<Intersection>, x: int, y: int) -> Seq<i32>
    decreases s.len(),
{
    if s.len() == 0 {
        Seq::empty()
    } else {
        let rest = intersection_hit_ids(s.drop_last(), x, y);
        let i = s.last();
        if i._id is Some && intersection_is_hit(i, x, y) {
            rest.push(i._id.unwrap())
        } else {
            rest
        }
    }
}

/// Whether `(x, y)` lies within `ROAD_HIT_RADIUS` of one of the road's sample
/// points. The scan stops at the first sample that is close enough.
pub fn road_hit(road: &Road, x: i32, y: i32) -> (r: bool)
    ensures
        r == road_is_hit(*road, x as int, y as int),
{
    let samples = road.segment(SEGMENT_STEP);
    let ghost n = road.step_count(SEGMENT_STEP as int);
    let mut k: usize = 0;
    while k < samples.len()
        invariant
            0 <= k <= samples.len(),
            n == road.step_count(SEGMENT_STEP as int),
            samples.len() == n + 1,
            forall|j: int| 0 <= j < samples.len() ==> samples[j] == road.sample(n, j),
            forall|j: int| 0 <= j < samples.len() ==> in_bounds(#[trigger] samples[j]),
            forall|j: int|
                0 <= j < k ==> !spec_within(
                    #[trigger] road.sample(n, j),
                    x as int,
                    y as int,
                    ROAD_HIT_RADIUS as int,
                ),
        decreases samples.len() - k,
    {
        if within(&samples[k], x, y, ROAD_HIT_RADIUS) {
            assert(spec_within(road.sample(n, k as int), x as int, y as int, ROAD_HIT_RADIUS as int));
            assert(0 <= k <= n);
            return true;
        }
        k += 1;
    }
    false
}

/// Whether `(x, y)` lies within `INTERSECTION_HIT_RADIUS` of the intersection.
pub fn intersection_hit(i: &Intersection, x: i32, y: i32) -> (r: bool)
    ensures
        r == intersection_is_hit(*i, x as int, y as int),
{
    let p = SamplePoint { lat_num: i.lat as i128, lon_num: i.lon as i128, den: 1 };
    within(&p, x, y, INTERSECTION_HIT_RADIUS)
}

/// The identifiers of the stored roads that `(x, y)` hits, in store order.
pub fn hit_roads(roads: &RoadManager, x: i32, y: i32) -> (r: Vec<i32>)
    ensures
        r@ == road_hit_ids(roads.items(), x as int, y as int),
{
    let mut r: Vec<i32> = Vec::new();
    if let Some(cache) = &roads.cache {
        let mut k: usize = 0;
        while k < cache.len()
            invariant
                0 <= k <= cache.len(),
                roads.items() == cache@,
                r@ == road_hit_ids(cache@.subrange(0, k as int), x as int, y as int),
            decreases cache.len() - k,
        {
            let road = &cache[k];
            assert(cache@.subrange(0, k + 1).drop_last() == cache@.subrange(0, k as int));
            if let Some(id) = road._id {
                if road_hit(road, x, y) {
                    r.push(id);
                }
            }
            k += 1;
        }
        assert(cache@.subrange(0, cache.len() as int) == cache@);
    }
    r
}

/// The identifiers of the stored intersections that `(x, y)` hits, in store order.
pub fn hit_intersections(intersections: &IntersectionManager, x: i32, y: i32) -> (r: Vec<i32>)
    ensures
        r@ == intersection_hit_ids(intersections.items(), x as int, y as int),
{
    let mut r: Vec<i32> = Vec::new();
    if let Some(cache) = &intersections.cache {
        let mut k: usize = 0;
        while k < cache.len()
            invariant
                0 <= k <= cache.len(),
                intersections.items() == cache@,
                r@ == intersection_hit_ids(cache@.subrange(0, k as int), x as int, y as int),
            decreases cache.len() - k,
        {
            let i = &cache[k];
            assert(cache@.subrange(0, k + 1).drop_last() == cache@.subrange(0, k as int));
            if let Some(id) = i._id {
                if intersection_hit(i, x, y) {
                    r.push(id);
                }
            }
            k += 1;
        }
        assert(cache@.subrange(0, cache.len() as int) == cache@);
    }
    r
}

proof fn lemma_sample_bound(start: int, delta: int, n: int, k: int)
    requires
        -0x8000_0000 <= start < 0x8000_0000,
        -0x1_0000_0000 < delta < 0x1_0000_0000,
        0 <= k < n <= 0x2_0000_0000,
    ensures
        -0x1_0000_0000_0000_0000 <= start * n <= 0x1_0000_0000_0000_0000,
        -0x2_0000_0000_0000_0000 <= k * delta <= 0x2_0000_0000_0000_0000,
{
    assert(-0x1_0000_0000_0000_0000 <= start * n <= 0x1_0000_0000_0000_0000) by (nonlinear_arith)
        requires
            -0x8000_0000 <= start < 0x8000_0000,
            0 < n <= 0x2_0000_0000,
    ;
    assert(-0x2_0000_0000_0000_0000 <= k * delta <= 0x2_0000_0000_0000_0000) by (nonlinear_arith)
        requires
            -0x1_0000_0000 < delta < 0x1_0000_0000,
            0 <= k < 0x2_0000_0000,
    ;
}

/// A road has one step count for each step length.
pub proof fn lemma_step_count_unique(road: Road, step: int, n: int)
    requires
        step >= 1,
        road.is_step_count(step, n),
    ensures
        road.step_count(step) == n,
{
    let m = road.step_count(step);
    assert(road.is_step_count(step, m));
    let len2 = road.spec_length_squared();
    if m < n {
        assert((step * m) * (step * m) <= (step * (n - 1)) * (step * (n - 1))) by (nonlinear_arith)
            requires
                0 <= m <= n - 1,
                step >= 1,
        ;
    } else if n < m {
        assert((step * n) * (step * n) <= (step * (m - 1)) * (step * (m - 1))) by (nonlinear_arith)
            requires
                0 <= n <= m - 1,
                step >= 1,
        ;
    }
}

} // verus!
