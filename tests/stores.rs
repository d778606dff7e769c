use rust_route::intersection::{Intersection, IntersectionManager};
use rust_route::road::{Road, RoadManager};

fn road(name: &str) -> Road {
    Road {
        _id: None,
        name: name.to_string(),
        start_lat: 0,
        stop_lat: 10,
        start_lon: 0,
        stop_lon: 10,
        speed_limit: 50,
        lane_count: 1,
        road_type: "asphalt".to_string(),
    }
}

fn ids(manager: &RoadManager) -> Vec<Option<i32>> {
    manager.cache.as_ref().unwrap().iter().map(|r| r._id).collect()
}

#[test]
fn new_store_is_empty() {
    let roads = RoadManager::new();
    assert_eq!(roads.cache, Some(vec![]));
    let intersections = IntersectionManager::new();
    assert_eq!(intersections.cache, Some(vec![]));
}

#[test]
fn create_assigns_distinct_smallest_ids() {
    let mut roads = RoadManager::new();
    let a = roads.create(road("a"));
    let b = roads.create(road("b"));
    let c = roads.create(road("c"));
    assert_eq!(a._id, Some(1));
    assert_eq!(b._id, Some(2));
    assert_eq!(c._id, Some(3));
    assert_eq!(ids(&roads), vec![Some(1), Some(2), Some(3)]);
}

#[test]
fn create_returns_the_stored_copy() {
    let mut roads = RoadManager::new();
    let stored = roads.create(road("main"));
    assert_eq!(stored.name, "main");
    assert_eq!(roads.resolve(1), Some(&stored));
}

#[test]
fn create_fills_the_smallest_gap() {
    let mut roads = RoadManager::new();
    for name in ["a", "b", "c", "d"] {
        roads.create(road(name));
    }
    roads.destroy(2);
    roads.destroy(1);
    let next = roads.create(road("e"));
    assert_eq!(next._id, Some(1));
    let next = roads.create(road("f"));
    assert_eq!(next._id, Some(2));
    let next = roads.create(road("g"));
    assert_eq!(next._id, Some(5));
    assert_eq!(ids(&roads), vec![Some(3), Some(4), Some(1), Some(2), Some(5)]);
}

#[test]
fn create_skips_ids_held_by_loaded_roads() {
    let mut roads = RoadManager::new();
    let mut seeded = road("seed");
    seeded._id = Some(1);
    let mut unnumbered = road("plain");
    unnumbered._id = None;
    roads.load(vec![seeded, unnumbered]);
    let next = roads.create(road("new"));
    assert_eq!(next._id, Some(2));
}

#[test]
fn resolve_finds_the_first_match() {
    let mut first = road("first");
    first._id = Some(7);
    let mut second = road("second");
    second._id = Some(7);
    let mut roads = RoadManager::new();
    roads.load(vec![first, second]);
    assert_eq!(roads.resolve(7).unwrap().name, "first");
    assert_eq!(roads.resolve(8), None);
}

#[test]
fn resolve_on_uninitialised_store_is_none() {
    let roads = RoadManager { cache: None };
    assert_eq!(roads.resolve(1), None);
}

#[test]
fn destroyed_id_no_longer_resolves() {
    let mut roads = RoadManager::new();
    roads.create(road("a"));
    let b = roads.create(road("b"));
    roads.create(road("c"));
    let id = b._id.unwrap();
    roads.destroy(id);
    assert_eq!(roads.resolve(id), None);
    assert_eq!(ids(&roads), vec![Some(1), Some(3)]);
}

#[test]
fn destroy_removes_only_the_first_match() {
    let mut first = road("first");
    first._id = Some(4);
    let mut second = road("second");
    second._id = Some(4);
    let mut roads = RoadManager::new();
    roads.load(vec![first, second]);
    roads.destroy(4);
    let left = roads.cache.as_ref().unwrap();
    assert_eq!(left.len(), 1);
    assert_eq!(left[0].name, "second");
}

#[test]
fn destroy_negative_id_is_a_no_op() {
    let mut roads = RoadManager::new();
    roads.create(road("a"));
    roads.create(road("b"));
    roads.destroy(-1);
    assert_eq!(ids(&roads), vec![Some(1), Some(2)]);

    let mut odd = road("odd");
    odd._id = Some(-1);
    roads.load(vec![odd]);
    roads.destroy(-1);
    assert_eq!(ids(&roads), vec![Some(-1)]);

    let mut intersections = IntersectionManager::new();
    intersections.create(Intersection { _id: None, lat: 1, lon: 1, traffic_lights: false });
    intersections.destroy(-1);
    assert_eq!(intersections.cache.as_ref().unwrap().len(), 1);
}

#[test]
fn destroy_unknown_id_is_a_no_op() {
    let mut roads = RoadManager::new();
    roads.create(road("a"));
    roads.destroy(9);
    assert_eq!(ids(&roads), vec![Some(1)]);
}

#[test]
fn reset_empties_the_store() {
    let mut roads = RoadManager::new();
    roads.create(road("a"));
    roads.reset();
    assert_eq!(roads.cache, Some(vec![]));
    let mut uninitialised = RoadManager { cache: None };
    uninitialised.reset();
    assert_eq!(uninitialised.cache, Some(vec![]));
}

#[test]
fn store_then_load_gives_the_same_collection() {
    let mut roads = RoadManager::new();
    roads.create(road("a"));
    roads.create(road("b"));
    roads.create(road("c"));
    roads.destroy(2);
    let written = roads.store();
    let mut reloaded = RoadManager { cache: None };
    reloaded.load(written);
    assert_eq!(reloaded.cache, roads.cache);

    let mut intersections = IntersectionManager::new();
    intersections.create(Intersection { _id: None, lat: 3, lon: 4, traffic_lights: true });
    intersections.create(Intersection { _id: None, lat: 5, lon: 6, traffic_lights: false });
    let written = intersections.store();
    let mut reloaded = IntersectionManager { cache: None };
    reloaded.load(written);
    assert_eq!(reloaded.cache, intersections.cache);
}

#[test]
fn load_keeps_order_and_ids() {
    let mut a = road("a");
    a._id = Some(5);
    let mut b = road("b");
    b._id = Some(2);
    let mut roads = RoadManager::new();
    roads.create(road("gone"));
    roads.load(vec![a, b]);
    assert_eq!(ids(&roads), vec![Some(5), Some(2)]);
}

#[test]
fn intersection_create_and_destroy() {
    let mut intersections = IntersectionManager::new();
    let a = intersections.create(Intersection { _id: Some(40), lat: 1, lon: 2, traffic_lights: true });
    assert_eq!(a, Intersection { _id: Some(1), lat: 1, lon: 2, traffic_lights: true });
    let b = intersections.create(Intersection { _id: None, lat: 3, lon: 4, traffic_lights: false });
    assert_eq!(b._id, Some(2));
    intersections.destroy(1);
    assert_eq!(intersections.resolve(1), None);
    assert_eq!(intersections.resolve(2), Some(&b));
    let c = intersections.create(Intersection { _id: None, lat: 5, lon: 6, traffic_lights: false });
    assert_eq!(c._id, Some(1));
}

#[test]
fn get_points_orders_start_then_stop() {
    let r = Road {
        _id: None,
        name: "r".to_string(),
        start_lat: 1,
        stop_lat: 3,
        start_lon: 2,
        stop_lon: 4,
        speed_limit: 30,
        lane_count: 2,
        road_type: "dirt".to_string(),
    };
    assert_eq!(r.get_points(), [1, 2, 3, 4]);
}
