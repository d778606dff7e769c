use rust_route::editor::Editor;
use rust_route::history::{
    HistoryEntry, HistoryEntryData, HistoryEntryType, HistoryManager, Manager, HISTORY_CAP,
};
use rust_route::intersection::{Intersection, IntersectionManager};
use rust_route::logger::LogLevel;
use rust_route::road::{Road, RoadManager};
use rust_route::{get_history_manager, get_intersection_manager, get_logger, get_road_manager};

fn road(name: &str) -> Road {
    Road {
        _id: None,
        name: name.to_string(),
        start_lat: 0,
        stop_lat: 30,
        start_lon: 0,
        stop_lon: 40,
        speed_limit: 50,
        lane_count: 2,
        road_type: "gravel".to_string(),
    }
}

fn road_ids(editor: &Editor) -> Vec<Option<i32>> {
    get_road_manager(editor).cache.as_ref().unwrap().iter().map(|r| r._id).collect()
}

#[test]
fn undo_after_create_leaves_empty_store() {
    let mut editor = Editor::new(LogLevel::Info);
    let id = editor.create_road(road("r"));
    assert_eq!(id, 1);
    editor.undo();
    assert_eq!(get_road_manager(&editor).cache, Some(vec![]));
}

#[test]
fn undo_after_destroy_restores_the_road() {
    let mut editor = Editor::new(LogLevel::Info);
    let mut a = road("A");
    a._id = Some(1);
    editor.load_roads(vec![a.clone()]);
    assert!(editor.destroy_road(1));
    assert_eq!(get_road_manager(&editor).cache, Some(vec![]));
    editor.undo();
    let roads = get_road_manager(&editor).cache.as_ref().unwrap();
    assert_eq!(roads.len(), 1);
    assert_eq!(roads[0], a);
}

#[test]
fn undo_after_destroy_takes_the_smallest_free_id() {
    let mut editor = Editor::new(LogLevel::Info);
    editor.create_road(road("a"));
    editor.create_road(road("b"));
    assert!(editor.destroy_road(1));
    editor.create_road(road("c"));
    editor.undo();
    assert_eq!(road_ids(&editor), vec![Some(2)]);
    editor.undo();
    let roads = get_road_manager(&editor).cache.as_ref().unwrap();
    assert_eq!(roads.len(), 2);
    assert_eq!(roads[1].name, "a");
    assert_eq!(roads[1]._id, Some(1));
}

#[test]
fn history_keeps_only_the_fifteen_newest() {
    let mut editor = Editor::new(LogLevel::Info);
    for k in 0..20 {
        editor.create_road(road(&format!("r{}", k)));
    }
    assert_eq!(road_ids(&editor).len(), 20);
    for _ in 0..16 {
        editor.undo();
    }
    assert_eq!(road_ids(&editor), vec![Some(1), Some(2), Some(3), Some(4), Some(5)]);
    let names: Vec<String> = get_road_manager(&editor)
        .cache
        .as_ref()
        .unwrap()
        .iter()
        .map(|r| r.name.clone())
        .collect();
    assert_eq!(names, vec!["r0", "r1", "r2", "r3", "r4"]);
}

#[test]
fn undo_on_empty_history_does_nothing() {
    let mut editor = Editor::new(LogLevel::Info);
    let mut a = road("A");
    a._id = Some(3);
    editor.load_roads(vec![a.clone()]);
    editor.undo();
    assert_eq!(get_road_manager(&editor).cache, Some(vec![a]));
}

#[test]
fn undo_is_not_recorded() {
    let mut editor = Editor::new(LogLevel::Info);
    editor.create_road(road("a"));
    editor.create_road(road("b"));
    editor.undo();
    editor.undo();
    editor.undo();
    assert_eq!(get_road_manager(&editor).cache, Some(vec![]));
}

#[test]
fn destroy_road_reports_whether_found() {
    let mut editor = Editor::new(LogLevel::Info);
    editor.create_road(road("a"));
    assert!(!editor.destroy_road(-1));
    assert!(!editor.destroy_road(5));
    assert_eq!(road_ids(&editor), vec![Some(1)]);
    editor.undo();
    assert_eq!(road_ids(&editor), Vec::<Option<i32>>::new());
}

#[test]
fn intersection_edits_are_undone() {
    let mut editor = Editor::new(LogLevel::Info);
    let i = Intersection { _id: None, lat: 7, lon: 8, traffic_lights: true };
    assert_eq!(editor.create_intersection(i), 1);
    assert_eq!(editor.create_intersection(i), 2);
    assert!(editor.destroy_intersection(1));
    let left = get_intersection_manager(&editor).cache.clone().unwrap();
    assert_eq!(left, vec![Intersection { _id: Some(2), lat: 7, lon: 8, traffic_lights: true }]);
    editor.undo();
    let back = get_intersection_manager(&editor).cache.clone().unwrap();
    assert_eq!(back.len(), 2);
    assert_eq!(back[1], Intersection { _id: Some(1), lat: 7, lon: 8, traffic_lights: true });
    editor.undo();
    editor.undo();
    assert_eq!(get_intersection_manager(&editor).cache, Some(vec![]));
}

#[test]
fn history_manager_drops_the_oldest_past_the_cap() {
    let mut history = HistoryManager::new();
    let mut roads = RoadManager::new();
    let mut intersections = IntersectionManager::new();
    for k in 1..=(HISTORY_CAP as i32 + 1) {
        let mut r = road("r");
        r._id = Some(k);
        history.create(HistoryEntry {
            data: HistoryEntryData::Road(r),
            entry_type: HistoryEntryType::Destroy,
            manager: Manager::Road,
        });
    }
    for _ in 0..(HISTORY_CAP + 3) {
        history.undo(&mut roads, &mut intersections);
    }
    let restored = roads.cache.as_ref().unwrap();
    assert_eq!(restored.len(), HISTORY_CAP);
    assert_eq!(HISTORY_CAP, 15);
}

#[test]
fn history_undo_dispatches_on_the_named_store() {
    let mut history = HistoryManager::new();
    let mut roads = RoadManager::new();
    let mut intersections = IntersectionManager::new();
    let created = intersections.create(Intersection { _id: None, lat: 1, lon: 1, traffic_lights: false });
    roads.create(road("stays"));
    history.create(HistoryEntry {
        data: HistoryEntryData::Intersection(created),
        entry_type: HistoryEntryType::Create,
        manager: Manager::Intersection,
    });
    history.undo(&mut roads, &mut intersections);
    assert_eq!(intersections.cache, Some(vec![]));
    assert_eq!(roads.cache.as_ref().unwrap().len(), 1);
}

#[test]
fn editor_getters() {
    let mut editor = Editor::new(LogLevel::Warn);
    assert!(get_logger(&editor).enabled(LogLevel::Error));
    assert!(!get_logger(&editor).enabled(LogLevel::Info));
    editor.create_road(road("a"));
    assert_eq!(road_ids(&editor), vec![Some(1)]);
    assert_eq!(get_intersection_manager(&editor).cache, Some(vec![]));
    let _history = get_history_manager(&editor);
}

#[test]
fn reset_and_load_are_not_recorded() {
    let mut editor = Editor::new(LogLevel::Info);
    editor.create_road(road("a"));
    editor.reset_roads();
    assert_eq!(road_ids(&editor), Vec::<Option<i32>>::new());
    editor.load_intersections(vec![Intersection { _id: Some(9), lat: 0, lon: 0, traffic_lights: false }]);
    editor.reset_intersections();
    assert_eq!(get_intersection_manager(&editor).cache, Some(vec![]));
    editor.undo();
    assert_eq!(road_ids(&editor), Vec::<Option<i32>>::new());
}
