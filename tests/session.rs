use rust_route::editor::Editor;
use rust_route::get_road_manager;
use rust_route::intersection::Intersection;
use rust_route::logger::LogLevel;
use rust_route::session::{drawn_road, next_mode, Action, InputEvent, InputState, Mode, Point};

fn p(x: i32, y: i32) -> Point {
    Point { x, y }
}

fn run(state: &mut InputState, editor: &mut Editor, events: &[InputEvent]) {
    for e in events {
        let (next, action) = state.next(*e);
        *state = next;
        editor.apply(action);
    }
}

#[test]
fn starts_drawing_roads() {
    let s = InputState::new();
    assert_eq!(s.mode, Mode::DrawRoad);
    assert_eq!(s.state_counter, 1);
    assert!(!s.draw_road && !s.draw_intersection);
    assert_eq!(s.start_point, None);
    assert_eq!(s.road_to_draw, (p(0, 0), p(0, 0)));
}

#[test]
fn mode_key_cycles_modes() {
    assert_eq!(next_mode(Mode::DrawRoad), Mode::DrawIntersection);
    assert_eq!(next_mode(Mode::DrawIntersection), Mode::Destroy);
    assert_eq!(next_mode(Mode::Destroy), Mode::DrawRoad);
    let mut s = InputState::new();
    s.state_counter = 6;
    s.draw_road = true;
    let (s, action) = s.next(InputEvent::NextMode);
    assert!(matches!(action, Action::Nothing));
    assert_eq!(s.mode, Mode::DrawIntersection);
    assert_eq!(s.state_counter, 1);
    assert!(!s.draw_road);
}

#[test]
fn two_clicks_draw_a_road() {
    let mut s = InputState::new();
    let mut editor = Editor::new(LogLevel::Info);
    run(&mut s, &mut editor, &[InputEvent::MousePress, InputEvent::MouseRelease]);
    assert!(s.draw_road);
    assert_eq!(s.state_counter, 2);
    run(&mut s, &mut editor, &[InputEvent::Cursor(p(3, 4)), InputEvent::Cursor(p(30, 40))]);
    assert_eq!(s.start_point, Some(p(3, 4)));
    assert_eq!(s.road_to_draw, (p(3, 4), p(30, 40)));
    run(&mut s, &mut editor, &[InputEvent::MousePress, InputEvent::MouseRelease]);
    assert!(!s.draw_road);
    assert_eq!(s.road_to_draw, (p(0, 0), p(0, 0)));
    let roads = get_road_manager(&editor).cache.as_ref().unwrap();
    assert_eq!(roads.len(), 1);
    let r = &roads[0];
    assert_eq!(r._id, Some(1));
    assert_eq!(r.name, "test");
    assert_eq!(r.road_type, "asphalt");
    assert_eq!((r.start_lat, r.start_lon, r.stop_lat, r.stop_lon), (3, 4, 30, 40));
    assert_eq!((r.speed_limit, r.lane_count), (50, 1));
}

#[test]
fn two_clicks_place_an_intersection() {
    let mut s = InputState::new();
    let mut editor = Editor::new(LogLevel::Info);
    run(&mut s, &mut editor, &[InputEvent::NextMode, InputEvent::MousePress, InputEvent::MouseRelease]);
    assert!(s.draw_intersection);
    run(&mut s, &mut editor, &[InputEvent::Cursor(p(12, 13))]);
    assert_eq!(s.intersection_to_draw, p(12, 13));
    run(&mut s, &mut editor, &[InputEvent::MousePress, InputEvent::MouseRelease]);
    assert_eq!(s.intersection_to_draw, p(0, 0));
    assert_eq!(
        rust_route::get_intersection_manager(&editor).cache,
        Some(vec![Intersection { _id: Some(1), lat: 12, lon: 13, traffic_lights: false }])
    );
}

#[test]
fn click_in_destroy_mode_destroys_at_the_cursor() {
    let mut s = InputState::new();
    s.mode = Mode::Destroy;
    let (s, action) = s.next(InputEvent::Cursor(p(5, 6)));
    assert!(matches!(action, Action::Nothing));
    let (_, action) = s.next(InputEvent::MouseRelease);
    assert!(matches!(action, Action::DestroyAt(q) if q == p(5, 6)));
}

#[test]
fn undo_key_undoes() {
    let mut s = InputState::new();
    let mut editor = Editor::new(LogLevel::Info);
    run(
        &mut s,
        &mut editor,
        &[
            InputEvent::MousePress,
            InputEvent::MouseRelease,
            InputEvent::Cursor(p(1, 1)),
            InputEvent::MousePress,
            InputEvent::MouseRelease,
        ],
    );
    assert_eq!(get_road_manager(&editor).cache.as_ref().unwrap().len(), 1);
    let (_, action) = s.next(InputEvent::Undo);
    assert!(matches!(action, Action::Undo));
    editor.apply(action);
    assert_eq!(get_road_manager(&editor).cache, Some(vec![]));
}

#[test]
fn press_count_wraps_before_overflow() {
    let mut s = InputState::new();
    s.state_counter = u64::MAX - 10;
    let (s, _) = s.next(InputEvent::MousePress);
    assert_eq!(s.state_counter, 2);
    let (s, _) = s.next(InputEvent::MousePress);
    assert_eq!(s.state_counter, 3);
}

#[test]
fn drawn_road_fields() {
    let r = drawn_road((p(1, 2), p(3, 4)));
    assert_eq!(r._id, None);
    assert_eq!(r.get_points(), [1, 2, 3, 4]);
    assert_eq!(r.name, "test");
}
