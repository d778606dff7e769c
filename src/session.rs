//! The editing session's input handling: from the current input state and one
//! input event to the next state and the edit to carry out.
use crate::intersection::Intersection;
use crate::road::Road;
use vstd::prelude::*;

verus! {

/// A point on the canvas, in whole canvas units.
#[derive(Debug, Clone, Copy, PartialEq, Eq)]
pub struct Point {
    pub x: i32,
    pub y: i32,
}

/// The origin; a preview at the origin is not drawn.
pub open spec fn origin() -> Point {
    Point { x: 0, y: 0 }
}

/// What a left click does.
#[derive(Debug, Clone, Copy, PartialEq, Eq)]
pub enum Mode {
    DrawRoad,
    DrawIntersection,
    Destroy,
}

/// One input event, as the session reads it.
#[derive(Debug, Clone, Copy, PartialEq, Eq)]
pub enum InputEvent {
    /// The left mouse button went down.
    MousePress,
    /// The left mouse button came up.
    MouseRelease,
    /// The cursor moved to a point.
    Cursor(Point),
    /// The key that switches to the next mode.
    NextMode,
    /// The key that undoes the last edit.
    Undo,
    /// Anything else.
    Other,
}

/// The edit that an event calls for.
#[derive(Debug)]
pub enum Action {
    Nothing,
    CreateRoad(Road),
    CreateIntersection(Intersection),
    DestroyAt(Point),
    Undo,
}

/// The mode that the mode key switches to.
pub open spec fn spec_next_mode(m: Mode) -> Mode {
    match m {
        Mode::DrawRoad => Mode::DrawIntersection,
        Mode::DrawIntersection => Mode::Destroy,
        Mode::Destroy => Mode::DrawRoad,
    }
}

/// The road a finished drag creates: from the first to the second point of
/// `line`, named "test", one lane, speed limit 50, asphalt.
pub open spec fn is_drawn_road(road: Road, line: (Point, Point)) -> bool {
    &&& road._id is None
    &&& road.name@ == seq!['t', 'e', 's', 't']
    &&& road.start_lat == line.0.x
    &&& road.start_lon == line.0.y
    &&& road.stop_lat == line.1.x
    &&& road.stop_lon == line.1.y
    &&& road.lane_count == 1
    &&& road.speed_limit == 50
    &&& road.road_type@ == seq!['a', 's', 'p', 'h', 'a', 'l', 't']
}

/// The input side of an editing session.
#[derive(Debug, Clone, Copy, PartialEq, Eq)]
pub struct InputState {
    pub mode: Mode,
    /// Counts left presses since the last mode switch, from 1; a release after
    /// an odd number of presses starts a drawing, after an even number ends it.
    pub state_counter: u64,
    pub draw_road: bool,
    pub draw_intersection: bool,
    pub start_point: Option<Point>,
    /// The road being drawn, as a preview.
    pub road_to_draw: (Point, Point),
    /// The intersection being placed, as a preview.
    pub intersection_to_draw: Point,
    pub latest_mouse_pos: Point,
}

impl InputState {
    /// The state after `e`: the press count, the cursor, the drawing flags on a
    /// release, the previews, and the mode switch, in that order.
    pub open spec fn spec_next(self, e: InputEvent) -> InputState {
        let s1 = match e {
            InputEvent::MousePress => InputState {
                state_counter: if self.state_counter >= u64::MAX - 10 {
                    2
                } else {
                    (self.state_counter + 1) as u64
                },
                ..self
            },
            _ => self,
        };
        let s2 = match e {
            InputEvent::Cursor(p) => InputState { latest_mouse_pos: p, ..s1 },
            _ => s1,
        };
        let starts = s2.state_counter % 2 == 0;
        let s3 = match e {
            InputEvent::MouseRelease => match s2.mode {
                Mode::DrawRoad => InputState { draw_road: starts, start_point: None, ..s2 },
                Mode::DrawIntersection => InputState { draw_intersection: starts, ..s2 },
                Mode::Destroy => s2,
            },
            _ => s2,
        };
        let s4 = if s3.draw_road {
            match e {
                InputEvent::Cursor(p) => {
                    let start = match s3.start_point {
                        Some(q) => q,
                        None => p,
                    };
                    InputState { start_point: Some(start), road_to_draw: (start, p), ..s3 }
                },
                _ => s3,
            }
        } else {
            InputState { road_to_draw: (origin(), origin()), ..s3 }
        };
        let s5 = if s4.draw_intersection {
            match e {
                InputEvent::Cursor(p) => InputState { intersection_to_draw: p, ..s4 },
                _ => s4,
            }
        } else {
            InputState { intersection_to_draw: origin(), ..s4 }
        };
        match e {
            InputEvent::NextMode => InputState {
                mode: spec_next_mode(s5.mode),
                state_counter: 1,
                draw_road: false,
                draw_intersection: false,
                start_point: None,
                ..s5
            },
            _ => s5,
        }
    }

    /// `a` is the edit that `e` calls for: a release ends a drawing by creating
    /// the previewed road or intersection, or destroys what lies at the cursor;
    /// the undo key undoes.
    pub open spec fn is_action(self, e: InputEvent, a: Action) -> bool {
        match e {
            InputEvent::MouseRelease => match self.mode {
                Mode::DrawRoad => if self.state_counter % 2 == 0 {
                    a is Nothing
                } else {
                    a matches Action::CreateRoad(road) && is_drawn_road(road, self.road_to_draw)
                },
                Mode::DrawIntersection => if self.state_counter % 2 == 0 {
                    a is Nothing
                } else {
                    a == Action::CreateIntersection(
                        Intersection {
                            _id: None,
                            lat: self.intersection_to_draw.x,
                            lon: self.intersection_to_draw.y,
                            traffic_lights: false,
                        },
                    )
                },
                Mode::Destroy => a == Action::DestroyAt(self.latest_mouse_pos),
            },
            InputEvent::Undo => a is Undo,
            _ => a is Nothing,
        }
    }

    /// The state a session starts in: drawing roads, nothing pressed.
    pub fn new() -> (r: InputState)
        ensures
            r.mode == Mode::DrawRoad,
            r.state_counter == 1,
            !r.draw_road,
            !r.draw_intersection,
            r.start_point is None,
            r.road_to_draw == (origin(), origin()),
            r.intersection_to_draw == origin(),
            r.latest_mouse_pos == origin(),
    {
        let zero = Point { x: 0, y: 0 };
        InputState {
            mode: Mode::DrawRoad,
            state_counter: 1,
            draw_road: false,
            draw_intersection: false,
            start_point: None,
            road_to_draw: (zero, zero),
            intersection_to_draw: zero,
            latest_mouse_pos: zero,
        }
    }

    /// The next state after `e`, and the edit that `e` calls for.
    pub fn next(&self, e: InputEvent) -> (r: (InputState, Action))
        ensures
            r.0 == self.spec_next(e),
            self.is_action(e, r.1),
    {
        let zero = Point { x: 0, y: 0 };
        let mut s = *self;
        if let InputEvent::MousePress = e {
            if s.state_counter >= u64::MAX - 10 {
                s.state_counter = 1;
            }
            s.state_counter = s.state_counter + 1;
        }
        if let InputEvent::Cursor(p) = e {
            s.latest_mouse_pos = p;
        }
        let mut action = Action::Nothing;
        if let InputEvent::MouseRelease = e {
            let starts = s.state_counter % 2 == 0;
            match s.mode {
                Mode::DrawRoad => {
                    if !starts {
                        action = Action::CreateRoad(drawn_road(s.road_to_draw));
                    }
                    s.draw_road = starts;
                    s.start_point = None;
                },
                Mode::DrawIntersection => {
                    if !starts {
                        action = Action::CreateIntersection(
                            Intersection {
                                _id: None,
                                lat: s.intersection_to_draw.x,
                                lon: s.intersection_to_draw.y,
                                traffic_lights: false,
                            },
                        );
                    }
                    s.draw_intersection = starts;
                },
                Mode::Destroy => {
                    action = Action::DestroyAt(s.latest_mouse_pos);
                },
            }
        }
        if s.draw_road {
            if let InputEvent::Cursor(p) = e {
                let start = match s.start_point {
                    Some(q) => q,
                    None => p,
                };
                s.start_point = Some(start);
                s.road_to_draw = (start, p);
            }
        } else {
            s.road_to_draw = (zero, zero);
        }
        if s.draw_intersection {
            if let InputEvent::Cursor(p) = e {
                s.intersection_to_draw = p;
            }
        } else {
            s.intersection_to_draw = zero;
        }
        match e {
            InputEvent::NextMode => {
                s.state_counter = 1;
                s.draw_road = false;
                s.draw_intersection = false;
                s.start_point = None;
                s.mode = next_mode(s.mode);
            },
            InputEvent::Undo => {
                action = Action::Undo;
            },
            _ => {},
        }
        (s, action)
    }
}

/// The mode that the mode key switches to.
pub fn next_mode(m: Mode) -> (r: Mode)
    ensures
        r == spec_next_mode(m),
{
    match m {
        Mode::DrawRoad => Mode::DrawIntersection,
        Mode::DrawIntersection => Mode::Destroy,
        Mode::Destroy => Mode::DrawRoad,
    }
}

/// The road a finished drag creates along `line`.
pub fn drawn_road(line: (Point, Point)) -> (r: Road)
    ensures
        is_drawn_road(r, line),
{
    let name = "test".to_string();
    let road_type = "asphalt".to_string();
    proof {
        reveal_strlit("test");
        reveal_strlit("asphalt");
        assert(name@ =~= seq!['t', 'e', 's', 't']);
        assert(road_type@ =~= seq!['a', 's', 'p', 'h', 'a', 'l', 't']);
    }
    Road {
        _id: None,
        name,
        start_lat: line.0.x,
        stop_lat: line.1.x,
        start_lon: line.0.y,
        stop_lon: line.1.y,
        speed_limit: 50,
        lane_count: 1,
        road_type,
    }
}

} // verus!
