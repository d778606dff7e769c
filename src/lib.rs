//! Entity stores for a road and intersection editor: identifier allocation,
//! lookup and removal by identifier, proximity hit-testing, a bounded undo
//! history, and the input handling of an editing session.
pub mod editor;
pub mod entity;
pub mod geometry;
pub mod history;
pub mod intersection;
pub mod logger;
pub mod road;
pub mod session;

pub use editor::{get_history_manager, get_intersection_manager, get_logger, get_road_manager};
