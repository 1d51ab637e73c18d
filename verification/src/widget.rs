//! Widgets and the events they publish.
pub mod drag;
pub mod row;
