//! Drag-and-drop reordering for a horizontal row of widgets.
//!
//! The library holds the parts of a reorderable row that decide things:
//! which slot a cursor points at, which neighbours make room while an item
//! is dragged, and how the row reacts to each pointer event. Drawing and
//! geometry stay with the caller, who hands the library the outcome of its
//! measurements as plain values.
pub mod widget;
