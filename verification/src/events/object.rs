//! Appliers for the events of the `Object` interface, one module for each
//! member.

pub mod children_changed;
pub mod state_changed;
pub mod text_caret_moved;
pub mod text_changed;
