//! The accessibility-tree cache of a screen reader: the identity of accessible
//! objects, the snapshot kept for each of them, the keyed store that holds the
//! snapshots, and the appliers that bring a snapshot up to date when an
//! application reports a change.

pub mod accessible;
pub mod bus;
pub mod cache;
pub mod errors;
pub mod events;
pub mod identity;
pub mod item;
pub mod order;
pub mod scalars;
pub mod state;
pub mod types;
