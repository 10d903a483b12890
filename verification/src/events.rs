//! Appliers for the events that applications send.

pub mod object;
