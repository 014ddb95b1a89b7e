//! Core of a desktop reminder: a calendar model, recurrence advancement,
//! due-event selection at minute granularity, and the per-tick dispatch
//! rules. Store access and OS notification delivery live outside; they hand
//! this library plain values and receive plain values back.

pub mod clock;
pub mod datetime;
pub mod error;
pub mod event;
pub mod menu;
pub mod recurrence;
pub mod render;
pub mod scheduler;
pub mod store;
pub mod textnorm;
