//! Battle tracking for a turn-based game overlay: the event state machine, the
//! export shaping, the name helpers and the icon buffer caches.
#![allow(unused_imports)]

pub mod accounting;
pub mod arith;
pub mod attack;
pub mod text;
pub mod types;
pub mod ui_state;
pub mod battle;
pub mod breakdown;
pub mod buffers;
pub mod events;
pub mod export;
pub mod names;
pub mod palette;
pub mod chart;
pub mod meter;
pub mod hooks;
pub mod laws;
