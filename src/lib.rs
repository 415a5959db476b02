//! Per-window focus time accounting: the cumulative store, its text form,
//! the tick engine that attributes elapsed time, the control-event intake and
//! the figures shown by the viewer.

pub mod activity;
pub mod engine;
pub mod store;
pub mod intake;
pub mod viewer;
