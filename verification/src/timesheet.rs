//! The timesheet page: its entries, its week grid and its calendar.

pub mod calendar;
pub mod dialog;
pub mod drag;
pub mod entry;
pub mod grid;
pub mod lanes;
pub mod laws;
pub mod names;
pub mod view;
pub mod week;
