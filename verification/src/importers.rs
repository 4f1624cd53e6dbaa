//! Importing data from another tracker.

pub mod connection;
pub mod laws;
pub mod presentation;
pub mod report;
pub mod run;
