//! What plugins can ask of the application.

pub mod database;
pub mod host;
pub mod laws;
pub mod manifest;
pub mod statement;
