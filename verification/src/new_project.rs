//! Creating and editing a project.

pub mod basics;
pub mod billing;
pub mod draft;
pub mod editor;
pub mod fields;
pub mod form;
pub mod laws;
pub mod options;
pub mod tasks;
pub mod team;
