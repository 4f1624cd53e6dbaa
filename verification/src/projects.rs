//! Projects: their budgets, and the list that shows them.

pub mod budget;
pub mod detail;
pub mod laws;
pub mod list;
pub mod page;
pub mod tasks;
