//! The logic of a time tracker that bills for what it tracks: timesheets, projects, invoices,
//! approvals, reports, imports and plugins.

pub mod admin;
pub mod approvals;
pub mod clients;
pub mod clock;
pub mod date;
pub mod ids;
pub mod importers;
pub mod invoices;
pub mod laws;
pub mod lists;
pub mod money;
pub mod new_project;
pub mod order;
pub mod plugin;
pub mod projects;
pub mod render;
pub mod reports;
pub mod text;
pub mod timesheet;
