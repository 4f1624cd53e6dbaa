//! Invoices: preparing, editing and recovering them.

pub mod defaults_form;
pub mod editing;
pub mod fees;
pub mod laws;
pub mod list;
pub mod preparation;
pub mod recovery;
