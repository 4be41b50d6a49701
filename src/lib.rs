//! An in-memory inventory catalog keyed by item name, and the decisions of
//! the interactive command loop that drives it.

pub mod catalog;
pub mod command;
pub mod laws;
