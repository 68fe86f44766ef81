//! The ways of looking for a record, one module each.

pub mod doi;
pub mod google_scholar;
pub mod url;
pub mod web;
