//! Where to look for a record on the web.

pub mod encoding;
pub mod engine;
pub mod strategies;
