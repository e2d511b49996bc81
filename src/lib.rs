//! Consolidation of historical flight records into per-route schedule summaries.

pub mod time;
pub mod record;
pub mod summary;
pub mod consolidate;
