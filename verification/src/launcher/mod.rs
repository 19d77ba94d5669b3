//! The launcher: desktop entries, their command lines and their ranking.

pub mod entry;
pub mod exec;
pub mod index;
pub mod metrics;
pub mod promises;
pub mod walk;
