//! Recordkeeping engine for workplace injury and illness incidents: case
//! numbering, the filter and patch engines, the statutory log, summary and case
//! reports, dashboard tallies and CSV import and export.

pub mod actions;
pub mod attachments;
pub mod dashboard;
pub mod error;
pub mod import;
pub mod incidents;
pub mod locations;
pub mod osha;
pub mod tally;
pub mod text;
pub mod validation;
