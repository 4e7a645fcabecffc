//! Weekly project buckets.
//!
//! Projects live under a base directory in one directory per ISO week,
//! `<year>/<week>/<project>`. This library resolves the bucket of a day,
//! validates project names, and steers the search through past buckets.

pub mod calendar;
pub mod config;
pub mod decimal;
pub mod listing;
pub mod matcher;
pub mod name;
pub mod report;
pub mod rescue;
pub mod resolver;
pub mod scanner;
