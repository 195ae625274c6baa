//! Synchronizes a payment platform's customer directory into a mailing-list
//! manager's subscriber database: paginated retrieval of the full customer
//! set, deduplication by case-insensitive email with a precedence rule,
//! encoding into the destination's delimited import format, and the import
//! metadata for the two upload buckets.

pub mod csvenc;
pub mod fetch;
pub mod import;
pub mod laws;
pub mod model;
pub mod reconcile;
pub mod strutil;
