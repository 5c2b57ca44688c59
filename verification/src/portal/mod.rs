//! Config portal logic: request parsing, routing, replies and page assembly.
pub mod handler;
pub mod page;
pub mod query;
pub mod tuning;
