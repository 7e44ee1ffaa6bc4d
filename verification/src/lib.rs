//! Finds `.unwrap()` calls in source lines, leaves out those that stand in a
//! comment or a string literal, and rewrites a found call into an `.expect(..)`
//! that carries an identifier derived from the place of the call.

pub mod search;
pub mod classify;
pub mod finding;
pub mod bytes;
pub mod fingerprint;
pub mod rewrite;
pub mod scan;
pub mod diff;
pub mod stamp;
pub mod output;
