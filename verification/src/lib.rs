//! An exhaustive name-resolution aggregator.
//!
//! The library resolves hostnames through every method available to the
//! host -- the OS resolver, a simulated default-resolver lookup, one query
//! per nameserver found in the system resolver configuration, three public
//! DNS providers, and two external resolver utilities -- and reports each
//! method's outcome independently as a labeled `Resolution`.

pub mod decimal;
pub mod host;
pub mod json;
pub mod nameservers;
pub mod resolvers;
pub mod text;
pub mod types;

use vstd::prelude::*;

verus! {

/// The shared deadline, in milliseconds, applied to every network lookup
/// and every external-process invocation.
pub const LOOKUP_TIMEOUT_MS: u64 = 7000;

} // verus!
