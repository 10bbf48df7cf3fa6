//! An embeddable engine for reverse-engineering undocumented binary wire
//! protocols by running small, user-supplied matcher scripts against decoded
//! packets.
//!
//! Each script inspects a structured view of a packet and may assert identity
//! and field guesses into a shared knowledge cache, which in turn narrows
//! future script invocations.

use vstd::prelude::*;

pub mod cache;
pub mod config;
pub mod host;
pub mod matcher;
pub mod message;

verus! {

/// Fetches an immutable snapshot of the matcher's knowledge cache.
///
/// This returns a clone; the live cache is not mutated.
pub fn cache(matcher: &crate::matcher::Matcher) -> (r: crate::cache::Cache)
    requires
        matcher.wf(),
    ensures
        r@ == matcher@.cache,
        r.wf(),
{
    matcher.knowledge().clone()
}

} // verus!
