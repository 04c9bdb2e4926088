//! The dispatch pipeline: what happens between an input and a running agent.
//!
//! `flow` decides the order of the steps and what a failure undoes; the other
//! modules hold what the steps compute.

use vstd::prelude::*;
use crate::resolvers::{self, make_resolver, Resolver};

pub mod flow;
pub mod inputs;
pub mod place;
pub mod environment;
pub mod prompt;
pub mod report;
pub mod work_unit;

verus! {

/// The resolver that a record names, for when a dispatch is stopped, cleaned up,
/// closed or retried.
pub fn resolver_by_name(name: &str) -> (r: Option<Resolver>)
    ensures
        r == resolvers::resolver_named(name@),
{
    make_resolver(name)
}

} // verus!
