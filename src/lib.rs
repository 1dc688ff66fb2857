//! Named probabilistic set-membership filters.
//!
//! `filter` holds the sizing modes and the membership filter itself;
//! `registry` keeps many filters under unique names.
use vstd::prelude::*;

pub mod filter;
pub mod registry;

verus! {

} // verus!
