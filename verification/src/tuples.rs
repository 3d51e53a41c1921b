//! A plain pair of named components.

use vstd::prelude::*;

verus! {

/// A pair with named components.
#[derive(Debug, Clone, PartialEq, Eq)]
pub struct Pair<A, B> {
    pub first: A,
    pub second: B,
}

} // verus!
