//! Plain value types shared with the statistical classifier: the two-part
//! token hash and the per-token spam/ham counters.

use vstd::prelude::*;

verus! {

/// A token identified by two independent 64-bit hashes.
#[derive(Debug, Default, Copy, Clone, PartialEq, Eq, Structural)]
pub struct TokenHash {
    pub h1: u64,
    pub h2: u64,
}

/// How often a token was seen in spam and in ham.
#[derive(Debug, Default, Copy, Clone)]
pub struct Weights {
    pub spam: u32,
    pub ham: u32,
}

} // verus!
