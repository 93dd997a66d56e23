//! The cryptographic factory settings shared across the node.
//!
//! The commitment and range-proof services themselves are opaque
//! capabilities outside this library; what the node's components share is
//! the range parameter the factories were built with.

use vstd::prelude::*;

verus! {

/// The widest range a range proof may cover: values in `[0, 2^64)`.
pub const MAX_RANGE_PROOF_RANGE: usize = 64;

/// The settings of one set of cryptographic factories. Cloning is cheap:
/// the factories behind it are shared, not rebuilt.
#[derive(Clone, Copy, Debug, PartialEq, Eq, Structural)]
pub struct CryptoFactories {
    /// Range proofs cover values in `[0, 2^max_proof_range)`.
    pub max_proof_range: usize,
}

impl CryptoFactories {
    /// Factories whose range proofs cover `[0, 2^max_proof_range)`.
    pub fn new(max_proof_range: usize) -> (r: CryptoFactories)
        ensures
            r.max_proof_range == max_proof_range,
    {
        CryptoFactories { max_proof_range }
    }
}

impl Default for CryptoFactories {
    /// The stock factories, covering the full range.
    fn default() -> (r: CryptoFactories)
        ensures
            r.max_proof_range == MAX_RANGE_PROOF_RANGE,
    {
        CryptoFactories::new(MAX_RANGE_PROOF_RANGE)
    }
}

} // verus!
