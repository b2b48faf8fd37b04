//! Markers naming the two Ising message passing rules.
use vstd::prelude::*;

verus! {

/// Sum-product message passing: messages carry log-likelihood ratios of
/// marginals, and samples are drawn from them.
#[derive(Debug, Clone, Copy, PartialEq, Eq)]
pub struct SumProduct;

/// Max-product message passing: messages carry log-likelihood ratios of
/// max-marginals, and samples take the most likely spin.
#[derive(Debug, Clone, Copy, PartialEq, Eq)]
pub struct MaxProduct;

} // verus!
