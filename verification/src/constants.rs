use vstd::prelude::*;

verus! {

/// Smallest amount a single deposit may carry (10 USDC, 6 decimals).
pub const MIN_USDC_DEPOSIT: u64 = 10_000_000;

/// Largest amount a single deposit may carry (1 000 000 USDC, 6 decimals).
/// The limit is this crate's own choice: deposits are checked against it,
/// but no value for it is fixed elsewhere.
pub const MAX_USDC_DEPOSIT: u64 = 1_000_000_000_000;

} // verus!
