use vstd::prelude::*;
use vstd::arithmetic::div_mod::*;
use vstd::arithmetic::mul::*;

verus! {

/// `x / d` rounded towards positive infinity (for `d > 0`).
pub open spec fn div_ceil(x: int, d: int) -> int {
    (x + d - 1) / d
}

/// Number of shares that `assets` are worth in a pool of `total_assets`
/// backing `total_shares`. An empty pool mints shares one for one.
pub open spec fn assets_to_shares(assets: int, total_shares: int, total_assets: int, round_up: bool) -> int {
    if total_assets == 0 {
        assets
    } else if round_up {
        div_ceil(assets * total_shares, total_assets)
    } else {
        assets * total_shares / total_assets
    }
}

/// Assets that `shares` are worth in a pool of `total_assets` backing
/// `total_shares`, rounded down. Shares of a pool without shares are worth nothing.
pub open spec fn shares_to_assets(shares: int, total_shares: int, total_assets: int) -> int {
    if total_shares == 0 {
        0
    } else {
        total_assets * shares / total_shares
    }
}

/// Rounding a quotient up adds one exactly when the division leaves a remainder.
pub proof fn lemma_div_ceil(x: int, d: int)
    requires
        x >= 0,
        d > 0,
    ensures
        div_ceil(x, d) == x / d + (if x % d == 0 { 0int } else { 1int }),
{
    lemma_fundamental_div_mod(x, d);
    let q = x / d;
    let r = x % d;
    lemma_mul_is_commutative(d, q);
    lemma_mul_is_distributive_add_other_way(d, q, 1);
    if r == 0 {
        lemma_fundamental_div_mod_converse(x + d - 1, d, q, d - 1);
    } else {
        lemma_fundamental_div_mod_converse(x + d - 1, d, q + 1, r - 1);
    }
}

proof fn lemma_product_fits_u128(a: u64, b: u64)
    ensures
        0 <= (a as int) * (b as int) <= u128::MAX,
{
    lemma_mul_nonnegative(a as int, b as int);
    lemma_mul_upper_bound(a as int, u64::MAX as int, b as int, u64::MAX as int);
    assert(0xffff_ffff_ffff_ffffint * 0xffff_ffff_ffff_ffffint <= u128::MAX);
}

/// Converts an amount of assets into shares of the pool, rounding down, or up
/// when `round_up` is set.
pub fn convert_assets_to_shares(assets_amount: u64, total_shares: u64, total_assets_amount: u64, round_up: bool) -> (result: u64)
    requires
        assets_to_shares(assets_amount as int, total_shares as int, total_assets_amount as int, round_up) <= u64::MAX,
    ensures
        result == assets_to_shares(assets_amount as int, total_shares as int, total_assets_amount as int, round_up),
{
    if total_assets_amount == 0 {
        assets_amount
    } else {
        proof {
            lemma_product_fits_u128(assets_amount, total_shares);
        }
        let product: u128 = (assets_amount as u128) * (total_shares as u128);
        let divisor: u128 = total_assets_amount as u128;
        let quotient: u128 = product / divisor;
        proof {
            lemma_div_ceil(product as int, divisor as int);
        }
        if round_up && product % divisor != 0 {
            (quotient + 1) as u64
        } else {
            quotient as u64
        }
    }
}

/// Converts an amount of shares into the assets they are worth, rounding down.
pub fn convert_shares_to_assets(user_shares: u64, total_shares: u64, total_assets: u64) -> (result: u64)
    requires
        shares_to_assets(user_shares as int, total_shares as int, total_assets as int) <= u64::MAX,
    ensures
        result == shares_to_assets(user_shares as int, total_shares as int, total_assets as int),
{
    if total_shares == 0 {
        0
    } else {
        proof {
            lemma_product_fits_u128(total_assets, user_shares);
        }
        let product: u128 = (total_assets as u128) * (user_shares as u128);
        let quotient: u128 = product / (total_shares as u128);
        quotient as u64
    }
}

} // verus!
