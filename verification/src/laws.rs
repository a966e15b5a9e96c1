use vstd::prelude::*;
use vstd::arithmetic::div_mod::*;
use vstd::arithmetic::mul::*;

use crate::errors::BankErrors;
use crate::instructions::{
    deposit_fits, deposit_outcome, deposit_request, deposit_shares, transfer_received,
    withdraw_outcome, WithdrawReceipt,
};
use crate::constants::{MAX_USDC_DEPOSIT, MIN_USDC_DEPOSIT};
use crate::shares_math::{assets_to_shares, div_ceil, lemma_div_ceil, shares_to_assets};
use crate::state::{Bank, User};

verus! {

/// When the value of a share does not fall from (`assets0`, `shares0`) to
/// (`assets1`, `shares1`), neither does the value of any holding.
proof fn lemma_holding_value_monotone(x: int, shares0: int, assets0: int, shares1: int, assets1: int)
    requires
        0 < shares0,
        0 < shares1,
        0 <= x,
        0 <= assets0,
        0 <= assets1,
        assets0 * shares1 <= assets1 * shares0,
    ensures
        assets0 * x / shares0 <= assets1 * x / shares1,
{
    let q = assets0 * x / shares0;
    lemma_mul_nonnegative(assets0, x);
    lemma_fundamental_div_mod(assets0 * x, shares0);
    lemma_mod_pos_bound(assets0 * x, shares0);
    lemma_div_pos_is_pos(assets0 * x, shares0);
    assert(q * shares0 <= assets0 * x) by (nonlinear_arith)
        requires
            assets0 * x == shares0 * q + (assets0 * x) % shares0,
            0 <= (assets0 * x) % shares0,
    ;
    assert(q * shares1 <= assets1 * x) by (nonlinear_arith)
        requires
            q * shares0 <= assets0 * x,
            assets0 * shares1 <= assets1 * shares0,
            0 < shares0,
            0 < shares1,
            0 <= x,
    {
        assert(q * shares0 * shares1 <= assets0 * x * shares1);
        assert(assets0 * x * shares1 <= assets1 * shares0 * x);
        assert(q * shares1 * shares0 <= assets1 * x * shares0);
    }
    lemma_div_is_ordered(q * shares1, assets1 * x, shares1);
    lemma_div_by_multiple(q, shares1);
}

/// Shares minted for a deposit are never more than the tokens deposited when
/// every share is backed.
proof fn lemma_deposit_shares_at_most_received(bank: Bank, received: u64)
    requires
        bank.shares_backed(),
    ensures
        0 <= deposit_shares(bank, received) <= received,
        (bank.total_deposits as int) * deposit_shares(bank, received)
            <= (received as int) * (bank.total_deposit_shares as int),
{
    let a = bank.total_deposits as int;
    let s = bank.total_deposit_shares as int;
    let r = received as int;
    if a > 0 {
        lemma_mul_nonnegative(r, s);
        lemma_mul_inequality(s, a, r);
        lemma_mul_is_commutative(s, r);
        lemma_multiply_divide_le(r * s, a, r);
        lemma_div_pos_is_pos(r * s, a);
        lemma_fundamental_div_mod(r * s, a);
        lemma_mod_pos_bound(r * s, a);
    } else {
        lemma_mul_basics(r);
    }
}

/// The shares burnt by a successful withdrawal are worth, at the price before
/// it, at least the assets paid out: `assets * shares <= burnt * assets`.
proof fn lemma_withdraw_burns_enough(
    bank0: Bank,
    user0: User,
    balance: u64,
    amount: u64,
    bank1: Bank,
    user1: User,
    receipt: WithdrawReceipt,
)
    requires
        withdraw_outcome(bank0, user0, balance, amount) == Ok::<(Bank, User, WithdrawReceipt), BankErrors>((bank1, user1, receipt)),
    ensures
        0 < bank0.total_deposit_shares,
        (receipt.assets as int) * (bank0.total_deposit_shares as int)
            <= (receipt.shares as int) * (bank0.total_deposits as int),
        receipt.shares <= user0.deposit_usdc_shares <= bank0.total_deposit_shares,
        receipt.assets <= bank0.total_deposits,
{
    let a = bank0.total_deposits as int;
    let s = bank0.total_deposit_shares as int;
    let u = user0.deposit_usdc_shares as int;
    let w = receipt.assets as int;
    let c = receipt.shares as int;
    let holds = shares_to_assets(u, s, a);
    if holds < amount + crate::constants::MIN_USDC_DEPOSIT {
        // everything the depositor holds goes out
        assert(c == u && w == holds);
        lemma_mul_nonnegative(a, u);
        lemma_fundamental_div_mod(a * u, s);
        lemma_mod_pos_bound(a * u, s);
        assert(w * s <= u * a) by (nonlinear_arith)
            requires
                a * u == s * w + (a * u) % s,
                0 <= (a * u) % s,
        ;
    } else {
        assert(w == amount as int);
        assert(a > 0 && s > 0) by {
            if s == 0 {
            } else if a == 0 {
                lemma_mul_basics(u);
                lemma_div_basics(s);
            }
        }
        lemma_mul_nonnegative(w, s);
        lemma_div_ceil(w * s, a);
        lemma_fundamental_div_mod(w * s, a);
        lemma_mod_pos_bound(w * s, a);
        assert(c == assets_to_shares(w, s, a, true));
        let q = (w * s) / a;
        let rem = (w * s) % a;
        assert(w * s <= c * a) by (nonlinear_arith)
            requires
                w * s == a * q + rem,
                0 <= rem < a,
                c == q + (if rem == 0 { 0int } else { 1int }),
        ;
    }
}

/// A bank whose shares are all backed never overflows while minting the
/// shares of a deposit.
pub proof fn law_backed_bank_mints_without_overflow(bank: Bank, received: u64)
    requires
        bank.shares_backed(),
    ensures
        deposit_fits(bank, received),
{
    lemma_deposit_shares_at_most_received(bank, received);
}

/// A deposit keeps every share backed by at least one token.
pub proof fn law_deposit_keeps_shares_backed(bank0: Bank, user0: User, received: u64, bank1: Bank, user1: User, shares: u64)
    requires
        bank0.shares_backed(),
        deposit_outcome(bank0, user0, received) == Ok::<(Bank, User, u64), BankErrors>((bank1, user1, shares)),
    ensures
        bank1.shares_backed(),
{
    lemma_deposit_shares_at_most_received(bank0, received);
}

/// A withdrawal keeps every share backed by at least one token.
pub proof fn law_withdraw_keeps_shares_backed(
    bank0: Bank,
    user0: User,
    balance: u64,
    amount: u64,
    bank1: Bank,
    user1: User,
    receipt: WithdrawReceipt,
)
    requires
        bank0.shares_backed(),
        withdraw_outcome(bank0, user0, balance, amount) == Ok::<(Bank, User, WithdrawReceipt), BankErrors>((bank1, user1, receipt)),
    ensures
        bank1.shares_backed(),
{
    lemma_withdraw_burns_enough(bank0, user0, balance, amount, bank1, user1, receipt);
    let a = bank0.total_deposits as int;
    let s = bank0.total_deposit_shares as int;
    let w = receipt.assets as int;
    let c = receipt.shares as int;
    assert(s - c <= a - w) by (nonlinear_arith)
        requires
            w * s <= c * a,
            0 < s <= a,
            0 <= c <= s,
            0 <= w <= a,
    {
        assert(s * (s - c) <= s * (a - w)) by {
            assert(s * (a - w) == s * a - w * s);
            assert(s * (s - c) == s * s - c * s);
            assert(c * a - c * s == c * (a - s));
            assert(c * (a - s) <= s * (a - s));
        }
    }
}

/// The shares of all depositors add up to the bank's total shares: a deposit
/// credits to the depositor exactly the shares it adds to the bank, so the
/// other depositors' shares (`others`) still make up the rest.
pub proof fn law_deposit_conserves_shares(
    bank0: Bank,
    user0: User,
    received: u64,
    bank1: Bank,
    user1: User,
    shares: u64,
    others: int,
)
    requires
        deposit_outcome(bank0, user0, received) == Ok::<(Bank, User, u64), BankErrors>((bank1, user1, shares)),
        others + user0.deposit_usdc_shares == bank0.total_deposit_shares,
    ensures
        others + user1.deposit_usdc_shares == bank1.total_deposit_shares,
        user1.deposit_usdc_shares == user0.deposit_usdc_shares + shares,
        bank1.total_deposits == bank0.total_deposits + received,
{
}

/// A withdrawal burns from the depositor exactly the shares it removes from
/// the bank, so the other depositors' shares still make up the rest.
pub proof fn law_withdraw_conserves_shares(
    bank0: Bank,
    user0: User,
    balance: u64,
    amount: u64,
    bank1: Bank,
    user1: User,
    receipt: WithdrawReceipt,
    others: int,
)
    requires
        withdraw_outcome(bank0, user0, balance, amount) == Ok::<(Bank, User, WithdrawReceipt), BankErrors>((bank1, user1, receipt)),
        others + user0.deposit_usdc_shares == bank0.total_deposit_shares,
    ensures
        others + user1.deposit_usdc_shares == bank1.total_deposit_shares,
        user1.deposit_usdc_shares == user0.deposit_usdc_shares - receipt.shares,
        bank1.total_deposits == bank0.total_deposits - receipt.assets,
        receipt.close_user <==> user1.deposit_usdc_shares == 0,
{
}

/// After a deposit that passed its checks and whose transfer brought
/// `received` tokens, the bank's token account (`balance_after`) still holds
/// at least what the bank owes its depositors.
pub proof fn law_deposit_keeps_bank_funded(
    bank0: Bank,
    user0: User,
    signer: [u8; 32],
    balance_before: u64,
    amount: u64,
    record: User,
    balance_after: u64,
    received: u64,
    bank1: Bank,
    user1: User,
    shares: u64,
)
    requires
        deposit_request(bank0, user0, signer, balance_before, amount) == Ok::<User, BankErrors>(record),
        transfer_received(balance_before, balance_after) == Ok::<u64, BankErrors>(received),
        deposit_outcome(bank0, record, received) == Ok::<(Bank, User, u64), BankErrors>((bank1, user1, shares)),
    ensures
        balance_after >= bank1.total_deposits,
{
}

/// After a withdrawal, what the bank's token account holds once the payout
/// has left it still covers what the bank owes its depositors.
pub proof fn law_withdraw_keeps_bank_funded(
    bank0: Bank,
    user0: User,
    balance: u64,
    amount: u64,
    bank1: Bank,
    user1: User,
    receipt: WithdrawReceipt,
)
    requires
        withdraw_outcome(bank0, user0, balance, amount) == Ok::<(Bank, User, WithdrawReceipt), BankErrors>((bank1, user1, receipt)),
    ensures
        receipt.assets <= balance,
        balance - receipt.assets >= bank1.total_deposits,
{
}

/// The shares minted for a deposit are never worth more than the tokens
/// deposited, right after the deposit.
pub proof fn law_deposit_never_overpays(bank0: Bank, user0: User, received: u64, bank1: Bank, user1: User, shares: u64)
    requires
        deposit_outcome(bank0, user0, received) == Ok::<(Bank, User, u64), BankErrors>((bank1, user1, shares)),
    ensures
        shares_to_assets(shares as int, bank1.total_deposit_shares as int, bank1.total_deposits as int) <= received,
{
    let a = bank0.total_deposits as int;
    let s = bank0.total_deposit_shares as int;
    let r = received as int;
    let m = shares as int;
    if a > 0 {
        lemma_mul_nonnegative(r, s);
        lemma_fundamental_div_mod(r * s, a);
        lemma_mod_pos_bound(r * s, a);
        assert(a * m <= r * s) by (nonlinear_arith)
            requires
                r * s == a * m + (r * s) % a,
                0 <= (r * s) % a,
        ;
    } else {
        lemma_mul_basics(r);
    }
    assert((a + r) * m <= (s + m) * r) by (nonlinear_arith)
        requires
            a * m <= r * s,
    ;
    lemma_multiply_divide_le((a + r) * m, s + m, r);
}

/// A withdrawal never pays out more than the burnt shares were worth before it.
pub proof fn law_withdraw_never_overpays(
    bank0: Bank,
    user0: User,
    balance: u64,
    amount: u64,
    bank1: Bank,
    user1: User,
    receipt: WithdrawReceipt,
)
    requires
        withdraw_outcome(bank0, user0, balance, amount) == Ok::<(Bank, User, WithdrawReceipt), BankErrors>((bank1, user1, receipt)),
    ensures
        receipt.assets <= shares_to_assets(receipt.shares as int, bank0.total_deposit_shares as int, bank0.total_deposits as int),
{
    lemma_withdraw_burns_enough(bank0, user0, balance, amount, bank1, user1, receipt);
    let a = bank0.total_deposits as int;
    let s = bank0.total_deposit_shares as int;
    let w = receipt.assets as int;
    let c = receipt.shares as int;
    lemma_mul_is_commutative(c, a);
    lemma_div_is_ordered(w * s, a * c, s);
    lemma_div_by_multiple(w, s);
}

/// A deposit never lowers what anybody's shares are worth: any holding of at
/// most the shares that existed before it is worth no less after it.
pub proof fn law_deposit_does_not_dilute(
    bank0: Bank,
    user0: User,
    received: u64,
    bank1: Bank,
    user1: User,
    shares: u64,
    holding: int,
)
    requires
        deposit_outcome(bank0, user0, received) == Ok::<(Bank, User, u64), BankErrors>((bank1, user1, shares)),
        0 <= holding <= bank0.total_deposit_shares,
    ensures
        shares_to_assets(holding, bank0.total_deposit_shares as int, bank0.total_deposits as int)
            <= shares_to_assets(holding, bank1.total_deposit_shares as int, bank1.total_deposits as int),
{
    let a = bank0.total_deposits as int;
    let s = bank0.total_deposit_shares as int;
    let r = received as int;
    let m = shares as int;
    if s > 0 {
        if a > 0 {
            lemma_mul_nonnegative(r, s);
            lemma_fundamental_div_mod(r * s, a);
            lemma_mod_pos_bound(r * s, a);
            assert(a * m <= r * s) by (nonlinear_arith)
                requires
                    r * s == a * m + (r * s) % a,
                    0 <= (r * s) % a,
            ;
        } else {
            lemma_mul_basics(r);
            lemma_mul_basics(m);
        }
        assert(a * (s + m) <= (a + r) * s) by (nonlinear_arith)
            requires
                a * m <= r * s,
        ;
        lemma_holding_value_monotone(holding, s, a, s + m, a + r);
    }
}

/// A withdrawal never lowers what the remaining shares are worth: any holding
/// of at most the shares left after it is worth no less than before it.
pub proof fn law_withdraw_does_not_dilute(
    bank0: Bank,
    user0: User,
    balance: u64,
    amount: u64,
    bank1: Bank,
    user1: User,
    receipt: WithdrawReceipt,
    holding: int,
)
    requires
        withdraw_outcome(bank0, user0, balance, amount) == Ok::<(Bank, User, WithdrawReceipt), BankErrors>((bank1, user1, receipt)),
        0 <= holding <= bank1.total_deposit_shares,
    ensures
        shares_to_assets(holding, bank0.total_deposit_shares as int, bank0.total_deposits as int)
            <= shares_to_assets(holding, bank1.total_deposit_shares as int, bank1.total_deposits as int),
{
    lemma_withdraw_burns_enough(bank0, user0, balance, amount, bank1, user1, receipt);
    let a = bank0.total_deposits as int;
    let s = bank0.total_deposit_shares as int;
    let w = receipt.assets as int;
    let c = receipt.shares as int;
    if s - c > 0 {
        assert(a * (s - c) <= (a - w) * s) by (nonlinear_arith)
            requires
                w * s <= c * a,
        ;
        lemma_holding_value_monotone(holding, s, a, s - c, a - w);
    } else {
        assert(holding == 0);
        lemma_mul_basics(a);
        lemma_div_basics(s);
    }
}

/// A depositor that starts without shares, deposits `received` tokens and
/// then withdraws never gets back more than it deposited.
pub proof fn law_deposit_then_withdraw_never_profits(
    bank0: Bank,
    user0: User,
    received: u64,
    bank1: Bank,
    user1: User,
    shares: u64,
    balance: u64,
    amount: u64,
    bank2: Bank,
    user2: User,
    receipt: WithdrawReceipt,
)
    requires
        user0.deposit_usdc_shares == 0,
        deposit_outcome(bank0, user0, received) == Ok::<(Bank, User, u64), BankErrors>((bank1, user1, shares)),
        withdraw_outcome(bank1, user1, balance, amount) == Ok::<(Bank, User, WithdrawReceipt), BankErrors>((bank2, user2, receipt)),
    ensures
        receipt.assets <= received,
{
    law_deposit_never_overpays(bank0, user0, received, bank1, user1, shares);
    law_withdraw_never_overpays(bank1, user1, balance, amount, bank2, user2, receipt);
    lemma_withdraw_burns_enough(bank1, user1, balance, amount, bank2, user2, receipt);
    let a = bank1.total_deposits as int;
    let s = bank1.total_deposit_shares as int;
    let c = receipt.shares as int;
    let m = shares as int;
    assert(c <= m);
    lemma_mul_inequality(c, m, a);
    lemma_mul_is_commutative(c, a);
    lemma_mul_is_commutative(m, a);
    lemma_div_is_ordered(a * c, a * m, s);
}

/// `q` is the quotient of `x` by `d` rounded down when `q * d <= x < (q + 1) * d`.
proof fn lemma_floor_unique(x: int, d: int, q: int)
    requires
        d > 0,
        q * d <= x < (q + 1) * d,
    ensures
        q == x / d,
{
    assert((q + 1) * d == q * d + d) by (nonlinear_arith);
    lemma_fundamental_div_mod_converse(x, d, q, x - q * d);
}

/// `c` is the quotient of `x` by `d` rounded up when `(c - 1) * d < x <= c * d`.
proof fn lemma_ceil_unique(x: int, d: int, c: int)
    requires
        d > 0,
        (c - 1) * d < x <= c * d,
    ensures
        c == div_ceil(x, d),
{
    assert((c - 1) * d == c * d - d) by (nonlinear_arith);
    lemma_fundamental_div_mod_converse(x + d - 1, d, c, x + d - 1 - c * d);
}

/// Converting assets into shares: one for one in an empty pool; otherwise the
/// largest number of shares whose value `shares * total_assets` does not
/// exceed `assets * total_shares`, or, rounding up, the smallest whose value
/// reaches it.
pub proof fn law_assets_to_shares_rounding(assets: u64, total_shares: u64, total_assets: u64, round_up: bool)
    ensures
        ({
            let r = assets_to_shares(assets as int, total_shares as int, total_assets as int, round_up);
            let a = assets as int;
            let s = total_shares as int;
            let t = total_assets as int;
            &&& r >= 0
            &&& t == 0 ==> r == a
            &&& t > 0 && !round_up ==> r * t <= a * s < (r + 1) * t
            &&& t > 0 && round_up ==> (r - 1) * t < a * s <= r * t
        }),
{
    let a = assets as int;
    let s = total_shares as int;
    let t = total_assets as int;
    if t > 0 {
        lemma_mul_nonnegative(a, s);
        lemma_fundamental_div_mod(a * s, t);
        lemma_mod_pos_bound(a * s, t);
        lemma_div_pos_is_pos(a * s, t);
        let q = (a * s) / t;
        let rem = (a * s) % t;
        assert(q * t <= a * s < (q + 1) * t) by (nonlinear_arith)
            requires
                a * s == t * q + rem,
                0 <= rem < t,
        ;
        lemma_div_ceil(a * s, t);
        let c = div_ceil(a * s, t);
        assert((c - 1) * t < a * s <= c * t) by (nonlinear_arith)
            requires
                a * s == t * q + rem,
                0 <= rem < t,
                c == q + (if rem == 0 { 0int } else { 1int }),
        ;
    }
}

/// Converting shares into assets: nothing when there are no shares;
/// otherwise the largest amount `r` with `r * total_shares <= shares * total_assets`.
pub proof fn law_shares_to_assets_rounding(shares: u64, total_shares: u64, total_assets: u64)
    ensures
        ({
            let r = shares_to_assets(shares as int, total_shares as int, total_assets as int);
            let x = shares as int;
            let s = total_shares as int;
            let t = total_assets as int;
            &&& r >= 0
            &&& s == 0 ==> r == 0
            &&& s > 0 ==> r * s <= t * x < (r + 1) * s
        }),
{
    let x = shares as int;
    let s = total_shares as int;
    let t = total_assets as int;
    if s > 0 {
        lemma_mul_nonnegative(t, x);
        lemma_fundamental_div_mod(t * x, s);
        lemma_mod_pos_bound(t * x, s);
        lemma_div_pos_is_pos(t * x, s);
        let q = (t * x) / s;
        let rem = (t * x) % s;
        assert(q * s <= t * x < (q + 1) * s) by (nonlinear_arith)
            requires
                t * x == s * q + rem,
                0 <= rem < s,
        ;
    }
}

/// A transfer is accepted exactly when the bank's balance grew by at least a
/// minimal deposit, and what it received is that growth.
pub proof fn law_transfer_received_exact(balance_before: u64, balance_after: u64)
    ensures
        transfer_received(balance_before, balance_after) is Ok
            <==> balance_after >= balance_before + MIN_USDC_DEPOSIT,
        transfer_received(balance_before, balance_after) matches Ok(r)
            ==> r == balance_after - balance_before,
        balance_after < balance_before ==> transfer_received(balance_before, balance_after)
            == Err::<u64, BankErrors>(BankErrors::Overflow),
        balance_before <= balance_after < balance_before + MIN_USDC_DEPOSIT
            ==> transfer_received(balance_before, balance_after)
            == Err::<u64, BankErrors>(BankErrors::NotEnoughTokensTransferred),
{
}

/// A deposit request passes its checks exactly when the amount lies within
/// the deposit limits, the bank's token account covers what the bank owes
/// (any surplus in it is fine) and the depositor record is either not set up
/// yet or belongs to the signer; the record returned then belongs to the
/// signer and keeps its shares. Each refusal names the first check failed.
pub proof fn law_deposit_request_exact(
    bank: Bank,
    user_state: User,
    signer: [u8; 32],
    bank_token_balance: u64,
    amount: u64,
)
    ensures
        ({
            let r = crate::instructions::deposit_request(bank, user_state, signer, bank_token_balance, amount);
            let in_limits = MIN_USDC_DEPOSIT <= amount <= MAX_USDC_DEPOSIT;
            let funded = bank_token_balance >= bank.total_deposits;
            let owned = !user_state.is_initialized || user_state.user@ == signer@;
            &&& r is Ok <==> in_limits && funded && owned
            &&& amount == 0 ==> r == Err::<User, BankErrors>(BankErrors::ZeroAmountToDeposit)
            &&& 0 < amount < MIN_USDC_DEPOSIT ==> r == Err::<User, BankErrors>(BankErrors::NotEnoughAmountToDeposit)
            &&& amount > MAX_USDC_DEPOSIT ==> r == Err::<User, BankErrors>(BankErrors::TooBigAmountToDeposit)
            &&& in_limits && !funded ==> r == Err::<User, BankErrors>(BankErrors::BankUnderfunded)
            &&& in_limits && funded && !owned ==> r == Err::<User, BankErrors>(BankErrors::UnauthorizedAccess)
            &&& r matches Ok(record) ==> {
                &&& record.user@ == signer@
                &&& record.is_initialized
                &&& record.deposit_usdc_shares == (if user_state.is_initialized { user_state.deposit_usdc_shares } else { 0 })
                &&& user_state.is_initialized ==> record == user_state
            }
        }),
{
}

/// How much the bank's token account holds beyond what the bank owes makes
/// no difference to a deposit request.
pub proof fn law_deposit_request_ignores_surplus(
    bank: Bank,
    user_state: User,
    signer: [u8; 32],
    balance1: u64,
    balance2: u64,
    amount: u64,
)
    requires
        balance1 >= bank.total_deposits,
        balance2 >= bank.total_deposits,
    ensures
        deposit_request(bank, user_state, signer, balance1, amount)
            == deposit_request(bank, user_state, signer, balance2, amount),
{
}

/// Crediting `received` tokens, where `minted` is the number of shares they
/// buy at the current price rounded down (one for one in an empty pool):
/// refused when that is nothing or a total would overflow; otherwise the
/// bank gains the tokens and the shares, the depositor gains the shares, and
/// nothing else changes.
pub proof fn law_deposit_credit_exact(bank: Bank, user_state: User, received: u64, minted: int)
    requires
        bank.total_deposits == 0 ==> minted == received,
        bank.total_deposits > 0 ==> minted * bank.total_deposits <= (received as int) * (bank.total_deposit_shares as int)
            < (minted + 1) * bank.total_deposits,
    ensures
        ({
            let r = deposit_outcome(bank, user_state, received);
            let fits = bank.total_deposit_shares + minted <= u64::MAX && bank.total_deposits + received <= u64::MAX
                && user_state.deposit_usdc_shares + minted <= u64::MAX;
            &&& minted == 0 ==> r == Err::<(Bank, User, u64), BankErrors>(BankErrors::ZeroSharesFromDeposit)
            &&& minted != 0 && !fits ==> r == Err::<(Bank, User, u64), BankErrors>(BankErrors::Overflow)
            &&& minted != 0 && fits ==> (r matches Ok((new_bank, new_user, shares)) && {
                &&& shares == minted
                &&& new_bank.total_deposits == bank.total_deposits + received
                &&& new_bank.total_deposit_shares == bank.total_deposit_shares + minted
                &&& new_bank.authority == bank.authority
                &&& new_bank.mint == bank.mint
                &&& new_user.deposit_usdc_shares == user_state.deposit_usdc_shares + minted
                &&& new_user.user == user_state.user
                &&& new_user.is_initialized == user_state.is_initialized
            })
        }),
{
    let a = bank.total_deposits as int;
    let s = bank.total_deposit_shares as int;
    let rcv = received as int;
    if a > 0 {
        lemma_mul_nonnegative(rcv, s);
        lemma_floor_unique(rcv * s, a, minted);
        assert(minted >= 0) by {
            lemma_div_pos_is_pos(rcv * s, a);
        }
    }
    assert(deposit_shares(bank, received) == minted);
}

/// A withdrawal request of `amount`, where `holds` is what the depositor's
/// shares are worth rounded down and `burn` is the number of shares worth
/// `amount` rounded up (one for one in an empty pool). In the order checked:
/// nothing requested, a token account short of what the bank owes, a
/// depositor holding more shares than exist, an amount so large that adding a
/// minimal deposit overflows, a depositor without shares. Otherwise, when
/// `holds` is at least `amount` plus a minimal deposit, exactly `amount` is
/// paid out against `burn` shares; else everything the depositor holds is
/// paid out, all its shares are burnt and its record is closed.
pub proof fn law_withdraw_exact(
    bank: Bank,
    user_state: User,
    bank_token_balance: u64,
    amount: u64,
    holds: int,
    burn: int,
)
    requires
        bank.total_deposit_shares == 0 ==> holds == 0,
        bank.total_deposit_shares > 0 ==> holds * bank.total_deposit_shares
            <= (bank.total_deposits as int) * (user_state.deposit_usdc_shares as int)
            < (holds + 1) * bank.total_deposit_shares,
        bank.total_deposits == 0 ==> burn == amount,
        bank.total_deposits > 0 ==> (burn - 1) * bank.total_deposits
            < (amount as int) * (bank.total_deposit_shares as int) <= burn * bank.total_deposits,
    ensures
        ({
            let r = withdraw_outcome(bank, user_state, bank_token_balance, amount);
            let a = bank.total_deposits;
            let s = bank.total_deposit_shares;
            let u = user_state.deposit_usdc_shares;
            let admissible = amount > 0 && bank_token_balance >= a && u <= s
                && amount + MIN_USDC_DEPOSIT <= u64::MAX;
            &&& amount == 0 ==> r == Err::<(Bank, User, WithdrawReceipt), BankErrors>(BankErrors::ZeroAmountToWithdraw)
            &&& amount > 0 && bank_token_balance < a
                ==> r == Err::<(Bank, User, WithdrawReceipt), BankErrors>(BankErrors::BankUnderfunded)
            &&& amount > 0 && bank_token_balance >= a && u > s
                ==> r == Err::<(Bank, User, WithdrawReceipt), BankErrors>(BankErrors::InvalidBankState)
            &&& amount > 0 && bank_token_balance >= a && u <= s && amount + MIN_USDC_DEPOSIT > u64::MAX
                ==> r == Err::<(Bank, User, WithdrawReceipt), BankErrors>(BankErrors::Overflow)
            &&& admissible && u == 0
                ==> r == Err::<(Bank, User, WithdrawReceipt), BankErrors>(BankErrors::ZeroSharesToBurn)
            &&& r is Ok <==> admissible && u > 0
            &&& admissible && u > 0 && holds >= amount + MIN_USDC_DEPOSIT ==> (r matches Ok((new_bank, new_user, receipt)) && {
                &&& receipt.assets == amount
                &&& receipt.shares == burn
                &&& 0 < burn <= u
                &&& receipt.close_user == (u - burn == 0)
                &&& new_bank.total_deposits == a - amount
                &&& new_bank.total_deposit_shares == s - burn
                &&& new_user.deposit_usdc_shares == u - burn
                &&& new_bank.authority == bank.authority && new_bank.mint == bank.mint
                &&& new_user.user == user_state.user && new_user.is_initialized == user_state.is_initialized
            })
            &&& admissible && u > 0 && holds < amount + MIN_USDC_DEPOSIT ==> (r matches Ok((new_bank, new_user, receipt)) && {
                &&& receipt.assets == holds
                &&& receipt.shares == u
                &&& receipt.close_user
                &&& new_bank.total_deposits == a - holds
                &&& new_bank.total_deposit_shares == s - u
                &&& new_user.deposit_usdc_shares == 0
                &&& new_bank.authority == bank.authority && new_bank.mint == bank.mint
                &&& new_user.user == user_state.user && new_user.is_initialized == user_state.is_initialized
            })
        }),
{
    let a = bank.total_deposits as int;
    let s = bank.total_deposit_shares as int;
    let u = user_state.deposit_usdc_shares as int;
    let w = amount as int;
    if s > 0 {
        lemma_mul_nonnegative(a, u);
        lemma_floor_unique(a * u, s, holds);
        lemma_div_pos_is_pos(a * u, s);
    }
    assert(holds == shares_to_assets(u, s, a));
    assert(holds >= 0);
    if u == 0 && s > 0 {
        lemma_mul_basics(a);
        assert(holds == 0) by (nonlinear_arith)
            requires
                holds * s <= 0,
                holds >= 0,
                s > 0,
        ;
    }
    if u <= s && s > 0 {
        // what the depositor holds is at most the whole pool
        assert(holds <= a) by (nonlinear_arith)
            requires
                holds * s <= a * u,
                u <= s,
                s > 0,
                a >= 0,
        {
            assert(a * u <= a * s);
        }
    }
    if a > 0 {
        lemma_mul_nonnegative(w, s);
        lemma_ceil_unique(w * s, a, burn);
    }
    assert(burn == assets_to_shares(w, s, a, true));
    if amount > 0 && u > 0 && u <= s && holds >= w + MIN_USDC_DEPOSIT {
        assert(a > 0) by (nonlinear_arith)
            requires
                holds * s <= a * u,
                holds > 0,
                s > 0,
                u > 0,
                a >= 0,
        ;
        assert(w * s < holds * s) by (nonlinear_arith)
            requires
                w < holds,
                s > 0,
        ;
        assert(0 < burn <= u) by (nonlinear_arith)
            requires
                (burn - 1) * a < w * s <= burn * a,
                w * s < a * u,
                w > 0,
                s > 0,
                a > 0,
        {
            assert((burn - 1) * a < u * a);
            assert(0 < burn * a);
        }
    }
}

/// How much the bank's token account holds beyond what the bank owes makes
/// no difference to a withdrawal.
pub proof fn law_withdraw_ignores_surplus(bank: Bank, user_state: User, balance1: u64, balance2: u64, amount: u64)
    requires
        balance1 >= bank.total_deposits,
        balance2 >= bank.total_deposits,
    ensures
        withdraw_outcome(bank, user_state, balance1, amount) == withdraw_outcome(bank, user_state, balance2, amount),
{
}

/// The shares of a deposit fit in a `u64` exactly when the pool is empty or
/// `received * total_shares` stays below `(u64::MAX + 1) * total_deposits`.
pub proof fn law_deposit_fits_exact(bank: Bank, received: u64)
    ensures
        deposit_fits(bank, received) <==> (bank.total_deposits == 0
            || (received as int) * (bank.total_deposit_shares as int) < (u64::MAX + 1) * bank.total_deposits),
{
    let a = bank.total_deposits as int;
    let s = bank.total_deposit_shares as int;
    let r = received as int;
    if a > 0 {
        law_assets_to_shares_rounding(received, bank.total_deposit_shares, bank.total_deposits, false);
        let m = deposit_shares(bank, received);
        let big = u64::MAX as int;
        if m <= big {
            assert(r * s < (big + 1) * a) by (nonlinear_arith)
                requires
                    r * s < (m + 1) * a,
                    m <= big,
                    a > 0,
            ;
        } else {
            assert(r * s >= (big + 1) * a) by (nonlinear_arith)
                requires
                    m * a <= r * s,
                    m >= big + 1,
                    a > 0,
            ;
        }
    }
}

} // verus!
