use vstd::prelude::*;
use vstd::arithmetic::div_mod::*;
use vstd::arithmetic::mul::*;

use crate::constants::{MAX_USDC_DEPOSIT, MIN_USDC_DEPOSIT};
use crate::errors::BankErrors;
use crate::shares_math::{
    assets_to_shares, convert_assets_to_shares, convert_shares_to_assets, shares_to_assets,
};
use crate::state::{Bank, User};

verus! {

/// What a successful withdrawal pays out and burns, and whether the
/// depositor's account is left without shares and must be closed.
#[derive(Debug, Clone, Copy)]
pub struct WithdrawReceipt {
    pub assets: u64,
    pub shares: u64,
    pub close_user: bool,
}

/// A fresh bank of `mint` created by `authority`: nothing deposited, no shares.
pub open spec fn new_bank(authority: [u8; 32], mint: [u8; 32]) -> Bank {
    Bank { authority, mint, total_deposits: 0, total_deposit_shares: 0 }
}

/// The depositor record a deposit works on: a record that has not been set
/// up yet is set up for the signer with no shares.
pub open spec fn depositor_record(user_state: User, signer: [u8; 32]) -> User {
    if !user_state.is_initialized {
        User { user: signer, deposit_usdc_shares: 0, is_initialized: true }
    } else {
        user_state
    }
}

/// The checks a deposit of `amount` passes before any token moves, in the
/// order they are made; on success, the depositor record to credit.
pub open spec fn deposit_request(
    bank: Bank,
    user_state: User,
    signer: [u8; 32],
    bank_token_balance: u64,
    amount: u64,
) -> Result<User, BankErrors> {
    if amount == 0 {
        Err(BankErrors::ZeroAmountToDeposit)
    } else if amount < MIN_USDC_DEPOSIT {
        Err(BankErrors::NotEnoughAmountToDeposit)
    } else if amount > MAX_USDC_DEPOSIT {
        Err(BankErrors::TooBigAmountToDeposit)
    } else if bank_token_balance < bank.total_deposits {
        Err(BankErrors::BankUnderfunded)
    } else if depositor_record(user_state, signer).user@ != signer@ {
        Err(BankErrors::UnauthorizedAccess)
    } else {
        Ok(depositor_record(user_state, signer))
    }
}

/// Tokens that arrived in the bank's token account during a transfer, read
/// off its balance before and after.
pub open spec fn transfer_received(balance_before: u64, balance_after: u64) -> Result<u64, BankErrors> {
    if balance_after < balance_before {
        Err(BankErrors::Overflow)
    } else if balance_after - balance_before < MIN_USDC_DEPOSIT {
        Err(BankErrors::NotEnoughTokensTransferred)
    } else {
        Ok((balance_after - balance_before) as u64)
    }
}

/// Shares minted for `received` tokens: rounded down, so that the pool never
/// gives away value.
pub open spec fn deposit_shares(bank: Bank, received: u64) -> int {
    assets_to_shares(received as int, bank.total_deposit_shares as int, bank.total_deposits as int, false)
}

/// The share computation of a deposit of `received` fits in a `u64`.
pub open spec fn deposit_fits(bank: Bank, received: u64) -> bool {
    deposit_shares(bank, received) <= u64::MAX
}

/// Crediting `received` tokens to the bank and to the depositor: the new
/// bank, the new depositor record and the shares minted, or the error.
pub open spec fn deposit_outcome(bank: Bank, user_state: User, received: u64) -> Result<(Bank, User, u64), BankErrors> {
    let shares = deposit_shares(bank, received);
    if shares == 0 {
        Err(BankErrors::ZeroSharesFromDeposit)
    } else if bank.total_deposit_shares + shares > u64::MAX
        || bank.total_deposits + received > u64::MAX
        || user_state.deposit_usdc_shares + shares > u64::MAX {
        Err(BankErrors::Overflow)
    } else {
        Ok((
            Bank {
                authority: bank.authority,
                mint: bank.mint,
                total_deposits: (bank.total_deposits + received) as u64,
                total_deposit_shares: (bank.total_deposit_shares + shares) as u64,
            },
            User {
                user: user_state.user,
                deposit_usdc_shares: (user_state.deposit_usdc_shares + shares) as u64,
                is_initialized: user_state.is_initialized,
            },
            shares as u64,
        ))
    }
}

/// Assets the depositor's shares are worth now.
pub open spec fn holdings(bank: Bank, user_state: User) -> int {
    shares_to_assets(
        user_state.deposit_usdc_shares as int,
        bank.total_deposit_shares as int,
        bank.total_deposits as int,
    )
}

/// Assets paid out and shares burnt for a request to withdraw `amount`: when
/// what would remain is less than a minimal deposit, everything the depositor
/// holds goes out; otherwise exactly `amount`, against its shares rounded up.
pub open spec fn withdraw_split(bank: Bank, user_state: User, amount: u64) -> (int, int) {
    if holdings(bank, user_state) < amount + MIN_USDC_DEPOSIT {
        (holdings(bank, user_state), user_state.deposit_usdc_shares as int)
    } else {
        (
            amount as int,
            assets_to_shares(amount as int, bank.total_deposit_shares as int, bank.total_deposits as int, true),
        )
    }
}

/// A withdrawal request of `amount` against a bank whose token account holds
/// `bank_token_balance`, its checks in the order they are made: the new bank,
/// the new depositor record and the receipt, or the error.
pub open spec fn withdraw_outcome(
    bank: Bank,
    user_state: User,
    bank_token_balance: u64,
    amount: u64,
) -> Result<(Bank, User, WithdrawReceipt), BankErrors> {
    let assets = withdraw_split(bank, user_state, amount).0;
    let shares = withdraw_split(bank, user_state, amount).1;
    if amount == 0 {
        Err(BankErrors::ZeroAmountToWithdraw)
    } else if bank_token_balance < bank.total_deposits {
        Err(BankErrors::BankUnderfunded)
    } else if bank.total_deposit_shares < user_state.deposit_usdc_shares {
        Err(BankErrors::InvalidBankState)
    } else if amount + MIN_USDC_DEPOSIT > u64::MAX {
        Err(BankErrors::Overflow)
    } else if shares == 0 {
        Err(BankErrors::ZeroSharesToBurn)
    } else if user_state.deposit_usdc_shares < shares {
        Err(BankErrors::InsufficientUserShares)
    } else if bank.total_deposits < assets {
        Err(BankErrors::BankUnderfunded)
    } else {
        Ok((
            Bank {
                authority: bank.authority,
                mint: bank.mint,
                total_deposits: (bank.total_deposits - assets) as u64,
                total_deposit_shares: (bank.total_deposit_shares - shares) as u64,
            },
            User {
                user: user_state.user,
                deposit_usdc_shares: (user_state.deposit_usdc_shares - shares) as u64,
                is_initialized: user_state.is_initialized,
            },
            WithdrawReceipt {
                assets: assets as u64,
                shares: shares as u64,
                close_user: user_state.deposit_usdc_shares - shares == 0,
            },
        ))
    }
}

/// `shares` out of `total_shares` are worth at most the whole pool.
proof fn lemma_part_of_pool(shares: int, total_shares: int, total_assets: int)
    requires
        0 <= shares <= total_shares,
        0 <= total_assets,
    ensures
        0 <= shares_to_assets(shares, total_shares, total_assets) <= total_assets,
{
    if total_shares > 0 {
        lemma_mul_nonnegative(total_assets, shares);
        lemma_mul_inequality(shares, total_shares, total_assets);
        lemma_mul_is_commutative(shares, total_assets);
        lemma_mul_is_commutative(total_shares, total_assets);
        lemma_multiply_divide_le(total_assets * shares, total_shares, total_assets);
        lemma_div_pos_is_pos(total_assets * shares, total_shares);
    }
}

/// Converting at most the whole pool into shares, rounded up, gives at most
/// all the shares.
proof fn lemma_within_pool_to_shares(assets: int, total_shares: int, total_assets: int)
    requires
        0 <= assets <= total_assets,
        0 < total_assets,
        0 <= total_shares,
    ensures
        0 <= assets_to_shares(assets, total_shares, total_assets, true) <= total_shares,
{
    lemma_mul_nonnegative(assets, total_shares);
    lemma_mul_inequality(assets, total_assets, total_shares);
    lemma_mul_is_distributive_add(total_assets, total_shares, 1);
    lemma_multiply_divide_lt(assets * total_shares + total_assets - 1, total_assets, total_shares + 1);
    lemma_div_pos_is_pos(assets * total_shares + total_assets - 1, total_assets);
}

/// Compares two 32-byte keys.
fn same_key(a: &[u8; 32], b: &[u8; 32]) -> (same: bool)
    ensures
        same == (a@ == b@),
{
    let mut i: usize = 0;
    while i < 32
        invariant
            0 <= i <= 32,
            a@.len() == 32,
            b@.len() == 32,
            forall|j: int| 0 <= j < i ==> a@[j] == b@[j],
        decreases 32 - i,
    {
        if a[i] != b[i] {
            return false;
        }
        i = i + 1;
    }
    assert(a@ =~= b@);
    true
}

/// Creates the state of a new bank.
pub fn init_bank(authority: [u8; 32], mint: [u8; 32]) -> (bank: Bank)
    ensures
        bank == new_bank(authority, mint),
        bank.authority == authority,
        bank.mint == mint,
        bank.total_deposits == 0,
        bank.total_deposit_shares == 0,
        bank.shares_backed(),
{
    Bank { authority, mint, total_deposits: 0, total_deposit_shares: 0 }
}

/// Checks a deposit request of `amount` by `signer` before any token is
/// transferred; returns the depositor record to credit, set up for the
/// signer when it was not set up yet.
pub fn check_deposit(
    bank: &Bank,
    user_state: &User,
    signer: [u8; 32],
    bank_token_balance: u64,
    amount: u64,
) -> (result: Result<User, BankErrors>)
    ensures
        result == deposit_request(*bank, *user_state, signer, bank_token_balance, amount),
{
    if amount == 0 {
        return Err(BankErrors::ZeroAmountToDeposit);
    }
    if amount < MIN_USDC_DEPOSIT {
        return Err(BankErrors::NotEnoughAmountToDeposit);
    }
    if amount > MAX_USDC_DEPOSIT {
        return Err(BankErrors::TooBigAmountToDeposit);
    }
    if bank_token_balance < bank.total_deposits {
        return Err(BankErrors::BankUnderfunded);
    }
    let record = if !user_state.is_initialized {
        User { user: signer, deposit_usdc_shares: 0, is_initialized: true }
    } else {
        *user_state
    };
    if !same_key(&record.user, &signer) {
        return Err(BankErrors::UnauthorizedAccess);
    }
    Ok(record)
}

/// Tokens received by the bank's token account in a transfer, from its
/// balance before and after; refuses a transfer that brought less than a
/// minimal deposit.
pub fn transfer_received_amount(balance_before: u64, balance_after: u64) -> (result: Result<u64, BankErrors>)
    ensures
        result == transfer_received(balance_before, balance_after),
{
    if balance_after < balance_before {
        return Err(BankErrors::Overflow);
    }
    let received = balance_after - balance_before;
    if received < MIN_USDC_DEPOSIT {
        return Err(BankErrors::NotEnoughTokensTransferred);
    }
    Ok(received)
}

/// Whether the shares minted for a deposit of `received` tokens fit in a
/// `u64`, which `deposit` needs.
pub fn deposit_shares_fit(bank: &Bank, received: u64) -> (fits: bool)
    ensures
        fits == deposit_fits(*bank, received),
{
    if bank.total_deposits == 0 {
        true
    } else {
        proof {
            lemma_mul_nonnegative(received as int, bank.total_deposit_shares as int);
            lemma_mul_upper_bound(received as int, u64::MAX as int, bank.total_deposit_shares as int, u64::MAX as int);
            assert(0xffff_ffff_ffff_ffffint * 0xffff_ffff_ffff_ffffint <= u128::MAX);
        }
        let product: u128 = (received as u128) * (bank.total_deposit_shares as u128);
        product / (bank.total_deposits as u128) <= u64::MAX as u128
    }
}

/// Credits `received` tokens to the bank and shares for them to the
/// depositor; returns the shares minted. On an error nothing changes.
pub fn deposit(bank: &mut Bank, user_state: &mut User, received: u64) -> (result: Result<u64, BankErrors>)
    requires
        deposit_fits(*old(bank), received),
    ensures
        match result {
            Ok(shares) => deposit_outcome(*old(bank), *old(user_state), received)
                == Ok::<(Bank, User, u64), BankErrors>((*final(bank), *final(user_state), shares)),
            Err(e) => deposit_outcome(*old(bank), *old(user_state), received)
                == Err::<(Bank, User, u64), BankErrors>(e)
                && *final(bank) == *old(bank) && *final(user_state) == *old(user_state),
        },
{
    let shares = convert_assets_to_shares(received, bank.total_deposit_shares, bank.total_deposits, false);
    if shares == 0 {
        return Err(BankErrors::ZeroSharesFromDeposit);
    }
    let total_deposit_shares = match bank.total_deposit_shares.checked_add(shares) {
        Some(v) => v,
        None => return Err(BankErrors::Overflow),
    };
    let total_deposits = match bank.total_deposits.checked_add(received) {
        Some(v) => v,
        None => return Err(BankErrors::Overflow),
    };
    let user_shares = match user_state.deposit_usdc_shares.checked_add(shares) {
        Some(v) => v,
        None => return Err(BankErrors::Overflow),
    };
    bank.total_deposit_shares = total_deposit_shares;
    bank.total_deposits = total_deposits;
    user_state.deposit_usdc_shares = user_shares;
    Ok(shares)
}

/// Withdraws `assets_amount_to_withdraw` for the depositor, or everything it
/// holds when less than a minimal deposit would remain, against a bank whose
/// token account holds `bank_token_balance`. Updates both records and returns
/// what to pay out, what was burnt and whether the depositor's record is
/// to be closed. On an error nothing changes.
pub fn withdraw(
    bank: &mut Bank,
    user_state: &mut User,
    bank_token_balance: u64,
    assets_amount_to_withdraw: u64,
) -> (result: Result<WithdrawReceipt, BankErrors>)
    ensures
        match result {
            Ok(receipt) => withdraw_outcome(*old(bank), *old(user_state), bank_token_balance, assets_amount_to_withdraw)
                == Ok::<(Bank, User, WithdrawReceipt), BankErrors>((*final(bank), *final(user_state), receipt)),
            Err(e) => withdraw_outcome(*old(bank), *old(user_state), bank_token_balance, assets_amount_to_withdraw)
                == Err::<(Bank, User, WithdrawReceipt), BankErrors>(e)
                && *final(bank) == *old(bank) && *final(user_state) == *old(user_state),
        },
{
    let amount = assets_amount_to_withdraw;
    if amount == 0 {
        return Err(BankErrors::ZeroAmountToWithdraw);
    }
    if bank_token_balance < bank.total_deposits {
        return Err(BankErrors::BankUnderfunded);
    }
    if bank.total_deposit_shares < user_state.deposit_usdc_shares {
        return Err(BankErrors::InvalidBankState);
    }
    proof {
        lemma_part_of_pool(
            user_state.deposit_usdc_shares as int,
            bank.total_deposit_shares as int,
            bank.total_deposits as int,
        );
    }
    let user_holds = convert_shares_to_assets(
        user_state.deposit_usdc_shares,
        bank.total_deposit_shares,
        bank.total_deposits,
    );
    let threshold = match amount.checked_add(MIN_USDC_DEPOSIT) {
        Some(v) => v,
        None => return Err(BankErrors::Overflow),
    };
    let (assets, shares) = if user_holds < threshold {
        (user_holds, user_state.deposit_usdc_shares)
    } else {
        proof {
            lemma_within_pool_to_shares(
                amount as int,
                bank.total_deposit_shares as int,
                bank.total_deposits as int,
            );
        }
        (amount, convert_assets_to_shares(amount, bank.total_deposit_shares, bank.total_deposits, true))
    };
    if shares == 0 {
        return Err(BankErrors::ZeroSharesToBurn);
    }
    if user_state.deposit_usdc_shares < shares {
        return Err(BankErrors::InsufficientUserShares);
    }
    if bank.total_deposits < assets {
        return Err(BankErrors::BankUnderfunded);
    }
    bank.total_deposits = bank.total_deposits - assets;
    bank.total_deposit_shares = bank.total_deposit_shares - shares;
    user_state.deposit_usdc_shares = user_state.deposit_usdc_shares - shares;
    Ok(WithdrawReceipt { assets, shares, close_user: user_state.deposit_usdc_shares == 0 })
}

} // verus!
