use bank::{
    check_deposit, convert_assets_to_shares, deposit, init_bank, transfer_received_amount, withdraw, Bank, BankErrors, User,
    MAX_USDC_DEPOSIT, MIN_USDC_DEPOSIT,
};

const AUTHORITY: [u8; 32] = [7; 32];
const MINT: [u8; 32] = [9; 32];
const ALICE: [u8; 32] = [1; 32];
const BOB: [u8; 32] = [2; 32];

fn fresh_user() -> User {
    User { user: [0; 32], deposit_usdc_shares: 0, is_initialized: false }
}

fn bank_with(total_deposits: u64, total_deposit_shares: u64) -> Bank {
    Bank { authority: AUTHORITY, mint: MINT, total_deposits, total_deposit_shares }
}

/// Runs a whole deposit: checks, the transfer seen as balances, crediting.
fn deposit_flow(bank: &mut Bank, user: &mut User, signer: [u8; 32], balance: &mut u64, amount: u64) -> Result<u64, BankErrors> {
    let mut record = check_deposit(bank, user, signer, *balance, amount)?;
    let before = *balance;
    let after = before + amount;
    let received = transfer_received_amount(before, after)?;
    let shares = deposit(bank, &mut record, received)?;
    *balance = after;
    *user = record;
    Ok(shares)
}

#[test]
fn bank_tests_litesvm_should_init_bank() {
    let bank = init_bank(AUTHORITY, MINT);
    assert_eq!(bank.authority, AUTHORITY);
    assert_eq!(bank.mint, MINT);
    assert_eq!(bank.total_deposits, 0);
    assert_eq!(bank.total_deposit_shares, 0);
}

#[test]
fn init_bank_instruction_tests_should_init_bank() {
    let other_authority = [3u8; 32];
    let bank = init_bank(other_authority, MINT);
    assert_eq!(bank.authority, other_authority);
    assert_eq!(bank.mint, MINT);
    assert_eq!(bank.total_deposits, 0);
    assert_eq!(bank.total_deposit_shares, 0);
}

#[test]
fn deposit_should_revert_if_amount_is_zero() {
    let bank = init_bank(AUTHORITY, MINT);
    let user = fresh_user();
    let bank_token_balance = 0;
    let result = check_deposit(&bank, &user, ALICE, bank_token_balance, 0);
    assert_eq!(result.unwrap_err(), BankErrors::ZeroAmountToDeposit);
    // nothing was credited and no token moved
    assert_eq!(bank.total_deposits, 0);
    assert_eq!(bank.total_deposit_shares, 0);
    assert_eq!(user.deposit_usdc_shares, 0);
    assert_eq!(bank_token_balance, 0);
}

#[test]
fn deposit_should_revert_if_user_is_not_user_state_owner() {
    let bank = bank_with(0, 0);
    let owned_by_alice = User { user: ALICE, deposit_usdc_shares: 5, is_initialized: true };
    let result = check_deposit(&bank, &owned_by_alice, BOB, 0, MIN_USDC_DEPOSIT);
    assert_eq!(result.unwrap_err(), BankErrors::UnauthorizedAccess);
}

#[test]
fn check_deposit_sets_up_a_fresh_record_for_the_signer() {
    let bank = bank_with(0, 0);
    let record = check_deposit(&bank, &fresh_user(), ALICE, 0, MIN_USDC_DEPOSIT).unwrap();
    assert_eq!(record.user, ALICE);
    assert_eq!(record.deposit_usdc_shares, 0);
    assert!(record.is_initialized);
}

#[test]
fn check_deposit_keeps_an_existing_record() {
    let bank = bank_with(100, 100);
    let existing = User { user: ALICE, deposit_usdc_shares: 40, is_initialized: true };
    let record = check_deposit(&bank, &existing, ALICE, 100, MAX_USDC_DEPOSIT).unwrap();
    assert_eq!(record.deposit_usdc_shares, 40);
}

#[test]
fn deposit_should_revert_if_amount_is_less_than_allowed() {
    let bank = bank_with(0, 0);
    let result = check_deposit(&bank, &fresh_user(), ALICE, 0, MIN_USDC_DEPOSIT - 1);
    assert_eq!(result.unwrap_err(), BankErrors::NotEnoughAmountToDeposit);
}

#[test]
fn deposit_should_revert_if_amount_is_more_than_allowed() {
    let bank = bank_with(0, 0);
    let result = check_deposit(&bank, &fresh_user(), ALICE, 0, MAX_USDC_DEPOSIT + 1);
    assert_eq!(result.unwrap_err(), BankErrors::TooBigAmountToDeposit);
}

#[test]
fn deposit_reverts_when_bank_is_underfunded() {
    let bank = bank_with(100, 100);
    let result = check_deposit(&bank, &fresh_user(), ALICE, 99, MIN_USDC_DEPOSIT);
    assert_eq!(result.unwrap_err(), BankErrors::BankUnderfunded);
}

#[test]
fn transfer_received_amount_checks_the_balances() {
    assert_eq!(transfer_received_amount(5, 5 + MIN_USDC_DEPOSIT), Ok(MIN_USDC_DEPOSIT));
    assert_eq!(transfer_received_amount(10, 9), Err(BankErrors::Overflow));
    assert_eq!(transfer_received_amount(5, 4 + MIN_USDC_DEPOSIT), Err(BankErrors::NotEnoughTokensTransferred));
}

#[test]
fn first_deposit_mints_shares_one_for_one() {
    let mut bank = init_bank(AUTHORITY, MINT);
    let mut user = fresh_user();
    let mut balance = 0;
    let shares = deposit_flow(&mut bank, &mut user, ALICE, &mut balance, MIN_USDC_DEPOSIT).unwrap();
    assert_eq!(shares, MIN_USDC_DEPOSIT);
    assert_eq!(bank.total_deposits, MIN_USDC_DEPOSIT);
    assert_eq!(bank.total_deposit_shares, MIN_USDC_DEPOSIT);
    assert_eq!(user.deposit_usdc_shares, MIN_USDC_DEPOSIT);
    assert_eq!(user.user, ALICE);
}

#[test]
fn deposit_into_richer_pool_mints_fewer_shares() {
    // 150 assets back 100 shares: 30 assets buy 20 shares
    let mut bank = bank_with(150, 100);
    let mut user = User { user: ALICE, deposit_usdc_shares: 0, is_initialized: true };
    let shares = deposit(&mut bank, &mut user, 30).unwrap();
    assert_eq!(shares, 20);
    assert_eq!(bank.total_deposits, 180);
    assert_eq!(bank.total_deposit_shares, 120);
    assert_eq!(user.deposit_usdc_shares, 20);
}

#[test]
fn deposit_reverts_when_no_share_would_be_minted() {
    let mut bank = bank_with(5, 0);
    let mut user = User { user: ALICE, deposit_usdc_shares: 0, is_initialized: true };
    assert_eq!(deposit(&mut bank, &mut user, 100), Err(BankErrors::ZeroSharesFromDeposit));
    assert_eq!(bank.total_deposits, 5);
}

#[test]
fn deposit_reverts_on_overflow_and_changes_nothing() {
    let mut bank = bank_with(u64::MAX - 5, u64::MAX - 5);
    let mut user = User { user: ALICE, deposit_usdc_shares: 3, is_initialized: true };
    assert_eq!(deposit(&mut bank, &mut user, 10), Err(BankErrors::Overflow));
    assert_eq!(bank.total_deposits, u64::MAX - 5);
    assert_eq!(bank.total_deposit_shares, u64::MAX - 5);
    assert_eq!(user.deposit_usdc_shares, 3);
}

#[test]
fn deposit_reverts_when_the_depositor_shares_overflow() {
    let mut bank = bank_with(10, 10);
    let mut user = User { user: ALICE, deposit_usdc_shares: u64::MAX - 1, is_initialized: true };
    assert_eq!(deposit(&mut bank, &mut user, 10), Err(BankErrors::Overflow));
    assert_eq!(bank.total_deposits, 10);
}

#[test]
fn withdraw_should_revert_if_zero_amount_to_withdraw() {
    let mut bank = bank_with(2 * MIN_USDC_DEPOSIT, 2 * MIN_USDC_DEPOSIT);
    let mut user = User { user: ALICE, deposit_usdc_shares: 2 * MIN_USDC_DEPOSIT, is_initialized: true };
    let result = withdraw(&mut bank, &mut user, 2 * MIN_USDC_DEPOSIT, 0);
    assert_eq!(result.unwrap_err(), BankErrors::ZeroAmountToWithdraw);
    assert_eq!(bank.total_deposits, 2 * MIN_USDC_DEPOSIT);
    assert_eq!(bank.total_deposit_shares, 2 * MIN_USDC_DEPOSIT);
    assert_eq!(user.deposit_usdc_shares, 2 * MIN_USDC_DEPOSIT);
}

#[test]
fn withdraw_all_should_update_bank_and_user_states_and_token_accounts_and_emit() {
    let amount_to_deposit_and_withdraw = MIN_USDC_DEPOSIT;
    let mut bank = init_bank(AUTHORITY, MINT);
    let mut user = fresh_user();
    let mut balance = 0;
    deposit_flow(&mut bank, &mut user, ALICE, &mut balance, amount_to_deposit_and_withdraw).unwrap();
    assert_eq!(bank.total_deposits, amount_to_deposit_and_withdraw);
    assert_eq!(bank.total_deposit_shares, amount_to_deposit_and_withdraw);
    assert_eq!(user.deposit_usdc_shares, amount_to_deposit_and_withdraw);
    let before = bank;

    let receipt = withdraw(&mut bank, &mut user, balance, amount_to_deposit_and_withdraw).unwrap();
    balance -= receipt.assets;
    let shares_to_burn = convert_assets_to_shares(
        amount_to_deposit_and_withdraw,
        before.total_deposit_shares,
        before.total_deposits,
        true,
    );
    assert_eq!(bank.total_deposits, before.total_deposits - amount_to_deposit_and_withdraw);
    assert_eq!(bank.total_deposit_shares, before.total_deposit_shares - shares_to_burn);
    assert_eq!(balance, 0);
    assert!(receipt.close_user);
    assert_eq!(receipt.assets, amount_to_deposit_and_withdraw);
    assert_eq!(receipt.shares, shares_to_burn);
    assert!(balance >= bank.total_deposits);
    assert_eq!(0, bank.total_deposit_shares);
}

#[test]
fn withdraw_no_dust_remains() {
    let amount_to_deposit = 2 * MIN_USDC_DEPOSIT;
    let amount_to_withdraw = MIN_USDC_DEPOSIT + 1;
    let mut bank = init_bank(AUTHORITY, MINT);
    let mut user = fresh_user();
    let mut balance = 0;
    deposit_flow(&mut bank, &mut user, ALICE, &mut balance, amount_to_deposit).unwrap();
    assert_eq!(bank.total_deposits, amount_to_deposit);
    assert_eq!(bank.total_deposit_shares, amount_to_deposit);
    let before_user_shares = user.deposit_usdc_shares;
    assert_eq!(before_user_shares, amount_to_deposit);

    let receipt = withdraw(&mut bank, &mut user, balance, amount_to_withdraw).unwrap();
    balance -= receipt.assets;
    assert_eq!(bank.total_deposits, 0);
    assert_eq!(bank.total_deposit_shares, 0);
    assert_eq!(balance, 0);
    assert!(receipt.close_user);
    assert_eq!(receipt.assets, amount_to_deposit);
    assert_eq!(receipt.shares, before_user_shares);
    assert!(balance >= bank.total_deposits);
    assert_eq!(0, bank.total_deposit_shares);
}

#[test]
fn withdraw_but_leave_minimum() {
    let amount_to_deposit = 2 * MIN_USDC_DEPOSIT;
    let amount_to_withdraw = MIN_USDC_DEPOSIT - 1;
    let mut bank = init_bank(AUTHORITY, MINT);
    let mut user = fresh_user();
    let mut balance = 0;
    deposit_flow(&mut bank, &mut user, ALICE, &mut balance, amount_to_deposit).unwrap();
    assert_eq!(bank.total_deposits, amount_to_deposit);
    assert_eq!(bank.total_deposit_shares, amount_to_deposit);
    assert_eq!(user.deposit_usdc_shares, amount_to_deposit);
    let before = bank;
    let before_user = user;

    let receipt = withdraw(&mut bank, &mut user, balance, amount_to_withdraw).unwrap();
    balance -= receipt.assets;
    assert_eq!(bank.total_deposits, before.total_deposits - amount_to_withdraw);
    let shares_to_burn = convert_assets_to_shares(
        amount_to_withdraw,
        before.total_deposit_shares,
        before.total_deposits,
        true,
    );
    assert_eq!(bank.total_deposit_shares, before.total_deposit_shares - shares_to_burn);
    assert_eq!(balance, amount_to_deposit - amount_to_withdraw);
    assert!(!receipt.close_user);
    assert_eq!(user.deposit_usdc_shares, before_user.deposit_usdc_shares - shares_to_burn);
    assert_eq!(receipt.assets, amount_to_withdraw);
    assert_eq!(receipt.shares, shares_to_burn);
    assert!(balance >= bank.total_deposits);
    assert_eq!(user.deposit_usdc_shares, bank.total_deposit_shares);
}

#[test]
fn withdraw_of_exactly_a_minimal_deposit_leaves_the_rest() {
    let mut bank = bank_with(2 * MIN_USDC_DEPOSIT, 2 * MIN_USDC_DEPOSIT);
    let mut user = User { user: ALICE, deposit_usdc_shares: 2 * MIN_USDC_DEPOSIT, is_initialized: true };
    let receipt = withdraw(&mut bank, &mut user, 2 * MIN_USDC_DEPOSIT, MIN_USDC_DEPOSIT).unwrap();
    assert_eq!(receipt.assets, MIN_USDC_DEPOSIT);
    assert_eq!(receipt.shares, MIN_USDC_DEPOSIT);
    assert!(!receipt.close_user);
    assert_eq!(bank.total_deposits, MIN_USDC_DEPOSIT);
    assert_eq!(bank.total_deposit_shares, MIN_USDC_DEPOSIT);
    assert_eq!(user.deposit_usdc_shares, MIN_USDC_DEPOSIT);
}

#[test]
fn withdraw_all_via_two_attempts() {
    let amount_to_deposit = 2 * MIN_USDC_DEPOSIT;
    let amount_to_withdraw = MIN_USDC_DEPOSIT - 1;
    let mut bank = init_bank(AUTHORITY, MINT);
    let mut user = fresh_user();
    let mut balance = 0;
    deposit_flow(&mut bank, &mut user, ALICE, &mut balance, amount_to_deposit).unwrap();

    let first = withdraw(&mut bank, &mut user, balance, amount_to_withdraw).unwrap();
    balance -= first.assets;
    assert_eq!(first.assets, amount_to_withdraw);
    assert_eq!(first.shares, amount_to_withdraw);
    assert!(!first.close_user);
    assert_eq!(user.deposit_usdc_shares, MIN_USDC_DEPOSIT + 1);

    let second = withdraw(&mut bank, &mut user, balance, amount_to_withdraw).unwrap();
    balance -= second.assets;
    assert_eq!(second.assets, MIN_USDC_DEPOSIT + 1);
    assert_eq!(second.shares, MIN_USDC_DEPOSIT + 1);
    assert!(second.close_user);
    assert_eq!(balance, 0);
    assert_eq!(bank.total_deposits, 0);
    assert_eq!(bank.total_deposit_shares, 0);
}

#[test]
fn double_withdraw_attempt_is_refused() {
    let mut bank = bank_with(MIN_USDC_DEPOSIT, MIN_USDC_DEPOSIT);
    let mut user = User { user: ALICE, deposit_usdc_shares: MIN_USDC_DEPOSIT, is_initialized: true };
    withdraw(&mut bank, &mut user, MIN_USDC_DEPOSIT, MIN_USDC_DEPOSIT).unwrap();
    let again = withdraw(&mut bank, &mut user, 0, MIN_USDC_DEPOSIT);
    assert_eq!(again.unwrap_err(), BankErrors::ZeroSharesToBurn);
}

#[test]
fn withdraw_rounds_burnt_shares_up() {
    // 30 assets back 20 shares: withdrawing 10 assets burns ceil(10 * 20 / 30) = 7 shares
    let big = 100 * MIN_USDC_DEPOSIT;
    let mut bank = bank_with(3 * big, 2 * big);
    let mut user = User { user: ALICE, deposit_usdc_shares: 2 * big, is_initialized: true };
    let receipt = withdraw(&mut bank, &mut user, 3 * big, 10).unwrap();
    assert_eq!(receipt.assets, 10);
    assert_eq!(receipt.shares, 7);
    assert_eq!(bank.total_deposits, 3 * big - 10);
    assert_eq!(bank.total_deposit_shares, 2 * big - 7);
}

#[test]
fn withdraw_reverts_when_bank_is_underfunded() {
    let mut bank = bank_with(100, 100);
    let mut user = User { user: ALICE, deposit_usdc_shares: 100, is_initialized: true };
    assert_eq!(withdraw(&mut bank, &mut user, 99, 50).unwrap_err(), BankErrors::BankUnderfunded);
}

#[test]
fn withdraw_reverts_when_user_holds_more_than_the_bank() {
    let mut bank = bank_with(100, 100);
    let mut user = User { user: ALICE, deposit_usdc_shares: 101, is_initialized: true };
    assert_eq!(withdraw(&mut bank, &mut user, 100, 50).unwrap_err(), BankErrors::InvalidBankState);
}

#[test]
fn withdraw_reverts_on_amount_overflow() {
    let mut bank = bank_with(100, 100);
    let mut user = User { user: ALICE, deposit_usdc_shares: 100, is_initialized: true };
    let result = withdraw(&mut bank, &mut user, 100, u64::MAX - MIN_USDC_DEPOSIT + 1);
    assert_eq!(result.unwrap_err(), BankErrors::Overflow);
    assert_eq!(bank.total_deposits, 100);
}

#[test]
fn shares_stay_conserved_across_depositors() {
    let mut bank = init_bank(AUTHORITY, MINT);
    let mut alice = fresh_user();
    let mut bob = fresh_user();
    let mut balance = 0;
    deposit_flow(&mut bank, &mut alice, ALICE, &mut balance, 3 * MIN_USDC_DEPOSIT).unwrap();
    deposit_flow(&mut bank, &mut bob, BOB, &mut balance, 5 * MIN_USDC_DEPOSIT + 7).unwrap();
    let receipt = withdraw(&mut bank, &mut alice, balance, MIN_USDC_DEPOSIT + 3).unwrap();
    balance -= receipt.assets;
    assert_eq!(alice.deposit_usdc_shares + bob.deposit_usdc_shares, bank.total_deposit_shares);
    assert!(balance >= bank.total_deposits);
    assert!(bank.total_deposit_shares <= bank.total_deposits);
}

#[test]
fn deposit_shares_fit_tells_when_minting_overflows() {
    assert!(bank::deposit_shares_fit(&bank_with(10, 10), u64::MAX));
    assert!(bank::deposit_shares_fit(&bank_with(0, 5), u64::MAX));
    assert!(!bank::deposit_shares_fit(&bank_with(1, u64::MAX), 2));
}

#[test]
fn deposit_should_update_bank_and_user_states_and_token_accounts_and_emit() {
    let mut bank = init_bank(AUTHORITY, MINT);
    let mut user = fresh_user();
    let mut balance = 0;
    let shares = deposit_flow(&mut bank, &mut user, ALICE, &mut balance, MIN_USDC_DEPOSIT).unwrap();
    assert_eq!(shares, convert_assets_to_shares(MIN_USDC_DEPOSIT, 0, 0, false));
    assert_eq!(bank.total_deposits, MIN_USDC_DEPOSIT);
    assert_eq!(bank.total_deposit_shares, shares);
    assert_eq!(balance, MIN_USDC_DEPOSIT);
    assert_eq!(user.user, ALICE);
    assert!(balance >= bank.total_deposits);
    assert_eq!(user.deposit_usdc_shares, bank.total_deposit_shares);
}

#[test]
fn deposit_should_update_bank_and_user_shares_and_token_accounts_and_emit() {
    let mut bank = init_bank(AUTHORITY, MINT);
    let mut user = fresh_user();
    let mut balance = 0;
    deposit_flow(&mut bank, &mut user, ALICE, &mut balance, MIN_USDC_DEPOSIT).unwrap();
    let before = bank;
    let before_user = user.deposit_usdc_shares;
    let shares = deposit_flow(&mut bank, &mut user, ALICE, &mut balance, MIN_USDC_DEPOSIT).unwrap();
    assert_eq!(
        shares,
        convert_assets_to_shares(MIN_USDC_DEPOSIT, before.total_deposit_shares, before.total_deposits, false)
    );
    assert_eq!(user.deposit_usdc_shares, before_user + shares);
    assert!(balance >= bank.total_deposits);
    assert_eq!(user.deposit_usdc_shares, bank.total_deposit_shares);
}

#[test]
fn deposit_should_revert_if_user_is_not_user_shares_owner() {
    let mut bank = init_bank(AUTHORITY, MINT);
    let mut alice = fresh_user();
    let mut balance = 0;
    deposit_flow(&mut bank, &mut alice, ALICE, &mut balance, MIN_USDC_DEPOSIT).unwrap();
    // Bob signs a deposit into Alice's record
    let result = check_deposit(&bank, &alice, BOB, balance, MIN_USDC_DEPOSIT);
    assert_eq!(result.unwrap_err(), BankErrors::UnauthorizedAccess);
}
