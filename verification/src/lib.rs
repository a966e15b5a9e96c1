//! Accounting core of a single-asset deposit bank: deposits are turned into
//! shares of the pooled assets, and shares are redeemed for a proportional
//! part of the pool on withdrawal.

pub mod constants;
pub mod errors;
pub mod events;
pub mod instructions;
pub mod laws;
pub mod state;
pub mod shares_math;

pub use constants::{MAX_USDC_DEPOSIT, MIN_USDC_DEPOSIT};
pub use errors::BankErrors;
pub use instructions::{
    check_deposit, deposit, deposit_shares_fit, init_bank, transfer_received_amount, withdraw, WithdrawReceipt,
};
pub use state::{Bank, User, UserShares};
pub use shares_math::{convert_assets_to_shares, convert_shares_to_assets};
