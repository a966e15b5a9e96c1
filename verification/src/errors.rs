use vstd::prelude::*;

verus! {

/// Reasons for which the bank refuses an instruction.
#[derive(Debug, Clone, Copy, PartialEq, Eq, Structural)]
pub enum BankErrors {
    BankIsNotInitialized,
    MintForBankIsWrong,
    MintForUserSharesIsWrong,
    UserAtaForBankIsWrong,
    NotEnoughTokensTransferred,
    ZeroSharesFromDeposit,
    ZeroSharesToBurn,
    NotEnoughAmountToDeposit,
    TooBigAmountToDeposit,
    BankUnderfunded,
    InvalidBankState,
    Overflow,
    DivisionByZero,
    UnauthorizedAccess,
    InsufficientUserShares,
    ZeroAmountToWithdraw,
    WithdrawError,
    DepositError,
    UserHasNoShares,
    ZeroAmountToDeposit,
}

} // verus!
