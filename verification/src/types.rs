//! The plain types shared by the ledger and the exchanges.

use vstd::prelude::*;

verus! {

/// Identifies an asset of the ledger; ids are handed out from zero upwards.
pub type AssetId = u32;

/// Identifies an account. Sixteen bytes hold the tag, the module id and the
/// index from which the account of a pool is derived.
pub type AccountId = u128;

/// An amount of a ledger asset.
pub type TokenBalance = u64;

/// An amount of the native currency.
pub type Balance = u128;

/// Identifies a pool; ids are handed out from zero upwards.
pub type ExchangeId = u32;

/// A block height.
pub type BlockNumber = u32;

/// Why an operation was rejected. A rejected operation changes nothing.
#[derive(Clone, Copy, Debug, PartialEq, Eq, Structural)]
pub enum Error {
    /// A transfer of zero units was asked for.
    AmountZero,
    /// The source holds fewer units than are to leave it.
    BalanceLow,
    /// The spender's allowance is smaller than the amount.
    AllowanceLow,
    /// An exact result does not fit the integers it is computed in.
    Overflow,
    /// The deadline has passed.
    Deadline,
    /// No asset has this id.
    TokenNotExists,
    /// Zero tokens were named.
    ZeroTokens,
    /// Zero currency was named.
    ZeroCurrency,
    /// No pool has this id.
    ExchangeNotExists,
    /// The token already has a pool.
    ExchangeAlreadyExists,
    /// A provider to a funded pool asked for at least zero shares.
    RequestedZeroLiquidity,
    /// The provision would take more tokens than the provider allows.
    TooManyTokens,
    /// The provision would mint fewer shares than the provider asks for.
    TooLowLiquidity,
    /// Zero shares were to be burned.
    BurnZeroShares,
    /// The pool has no shares outstanding.
    NoLiquidity,
    /// Less currency would be paid out than the caller asks for.
    NotEnoughCurrency,
    /// Fewer tokens would be paid out than the caller asks for.
    NotEnoughTokens,
    /// The purchase would cost more currency than the caller allows.
    TooExpensiveCurrency,
    /// The purchase would cost more tokens than the caller allows.
    TooExpensiveTokens,
    /// The currency transfer would leave its source below the minimum that
    /// keeps an account alive.
    KeepAlive,
    /// The source of a currency transfer holds less than the amount.
    InsufficientBalance,
}

} // verus!
