use vstd::prelude::*;

verus! {

/// Typed failures of the exchange core. Every failure aborts the whole operation.
#[derive(Clone, Copy, Debug, PartialEq, Eq, Structural)]
pub enum OpenBookError {
    /// Malformed order parameters.
    InvalidInput,
    /// Market creation with a fee pair that breaks `taker_fee >= 0 && |maker_fee| <= taker_fee`.
    InvalidInputMarketFees,
    /// Market creation with an expiry that already passed.
    InvalidInputMarketExpired,
    /// Non-positive lot sizes at market creation.
    InvalidInputLots,
    /// The oracle has not been updated recently enough.
    OracleStale,
    /// The oracle's uncertainty is above the configured filter.
    OracleConfidence,
    /// A division by zero or an overflow while deriving a price.
    InvalidOraclePrice,
    /// A pegged order on a market without an oracle.
    DisabledOraclePeg,
    /// The event queue holds its maximum number of events.
    EventQueueFull,
    /// The book side holds its maximum number of orders.
    BookFull,
    /// Every open-order slot of the account is in use.
    OpenOrdersFull,
    /// The signer is neither the owner nor the delegate of the account.
    NoOwnerOrDelegate,
    /// The open-orders admin given is not the market's.
    InvalidOpenOrdersAdmin,
    /// The vault given is not one of the market's vaults.
    InvalidMarketVault,
    /// The oracle accounts given are not the market's.
    InvalidOracleAccount,
    /// The account belongs to another market.
    InvalidMarket,
    /// The market expired.
    MarketExpired,
    /// The free balance does not cover the operation.
    InsufficientFunds,
    /// The incoming order would match a resting order of its own account.
    WouldSelfTrade,
    /// No resting order of the account has the given id.
    OrderNotFound,
    /// An amount does not fit its integer type.
    Overflow,
    /// Ledger state that can only come from a broken invariant.
    InvariantViolation,
}

} // verus!
