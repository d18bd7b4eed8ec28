use vstd::prelude::*;

verus! {

/// Why an operation on a pool was turned down.
#[derive(Clone, Copy, Debug, PartialEq, Eq, Structural)]
pub enum AmmError {
    DefaultError,
    OfferExpired,
    PoolLocked,
    SlippageExceeded,
    Overflow,
    Underflow,
    InvalidToken,
    LiquidityLessThanMinimum,
    NoLiquidityInPool,
    BumpError,
    CurveError,
    InvalidFee,
    InvalidAuthority,
    NoAuthoritySet,
    InvalidAmount,
}

} // verus!
