use vstd::prelude::*;

verus! {

/// The closed set of ways an operation on a pool can fail.
#[derive(Debug, Clone, Copy, PartialEq, Eq, Structural)]
pub enum ErrorCode {
    /// The caller lacks the tokens or shares to cover the requested amount.
    NotEnoughBalance,
    /// The computed number of new shares would be zero.
    NoPoolMintOutput,
    /// The burn amount exceeds the outstanding share supply.
    BurnTooMuch,
    /// The computed swap output is below the caller's minimum.
    NotEnoughOut,
    /// The token-1 deposit required by the reserve ratio exceeds what was offered.
    InsufficientMatchingDeposit,
    /// A swap was attempted on a pool with no reserves.
    PoolEmpty,
    /// A pool for this pair of mints already exists.
    PoolAlreadyExists,
    /// Both mints of the pair are the same.
    IdenticalMints,
    /// A checked arithmetic operation would have wrapped.
    ArithmeticOverflow,
    /// A divisor was zero.
    DivisionByZero,
}

} // verus!
