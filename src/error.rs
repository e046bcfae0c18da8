use vstd::prelude::*;

verus! {

/// Every way an operation on a pool or a pair can fail.
#[derive(Clone, Copy, Debug, PartialEq, Eq, Structural)]
pub enum ErrorCode {
    InvalidTokenOrder,
    InvalidLpMint,
    MathOverflow,
    InsufficientLiquidity,
    InsufficientTokenAmount,
    InsufficientReserves,
    InsufficientOutputAmount,
    InvalidTokenMint,
    InvalidFeeConfiguration,
    Unauthorized,
    DuplicateAsset,
    InvalidTokenIndex,
    InvalidTokenCount,
    InvalidWeight,
    SameTokenSwap,
    VaultNotEmpty,
}

} // verus!
