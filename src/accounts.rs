use vstd::prelude::*;

verus! {

/// A 32-byte account address, held as its high and low 16 bytes.
#[derive(Clone, Copy, Debug, PartialEq, Eq, Structural)]
pub struct Pubkey {
    pub hi: u128,
    pub lo: u128,
}

/// What the pool reads of a token account: its address, the asset it holds,
/// the identity that owns it and its balance.
#[derive(Clone, Copy, Debug, PartialEq, Eq, Structural)]
pub struct TokenAccount {
    pub key: Pubkey,
    pub mint: Pubkey,
    pub owner: Pubkey,
    pub amount: u64,
}

/// One entry of a liquidity operation's account list: the caller's account
/// for an asset and the pool's vault for the same asset.
#[derive(Clone, Copy, Debug, PartialEq, Eq, Structural)]
pub struct AccountPair {
    pub user: TokenAccount,
    pub vault: TokenAccount,
}

} // verus!
