use vstd::prelude::*;

use crate::accounts::{Pubkey, TokenAccount};
use crate::error::ErrorCode;
use crate::math::lemma_u64_product_fits;
use crate::pool::{fee_of, has_mint, mints_distinct, slot_index, weighted_out, AnySwapPool};

verus! {

/// The accounts of a swap: the pool's vaults for the asset paid in and the
/// asset paid out, the caller's accounts for both, the caller and the pool's
/// authority.
#[derive(Clone, Copy, Debug, PartialEq, Eq, Structural)]
pub struct Swap {
    pub pool_authority: Pubkey,
    pub vault_in: TokenAccount,
    pub vault_out: TokenAccount,
    pub user_in: TokenAccount,
    pub user_out: TokenAccount,
    pub owner: Pubkey,
}

/// The priced swap: the fee kept by the pool, the input left after it, and the
/// output owed to the caller. The caller pays the whole input into the input
/// vault and receives `amount_out` from the output vault.
#[derive(Clone, Copy, Debug, PartialEq, Eq, Structural)]
pub struct SwapOutcome {
    pub fee: u64,
    pub amount_in_after_fee: u64,
    pub amount_out: u64,
}

/// Both vaults belong to the pool's authority, the caller owns both of its
/// accounts, and it pays from an account of the input vault's asset.
pub open spec fn swap_accounts_consistent(ctx: Swap) -> bool {
    &&& ctx.vault_in.owner == ctx.pool_authority
    &&& ctx.vault_out.owner == ctx.pool_authority
    &&& ctx.vault_in.mint == ctx.user_in.mint
    &&& ctx.user_in.owner == ctx.owner
    &&& ctx.user_out.owner == ctx.owner
}

/// What a swap of `amount_in`, with slippage bound `min_amount_out`, yields on `pool`.
pub open spec fn swap_result(pool: AnySwapPool, ctx: Swap, amount_in: u64, min_amount_out: u64) -> Result<
    SwapOutcome,
    ErrorCode,
> {
    let s = pool.tokens@;
    if !swap_accounts_consistent(ctx) {
        Err(ErrorCode::InvalidTokenMint)
    } else if ctx.user_in.amount < amount_in {
        Err(ErrorCode::InsufficientTokenAmount)
    } else if !has_mint(s, ctx.vault_in.mint) || !has_mint(s, ctx.vault_out.mint) {
        Err(ErrorCode::InvalidTokenMint)
    } else if ctx.vault_in.mint == ctx.vault_out.mint {
        Err(ErrorCode::SameTokenSwap)
    } else {
        let t_in = s[slot_index(s, ctx.vault_in.mint)];
        let t_out = s[slot_index(s, ctx.vault_out.mint)];
        if t_in.vault != ctx.vault_in.key || t_out.vault != ctx.vault_out.key {
            Err(ErrorCode::InvalidTokenMint)
        } else if ctx.vault_in.amount == 0 || ctx.vault_out.amount == 0 {
            Err(ErrorCode::InsufficientLiquidity)
        } else {
            let fee = fee_of(amount_in as int, pool.fee_numerator as int, pool.fee_denominator as int);
            let after = amount_in - fee;
            let out = weighted_out(after, t_in.weight as int, t_out.weight as int);
            if out > u64::MAX {
                Err(ErrorCode::MathOverflow)
            } else if out < min_amount_out {
                Err(ErrorCode::InsufficientOutputAmount)
            } else if out >= ctx.vault_out.amount {
                Err(ErrorCode::InsufficientLiquidity)
            } else {
                Ok(SwapOutcome { fee: fee as u64, amount_in_after_fee: after as u64, amount_out: out as u64 })
            }
        }
    }
}

/// With distinct assets, the slot found for `s[i].mint` is `i`.
pub proof fn lemma_slot_index_unique(s: Seq<crate::pool::TokenItem>, i: int)
    requires
        mints_distinct(s),
        0 <= i < s.len(),
    ensures
        has_mint(s, s[i].mint),
        slot_index(s, s[i].mint) == i,
{
    assert(has_mint(s, s[i].mint));
    let j = slot_index(s, s[i].mint);
    if j != i {
        assert(s[j].mint != s[i].mint);
    }
}

/// Floor division never lets the priced output exceed the priced input:
/// `out * weight_out <= amount * weight_in`.
pub proof fn lemma_weighted_out_bound(amount: int, weight_in: int, weight_out: int)
    requires
        0 <= amount,
        0 < weight_in,
        0 < weight_out,
    ensures
        0 <= weighted_out(amount, weight_in, weight_out),
        weighted_out(amount, weight_in, weight_out) * weight_out <= amount * weight_in,
{
    let p = amount * weight_in;
    assert(0 <= p) by (nonlinear_arith)
        requires
            0 <= amount,
            0 < weight_in,
            p == amount * weight_in,
    ;
    vstd::arithmetic::div_mod::lemma_div_pos_is_pos(p, weight_out);
    vstd::arithmetic::div_mod::lemma_fundamental_div_mod(p, weight_out);
    vstd::arithmetic::div_mod::lemma_mod_pos_bound(p, weight_out);
    assert((p / weight_out) * weight_out == weight_out * (p / weight_out)) by (nonlinear_arith);
}

/// Prices and checks a swap of `amount_in` on `pool`, failing with the first
/// check that does not hold; nothing is moved here.
pub fn swap_anyswap(pool: &AnySwapPool, ctx: &Swap, amount_in: u64, min_amount_out: u64) -> (r: Result<
    SwapOutcome,
    ErrorCode,
>)
    requires
        pool.wf(),
    ensures
        r == swap_result(*pool, *ctx, amount_in, min_amount_out),
        r matches Ok(o) ==> {
            let s = pool.tokens@;
            &&& min_amount_out <= o.amount_out < ctx.vault_out.amount
            &&& o.fee + o.amount_in_after_fee == amount_in
            &&& o.amount_out * s[slot_index(s, ctx.vault_out.mint)].weight
                <= o.amount_in_after_fee * s[slot_index(s, ctx.vault_in.mint)].weight
        },
{
    if ctx.vault_in.owner != ctx.pool_authority || ctx.vault_out.owner != ctx.pool_authority
        || ctx.vault_in.mint != ctx.user_in.mint || ctx.user_in.owner != ctx.owner
        || ctx.user_out.owner != ctx.owner {
        return Err(ErrorCode::InvalidTokenMint);
    }
    if ctx.user_in.amount < amount_in {
        return Err(ErrorCode::InsufficientTokenAmount);
    }
    let token_in_index = match pool.find_token_index(&ctx.vault_in.mint) {
        Some(i) => i,
        None => {
            return Err(ErrorCode::InvalidTokenMint);
        },
    };
    let token_out_index = match pool.find_token_index(&ctx.vault_out.mint) {
        Some(i) => i,
        None => {
            return Err(ErrorCode::InvalidTokenMint);
        },
    };
    proof {
        lemma_slot_index_unique(pool.tokens@, token_in_index as int);
        lemma_slot_index_unique(pool.tokens@, token_out_index as int);
    }
    if token_in_index == token_out_index {
        return Err(ErrorCode::SameTokenSwap);
    }
    let token_in = pool.tokens[token_in_index];
    let token_out = pool.tokens[token_out_index];
    if token_in.vault != ctx.vault_in.key || token_out.vault != ctx.vault_out.key {
        return Err(ErrorCode::InvalidTokenMint);
    }
    let reserve_in = ctx.vault_in.amount;
    let reserve_out = ctx.vault_out.amount;
    if reserve_in == 0 || reserve_out == 0 {
        return Err(ErrorCode::InsufficientLiquidity);
    }
    let (fee, amount_in_minus_fees) = match pool.calculate_fee(amount_in) {
        Ok(split) => split,
        Err(e) => {
            return Err(e);
        },
    };
    let amount_out = match pool.calculate_swap_output(token_in_index, token_out_index, amount_in_minus_fees) {
        Ok(out) => out,
        Err(e) => {
            return Err(e);
        },
    };
    if amount_out < min_amount_out {
        return Err(ErrorCode::InsufficientOutputAmount);
    }
    if amount_out >= reserve_out {
        return Err(ErrorCode::InsufficientLiquidity);
    }
    let weight_in = token_in.weight;
    let weight_out = token_out.weight;
    proof {
        lemma_u64_product_fits(amount_in_minus_fees, weight_in);
        lemma_u64_product_fits(amount_out, weight_out);
        lemma_weighted_out_bound(amount_in_minus_fees as int, weight_in as int, weight_out as int);
    }
    let delta_in: u128 = amount_in_minus_fees as u128 * weight_in as u128;
    let delta_out: u128 = amount_out as u128 * weight_out as u128;
    if delta_out > delta_in {
        return Err(ErrorCode::MathOverflow);
    }
    Ok(SwapOutcome { fee, amount_in_after_fee: amount_in_minus_fees, amount_out })
}

} // verus!
