use vstd::prelude::*;

use crate::accounts::AccountPair;
use crate::liquidity::{
    add_liquidity_error, checked_product, deposit_minted, lemma_root_above_floor, min_share, share, withdraw_share,
    remove_liquidity_error, AddLiquidity, RemoveLiquidity, MINIMUM_LIQUIDITY,
};
use crate::error::ErrorCode;
use crate::membership::{add_token_error, AddTokenToPool};
use crate::pool::{has_mint, MAX_TOKENS};
use crate::pool::{fee_of, fee_valid, lemma_fee_at_most_amount, slot_index, AnySwapPool};
use crate::swap::{lemma_weighted_out_bound, swap_result, Swap};

verus! {

/// For any valid fee rate and any amount, the fee and the amount left after
/// it are both 64-bit values and add back up to the amount.
pub proof fn lemma_fee_split(amount_in: u64, fee_numerator: u64, fee_denominator: u64)
    requires
        fee_valid(fee_numerator, fee_denominator),
    ensures
        ({
            let fee = fee_of(amount_in as int, fee_numerator as int, fee_denominator as int);
            &&& 0 <= fee <= amount_in
            &&& (fee as u64) + ((amount_in - fee) as u64) == amount_in
        }),
{
    lemma_fee_at_most_amount(amount_in as int, fee_numerator as int, fee_denominator as int);
}

/// Every swap that succeeds pays out no more than it prices in,
/// `amount_out * weight_out <= amount_in_after_fee * weight_in`, and meets the
/// caller's slippage bound.
pub proof fn lemma_swap_never_overpays(pool: AnySwapPool, ctx: Swap, amount_in: u64, min_amount_out: u64)
    requires
        pool.wf(),
        swap_result(pool, ctx, amount_in, min_amount_out) is Ok,
    ensures
        ({
            let o = swap_result(pool, ctx, amount_in, min_amount_out)->Ok_0;
            let s = pool.tokens@;
            let weight_in = s[slot_index(s, ctx.vault_in.mint)].weight;
            let weight_out = s[slot_index(s, ctx.vault_out.mint)].weight;
            &&& o.amount_out * weight_out <= o.amount_in_after_fee * weight_in
            &&& min_amount_out <= o.amount_out
        }),
{
    let s = pool.tokens@;
    let i = slot_index(s, ctx.vault_in.mint);
    let j = slot_index(s, ctx.vault_out.mint);
    assert(s[i].weight > 0);
    assert(s[j].weight > 0);
    lemma_fee_at_most_amount(amount_in as int, pool.fee_numerator as int, pool.fee_denominator as int);
    let fee = fee_of(amount_in as int, pool.fee_numerator as int, pool.fee_denominator as int);
    lemma_weighted_out_bound(amount_in - fee, s[i].weight as int, s[j].weight as int);
}

/// The least share is at most the share of each asset.
pub proof fn lemma_min_share_le(total: int, d: Seq<u64>, a: Seq<AccountPair>, n: int, i: int)
    requires
        0 <= i < n,
    ensures
        min_share(total, d, a, n) <= share(total, d[i] as int, a[i].vault.amount as int),
    decreases n,
{
    if n > 1 && i < n - 1 {
        lemma_min_share_le(total, d, a, n - 1, i);
    }
}

/// Depositing into a pool whose reserves are untouched by anyone else and
/// then withdrawing exactly the claims minted for it returns, for each asset,
/// no more than was deposited. A pool without claims must also hold no
/// reserves for this to hold.
pub proof fn lemma_deposit_withdraw_round_trip(
    pool: AnySwapPool,
    ctx: AddLiquidity,
    amounts: Seq<u64>,
    minted: u64,
    i: int,
)
    requires
        pool.wf(),
        add_liquidity_error(pool, ctx, amounts) is None,
        deposit_minted(pool, ctx, amounts, minted as int),
        0 <= i < pool.tokens@.len(),
        pool.total_amount_minted == 0 ==> ctx.accounts@[i].vault.amount == 0,
    ensures
        withdraw_share(
            minted as int,
            ctx.accounts@[i].vault.amount + amounts[i],
            pool.total_amount_minted + minted,
        ) <= amounts[i],
{
    let total = pool.total_amount_minted as int;
    let reserve = ctx.accounts@[i].vault.amount as int;
    let d = amounts[i] as int;
    let m = minted as int;
    if total == 0 {
        let p = checked_product(amounts)->Some_0;
        lemma_root_above_floor(p, m + MINIMUM_LIQUIDITY);
        assert(m > 0);
        assert(withdraw_share(m, d, m) == d) by (nonlinear_arith)
            requires
                m > 0,
        ;
    } else {
        assert(reserve > 0);
        lemma_min_share_le(total, amounts, ctx.accounts@, pool.tokens@.len() as int, i);
        assert(m <= total * d / reserve);
        assert(m * reserve <= total * d) by (nonlinear_arith)
            requires
                m <= total * d / reserve,
                reserve > 0,
                total * d >= 0,
        ;
        assert(m * (reserve + d) <= (total + m) * d) by (nonlinear_arith)
            requires
                m * reserve <= total * d,
        ;
        assert((m * (reserve + d)) / (total + m) <= d) by (nonlinear_arith)
            requires
                m * (reserve + d) <= (total + m) * d,
                total + m > 0,
                m >= 0,
                reserve + d >= 0,
        ;
    }
}

/// Burning more claims than the caller holds fails with
/// `InsufficientTokenAmount`, whatever the pool and the other accounts are.
pub proof fn lemma_overdraw_fails(pool: AnySwapPool, ctx: RemoveLiquidity, burn_amount: u64)
    requires
        ctx.user_pool_ata.amount < burn_amount,
    ensures
        remove_liquidity_error(pool, ctx, burn_amount) == Some(ErrorCode::InsufficientTokenAmount),
{
}

/// On a pool that holds assets, burning more claims than are outstanding
/// fails with `MathOverflow` once the caller holds enough claims; the claim
/// total never goes below zero.
pub proof fn lemma_burn_over_total_fails(pool: AnySwapPool, ctx: RemoveLiquidity, burn_amount: u64)
    requires
        pool.tokens@.len() > 0,
        ctx.user_pool_ata.amount >= burn_amount,
        burn_amount > pool.total_amount_minted,
    ensures
        remove_liquidity_error(pool, ctx, burn_amount) == Some(ErrorCode::MathOverflow),
{
}

/// Sum of a sequence of amounts.
pub open spec fn sum_amounts(s: Seq<u64>) -> int
    decreases s.len(),
{
    if s.len() == 0 {
        0
    } else {
        sum_amounts(s.drop_last()) + s.last()
    }
}

/// Over any run of operations in which step `i` mints `minted[i]` and burns
/// `burned[i]` (as `add_liquidity` and `remove_liquidity` state; every other
/// operation mints and burns nothing), the claim total at the end is the
/// total at the start plus everything minted less everything burned.
pub proof fn lemma_claims_ledger(totals: Seq<u64>, minted: Seq<u64>, burned: Seq<u64>)
    requires
        totals.len() == minted.len() + 1,
        burned.len() == minted.len(),
        forall|i: int|
            0 <= i < minted.len() ==> #[trigger] totals[i + 1] == totals[i] + minted[i] - burned[i],
    ensures
        totals.last() == totals[0] + sum_amounts(minted) - sum_amounts(burned),
        totals.last() >= 0,
    decreases minted.len(),
{
    if minted.len() > 0 {
        let n = minted.len() - 1;
        let t = totals.drop_last();
        let m = minted.drop_last();
        let b = burned.drop_last();
        assert forall|i: int| 0 <= i < m.len() implies #[trigger] t[i + 1] == t[i] + m[i] - b[i] by {
            assert(totals[i + 1] == totals[i] + minted[i] - burned[i]);
        }
        lemma_claims_ledger(t, m, b);
        assert(totals[n + 1] == totals[n] + minted[n] - burned[n]);
    }
}

/// The admin's request to add a positive-weight asset to a full pool fails
/// with `InvalidTokenCount`.
pub proof fn lemma_add_past_capacity_fails(pool: AnySwapPool, ctx: AddTokenToPool, weight: u64)
    requires
        ctx.admin == pool.admin,
        weight > 0,
        pool.tokens@.len() == MAX_TOKENS,
    ensures
        add_token_error(pool, ctx, weight) == Some(ErrorCode::InvalidTokenCount),
{
}

/// The admin's request to add a positive-weight asset that the pool already
/// holds, with room to spare, fails with `DuplicateAsset`; so no two slots
/// ever share an asset.
pub proof fn lemma_add_duplicate_fails(pool: AnySwapPool, ctx: AddTokenToPool, weight: u64, j: int)
    requires
        ctx.admin == pool.admin,
        weight > 0,
        pool.tokens@.len() < MAX_TOKENS,
        0 <= j < pool.tokens@.len(),
        pool.tokens@[j].mint == ctx.token_mint,
    ensures
        add_token_error(pool, ctx, weight) == Some(ErrorCode::DuplicateAsset),
{
    assert(has_mint(pool.tokens@, ctx.token_mint));
}

} // verus!
