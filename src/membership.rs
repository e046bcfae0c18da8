use vstd::prelude::*;

use crate::accounts::{Pubkey, TokenAccount};
use crate::error::ErrorCode;
use crate::pool::{fee_valid, has_mint, mints_distinct, slot_index, AnySwapPool, TokenItem, MAX_TOKENS};
use crate::swap::lemma_slot_index_unique;

verus! {

/// The accounts of adding an asset: the signing admin, the asset's mint, its
/// new vault, and the vaults already in the pool, in slot order.
#[derive(Debug)]
pub struct AddTokenToPool {
    pub admin: Pubkey,
    pub token_mint: Pubkey,
    pub vault: Pubkey,
    pub existing_vaults: Vec<Pubkey>,
}

/// The accounts of removing an asset: the signing admin, the asset's mint and its vault.
#[derive(Clone, Copy, Debug, PartialEq, Eq, Structural)]
pub struct RemoveTokenFromPool {
    pub admin: Pubkey,
    pub token_mint: Pubkey,
    pub vault: TokenAccount,
}

/// The accounts of changing an asset's weight: the signing admin and the asset's mint.
#[derive(Clone, Copy, Debug, PartialEq, Eq, Structural)]
pub struct ModifyTokenWeight {
    pub admin: Pubkey,
    pub token_mint: Pubkey,
}

/// The accounts of changing the fee: the signing admin.
#[derive(Clone, Copy, Debug, PartialEq, Eq, Structural)]
pub struct ModifyFee {
    pub admin: Pubkey,
}

/// `v` lists the vaults of `s`, in the same order.
pub open spec fn vaults_match(s: Seq<TokenItem>, v: Seq<Pubkey>) -> bool {
    &&& v.len() == s.len()
    &&& forall|i: int| 0 <= i < s.len() ==> #[trigger] v[i] == s[i].vault
}

/// The first check that adding an asset of weight `weight` fails, if any.
pub open spec fn add_token_error(pool: AnySwapPool, ctx: AddTokenToPool, weight: u64) -> Option<ErrorCode> {
    let s = pool.tokens@;
    if ctx.admin != pool.admin {
        Some(ErrorCode::Unauthorized)
    } else if weight == 0 {
        Some(ErrorCode::InvalidWeight)
    } else if s.len() >= MAX_TOKENS {
        Some(ErrorCode::InvalidTokenCount)
    } else if has_mint(s, ctx.token_mint) {
        Some(ErrorCode::DuplicateAsset)
    } else if ctx.existing_vaults@.len() != s.len() {
        Some(ErrorCode::InvalidTokenCount)
    } else if !vaults_match(s, ctx.existing_vaults@) {
        Some(ErrorCode::InvalidTokenMint)
    } else {
        None
    }
}

/// The first check that removing an asset fails, if any.
pub open spec fn remove_token_error(pool: AnySwapPool, ctx: RemoveTokenFromPool) -> Option<ErrorCode> {
    let s = pool.tokens@;
    if ctx.admin != pool.admin {
        Some(ErrorCode::Unauthorized)
    } else if !has_mint(s, ctx.token_mint) {
        Some(ErrorCode::InvalidTokenIndex)
    } else if s[slot_index(s, ctx.token_mint)].vault != ctx.vault.key {
        Some(ErrorCode::InvalidTokenMint)
    } else if ctx.vault.amount != 0 {
        Some(ErrorCode::VaultNotEmpty)
    } else {
        None
    }
}

/// The first check that setting an asset's weight to `new_weight` fails, if any.
pub open spec fn modify_weight_error(pool: AnySwapPool, ctx: ModifyTokenWeight, new_weight: u64) -> Option<
    ErrorCode,
> {
    if ctx.admin != pool.admin {
        Some(ErrorCode::Unauthorized)
    } else if new_weight == 0 {
        Some(ErrorCode::InvalidWeight)
    } else if !has_mint(pool.tokens@, ctx.token_mint) {
        Some(ErrorCode::InvalidTokenIndex)
    } else {
        None
    }
}

/// The first check that setting the fee fails, if any.
pub open spec fn modify_fee_error(pool: AnySwapPool, ctx: ModifyFee, fee_numerator: u64, fee_denominator: u64) -> Option<
    ErrorCode,
> {
    if ctx.admin != pool.admin {
        Some(ErrorCode::Unauthorized)
    } else if !fee_valid(fee_numerator, fee_denominator) {
        Some(ErrorCode::InvalidFeeConfiguration)
    } else {
        None
    }
}

/// The pool's fields but its slots are those of `old`.
pub open spec fn same_but_tokens(new: AnySwapPool, old: AnySwapPool) -> bool {
    &&& new.admin == old.admin
    &&& new.fee_numerator == old.fee_numerator
    &&& new.fee_denominator == old.fee_denominator
    &&& new.total_amount_minted == old.total_amount_minted
}

/// Appends a slot for `ctx.token_mint` with its vault and `weight`.
///
/// No seeding deposit is taken: the new vault starts empty. Until its
/// reserve is filled, a deposit into a pool that already has claims fails
/// with `MathOverflow` (a share against an empty reserve is undefined), and a
/// swap into or out of the new asset fails with `InsufficientLiquidity`.
pub fn add_token_to_pool(pool: &mut AnySwapPool, ctx: &AddTokenToPool, weight: u64) -> (r: Result<(), ErrorCode>)
    requires
        old(pool).wf(),
    ensures
        final(pool).wf(),
        r.is_err() <==> add_token_error(*old(pool), *ctx, weight).is_some(),
        r matches Err(e) ==> Some(e) == add_token_error(*old(pool), *ctx, weight) && *final(pool) == *old(
            pool,
        ),
        r is Ok ==> same_but_tokens(*final(pool), *old(pool)) && final(pool).tokens@ == old(pool).tokens@.push(
            TokenItem { mint: ctx.token_mint, vault: ctx.vault, weight },
        ),
{
    if ctx.admin != pool.admin {
        return Err(ErrorCode::Unauthorized);
    }
    if weight == 0 {
        return Err(ErrorCode::InvalidWeight);
    }
    let token_count = pool.get_token_count();
    if token_count >= MAX_TOKENS {
        return Err(ErrorCode::InvalidTokenCount);
    }
    if pool.find_token_index(&ctx.token_mint).is_some() {
        return Err(ErrorCode::DuplicateAsset);
    }
    if ctx.existing_vaults.len() != token_count {
        return Err(ErrorCode::InvalidTokenCount);
    }
    let mut i: usize = 0;
    while i < token_count
        invariant
            i <= token_count,
            token_count == pool.tokens@.len(),
            ctx.existing_vaults@.len() == token_count,
            ctx.admin == pool.admin,
            weight != 0,
            token_count < MAX_TOKENS,
            !has_mint(pool.tokens@, ctx.token_mint),
            *pool == *old(pool),
            pool.wf(),
            forall|j: int| 0 <= j < i ==> #[trigger] ctx.existing_vaults@[j] == pool.tokens@[j].vault,
        decreases token_count - i,
    {
        if ctx.existing_vaults[i] != pool.tokens[i].vault {
            assert(ctx.existing_vaults@[i as int] != pool.tokens@[i as int].vault);
            return Err(ErrorCode::InvalidTokenMint);
        }
        i += 1;
    }
    let item = TokenItem { mint: ctx.token_mint, vault: ctx.vault, weight };
    let ghost before = pool.tokens@;
    pool.tokens.push(item);
    assert(mints_distinct(pool.tokens@)) by {
        assert forall|a: int, b: int|
            0 <= a < pool.tokens@.len() && 0 <= b < pool.tokens@.len() && a != b implies #[trigger] pool.tokens@[a].mint
            != #[trigger] pool.tokens@[b].mint by {
            if a < before.len() && b < before.len() {
                assert(before[a].mint != before[b].mint);
            } else if a < before.len() {
                assert(before[a].mint != ctx.token_mint);
            } else {
                assert(before[b].mint != ctx.token_mint);
            }
        }
    }
    assert(forall|k: int| 0 <= k < pool.tokens@.len() ==> #[trigger] pool.tokens@[k].weight > 0) by {
        assert forall|k: int| 0 <= k < pool.tokens@.len() implies #[trigger] pool.tokens@[k].weight > 0 by {
            if k < before.len() {
                assert(before[k].weight > 0);
            }
        }
    }
    Ok(())
}

/// Removes the slot of `ctx.token_mint`; later slots move down by one. The
/// asset's vault must be empty.
pub fn remove_token_from_pool(pool: &mut AnySwapPool, ctx: &RemoveTokenFromPool) -> (r: Result<(), ErrorCode>)
    requires
        old(pool).wf(),
    ensures
        final(pool).wf(),
        r.is_err() <==> remove_token_error(*old(pool), *ctx).is_some(),
        r matches Err(e) ==> Some(e) == remove_token_error(*old(pool), *ctx) && *final(pool) == *old(pool),
        r is Ok ==> same_but_tokens(*final(pool), *old(pool)) && final(pool).tokens@ == old(pool).tokens@.remove(
            slot_index(old(pool).tokens@, ctx.token_mint),
        ),
{
    if ctx.admin != pool.admin {
        return Err(ErrorCode::Unauthorized);
    }
    let index = match pool.find_token_index(&ctx.token_mint) {
        Some(i) => i,
        None => {
            return Err(ErrorCode::InvalidTokenIndex);
        },
    };
    proof {
        lemma_slot_index_unique(pool.tokens@, index as int);
    }
    if pool.tokens[index].vault != ctx.vault.key {
        return Err(ErrorCode::InvalidTokenMint);
    }
    if ctx.vault.amount != 0 {
        return Err(ErrorCode::VaultNotEmpty);
    }
    let ghost before = pool.tokens@;
    pool.tokens.remove(index);
    assert(mints_distinct(pool.tokens@)) by {
        assert forall|a: int, b: int|
            0 <= a < pool.tokens@.len() && 0 <= b < pool.tokens@.len() && a != b implies #[trigger] pool.tokens@[a].mint
            != #[trigger] pool.tokens@[b].mint by {
            let a0 = if a < index { a } else { a + 1 };
            let b0 = if b < index { b } else { b + 1 };
            assert(before[a0].mint != before[b0].mint);
        }
    }
    assert(forall|k: int| 0 <= k < pool.tokens@.len() ==> #[trigger] pool.tokens@[k].weight > 0) by {
        assert forall|k: int| 0 <= k < pool.tokens@.len() implies #[trigger] pool.tokens@[k].weight > 0 by {
            let k0 = if k < index { k } else { k + 1 };
            assert(before[k0].weight > 0);
        }
    }
    Ok(())
}

/// Sets the weight of `ctx.token_mint`'s slot to `new_weight`; reserves are untouched.
pub fn modify_token_weight(pool: &mut AnySwapPool, ctx: &ModifyTokenWeight, new_weight: u64) -> (r: Result<
    (),
    ErrorCode,
>)
    requires
        old(pool).wf(),
    ensures
        final(pool).wf(),
        r.is_err() <==> modify_weight_error(*old(pool), *ctx, new_weight).is_some(),
        r matches Err(e) ==> Some(e) == modify_weight_error(*old(pool), *ctx, new_weight) && *final(pool)
            == *old(pool),
        r is Ok ==> {
            let s = old(pool).tokens@;
            let i = slot_index(s, ctx.token_mint);
            &&& same_but_tokens(*final(pool), *old(pool))
            &&& final(pool).tokens@ == s.update(i, TokenItem { weight: new_weight, ..s[i] })
        },
{
    if ctx.admin != pool.admin {
        return Err(ErrorCode::Unauthorized);
    }
    if new_weight == 0 {
        return Err(ErrorCode::InvalidWeight);
    }
    let index = match pool.find_token_index(&ctx.token_mint) {
        Some(i) => i,
        None => {
            return Err(ErrorCode::InvalidTokenIndex);
        },
    };
    proof {
        lemma_slot_index_unique(pool.tokens@, index as int);
    }
    let ghost before = pool.tokens@;
    let old_item = pool.tokens[index];
    pool.tokens[index] = TokenItem { weight: new_weight, ..old_item };
    assert(mints_distinct(pool.tokens@)) by {
        assert forall|a: int, b: int|
            0 <= a < pool.tokens@.len() && 0 <= b < pool.tokens@.len() && a != b implies #[trigger] pool.tokens@[a].mint
            != #[trigger] pool.tokens@[b].mint by {
            assert(before[a].mint != before[b].mint);
        }
    }
    assert(forall|k: int| 0 <= k < pool.tokens@.len() ==> #[trigger] pool.tokens@[k].weight > 0) by {
        assert forall|k: int| 0 <= k < pool.tokens@.len() implies #[trigger] pool.tokens@[k].weight > 0 by {
            if k != index {
                assert(before[k].weight > 0);
            }
        }
    }
    Ok(())
}

/// Sets the fee to `fee_numerator / fee_denominator`.
pub fn modify_fee(pool: &mut AnySwapPool, ctx: &ModifyFee, fee_numerator: u64, fee_denominator: u64) -> (r: Result<
    (),
    ErrorCode,
>)
    requires
        old(pool).wf(),
    ensures
        final(pool).wf(),
        r.is_err() <==> modify_fee_error(*old(pool), *ctx, fee_numerator, fee_denominator).is_some(),
        r matches Err(e) ==> Some(e) == modify_fee_error(*old(pool), *ctx, fee_numerator, fee_denominator)
            && *final(pool) == *old(pool),
        r is Ok ==> {
            &&& final(pool).admin == old(pool).admin
            &&& final(pool).total_amount_minted == old(pool).total_amount_minted
            &&& final(pool).tokens@ == old(pool).tokens@
            &&& final(pool).fee_numerator == fee_numerator
            &&& final(pool).fee_denominator == fee_denominator
        },
{
    if ctx.admin != pool.admin {
        return Err(ErrorCode::Unauthorized);
    }
    if fee_denominator == 0 || fee_numerator > fee_denominator {
        return Err(ErrorCode::InvalidFeeConfiguration);
    }
    pool.fee_numerator = fee_numerator;
    pool.fee_denominator = fee_denominator;
    Ok(())
}

} // verus!
