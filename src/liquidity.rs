use vstd::prelude::*;

use crate::accounts::{AccountPair, Pubkey, TokenAccount};
use crate::error::ErrorCode;
use crate::math::{integer_sqrt, is_isqrt, lemma_u64_product_fits};
use crate::pool::{AnySwapPool, TokenItem};

verus! {

/// Claim units withheld from the first deposit, so that a pool never returns to empty.
pub const MINIMUM_LIQUIDITY: u64 = 1000;

/// The accounts of a deposit: the caller, the pool's authority, and one `(user, vault)` pair per
/// pooled asset, in slot order.
#[derive(Debug)]
pub struct AddLiquidity {
    pub owner: Pubkey,
    pub pool_authority: Pubkey,
    pub accounts: Vec<AccountPair>,
}

/// The accounts of a withdrawal: the caller, the pool's authority, its
/// claim-token account, and
/// one `(user, vault)` pair per pooled asset, in slot order.
#[derive(Debug)]
pub struct RemoveLiquidity {
    pub owner: Pubkey,
    pub pool_authority: Pubkey,
    pub user_pool_ata: TokenAccount,
    pub accounts: Vec<AccountPair>,
}

/// The pair names the slot's vault, owned by the pool's authority, and a
/// caller's account of the slot's asset.
pub open spec fn pair_matches(slot: TokenItem, p: AccountPair, owner: Pubkey, authority: Pubkey) -> bool {
    &&& p.vault.key == slot.vault
    &&& p.vault.mint == slot.mint
    &&& p.vault.owner == authority
    &&& p.user.mint == slot.mint
    &&& p.user.owner == owner
}

/// Each pair matches the slot at its position (lengths are checked apart).
pub open spec fn pairs_match(s: Seq<TokenItem>, a: Seq<AccountPair>, owner: Pubkey, authority: Pubkey) -> bool {
    forall|i: int| 0 <= i < s.len() ==> #[trigger] pair_matches(s[i], a[i], owner, authority)
}

/// The product of `d`, multiplied left to right in 128 bits; `None` once a
/// partial product no longer fits.
pub open spec fn checked_product(d: Seq<u64>) -> Option<int>
    decreases d.len(),
{
    if d.len() == 0 {
        Some(1)
    } else {
        match checked_product(d.drop_last()) {
            Some(p) => if p * d.last() > u128::MAX {
                None
            } else {
                Some(p * d.last())
            },
            None => None,
        }
    }
}

/// `floor(total * deposit / reserve)`: the claims that `deposit` is worth
/// against `reserve`.
pub open spec fn share(total: int, deposit: int, reserve: int) -> int {
    total * deposit / reserve
}

/// The least share over the first `n` assets.
pub open spec fn min_share(total: int, d: Seq<u64>, a: Seq<AccountPair>, n: int) -> int
    decreases n,
{
    if n <= 1 {
        share(total, d[0] as int, a[0].vault.amount as int)
    } else {
        let rest = min_share(total, d, a, n - 1);
        let last = share(total, d[n - 1] as int, a[n - 1].vault.amount as int);
        if last < rest {
            last
        } else {
            rest
        }
    }
}

/// `floor(burn * reserve / total)`: what burning `burn` of `total` claims returns of `reserve`.
pub open spec fn withdraw_share(burn: int, reserve: int, total: int) -> int {
    burn * reserve / total
}

/// The first check that a deposit of `amounts` fails, if any.
pub open spec fn add_liquidity_error(pool: AnySwapPool, ctx: AddLiquidity, amounts: Seq<u64>) -> Option<
    ErrorCode,
> {
    let s = pool.tokens@;
    let a = ctx.accounts@;
    let total = pool.total_amount_minted as int;
    if s.len() == 0 || amounts.len() != s.len() || a.len() != s.len() {
        Some(ErrorCode::InvalidTokenCount)
    } else if !pairs_match(s, a, ctx.owner, ctx.pool_authority) {
        Some(ErrorCode::InvalidTokenMint)
    } else if exists|i: int| 0 <= i < s.len() && #[trigger] a[i].user.amount < amounts[i] {
        Some(ErrorCode::InsufficientTokenAmount)
    } else if total == 0 {
        match checked_product(amounts) {
            None => Some(ErrorCode::MathOverflow),
            Some(p) => if p < (MINIMUM_LIQUIDITY + 1) * (MINIMUM_LIQUIDITY + 1) {
                Some(ErrorCode::InsufficientLiquidity)
            } else {
                None
            },
        }
    } else if exists|i: int| 0 <= i < s.len() && #[trigger] a[i].vault.amount == 0 {
        Some(ErrorCode::MathOverflow)
    } else if total + min_share(total, amounts, a, s.len() as int) > u64::MAX {
        Some(ErrorCode::MathOverflow)
    } else {
        None
    }
}

/// `minted` is what a deposit of `amounts` mints: on a pool without claims,
/// `minted + MINIMUM_LIQUIDITY` is the integer square root of the amounts'
/// product; otherwise `minted` is the least share over the assets.
pub open spec fn deposit_minted(pool: AnySwapPool, ctx: AddLiquidity, amounts: Seq<u64>, minted: int) -> bool {
    let total = pool.total_amount_minted as int;
    &&& total == 0 ==> (checked_product(amounts) matches Some(p) && is_isqrt(p, minted + MINIMUM_LIQUIDITY))
    &&& total > 0 ==> minted == min_share(total, amounts, ctx.accounts@, pool.tokens@.len() as int)
}

/// The first check that a withdrawal of `burn_amount` claims fails, if any.
pub open spec fn remove_liquidity_error(pool: AnySwapPool, ctx: RemoveLiquidity, burn_amount: u64) -> Option<
    ErrorCode,
> {
    let s = pool.tokens@;
    let a = ctx.accounts@;
    if ctx.user_pool_ata.amount < burn_amount {
        Some(ErrorCode::InsufficientTokenAmount)
    } else if s.len() == 0 {
        Some(ErrorCode::InvalidTokenCount)
    } else if pool.total_amount_minted < burn_amount {
        Some(ErrorCode::MathOverflow)
    } else if a.len() != s.len() {
        Some(ErrorCode::InvalidTokenCount)
    } else if !pairs_match(s, a, ctx.owner, ctx.pool_authority) {
        Some(ErrorCode::InvalidTokenMint)
    } else if pool.total_amount_minted == 0 {
        Some(ErrorCode::MathOverflow)
    } else {
        None
    }
}

/// The pool's fields but the claim total are those of `old`.
pub open spec fn same_but_total(new: AnySwapPool, old: AnySwapPool) -> bool {
    &&& new.admin == old.admin
    &&& new.fee_numerator == old.fee_numerator
    &&& new.fee_denominator == old.fee_denominator
    &&& new.tokens@ == old.tokens@
}

/// The integer square root exceeds `MINIMUM_LIQUIDITY` exactly when `p` reaches its successor squared.
pub proof fn lemma_root_above_floor(p: int, root: int)
    requires
        is_isqrt(p, root),
    ensures
        root > MINIMUM_LIQUIDITY <==> p >= (MINIMUM_LIQUIDITY + 1) * (MINIMUM_LIQUIDITY + 1),
{
    if root > 1000 {
        assert(root * root >= 1001 * 1001) by (nonlinear_arith)
            requires
                root >= 1001,
        ;
    } else {
        assert((root + 1) * (root + 1) <= 1001 * 1001) by (nonlinear_arith)
            requires
                0 <= root <= 1000,
        ;
    }
}

/// A share of a nonzero reserve fits in 128 bits.
proof fn lemma_share_bound(total: u64, deposit: u64, reserve: u64)
    requires
        reserve > 0,
    ensures
        0 <= share(total as int, deposit as int, reserve as int) <= total as int * deposit as int,
{
    lemma_u64_product_fits(total, deposit);
    vstd::arithmetic::div_mod::lemma_div_pos_is_pos(total as int * deposit as int, reserve as int);
    vstd::arithmetic::div_mod::lemma_div_is_ordered_by_denominator(
        total as int * deposit as int,
        1,
        reserve as int,
    );
}

/// Burning at most the total returns at most the reserve.
pub proof fn lemma_withdraw_at_most_reserve(burn: int, reserve: int, total: int)
    requires
        0 <= burn <= total,
        0 < total,
        0 <= reserve,
    ensures
        0 <= withdraw_share(burn, reserve, total) <= reserve,
{
    assert(burn * reserve <= total * reserve) by (nonlinear_arith)
        requires
            0 <= burn <= total,
            0 <= reserve,
    ;
    assert(0 <= burn * reserve) by (nonlinear_arith)
        requires
            0 <= burn,
            0 <= reserve,
    ;
    assert((total * reserve) / total == reserve) by (nonlinear_arith)
        requires
            0 < total,
    ;
    vstd::arithmetic::div_mod::lemma_div_is_ordered(burn * reserve, total * reserve, total);
    vstd::arithmetic::div_mod::lemma_div_pos_is_pos(burn * reserve, total);
}

/// Checks that `pairs` lists, for each slot in order, its vault and an account
/// of its asset owned by `owner`, each vault owned by `authority`.
fn check_pairs(tokens: &Vec<TokenItem>, pairs: &Vec<AccountPair>, owner: &Pubkey, authority: &Pubkey) -> (r: bool)
    requires
        pairs@.len() == tokens@.len(),
    ensures
        r == pairs_match(tokens@, pairs@, *owner, *authority),
{
    let mut i: usize = 0;
    while i < tokens.len()
        invariant
            i <= tokens@.len(),
            pairs@.len() == tokens@.len(),
            forall|j: int| 0 <= j < i ==> #[trigger] pair_matches(tokens@[j], pairs@[j], *owner, *authority),
        decreases tokens@.len() - i,
    {
        let slot = tokens[i];
        let p = pairs[i];
        if p.vault.key != slot.vault || p.vault.mint != slot.mint || p.user.mint != slot.mint
            || p.user.owner != *owner || p.vault.owner != *authority {
            assert(!pair_matches(tokens@[i as int], pairs@[i as int], *owner, *authority));
            return false;
        }
        i += 1;
    }
    true
}

/// Multiplies `amounts` left to right in 128 bits; `None` once a partial product overflows.
fn product_of(amounts: &Vec<u64>) -> (r: Option<u128>)
    ensures
        r matches Some(p) ==> checked_product(amounts@) == Some(p as int),
        r is None ==> checked_product(amounts@) is None,
{
    let mut acc: u128 = 1;
    let mut i: usize = 0;
    assert(amounts@.subrange(0, 0).len() == 0);
    while i < amounts.len()
        invariant
            i <= amounts@.len(),
            checked_product(amounts@.subrange(0, i as int)) == Some(acc as int),
        decreases amounts@.len() - i,
    {
        let ghost prefix = amounts@.subrange(0, i as int + 1);
        assert(prefix.drop_last() =~= amounts@.subrange(0, i as int));
        assert(prefix.last() == amounts@[i as int]);
        match acc.checked_mul(amounts[i] as u128) {
            Some(next) => {
                acc = next;
            },
            None => {
                assert(checked_product(prefix) is None);
                proof {
                    lemma_checked_product_none_extends(amounts@, i as int + 1);
                }
                return None;
            },
        }
        i += 1;
    }
    assert(amounts@.subrange(0, amounts@.len() as int) =~= amounts@);
    Some(acc)
}

/// Once a prefix overflows, every longer prefix does.
proof fn lemma_checked_product_none_extends(d: Seq<u64>, n: int)
    requires
        0 <= n <= d.len(),
        checked_product(d.subrange(0, n)) is None,
    ensures
        checked_product(d) is None,
    decreases d.len() - n,
{
    if n < d.len() {
        let next = d.subrange(0, n + 1);
        assert(next.drop_last() =~= d.subrange(0, n));
        lemma_checked_product_none_extends(d, n + 1);
    } else {
        assert(d.subrange(0, n) =~= d);
    }
}

/// Deposits `amounts` (one per asset, in slot order) and returns the claims
/// minted for it: on a pool with no claims, the integer square root of the
/// product of the amounts less `MINIMUM_LIQUIDITY`; otherwise the least of
/// `floor(total * amount / reserve)` over the assets. Amounts are taken as
/// given: they need not be proportional to the reserves.
pub fn add_liquidity(pool: &mut AnySwapPool, ctx: &AddLiquidity, amounts: &Vec<u64>) -> (r: Result<
    u64,
    ErrorCode,
>)
    requires
        old(pool).wf(),
    ensures
        final(pool).wf(),
        r.is_err() <==> add_liquidity_error(*old(pool), *ctx, amounts@).is_some(),
        r matches Err(e) ==> Some(e) == add_liquidity_error(*old(pool), *ctx, amounts@)
            && *final(pool) == *old(pool),
        r matches Ok(minted) ==> {
            &&& same_but_total(*final(pool), *old(pool))
            &&& final(pool).total_amount_minted == old(pool).total_amount_minted + minted
            &&& deposit_minted(*old(pool), *ctx, amounts@, minted as int)
        },
{
    let token_count = pool.get_token_count();
    if token_count == 0 || amounts.len() != token_count || ctx.accounts.len() != token_count {
        return Err(ErrorCode::InvalidTokenCount);
    }
    if !check_pairs(&pool.tokens, &ctx.accounts, &ctx.owner, &ctx.pool_authority) {
        return Err(ErrorCode::InvalidTokenMint);
    }
    let mut i: usize = 0;
    while i < token_count
        invariant
            i <= token_count,
            token_count == ctx.accounts@.len(),
            token_count == amounts@.len(),
            *pool == *old(pool),
            pool.wf(),
            token_count == pool.tokens@.len(),
            pairs_match(pool.tokens@, ctx.accounts@, ctx.owner, ctx.pool_authority),
            forall|j: int| 0 <= j < i ==> #[trigger] ctx.accounts@[j].user.amount >= amounts@[j],
        decreases token_count - i,
    {
        if ctx.accounts[i].user.amount < amounts[i] {
            assert(ctx.accounts@[i as int].user.amount < amounts@[i as int]);
            return Err(ErrorCode::InsufficientTokenAmount);
        }
        i += 1;
    }
    let total_minted = pool.get_total_amount_minted();
    let minted: u64;
    if total_minted == 0 {
        let product = match product_of(amounts) {
            Some(p) => p,
            None => {
                return Err(ErrorCode::MathOverflow);
            },
        };
        let root = integer_sqrt(product);
        proof {
            lemma_root_above_floor(product as int, root as int);
        }
        if root <= MINIMUM_LIQUIDITY {
            return Err(ErrorCode::InsufficientLiquidity);
        }
        minted = root - MINIMUM_LIQUIDITY;
    } else {
        let mut least: u128 = 0;
        let mut k: usize = 0;
        while k < token_count
            invariant
                k <= token_count,
                token_count == ctx.accounts@.len(),
                token_count == amounts@.len(),
                total_minted > 0,
                *pool == *old(pool),
                pool.wf(),
                token_count == pool.tokens@.len(),
                total_minted == pool.total_amount_minted,
                pairs_match(pool.tokens@, ctx.accounts@, ctx.owner, ctx.pool_authority),
                forall|j: int|
                    0 <= j < token_count ==> #[trigger] ctx.accounts@[j].user.amount >= amounts@[j],
                forall|j: int| 0 <= j < k ==> #[trigger] ctx.accounts@[j].vault.amount > 0,
                k > 0 ==> least as int == min_share(total_minted as int, amounts@, ctx.accounts@, k as int),
            decreases token_count - k,
        {
            let reserve = ctx.accounts[k].vault.amount;
            if reserve == 0 {
                assert(ctx.accounts@[k as int].vault.amount == 0);
                return Err(ErrorCode::MathOverflow);
            }
            proof {
                lemma_u64_product_fits(total_minted, amounts[k as int]);
                lemma_share_bound(total_minted, amounts[k as int], reserve);
            }
            let product: u128 = total_minted as u128 * amounts[k] as u128;
            let this_share: u128 = product / reserve as u128;
            if k == 0 || this_share < least {
                least = this_share;
            }
            k += 1;
        }
        if least > (u64::MAX - total_minted) as u128 {
            return Err(ErrorCode::MathOverflow);
        }
        minted = least as u64;
    }
    pool.total_amount_minted = total_minted + minted;
    Ok(minted)
}

/// Burns `burn_amount` claims and computes what each vault returns to the
/// caller: `floor(burn_amount * reserve / total)` per asset, in slot order.
/// All checks run before the claim total changes.
pub fn remove_liquidity(pool: &mut AnySwapPool, ctx: &RemoveLiquidity, burn_amount: u64) -> (r: Result<
    Vec<u64>,
    ErrorCode,
>)
    requires
        old(pool).wf(),
    ensures
        final(pool).wf(),
        r.is_err() <==> remove_liquidity_error(*old(pool), *ctx, burn_amount).is_some(),
        r matches Err(e) ==> Some(e) == remove_liquidity_error(*old(pool), *ctx, burn_amount)
            && *final(pool) == *old(pool),
        r matches Ok(v) ==> {
            &&& same_but_total(*final(pool), *old(pool))
            &&& final(pool).total_amount_minted == old(pool).total_amount_minted - burn_amount
            &&& v@.len() == old(pool).tokens@.len()
            &&& forall|i: int|
                0 <= i < v@.len() ==> #[trigger] v@[i] == withdraw_share(
                    burn_amount as int,
                    ctx.accounts@[i].vault.amount as int,
                    old(pool).total_amount_minted as int,
                )
            &&& forall|i: int| 0 <= i < v@.len() ==> #[trigger] v@[i] <= ctx.accounts@[i].vault.amount
        },
{
    if ctx.user_pool_ata.amount < burn_amount {
        return Err(ErrorCode::InsufficientTokenAmount);
    }
    let token_count = pool.get_token_count();
    if token_count == 0 {
        return Err(ErrorCode::InvalidTokenCount);
    }
    let total_minted = pool.get_total_amount_minted();
    if total_minted < burn_amount {
        return Err(ErrorCode::MathOverflow);
    }
    if ctx.accounts.len() != token_count {
        return Err(ErrorCode::InvalidTokenCount);
    }
    if !check_pairs(&pool.tokens, &ctx.accounts, &ctx.owner, &ctx.pool_authority) {
        return Err(ErrorCode::InvalidTokenMint);
    }
    if total_minted == 0 {
        return Err(ErrorCode::MathOverflow);
    }
    let mut amounts: Vec<u64> = Vec::new();
    let mut i: usize = 0;
    while i < token_count
        invariant
            i <= token_count,
            token_count == ctx.accounts@.len(),
            0 < total_minted,
            burn_amount <= total_minted,
            amounts@.len() == i,
            forall|j: int| 0 <= j < i ==> #[trigger] amounts@[j] <= ctx.accounts@[j].vault.amount,
            forall|j: int|
                0 <= j < i ==> #[trigger] amounts@[j] == withdraw_share(
                    burn_amount as int,
                    ctx.accounts@[j].vault.amount as int,
                    total_minted as int,
                ),
        decreases token_count - i,
    {
        let vault_balance = ctx.accounts[i].vault.amount;
        proof {
            lemma_u64_product_fits(burn_amount, vault_balance);
            lemma_withdraw_at_most_reserve(burn_amount as int, vault_balance as int, total_minted as int);
        }
        let product: u128 = burn_amount as u128 * vault_balance as u128;
        let amount: u128 = product / total_minted as u128;
        amounts.push(amount as u64);
        i += 1;
    }
    pool.total_amount_minted = total_minted - burn_amount;
    Ok(amounts)
}

} // verus!
