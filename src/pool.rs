use vstd::prelude::*;

use crate::accounts::Pubkey;
use crate::error::ErrorCode;
use crate::math::lemma_u64_product_fits;

verus! {

/// The largest number of assets a pool can hold.
pub const MAX_TOKENS: usize = 1024;

/// One pooled asset: the asset's mint, the vault that holds its reserve and
/// its pricing weight.
#[derive(Clone, Copy, Debug, PartialEq, Eq, Structural)]
pub struct TokenItem {
    pub mint: Pubkey,
    pub vault: Pubkey,
    pub weight: u64,
}

/// A weighted pool over up to `MAX_TOKENS` assets. The order of `tokens` is
/// the order in which callers list per-asset accounts.
#[derive(Debug)]
pub struct AnySwapPool {
    pub admin: Pubkey,
    pub fee_numerator: u64,
    pub fee_denominator: u64,
    pub total_amount_minted: u64,
    pub tokens: Vec<TokenItem>,
}

/// The accounts that sign a pool's creation.
#[derive(Clone, Copy, Debug, PartialEq, Eq, Structural)]
pub struct CreatePool {
    pub admin: Pubkey,
}

/// A fee rate `numerator / denominator` lies in `[0, 1]` with a nonzero denominator.
pub open spec fn fee_valid(numerator: u64, denominator: u64) -> bool {
    0 < denominator && numerator <= denominator
}

/// No two slots hold the same asset.
pub open spec fn mints_distinct(s: Seq<TokenItem>) -> bool {
    forall|i: int, j: int|
        0 <= i < s.len() && 0 <= j < s.len() && i != j ==> #[trigger] s[i].mint != #[trigger] s[j].mint
}

/// Some slot holds `mint`.
pub open spec fn has_mint(s: Seq<TokenItem>, mint: Pubkey) -> bool {
    exists|i: int| 0 <= i < s.len() && #[trigger] s[i].mint == mint
}

/// The position of the slot that holds `mint` (meaningful when `has_mint`).
pub open spec fn slot_index(s: Seq<TokenItem>, mint: Pubkey) -> int {
    choose|i: int| 0 <= i < s.len() && #[trigger] s[i].mint == mint
}

/// `floor(amount * numerator / denominator)`, the fee charged on `amount`.
pub open spec fn fee_of(amount: int, numerator: int, denominator: int) -> int {
    amount * numerator / denominator
}

/// `floor(amount * weight_in / weight_out)`, the linear weighted price.
pub open spec fn weighted_out(amount: int, weight_in: int, weight_out: int) -> int {
    amount * weight_in / weight_out
}

impl AnySwapPool {
    /// A valid fee, at most `MAX_TOKENS` slots, distinct assets and positive weights.
    pub open spec fn wf(&self) -> bool {
        &&& fee_valid(self.fee_numerator, self.fee_denominator)
        &&& self.tokens@.len() <= MAX_TOKENS
        &&& mints_distinct(self.tokens@)
        &&& forall|i: int| 0 <= i < self.tokens@.len() ==> #[trigger] self.tokens@[i].weight > 0
    }

    /// Whether the pool is well formed; a pool read from storage is checked
    /// with this before any operation.
    pub fn is_well_formed(&self) -> (r: bool)
        ensures
            r == self.wf(),
    {
        if self.fee_denominator == 0 || self.fee_numerator > self.fee_denominator {
            return false;
        }
        if self.tokens.len() > MAX_TOKENS {
            return false;
        }
        let n = self.tokens.len();
        let mut i: usize = 0;
        while i < n
            invariant
                n == self.tokens@.len(),
                i <= n,
                forall|k: int| 0 <= k < i ==> #[trigger] self.tokens@[k].weight > 0,
                forall|a: int, b: int|
                    0 <= a < i && 0 <= b < n && a != b ==> #[trigger] self.tokens@[a].mint
                        != #[trigger] self.tokens@[b].mint,
            decreases n - i,
        {
            if self.tokens[i].weight == 0 {
                return false;
            }
            let mut j: usize = 0;
            while j < n
                invariant
                    n == self.tokens@.len(),
                    i < n,
                    j <= n,
                    forall|b: int| 0 <= b < j && b != i ==> #[trigger] self.tokens@[b].mint != self.tokens@[i as int].mint,
                decreases n - j,
            {
                if j != i && self.tokens[j].mint == self.tokens[i].mint {
                    assert(!mints_distinct(self.tokens@));
                    return false;
                }
                j += 1;
            }
            i += 1;
        }
        true
    }

    /// The number of assets in the pool.
    pub fn get_token_count(&self) -> (r: usize)
        ensures
            r == self.tokens@.len(),
    {
        self.tokens.len()
    }

    /// The slot at position `index`, if there is one.
    pub fn get_token(&self, index: usize) -> (r: Option<TokenItem>)
        ensures
            index < self.tokens@.len() ==> r == Some(self.tokens@[index as int]),
            index >= self.tokens@.len() ==> r.is_none(),
    {
        if index < self.tokens.len() {
            Some(self.tokens[index])
        } else {
            None
        }
    }

    /// The outstanding claim units.
    pub fn get_total_amount_minted(&self) -> (r: u64)
        ensures
            r == self.total_amount_minted,
    {
        self.total_amount_minted
    }

    /// The position of the first slot that holds `mint`.
    pub fn find_token_index(&self, mint: &Pubkey) -> (r: Option<usize>)
        ensures
            match r {
                Some(i) => i < self.tokens@.len() && self.tokens@[i as int].mint == *mint
                    && forall|j: int| 0 <= j < i ==> #[trigger] self.tokens@[j].mint != *mint,
                None => !has_mint(self.tokens@, *mint),
            },
    {
        let mut i: usize = 0;
        while i < self.tokens.len()
            invariant
                i <= self.tokens@.len(),
                forall|j: int| 0 <= j < i ==> #[trigger] self.tokens@[j].mint != *mint,
            decreases self.tokens@.len() - i,
        {
            if self.tokens[i].mint == *mint {
                return Some(i);
            }
            i += 1;
        }
        None
    }

    /// Splits `amount_in` into the fee and what is left after it.
    pub fn calculate_fee(&self, amount_in: u64) -> (r: Result<(u64, u64), ErrorCode>)
        requires
            fee_valid(self.fee_numerator, self.fee_denominator),
        ensures
            r == Ok::<(u64, u64), ErrorCode>((
                fee_of(amount_in as int, self.fee_numerator as int, self.fee_denominator as int) as u64,
                (amount_in - fee_of(amount_in as int, self.fee_numerator as int, self.fee_denominator as int)) as u64,
            )),
            fee_of(amount_in as int, self.fee_numerator as int, self.fee_denominator as int) <= amount_in,
    {
        proof {
            lemma_u64_product_fits(amount_in, self.fee_numerator);
        }
        let product: u128 = amount_in as u128 * self.fee_numerator as u128;
        proof {
            lemma_fee_at_most_amount(amount_in as int, self.fee_numerator as int, self.fee_denominator as int);
        }
        let fee: u128 = product / self.fee_denominator as u128;
        let fee: u64 = fee as u64;
        Ok((fee, amount_in - fee))
    }

    /// The output of a swap of `amount_in_after_fee` from slot `token_in` to slot `token_out`.
    pub fn calculate_swap_output(&self, token_in: usize, token_out: usize, amount_in_after_fee: u64)
        -> (r: Result<u64, ErrorCode>)
        requires
            self.wf(),
        ensures
            token_in >= self.tokens@.len() || token_out >= self.tokens@.len()
                ==> r == Err::<u64, ErrorCode>(ErrorCode::InvalidTokenIndex),
            token_in < self.tokens@.len() && token_out < self.tokens@.len() ==> {
                let q = weighted_out(
                    amount_in_after_fee as int,
                    self.tokens@[token_in as int].weight as int,
                    self.tokens@[token_out as int].weight as int,
                );
                &&& q <= u64::MAX ==> r == Ok::<u64, ErrorCode>(q as u64)
                &&& q > u64::MAX ==> r == Err::<u64, ErrorCode>(ErrorCode::MathOverflow)
            },
    {
        if token_in >= self.tokens.len() || token_out >= self.tokens.len() {
            return Err(ErrorCode::InvalidTokenIndex);
        }
        let weight_in = self.tokens[token_in].weight;
        let weight_out = self.tokens[token_out].weight;
        proof {
            lemma_u64_product_fits(amount_in_after_fee, weight_in);
        }
        let product: u128 = amount_in_after_fee as u128 * weight_in as u128;
        let q: u128 = product / weight_out as u128;
        if q > u64::MAX as u128 {
            Err(ErrorCode::MathOverflow)
        } else {
            Ok(q as u64)
        }
    }
}

/// With a rate of at most one, the fee never exceeds the amount.
pub proof fn lemma_fee_at_most_amount(amount: int, numerator: int, denominator: int)
    requires
        0 <= amount,
        0 <= numerator <= denominator,
        0 < denominator,
    ensures
        0 <= fee_of(amount, numerator, denominator) <= amount,
{
    assert(amount * numerator <= amount * denominator) by (nonlinear_arith)
        requires
            0 <= amount,
            numerator <= denominator,
    ;
    assert(0 <= amount * numerator) by (nonlinear_arith)
        requires
            0 <= amount,
            0 <= numerator,
    ;
    assert((amount * denominator) / denominator == amount) by (nonlinear_arith)
        requires
            0 < denominator,
    ;
    vstd::arithmetic::div_mod::lemma_div_is_ordered(amount * numerator, amount * denominator, denominator);
    vstd::arithmetic::div_mod::lemma_div_pos_is_pos(amount * numerator, denominator);
}

/// Creates an empty pool administered by the signing admin, with fee
/// `fee_numerator / fee_denominator`.
pub fn create_pool(ctx: &CreatePool, fee_numerator: u64, fee_denominator: u64)
    -> (r: Result<AnySwapPool, ErrorCode>)
    ensures
        fee_valid(fee_numerator, fee_denominator) <==> r.is_ok(),
        !fee_valid(fee_numerator, fee_denominator)
            ==> r == Err::<AnySwapPool, ErrorCode>(ErrorCode::InvalidFeeConfiguration),
        r matches Ok(p) ==> {
            &&& p.wf()
            &&& p.admin == ctx.admin
            &&& p.fee_numerator == fee_numerator
            &&& p.fee_denominator == fee_denominator
            &&& p.total_amount_minted == 0
            &&& p.tokens@.len() == 0
        },
{
    if fee_denominator == 0 || fee_numerator > fee_denominator {
        return Err(ErrorCode::InvalidFeeConfiguration);
    }
    Ok(AnySwapPool {
        admin: ctx.admin,
        fee_numerator,
        fee_denominator,
        total_amount_minted: 0,
        tokens: Vec::new(),
    })
}

} // verus!
