use vstd::prelude::*;

use crate::accounts::Pubkey;
use crate::error::ErrorCode;
use crate::math::{integer_sqrt, is_isqrt, lemma_u64_product_fits};

verus! {

/// Claim units withheld from a pair's first deposit.
pub const PAIR_MINIMUM_LIQUIDITY: u64 = 1000;

/// Fee kept on a pair swap: the input counts for `PAIR_FEE_NUMERATOR / PAIR_FEE_DENOMINATOR`.
pub const PAIR_FEE_NUMERATOR: u64 = 997;

pub const PAIR_FEE_DENOMINATOR: u64 = 1000;

/// A constant-product pair of two assets with its reserves.
#[derive(Clone, Copy, Debug, PartialEq, Eq, Structural)]
pub struct Pair {
    pub token_0: Pubkey,
    pub token_1: Pubkey,
    pub lp_mint: Pubkey,
    pub reserve_0: u64,
    pub reserve_1: u64,
    pub bump: u8,
}

/// What creating a pair reads: its claim-token mint and its address's bump seed.
#[derive(Clone, Copy, Debug, PartialEq, Eq, Structural)]
pub struct CreatePair {
    pub lp_mint: Pubkey,
    pub bump: u8,
}

/// What a pair operation reads of the claim-token mint it is handed: its
/// address and its outstanding supply.
#[derive(Clone, Copy, Debug, PartialEq, Eq, Structural)]
pub struct LpMint {
    pub key: Pubkey,
    pub supply: u64,
}

/// Creates a pair of `token_0` and `token_1` with empty reserves.
pub fn create_pair(ctx: &CreatePair, token_0: Pubkey, token_1: Pubkey) -> (r: Pair)
    ensures
        r == (Pair { token_0, token_1, lp_mint: ctx.lp_mint, reserve_0: 0, reserve_1: 0, bump: ctx.bump }),
{
    Pair { token_0, token_1, lp_mint: ctx.lp_mint, reserve_0: 0, reserve_1: 0, bump: ctx.bump }
}

/// `min(supply * amount_0 / reserve_0, supply * amount_1 / reserve_1)`, the
/// claims minted by a deposit into a pair that already has reserves.
pub open spec fn pair_minted(pair: Pair, lp_supply: u64, amount_0: u64, amount_1: u64) -> int {
    let from_0 = lp_supply * amount_0 / (pair.reserve_0 as int);
    let from_1 = lp_supply * amount_1 / (pair.reserve_1 as int);
    if from_0 < from_1 {
        from_0
    } else {
        from_1
    }
}

/// The first check that depositing `amount_0` and `amount_1` into `pair`
/// fails, if any.
pub open spec fn pair_deposit_error(pair: Pair, lp_mint: LpMint, amount_0: u64, amount_1: u64) -> Option<
    ErrorCode,
> {
    let r0 = pair.reserve_0 as int;
    let r1 = pair.reserve_1 as int;
    let lp_supply = lp_mint.supply;
    if lp_mint.key != pair.lp_mint {
        Some(ErrorCode::InvalidLpMint)
    } else if r0 == 0 && r1 == 0 {
        if (amount_0 as int) * (amount_1 as int) < (PAIR_MINIMUM_LIQUIDITY + 1) * (PAIR_MINIMUM_LIQUIDITY + 1) {
            Some(ErrorCode::InsufficientLiquidity)
        } else {
            None
        }
    } else if r0 == 0 {
        Some(ErrorCode::MathOverflow)
    } else if amount_0 * r1 / r0 > u64::MAX {
        Some(ErrorCode::MathOverflow)
    } else if amount_1 < amount_0 * r1 / r0 {
        Some(ErrorCode::InsufficientTokenAmount)
    } else if r1 == 0 {
        Some(ErrorCode::MathOverflow)
    } else if pair_minted(pair, lp_supply, amount_0, amount_1) > u64::MAX || r0 + amount_0 > u64::MAX || r1
        + amount_1 > u64::MAX {
        Some(ErrorCode::MathOverflow)
    } else {
        None
    }
}

/// Deposits `amount_0` and `amount_1` and returns the claims minted: on an
/// empty pair `isqrt(amount_0 * amount_1) - PAIR_MINIMUM_LIQUIDITY`, which
/// must be positive;
/// otherwise `amount_1` must cover `amount_0`'s proportional counterpart and
/// the claims are `min(supply * amount_0 / reserve_0, supply * amount_1 / reserve_1)`.
pub fn add_liquidity(pair: &mut Pair, lp_mint: &LpMint, amount_0: u64, amount_1: u64) -> (r: Result<u64, ErrorCode>)
    ensures
        r.is_err() <==> pair_deposit_error(*old(pair), *lp_mint, amount_0, amount_1) is Some,
        r matches Err(e) ==> pair_deposit_error(*old(pair), *lp_mint, amount_0, amount_1) == Some(e)
            && *final(pair) == *old(pair),
        r matches Ok(lp) ==> {
            &&& final(pair).reserve_0 == old(pair).reserve_0 + amount_0
            &&& final(pair).reserve_1 == old(pair).reserve_1 + amount_1
            &&& final(pair).token_0 == old(pair).token_0
            &&& final(pair).token_1 == old(pair).token_1
            &&& final(pair).lp_mint == old(pair).lp_mint
            &&& final(pair).bump == old(pair).bump
            &&& old(pair).reserve_0 == 0 && old(pair).reserve_1 == 0 ==> lp > 0 && is_isqrt(
                amount_0 * amount_1,
                lp + PAIR_MINIMUM_LIQUIDITY,
            )
            &&& !(old(pair).reserve_0 == 0 && old(pair).reserve_1 == 0) ==> lp == pair_minted(
                *old(pair),
                lp_mint.supply,
                amount_0,
                amount_1,
            )
        },
{
    if lp_mint.key != pair.lp_mint {
        return Err(ErrorCode::InvalidLpMint);
    }
    let lp_supply = lp_mint.supply;
    let reserve_0 = pair.reserve_0;
    let reserve_1 = pair.reserve_1;
    proof {
        lemma_u64_product_fits(amount_0, amount_1);
        lemma_u64_product_fits(amount_0, reserve_1);
        lemma_u64_product_fits(lp_supply, amount_0);
        lemma_u64_product_fits(lp_supply, amount_1);
    }
    if reserve_0 == 0 && reserve_1 == 0 {
        let product: u128 = amount_0 as u128 * amount_1 as u128;
        let root = integer_sqrt(product);
        proof {
            crate::liquidity::lemma_root_above_floor(product as int, root as int);
        }
        if root <= PAIR_MINIMUM_LIQUIDITY {
            return Err(ErrorCode::InsufficientLiquidity);
        }
        let lp = root - PAIR_MINIMUM_LIQUIDITY;
        pair.reserve_0 = amount_0;
        pair.reserve_1 = amount_1;
        return Ok(lp);
    }
    if reserve_0 == 0 {
        return Err(ErrorCode::MathOverflow);
    }
    let required_amount_1: u128 = (amount_0 as u128 * reserve_1 as u128) / reserve_0 as u128;
    if required_amount_1 > u64::MAX as u128 {
        return Err(ErrorCode::MathOverflow);
    }
    if (amount_1 as u128) < required_amount_1 {
        return Err(ErrorCode::InsufficientTokenAmount);
    }
    if reserve_1 == 0 {
        return Err(ErrorCode::MathOverflow);
    }
    let lp_from_0: u128 = (lp_supply as u128 * amount_0 as u128) / reserve_0 as u128;
    let lp_from_1: u128 = (lp_supply as u128 * amount_1 as u128) / reserve_1 as u128;
    let lp: u128 = if lp_from_0 < lp_from_1 {
        lp_from_0
    } else {
        lp_from_1
    };
    if lp > u64::MAX as u128 || reserve_0 > u64::MAX - amount_0 || reserve_1 > u64::MAX - amount_1 {
        return Err(ErrorCode::MathOverflow);
    }
    pair.reserve_0 = reserve_0 + amount_0;
    pair.reserve_1 = reserve_1 + amount_1;
    Ok(lp as u64)
}

/// The outcome of burning `lp_amount` of `lp_mint.supply` claims on `pair`: the
/// amounts returned of each asset, or the first failing check.
pub open spec fn pair_withdraw_result(pair: Pair, lp_mint: LpMint, lp_amount: u64) -> Result<(int, int), ErrorCode> {
    let lp_supply = lp_mint.supply;
    if lp_mint.key != pair.lp_mint {
        Err(ErrorCode::InvalidLpMint)
    } else if lp_amount == 0 || lp_amount > lp_supply {
        Err(ErrorCode::InsufficientLiquidity)
    } else {
        let amount_0 = lp_amount * pair.reserve_0 / lp_supply as int;
        let amount_1 = lp_amount * pair.reserve_1 / lp_supply as int;
        if amount_0 == 0 || amount_1 == 0 {
            Err(ErrorCode::InsufficientLiquidity)
        } else {
            Ok((amount_0, amount_1))
        }
    }
}

/// Burns `lp_amount` claims and returns `lp_amount * reserve / lp_supply` of each asset.
pub fn remove_liquidity(pair: &mut Pair, lp_mint: &LpMint, lp_amount: u64) -> (r: Result<(u64, u64), ErrorCode>)
    ensures
        r.is_err() <==> pair_withdraw_result(*old(pair), *lp_mint, lp_amount) is Err,
        r matches Err(e) ==> pair_withdraw_result(*old(pair), *lp_mint, lp_amount) == Err::<(int, int), ErrorCode>(e)
            && *final(pair) == *old(pair),
        r matches Ok((a0, a1)) ==> {
            &&& pair_withdraw_result(*old(pair), *lp_mint, lp_amount) == Ok::<(int, int), ErrorCode>(
                (a0 as int, a1 as int),
            )
            &&& final(pair).reserve_0 == old(pair).reserve_0 - a0
            &&& final(pair).reserve_1 == old(pair).reserve_1 - a1
            &&& final(pair).token_0 == old(pair).token_0
            &&& final(pair).token_1 == old(pair).token_1
            &&& final(pair).lp_mint == old(pair).lp_mint
            &&& final(pair).bump == old(pair).bump
        },
{
    if lp_mint.key != pair.lp_mint {
        return Err(ErrorCode::InvalidLpMint);
    }
    let lp_supply = lp_mint.supply;
    if lp_amount == 0 || lp_amount > lp_supply {
        return Err(ErrorCode::InsufficientLiquidity);
    }
    let reserve_0 = pair.reserve_0;
    let reserve_1 = pair.reserve_1;
    proof {
        lemma_u64_product_fits(lp_amount, reserve_0);
        lemma_u64_product_fits(lp_amount, reserve_1);
        crate::liquidity::lemma_withdraw_at_most_reserve(lp_amount as int, reserve_0 as int, lp_supply as int);
        crate::liquidity::lemma_withdraw_at_most_reserve(lp_amount as int, reserve_1 as int, lp_supply as int);
    }
    let amount_0: u64 = ((lp_amount as u128 * reserve_0 as u128) / lp_supply as u128) as u64;
    let amount_1: u64 = ((lp_amount as u128 * reserve_1 as u128) / lp_supply as u128) as u64;
    if amount_0 == 0 || amount_1 == 0 {
        return Err(ErrorCode::InsufficientLiquidity);
    }
    pair.reserve_0 = reserve_0 - amount_0;
    pair.reserve_1 = reserve_1 - amount_1;
    Ok((amount_0, amount_1))
}

/// `floor(amount_in * 997 * reserve_out / (reserve_in * 1000 + amount_in * 997))`,
/// the constant-product output after the fee.
pub open spec fn pair_amount_out(amount_in: int, reserve_in: int, reserve_out: int) -> int {
    let with_fee = amount_in * PAIR_FEE_NUMERATOR;
    with_fee * reserve_out / (reserve_in * PAIR_FEE_DENOMINATOR + with_fee)
}

/// The outcome of swapping `amount_in` of the asset `mint_in` on `pair`: the
/// output, or the first failing check.
pub open spec fn pair_swap_result(pair: Pair, mint_in: Pubkey, amount_in: u64, min_amount_out: u64) -> Result<
    int,
    ErrorCode,
> {
    if pair.reserve_0 == 0 || pair.reserve_1 == 0 {
        Err(ErrorCode::InsufficientLiquidity)
    } else if mint_in != pair.token_0 && mint_in != pair.token_1 {
        Err(ErrorCode::InvalidTokenMint)
    } else {
        let zero_in = mint_in == pair.token_0;
        let src = if zero_in {
            pair.reserve_0
        } else {
            pair.reserve_1
        };
        let dst = if zero_in {
            pair.reserve_1
        } else {
            pair.reserve_0
        };
        let out = pair_amount_out(amount_in as int, src as int, dst as int);
        if amount_in * PAIR_FEE_NUMERATOR * dst > u128::MAX {
            Err(ErrorCode::MathOverflow)
        } else if out < min_amount_out {
            Err(ErrorCode::InsufficientOutputAmount)
        } else if out >= dst {
            Err(ErrorCode::InsufficientLiquidity)
        } else if src + amount_in > u64::MAX {
            Err(ErrorCode::MathOverflow)
        } else {
            Ok(out)
        }
    }
}

/// Swaps `amount_in` of the asset `mint_in` for the pair's other asset at the
/// constant-product price after the fee, and returns the output.
pub fn swap(pair: &mut Pair, mint_in: Pubkey, amount_in: u64, min_amount_out: u64) -> (r: Result<u64, ErrorCode>)
    ensures
        r.is_err() <==> pair_swap_result(*old(pair), mint_in, amount_in, min_amount_out) is Err,
        r matches Err(e) ==> pair_swap_result(*old(pair), mint_in, amount_in, min_amount_out) == Err::<int, ErrorCode>(e)
            && *final(pair) == *old(pair),
        r matches Ok(out) ==> {
            &&& pair_swap_result(*old(pair), mint_in, amount_in, min_amount_out) == Ok::<int, ErrorCode>(out as int)
            &&& mint_in == old(pair).token_0 ==> final(pair).reserve_0 == old(pair).reserve_0 + amount_in
                && final(pair).reserve_1 == old(pair).reserve_1 - out
            &&& mint_in != old(pair).token_0 ==> final(pair).reserve_1 == old(pair).reserve_1 + amount_in
                && final(pair).reserve_0 == old(pair).reserve_0 - out
            &&& final(pair).token_0 == old(pair).token_0
            &&& final(pair).token_1 == old(pair).token_1
            &&& final(pair).lp_mint == old(pair).lp_mint
            &&& final(pair).bump == old(pair).bump
        },
{
    if pair.reserve_0 == 0 || pair.reserve_1 == 0 {
        return Err(ErrorCode::InsufficientLiquidity);
    }
    let reserve_0 = pair.reserve_0;
    let reserve_1 = pair.reserve_1;
    let is_token_0_in = mint_in == pair.token_0;
    let is_token_1_in = mint_in == pair.token_1;
    if !is_token_0_in && !is_token_1_in {
        return Err(ErrorCode::InvalidTokenMint);
    }
    let (src_reserve, dst_reserve) = if is_token_0_in {
        (reserve_0, reserve_1)
    } else {
        (reserve_1, reserve_0)
    };
    proof {
        lemma_u64_product_fits(amount_in, PAIR_FEE_NUMERATOR);
        lemma_u64_product_fits(src_reserve, PAIR_FEE_DENOMINATOR);
        assert(amount_in as int * 997 <= 997 * 0xffff_ffff_ffff_ffff);
        assert(src_reserve as int * 1000 <= 1000 * 0xffff_ffff_ffff_ffff);
    }
    let amount_in_with_fee: u128 = amount_in as u128 * PAIR_FEE_NUMERATOR as u128;
    let numerator: u128 = match amount_in_with_fee.checked_mul(dst_reserve as u128) {
        Some(n) => n,
        None => {
            return Err(ErrorCode::MathOverflow);
        },
    };
    let denominator: u128 = src_reserve as u128 * PAIR_FEE_DENOMINATOR as u128 + amount_in_with_fee;
    let out: u128 = numerator / denominator;
    proof {
        let w = amount_in_with_fee as int;
        let d = denominator as int;
        assert(w <= d);
        assert(0 <= w * dst_reserve <= d * dst_reserve) by (nonlinear_arith)
            requires
                0 <= w <= d,
                dst_reserve >= 0,
        ;
        assert((d * dst_reserve) / d == dst_reserve) by (nonlinear_arith)
            requires
                d > 0,
        ;
        vstd::arithmetic::div_mod::lemma_div_is_ordered(w * dst_reserve, d * dst_reserve, d);
    }
    let amount_out: u64 = out as u64;
    if amount_out < min_amount_out {
        return Err(ErrorCode::InsufficientOutputAmount);
    }
    if amount_out >= dst_reserve {
        return Err(ErrorCode::InsufficientLiquidity);
    }
    if src_reserve > u64::MAX - amount_in {
        return Err(ErrorCode::MathOverflow);
    }
    if is_token_0_in {
        pair.reserve_0 = reserve_0 + amount_in;
        pair.reserve_1 = reserve_1 - amount_out;
    } else {
        pair.reserve_1 = reserve_1 + amount_in;
        pair.reserve_0 = reserve_0 - amount_out;
    }
    Ok(amount_out)
}

} // verus!
