use anyswap::accounts::{AccountPair, Pubkey, TokenAccount};
use anyswap::error::ErrorCode;
use anyswap::liquidity::{add_liquidity, remove_liquidity, AddLiquidity, RemoveLiquidity};
use anyswap::math::integer_sqrt;
use anyswap::membership::{
    add_token_to_pool, modify_fee, modify_token_weight, remove_token_from_pool, AddTokenToPool,
    ModifyFee, ModifyTokenWeight, RemoveTokenFromPool,
};
use anyswap::pool::{create_pool, AnySwapPool, CreatePool, TokenItem, MAX_TOKENS};
use anyswap::swap::{swap_anyswap, Swap, SwapOutcome};

fn key(n: u128) -> Pubkey {
    Pubkey { hi: 0, lo: n }
}

const ADMIN: u128 = 1;
const USER: u128 = 2;
const AUTHORITY: u128 = 3;

fn mint_of(i: u128) -> Pubkey {
    key(100 + i)
}

fn vault_of(i: u128) -> Pubkey {
    key(200 + i)
}

fn new_pool(num: u64, den: u64) -> AnySwapPool {
    create_pool(&CreatePool { admin: key(ADMIN) }, num, den).unwrap()
}

fn add_asset(pool: &mut AnySwapPool, i: u128, weight: u64) -> Result<(), ErrorCode> {
    let existing_vaults: Vec<Pubkey> = pool.tokens.iter().map(|t| t.vault).collect();
    let ctx = AddTokenToPool {
        admin: key(ADMIN),
        token_mint: mint_of(i),
        vault: vault_of(i),
        existing_vaults,
    };
    add_token_to_pool(pool, &ctx, weight)
}

fn account(k: Pubkey, mint: Pubkey, owner: Pubkey, amount: u64) -> TokenAccount {
    TokenAccount { key: k, mint, owner, amount }
}

fn pairs(pool: &AnySwapPool, user_balances: &[u64], reserves: &[u64]) -> Vec<AccountPair> {
    pool.tokens
        .iter()
        .enumerate()
        .map(|(i, t)| AccountPair {
            user: account(key(300 + i as u128), t.mint, key(USER), user_balances[i]),
            vault: account(t.vault, t.mint, key(AUTHORITY), reserves[i]),
        })
        .collect()
}

fn two_asset_pool(w0: u64, w1: u64) -> AnySwapPool {
    let mut pool = new_pool(3, 1000);
    add_asset(&mut pool, 0, w0).unwrap();
    add_asset(&mut pool, 1, w1).unwrap();
    pool
}

fn swap_ctx(reserve_in: u64, reserve_out: u64, user_balance: u64) -> Swap {
    Swap {
        pool_authority: key(AUTHORITY),
        vault_in: account(vault_of(0), mint_of(0), key(AUTHORITY), reserve_in),
        vault_out: account(vault_of(1), mint_of(1), key(AUTHORITY), reserve_out),
        user_in: account(key(300), mint_of(0), key(USER), user_balance),
        user_out: account(key(301), mint_of(1), key(USER), 0),
        owner: key(USER),
    }
}

#[test]
fn create_pool_sets_fields() {
    let pool = new_pool(3, 1000);
    assert_eq!(pool.admin, key(ADMIN));
    assert_eq!(pool.fee_numerator, 3);
    assert_eq!(pool.fee_denominator, 1000);
    assert_eq!(pool.get_total_amount_minted(), 0);
    assert_eq!(pool.get_token_count(), 0);
}

#[test]
fn create_pool_rejects_bad_fee() {
    let ctx = CreatePool { admin: key(ADMIN) };
    assert_eq!(create_pool(&ctx, 1, 0).unwrap_err(), ErrorCode::InvalidFeeConfiguration);
    assert_eq!(create_pool(&ctx, 5, 4).unwrap_err(), ErrorCode::InvalidFeeConfiguration);
    assert!(create_pool(&ctx, 4, 4).is_ok());
    assert!(create_pool(&ctx, 0, 1).is_ok());
}

#[test]
fn fee_parts_add_up() {
    for (num, den) in [(3u64, 1000u64), (1, 1), (0, 7), (999, 1000), (1, 3)] {
        let pool = new_pool(num, den);
        for x in [0u64, 1, 2, 999, 1000, 123_456_789, u64::MAX] {
            let (fee, after) = pool.calculate_fee(x).unwrap();
            assert_eq!(fee + after, x);
            assert_eq!(fee as u128, x as u128 * num as u128 / den as u128);
        }
    }
}

#[test]
fn fee_of_thousand_at_three_per_mille() {
    let pool = new_pool(3, 1000);
    assert_eq!(pool.calculate_fee(1000).unwrap(), (3, 997));
    assert_eq!(pool.calculate_fee(333).unwrap(), (0, 333));
}

#[test]
fn integer_sqrt_values() {
    assert_eq!(integer_sqrt(0), 0);
    assert_eq!(integer_sqrt(1), 1);
    assert_eq!(integer_sqrt(3), 1);
    assert_eq!(integer_sqrt(4), 2);
    assert_eq!(integer_sqrt(1_000_000), 1000);
    assert_eq!(integer_sqrt(100_000_000), 10000);
    assert_eq!(integer_sqrt(99_999_999), 9999);
    assert_eq!(integer_sqrt(u128::MAX), u64::MAX);
}

#[test]
fn find_and_get_token() {
    let pool = two_asset_pool(1, 2);
    assert_eq!(pool.find_token_index(&mint_of(1)), Some(1));
    assert_eq!(pool.find_token_index(&mint_of(7)), None);
    assert_eq!(
        pool.get_token(0),
        Some(TokenItem { mint: mint_of(0), vault: vault_of(0), weight: 1 })
    );
    assert_eq!(pool.get_token(2), None);
}

#[test]
fn swap_output_example() {
    let pool = two_asset_pool(1, 2);
    let out = swap_anyswap(&pool, &swap_ctx(10_000, 10_000, 5_000), 1000, 0).unwrap();
    assert_eq!(out, SwapOutcome { fee: 3, amount_in_after_fee: 997, amount_out: 498 });
}

#[test]
fn swap_meets_bound_and_slippage() {
    let pool = two_asset_pool(3, 7);
    for amount in [1u64, 10, 999, 1000, 5000, 12345] {
        let out = swap_anyswap(&pool, &swap_ctx(1_000_000, 1_000_000, 1_000_000), amount, 0).unwrap();
        assert!(out.amount_out as u128 * 7 <= out.amount_in_after_fee as u128 * 3);
        assert_eq!(out.fee + out.amount_in_after_fee, amount);
        let again = swap_anyswap(&pool, &swap_ctx(1_000_000, 1_000_000, 1_000_000), amount, out.amount_out);
        assert_eq!(again.unwrap(), out);
    }
}

#[test]
fn swap_errors() {
    let pool = two_asset_pool(1, 2);
    assert_eq!(
        swap_anyswap(&pool, &swap_ctx(10_000, 10_000, 5_000), 1000, 499).unwrap_err(),
        ErrorCode::InsufficientOutputAmount
    );
    assert_eq!(
        swap_anyswap(&pool, &swap_ctx(10_000, 498, 5_000), 1000, 0).unwrap_err(),
        ErrorCode::InsufficientLiquidity
    );
    assert!(swap_anyswap(&pool, &swap_ctx(10_000, 499, 5_000), 1000, 0).is_ok());
    assert_eq!(
        swap_anyswap(&pool, &swap_ctx(0, 10_000, 5_000), 1000, 0).unwrap_err(),
        ErrorCode::InsufficientLiquidity
    );
    assert_eq!(
        swap_anyswap(&pool, &swap_ctx(10_000, 10_000, 999), 1000, 0).unwrap_err(),
        ErrorCode::InsufficientTokenAmount
    );
    let mut same = swap_ctx(10_000, 10_000, 5_000);
    same.vault_out = same.vault_in;
    assert_eq!(swap_anyswap(&pool, &same, 1000, 0).unwrap_err(), ErrorCode::SameTokenSwap);
    let mut stranger = swap_ctx(10_000, 10_000, 5_000);
    stranger.vault_out.mint = mint_of(9);
    assert_eq!(swap_anyswap(&pool, &stranger, 1000, 0).unwrap_err(), ErrorCode::InvalidTokenMint);
    let mut wrong_vault = swap_ctx(10_000, 10_000, 5_000);
    wrong_vault.vault_out.key = key(999);
    assert_eq!(swap_anyswap(&pool, &wrong_vault, 1000, 0).unwrap_err(), ErrorCode::InvalidTokenMint);
}

#[test]
fn swap_output_overflow() {
    let mut pool = two_asset_pool(1, 1);
    modify_token_weight(&mut pool, &ModifyTokenWeight { admin: key(ADMIN), token_mint: mint_of(0) }, u64::MAX)
        .unwrap();
    assert_eq!(pool.calculate_swap_output(0, 1, 2), Err(ErrorCode::MathOverflow));
    assert_eq!(pool.calculate_swap_output(0, 1, 1), Ok(u64::MAX));
    assert_eq!(pool.calculate_swap_output(0, 5, 1), Err(ErrorCode::InvalidTokenIndex));
    assert_eq!(
        swap_anyswap(&pool, &swap_ctx(u64::MAX, u64::MAX, u64::MAX), 1000, 0).unwrap_err(),
        ErrorCode::MathOverflow
    );
}

#[test]
fn first_deposit_dust_floor() {
    let mut pool = two_asset_pool(1, 1);
    let ctx = AddLiquidity { owner: key(USER), pool_authority: key(AUTHORITY), accounts: pairs(&pool, &[1000, 1000], &[0, 0]) };
    assert_eq!(add_liquidity(&mut pool, &ctx, &vec![1000, 1000]), Err(ErrorCode::InsufficientLiquidity));
    assert_eq!(pool.total_amount_minted, 0);
    let ctx = AddLiquidity { owner: key(USER), pool_authority: key(AUTHORITY), accounts: pairs(&pool, &[10_000, 10_000], &[0, 0]) };
    assert_eq!(add_liquidity(&mut pool, &ctx, &vec![10_000, 10_000]), Ok(9000));
    assert_eq!(pool.total_amount_minted, 9000);
}

#[test]
fn later_deposit_mints_least_share() {
    let mut pool = two_asset_pool(1, 1);
    pool.total_amount_minted = 1000;
    let ctx = AddLiquidity { owner: key(USER), pool_authority: key(AUTHORITY), accounts: pairs(&pool, &[500, 500], &[2000, 4000]) };
    // 1000 * 500 / 2000 = 250, 1000 * 300 / 4000 = 75
    assert_eq!(add_liquidity(&mut pool, &ctx, &vec![500, 300]), Ok(75));
    assert_eq!(pool.total_amount_minted, 1075);
}

#[test]
fn deposit_errors() {
    let mut empty = new_pool(3, 1000);
    let none = AddLiquidity { owner: key(USER), pool_authority: key(AUTHORITY), accounts: vec![] };
    assert_eq!(add_liquidity(&mut empty, &none, &vec![]), Err(ErrorCode::InvalidTokenCount));

    let mut pool = two_asset_pool(1, 1);
    let ctx = AddLiquidity { owner: key(USER), pool_authority: key(AUTHORITY), accounts: pairs(&pool, &[5000, 5000], &[0, 0]) };
    assert_eq!(add_liquidity(&mut pool, &ctx, &vec![5000]), Err(ErrorCode::InvalidTokenCount));
    assert_eq!(add_liquidity(&mut pool, &ctx, &vec![5000, 5001]), Err(ErrorCode::InsufficientTokenAmount));

    let mut swapped = pairs(&pool, &[5000, 5000], &[0, 0]);
    swapped.swap(0, 1);
    let ctx2 = AddLiquidity { owner: key(USER), pool_authority: key(AUTHORITY), accounts: swapped };
    assert_eq!(add_liquidity(&mut pool, &ctx2, &vec![5000, 5000]), Err(ErrorCode::InvalidTokenMint));

    let mut big = new_pool(3, 1000);
    for i in 0..3 {
        add_asset(&mut big, i, 1).unwrap();
    }
    let m = u64::MAX;
    let ctx3 = AddLiquidity { owner: key(USER), pool_authority: key(AUTHORITY), accounts: pairs(&big, &[m, m, m], &[0, 0, 0]) };
    assert_eq!(add_liquidity(&mut big, &ctx3, &vec![m, m, 2]), Err(ErrorCode::MathOverflow));

    pool.total_amount_minted = 10;
    let ctx4 = AddLiquidity { owner: key(USER), pool_authority: key(AUTHORITY), accounts: pairs(&pool, &[5000, 5000], &[0, 100]) };
    assert_eq!(add_liquidity(&mut pool, &ctx4, &vec![5000, 5000]), Err(ErrorCode::MathOverflow));
    assert_eq!(pool.total_amount_minted, 10);
}

#[test]
fn deposit_then_withdraw_returns_no_more() {
    let mut pool = two_asset_pool(1, 1);
    let first = AddLiquidity { owner: key(USER), pool_authority: key(AUTHORITY), accounts: pairs(&pool, &[40_000, 90_000], &[0, 0]) };
    let minted = add_liquidity(&mut pool, &first, &vec![40_000, 90_000]).unwrap();
    assert_eq!(minted, 60_000 - 1000);

    let deposit = [1234u64, 777];
    let reserves = [40_000u64, 90_000];
    let ctx = AddLiquidity { owner: key(USER), pool_authority: key(AUTHORITY), accounts: pairs(&pool, &deposit, &reserves) };
    let got = add_liquidity(&mut pool, &ctx, &deposit.to_vec()).unwrap();
    let after = [reserves[0] + deposit[0], reserves[1] + deposit[1]];
    let back = RemoveLiquidity {
        owner: key(USER),
        pool_authority: key(AUTHORITY),
        user_pool_ata: account(key(400), key(500), key(USER), got),
        accounts: pairs(&pool, &[0, 0], &after),
    };
    let returned = remove_liquidity(&mut pool, &back, got).unwrap();
    assert!(returned[0] <= deposit[0]);
    assert!(returned[1] <= deposit[1]);
    assert_eq!(pool.total_amount_minted, minted);
}

#[test]
fn first_deposit_round_trip_is_exact() {
    let mut pool = two_asset_pool(1, 1);
    let ctx = AddLiquidity { owner: key(USER), pool_authority: key(AUTHORITY), accounts: pairs(&pool, &[40_000, 90_000], &[0, 0]) };
    let minted = add_liquidity(&mut pool, &ctx, &vec![40_000, 90_000]).unwrap();
    let back = RemoveLiquidity {
        owner: key(USER),
        pool_authority: key(AUTHORITY),
        user_pool_ata: account(key(400), key(500), key(USER), minted),
        accounts: pairs(&pool, &[0, 0], &[40_000, 90_000]),
    };
    assert_eq!(remove_liquidity(&mut pool, &back, minted).unwrap(), vec![40_000, 90_000]);
    assert_eq!(pool.total_amount_minted, 0);
}

#[test]
fn claims_track_deposits_and_burns() {
    let mut pool = two_asset_pool(1, 1);
    let mut expected: u64 = 0;
    let mut reserves = [0u64, 0];
    for d in [[10_000u64, 10_000], [500, 700], [3000, 3000]] {
        let ctx = AddLiquidity { owner: key(USER), pool_authority: key(AUTHORITY), accounts: pairs(&pool, &d, &reserves) };
        expected += add_liquidity(&mut pool, &ctx, &d.to_vec()).unwrap();
        reserves = [reserves[0] + d[0], reserves[1] + d[1]];
        assert_eq!(pool.total_amount_minted, expected);
    }
    for burn in [100u64, 2000] {
        let ctx = RemoveLiquidity {
            owner: key(USER),
            pool_authority: key(AUTHORITY),
            user_pool_ata: account(key(400), key(500), key(USER), burn),
            accounts: pairs(&pool, &[0, 0], &reserves),
        };
        let out = remove_liquidity(&mut pool, &ctx, burn).unwrap();
        expected -= burn;
        reserves = [reserves[0] - out[0], reserves[1] - out[1]];
        assert_eq!(pool.total_amount_minted, expected);
    }
}

#[test]
fn withdraw_errors() {
    let mut pool = two_asset_pool(1, 1);
    pool.total_amount_minted = 100;
    let ctx = RemoveLiquidity {
        owner: key(USER),
        pool_authority: key(AUTHORITY),
        user_pool_ata: account(key(400), key(500), key(USER), 50),
        accounts: pairs(&pool, &[0, 0], &[1000, 1000]),
    };
    assert_eq!(remove_liquidity(&mut pool, &ctx, 51), Err(ErrorCode::InsufficientTokenAmount));
    assert_eq!(pool.total_amount_minted, 100);
    assert_eq!(remove_liquidity(&mut pool, &ctx, 50), Ok(vec![500, 500]));
    assert_eq!(pool.total_amount_minted, 50);

    let rich = RemoveLiquidity {
        owner: key(USER),
        pool_authority: key(AUTHORITY),
        user_pool_ata: account(key(400), key(500), key(USER), 1000),
        accounts: pairs(&pool, &[0, 0], &[500, 500]),
    };
    assert_eq!(remove_liquidity(&mut pool, &rich, 51), Err(ErrorCode::MathOverflow));

    let short = RemoveLiquidity {
        owner: key(USER),
        pool_authority: key(AUTHORITY),
        user_pool_ata: account(key(400), key(500), key(USER), 10),
        accounts: vec![],
    };
    assert_eq!(remove_liquidity(&mut pool, &short, 10), Err(ErrorCode::InvalidTokenCount));

    let mut other_owner = pairs(&pool, &[0, 0], &[500, 500]);
    other_owner[1].user.owner = key(77);
    let wrong = RemoveLiquidity {
        owner: key(USER),
        pool_authority: key(AUTHORITY),
        user_pool_ata: account(key(400), key(500), key(USER), 10),
        accounts: other_owner,
    };
    assert_eq!(remove_liquidity(&mut pool, &wrong, 10), Err(ErrorCode::InvalidTokenMint));
}

#[test]
fn membership_capacity_and_duplicates() {
    let mut pool = new_pool(3, 1000);
    for i in 0..MAX_TOKENS as u128 {
        add_asset(&mut pool, i, 1).unwrap();
    }
    assert_eq!(pool.get_token_count(), MAX_TOKENS);
    assert_eq!(add_asset(&mut pool, 5000, 1), Err(ErrorCode::InvalidTokenCount));
    assert_eq!(pool.get_token_count(), MAX_TOKENS);

    let mut small = two_asset_pool(1, 1);
    assert_eq!(add_asset(&mut small, 1, 1), Err(ErrorCode::DuplicateAsset));
    assert_eq!(add_asset(&mut small, 2, 0), Err(ErrorCode::InvalidWeight));
    let stale = AddTokenToPool {
        admin: key(ADMIN),
        token_mint: mint_of(2),
        vault: vault_of(2),
        existing_vaults: vec![vault_of(0)],
    };
    assert_eq!(add_token_to_pool(&mut small, &stale, 1), Err(ErrorCode::InvalidTokenCount));
    let reordered = AddTokenToPool {
        admin: key(ADMIN),
        token_mint: mint_of(2),
        vault: vault_of(2),
        existing_vaults: vec![vault_of(1), vault_of(0)],
    };
    assert_eq!(add_token_to_pool(&mut small, &reordered, 1), Err(ErrorCode::InvalidTokenMint));
    let intruder = AddTokenToPool {
        admin: key(USER),
        token_mint: mint_of(2),
        vault: vault_of(2),
        existing_vaults: vec![vault_of(0), vault_of(1)],
    };
    assert_eq!(add_token_to_pool(&mut small, &intruder, 1), Err(ErrorCode::Unauthorized));
    assert_eq!(small.get_token_count(), 2);
}

#[test]
fn remove_asset_requires_empty_vault() {
    let mut pool = new_pool(3, 1000);
    for i in 0..3 {
        add_asset(&mut pool, i, 1 + i as u64).unwrap();
    }
    let full = RemoveTokenFromPool {
        admin: key(ADMIN),
        token_mint: mint_of(1),
        vault: account(vault_of(1), mint_of(1), key(AUTHORITY), 1),
    };
    assert_eq!(remove_token_from_pool(&mut pool, &full), Err(ErrorCode::VaultNotEmpty));
    assert_eq!(pool.get_token_count(), 3);

    let empty = RemoveTokenFromPool {
        admin: key(ADMIN),
        token_mint: mint_of(1),
        vault: account(vault_of(1), mint_of(1), key(AUTHORITY), 0),
    };
    assert_eq!(remove_token_from_pool(&mut pool, &empty), Ok(()));
    assert_eq!(pool.get_token_count(), 2);
    assert_eq!(pool.find_token_index(&mint_of(2)), Some(1));
    assert_eq!(pool.get_token(1).unwrap().weight, 3);
    assert_eq!(remove_token_from_pool(&mut pool, &empty), Err(ErrorCode::InvalidTokenIndex));

    let wrong_vault = RemoveTokenFromPool {
        admin: key(ADMIN),
        token_mint: mint_of(0),
        vault: account(vault_of(2), mint_of(0), key(AUTHORITY), 0),
    };
    assert_eq!(remove_token_from_pool(&mut pool, &wrong_vault), Err(ErrorCode::InvalidTokenMint));
    let intruder = RemoveTokenFromPool { admin: key(USER), ..empty };
    assert_eq!(remove_token_from_pool(&mut pool, &intruder), Err(ErrorCode::Unauthorized));
}

#[test]
fn modify_weight_and_fee() {
    let mut pool = two_asset_pool(1, 1);
    let ctx = ModifyTokenWeight { admin: key(ADMIN), token_mint: mint_of(1) };
    assert_eq!(modify_token_weight(&mut pool, &ctx, 0), Err(ErrorCode::InvalidWeight));
    assert_eq!(modify_token_weight(&mut pool, &ctx, 5), Ok(()));
    assert_eq!(pool.get_token(1).unwrap().weight, 5);
    assert_eq!(pool.get_token(0).unwrap().weight, 1);
    let missing = ModifyTokenWeight { admin: key(ADMIN), token_mint: mint_of(9) };
    assert_eq!(modify_token_weight(&mut pool, &missing, 5), Err(ErrorCode::InvalidTokenIndex));
    let intruder = ModifyTokenWeight { admin: key(USER), token_mint: mint_of(1) };
    assert_eq!(modify_token_weight(&mut pool, &intruder, 5), Err(ErrorCode::Unauthorized));

    let fee = ModifyFee { admin: key(ADMIN) };
    assert_eq!(modify_fee(&mut pool, &fee, 2, 0), Err(ErrorCode::InvalidFeeConfiguration));
    assert_eq!(modify_fee(&mut pool, &fee, 3, 2), Err(ErrorCode::InvalidFeeConfiguration));
    assert_eq!(modify_fee(&mut pool, &ModifyFee { admin: key(USER) }, 1, 2), Err(ErrorCode::Unauthorized));
    assert_eq!(modify_fee(&mut pool, &fee, 1, 2), Ok(()));
    assert_eq!((pool.fee_numerator, pool.fee_denominator), (1, 2));
    assert_eq!(pool.calculate_fee(11).unwrap(), (5, 6));
}

#[test]
fn liquidity_rejects_vault_not_owned_by_authority() {
    let mut pool = two_asset_pool(1, 1);
    pool.total_amount_minted = 100;
    let mut stolen = pairs(&pool, &[500, 500], &[1000, 1000]);
    stolen[1].vault.owner = key(USER);
    let out = RemoveLiquidity {
        owner: key(USER),
        pool_authority: key(AUTHORITY),
        user_pool_ata: account(key(400), key(500), key(USER), 50),
        accounts: stolen.clone(),
    };
    assert_eq!(remove_liquidity(&mut pool, &out, 50), Err(ErrorCode::InvalidTokenMint));
    let into = AddLiquidity { owner: key(USER), pool_authority: key(AUTHORITY), accounts: stolen };
    assert_eq!(add_liquidity(&mut pool, &into, &vec![100, 100]), Err(ErrorCode::InvalidTokenMint));
    assert_eq!(pool.total_amount_minted, 100);
}
