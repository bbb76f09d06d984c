use anchor_dex::engine::{initial_mint, redeem, subsequent_mint, swap_out, MintOutcome, RedeemOutcome};
use anchor_dex::math::sqrt;
use anchor_dex::{
    add_liquidity, initialize_pool, remove_liquidity, swap, Direction, ErrorCode, LiquidityOperation,
    PoolState, Pubkey, Swap,
};
use anchor_dex::init_pool::InitializePool;

fn key(first: u8) -> Pubkey {
    let mut bytes = [3u8; 32];
    bytes[0] = first;
    Pubkey { bytes }
}

fn active(vault0: u64, vault1: u64, total: u64) -> LiquidityOperation {
    LiquidityOperation {
        pool_state: PoolState { mint0: key(1), mint1: key(2), total_amount_minted: total },
        vault0,
        vault1,
        user0: 1_000_000,
        user1: 1_000_000,
        user_pool_ata: total,
    }
}

#[test]
fn sqrt_small_values() {
    assert_eq!(sqrt(0), 0);
    assert_eq!(sqrt(1), 1);
    assert_eq!(sqrt(2), 1);
    assert_eq!(sqrt(3), 1);
    assert_eq!(sqrt(4), 2);
    assert_eq!(sqrt(15), 3);
    assert_eq!(sqrt(16), 4);
    assert_eq!(sqrt(4_000_000), 2000);
}

#[test]
fn sqrt_largest_input() {
    assert_eq!(sqrt(u128::MAX), u64::MAX as u128);
    let m = u64::MAX as u128;
    assert_eq!(sqrt(m * m), m);
    assert_eq!(sqrt(m * m - 1), m - 1);
}

#[test]
fn initial_mint_is_geometric_mean() {
    assert_eq!(initial_mint(1000, 4000), Ok(2000));
    assert_eq!(initial_mint(2, 3), Ok(2));
    assert_eq!(initial_mint(u64::MAX, u64::MAX), Ok(u64::MAX));
    assert_eq!(initial_mint(0, 5), Err(ErrorCode::NoPoolMintOutput));
    assert_eq!(initial_mint(5, 0), Err(ErrorCode::NoPoolMintOutput));
}

#[test]
fn subsequent_mint_follows_ratio() {
    assert_eq!(
        subsequent_mint(1000, 4000, 500, 2000, 2000),
        Ok(MintOutcome { deposit0: 500, deposit1: 2000, new_shares: 1000 })
    );
    // 7 * 10 / 3 = 23 (floor), 23 * 9 / 10 = 20 (floor)
    assert_eq!(
        subsequent_mint(3, 10, 7, 30, 9),
        Ok(MintOutcome { deposit0: 7, deposit1: 23, new_shares: 20 })
    );
    // the ratio is taken in 128 bits: a large reserve0 does not round the rate to zero
    assert_eq!(
        subsequent_mint(4000, 1000, 400, 100, 2000),
        Ok(MintOutcome { deposit0: 400, deposit1: 100, new_shares: 200 })
    );
}

#[test]
fn subsequent_mint_errors() {
    assert_eq!(subsequent_mint(0, 10, 1, 1, 1), Err(ErrorCode::DivisionByZero));
    assert_eq!(subsequent_mint(10, 0, 1, 1, 1), Err(ErrorCode::DivisionByZero));
    assert_eq!(subsequent_mint(1000, 4000, 500, 1999, 2000), Err(ErrorCode::InsufficientMatchingDeposit));
    assert_eq!(subsequent_mint(1000, 4000, 1, 4, 1), Err(ErrorCode::NoPoolMintOutput));
    assert_eq!(
        subsequent_mint(1, 1, u64::MAX, u64::MAX, u64::MAX),
        Err(ErrorCode::ArithmeticOverflow)
    );
}

#[test]
fn redeem_is_pro_rata() {
    assert_eq!(redeem(2000, 1000, 4000, 2000), Ok(RedeemOutcome { amount0: 1000, amount1: 4000 }));
    assert_eq!(redeem(3, 10, 20, 1), Ok(RedeemOutcome { amount0: 3, amount1: 6 }));
    assert_eq!(redeem(2000, 1000, 4000, 2001), Err(ErrorCode::BurnTooMuch));
    assert_eq!(redeem(0, 0, 0, 0), Err(ErrorCode::DivisionByZero));
}

#[test]
fn swap_out_formula() {
    assert_eq!(swap_out(1500, 6000, 100), Ok(375));
    // 1 * 2 / 3 = 0 kept, all of the output reserve leaves
    assert_eq!(swap_out(1, 2, 2), Ok(2));
    // 10 * 10 / 13 = 7 kept
    assert_eq!(swap_out(10, 10, 3), Ok(3));
    assert_eq!(swap_out(10, 10, 0), Ok(0));
    assert_eq!(swap_out(0, 0, 0), Err(ErrorCode::DivisionByZero));
}

#[test]
fn swap_out_never_decreases_with_input() {
    let mut last = 0u64;
    for a in 0..200u64 {
        let out = swap_out(50, 70, a).unwrap();
        assert!(out >= last);
        last = out;
    }
    assert!(swap_out(1500, 6000, 100).unwrap() < swap_out(1500, 6000, 200).unwrap());
}

#[test]
fn quote_twice_gives_same_result() {
    assert_eq!(swap_out(1234, 5678, 91), swap_out(1234, 5678, 91));
    assert_eq!(redeem(77, 500, 900, 13), redeem(77, 500, 900, 13));
    assert_eq!(subsequent_mint(10, 20, 5, 10, 7), subsequent_mint(10, 20, 5, 10, 7));
}

#[test]
fn add_liquidity_needs_balance() {
    let mut ctx = active(0, 0, 0);
    ctx.user0 = 10;
    let before = ctx;
    assert_eq!(add_liquidity(&mut ctx, 11, 1), Err(ErrorCode::NotEnoughBalance));
    assert_eq!(add_liquidity(&mut ctx, 1, 2_000_000), Err(ErrorCode::NotEnoughBalance));
    assert_eq!(ctx, before);
}

#[test]
fn add_liquidity_zero_on_empty_pool() {
    let mut ctx = active(0, 0, 0);
    assert_eq!(add_liquidity(&mut ctx, 0, 100), Err(ErrorCode::NoPoolMintOutput));
}

#[test]
fn add_liquidity_overflowing_supply() {
    // 10 * (2^64 - 2) / 10 new shares do not fit beside the 2^64 - 2 outstanding
    let mut ctx = active(10, 10, u64::MAX - 1);
    let before = ctx;
    assert_eq!(add_liquidity(&mut ctx, 10, 10), Err(ErrorCode::ArithmeticOverflow));
    assert_eq!(ctx, before);
}

#[test]
fn remove_liquidity_needs_shares() {
    let mut ctx = active(1000, 4000, 2000);
    let before = ctx;
    assert_eq!(remove_liquidity(&mut ctx, 2001), Err(ErrorCode::NotEnoughBalance));
    assert_eq!(ctx, before);
}

#[test]
fn partial_redeem_leaves_reserves() {
    let mut ctx = active(1000, 4000, 2000);
    let p = remove_liquidity(&mut ctx, 1999).unwrap();
    assert_eq!(p, RedeemOutcome { amount0: 999, amount1: 3998 });
    assert_eq!(ctx.vault0, 1);
    assert_eq!(ctx.vault1, 2);
    assert_eq!(ctx.pool_state.total_amount_minted, 1);
}

#[test]
fn round_trip_on_active_pool() {
    let mut ctx = active(1000, 3001, 700);
    let m = add_liquidity(&mut ctx, 333, 1_000_000).unwrap();
    assert_eq!(m.deposit0, 333);
    assert_eq!(m.deposit1, 333 * 3001 / 1000);
    let back = remove_liquidity(&mut ctx, m.new_shares).unwrap();
    assert!(back.amount0 <= m.deposit0);
    assert!(back.amount1 <= m.deposit1);
    assert!(m.new_shares as u128 * 3001 <= m.deposit1 as u128 * 700);
}

#[test]
fn round_trip_on_empty_pool() {
    let mut ctx = active(0, 0, 0);
    let m = add_liquidity(&mut ctx, 12345, 678).unwrap();
    let back = remove_liquidity(&mut ctx, m.new_shares).unwrap();
    assert_eq!(back, RedeemOutcome { amount0: 12345, amount1: 678 });
    assert_eq!(ctx.pool_state.total_amount_minted, 0);
    assert_eq!((ctx.vault0, ctx.vault1), (0, 0));
}

fn swap_ctx(vault0: u64, vault1: u64, total: u64) -> Swap {
    Swap {
        pool_state: PoolState { mint0: key(1), mint1: key(2), total_amount_minted: total },
        vault0,
        vault1,
        user0: 1000,
        user1: 1000,
    }
}

#[test]
fn swap_one_for_zero() {
    let mut s = swap_ctx(1500, 6000, 3000);
    // 9_000_000 / 6400 = 1406 kept
    assert_eq!(swap(&mut s, Direction::OneForZero, 400, 90), Ok(94));
    assert_eq!((s.vault0, s.vault1, s.user0, s.user1), (1406, 6400, 1094, 600));
    assert!(1406u128 * 6400 <= 9_000_000);
}

#[test]
fn swap_errors() {
    let mut s = swap_ctx(1500, 6000, 3000);
    assert_eq!(swap(&mut s, Direction::ZeroForOne, 1001, 0), Err(ErrorCode::NotEnoughBalance));
    let mut empty = swap_ctx(0, 0, 0);
    assert_eq!(swap(&mut empty, Direction::ZeroForOne, 10, 0), Err(ErrorCode::PoolEmpty));
    let mut drained = swap_ctx(10, 0, 5);
    assert_eq!(swap(&mut drained, Direction::ZeroForOne, 10, 0), Err(ErrorCode::PoolEmpty));
    let mut full = swap_ctx(u64::MAX - 5, 10, 5);
    full.user0 = 100;
    assert_eq!(swap(&mut full, Direction::ZeroForOne, 10, 0), Err(ErrorCode::ArithmeticOverflow));
    assert_eq!(full.vault0, u64::MAX - 5);
}

#[test]
fn initialize_orders_pair() {
    let a = key(1);
    let b = key(9);
    let p = initialize_pool(&InitializePool { mint0: b, mint1: a, pool_exists: false }).unwrap();
    assert_eq!(p, PoolState { mint0: a, mint1: b, total_amount_minted: 0 });
    let q = initialize_pool(&InitializePool { mint0: a, mint1: b, pool_exists: false }).unwrap();
    assert_eq!(p, q);
}

#[test]
fn initialize_errors() {
    let a = key(4);
    assert_eq!(
        initialize_pool(&InitializePool { mint0: a, mint1: a, pool_exists: false }),
        Err(ErrorCode::IdenticalMints)
    );
    assert_eq!(
        initialize_pool(&InitializePool { mint0: a, mint1: key(5), pool_exists: true }),
        Err(ErrorCode::PoolAlreadyExists)
    );
}

#[test]
fn key_order_is_bytewise() {
    let mut x = [0u8; 32];
    let mut y = [0u8; 32];
    x[31] = 2;
    y[31] = 1;
    y[30] = 1;
    assert!(Pubkey { bytes: x }.precedes(&Pubkey { bytes: y }));
    assert!(!Pubkey { bytes: y }.precedes(&Pubkey { bytes: x }));
    assert!(Pubkey { bytes: x }.same_as(&Pubkey { bytes: x }));
    assert!(!Pubkey { bytes: x }.same_as(&Pubkey { bytes: y }));
}

#[test]
fn init_size_is_twice_the_record() {
    assert_eq!(PoolState::init_size(), 144);
}
