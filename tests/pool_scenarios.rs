use anchor_dex::engine::{MintOutcome, RedeemOutcome};
use anchor_dex::{
    add_liquidity, remove_liquidity, swap, Direction, ErrorCode, LiquidityOperation, PoolState, Pubkey,
    Swap,
};

fn key(first: u8) -> Pubkey {
    let mut bytes = [7u8; 32];
    bytes[0] = first;
    Pubkey { bytes }
}

fn empty_pool() -> PoolState {
    PoolState { mint0: key(1), mint1: key(2), total_amount_minted: 0 }
}

fn fresh_caller() -> LiquidityOperation {
    LiquidityOperation {
        pool_state: empty_pool(),
        vault0: 0,
        vault1: 0,
        user0: 1_000_000,
        user1: 1_000_000,
        user_pool_ata: 0,
    }
}

fn seeded() -> LiquidityOperation {
    let mut ctx = fresh_caller();
    add_liquidity(&mut ctx, 1000, 4000).unwrap();
    ctx
}

fn swap_view(ctx: &LiquidityOperation) -> Swap {
    Swap {
        pool_state: ctx.pool_state,
        vault0: ctx.vault0,
        vault1: ctx.vault1,
        user0: ctx.user0,
        user1: ctx.user1,
    }
}

#[test]
fn seed_pool() {
    let mut ctx = fresh_caller();
    let m = add_liquidity(&mut ctx, 1000, 4000).unwrap();
    assert_eq!(m, MintOutcome { deposit0: 1000, deposit1: 4000, new_shares: 2000 });
    assert_eq!(ctx.pool_state.total_amount_minted, 2000);
    assert_eq!(ctx.vault0, 1000);
    assert_eq!(ctx.vault1, 4000);
    assert_eq!(ctx.user_pool_ata, 2000);
    assert_eq!(ctx.user0, 999_000);
    assert_eq!(ctx.user1, 996_000);
}

#[test]
fn second_deposit_balanced() {
    let mut ctx = seeded();
    let m = add_liquidity(&mut ctx, 500, 2000).unwrap();
    assert_eq!(m, MintOutcome { deposit0: 500, deposit1: 2000, new_shares: 1000 });
    assert_eq!(ctx.pool_state.total_amount_minted, 3000);
    assert_eq!(ctx.vault0, 1500);
    assert_eq!(ctx.vault1, 6000);
}

#[test]
fn second_deposit_unbalanced() {
    let mut ctx = seeded();
    let before = ctx;
    assert_eq!(add_liquidity(&mut ctx, 500, 1500), Err(ErrorCode::InsufficientMatchingDeposit));
    assert_eq!(ctx, before);
}

#[test]
fn swap_zero_for_one() {
    let mut ctx = seeded();
    add_liquidity(&mut ctx, 500, 2000).unwrap();
    let mut s = swap_view(&ctx);
    let out = swap(&mut s, Direction::ZeroForOne, 100, 0).unwrap();
    assert_eq!(out, 375);
    assert_eq!(s.vault0, 1600);
    assert_eq!(s.vault1, 5625);
    assert!((s.vault0 as u128) * (s.vault1 as u128) >= 9_000_000);
    assert_eq!(s.user0, ctx.user0 - 100);
    assert_eq!(s.user1, ctx.user1 + 375);
}

#[test]
fn swap_with_slippage_guard() {
    let mut ctx = seeded();
    add_liquidity(&mut ctx, 500, 2000).unwrap();
    let mut s = swap_view(&ctx);
    let before = s;
    assert_eq!(swap(&mut s, Direction::ZeroForOne, 100, 400), Err(ErrorCode::NotEnoughOut));
    assert_eq!(s, before);
}

#[test]
fn full_redeem() {
    let mut ctx = seeded();
    let p = remove_liquidity(&mut ctx, 2000).unwrap();
    assert_eq!(p, RedeemOutcome { amount0: 1000, amount1: 4000 });
    assert_eq!(ctx.pool_state.total_amount_minted, 0);
    assert_eq!(ctx.vault0, 0);
    assert_eq!(ctx.vault1, 0);
    assert_eq!(ctx.user_pool_ata, 0);
    assert_eq!(ctx.user0, 1_000_000);
    assert_eq!(ctx.user1, 1_000_000);
}

#[test]
fn over_burn() {
    let mut ctx = seeded();
    ctx.user_pool_ata = 5000;
    let before = ctx;
    assert_eq!(remove_liquidity(&mut ctx, 3000), Err(ErrorCode::BurnTooMuch));
    assert_eq!(ctx, before);
}
