use anchor_dex::{
    add_liquidity, remove_liquidity, swap, Direction, LiquidityOperation, PoolState, Pubkey, Swap,
};

fn backed(ctx: &LiquidityOperation) -> bool {
    (ctx.pool_state.total_amount_minted == 0) == (ctx.vault0 == 0 && ctx.vault1 == 0)
}

fn trade(ctx: &mut LiquidityOperation, direction: Direction, amount_in: u64) {
    let mut s = Swap {
        pool_state: ctx.pool_state,
        vault0: ctx.vault0,
        vault1: ctx.vault1,
        user0: ctx.user0,
        user1: ctx.user1,
    };
    if swap(&mut s, direction, amount_in, 0).is_ok() {
        ctx.vault0 = s.vault0;
        ctx.vault1 = s.vault1;
        ctx.user0 = s.user0;
        ctx.user1 = s.user1;
    }
}

#[test]
fn backing_holds_over_a_run() {
    let mut ctx = LiquidityOperation {
        pool_state: PoolState {
            mint0: Pubkey { bytes: [1u8; 32] },
            mint1: Pubkey { bytes: [2u8; 32] },
            total_amount_minted: 0,
        },
        vault0: 0,
        vault1: 0,
        user0: 100_000,
        user1: 100_000,
        user_pool_ata: 0,
    };
    assert!(backed(&ctx));
    let _ = add_liquidity(&mut ctx, 3000, 7000);
    assert!(backed(&ctx));
    trade(&mut ctx, Direction::ZeroForOne, 500);
    assert!(backed(&ctx));
    let _ = add_liquidity(&mut ctx, 100, 5000);
    assert!(backed(&ctx));
    trade(&mut ctx, Direction::OneForZero, 2500);
    assert!(backed(&ctx));
    let _ = remove_liquidity(&mut ctx, 1000);
    assert!(backed(&ctx));
    let all = ctx.pool_state.total_amount_minted;
    let _ = remove_liquidity(&mut ctx, all);
    assert!(backed(&ctx));
    assert_eq!(ctx.pool_state.total_amount_minted, 0);
    assert_eq!((ctx.vault0, ctx.vault1), (0, 0));
}

#[test]
fn deposit_share_never_exceeds_quota() {
    let mut ctx = LiquidityOperation {
        pool_state: PoolState {
            mint0: Pubkey { bytes: [1u8; 32] },
            mint1: Pubkey { bytes: [2u8; 32] },
            total_amount_minted: 997,
        },
        vault0: 1234,
        vault1: 5678,
        user0: 100_000,
        user1: 100_000,
        user_pool_ata: 0,
    };
    let m = add_liquidity(&mut ctx, 321, 100_000).unwrap();
    let total = ctx.pool_state.total_amount_minted as u128;
    let reserve1 = ctx.vault1 as u128;
    assert!(m.new_shares as u128 * reserve1 <= m.deposit1 as u128 * total);
    assert!(m.new_shares as u128 * 5678 <= m.deposit1 as u128 * 997);
}

#[test]
fn exact_swap_keeps_product() {
    let mut s = Swap {
        pool_state: PoolState {
            mint0: Pubkey { bytes: [1u8; 32] },
            mint1: Pubkey { bytes: [2u8; 32] },
            total_amount_minted: 100,
        },
        vault0: 100,
        vault1: 100,
        user0: 1000,
        user1: 0,
    };
    // 100 * 100 / 125 = 80 exactly
    assert_eq!(swap(&mut s, Direction::ZeroForOne, 25, 0), Ok(20));
    assert_eq!(s.vault0 as u128 * s.vault1 as u128, 10_000);
}

#[test]
fn inexact_swap_rounds_toward_trader() {
    let mut s = Swap {
        pool_state: PoolState {
            mint0: Pubkey { bytes: [1u8; 32] },
            mint1: Pubkey { bytes: [2u8; 32] },
            total_amount_minted: 1,
        },
        vault0: 1,
        vault1: 2,
        user0: 10,
        user1: 0,
    };
    // 1 * 2 / 3 = 0 kept: the whole output reserve leaves and the product falls
    assert_eq!(swap(&mut s, Direction::ZeroForOne, 2, 0), Ok(2));
    assert_eq!((s.vault0, s.vault1), (3, 0));
}
