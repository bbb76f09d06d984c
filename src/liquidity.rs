use vstd::prelude::*;
use crate::engine::{
    initial_mint, initial_mint_spec, redeem, redeem_spec, subsequent_mint, subsequent_mint_spec,
    MintOutcome, RedeemOutcome,
};
use crate::error::ErrorCode;
use crate::state::PoolState;

verus! {

/// The balances that a liquidity operation reads and moves: the pool record, the two
/// vaults held under the pool's authority, and the caller's two token accounts and
/// pool-share account.
#[derive(Debug, Clone, Copy, PartialEq, Eq)]
pub struct LiquidityOperation {
    pub pool_state: PoolState,
    pub vault0: u64,
    pub vault1: u64,
    pub user0: u64,
    pub user1: u64,
    pub user_pool_ata: u64,
}

/// Deposit and shares for `amount_liq0`, `amount_liq1` against the current reserves:
/// the geometric mean on an empty pool, the reserve ratio otherwise.
pub open spec fn mint_plan(ctx: LiquidityOperation, amount_liq0: u64, amount_liq1: u64) -> Result<
    MintOutcome,
    ErrorCode,
> {
    if ctx.pool_state.total_amount_minted == 0 {
        match initial_mint_spec(amount_liq0, amount_liq1) {
            Ok(shares) => Ok(
                MintOutcome { deposit0: amount_liq0, deposit1: amount_liq1, new_shares: shares },
            ),
            Err(e) => Err(e),
        }
    } else {
        subsequent_mint_spec(
            ctx.vault0,
            ctx.vault1,
            amount_liq0,
            amount_liq1,
            ctx.pool_state.total_amount_minted,
        )
    }
}

/// The balances after `m` is applied: shares minted to the caller, deposits moved
/// from the caller into the vaults.
pub open spec fn after_mint(ctx: LiquidityOperation, m: MintOutcome) -> LiquidityOperation {
    LiquidityOperation {
        pool_state: PoolState {
            total_amount_minted: (ctx.pool_state.total_amount_minted + m.new_shares) as u64,
            ..ctx.pool_state
        },
        vault0: (ctx.vault0 + m.deposit0) as u64,
        vault1: (ctx.vault1 + m.deposit1) as u64,
        user0: (ctx.user0 - m.deposit0) as u64,
        user1: (ctx.user1 - m.deposit1) as u64,
        user_pool_ata: (ctx.user_pool_ata + m.new_shares) as u64,
    }
}

/// Whether applying `m` keeps every balance within 64 bits.
pub open spec fn mint_fits(ctx: LiquidityOperation, m: MintOutcome) -> bool {
    ctx.pool_state.total_amount_minted + m.new_shares <= u64::MAX
        && ctx.user_pool_ata + m.new_shares <= u64::MAX
        && ctx.vault0 + m.deposit0 <= u64::MAX
        && ctx.vault1 + m.deposit1 <= u64::MAX
}

/// Outcome of add_liquidity: the caller must hold both offered amounts, the plan must
/// succeed, and the new balances must fit.
pub open spec fn add_liquidity_spec(ctx: LiquidityOperation, amount_liq0: u64, amount_liq1: u64) -> Result<
    MintOutcome,
    ErrorCode,
> {
    if amount_liq0 > ctx.user0 || amount_liq1 > ctx.user1 {
        Err(ErrorCode::NotEnoughBalance)
    } else {
        match mint_plan(ctx, amount_liq0, amount_liq1) {
            Ok(m) => if mint_fits(ctx, m) {
                Ok(m)
            } else {
                Err(ErrorCode::ArithmeticOverflow)
            },
            Err(e) => Err(e),
        }
    }
}

/// Adds liquidity: mints pool shares to the caller and moves the deposits into the
/// vaults. On failure nothing changes.
pub fn add_liquidity(ctx: &mut LiquidityOperation, amount_liq0: u64, amount_liq1: u64) -> (r: Result<
    MintOutcome,
    ErrorCode,
>)
    ensures
        r == add_liquidity_spec(*old(ctx), amount_liq0, amount_liq1),
        r is Ok ==> *final(ctx) == after_mint(*old(ctx), r->Ok_0),
        r is Err ==> *final(ctx) == *old(ctx),
{
    if amount_liq0 > ctx.user0 || amount_liq1 > ctx.user1 {
        return Err(ErrorCode::NotEnoughBalance);
    }
    let total: u64 = ctx.pool_state.total_amount_minted;
    let plan: MintOutcome;
    if total == 0 {
        match initial_mint(amount_liq0, amount_liq1) {
            Ok(shares) => {
                plan = MintOutcome { deposit0: amount_liq0, deposit1: amount_liq1, new_shares: shares };
            },
            Err(e) => {
                return Err(e);
            },
        }
    } else {
        match subsequent_mint(ctx.vault0, ctx.vault1, amount_liq0, amount_liq1, total) {
            Ok(m) => {
                plan = m;
            },
            Err(e) => {
                return Err(e);
            },
        }
    }
    if plan.new_shares > u64::MAX - total || plan.new_shares > u64::MAX - ctx.user_pool_ata
        || plan.deposit0 > u64::MAX - ctx.vault0 || plan.deposit1 > u64::MAX - ctx.vault1 {
        return Err(ErrorCode::ArithmeticOverflow);
    }
    ctx.pool_state.total_amount_minted = total + plan.new_shares;
    ctx.user_pool_ata = ctx.user_pool_ata + plan.new_shares;
    ctx.vault0 = ctx.vault0 + plan.deposit0;
    ctx.vault1 = ctx.vault1 + plan.deposit1;
    ctx.user0 = ctx.user0 - plan.deposit0;
    ctx.user1 = ctx.user1 - plan.deposit1;
    Ok(plan)
}

/// The balances after burning `burn_amount` shares for payout `p`.
pub open spec fn after_burn(ctx: LiquidityOperation, burn_amount: u64, p: RedeemOutcome) -> LiquidityOperation {
    LiquidityOperation {
        pool_state: PoolState {
            total_amount_minted: (ctx.pool_state.total_amount_minted - burn_amount) as u64,
            ..ctx.pool_state
        },
        vault0: (ctx.vault0 - p.amount0) as u64,
        vault1: (ctx.vault1 - p.amount1) as u64,
        user0: (ctx.user0 + p.amount0) as u64,
        user1: (ctx.user1 + p.amount1) as u64,
        user_pool_ata: (ctx.user_pool_ata - burn_amount) as u64,
    }
}

/// Outcome of remove_liquidity: the caller must hold the shares, the burn must not
/// exceed the supply, and the caller's new token balances must fit.
pub open spec fn remove_liquidity_spec(ctx: LiquidityOperation, burn_amount: u64) -> Result<
    RedeemOutcome,
    ErrorCode,
> {
    if burn_amount > ctx.user_pool_ata {
        Err(ErrorCode::NotEnoughBalance)
    } else {
        match redeem_spec(ctx.pool_state.total_amount_minted, ctx.vault0, ctx.vault1, burn_amount) {
            Ok(p) => if ctx.user0 + p.amount0 <= u64::MAX && ctx.user1 + p.amount1 <= u64::MAX {
                Ok(p)
            } else {
                Err(ErrorCode::ArithmeticOverflow)
            },
            Err(e) => Err(e),
        }
    }
}

/// Removes liquidity: burns the caller's shares and pays out the pro-rata part of
/// each vault. On failure nothing changes.
pub fn remove_liquidity(ctx: &mut LiquidityOperation, burn_amount: u64) -> (r: Result<
    RedeemOutcome,
    ErrorCode,
>)
    ensures
        r == remove_liquidity_spec(*old(ctx), burn_amount),
        r is Ok ==> *final(ctx) == after_burn(*old(ctx), burn_amount, r->Ok_0),
        r is Err ==> *final(ctx) == *old(ctx),
{
    if burn_amount > ctx.user_pool_ata {
        return Err(ErrorCode::NotEnoughBalance);
    }
    let payout: RedeemOutcome;
    match redeem(ctx.pool_state.total_amount_minted, ctx.vault0, ctx.vault1, burn_amount) {
        Ok(p) => {
            payout = p;
        },
        Err(e) => {
            return Err(e);
        },
    }
    if payout.amount0 > u64::MAX - ctx.user0 || payout.amount1 > u64::MAX - ctx.user1 {
        return Err(ErrorCode::ArithmeticOverflow);
    }
    ctx.pool_state.total_amount_minted = ctx.pool_state.total_amount_minted - burn_amount;
    ctx.user_pool_ata = ctx.user_pool_ata - burn_amount;
    ctx.vault0 = ctx.vault0 - payout.amount0;
    ctx.vault1 = ctx.vault1 - payout.amount1;
    ctx.user0 = ctx.user0 + payout.amount0;
    ctx.user1 = ctx.user1 + payout.amount1;
    Ok(payout)
}

} // verus!
