use vstd::prelude::*;
use crate::engine::{swap_out, swap_out_spec};
use crate::error::ErrorCode;
use crate::state::PoolState;

verus! {

/// Which token the caller pays in.
#[derive(Debug, Clone, Copy, PartialEq, Eq, Structural)]
pub enum Direction {
    /// Pay token 0, receive token 1.
    ZeroForOne,
    /// Pay token 1, receive token 0.
    OneForZero,
}

/// The balances that a swap reads and moves: the pool record, its two vaults, and the
/// caller's two token accounts.
#[derive(Debug, Clone, Copy, PartialEq, Eq)]
pub struct Swap {
    pub pool_state: PoolState,
    pub vault0: u64,
    pub vault1: u64,
    pub user0: u64,
    pub user1: u64,
}

impl Swap {
    /// Reserve of the token paid in.
    pub open spec fn reserve_in(self, direction: Direction) -> u64 {
        match direction {
            Direction::ZeroForOne => self.vault0,
            Direction::OneForZero => self.vault1,
        }
    }

    /// Reserve of the token paid out.
    pub open spec fn reserve_out(self, direction: Direction) -> u64 {
        match direction {
            Direction::ZeroForOne => self.vault1,
            Direction::OneForZero => self.vault0,
        }
    }

    /// The caller's balance of the token paid in.
    pub open spec fn user_in(self, direction: Direction) -> u64 {
        match direction {
            Direction::ZeroForOne => self.user0,
            Direction::OneForZero => self.user1,
        }
    }

    /// The caller's balance of the token paid out.
    pub open spec fn user_out(self, direction: Direction) -> u64 {
        match direction {
            Direction::ZeroForOne => self.user1,
            Direction::OneForZero => self.user0,
        }
    }
}

/// The balances after `amount_in` is paid in and `amount_out` paid out.
pub open spec fn after_swap(ctx: Swap, direction: Direction, amount_in: u64, amount_out: u64) -> Swap {
    match direction {
        Direction::ZeroForOne => Swap {
            vault0: (ctx.vault0 + amount_in) as u64,
            vault1: (ctx.vault1 - amount_out) as u64,
            user0: (ctx.user0 - amount_in) as u64,
            user1: (ctx.user1 + amount_out) as u64,
            ..ctx
        },
        Direction::OneForZero => Swap {
            vault1: (ctx.vault1 + amount_in) as u64,
            vault0: (ctx.vault0 - amount_out) as u64,
            user1: (ctx.user1 - amount_in) as u64,
            user0: (ctx.user0 + amount_out) as u64,
            ..ctx
        },
    }
}

/// Outcome of a swap: the caller must hold `amount_in`, the pool must be active, the
/// output must reach `min_amount_out`, and the new balances must fit.
pub open spec fn swap_spec(ctx: Swap, direction: Direction, amount_in: u64, min_amount_out: u64) -> Result<
    u64,
    ErrorCode,
> {
    let reserve_in = ctx.reserve_in(direction);
    let reserve_out = ctx.reserve_out(direction);
    if amount_in > ctx.user_in(direction) {
        Err(ErrorCode::NotEnoughBalance)
    } else if ctx.pool_state.total_amount_minted == 0 || reserve_in == 0 || reserve_out == 0 {
        Err(ErrorCode::PoolEmpty)
    } else {
        match swap_out_spec(reserve_in, reserve_out, amount_in) {
            Ok(out) => if out < min_amount_out {
                Err(ErrorCode::NotEnoughOut)
            } else if reserve_in + amount_in > u64::MAX || ctx.user_out(direction) + out > u64::MAX {
                Err(ErrorCode::ArithmeticOverflow)
            } else {
                Ok(out)
            },
            Err(e) => Err(e),
        }
    }
}

/// Swaps `amount_in` of one token for the other at the constant-product price of the
/// reserves held before the input arrives. On failure nothing changes.
pub fn swap(ctx: &mut Swap, direction: Direction, amount_in: u64, min_amount_out: u64) -> (r: Result<
    u64,
    ErrorCode,
>)
    ensures
        r == swap_spec(*old(ctx), direction, amount_in, min_amount_out),
        r is Ok ==> *final(ctx) == after_swap(*old(ctx), direction, amount_in, r->Ok_0),
        r is Err ==> *final(ctx) == *old(ctx),
{
    let (reserve_in, reserve_out, user_in, user_out) = match direction {
        Direction::ZeroForOne => (ctx.vault0, ctx.vault1, ctx.user0, ctx.user1),
        Direction::OneForZero => (ctx.vault1, ctx.vault0, ctx.user1, ctx.user0),
    };
    if amount_in > user_in {
        return Err(ErrorCode::NotEnoughBalance);
    }
    if ctx.pool_state.total_amount_minted == 0 || reserve_in == 0 || reserve_out == 0 {
        return Err(ErrorCode::PoolEmpty);
    }
    let amount_out: u64;
    match swap_out(reserve_in, reserve_out, amount_in) {
        Ok(out) => {
            amount_out = out;
        },
        Err(e) => {
            return Err(e);
        },
    }
    if amount_out < min_amount_out {
        return Err(ErrorCode::NotEnoughOut);
    }
    if amount_in > u64::MAX - reserve_in || amount_out > u64::MAX - user_out {
        return Err(ErrorCode::ArithmeticOverflow);
    }
    match direction {
        Direction::ZeroForOne => {
            ctx.vault0 = reserve_in + amount_in;
            ctx.vault1 = reserve_out - amount_out;
            ctx.user0 = user_in - amount_in;
            ctx.user1 = user_out + amount_out;
        },
        Direction::OneForZero => {
            ctx.vault1 = reserve_in + amount_in;
            ctx.vault0 = reserve_out - amount_out;
            ctx.user1 = user_in - amount_in;
            ctx.user0 = user_out + amount_out;
        },
    }
    Ok(amount_out)
}

} // verus!
