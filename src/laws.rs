use vstd::prelude::*;
use vstd::arithmetic::div_mod::{
    lemma_div_is_ordered, lemma_div_is_ordered_by_denominator, lemma_div_multiples_vanish,
    lemma_fundamental_div_mod,
};
use crate::engine::{kept_out, lemma_kept_out_bounded, lemma_root_of_u128_fits_u64, swap_out_spec};
use crate::liquidity::{add_liquidity_spec, after_burn, after_mint, remove_liquidity_spec, LiquidityOperation};
use crate::math::{is_isqrt, isqrt_spec, lemma_isqrt_spec_is_isqrt};
use crate::swap::{after_swap, swap_spec, Direction, Swap};

verus! {

/// No shares means no reserves, and any reserve means some shares exist.
pub open spec fn shares_back_reserves(total_shares: u64, reserve0: u64, reserve1: u64) -> bool {
    total_shares == 0 <==> (reserve0 == 0 && reserve1 == 0)
}

/// `a <= b * c` with `c > 0` gives `a / c <= b`.
proof fn lemma_div_at_most(a: int, b: int, c: int)
    requires
        0 <= a,
        0 <= b,
        0 < c,
        a <= b * c,
    ensures
        a / c <= b,
{
    lemma_div_is_ordered(a, b * c, c);
    lemma_div_multiples_vanish(b, c);
    assert(b * c == c * b) by (nonlinear_arith);
}

/// `(a / c) * c <= a` for `c > 0`.
proof fn lemma_floor_times(a: int, c: int)
    requires
        0 <= a,
        0 < c,
    ensures
        (a / c) * c <= a,
        a < (a / c + 1) * c,
{
    lemma_fundamental_div_mod(a, c);
    assert((a / c + 1) * c == (a / c) * c + c) by (nonlinear_arith);
    assert(c * (a / c) == (a / c) * c) by (nonlinear_arith);
}

/// Adding liquidity keeps shares and reserves backing each other: after a successful
/// deposit the pool has shares and both reserves are non-zero.
pub proof fn lemma_add_keeps_backing(ctx: LiquidityOperation, amount_liq0: u64, amount_liq1: u64)
    requires
        shares_back_reserves(ctx.pool_state.total_amount_minted, ctx.vault0, ctx.vault1),
        add_liquidity_spec(ctx, amount_liq0, amount_liq1) is Ok,
    ensures
        ({
            let next = after_mint(ctx, add_liquidity_spec(ctx, amount_liq0, amount_liq1)->Ok_0);
            &&& shares_back_reserves(next.pool_state.total_amount_minted, next.vault0, next.vault1)
            &&& next.pool_state.total_amount_minted > 0
        }),
{
    let m = add_liquidity_spec(ctx, amount_liq0, amount_liq1)->Ok_0;
    if ctx.pool_state.total_amount_minted == 0 {
        let x = (amount_liq0 * amount_liq1) as nat;
        lemma_isqrt_spec_is_isqrt(x);
        assert(x <= u128::MAX) by (nonlinear_arith)
            requires
                x == amount_liq0 * amount_liq1,
                amount_liq0 <= u64::MAX,
                amount_liq1 <= u64::MAX,
        ;
        lemma_root_of_u128_fits_u64(x, isqrt_spec(x));
        assert(m.new_shares == isqrt_spec(x));
        assert(m.deposit0 == amount_liq0 && m.deposit1 == amount_liq1);
        if amount_liq0 == 0 || amount_liq1 == 0 {
            assert(x == 0) by (nonlinear_arith)
                requires
                    amount_liq0 == 0 || amount_liq1 == 0,
                    x == amount_liq0 * amount_liq1,
            ;
            assert(isqrt_spec(x) == 0) by (nonlinear_arith)
                requires
                    is_isqrt(x, isqrt_spec(x)),
                    x == 0,
            ;
        }
    } else {
        let d1 = amount_liq0 * ctx.vault1 / ctx.vault0 as int;
        if amount_liq0 == 0 {
            assert(amount_liq0 * ctx.vault1 == 0) by (nonlinear_arith)
                requires
                    amount_liq0 == 0,
            ;
            assert(d1 == 0);
            assert(d1 * ctx.pool_state.total_amount_minted / ctx.vault1 as int == 0);
        }
    }
}

/// Removing liquidity keeps shares and reserves backing each other: a partial burn
/// leaves both reserves non-zero, a full burn empties them.
pub proof fn lemma_remove_keeps_backing(ctx: LiquidityOperation, burn_amount: u64)
    requires
        shares_back_reserves(ctx.pool_state.total_amount_minted, ctx.vault0, ctx.vault1),
        remove_liquidity_spec(ctx, burn_amount) is Ok,
    ensures
        ({
            let next = after_burn(ctx, burn_amount, remove_liquidity_spec(ctx, burn_amount)->Ok_0);
            shares_back_reserves(next.pool_state.total_amount_minted, next.vault0, next.vault1)
        }),
{
    let t = ctx.pool_state.total_amount_minted as int;
    let b = burn_amount as int;
    lemma_pro_rata_payout(b, t, ctx.vault0 as int);
    lemma_pro_rata_payout(b, t, ctx.vault1 as int);
}

/// Burning `b` of `t` shares pays at most the reserve `v`; all of it exactly when
/// `b == t`, and less than all of a non-zero reserve when `b < t`.
proof fn lemma_pro_rata_payout(b: int, t: int, v: int)
    requires
        0 <= b <= t,
        t > 0,
        v >= 0,
    ensures
        b * v / t <= v,
        b == t ==> b * v / t == v,
        b < t && v > 0 ==> b * v / t < v,
{
    assert(b * v <= v * t) by (nonlinear_arith)
        requires
            0 <= b <= t,
            v >= 0,
    ;
    lemma_div_at_most(b * v, v, t);
    if b == t {
        assert(b * v == v * t) by (nonlinear_arith)
            requires
                b == t,
        ;
        lemma_div_multiples_vanish(v, t);
    }
    if b < t && v > 0 {
        assert(b * v + v <= v * t) by (nonlinear_arith)
            requires
                b + 1 <= t,
                v > 0,
        ;
        lemma_floor_times(b * v, t);
        assert((b * v / t) * t <= b * v);
        if b * v / t >= v {
            assert((b * v / t) * t >= v * t) by (nonlinear_arith)
                requires
                    b * v / t >= v,
                    t > 0,
            ;
        }
    }
}

/// A swap keeps shares and reserves backing each other as long as it leaves some of
/// the output reserve in the pool.
pub proof fn lemma_swap_keeps_backing(ctx: Swap, direction: Direction, amount_in: u64, min_amount_out: u64)
    requires
        shares_back_reserves(ctx.pool_state.total_amount_minted, ctx.vault0, ctx.vault1),
        swap_spec(ctx, direction, amount_in, min_amount_out) is Ok,
        kept_out(ctx.reserve_in(direction), ctx.reserve_out(direction), amount_in) > 0,
    ensures
        ({
            let next = after_swap(
                ctx,
                direction,
                amount_in,
                swap_spec(ctx, direction, amount_in, min_amount_out)->Ok_0,
            );
            shares_back_reserves(next.pool_state.total_amount_minted, next.vault0, next.vault1)
        }),
{
    lemma_kept_out_bounded(ctx.reserve_in(direction), ctx.reserve_out(direction), amount_in);
}

/// A swap whose new input reserve divides the product of the reserves does not
/// decrease that product.
pub proof fn lemma_swap_keeps_product(ctx: Swap, direction: Direction, amount_in: u64, min_amount_out: u64)
    requires
        swap_spec(ctx, direction, amount_in, min_amount_out) is Ok,
        (ctx.reserve_in(direction) * ctx.reserve_out(direction)) % (ctx.reserve_in(direction)
            + amount_in) as int == 0,
    ensures
        ({
            let next = after_swap(
                ctx,
                direction,
                amount_in,
                swap_spec(ctx, direction, amount_in, min_amount_out)->Ok_0,
            );
            next.reserve_in(direction) * next.reserve_out(direction) >= ctx.reserve_in(direction)
                * ctx.reserve_out(direction)
        }),
{
    let rin = ctx.reserve_in(direction);
    let rout = ctx.reserve_out(direction);
    let k = rin * rout;
    let d = rin + amount_in;
    lemma_kept_out_bounded(rin, rout, amount_in);
    lemma_fundamental_div_mod(k, d);
    assert(d * (k / d) == k);
}

/// On a pool with shares, a deposit's share of the new supply never exceeds its
/// share of the new token-1 reserve, and equals it when the share quotient is exact.
pub proof fn lemma_add_share_quota(ctx: LiquidityOperation, amount_liq0: u64, amount_liq1: u64)
    requires
        ctx.pool_state.total_amount_minted > 0,
        add_liquidity_spec(ctx, amount_liq0, amount_liq1) is Ok,
    ensures
        ({
            let m = add_liquidity_spec(ctx, amount_liq0, amount_liq1)->Ok_0;
            let total = ctx.pool_state.total_amount_minted;
            &&& m.new_shares * ctx.vault1 <= m.deposit1 * total
            &&& m.new_shares * (ctx.vault1 + m.deposit1) <= m.deposit1 * (total + m.new_shares)
            &&& (m.deposit1 * total) % (ctx.vault1 as int) == 0 ==> m.new_shares * (ctx.vault1
                + m.deposit1) == m.deposit1 * (total + m.new_shares)
        }),
{
    let m = add_liquidity_spec(ctx, amount_liq0, amount_liq1)->Ok_0;
    let total = ctx.pool_state.total_amount_minted as int;
    let r1 = ctx.vault1 as int;
    let d1 = m.deposit1 as int;
    let n = m.new_shares as int;
    assert(n == d1 * total / r1);
    lemma_floor_times(d1 * total, r1);
    assert(n * r1 <= d1 * total);
    assert(n * (r1 + d1) <= d1 * (total + n)) by (nonlinear_arith)
        requires
            n * r1 <= d1 * total,
    ;
    if (d1 * total) % r1 == 0 {
        lemma_fundamental_div_mod(d1 * total, r1);
        assert(n * r1 == d1 * total) by (nonlinear_arith)
            requires
                d1 * total == r1 * (d1 * total / r1) + (d1 * total) % r1,
                (d1 * total) % r1 == 0,
                n == d1 * total / r1,
        ;
        assert(n * (r1 + d1) == d1 * (total + n)) by (nonlinear_arith)
            requires
                n * r1 == d1 * total,
        ;
    }
}

/// Depositing and at once burning the shares received pays back no more than was
/// deposited of either token; on an empty pool it pays back exactly the deposit.
pub proof fn lemma_round_trip(ctx: LiquidityOperation, amount_liq0: u64, amount_liq1: u64)
    requires
        shares_back_reserves(ctx.pool_state.total_amount_minted, ctx.vault0, ctx.vault1),
        add_liquidity_spec(ctx, amount_liq0, amount_liq1) is Ok,
    ensures
        ({
            let m = add_liquidity_spec(ctx, amount_liq0, amount_liq1)->Ok_0;
            let next = after_mint(ctx, m);
            let back = remove_liquidity_spec(next, m.new_shares);
            &&& back is Ok
            &&& back->Ok_0.amount0 <= m.deposit0 <= amount_liq0
            &&& back->Ok_0.amount1 <= m.deposit1 <= amount_liq1
            &&& ctx.pool_state.total_amount_minted == 0 ==> back->Ok_0.amount0 == amount_liq0
                && back->Ok_0.amount1 == amount_liq1
        }),
{
    let m = add_liquidity_spec(ctx, amount_liq0, amount_liq1)->Ok_0;
    let next = after_mint(ctx, m);
    lemma_add_keeps_backing(ctx, amount_liq0, amount_liq1);
    let t = ctx.pool_state.total_amount_minted as int;
    let n = m.new_shares as int;
    let r0 = ctx.vault0 as int;
    let r1 = ctx.vault1 as int;
    let d0 = m.deposit0 as int;
    let d1 = m.deposit1 as int;
    assert(next.pool_state.total_amount_minted == t + n);
    assert(next.vault0 == r0 + d0);
    assert(next.vault1 == r1 + d1);
    assert(next.user_pool_ata >= n);
    if t == 0 {
        assert(r0 == 0 && r1 == 0);
        assert(n * d0 / n == d0) by {
            lemma_div_multiples_vanish(d0, n);
            assert(n * d0 == d0 * n) by (nonlinear_arith);
        }
        assert(n * d1 / n == d1) by {
            lemma_div_multiples_vanish(d1, n);
            assert(n * d1 == d1 * n) by (nonlinear_arith);
        }
    } else {
        lemma_add_share_quota(ctx, amount_liq0, amount_liq1);
        assert(n * (r1 + d1) <= d1 * (t + n));
        lemma_div_at_most(n * (r1 + d1), d1, t + n);
        let q1 = d0 * r1 / r0;
        assert(d1 == q1);
        lemma_floor_times(d0 * r1, r0);
        assert(d1 * r0 <= d0 * r1);
        assert(n * r1 <= d1 * t);
        assert(n * r0 <= d0 * t) by (nonlinear_arith)
            requires
                n * r1 <= d1 * t,
                d1 * r0 <= d0 * r1,
                r1 > 0,
                r0 > 0,
                n >= 0,
                t >= 0,
                d1 >= 0,
        {
            assert(n * r1 * r0 <= d1 * t * r0);
            assert(d1 * r0 * t <= d0 * r1 * t);
            assert(n * r0 * r1 <= d0 * t * r1);
        }
        assert(n * (r0 + d0) <= d0 * (t + n)) by (nonlinear_arith)
            requires
                n * r0 <= d0 * t,
        ;
        lemma_div_at_most(n * (r0 + d0), d0, t + n);
    }
    lemma_pro_rata_payout(n, t + n, r0 + d0);
    lemma_pro_rata_payout(n, t + n, r1 + d1);
}

/// For fixed reserves, paying in more never yields less.
pub proof fn lemma_swap_out_monotonic(reserve_in: u64, reserve_out: u64, smaller: u64, larger: u64)
    requires
        reserve_in > 0,
        smaller <= larger,
    ensures
        swap_out_spec(reserve_in, reserve_out, smaller) is Ok,
        swap_out_spec(reserve_in, reserve_out, larger) is Ok,
        swap_out_spec(reserve_in, reserve_out, smaller)->Ok_0 <= swap_out_spec(
            reserve_in,
            reserve_out,
            larger,
        )->Ok_0,
{
    lemma_kept_out_bounded(reserve_in, reserve_out, smaller);
    lemma_kept_out_bounded(reserve_in, reserve_out, larger);
    assert(reserve_in * reserve_out >= 0) by (nonlinear_arith);
    lemma_div_is_ordered_by_denominator(
        reserve_in * reserve_out,
        reserve_in + smaller,
        reserve_in + larger,
    );
}

/// For fixed reserves, paying in more yields strictly more once the extra input is
/// large enough to move the unrounded quotient by a whole unit:
/// `k * (larger - smaller) >= (reserve_in + smaller) * (reserve_in + larger)`.
pub proof fn lemma_swap_out_strictly_increasing(
    reserve_in: u64,
    reserve_out: u64,
    smaller: u64,
    larger: u64,
)
    requires
        reserve_in > 0,
        smaller <= larger,
        (reserve_in * reserve_out) * (larger - smaller) >= (reserve_in + smaller) * (reserve_in
            + larger),
    ensures
        swap_out_spec(reserve_in, reserve_out, smaller) is Ok,
        swap_out_spec(reserve_in, reserve_out, larger) is Ok,
        swap_out_spec(reserve_in, reserve_out, smaller)->Ok_0 < swap_out_spec(
            reserve_in,
            reserve_out,
            larger,
        )->Ok_0,
{
    let k = reserve_in * reserve_out;
    let da = reserve_in + smaller;
    let db = reserve_in + larger;
    lemma_kept_out_bounded(reserve_in, reserve_out, smaller);
    lemma_kept_out_bounded(reserve_in, reserve_out, larger);
    assert(reserve_in * reserve_out >= 0) by (nonlinear_arith);
    let qb = k / db;
    lemma_floor_times(k, db);
    assert((qb + 1) * da * db <= k * db) by (nonlinear_arith)
        requires
            qb * db <= k,
            k * (db - da) >= da * db,
            da > 0,
            db > 0,
    {
        assert((qb + 1) * da * db == qb * db * da + da * db);
        assert(qb * db * da <= k * da);
    }
    assert((qb + 1) * da <= k) by (nonlinear_arith)
        requires
            (qb + 1) * da * db <= k * db,
            db > 0,
    ;
    lemma_div_is_ordered((qb + 1) * da, k, da);
    lemma_div_multiples_vanish(qb + 1, da);
    assert((qb + 1) * da == da * (qb + 1)) by (nonlinear_arith);
}

/// One operation on a pool, with its arguments.
pub enum PoolAction {
    AddLiquidity { amount_liq0: u64, amount_liq1: u64 },
    RemoveLiquidity { burn_amount: u64 },
    Swap { direction: Direction, amount_in: u64, min_amount_out: u64 },
}

/// The balances a swap reads, taken from the balances of a liquidity operation.
pub open spec fn swap_view(ctx: LiquidityOperation) -> Swap {
    Swap {
        pool_state: ctx.pool_state,
        vault0: ctx.vault0,
        vault1: ctx.vault1,
        user0: ctx.user0,
        user1: ctx.user1,
    }
}

/// The balances after `action`; a failed action leaves them as they were.
pub open spec fn apply_action(ctx: LiquidityOperation, action: PoolAction) -> LiquidityOperation {
    match action {
        PoolAction::AddLiquidity { amount_liq0, amount_liq1 } => match add_liquidity_spec(
            ctx,
            amount_liq0,
            amount_liq1,
        ) {
            Ok(m) => after_mint(ctx, m),
            Err(_) => ctx,
        },
        PoolAction::RemoveLiquidity { burn_amount } => match remove_liquidity_spec(ctx, burn_amount) {
            Ok(p) => after_burn(ctx, burn_amount, p),
            Err(_) => ctx,
        },
        PoolAction::Swap { direction, amount_in, min_amount_out } => match swap_spec(
            swap_view(ctx),
            direction,
            amount_in,
            min_amount_out,
        ) {
            Ok(out) => {
                let s = after_swap(swap_view(ctx), direction, amount_in, out);
                LiquidityOperation {
                    pool_state: s.pool_state,
                    vault0: s.vault0,
                    vault1: s.vault1,
                    user0: s.user0,
                    user1: s.user1,
                    ..ctx
                }
            },
            Err(_) => ctx,
        },
    }
}

/// Whether `action` is a successful swap that pays out the whole output reserve.
pub open spec fn drains_output(ctx: LiquidityOperation, action: PoolAction) -> bool {
    match action {
        PoolAction::Swap { direction, amount_in, min_amount_out } => swap_spec(
            swap_view(ctx),
            direction,
            amount_in,
            min_amount_out,
        ) is Ok && kept_out(
            swap_view(ctx).reserve_in(direction),
            swap_view(ctx).reserve_out(direction),
            amount_in,
        ) == 0,
        _ => false,
    }
}

/// The balances after each action of `actions` in turn.
pub open spec fn run_actions(ctx: LiquidityOperation, actions: Seq<PoolAction>) -> LiquidityOperation
    decreases actions.len(),
{
    if actions.len() == 0 {
        ctx
    } else {
        run_actions(apply_action(ctx, actions[0]), actions.drop_first())
    }
}

/// Whether no action of `actions`, run in turn from `ctx`, drains an output reserve.
pub open spec fn never_drains(ctx: LiquidityOperation, actions: Seq<PoolAction>) -> bool
    decreases actions.len(),
{
    if actions.len() == 0 {
        true
    } else {
        !drains_output(ctx, actions[0]) && never_drains(
            apply_action(ctx, actions[0]),
            actions.drop_first(),
        )
    }
}

/// Shares and reserves keep backing each other over any run of deposits, burns and
/// swaps in which no swap pays out a whole reserve.
pub proof fn lemma_run_keeps_backing(ctx: LiquidityOperation, actions: Seq<PoolAction>)
    requires
        shares_back_reserves(ctx.pool_state.total_amount_minted, ctx.vault0, ctx.vault1),
        never_drains(ctx, actions),
    ensures
        ({
            let end = run_actions(ctx, actions);
            shares_back_reserves(end.pool_state.total_amount_minted, end.vault0, end.vault1)
        }),
    decreases actions.len(),
{
    if actions.len() > 0 {
        let next = apply_action(ctx, actions[0]);
        match actions[0] {
            PoolAction::AddLiquidity { amount_liq0, amount_liq1 } => {
                if add_liquidity_spec(ctx, amount_liq0, amount_liq1) is Ok {
                    lemma_add_keeps_backing(ctx, amount_liq0, amount_liq1);
                }
            },
            PoolAction::RemoveLiquidity { burn_amount } => {
                if remove_liquidity_spec(ctx, burn_amount) is Ok {
                    lemma_remove_keeps_backing(ctx, burn_amount);
                }
            },
            PoolAction::Swap { direction, amount_in, min_amount_out } => {
                if swap_spec(swap_view(ctx), direction, amount_in, min_amount_out) is Ok {
                    lemma_swap_keeps_backing(swap_view(ctx), direction, amount_in, min_amount_out);
                }
            },
        }
        lemma_run_keeps_backing(next, actions.drop_first());
    }
}

} // verus!
