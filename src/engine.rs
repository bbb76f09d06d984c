use vstd::prelude::*;
use crate::error::ErrorCode;
use crate::math::{isqrt_spec, is_isqrt, lemma_isqrt_spec_is_isqrt, sqrt};

verus! {

/// What a deposit of liquidity takes from the caller and gives back.
#[derive(Debug, Clone, Copy, PartialEq, Eq, Structural)]
pub struct MintOutcome {
    /// Token-0 units moved from the caller into vault 0.
    pub deposit0: u64,
    /// Token-1 units moved from the caller into vault 1.
    pub deposit1: u64,
    /// Pool-share units minted to the caller.
    pub new_shares: u64,
}

/// What burning pool shares pays out.
#[derive(Debug, Clone, Copy, PartialEq, Eq, Structural)]
pub struct RedeemOutcome {
    /// Token-0 units paid from vault 0.
    pub amount0: u64,
    /// Token-1 units paid from vault 1.
    pub amount1: u64,
}

/// Shares for the first deposit into an empty pool: the geometric mean of the deposits.
pub open spec fn initial_mint_spec(deposit0: u64, deposit1: u64) -> Result<u64, ErrorCode> {
    let shares = isqrt_spec((deposit0 * deposit1) as nat);
    if shares == 0 {
        Err(ErrorCode::NoPoolMintOutput)
    } else {
        Ok(shares as u64)
    }
}

/// A deposit into a pool that already has shares: token 0 is the reference side and
/// the token-1 deposit follows the reserve ratio, both quotients rounded down.
pub open spec fn subsequent_mint_spec(
    reserve0: u64,
    reserve1: u64,
    offered0: u64,
    offered1: u64,
    total_shares: u64,
) -> Result<MintOutcome, ErrorCode> {
    if reserve0 == 0 {
        Err(ErrorCode::DivisionByZero)
    } else {
        let deposit1 = offered0 * reserve1 / reserve0 as int;
        if deposit1 > offered1 {
            Err(ErrorCode::InsufficientMatchingDeposit)
        } else if reserve1 == 0 {
            Err(ErrorCode::DivisionByZero)
        } else {
            let new_shares = deposit1 * total_shares / reserve1 as int;
            if new_shares > u64::MAX {
                Err(ErrorCode::ArithmeticOverflow)
            } else if new_shares == 0 {
                Err(ErrorCode::NoPoolMintOutput)
            } else {
                Ok(
                    MintOutcome {
                        deposit0: offered0,
                        deposit1: deposit1 as u64,
                        new_shares: new_shares as u64,
                    },
                )
            }
        }
    }
}

/// Pro-rata payout for burning `burn_shares` out of `total_shares`, rounded down.
pub open spec fn redeem_spec(total_shares: u64, reserve0: u64, reserve1: u64, burn_shares: u64) -> Result<
    RedeemOutcome,
    ErrorCode,
> {
    if burn_shares > total_shares {
        Err(ErrorCode::BurnTooMuch)
    } else if total_shares == 0 {
        Err(ErrorCode::DivisionByZero)
    } else {
        Ok(
            RedeemOutcome {
                amount0: (burn_shares * reserve0 / total_shares as int) as u64,
                amount1: (burn_shares * reserve1 / total_shares as int) as u64,
            },
        )
    }
}

/// The part of `reserve_out` that stays in the pool after `amount_in` comes in:
/// the product of the reserves divided by the new input reserve, rounded down.
pub open spec fn kept_out(reserve_in: u64, reserve_out: u64, amount_in: u64) -> int {
    reserve_in * reserve_out / (reserve_in + amount_in)
}

/// Output of a swap of `amount_in` against the constant product of the reserves.
pub open spec fn swap_out_spec(reserve_in: u64, reserve_out: u64, amount_in: u64) -> Result<
    u64,
    ErrorCode,
> {
    if reserve_in + amount_in == 0 {
        Err(ErrorCode::DivisionByZero)
    } else {
        Ok((reserve_out - kept_out(reserve_in, reserve_out, amount_in)) as u64)
    }
}

/// The integer square root of a 128-bit number fits in 64 bits.
pub proof fn lemma_root_of_u128_fits_u64(x: nat, r: nat)
    requires
        is_isqrt(x, r),
        x <= u128::MAX,
    ensures
        r <= u64::MAX,
{
    if r > u64::MAX {
        assert(r * r >= 0x1_0000_0000_0000_0000 * 0x1_0000_0000_0000_0000) by (nonlinear_arith)
            requires
                r >= 0x1_0000_0000_0000_0000,
        ;
    }
}

/// Shares minted by the first deposit into an empty pool.
pub fn initial_mint(deposit0: u64, deposit1: u64) -> (r: Result<u64, ErrorCode>)
    ensures
        r == initial_mint_spec(deposit0, deposit1),
{
    assert((deposit0 as u128) * (deposit1 as u128) <= u128::MAX) by (nonlinear_arith)
        requires
            deposit0 <= u64::MAX,
            deposit1 <= u64::MAX,
    ;
    let product: u128 = (deposit0 as u128) * (deposit1 as u128);
    let root: u128 = sqrt(product);
    proof {
        lemma_isqrt_spec_is_isqrt(product as nat);
        lemma_root_of_u128_fits_u64(product as nat, root as nat);
    }
    if root == 0 {
        Err(ErrorCode::NoPoolMintOutput)
    } else {
        Ok(root as u64)
    }
}

/// Matching deposit and shares for a deposit into a pool that already has shares.
pub fn subsequent_mint(
    reserve0: u64,
    reserve1: u64,
    offered0: u64,
    offered1: u64,
    total_shares: u64,
) -> (r: Result<MintOutcome, ErrorCode>)
    ensures
        r == subsequent_mint_spec(reserve0, reserve1, offered0, offered1, total_shares),
{
    if reserve0 == 0 {
        return Err(ErrorCode::DivisionByZero);
    }
    assert((offered0 as u128) * (reserve1 as u128) <= u128::MAX) by (nonlinear_arith)
        requires
            offered0 <= u64::MAX,
            reserve1 <= u64::MAX,
    ;
    let deposit1: u128 = (offered0 as u128) * (reserve1 as u128) / (reserve0 as u128);
    if deposit1 > offered1 as u128 {
        return Err(ErrorCode::InsufficientMatchingDeposit);
    }
    if reserve1 == 0 {
        return Err(ErrorCode::DivisionByZero);
    }
    assert(deposit1 * (total_shares as u128) <= u128::MAX) by (nonlinear_arith)
        requires
            deposit1 <= u64::MAX,
            total_shares <= u64::MAX,
    ;
    let new_shares: u128 = deposit1 * (total_shares as u128) / (reserve1 as u128);
    if new_shares > u64::MAX as u128 {
        return Err(ErrorCode::ArithmeticOverflow);
    }
    if new_shares == 0 {
        return Err(ErrorCode::NoPoolMintOutput);
    }
    Ok(
        MintOutcome {
            deposit0: offered0,
            deposit1: deposit1 as u64,
            new_shares: new_shares as u64,
        },
    )
}

/// Pro-rata payout for burning shares.
pub fn redeem(total_shares: u64, reserve0: u64, reserve1: u64, burn_shares: u64) -> (r: Result<
    RedeemOutcome,
    ErrorCode,
>)
    ensures
        r == redeem_spec(total_shares, reserve0, reserve1, burn_shares),
        r is Ok ==> r->Ok_0.amount0 <= reserve0 && r->Ok_0.amount1 <= reserve1,
{
    if burn_shares > total_shares {
        return Err(ErrorCode::BurnTooMuch);
    }
    if total_shares == 0 {
        return Err(ErrorCode::DivisionByZero);
    }
    let b: u128 = burn_shares as u128;
    let t: u128 = total_shares as u128;
    proof {
        lemma_share_of_fits(b as nat, t as nat, reserve0 as nat);
        lemma_share_of_fits(b as nat, t as nat, reserve1 as nat);
    }
    let amount0: u128 = b * (reserve0 as u128) / t;
    let amount1: u128 = b * (reserve1 as u128) / t;
    Ok(RedeemOutcome { amount0: amount0 as u64, amount1: amount1 as u64 })
}

/// A share `b / t` (with `b <= t`) of `v` is at most `v`, and the product fits in 128 bits.
proof fn lemma_share_of_fits(b: nat, t: nat, v: nat)
    requires
        b <= t,
        t > 0,
        t <= u64::MAX,
        v <= u64::MAX,
    ensures
        b * v <= u128::MAX,
        b * v / t <= v,
{
    assert(b * v <= t * v) by (nonlinear_arith)
        requires
            b <= t,
    ;
    assert(t * v <= u128::MAX) by (nonlinear_arith)
        requires
            t <= u64::MAX,
            v <= u64::MAX,
    ;
    vstd::arithmetic::div_mod::lemma_div_is_ordered(b * v as int, t * v as int, t as int);
    vstd::arithmetic::div_mod::lemma_div_multiples_vanish(v as int, t as int);
}

/// `kept_out` never exceeds `reserve_out`, so a swap never pays more than the pool holds.
pub proof fn lemma_kept_out_bounded(reserve_in: u64, reserve_out: u64, amount_in: u64)
    requires
        reserve_in + amount_in > 0,
    ensures
        0 <= kept_out(reserve_in, reserve_out, amount_in) <= reserve_out,
{
    let d = reserve_in + amount_in;
    let k = reserve_in * reserve_out;
    assert(k <= d * reserve_out) by (nonlinear_arith)
        requires
            reserve_in <= d,
            reserve_out >= 0,
            k == reserve_in * reserve_out,
    ;
    vstd::arithmetic::div_mod::lemma_div_is_ordered(k, d * reserve_out, d as int);
    vstd::arithmetic::div_mod::lemma_div_multiples_vanish(reserve_out as int, d as int);
    vstd::arithmetic::div_mod::lemma_div_pos_is_pos(k, d as int);
}

/// Output of a swap of `amount_in` against reserves `reserve_in`, `reserve_out`.
pub fn swap_out(reserve_in: u64, reserve_out: u64, amount_in: u64) -> (r: Result<u64, ErrorCode>)
    ensures
        r == swap_out_spec(reserve_in, reserve_out, amount_in),
        r is Ok ==> r->Ok_0 <= reserve_out,
{
    let denominator: u128 = reserve_in as u128 + amount_in as u128;
    if denominator == 0 {
        return Err(ErrorCode::DivisionByZero);
    }
    assert((reserve_in as u128) * (reserve_out as u128) <= u128::MAX) by (nonlinear_arith)
        requires
            reserve_in <= u64::MAX,
            reserve_out <= u64::MAX,
    ;
    let k: u128 = (reserve_in as u128) * (reserve_out as u128);
    let kept: u128 = k / denominator;
    proof {
        lemma_kept_out_bounded(reserve_in, reserve_out, amount_in);
    }
    Ok((reserve_out as u128 - kept) as u64)
}

} // verus!
