use vstd::prelude::*;
use crate::error::ErrorCode;
use crate::state::{bytes_precede, PoolState, Pubkey};

verus! {

/// What creating a pool reads: the two mints as given, and whether a pool for their
/// pair already exists.
#[derive(Debug, Clone, Copy, PartialEq, Eq)]
pub struct InitializePool {
    pub mint0: Pubkey,
    pub mint1: Pubkey,
    pub pool_exists: bool,
}

/// Creates the record of a pool with no shares outstanding. The pair is stored in
/// byte order, so that both orders of one pair name the same pool.
pub fn handler(ctx: &InitializePool) -> (r: Result<PoolState, ErrorCode>)
    ensures
        ctx.mint0@ == ctx.mint1@ ==> r == Err::<PoolState, ErrorCode>(ErrorCode::IdenticalMints),
        ctx.mint0@ != ctx.mint1@ && ctx.pool_exists ==> r == Err::<PoolState, ErrorCode>(
            ErrorCode::PoolAlreadyExists,
        ),
        ctx.mint0@ != ctx.mint1@ && !ctx.pool_exists ==> r is Ok,
        r is Ok ==> {
            let p = r->Ok_0;
            &&& p.total_amount_minted == 0
            &&& bytes_precede(p.mint0@, p.mint1@)
            &&& (p.mint0 == ctx.mint0 && p.mint1 == ctx.mint1) || (p.mint0 == ctx.mint1
                && p.mint1 == ctx.mint0)
        },
{
    if ctx.mint0.same_as(&ctx.mint1) {
        return Err(ErrorCode::IdenticalMints);
    }
    if ctx.pool_exists {
        return Err(ErrorCode::PoolAlreadyExists);
    }
    if ctx.mint0.precedes(&ctx.mint1) {
        Ok(PoolState { mint0: ctx.mint0, mint1: ctx.mint1, total_amount_minted: 0 })
    } else {
        proof {
            lemma_bytes_order_total(ctx.mint0@, ctx.mint1@);
        }
        Ok(PoolState { mint0: ctx.mint1, mint1: ctx.mint0, total_amount_minted: 0 })
    }
}

/// Two different identifiers of one length are ordered one way or the other.
proof fn lemma_bytes_order_total(a: Seq<u8>, b: Seq<u8>)
    requires
        a.len() == b.len(),
        a != b,
        !bytes_precede(a, b),
    ensures
        bytes_precede(b, a),
{
    assert(exists|i: int| 0 <= i < a.len() && a[i] != b[i]) by {
        if forall|i: int| 0 <= i < a.len() ==> a[i] == b[i] {
            assert(a =~= b);
        }
    }
    let i = choose|i: int| 0 <= i < a.len() && a[i] != b[i];
    let first = first_index_of_difference(a, b, i);
    assert(crate::state::first_difference(b, a, first));
}

/// The first index at which `a` and `b` differ, given some index `i` where they do.
proof fn first_index_of_difference(a: Seq<u8>, b: Seq<u8>, i: int) -> (f: int)
    requires
        a.len() == b.len(),
        0 <= i < a.len(),
        a[i] != b[i],
    ensures
        crate::state::first_difference(a, b, f),
    decreases i,
{
    if exists|j: int| 0 <= j < i && a[j] != b[j] {
        let j = choose|j: int| 0 <= j < i && a[j] != b[j];
        first_index_of_difference(a, b, j)
    } else {
        i
    }
}

} // verus!
