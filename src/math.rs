use vstd::prelude::*;

verus! {

/// `r` is the integer square root of `x`: the largest natural whose square is at most `x`.
pub open spec fn is_isqrt(x: nat, r: nat) -> bool {
    r * r <= x && x < (r + 1) * (r + 1)
}

/// The integer square root of `x`, built up one unit of `x` at a time.
pub open spec fn isqrt_spec(x: nat) -> nat
    decreases x,
{
    if x == 0 {
        0
    } else {
        let r = isqrt_spec((x - 1) as nat);
        if (r + 1) * (r + 1) <= x {
            r + 1
        } else {
            r
        }
    }
}

/// `isqrt_spec` meets the defining property of the integer square root.
pub proof fn lemma_isqrt_spec_is_isqrt(x: nat)
    ensures
        is_isqrt(x, isqrt_spec(x)),
    decreases x,
{
    if x > 0 {
        lemma_isqrt_spec_is_isqrt((x - 1) as nat);
        let r = isqrt_spec((x - 1) as nat);
        assert(isqrt_spec(x) == if (r + 1) * (r + 1) <= x { r + 1 } else { r });
        if (r + 1) * (r + 1) <= x {
            assert((r + 2) * (r + 2) == (r + 1) * (r + 1) + 2 * r + 3) by (nonlinear_arith);
            assert(is_isqrt(x, r + 1));
        } else {
            assert(is_isqrt(x, r));
        }
    } else {
        assert(is_isqrt(0, 0)) by (nonlinear_arith);
    }
}

/// The defining property pins the root down: two roots of one number are equal.
pub proof fn lemma_isqrt_unique(x: nat, a: nat, b: nat)
    requires
        is_isqrt(x, a),
        is_isqrt(x, b),
    ensures
        a == b,
{
    if a < b {
        assert((a + 1) * (a + 1) <= b * b) by (nonlinear_arith)
            requires
                a + 1 <= b,
        ;
    } else if b < a {
        assert((b + 1) * (b + 1) <= a * a) by (nonlinear_arith)
            requires
                b + 1 <= a,
        ;
    }
}

/// One Newton step never drops below the integer square root:
/// `x < (z + 1)^2` for `z = (x / y + y) / 2`.
proof fn lemma_newton_step_stays_above(x: nat, y: nat)
    requires
        y > 0,
    ensures
        x < ((x / y + y) / 2 + 1) * ((x / y + y) / 2 + 1),
{
    let q = x / y;
    let z = (q + y) / 2;
    vstd::arithmetic::div_mod::lemma_fundamental_div_mod(x as int, y as int);
    assert((q + 1) * y == y * q + y) by (nonlinear_arith);
    assert(x < (q + 1) * y);
    assert(2 * z + 2 >= q + y + 1);
    assert(x < (z + 1) * (z + 1)) by (nonlinear_arith)
        requires
            x < (q + 1) * y,
            2 * z + 2 >= q + y + 1,
            z >= 0,
    {
        assert((q + 1 + y) * (q + 1 + y) >= 4 * ((q + 1) * y));
        assert((2 * z + 2) * (2 * z + 2) >= (q + 1 + y) * (q + 1 + y));
    }
}

/// If `y * y > x` the Newton step from `y` moves strictly down.
proof fn lemma_newton_step_descends(x: nat, y: nat)
    requires
        y > 0,
        x < y * y,
    ensures
        (x / y + y) / 2 < y,
{
    vstd::arithmetic::div_mod::lemma_fundamental_div_mod(x as int, y as int);
    assert(x / y < y) by (nonlinear_arith)
        requires
            x == y * (x / y) + x % y,
            x % y >= 0,
            x < y * y,
            y > 0,
    ;
}

/// Integer square root: the largest `n` with `n * n <= x`, found by Newton's
/// iteration from `(x + 1) / 2`.
pub fn sqrt(x: u128) -> (r: u128)
    ensures
        r == isqrt_spec(x as nat),
{
    // (x + 1) / 2, written so that it cannot overflow at u128::MAX
    let half_up: u128 = x / 2 + x % 2;
    let mut z: u128 = half_up;
    let mut y: u128 = x;
    if x > 0 {
        assert(x as nat / x as nat == 1) by {
            vstd::arithmetic::div_mod::lemma_div_by_self(x as int);
        }
        assert(z == (x as nat / y as nat + y as nat) / 2);
        assert(x < (y + 1) * (y + 1)) by (nonlinear_arith)
            requires
                y == x,
        ;
        proof { lemma_newton_step_stays_above(x as nat, y as nat); }
    }
    while z < y
        invariant
            x == 0 ==> y == 0 && z == 0,
            x > 0 ==> y > 0,
            x > 0 ==> z == (x as nat / y as nat + y as nat) / 2,
            x < (y + 1) * (y + 1),
            x < (z + 1) * (z + 1),
            y == x || y <= half_up,
            half_up == x / 2 + x % 2,
        decreases y,
    {
        assert(z <= half_up) by {
            if y == x {
                assert(x as nat / x as nat == 1) by {
                    vstd::arithmetic::div_mod::lemma_div_by_self(x as int);
                }
            }
        }
        assert(z > 0) by (nonlinear_arith)
            requires
                x < (z + 1) * (z + 1),
                x > 0,
        ;
        assert(x / z + z <= u128::MAX) by {
            if z == 1 {
                assert(x < 4) by (nonlinear_arith)
                    requires
                        z == 1,
                        x < (z + 1) * (z + 1),
                ;
            } else {
                vstd::arithmetic::div_mod::lemma_div_is_ordered_by_denominator(x as int, 2, z as int);
            }
        }
        y = z;
        z = (x / z + z) / 2;
        proof { lemma_newton_step_stays_above(x as nat, y as nat); }
    }
    proof {
        if x > 0 && x < (y as nat) * (y as nat) {
            lemma_newton_step_descends(x as nat, y as nat);
        }
    }
    assert(y * y <= x);
    proof {
        lemma_isqrt_spec_is_isqrt(x as nat);
        lemma_isqrt_unique(x as nat, y as nat, isqrt_spec(x as nat));
    }
    y
}

} // verus!
