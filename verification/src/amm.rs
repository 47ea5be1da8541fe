//! Pool arithmetic: saturating helpers, the constant-product swap formula
//! and the integer square root used for the first liquidity provision.

use vstd::prelude::*;
use crate::wide::{mul_div_wide, wide_add, wide_mul_small};

verus! {

/// `a * b`, clamped to `u128::MAX`.
pub open spec fn sat_mul(a: u128, b: u128) -> u128 {
    if a * b > u128::MAX {
        u128::MAX
    } else {
        (a * b) as u128
    }
}

/// `a + b`, clamped to `u128::MAX`.
pub open spec fn sat_add(a: u128, b: u128) -> u128 {
    if a + b > u128::MAX {
        u128::MAX
    } else {
        (a + b) as u128
    }
}

/// `a - b`, clamped to zero.
pub open spec fn sat_sub(a: u128, b: u128) -> u128 {
    if a < b {
        0
    } else {
        (a - b) as u128
    }
}

/// Saturating multiplication of two `u128` values.
pub fn mul_sat(a: u128, b: u128) -> (r: u128)
    ensures
        r == sat_mul(a, b),
{
    match a.checked_mul(b) {
        Some(v) => v,
        None => u128::MAX,
    }
}

/// The swap output: what a trader receives for `amount_in` against the
/// reserves after the 0.3% fee,
/// `(reserve_out * amount_in * 997) / (reserve_in * 1000 + amount_in * 997)`,
/// and zero when any argument is zero.
pub open spec fn spec_amount_out(amount_in: u128, reserve_in: u128, reserve_out: u128) -> u128 {
    if amount_in == 0 || reserve_in == 0 || reserve_out == 0 {
        0
    } else {
        ((reserve_out * amount_in * 997) / (reserve_in * 1000 + amount_in * 997)) as u128
    }
}

/// Constant-product output for a swap: the fee-adjusted input priced against the
/// reserves, `amount_out = (reserve_out * amount_in * 997) / (reserve_in * 1000 + amount_in * 997)`,
/// computed exactly; zero when any argument is zero.
pub fn get_amount_out(amount_in: u128, reserve_in: u128, reserve_out: u128) -> (r: u128)
    ensures
        r == spec_amount_out(amount_in, reserve_in, reserve_out),
        r <= reserve_out,
        reserve_out > 0 ==> r < reserve_out,
        amount_in > 0 && reserve_in > 0 && reserve_out > 0 ==> r == (reserve_out * amount_in * 997)
            / (reserve_in * 1000 + amount_in * 997),
{
    if amount_in == 0 || reserve_in == 0 || reserve_out == 0 {
        return 0;
    }
    let with_fee = wide_mul_small(amount_in, 997);
    let denominator = wide_add(wide_mul_small(reserve_in, 1000), with_fee);
    let r = mul_div_wide(reserve_out, with_fee, denominator);
    proof {
        assert(reserve_out * (amount_in * 997) == reserve_out * amount_in * 997) by (nonlinear_arith);
        lemma_amount_out_bounds(amount_in, reserve_in, reserve_out);
    }
    r
}

/// The output stays strictly below the output reserve.
pub(crate) proof fn lemma_amount_out_bounds(amount_in: u128, reserve_in: u128, reserve_out: u128)
    ensures
        spec_amount_out(amount_in, reserve_in, reserve_out) <= reserve_out,
        reserve_out > 0 ==> spec_amount_out(amount_in, reserve_in, reserve_out) < reserve_out,
        amount_in > 0 && reserve_in > 0 && reserve_out > 0 ==> spec_amount_out(
            amount_in,
            reserve_in,
            reserve_out,
        ) == (reserve_out * amount_in * 997) / (reserve_in * 1000 + amount_in * 997),
{
    if amount_in > 0 && reserve_in > 0 && reserve_out > 0 {
        let f = amount_in * 997;
        let d = reserve_in * 1000 + amount_in * 997;
        let n = reserve_out * amount_in * 997;
        let o = n / d;
        assert(d > f);
        assert(n == reserve_out * f) by (nonlinear_arith)
            requires
                n == reserve_out * amount_in * 997,
                f == amount_in * 997,
        ;
        assert(o * d <= n) by (nonlinear_arith)
            requires
                o == n / d,
                d > 0,
                n >= 0,
        ;
        assert(reserve_out * f < reserve_out * d) by (nonlinear_arith)
            requires
                f < d,
                reserve_out > 0,
        ;
        assert(o < reserve_out) by (nonlinear_arith)
            requires
                o * d < reserve_out * d,
                d > 0,
        ;
        vstd::arithmetic::div_mod::lemma_div_pos_is_pos(n, d);
    }
}

/// The swap never lowers the pool's constant product: after paying
/// `amount_in` into the input reserve and `amount_out` out of the output
/// reserve, `(reserve_in + amount_in) * (reserve_out - amount_out)` is at
/// least `reserve_in * reserve_out`.
pub proof fn lemma_swap_keeps_product(amount_in: u128, reserve_in: u128, reserve_out: u128)
    ensures
        spec_amount_out(amount_in, reserve_in, reserve_out) <= reserve_out,
        (reserve_in + amount_in) * (reserve_out - spec_amount_out(amount_in, reserve_in, reserve_out))
            >= reserve_in * reserve_out,
{
    let out = spec_amount_out(amount_in, reserve_in, reserve_out);
    lemma_amount_out_bounds(amount_in, reserve_in, reserve_out);
    if amount_in == 0 || reserve_in == 0 || reserve_out == 0 {
        assert(out == 0);
        assert((reserve_in + amount_in) * reserve_out >= reserve_in * reserve_out) by (nonlinear_arith)
            requires
                amount_in >= 0,
                reserve_out >= 0,
                reserve_in >= 0,
        ;
    } else {
        let a = amount_in as int;
        let rin = reserve_in as int;
        let rout = reserve_out as int;
        let o = out as int;
        let den = rin * 1000 + a * 997;
        assert(o == (rout * a * 997) / den);
        assert(o * den <= rout * a * 997) by (nonlinear_arith)
            requires
                o == (rout * a * 997) / den,
                den > 0,
                rout * a * 997 >= 0,
        ;
        // o * (rin + a) * 997 <= o * den <= 997 * a * rout, hence o * (rin + a) <= a * rout
        assert(o * (rin + a) <= a * rout) by (nonlinear_arith)
            requires
                o * (rin * 1000 + a * 997) <= rout * a * 997,
                o >= 0,
                rin >= 0,
                a >= 0,
        ;
        assert((rin + a) * (rout - o) >= rin * rout) by (nonlinear_arith)
            requires
                o * (rin + a) <= a * rout,
        ;
    }
}

/// `r` is the integer square root of `n`: the largest `r` with `r * r <= n`.
pub open spec fn is_floor_sqrt(n: int, r: int) -> bool {
    0 <= r && r * r <= n && n < (r + 1) * (r + 1)
}

/// The integer square root of `n`.
pub open spec fn floor_sqrt(n: nat) -> nat {
    choose|r: nat| is_floor_sqrt(n as int, r as int)
}

proof fn floor_sqrt_witness(n: nat) -> (r: nat)
    ensures
        is_floor_sqrt(n as int, r as int),
    decreases n,
{
    if n == 0 {
        0
    } else {
        let r = floor_sqrt_witness((n - 1) as nat);
        assert(r * r <= n - 1 && n - 1 < (r + 1) * (r + 1));
        if (r + 1) * (r + 1) <= n {
            assert(n < (r + 2) * (r + 2)) by (nonlinear_arith)
                requires
                    n - 1 < (r + 1) * (r + 1),
                    r >= 0,
            ;
            assert(is_floor_sqrt(n as int, (r + 1) as int));
            (r + 1) as nat
        } else {
            assert(r * r <= n);
            assert(is_floor_sqrt(n as int, r as int));
            r
        }
    }
}

/// Every `n` has an integer square root, and it is at least 1 when `n` is.
pub proof fn lemma_floor_sqrt(n: nat)
    ensures
        is_floor_sqrt(n as int, floor_sqrt(n) as int),
        n >= 1 ==> floor_sqrt(n) >= 1,
{
    let w = floor_sqrt_witness(n);
    assert(is_floor_sqrt(n as int, w as int));
    let r = floor_sqrt(n);
    assert(is_floor_sqrt(n as int, r as int));
    if n >= 1 && r == 0 {
        assert((r + 1) * (r + 1) == 1) by (nonlinear_arith)
            requires
                r == 0,
        ;
    }
}

pub open spec fn square(s: int) -> int {
    s * s
}

proof fn lemma_floor_sqrt_unique(n: int, r: int, s: int)
    requires
        is_floor_sqrt(n, r),
        is_floor_sqrt(n, s),
    ensures
        r == s,
{
    if r < s {
        assert((r + 1) * (r + 1) <= s * s) by (nonlinear_arith)
            requires
                0 <= r,
                r + 1 <= s,
        ;
    } else if s < r {
        assert((s + 1) * (s + 1) <= r * r) by (nonlinear_arith)
            requires
                0 <= s,
                s + 1 <= r,
        ;
    }
}

/// For `x >= 1` and any `s` with `s * s <= n`: `x + n / x >= 2 * s`.
proof fn lemma_newton_step_above(n: int, x: int, s: int)
    requires
        x >= 1,
        n >= 0,
        s >= 0,
        s * s <= n,
    ensures
        x + n / x >= 2 * s,
{
    let q = n / x;
    let r = n % x;
    vstd::arithmetic::div_mod::lemma_fundamental_div_mod(n, x);
    vstd::arithmetic::div_mod::lemma_mod_bound(n, x);
    assert(n == x * q + r);
    assert(x * x + s * s >= 2 * x * s) by (nonlinear_arith);
    assert(x * (x + q) + r >= 2 * x * s) by (nonlinear_arith)
        requires
            x * x + s * s >= 2 * x * s,
            s * s <= n,
            n == x * q + r,
    ;
    assert(x * (x + q) > x * (2 * s - 1)) by (nonlinear_arith)
        requires
            x * (x + q) + r >= 2 * x * s,
            r < x,
    ;
    assert(x + q > 2 * s - 1) by (nonlinear_arith)
        requires
            x * (x + q) > x * (2 * s - 1),
            x >= 1,
    ;
}

/// For `1 <= x <= n`: `x + n / x <= n + 1`.
proof fn lemma_newton_step_fits(n: int, x: int)
    requires
        1 <= x <= n,
    ensures
        x + n / x <= n + 1,
{
    assert(n <= x * (n - x + 1)) by (nonlinear_arith)
        requires
            1 <= x <= n,
    ;
    assert(n / x <= n - x + 1) by (nonlinear_arith)
        requires
            n <= x * (n - x + 1),
            x >= 1,
            n >= 0,
    ;
}

/// Integer square root by Newton's iteration: the largest `r` with
/// `r * r <= n`. The iteration's first step computes `n + 1`, so `n` must be
/// below `u128::MAX`.
pub fn isqrt(n: u128) -> (r: u128)
    requires
        n < u128::MAX,
    ensures
        r * r <= n < (r + 1) * (r + 1),
        r == floor_sqrt(n as nat),
{
    if n == 0 {
        proof {
            assert(is_floor_sqrt(0, (0 as nat) as int));
            lemma_floor_sqrt_unique(0, 0, floor_sqrt(0) as int);
        }
        return 0;
    }
    let mut x = n;
    let mut y = (x + 1) / 2;
    proof {
        assert forall|s: int| s >= 0 && #[trigger] square(s) <= n implies s <= x by {
            if s > x {
                assert(s * s > n) by (nonlinear_arith)
                    requires
                        s > x,
                        x == n,
                        n >= 1,
                ;
            }
        }
        assert(n / n == 1) by (nonlinear_arith)
            requires
                n >= 1,
        ;
    }
    while y < x
        invariant
            1 <= x <= n,
            n < u128::MAX,
            y == (x + n / x) / 2,
            forall|s: int| s >= 0 && #[trigger] square(s) <= n ==> s <= x,
        decreases x,
    {
        proof {
            assert(square(1) <= n);
            lemma_newton_step_above(n as int, x as int, 1);
            assert forall|s: int| s >= 0 && #[trigger] square(s) <= n implies s <= y by {
                lemma_newton_step_above(n as int, x as int, s);
            }
        }
        x = y;
        proof {
            lemma_newton_step_fits(n as int, x as int);
        }
        y = (x + n / x) / 2;
    }
    proof {
        if x * x > n {
            assert(n / x < x) by (nonlinear_arith)
                requires
                    x * x > n,
                    x >= 1,
                    n >= 0,
            ;
        }
        if square(x + 1) <= n {
            assert(x + 1 <= x);
        }
        assert(is_floor_sqrt(n as int, x as int));
        assert(is_floor_sqrt(n as int, (x as nat) as int));
        lemma_floor_sqrt_unique(n as int, x as int, floor_sqrt(n as nat) as int);
    }
    x
}

} // verus!
