//! Exact multiply-then-divide on `u128` operands whose product may need
//! up to 256 bits.

use vstd::prelude::*;
use vstd::arithmetic::power2::pow2;

verus! {

/// 2^128.
pub open spec fn base() -> int {
    0x1_0000_0000_0000_0000_0000_0000_0000_0000int
}

/// A non-negative integer held as two 128-bit halves.
#[derive(Clone, Copy, Debug, PartialEq, Eq)]
pub struct Wide {
    pub hi: u128,
    pub lo: u128,
}

impl Wide {
    pub open spec fn value(self) -> int {
        self.hi * base() + self.lo
    }
}

/// `x` as a wide value.
pub fn wide(x: u128) -> (w: Wide)
    ensures
        w.value() == x,
        w.hi == 0,
{
    Wide { hi: 0, lo: x }
}

/// The sum of two wide values.
pub fn wide_add(a: Wide, b: Wide) -> (c: Wide)
    requires
        a.hi + b.hi < u128::MAX,
    ensures
        c.value() == a.value() + b.value(),
        c.hi <= a.hi + b.hi + 1,
{
    if a.lo > u128::MAX - b.lo {
        Wide { hi: a.hi + b.hi + 1, lo: a.lo - (u128::MAX - b.lo) - 1 }
    } else {
        Wide { hi: a.hi + b.hi, lo: a.lo + b.lo }
    }
}

/// The difference of two wide values, the first not below the second.
pub fn wide_sub(a: Wide, b: Wide) -> (c: Wide)
    requires
        a.value() >= b.value(),
    ensures
        c.value() == a.value() - b.value(),
        c.hi <= a.hi,
{
    if a.lo >= b.lo {
        Wide { hi: a.hi - b.hi, lo: a.lo - b.lo }
    } else {
        Wide { hi: a.hi - b.hi - 1, lo: (u128::MAX - b.lo) + 1 + a.lo }
    }
}

/// Whether `a` is at least `b`.
pub fn wide_ge(a: Wide, b: Wide) -> (r: bool)
    ensures
        r == (a.value() >= b.value()),
{
    a.hi > b.hi || (a.hi == b.hi && a.lo >= b.lo)
}

/// `x * k` for a small factor `k`.
pub fn wide_mul_small(x: u128, k: u128) -> (w: Wide)
    requires
        k <= 1000,
    ensures
        w.value() == x * k,
        w.hi <= k,
{
    let mut acc = wide(0);
    let mut i: u128 = 0;
    while i < k
        invariant
            i <= k <= 1000,
            acc.value() == x * i,
            acc.hi <= i,
        decreases k - i,
    {
        acc = wide_add(acc, wide(x));
        proof {
            assert(x * i + x == x * (i + 1)) by (nonlinear_arith);
        }
        i = i + 1;
        proof {
            if acc.hi > i {
                assert(acc.hi * base() >= (i + 1) * base()) by (nonlinear_arith)
                    requires
                        acc.hi >= i + 1,
                ;
                assert(x * i <= i * (base() - 1)) by (nonlinear_arith)
                    requires
                        0 <= x < base(),
                        i >= 0,
                ;
            }
        }
    }
    acc
}

/// `n / d` when that is at most `cap`.
pub open spec fn capped_quotient(n: int, d: int, cap: u128) -> Option<u128> {
    if n / d <= cap {
        Some((n / d) as u128)
    } else {
        None
    }
}

proof fn lemma_quotient_at_least(a: int, n: int, d: int)
    requires
        d > 0,
        a >= 0,
        a * d <= n,
    ensures
        a <= n / d,
{
    vstd::arithmetic::div_mod::lemma_div_is_ordered(a * d, n, d);
    vstd::arithmetic::div_mod::lemma_div_by_multiple(a, d);
}

proof fn lemma_small_values_are_low(w: Wide, z: Wide)
    requires
        0 <= w.value() < z.value(),
    ensures
        w.hi <= z.hi,
{
    if w.hi > z.hi {
        assert(w.hi * base() >= (z.hi + 1) * base()) by (nonlinear_arith)
            requires
                w.hi >= z.hi + 1,
        ;
    }
}

/// `floor(x * y / z)` for `y == qy * z + ry` with `ry < z`, bit by bit over
/// `x`, when the quotient is at most `cap`; `None` otherwise.
/// Also tells whether the division is exact.
fn mul_div_parts(x: u128, qy: u128, ry: Wide, z: Wide, cap: u128) -> (r: Option<(u128, bool)>)
    requires
        z.value() > 0,
        0 <= ry.value() < z.value(),
        z.hi < 0x1_0000_0000,
    ensures
        match r {
            None => capped_quotient(x * (qy * z.value() + ry.value()), z.value(), cap) is None,
            Some((q, exact)) => {
                &&& capped_quotient(x * (qy * z.value() + ry.value()), z.value(), cap) == Some(q)
                &&& exact == ((x * (qy * z.value() + ry.value())) % z.value() == 0)
            },
        },
{
    let ghost y: int = qy * z.value() + ry.value();
    let ghost zz: int = z.value();
    let mut q: u128 = 0;
    let mut r = wide(0);
    let mut p: u128 = 0x8000_0000_0000_0000_0000_0000_0000_0000;
    let ghost mut e: nat = 127;
    proof {
        vstd::arithmetic::power2::lemma2_to64();
        vstd::arithmetic::power2::lemma2_to64_rest();
        vstd::arithmetic::power2::lemma_pow2_adds(63, 64);
        assert(x as int / (2 * p as int) == 0);
        assert(y >= 0) by (nonlinear_arith)
            requires
                qy >= 0,
                zz > 0,
                ry.value() >= 0,
                y == qy * zz + ry.value(),
        ;
        assert(0 * y == 0);
    }
    loop
        invariant
            p as int == pow2(e),
            e <= 127,
            y == qy * zz + ry.value(),
            y >= 0,
            zz == z.value(),
            zz > 0,
            0 <= ry.value() < zz,
            z.hi < 0x1_0000_0000,
            q * zz + r.value() == (x as int / (2 * p as int)) * y,
            0 <= r.value() < zz,
            q <= cap,
        decreases e,
    {
        let ghost prefix: int = x as int / (2 * p as int);
        proof {
            vstd::arithmetic::power2::lemma_pow2_pos(e);
            lemma_small_values_are_low(r, z);
            lemma_small_values_are_low(ry, z);
        }
        let b = (x / p) % 2;
        let ghost next: int = x as int / p as int;
        proof {
            vstd::arithmetic::div_mod::lemma_div_denominator(x as int, p as int, 2);
            vstd::arithmetic::div_mod::lemma_fundamental_div_mod(next, 2);
            assert(next == 2 * prefix + b);
        }
        let mut t = wide_add(r, r);
        if b == 1 {
            t = wide_add(t, ry);
        }
        assert(t.value() == 2 * r.value() + b * ry.value());
        assert(t.value() < 3 * zz);
        let mut k: u128 = 0;
        if wide_ge(t, z) {
            t = wide_sub(t, z);
            k = 1;
            if wide_ge(t, z) {
                t = wide_sub(t, z);
                k = 2;
            }
        }
        assert(0 <= t.value() < zz);
        assert(2 * r.value() + b * ry.value() == k * zz + t.value());
        let ghost q_next: int = 2 * q + b * qy + k;
        proof {
            assert(q_next * zz + t.value() == next * y) by (nonlinear_arith)
                requires
                    q_next == 2 * q + b * qy + k,
                    2 * r.value() + b * ry.value() == k * zz + t.value(),
                    q * zz + r.value() == prefix * y,
                    next == 2 * prefix + b,
                    y == qy * zz + ry.value(),
            ;
            // the final quotient is at least q_next
            assert(next <= x) by (nonlinear_arith)
                requires
                    next == x as int / p as int,
                    p >= 1,
                    x >= 0,
            ;
            assert(next * y <= x * y) by (nonlinear_arith)
                requires
                    next <= x,
                    y >= 0,
            ;
            assert(q_next >= 0);
            lemma_quotient_at_least(q_next, x * y, zz);
        }
        let step: u128 = if b == 1 {
            qy
        } else {
            0
        };
        let q_new = match q.checked_mul(2) {
            Some(d) => match d.checked_add(step) {
                Some(s) => s.checked_add(k),
                None => None,
            },
            None => None,
        };
        let qn = match q_new {
            Some(v) => v,
            None => {
                return None;
            },
        };
        if qn > cap {
            return None;
        }
        q = qn;
        r = t;
        if p == 1 {
            proof {
                assert(x as int / 1 == x as int);
                assert(next == x);
                vstd::arithmetic::div_mod::lemma_div_multiples_vanish_fancy(
                    q as int,
                    r.value(),
                    zz,
                );
                assert(zz * q + r.value() == q * zz + r.value()) by (nonlinear_arith);
                vstd::arithmetic::div_mod::lemma_fundamental_div_mod_converse(
                    x * y,
                    zz,
                    q as int,
                    r.value(),
                );
            }
            let exact = r.hi == 0 && r.lo == 0;
            return Some((q, exact));
        }
        proof {
            if e == 0 {
                vstd::arithmetic::power2::lemma2_to64();
                assert(p == 1);
            }
            vstd::arithmetic::power2::lemma_pow2_unfold(e);
        }
        p = p / 2;
        proof {
            e = (e - 1) as nat;
        }
    }
}

/// `floor(x * y / z)` when it is at most `cap`; `None` otherwise.
pub fn mul_div_capped(x: u128, y: u128, z: u128, cap: u128) -> (r: Option<u128>)
    requires
        z > 0,
    ensures
        r == capped_quotient(x * y, z as int, cap),
{
    let qy = y / z;
    let ry = y % z;
    proof {
        vstd::arithmetic::div_mod::lemma_fundamental_div_mod(y as int, z as int);
        assert(qy * z + ry == y) by (nonlinear_arith)
            requires
                y == z * (y / z) + y % z,
                qy == y / z,
                ry == y % z,
        ;
    }
    match mul_div_parts(x, qy, wide(ry), wide(z), cap) {
        Some((q, _)) => Some(q),
        None => None,
    }
}

/// `n / d` rounded up.
pub open spec fn ceil_div(n: int, d: int) -> int {
    (n + d - 1) / d
}

/// Rounding up adds one exactly when the division is inexact, and the
/// rounded-up quotient covers `n`.
pub proof fn lemma_ceil_div(n: int, d: int)
    requires
        n >= 0,
        d > 0,
    ensures
        ceil_div(n, d) == n / d + (if n % d == 0 {
            0int
        } else {
            1int
        }),
        ceil_div(n, d) * d >= n,
{
    let q = n / d;
    let r = n % d;
    vstd::arithmetic::div_mod::lemma_fundamental_div_mod(n, d);
    vstd::arithmetic::div_mod::lemma_mod_bound(n, d);
    if r == 0 {
        vstd::arithmetic::div_mod::lemma_div_multiples_vanish_fancy(q, d - 1, d);
        assert(d * q + (d - 1) == n + d - 1);
    } else {
        vstd::arithmetic::div_mod::lemma_div_multiples_vanish_fancy(q + 1, r - 1, d);
        assert(d * (q + 1) + (r - 1) == n + d - 1) by (nonlinear_arith)
            requires
                n == d * q + r,
        ;
    }
    assert(ceil_div(n, d) * d >= n) by (nonlinear_arith)
        requires
            ceil_div(n, d) == q + (if r == 0 {
                0int
            } else {
                1int
            }),
            n == d * q + r,
            0 <= r < d,
    ;
}

/// `x * y / z` rounded up, when it is at most `cap`; `None` otherwise.
pub fn mul_div_ceil(x: u128, y: u128, z: u128, cap: u128) -> (r: Option<u128>)
    requires
        z > 0,
    ensures
        r == (if ceil_div(x * y, z as int) <= cap {
            Some(ceil_div(x * y, z as int) as u128)
        } else {
            None::<u128>
        }),
{
    let qy = y / z;
    let ry = y % z;
    proof {
        vstd::arithmetic::div_mod::lemma_fundamental_div_mod(y as int, z as int);
        assert(qy * z + ry == y) by (nonlinear_arith)
            requires
                y == z * (y / z) + y % z,
                qy == y / z,
                ry == y % z,
        ;
        assert(x * y >= 0) by (nonlinear_arith)
            requires
                x >= 0,
                y >= 0,
        ;
        lemma_ceil_div(x * y, z as int);
    }
    match mul_div_parts(x, qy, wide(ry), wide(z), cap) {
        Some((q, exact)) => {
            if exact {
                Some(q)
            } else if q < cap {
                Some(q + 1)
            } else {
                None
            }
        },
        None => None,
    }
}

/// `floor(x * y / z)` for `y <= z`, which never exceeds `x`.
pub fn mul_div(x: u128, y: u128, z: u128) -> (r: u128)
    requires
        0 < z,
        y <= z,
    ensures
        r == (x * y) / (z as int),
        r <= x,
{
    proof {
        lemma_mul_div_le(x as int, y as int, z as int);
    }
    match mul_div_capped(x, y, z, u128::MAX) {
        Some(v) => v,
        None => 0,
    }
}

/// For `0 <= y <= z`: `x * y / z <= x`.
pub proof fn lemma_mul_div_le(x: int, y: int, z: int)
    requires
        x >= 0,
        0 <= y <= z,
        z > 0,
    ensures
        0 <= (x * y) / z <= x,
{
    assert(x * y <= x * z) by (nonlinear_arith)
        requires
            x >= 0,
            y <= z,
    ;
    assert(x * y >= 0) by (nonlinear_arith)
        requires
            x >= 0,
            y >= 0,
    ;
    vstd::arithmetic::div_mod::lemma_div_is_ordered(x * y, x * z, z);
    vstd::arithmetic::div_mod::lemma_div_by_multiple(x, z);
    vstd::arithmetic::div_mod::lemma_div_pos_is_pos(x * y, z);
}

/// `floor(x * y / z)` for wide `y < z`, which stays below `x` when `x > 0`.
pub fn mul_div_wide(x: u128, y: Wide, z: Wide) -> (r: u128)
    requires
        0 <= y.value() < z.value(),
        z.hi < 0x1_0000_0000,
    ensures
        r == (x * y.value()) / z.value(),
        r <= x,
{
    proof {
        lemma_mul_div_le(x as int, y.value(), z.value());
        assert(x * (0 * z.value() + y.value()) == x * y.value());
    }
    match mul_div_parts(x, 0, y, z, u128::MAX) {
        Some((v, _)) => v,
        None => 0,
    }
}

} // verus!
