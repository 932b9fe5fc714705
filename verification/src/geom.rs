//! Fixed-point plane geometry: 2D vectors in milli-units, integer square
//! root, truncating division and direction normalization.

use vstd::prelude::*;

verus! {

use crate::SCALE;

/// A 2D vector in milli-units (thousandths).
#[derive(Clone, Copy, PartialEq, Eq, Structural, Debug)]
pub struct Vec2 {
    pub x: i64,
    pub y: i64,
}

/// `r` is the integer square root of `n`: the largest integer whose square
/// does not exceed `n`.
pub open spec fn is_isqrt(n: int, r: int) -> bool {
    0 <= r && r * r <= n && n < (r + 1) * (r + 1)
}

/// The integer square root of `n`.
pub open spec fn spec_isqrt(n: int) -> int {
    choose|r: int| is_isqrt(n, r)
}

/// Division truncating toward zero, as machine division of signed integers
/// does; `b` is expected positive.
pub open spec fn div_trunc(a: int, b: int) -> int {
    if a >= 0 {
        a / b
    } else {
        -((-a) / b)
    }
}

/// The integer square root is unique.
pub proof fn lemma_isqrt_unique(n: int, r1: int, r2: int)
    requires
        is_isqrt(n, r1),
        is_isqrt(n, r2),
    ensures
        r1 == r2,
{
    if r1 < r2 {
        assert(r2 * r2 <= n) by (nonlinear_arith)
            requires
                is_isqrt(n, r2),
        ;
        assert((r1 + 1) * (r1 + 1) <= r2 * r2) by (nonlinear_arith)
            requires
                0 <= r1,
                r1 + 1 <= r2,
        ;
        assert(false);
    }
    if r2 < r1 {
        assert((r2 + 1) * (r2 + 1) <= r1 * r1) by (nonlinear_arith)
            requires
                0 <= r2,
                r2 + 1 <= r1,
        ;
        assert(false);
    }
}

/// Squaring kept overflow-free by its bound.
fn square(v: u64) -> (s: u64)
    requires
        v <= 0xFFFF_FFFF,
    ensures
        s == v * v,
{
    proof {
        assert(v * v <= 0xFFFF_FFFF * 0xFFFF_FFFF) by (nonlinear_arith)
            requires
                v <= 0xFFFF_FFFF,
        ;
    }
    v * v
}

/// Integer square root by counting up; the inputs used here are small.
pub fn isqrt(n: u64) -> (r: u64)
    requires
        n <= 0xFFFF_FFFF_FFFF,
    ensures
        is_isqrt(n as int, r as int),
        r == spec_isqrt(n as int),
{
    let mut r: u64 = 0;
    while square(r + 1) <= n
        invariant
            n <= 0xFFFF_FFFF_FFFF,
            r * r <= n,
            r <= 0x100_0000,
        decreases n - r * r,
    {
        proof {
            assert(r + 1 <= 0x100_0000) by (nonlinear_arith)
                requires
                    (r + 1) * (r + 1) <= n,
                    n <= 0xFFFF_FFFF_FFFF,
                    0 <= r,
            ;
            assert(r * r < (r + 1) * (r + 1)) by (nonlinear_arith)
                requires
                    0 <= r,
            ;
        }
        r = r + 1;
    }
    proof {
        assert(is_isqrt(n as int, r as int));
        lemma_isqrt_unique(n as int, r as int, spec_isqrt(n as int));
    }
    r
}

/// Scale `(x, y)` to a direction of (approximately) unit length, held in
/// milli-units: each component is `c * SCALE` divided, truncating toward
/// zero, by the integer square root of `x*x + y*y`.
pub fn normalize(x: i64, y: i64) -> (d: Vec2)
    requires
        -SCALE <= x <= SCALE,
        -SCALE <= y <= SCALE,
        !(x == 0 && y == 0),
    ensures
        d.x == div_trunc(x * SCALE, spec_isqrt(x * x + y * y)),
        d.y == div_trunc(y * SCALE, spec_isqrt(x * x + y * y)),
        -SCALE <= d.x <= SCALE,
        -SCALE <= d.y <= SCALE,
{
    proof {
        assert(0 <= x * x <= SCALE * SCALE) by (nonlinear_arith)
            requires
                -SCALE <= x <= SCALE,
        ;
        assert(0 <= y * y <= SCALE * SCALE) by (nonlinear_arith)
            requires
                -SCALE <= y <= SCALE,
        ;
        assert(1 <= x * x + y * y) by (nonlinear_arith)
            requires
                !(x == 0 && y == 0),
        ;
    }
    let s: u64 = (x * x + y * y) as u64;
    let l: u64 = isqrt(s);
    proof {
        assert(1 <= l) by (nonlinear_arith)
            requires
                is_isqrt(s as int, l as int),
                1 <= s,
        ;
        assert(l <= 0x100_0000) by (nonlinear_arith)
            requires
                is_isqrt(s as int, l as int),
                s <= 2 * SCALE * SCALE,
                0 <= l,
        ;
    }
    let dx: i64 = scaled_component(x, l);
    let dy: i64 = scaled_component(y, l);
    proof {
        lemma_component_bounded(x as int, y as int, l as int);
        lemma_component_bounded(y as int, x as int, l as int);
    }
    Vec2 { x: dx, y: dy }
}

/// `c * SCALE / l`, truncating toward zero, computed on magnitudes so the
/// machine division is the nonnegative one.
fn scaled_component(c: i64, l: u64) -> (r: i64)
    requires
        -SCALE <= c <= SCALE,
        1 <= l,
        l <= 0x100_0000,
    ensures
        r == div_trunc(c * SCALE, l as int),
{
    let m: u64 = if c >= 0 {
        c as u64
    } else {
        (-c) as u64
    };
    let q: u64 = m * (SCALE as u64) / l;
    proof {
        assert(q <= m * SCALE) by (nonlinear_arith)
            requires
                q == (m * SCALE) as int / (l as int),
                1 <= l,
                0 <= m,
        ;
        if c >= 0 {
            assert(c * SCALE == m * SCALE);
        } else {
            assert((-c) * SCALE == m * SCALE);
            assert(-(c * SCALE) == (-c) * SCALE) by (nonlinear_arith);
        }
    }
    if c >= 0 {
        q as i64
    } else {
        -(q as i64)
    }
}

/// With `l` the integer square root of `a*a + b*b`, the scaled component
/// `a * SCALE / l` stays within `[-SCALE, SCALE]`.
proof fn lemma_component_bounded(a: int, b: int, l: int)
    requires
        is_isqrt(a * a + b * b, l),
        1 <= l,
    ensures
        -SCALE <= div_trunc(a * SCALE, l) <= SCALE,
{
    assert(0 <= b * b) by (nonlinear_arith);
    let m = if a >= 0 {
        a
    } else {
        -a
    };
    assert(m * m == a * a) by (nonlinear_arith)
        requires
            m == a || m == -a,
    ;
    assert(m <= l) by (nonlinear_arith)
        requires
            0 <= m,
            0 <= l,
            m * m == a * a,
            0 <= b * b,
            a * a + b * b < (l + 1) * (l + 1),
    ;
    assert(m * SCALE <= l * SCALE) by (nonlinear_arith)
        requires
            m <= l,
            0 < SCALE,
    ;
    assert(m * SCALE / l <= l * SCALE / l) by (nonlinear_arith)
        requires
            0 <= m * SCALE,
            m * SCALE <= l * SCALE,
            1 <= l,
    ;
    assert(l * SCALE / l == SCALE) by (nonlinear_arith)
        requires
            1 <= l,
    ;
    assert(0 <= m * SCALE / l) by (nonlinear_arith)
        requires
            0 <= m * SCALE,
            1 <= l,
    ;
    if a >= 0 {
        assert(div_trunc(a * SCALE, l) == m * SCALE / l) by (nonlinear_arith)
            requires
                a >= 0,
                m == a,
        ;
    } else {
        assert(a * SCALE < 0) by (nonlinear_arith)
            requires
                a < 0,
                0 < SCALE,
        ;
        assert(-(a * SCALE) == m * SCALE) by (nonlinear_arith)
            requires
                m == -a,
        ;
    }
}

} // verus!
