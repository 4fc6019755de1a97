//! Two-dimensional integer geometry in milli-units, and the scaled
//! multiply-divide that all kinematics go through.

use vstd::prelude::*;

verus! {

/// A 2D vector with fixed-point coordinates (milli-units).
#[derive(Debug, Clone, Copy, PartialEq, Eq, Structural)]
pub struct Vector2i {
    pub x: i64,
    pub y: i64,
}

impl Vector2i {
    pub fn new(x: i64, y: i64) -> (r: Vector2i)
        ensures
            r.x == x,
            r.y == y,
    {
        Vector2i { x, y }
    }

    pub fn zeros() -> (r: Vector2i)
        ensures
            r.x == 0,
            r.y == 0,
    {
        Vector2i { x: 0, y: 0 }
    }
}

/// `v * num / den` with the quotient rounded toward zero, as a mathematical
/// value. `num` and `den` must be positive; `v` may have either sign.
pub open spec fn spec_scale_div(v: int, num: int, den: int) -> int
    recommends
        num >= 0,
        den > 0,
{
    if v >= 0 {
        (v * num) / den
    } else {
        -(((-v) * num) / den)
    }
}

/// Fixed-point scaling: computes `v * num / den` rounded toward zero.
pub fn scale_div(v: i64, num: i64, den: i64) -> (r: i64)
    requires
        0 <= num,
        0 < den,
        -0x7fff_ffff_ffff_ffff <= v,
        -0x7fff_ffff_ffff_ffff <= v * num <= 0x7fff_ffff_ffff_ffff,
    ensures
        r == spec_scale_div(v as int, num as int, den as int),
{
    if v >= 0 {
        let p = v * num;
        p / den
    } else {
        proof {
            assert((-v) * num == -(v * num)) by (nonlinear_arith);
            assert(0 <= (-v) * num) by (nonlinear_arith)
                requires 0 <= -v && 0 <= num;
        }
        let p = (-v) * num;
        -(p / den)
    }
}

/// The magnitude of a scaled value is bounded by the scaled magnitude bound:
/// if `|v| <= b`, `num <= m` then `|v * num / den| <= b * m / den`.
pub proof fn lemma_scale_div_bound(v: int, num: int, den: int, b: int, m: int)
    requires
        -b <= v <= b,
        0 <= num <= m,
        0 < den,
    ensures
        -((b * m) / den) <= spec_scale_div(v, num, den) <= (b * m) / den,
{
    if v >= 0 {
        assert(v * num <= b * m) by (nonlinear_arith)
            requires 0 <= v <= b && 0 <= num <= m;
        assert(0 <= v * num) by (nonlinear_arith)
            requires 0 <= v && 0 <= num;
        vstd::arithmetic::div_mod::lemma_div_is_ordered(v * num, b * m, den);
        vstd::arithmetic::div_mod::lemma_div_is_ordered(0, v * num, den);
    } else {
        assert((-v) * num <= b * m) by (nonlinear_arith)
            requires 0 <= -v <= b && 0 <= num <= m;
        assert(0 <= (-v) * num) by (nonlinear_arith)
            requires 0 <= -v && 0 <= num;
        vstd::arithmetic::div_mod::lemma_div_is_ordered((-v) * num, b * m, den);
        vstd::arithmetic::div_mod::lemma_div_is_ordered(0, (-v) * num, den);
    }
}

/// `v * f / 1000` with the quotient rounded toward zero: application of a
/// per-mille factor `f` of either sign.
pub open spec fn spec_mul_milli(v: int, f: int) -> int {
    if v * f >= 0 {
        (v * f) / 1000
    } else {
        -((-(v * f)) / 1000)
    }
}

/// Apply a per-mille factor of either sign: `v * f / 1000` rounded toward
/// zero.
pub fn mul_milli(v: i64, f: i64) -> (r: i64)
    requires
        -0x7fff_ffff_ffff_ffff <= v * f <= 0x7fff_ffff_ffff_ffff,
    ensures
        r == spec_mul_milli(v as int, f as int),
{
    let p = v * f;
    if p >= 0 {
        p / 1000
    } else {
        -((-p) / 1000)
    }
}

/// Applying a bounded per-mille factor keeps a bounded value in proportion:
/// `|f| <= m` implies `|v * f / 1000| <= (b * m) / 1000` for `|v| <= b`.
pub proof fn lemma_mul_milli_bound(v: int, f: int, b: int, m: int)
    requires
        -b <= v <= b,
        -m <= f <= m,
        0 <= m,
    ensures
        -((b * m) / 1000) <= spec_mul_milli(v, f) <= (b * m) / 1000,
{
    let p = v * f;
    assert(0 <= b);
    assert(-(b * m) <= v * f <= b * m) by (nonlinear_arith)
        requires -b <= v <= b && -m <= f <= m && 0 <= m && 0 <= b;
    if p >= 0 {
        vstd::arithmetic::div_mod::lemma_div_is_ordered(p, b * m, 1000);
        vstd::arithmetic::div_mod::lemma_div_is_ordered(0, p, 1000);
    } else {
        vstd::arithmetic::div_mod::lemma_div_is_ordered(-p, b * m, 1000);
        vstd::arithmetic::div_mod::lemma_div_is_ordered(0, -p, 1000);
    }
}

/// The quarter-wave sine table: the sine of `i/40` of a turn, in per-mille.
pub open spec fn spec_sin_table(i: int) -> int {
    if i <= 0 {
        0
    } else if i == 1 {
        156
    } else if i == 2 {
        309
    } else if i == 3 {
        454
    } else if i == 4 {
        588
    } else if i == 5 {
        707
    } else if i == 6 {
        809
    } else if i == 7 {
        891
    } else if i == 8 {
        951
    } else if i == 9 {
        988
    } else {
        1000
    }
}

/// Sine over the first quarter turn (`a` in milli-turns, 0..=250), in
/// per-mille, by linear interpolation between the table points.
pub open spec fn spec_sin_quarter(a: int) -> int {
    let i = a / 25;
    let rem = a % 25;
    spec_sin_table(i) + ((spec_sin_table(i + 1) - spec_sin_table(i)) * rem) / 25
}

/// Sine of an angle in milli-turns (1000 is a full turn), in per-mille, by
/// quarter-wave symmetry.
pub open spec fn spec_sin_milli(a: int) -> int {
    if a <= 250 {
        spec_sin_quarter(a)
    } else if a <= 500 {
        spec_sin_quarter(500 - a)
    } else if a <= 750 {
        -spec_sin_quarter(a - 500)
    } else {
        -spec_sin_quarter(1000 - a)
    }
}

/// Cosine of an angle in milli-turns, in per-mille: the sine a quarter turn
/// ahead.
pub open spec fn spec_cos_milli(a: int) -> int {
    if a <= 750 {
        spec_sin_milli(a + 250)
    } else {
        spec_sin_milli(a - 750)
    }
}

fn sin_table(i: i64) -> (r: i64)
    ensures
        r == spec_sin_table(i as int),
{
    if i <= 0 {
        0
    } else if i == 1 {
        156
    } else if i == 2 {
        309
    } else if i == 3 {
        454
    } else if i == 4 {
        588
    } else if i == 5 {
        707
    } else if i == 6 {
        809
    } else if i == 7 {
        891
    } else if i == 8 {
        951
    } else if i == 9 {
        988
    } else {
        1000
    }
}

proof fn lemma_sin_quarter_bounds(a: int)
    requires
        0 <= a <= 250,
    ensures
        0 <= spec_sin_quarter(a) <= 1000,
{
    let i = a / 25;
    let rem = a % 25;
    assert(0 <= i <= 10);
    assert(0 <= rem < 25);
    let lo = spec_sin_table(i);
    let hi = spec_sin_table(i + 1);
    assert(0 <= lo <= hi <= 1000);
    let d = hi - lo;
    assert(0 <= d * rem <= d * 25) by (nonlinear_arith)
        requires 0 <= d && 0 <= rem < 25;
    vstd::arithmetic::div_mod::lemma_div_is_ordered(0, d * rem, 25);
    vstd::arithmetic::div_mod::lemma_div_is_ordered(d * rem, d * 25, 25);
    assert(d * 25 == 25 * d) by (nonlinear_arith);
    vstd::arithmetic::div_mod::lemma_div_multiples_vanish(d, 25);
}

fn sin_quarter(a: i64) -> (r: i64)
    requires
        0 <= a <= 250,
    ensures
        r == spec_sin_quarter(a as int),
        0 <= r <= 1000,
{
    proof {
        lemma_sin_quarter_bounds(a as int);
    }
    let i = a / 25;
    let rem = a % 25;
    let lo = sin_table(i);
    let hi = sin_table(i + 1);
    lo + ((hi - lo) * rem) / 25
}

/// Sine of `a` milli-turns, in per-mille.
pub fn sin_milli(a: i64) -> (r: i64)
    requires
        0 <= a <= 1000,
    ensures
        r == spec_sin_milli(a as int),
        -1000 <= r <= 1000,
{
    if a <= 250 {
        sin_quarter(a)
    } else if a <= 500 {
        sin_quarter(500 - a)
    } else if a <= 750 {
        -sin_quarter(a - 500)
    } else {
        -sin_quarter(1000 - a)
    }
}

/// Cosine of `a` milli-turns, in per-mille.
pub fn cos_milli(a: i64) -> (r: i64)
    requires
        0 <= a <= 1000,
    ensures
        r == spec_cos_milli(a as int),
        -1000 <= r <= 1000,
{
    if a <= 750 {
        sin_milli(a + 250)
    } else {
        sin_milli(a - 750)
    }
}

/// Scaling by a factor of at most one (num <= den) does not grow a value.
pub proof fn lemma_scale_div_shrinks(v: int, num: int, den: int, b: int)
    requires
        -b <= v <= b,
        0 <= num <= den,
        0 < den,
    ensures
        -b <= spec_scale_div(v, num, den) <= b,
{
    lemma_scale_div_bound(v, num, den, b, den);
    if b >= 0 {
        assert(b * den == den * b) by (nonlinear_arith);
        vstd::arithmetic::div_mod::lemma_div_multiples_vanish(b, den);
    }
}

} // verus!
