//! Piecewise-linear interpolation curves over per-mille progress, used for
//! particle color and scale over lifetime.
//!
//! A curve is a list of control points `(xs[i], ys[i])` with strictly
//! increasing `xs`. Evaluation at `t` interpolates linearly between the two
//! surrounding control points, clamping to the first value before the first
//! point and to the last value beyond the last point.

use vstd::prelude::*;
use crate::colors::RgbaColor;

verus! {

/// Magnitude limit on scalar curve values, so an evaluation can serve as a
/// per-mille factor without overflow downstream.
pub const CURVE_VALUE_LIMIT: i64 = 1_000_000;

/// Control point abscissas are strictly increasing.
pub open spec fn spec_xs_increasing(xs: Seq<u32>) -> bool {
    forall|i: int| 0 <= i < xs.len() - 1 ==> #[trigger] xs[i] < xs[i + 1]
}

/// The control point an evaluation at `t` starts from: the last index whose
/// abscissa does not exceed `t`, or 0 when every abscissa exceeds `t`.
pub open spec fn spec_curve_index(xs: Seq<u32>, t: u32) -> int
    decreases xs.len(),
{
    if xs.len() <= 1 {
        0
    } else if xs[xs.len() - 1] <= t {
        xs.len() - 1
    } else {
        spec_curve_index(xs.drop_last(), t)
    }
}

/// Linear interpolation from `ly` toward `hy`, `dt` of the way across a span
/// of `dx`, rounded toward `ly`.
pub open spec fn spec_lerp(ly: int, hy: int, dt: int, dx: int) -> int
    recommends
        0 <= dt <= dx,
        0 < dx,
{
    if hy >= ly {
        ly + ((hy - ly) * dt) / dx
    } else {
        ly - ((ly - hy) * dt) / dx
    }
}

/// An interpolated value lies between its two endpoints.
pub proof fn lemma_lerp_between(ly: int, hy: int, dt: int, dx: int)
    requires
        0 <= dt <= dx,
        0 < dx,
    ensures
        ly <= hy ==> ly <= spec_lerp(ly, hy, dt, dx) <= hy,
        hy < ly ==> hy <= spec_lerp(ly, hy, dt, dx) <= ly,
{
    if hy >= ly {
        let d = hy - ly;
        assert(d * dt <= d * dx) by (nonlinear_arith)
            requires 0 <= d && dt <= dx;
        assert(0 <= d * dt) by (nonlinear_arith)
            requires 0 <= d && 0 <= dt;
        vstd::arithmetic::div_mod::lemma_div_is_ordered(d * dt, d * dx, dx);
        vstd::arithmetic::div_mod::lemma_div_is_ordered(0, d * dt, dx);
        assert(d * dx == dx * d) by (nonlinear_arith);
        vstd::arithmetic::div_mod::lemma_div_multiples_vanish(d, dx);
    } else {
        let d = ly - hy;
        assert(d * dt <= d * dx) by (nonlinear_arith)
            requires 0 <= d && dt <= dx;
        assert(0 <= d * dt) by (nonlinear_arith)
            requires 0 <= d && 0 <= dt;
        vstd::arithmetic::div_mod::lemma_div_is_ordered(d * dt, d * dx, dx);
        vstd::arithmetic::div_mod::lemma_div_is_ordered(0, d * dt, dx);
        assert(d * dx == dx * d) by (nonlinear_arith);
        vstd::arithmetic::div_mod::lemma_div_multiples_vanish(d, dx);
    }
}

/// With a starting abscissa at or below `t`, the index found by
/// `spec_curve_index` is at or below `t`, and the next control point (when
/// there is one) is strictly past `t`.
pub proof fn lemma_curve_index_props(xs: Seq<u32>, t: u32)
    requires
        xs.len() >= 1,
        spec_xs_increasing(xs),
        xs[0] <= t,
    ensures
        0 <= spec_curve_index(xs, t) < xs.len(),
        xs[spec_curve_index(xs, t)] <= t,
        spec_curve_index(xs, t) < xs.len() - 1 ==> t < xs[spec_curve_index(xs, t) + 1],
    decreases xs.len(),
{
    if xs.len() > 1 && xs[xs.len() - 1] > t {
        let prefix = xs.drop_last();
        assert(spec_xs_increasing(prefix)) by {
            assert forall|i: int| 0 <= i < prefix.len() - 1 implies #[trigger] prefix[i] < prefix[i
                + 1] by {
                assert(xs[i] < xs[i + 1]);
            }
        }
        lemma_curve_index_props(prefix, t);
        let idx = spec_curve_index(prefix, t);
        assert(prefix[idx] == xs[idx]);
        if idx < prefix.len() - 1 {
            assert(prefix[idx + 1] == xs[idx + 1]);
        }
    }
}

/// A scalar curve evaluated at `t`.
pub open spec fn spec_curve_y(xs: Seq<u32>, ys: Seq<i64>, t: u32) -> int {
    let idx = spec_curve_index(xs, t);
    if t < xs[0] {
        ys[0] as int
    } else if idx == xs.len() - 1 {
        ys[idx] as int
    } else {
        spec_lerp(ys[idx] as int, ys[idx + 1] as int, t - xs[idx], xs[idx + 1] - xs[idx])
    }
}

/// A color curve evaluated at `t`: each channel interpolated independently.
pub open spec fn spec_color_at(xs: Seq<u32>, ys: Seq<RgbaColor>, t: u32) -> RgbaColor {
    let idx = spec_curve_index(xs, t);
    if t < xs[0] {
        ys[0]
    } else if idx == xs.len() - 1 {
        ys[idx]
    } else {
        let dt = t - xs[idx];
        let dx = xs[idx + 1] - xs[idx];
        RgbaColor {
            r: spec_lerp(ys[idx].r as int, ys[idx + 1].r as int, dt, dx) as u8,
            g: spec_lerp(ys[idx].g as int, ys[idx + 1].g as int, dt, dx) as u8,
            b: spec_lerp(ys[idx].b as int, ys[idx + 1].b as int, dt, dx) as u8,
            a: spec_lerp(ys[idx].a as int, ys[idx + 1].a as int, dt, dx) as u8,
        }
    }
}

/// A piecewise-linear curve with scalar fixed-point values.
#[derive(Debug)]
pub struct Curve {
    pub xs: Vec<u32>,
    pub ys: Vec<i64>,
}

impl Curve {
    /// Evaluations need at least one control point, strictly increasing
    /// abscissas, and bounded values.
    pub open spec fn wf(self) -> bool {
        &&& self.xs@.len() == self.ys@.len()
        &&& self.xs@.len() >= 1
        &&& spec_xs_increasing(self.xs@)
        &&& forall|i: int|
            0 <= i < self.ys@.len() ==> -CURVE_VALUE_LIMIT <= #[trigger] self.ys@[i]
                <= CURVE_VALUE_LIMIT
    }

    pub fn new(xs: Vec<u32>, ys: Vec<i64>) -> (c: Curve)
        ensures
            c.xs@ == xs@,
            c.ys@ == ys@,
    {
        Curve { xs, ys }
    }

    /// Evaluate the curve at per-mille progress `t`.
    pub fn y(&self, t: u32) -> (r: i64)
        requires
            self.wf(),
        ensures
            r == spec_curve_y(self.xs@, self.ys@, t),
            -CURVE_VALUE_LIMIT <= r <= CURVE_VALUE_LIMIT,
    {
        let n = self.xs.len();
        if t < self.xs[0] {
            return self.ys[0];
        }
        let idx = curve_search(&self.xs, t);
        proof {
            lemma_curve_index_props(self.xs@, t);
        }
        if idx == n - 1 {
            self.ys[idx]
        } else {
            let lt = self.xs[idx];
            let ht = self.xs[idx + 1];
            let ly = self.ys[idx];
            let hy = self.ys[idx + 1];
            let dt = (t - lt) as i64;
            let dx = (ht - lt) as i64;
            proof {
                lemma_lerp_between(ly as int, hy as int, dt as int, dx as int);
                assert(-CURVE_VALUE_LIMIT <= ly <= CURVE_VALUE_LIMIT);
                assert(-CURVE_VALUE_LIMIT <= hy <= CURVE_VALUE_LIMIT);
                if hy >= ly {
                    assert(0 <= (hy - ly) * dt <= 2_000_000i64 * 0x1_0000_0000i64)
                        by (nonlinear_arith)
                        requires 0 <= hy - ly <= 2_000_000i64 && 0 <= dt < 0x1_0000_0000i64;
                } else {
                    assert(0 <= (ly - hy) * dt <= 2_000_000i64 * 0x1_0000_0000i64)
                        by (nonlinear_arith)
                        requires 0 <= ly - hy <= 2_000_000i64 && 0 <= dt < 0x1_0000_0000i64;
                }
            }
            if hy >= ly {
                ly + ((hy - ly) * dt) / dx
            } else {
                ly - ((ly - hy) * dt) / dx
            }
        }
    }
}

impl Clone for Curve {
    fn clone(&self) -> (r: Self)
        ensures
            r.xs@ == self.xs@,
            r.ys@ == self.ys@,
    {
        let xs = self.xs.clone();
        let ys = self.ys.clone();
        proof {
            assert(xs@ =~= self.xs@);
            assert(ys@ =~= self.ys@);
        }
        Curve { xs, ys }
    }
}

impl Default for Curve {
    /// An empty curve; it must be filled before it can be evaluated.
    fn default() -> (c: Curve)
        ensures
            c.xs@.len() == 0,
            c.ys@.len() == 0,
    {
        Curve { xs: Vec::new(), ys: Vec::new() }
    }
}

/// A piecewise-linear curve with color values.
#[derive(Debug)]
pub struct ColorCurve {
    pub xs: Vec<u32>,
    pub ys: Vec<RgbaColor>,
}

impl ColorCurve {
    pub open spec fn wf(self) -> bool {
        &&& self.xs@.len() == self.ys@.len()
        &&& self.xs@.len() >= 1
        &&& spec_xs_increasing(self.xs@)
    }

    pub fn new(xs: Vec<u32>, ys: Vec<RgbaColor>) -> (c: ColorCurve)
        ensures
            c.xs@ == xs@,
            c.ys@ == ys@,
    {
        ColorCurve { xs, ys }
    }

    /// A single-point curve: the constant color `c`.
    pub fn constant(c: RgbaColor) -> (r: ColorCurve)
        ensures
            r.xs@ == seq![0u32],
            r.ys@ == seq![c],
            r.wf(),
    {
        let mut xs: Vec<u32> = Vec::new();
        let mut ys: Vec<RgbaColor> = Vec::new();
        xs.push(0);
        ys.push(c);
        proof {
            assert(xs@ =~= seq![0u32]);
            assert(ys@ =~= seq![c]);
        }
        ColorCurve { xs, ys }
    }

    /// Evaluate the color curve at per-mille progress `t`.
    pub fn y(&self, t: u32) -> (r: RgbaColor)
        requires
            self.wf(),
        ensures
            r == spec_color_at(self.xs@, self.ys@, t),
    {
        let n = self.xs.len();
        if t < self.xs[0] {
            return self.ys[0];
        }
        let idx = curve_search(&self.xs, t);
        proof {
            lemma_curve_index_props(self.xs@, t);
        }
        if idx == n - 1 {
            self.ys[idx]
        } else {
            let lt = self.xs[idx];
            let ht = self.xs[idx + 1];
            let lo = self.ys[idx];
            let hi = self.ys[idx + 1];
            let dt = t - lt;
            let dx = ht - lt;
            RgbaColor {
                r: lerp_channel(lo.r, hi.r, dt, dx),
                g: lerp_channel(lo.g, hi.g, dt, dx),
                b: lerp_channel(lo.b, hi.b, dt, dx),
                a: lerp_channel(lo.a, hi.a, dt, dx),
            }
        }
    }
}

impl Clone for ColorCurve {
    fn clone(&self) -> (r: Self)
        ensures
            r.xs@ == self.xs@,
            r.ys@ == self.ys@,
    {
        let xs = self.xs.clone();
        let ys = self.ys.clone();
        proof {
            assert(xs@ =~= self.xs@);
            assert(ys@ =~= self.ys@);
        }
        ColorCurve { xs, ys }
    }
}

/// The index the evaluation of any curve with abscissas `xs` starts from.
fn curve_search(xs: &Vec<u32>, t: u32) -> (idx: usize)
    requires
        xs@.len() >= 1,
    ensures
        idx == spec_curve_index(xs@, t),
        idx < xs@.len(),
{
    let n = xs.len();
    let mut idx: usize = 0;
    let mut i: usize = 1;
    proof {
        assert(xs@.subrange(0, 1) =~= seq![xs@[0]]);
    }
    while i < n
        invariant
            1 <= i <= n,
            n == xs@.len(),
            idx == spec_curve_index(xs@.subrange(0, i as int), t),
            idx < i,
        decreases n - i,
    {
        let ghost pre = xs@.subrange(0, i as int);
        let ghost post = xs@.subrange(0, i as int + 1);
        proof {
            assert(post.drop_last() =~= pre);
            assert(post[post.len() - 1] == xs@[i as int]);
        }
        if xs[i] <= t {
            idx = i;
        }
        i = i + 1;
    }
    proof {
        assert(xs@.subrange(0, n as int) =~= xs@);
    }
    idx
}

/// Fixed-point interpolation from `ly` toward `hy`, `dt` of the way across
/// a span of `dx`, for spans of at most 1000.
pub fn lerp_fixed(ly: i64, hy: i64, dt: i64, dx: i64) -> (r: i64)
    requires
        0 < dx <= 1000,
        0 <= dt <= dx,
        -4_000_000_000_000_000 <= ly <= 4_000_000_000_000_000,
        -4_000_000_000_000_000 <= hy <= 4_000_000_000_000_000,
    ensures
        r == spec_lerp(ly as int, hy as int, dt as int, dx as int),
        ly <= hy ==> ly <= r <= hy,
        hy < ly ==> hy <= r <= ly,
{
    proof {
        lemma_lerp_between(ly as int, hy as int, dt as int, dx as int);
        if hy >= ly {
            assert(0 <= (hy - ly) * dt <= 8_000_000_000_000_000i64 * 1000) by (nonlinear_arith)
                requires 0 <= hy - ly <= 8_000_000_000_000_000i64 && 0 <= dt <= 1000;
        } else {
            assert(0 <= (ly - hy) * dt <= 8_000_000_000_000_000i64 * 1000) by (nonlinear_arith)
                requires 0 <= ly - hy <= 8_000_000_000_000_000i64 && 0 <= dt <= 1000;
        }
    }
    if hy >= ly {
        ly + ((hy - ly) * dt) / dx
    } else {
        ly - ((ly - hy) * dt) / dx
    }
}

/// One color channel interpolated `dt` of the way across a span of `dx`.
fn lerp_channel(ly: u8, hy: u8, dt: u32, dx: u32) -> (r: u8)
    requires
        0 < dx,
        dt <= dx,
    ensures
        r == spec_lerp(ly as int, hy as int, dt as int, dx as int) as u8,
        r == spec_lerp(ly as int, hy as int, dt as int, dx as int),
{
    proof {
        lemma_lerp_between(ly as int, hy as int, dt as int, dx as int);
        if hy >= ly {
            assert(0 <= (hy - ly) as i64 * (dt as i64) <= 255i64 * 0x1_0000_0000i64)
                by (nonlinear_arith)
                requires 0 <= (hy - ly) as i64 <= 255i64 && 0 <= (dt as i64) < 0x1_0000_0000i64;
        } else {
            assert(0 <= (ly - hy) as i64 * (dt as i64) <= 255i64 * 0x1_0000_0000i64)
                by (nonlinear_arith)
                requires 0 <= (ly - hy) as i64 <= 255i64 && 0 <= (dt as i64) < 0x1_0000_0000i64;
        }
    }
    if hy >= ly {
        let d = (hy - ly) as i64;
        let v = (ly as i64) + (d * (dt as i64)) / (dx as i64);
        v as u8
    } else {
        let d = (ly - hy) as i64;
        let v = (ly as i64) - (d * (dt as i64)) / (dx as i64);
        v as u8
    }
}

} // verus!
