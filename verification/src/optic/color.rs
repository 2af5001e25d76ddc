//! Displayable light: three 8-bit channels with saturating arithmetic.
//!
//! A colour is both a quantity of light and a filter. As light, colours add,
//! clamping at the channel maximum. As a filter, a channel value `t` lets the
//! fraction `t / 255` of the light through.

use crate::error::RayTracingError;
use crate::scalar::Scalar;
use vstd::prelude::*;
use vstd::std_specs::ops::AddSpecImpl;
use vstd::std_specs::ops::MulSpecImpl;

verus! {

/// An RGB colour. Channels never wrap: sums clamp at the channel maximum.
#[derive(Clone, Copy, Debug, PartialEq, Eq, Structural)]
pub struct Color {
    pub r: u8,
    pub g: u8,
    pub b: u8,
}

/// The sum of two channels, clamped at 255.
pub open spec fn channel_sum(a: u8, b: u8) -> u8 {
    if a + b > 255 {
        255u8
    } else {
        (a + b) as u8
    }
}

/// The channel `a` seen through the filter `t`: the fraction `t / 255` of it,
/// rounded down.
pub open spec fn channel_product(a: u8, t: u8) -> u8 {
    ((a * t) / 255) as u8
}

fn multiply_channel(a: u8, t: u8) -> (p: u8)
    ensures
        p == channel_product(a, t),
{
    assert(0 <= a * t <= 255 * 255) by (nonlinear_arith)
        requires
            0 <= a <= 255,
            0 <= t <= 255,
    ;
    let wide: u32 = (a as u32) * (t as u32);
    (wide / 255) as u8
}

impl Color {
    pub fn new(r: u8, g: u8, b: u8) -> (c: Color)
        ensures
            c == (Color { r, g, b }),
    {
        Color { r, g, b }
    }

    /// No light at all.
    pub open spec fn spec_black() -> Color {
        Color { r: 0, g: 0, b: 0 }
    }

    /// Every channel at its maximum.
    pub open spec fn spec_white() -> Color {
        Color { r: 255, g: 255, b: 255 }
    }

    pub open spec fn spec_red() -> Color {
        Color { r: 255, g: 0, b: 0 }
    }

    pub open spec fn spec_green() -> Color {
        Color { r: 0, g: 255, b: 0 }
    }

    pub open spec fn spec_blue() -> Color {
        Color { r: 0, g: 0, b: 255 }
    }

    #[verifier::when_used_as_spec(spec_black)]
    pub fn black() -> (c: Color)
        ensures
            c == Color::spec_black(),
    {
        Color { r: 0, g: 0, b: 0 }
    }

    #[verifier::when_used_as_spec(spec_white)]
    pub fn white() -> (c: Color)
        ensures
            c == Color::spec_white(),
    {
        Color { r: 255, g: 255, b: 255 }
    }

    #[verifier::when_used_as_spec(spec_red)]
    pub fn red() -> (c: Color)
        ensures
            c == Color::spec_red(),
    {
        Color { r: 255, g: 0, b: 0 }
    }

    #[verifier::when_used_as_spec(spec_green)]
    pub fn green() -> (c: Color)
        ensures
            c == Color::spec_green(),
    {
        Color { r: 0, g: 255, b: 0 }
    }

    #[verifier::when_used_as_spec(spec_blue)]
    pub fn blue() -> (c: Color)
        ensures
            c == Color::spec_blue(),
    {
        Color { r: 0, g: 0, b: 255 }
    }

    /// Per-channel saturating sum: what `self + rhs` computes.
    pub open spec fn plus(self, rhs: Color) -> Color {
        Color {
            r: channel_sum(self.r, rhs.r),
            g: channel_sum(self.g, rhs.g),
            b: channel_sum(self.b, rhs.b),
        }
    }

    /// The light `self` seen through the filter `rhs`, channel by channel:
    /// what `self * rhs` computes.
    pub open spec fn times(self, rhs: Color) -> Color {
        Color {
            r: channel_product(self.r, rhs.r),
            g: channel_product(self.g, rhs.g),
            b: channel_product(self.b, rhs.b),
        }
    }

    /// Whether every channel of `self` is at most the same channel of `bound`.
    pub open spec fn dominated_by(self, bound: Color) -> bool {
        self.r <= bound.r && self.g <= bound.g && self.b <= bound.b
    }
}

impl core::ops::Add for Color {
    type Output = Color;

    fn add(self, rhs: Color) -> (sum: Color) {
        Color {
            r: self.r.saturating_add(rhs.r),
            g: self.g.saturating_add(rhs.g),
            b: self.b.saturating_add(rhs.b),
        }
    }
}

impl AddSpecImpl for Color {
    open spec fn obeys_add_spec() -> bool {
        true
    }

    open spec fn add_req(self, rhs: Color) -> bool {
        true
    }

    open spec fn add_spec(self, rhs: Color) -> Color {
        self.plus(rhs)
    }
}

impl core::ops::Mul for Color {
    type Output = Color;

    fn mul(self, rhs: Color) -> (product: Color) {
        Color {
            r: multiply_channel(self.r, rhs.r),
            g: multiply_channel(self.g, rhs.g),
            b: multiply_channel(self.b, rhs.b),
        }
    }
}

impl MulSpecImpl for Color {
    open spec fn obeys_mul_spec() -> bool {
        true
    }

    open spec fn mul_req(self, rhs: Color) -> bool {
        true
    }

    open spec fn mul_spec(self, rhs: Color) -> Color {
        self.times(rhs)
    }
}

/// The fraction of the incoming light that a diffuse surface sends back, for
/// each channel: three numbers in `[0, 1]`. No value of this type holds a
/// coefficient outside that interval.
#[derive(Clone, Copy, Debug)]
pub struct DiffusionCoefficient {
    dr: Scalar,
    dg: Scalar,
    db: Scalar,
}

/// Whether `x` is a number in `[0, 1]`.
pub open spec fn is_coefficient(x: Scalar) -> bool {
    x.within(Scalar::zero(), Scalar::one())
}

impl DiffusionCoefficient {
    /// Every channel is a number in `[0, 1]`. This holds of every value that
    /// a program has in hand.
    #[verifier::type_invariant]
    pub closed spec fn wf(self) -> bool {
        is_coefficient(self.dr) && is_coefficient(self.dg) && is_coefficient(self.db)
    }

    /// What [`DiffusionCoefficient::wf`] says, channel by channel.
    pub proof fn wf_is_by_channel(self)
        ensures
            self.wf() <==> is_coefficient(self.dr()) && is_coefficient(self.dg()) && is_coefficient(
                self.db(),
            ),
    {
    }

    /// The coefficient of the red channel.
    pub closed spec fn spec_dr(&self) -> Scalar {
        self.dr
    }

    /// The coefficient of the green channel.
    pub closed spec fn spec_dg(&self) -> Scalar {
        self.dg
    }

    /// The coefficient of the blue channel.
    pub closed spec fn spec_db(&self) -> Scalar {
        self.db
    }

    /// Takes three coefficients, and refuses them as soon as one lies outside
    /// `[0, 1]` or is no number.
    pub fn new(dr: Scalar, dg: Scalar, db: Scalar) -> (r: Result<
        DiffusionCoefficient,
        RayTracingError,
    >)
        ensures
            is_coefficient(dr) && is_coefficient(dg) && is_coefficient(db) <==> r is Ok,
            r matches Ok(d) ==> d.dr() == dr && d.dg() == dg && d.db() == db && d.wf(),
            r is Err ==> r == Err::<DiffusionCoefficient, RayTracingError>(
                RayTracingError::DiffusionCoefficientOOB(dr, dg, db),
            ),
    {
        if !dr.within(Scalar::zero(), Scalar::one()) || !dg.within(Scalar::zero(), Scalar::one())
            || !db.within(Scalar::zero(), Scalar::one()) {
            Err(RayTracingError::DiffusionCoefficientOOB(dr, dg, db))
        } else {
            Ok(DiffusionCoefficient { dr, dg, db })
        }
    }

    /// The coefficients of a surface that sends back all the light that falls
    /// on it: one for every channel.
    pub fn full() -> (d: DiffusionCoefficient)
        ensures
            d.dr() == Scalar::one(),
            d.dg() == Scalar::one(),
            d.db() == Scalar::one(),
            d.wf(),
    {
        DiffusionCoefficient { dr: Scalar::one(), dg: Scalar::one(), db: Scalar::one() }
    }

    /// The coefficient of the red channel, a number in `[0, 1]`.
    #[verifier::when_used_as_spec(spec_dr)]
    pub fn dr(&self) -> (coefficient: Scalar)
        ensures
            coefficient == self.spec_dr(),
            is_coefficient(coefficient),
    {
        proof {
            use_type_invariant(self);
        }
        self.dr
    }

    /// The coefficient of the green channel, a number in `[0, 1]`.
    #[verifier::when_used_as_spec(spec_dg)]
    pub fn dg(&self) -> (coefficient: Scalar)
        ensures
            coefficient == self.spec_dg(),
            is_coefficient(coefficient),
    {
        proof {
            use_type_invariant(self);
        }
        self.dg
    }

    /// The coefficient of the blue channel, a number in `[0, 1]`.
    #[verifier::when_used_as_spec(spec_db)]
    pub fn db(&self) -> (coefficient: Scalar)
        ensures
            coefficient == self.spec_db(),
            is_coefficient(coefficient),
    {
        proof {
            use_type_invariant(self);
        }
        self.db
    }
}

/// One of the three channels of a colour: red for 0, green for 1, blue for
/// anything else.
pub open spec fn channel(color: Color, index: int) -> u8 {
    if index == 0 {
        color.r
    } else if index == 1 {
        color.g
    } else {
        color.b
    }
}

/// The light of many samples, summed: for each channel a sum so wide that it
/// holds the light of more samples than can be counted, where a colour would
/// stop at 255.
#[derive(Clone, Copy, Debug, PartialEq, Eq, Structural)]
pub struct LightSum {
    pub r: u128,
    pub g: u128,
    pub b: u128,
}

/// The sum `a + b`, as far as a wide sum reaches.
pub open spec fn wide_sum(a: u128, b: u8) -> u128 {
    if a + b > u128::MAX {
        u128::MAX
    } else {
        (a + b) as u128
    }
}

/// The share `a / n` of a wide sum, as far as a channel reaches; 0 when there
/// is no part.
pub open spec fn wide_share(a: u128, n: usize) -> u8 {
    if n == 0 {
        0u8
    } else if a as int / n as int > 255 {
        255u8
    } else {
        (a as int / n as int) as u8
    }
}

fn share_wide_sum(a: u128, n: usize) -> (p: u8)
    ensures
        p == wide_share(a, n),
{
    if n == 0 {
        0
    } else {
        let part: u128 = a / (n as u128);
        if part > 255 {
            255
        } else {
            part as u8
        }
    }
}

impl LightSum {
    /// The sum of no light.
    pub open spec fn spec_dark() -> LightSum {
        LightSum { r: 0, g: 0, b: 0 }
    }

    #[verifier::when_used_as_spec(spec_dark)]
    pub fn dark() -> (sum: LightSum)
        ensures
            sum == LightSum::spec_dark(),
    {
        LightSum { r: 0, g: 0, b: 0 }
    }

    /// Whether the sum can be that of `count` colours: no channel exceeds
    /// `255 * count`.
    pub open spec fn sums_at_most(self, count: int) -> bool {
        self.r <= 255 * count && self.g <= 255 * count && self.b <= 255 * count
    }

    /// The sum with `light` added, channel by channel.
    pub open spec fn spec_with(self, light: Color) -> LightSum {
        LightSum {
            r: wide_sum(self.r, light.r),
            g: wide_sum(self.g, light.g),
            b: wide_sum(self.b, light.b),
        }
    }

    /// Adds `light` to the sum.
    #[verifier::when_used_as_spec(spec_with)]
    pub fn with(self, light: Color) -> (sum: LightSum)
        ensures
            sum == self.spec_with(light),
    {
        LightSum {
            r: self.r.saturating_add(light.r as u128),
            g: self.g.saturating_add(light.g as u128),
            b: self.b.saturating_add(light.b as u128),
        }
    }

    /// The mean of the colours summed, where there are `parts` of them:
    /// each channel divided by `parts`, rounded down.
    pub open spec fn spec_mean(self, parts: usize) -> Color {
        Color {
            r: wide_share(self.r, parts),
            g: wide_share(self.g, parts),
            b: wide_share(self.b, parts),
        }
    }

    /// Divides every channel by `parts`, rounding down. With no part there is
    /// nothing to share and the result is black.
    #[verifier::when_used_as_spec(spec_mean)]
    pub fn mean(self, parts: usize) -> (c: Color)
        ensures
            c == self.spec_mean(parts),
    {
        Color {
            r: share_wide_sum(self.r, parts),
            g: share_wide_sum(self.g, parts),
            b: share_wide_sum(self.b, parts),
        }
    }
}

/// A wide sum never reaches the end of its range: the sum of as many colours
/// as can be counted, with one more added, is the exact sum in every channel,
/// and its mean over at least as many parts is the exact quotient.
pub proof fn wide_sums_are_exact(sum: LightSum, light: Color, count: usize, parts: usize)
    requires
        sum.sums_at_most(count as int),
        count < parts,
    ensures
        sum.with(light).r == sum.r + light.r,
        sum.with(light).g == sum.g + light.g,
        sum.with(light).b == sum.b + light.b,
        sum.with(light).sums_at_most(count + 1),
        sum.with(light).mean(parts).r == (sum.r + light.r) / (parts as int),
        sum.with(light).mean(parts).g == (sum.g + light.g) / (parts as int),
        sum.with(light).mean(parts).b == (sum.b + light.b) / (parts as int),
        sum.mean(parts).r == (sum.r as int) / (parts as int),
        sum.mean(parts).g == (sum.g as int) / (parts as int),
        sum.mean(parts).b == (sum.b as int) / (parts as int),
{
    share_is_exact(sum.r as int, count as int, parts as int);
    share_is_exact(sum.g as int, count as int, parts as int);
    share_is_exact(sum.b as int, count as int, parts as int);
    share_is_exact(sum.r + light.r, count + 1, parts as int);
    share_is_exact(sum.g + light.g, count + 1, parts as int);
    share_is_exact(sum.b + light.b, count + 1, parts as int);
}

proof fn share_is_exact(sum: int, count: int, parts: int)
    requires
        0 <= sum <= 255 * count,
        0 <= count <= parts,
        0 < parts,
    ensures
        0 <= sum / parts <= 255,
{
    assert(sum <= 255 * parts) by (nonlinear_arith)
        requires
            sum <= 255 * count,
            count <= parts,
    ;
    assert(0 <= sum / parts <= 255) by (nonlinear_arith)
        requires
            0 <= sum <= 255 * parts,
            0 < parts,
    ;
}

/// Adding light never wraps: each channel of a sum is the exact sum where that
/// fits in 8 bits and 255 where it does not, so a sum is never darker than
/// either term.
pub proof fn sum_saturates(a: Color, b: Color)
    ensures
        a.plus(b).r == if a.r + b.r <= 255 { a.r + b.r } else { 255 },
        a.plus(b).g == if a.g + b.g <= 255 { a.g + b.g } else { 255 },
        a.plus(b).b == if a.b + b.b <= 255 { a.b + b.b } else { 255 },
        a.dominated_by(a.plus(b)),
        b.dominated_by(a.plus(b)),
{
}

/// Saturating addition is commutative and associative, and black is its
/// neutral element: the order in which light is gathered does not matter.
pub proof fn sum_is_order_free(a: Color, b: Color, c: Color)
    ensures
        a.plus(b) == b.plus(a),
        a.plus(b).plus(c) == a.plus(b.plus(c)),
        a.plus(Color::black()) == a,
        Color::black().plus(a) == a,
{
}

proof fn channel_product_facts(a: u8, t: u8)
    ensures
        channel_product(a, t) == channel_product(t, a),
        channel_product(a, t) <= a,
        channel_product(a, t) <= t,
        channel_product(a, 255) == a,
        channel_product(a, 0) == 0,
{
    assert(a * t == t * a) by (nonlinear_arith);
    assert(a * t <= a * 255 && a * t <= 255 * t && a * t >= 0 && a * 0 == 0) by (nonlinear_arith)
        requires
            0 <= a <= 255,
            0 <= t <= 255,
    ;
    assert((a * 255) / 255 == a && (255 * t) / 255 == t) by (nonlinear_arith);
    assert((a * t) / 255 <= (a * 255) / 255 && (a * t) / 255 <= (255 * t) / 255 && (a * t) / 255
        >= 0) by (nonlinear_arith)
        requires
            0 <= a * t <= a * 255,
            a * t <= 255 * t,
    ;
}

/// A filter only ever removes light: light seen through a filter is dominated
/// by the light and by the filter, the white filter changes nothing, and the
/// black filter lets nothing through. Filtering is commutative.
pub proof fn filter_only_darkens(light: Color, filter: Color)
    ensures
        light.times(filter) == filter.times(light),
        light.times(filter).dominated_by(light),
        light.times(filter).dominated_by(filter),
        light.times(Color::white()) == light,
        light.times(Color::black()) == Color::black(),
{
    channel_product_facts(light.r, filter.r);
    channel_product_facts(light.g, filter.g);
    channel_product_facts(light.b, filter.b);
}

} // verus!
