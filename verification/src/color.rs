//! Four-channel fixed-point colours and their arithmetic.
use crate::NearestOption;
use vstd::prelude::*;

verus! {

/// The value 1.0 in the fixed-point format used for channels and scalars:
/// sixteen fractional bits.
pub const ONE: i32 = 65536;

/// True when `x` can be stored in an `i32`.
pub open spec fn fits_i32(x: int) -> bool {
    i32::MIN <= x <= i32::MAX
}

/// The quotient `n / d` rounded toward zero, for a positive divisor.
pub open spec fn quotient(n: int, d: int) -> int
    recommends
        d > 0,
{
    if n >= 0 {
        n / d
    } else {
        -((-n) / d)
    }
}

/// The product of two fixed-point numbers, rounded toward zero.
pub open spec fn fixed_mul(x: int, y: int) -> int {
    quotient(x * y, ONE as int)
}

/// The ratio of two fixed-point numbers, rounded toward zero.
pub open spec fn fixed_div(x: int, y: int) -> int
    recommends
        y != 0,
{
    if y > 0 {
        quotient(x * ONE, y)
    } else {
        quotient(-(x * ONE), -y)
    }
}

/// `from + (to - from) * amt`, with the product taken in fixed point.
pub open spec fn lerp_channel(from: int, to: int, amt: int) -> int {
    from + fixed_mul(to - from, amt)
}

/// A colour channel multiplied by alpha and scaled to eight bits: the
/// integer nearest to `c * a * 255` (ties away from zero), clamped to
/// `0..=255`. Both arguments are fixed-point numbers.
pub open spec fn premultiplied8(c: int, a: int) -> int {
    let scaled = c * a * 255;
    if scaled <= 0 {
        0
    } else {
        let nearest = (2 * scaled + 0x1_0000_0000) / 0x2_0000_0000;
        if nearest >= 255 {
            255
        } else {
            nearest
        }
    }
}

/// A colour with red, green, blue and alpha channels.
///
/// Each channel is a fixed-point number with sixteen fractional bits, so
/// `ONE` stands for full intensity. Channels are nominally between zero and
/// `ONE` but arithmetic does not clamp them.
#[derive(Clone, Copy, Debug, PartialEq, Eq, Structural)]
pub struct Color {
    pub r: i32,
    pub g: i32,
    pub b: i32,
    pub a: i32,
}

/// A colour reduced to three eight-bit channels, alpha already applied.
#[derive(Clone, Copy, Debug, PartialEq, Eq, Structural)]
pub struct RGBColorU8 {
    pub r: u8,
    pub g: u8,
    pub b: u8,
}

impl RGBColorU8 {
    /// The channels packed as `0xRRGGBBFF`.
    pub fn u32(&self) -> (x: u32)
        ensures
            x == self.r * 0x100_0000 + self.g * 0x1_0000 + self.b * 0x100 + 255,
    {
        let r: u32 = self.r as u32;
        let g: u32 = self.g as u32;
        let b: u32 = self.b as u32;
        let mut x: u32 = 0;
        x |= r << 24;
        x |= g << 16;
        x |= b << 8;
        x |= 255;
        assert(((((0u32 | (r << 24)) | (g << 16)) | (b << 8)) | 255) == r * 0x100_0000 + g * 0x1_0000
            + b * 0x100 + 255) by (bit_vector)
            requires
                r < 256,
                g < 256,
                b < 256,
        ;
        x
    }
}

proof fn lemma_product_bound(x: int, y: int, m: int, n: int)
    requires
        -m <= x <= m,
        -n <= y <= n,
    ensures
        -(m * n) <= x * y <= m * n,
{
    assert(-(m * n) <= x * y <= m * n) by (nonlinear_arith)
        requires
            -m <= x <= m,
            -n <= y <= n,
    ;
}

/// With a weight between zero and `ONE`, an interpolated channel lies
/// between its two end points, so it always fits.
pub proof fn lemma_lerp_channel_between(from: int, to: int, amt: int)
    requires
        0 <= amt <= ONE,
    ensures
        from <= to ==> from <= lerp_channel(from, to, amt) <= to,
        to <= from ==> to <= lerp_channel(from, to, amt) <= from,
        amt == ONE ==> lerp_channel(from, to, amt) == to,
        amt == 0 ==> lerp_channel(from, to, amt) == from,
        from == to ==> lerp_channel(from, to, amt) == from,
{
    let d = to - from;
    if d >= 0 {
        assert(0 <= d * amt <= d * 65536) by (nonlinear_arith)
            requires
                d >= 0,
                0 <= amt <= 65536,
        ;
        assert(amt == 65536 ==> d * amt == d * 65536);
        assert(amt == 0 ==> d * amt == 0) by (nonlinear_arith);
    } else {
        let e = -d;
        assert(0 <= e * amt <= e * 65536) by (nonlinear_arith)
            requires
                e >= 0,
                0 <= amt <= 65536,
        ;
        assert(d * amt == -(e * amt)) by (nonlinear_arith)
            requires
                e == -d,
        ;
        assert(amt == 0 ==> e * amt == 0) by (nonlinear_arith);
    }
}

/// `n / d` rounded toward zero.
pub(crate) fn divide_toward_zero(n: i128, d: i128) -> (q: i128)
    requires
        d > 0,
        n > i128::MIN,
    ensures
        q == quotient(n as int, d as int),
{
    if n >= 0 {
        n / d
    } else {
        -((-n) / d)
    }
}

/// The square of a difference of two channels.
fn square(x: i64) -> (s: u128)
    requires
        -0x1_0000_0000 <= x <= 0x1_0000_0000,
    ensures
        s == x * x,
        s <= 0x1_0000_0000_0000_0000,
{
    proof {
        lemma_product_bound(x as int, x as int, 0x1_0000_0000, 0x1_0000_0000);
        assert(x * x >= 0) by (nonlinear_arith);
    }
    let wide: i128 = x as i128;
    (wide * wide) as u128
}

/// The exact product of two channels, in units of 2^-32.
fn product(x: i64, y: i64) -> (p: i128)
    requires
        -0x1_0000_0000 <= x <= 0x1_0000_0000,
        -0x1_0000_0000 <= y <= 0x1_0000_0000,
    ensures
        p == x * y,
        -0x1_0000_0000_0000_0000 <= p <= 0x1_0000_0000_0000_0000,
{
    proof {
        lemma_product_bound(x as int, y as int, 0x1_0000_0000, 0x1_0000_0000);
    }
    (x as i128) * (y as i128)
}

/// One channel of `Color::lerp`.
fn lerp_one(from: i32, to: i32, amt: i32) -> (out: i32)
    requires
        fits_i32(lerp_channel(from as int, to as int, amt as int)),
    ensures
        out == lerp_channel(from as int, to as int, amt as int),
{
    let diff: i64 = to as i64 - from as i64;
    let scaled: i128 = product(diff, amt as i64);
    let step: i128 = divide_toward_zero(scaled, 65536);
    (from as i128 + step) as i32
}

/// One channel of the conversion to eight bits.
fn premultiply_one(c: i32, a: i32) -> (out: u8)
    ensures
        out == premultiplied8(c as int, a as int),
{
    let prod: i128 = product(c as i64, a as i64);
    assert(prod * 255 == c * a * 255) by (nonlinear_arith)
        requires
            prod == c * a,
    ;
    let scaled: i128 = prod * 255;
    if scaled <= 0 {
        0
    } else {
        let nearest: i128 = (2 * scaled + 0x1_0000_0000) / 0x2_0000_0000;
        if nearest >= 255 {
            255
        } else {
            nearest as u8
        }
    }
}

impl Color {
    /// Opaque black as a specification value.
    pub open spec fn spec_black() -> Color {
        Color { r: 0, g: 0, b: 0, a: 65536 }
    }

    /// Opaque white as a specification value.
    pub open spec fn spec_white() -> Color {
        Color { r: 65536, g: 65536, b: 65536, a: 65536 }
    }

    /// Fully transparent black as a specification value.
    pub open spec fn spec_transparent() -> Color {
        Color { r: 0, g: 0, b: 0, a: 0 }
    }

    /// Opaque black.
    #[verifier::when_used_as_spec(spec_black)]
    pub fn black() -> (out: Color)
        ensures
            out == Color::spec_black(),
    {
        Color { r: 0, g: 0, b: 0, a: 65536 }
    }

    /// Opaque white.
    #[verifier::when_used_as_spec(spec_white)]
    pub fn white() -> (out: Color)
        ensures
            out == Color::spec_white(),
    {
        Color { r: 65536, g: 65536, b: 65536, a: 65536 }
    }

    /// Fully transparent black.
    #[verifier::when_used_as_spec(spec_transparent)]
    pub fn transparent() -> (out: Color)
        ensures
            out == Color::spec_transparent(),
    {
        Color { r: 0, g: 0, b: 0, a: 0 }
    }

    /// The sum of the squares of the four channels, in units of 2^-32.
    pub open spec fn spec_mag2(self) -> int {
        self.r * self.r + self.g * self.g + self.b * self.b + self.a * self.a
    }

    /// The squared Euclidean distance over all four channels, in units of
    /// 2^-32.
    pub open spec fn spec_distance2(self, other: Color) -> int {
        (self.r - other.r) * (self.r - other.r) + (self.g - other.g) * (self.g - other.g) + (self.b
            - other.b) * (self.b - other.b) + (self.a - other.a) * (self.a - other.a)
    }

    /// The sum of the channel-wise products, in units of 2^-32.
    pub open spec fn spec_dot_product(self, other: Color) -> int {
        self.r * other.r + self.g * other.g + self.b * other.b + self.a * other.a
    }

    /// The colour a fixed-point fraction `amt` of the way from `self` to
    /// `other`.
    pub open spec fn spec_lerp(self, other: Color, amt: int) -> (int, int, int, int) {
        (
            lerp_channel(self.r as int, other.r as int, amt),
            lerp_channel(self.g as int, other.g as int, amt),
            lerp_channel(self.b as int, other.b as int, amt),
            lerp_channel(self.a as int, other.a as int, amt),
        )
    }

    /// The cross product of `p1 - self` and `p2 - self` over red, green and
    /// blue, each component rounded toward zero to a fixed-point number.
    pub open spec fn spec_cross_product(self, p1: Color, p2: Color) -> (int, int, int) {
        (
            quotient(
                (p1.g - self.g) * (p2.b - self.b) - (p1.b - self.b) * (p2.g - self.g),
                ONE as int,
            ),
            quotient(
                (p1.b - self.b) * (p2.r - self.r) - (p1.r - self.r) * (p2.b - self.b),
                ONE as int,
            ),
            quotient(
                (p1.r - self.r) * (p2.g - self.g) - (p1.g - self.g) * (p2.r - self.r),
                ONE as int,
            ),
        )
    }

    /// The colour as eight-bit channels, each multiplied by alpha.
    pub open spec fn spec_rgb8(self) -> RGBColorU8 {
        RGBColorU8 {
            r: premultiplied8(self.r as int, self.a as int) as u8,
            g: premultiplied8(self.g as int, self.a as int) as u8,
            b: premultiplied8(self.b as int, self.a as int) as u8,
        }
    }

    /// True when `val` is strictly nearer to `b` than to `a`.
    pub open spec fn nearer_to_second(val: Color, a: Color, b: Color) -> bool {
        val.spec_distance2(a) > val.spec_distance2(b)
    }

    /// The squared magnitude over all four channels.
    pub fn mag2(&self) -> (m: u128)
        ensures
            m == self.spec_mag2(),
    {
        square(self.r as i64) + square(self.g as i64) + square(self.b as i64) + square(
            self.a as i64,
        )
    }

    /// The squared distance to `other`, alpha included.
    pub fn distance2(&self, other: &Self) -> (d: u128)
        ensures
            d == self.spec_distance2(*other),
    {
        square(self.r as i64 - other.r as i64) + square(self.g as i64 - other.g as i64) + square(
            self.b as i64 - other.b as i64,
        ) + square(self.a as i64 - other.a as i64)
    }

    /// Linear interpolation from `self` toward `other` by the fixed-point
    /// weight `amt`. The result must be representable; it always is for a
    /// weight between zero and `ONE`.
    pub fn lerp(self, other: Self, amt: i32) -> (out: Color)
        requires
            fits_i32(self.spec_lerp(other, amt as int).0),
            fits_i32(self.spec_lerp(other, amt as int).1),
            fits_i32(self.spec_lerp(other, amt as int).2),
            fits_i32(self.spec_lerp(other, amt as int).3),
        ensures
            (out.r as int, out.g as int, out.b as int, out.a as int) == self.spec_lerp(
                other,
                amt as int,
            ),
    {
        Color {
            r: lerp_one(self.r, other.r, amt),
            g: lerp_one(self.g, other.g, amt),
            b: lerp_one(self.b, other.b, amt),
            a: lerp_one(self.a, other.a, amt),
        }
    }

    /// The cross product of the directions from `self` to `p1` and to `p2`,
    /// taken over red, green and blue; alpha of the result is zero.
    pub fn cross_product(&self, p1: &Self, p2: &Self) -> (out: Color)
        requires
            fits_i32(self.spec_cross_product(*p1, *p2).0),
            fits_i32(self.spec_cross_product(*p1, *p2).1),
            fits_i32(self.spec_cross_product(*p1, *p2).2),
        ensures
            (out.r as int, out.g as int, out.b as int) == self.spec_cross_product(*p1, *p2),
            out.a == 0,
    {
        let r1: i64 = p1.r as i64 - self.r as i64;
        let g1: i64 = p1.g as i64 - self.g as i64;
        let b1: i64 = p1.b as i64 - self.b as i64;
        let r2: i64 = p2.r as i64 - self.r as i64;
        let g2: i64 = p2.g as i64 - self.g as i64;
        let b2: i64 = p2.b as i64 - self.b as i64;
        let r: i128 = divide_toward_zero(product(g1, b2) - product(b1, g2), 65536);
        let g: i128 = divide_toward_zero(product(b1, r2) - product(r1, b2), 65536);
        let b: i128 = divide_toward_zero(product(r1, g2) - product(g1, r2), 65536);
        Color { r: r as i32, g: g as i32, b: b as i32, a: 0 }
    }

    /// Tells which of `a` and `b` the colour `val` is nearer to; a tie goes
    /// to `a`.
    pub fn compare_nearest(val: &Color, a: &Color, b: &Color) -> (out: NearestOption)
        ensures
            out == if Color::nearer_to_second(*val, *a, *b) {
                NearestOption::B
            } else {
                NearestOption::A
            },
    {
        let dist_a = val.distance2(a);
        let dist_b = val.distance2(b);
        if dist_a > dist_b {
            NearestOption::B
        } else {
            NearestOption::A
        }
    }

    /// The dot product over all four channels.
    pub fn dot_product(&self, other: &Self) -> (d: i128)
        ensures
            d == self.spec_dot_product(*other),
    {
        product(self.r as i64, other.r as i64) + product(self.g as i64, other.g as i64) + product(
            self.b as i64,
            other.b as i64,
        ) + product(self.a as i64, other.a as i64)
    }
}


/// One channel of a colour multiplied by a fixed-point scalar.
fn scale_one(c: i32, k: i32) -> (out: i32)
    requires
        fits_i32(fixed_mul(c as int, k as int)),
    ensures
        out == fixed_mul(c as int, k as int),
{
    divide_toward_zero(product(c as i64, k as i64), 65536) as i32
}

/// One channel of a colour divided by a fixed-point scalar.
fn divide_one(c: i32, k: i32) -> (out: i32)
    requires
        k != 0,
        fits_i32(fixed_div(c as int, k as int)),
    ensures
        out == fixed_div(c as int, k as int),
{
    let wide: i128 = (c as i128) * 65536;
    if k > 0 {
        divide_toward_zero(wide, k as i128) as i32
    } else {
        divide_toward_zero(-wide, -(k as i128)) as i32
    }
}

impl core::ops::Add<Color> for Color {
    type Output = Color;

    /// Channel-wise sum.
    fn add(self, rhs: Color) -> (out: Color) {
        Color { r: self.r + rhs.r, g: self.g + rhs.g, b: self.b + rhs.b, a: self.a + rhs.a }
    }
}

impl vstd::std_specs::ops::AddSpecImpl<Color> for Color {
    open spec fn obeys_add_spec() -> bool {
        true
    }

    open spec fn add_req(self, rhs: Color) -> bool {
        &&& fits_i32(self.r + rhs.r)
        &&& fits_i32(self.g + rhs.g)
        &&& fits_i32(self.b + rhs.b)
        &&& fits_i32(self.a + rhs.a)
    }

    open spec fn add_spec(self, rhs: Color) -> Color {
        Color {
            r: (self.r + rhs.r) as i32,
            g: (self.g + rhs.g) as i32,
            b: (self.b + rhs.b) as i32,
            a: (self.a + rhs.a) as i32,
        }
    }
}

impl core::ops::Sub<Color> for Color {
    type Output = Color;

    /// Channel-wise difference.
    fn sub(self, rhs: Color) -> (out: Color) {
        Color { r: self.r - rhs.r, g: self.g - rhs.g, b: self.b - rhs.b, a: self.a - rhs.a }
    }
}

impl vstd::std_specs::ops::SubSpecImpl<Color> for Color {
    open spec fn obeys_sub_spec() -> bool {
        true
    }

    open spec fn sub_req(self, rhs: Color) -> bool {
        &&& fits_i32(self.r - rhs.r)
        &&& fits_i32(self.g - rhs.g)
        &&& fits_i32(self.b - rhs.b)
        &&& fits_i32(self.a - rhs.a)
    }

    open spec fn sub_spec(self, rhs: Color) -> Color {
        Color {
            r: (self.r - rhs.r) as i32,
            g: (self.g - rhs.g) as i32,
            b: (self.b - rhs.b) as i32,
            a: (self.a - rhs.a) as i32,
        }
    }
}

impl core::ops::Mul<i32> for Color {
    type Output = Color;

    /// Every channel multiplied by the fixed-point scalar `rhs`.
    fn mul(self, rhs: i32) -> (out: Color) {
        Color {
            r: scale_one(self.r, rhs),
            g: scale_one(self.g, rhs),
            b: scale_one(self.b, rhs),
            a: scale_one(self.a, rhs),
        }
    }
}

impl vstd::std_specs::ops::MulSpecImpl<i32> for Color {
    open spec fn obeys_mul_spec() -> bool {
        true
    }

    open spec fn mul_req(self, rhs: i32) -> bool {
        &&& fits_i32(fixed_mul(self.r as int, rhs as int))
        &&& fits_i32(fixed_mul(self.g as int, rhs as int))
        &&& fits_i32(fixed_mul(self.b as int, rhs as int))
        &&& fits_i32(fixed_mul(self.a as int, rhs as int))
    }

    open spec fn mul_spec(self, rhs: i32) -> Color {
        Color {
            r: fixed_mul(self.r as int, rhs as int) as i32,
            g: fixed_mul(self.g as int, rhs as int) as i32,
            b: fixed_mul(self.b as int, rhs as int) as i32,
            a: fixed_mul(self.a as int, rhs as int) as i32,
        }
    }
}

impl core::ops::Div<i32> for Color {
    type Output = Color;

    /// Every channel divided by the fixed-point scalar `rhs`.
    fn div(self, rhs: i32) -> (out: Color) {
        Color {
            r: divide_one(self.r, rhs),
            g: divide_one(self.g, rhs),
            b: divide_one(self.b, rhs),
            a: divide_one(self.a, rhs),
        }
    }
}

impl vstd::std_specs::ops::DivSpecImpl<i32> for Color {
    open spec fn obeys_div_spec() -> bool {
        true
    }

    open spec fn div_req(self, rhs: i32) -> bool {
        &&& rhs != 0
        &&& fits_i32(fixed_div(self.r as int, rhs as int))
        &&& fits_i32(fixed_div(self.g as int, rhs as int))
        &&& fits_i32(fixed_div(self.b as int, rhs as int))
        &&& fits_i32(fixed_div(self.a as int, rhs as int))
    }

    open spec fn div_spec(self, rhs: i32) -> Color {
        Color {
            r: fixed_div(self.r as int, rhs as int) as i32,
            g: fixed_div(self.g as int, rhs as int) as i32,
            b: fixed_div(self.b as int, rhs as int) as i32,
            a: fixed_div(self.a as int, rhs as int) as i32,
        }
    }
}

impl core::convert::From<Color> for RGBColorU8 {
    /// Multiplies each colour channel by alpha and rounds it to eight bits.
    fn from(color: Color) -> (out: RGBColorU8) {
        RGBColorU8 {
            r: premultiply_one(color.r, color.a),
            g: premultiply_one(color.g, color.a),
            b: premultiply_one(color.b, color.a),
        }
    }
}

impl vstd::std_specs::convert::FromSpecImpl<Color> for RGBColorU8 {
    open spec fn obeys_from_spec() -> bool {
        true
    }

    open spec fn from_spec(color: Color) -> RGBColorU8 {
        color.spec_rgb8()
    }
}

/// The squared distance of a colour to itself is zero.
pub proof fn lemma_distance2_self(x: Color)
    ensures
        x.spec_distance2(x) == 0,
{
}

/// The squared distance does not depend on the order of its arguments.
pub proof fn lemma_distance2_symmetric(x: Color, y: Color)
    ensures
        x.spec_distance2(y) == y.spec_distance2(x),
{
    assert((x.r - y.r) * (x.r - y.r) == (y.r - x.r) * (y.r - x.r)) by (nonlinear_arith);
    assert((x.g - y.g) * (x.g - y.g) == (y.g - x.g) * (y.g - x.g)) by (nonlinear_arith);
    assert((x.b - y.b) * (x.b - y.b) == (y.b - x.b) * (y.b - x.b)) by (nonlinear_arith);
    assert((x.a - y.a) * (x.a - y.a) == (y.a - x.a) * (y.a - x.a)) by (nonlinear_arith);
}

} // verus!
