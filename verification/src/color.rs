//! From accumulated radiance to the three bytes of a pixel.

use crate::scalar::Scalar;
use crate::vec3::{Color, Vec3};
use vstd::arithmetic::power2::{lemma2_to64, lemma2_to64_rest, lemma_pow2_unfold, pow2};
use vstd::prelude::*;

verus! {

/// Bit pattern of `0.999`, the largest value of a channel before it is scaled.
pub const CHANNEL_MAX_BITS: u64 = 0x3fef_f7ce_d916_872b;

/// Two to the power 52: the weight of the hidden bit of a significand.
pub const HIDDEN_BIT: u64 = 0x10_0000_0000_0000;

/// A channel without a NaN: zero in place of a NaN, else the channel itself.
pub open spec fn cleaned(c: Scalar) -> Scalar {
    if c.nan() {
        Scalar { bits: 0 }
    } else {
        c
    }
}

/// The byte of a channel: the channel is held between 0 and 0.999, multiplied by
/// 256, and cut down to its whole part. A NaN gives 0.
///
/// A number with exponent field `e` and fraction field `f` has the value
/// `(2^52 + f) * 2^(e - 1075)`, so 256 times it has the whole part
/// `(2^52 + f) / 2^(1067 - e)`, which is 0 for `e < 1015`.
pub open spec fn channel_byte(v: Scalar) -> int {
    if v.nan() {
        0
    } else {
        let c = v.clamped(Scalar { bits: 0 }, Scalar { bits: CHANNEL_MAX_BITS });
        let e = c.magnitude() / (HIDDEN_BIT as int);
        let f = c.magnitude() % (HIDDEN_BIT as int);
        if e < 1015 {
            0
        } else {
            (HIDDEN_BIT + f) / (pow2((1067 - e) as nat) as int)
        }
    }
}

/// Replaces a NaN by zero.
pub fn zero_nan(c: Scalar) -> (out: Scalar)
    ensures
        out == cleaned(c),
{
    if c.is_nan() {
        Scalar::zero()
    } else {
        c
    }
}

/// The colour with every NaN channel replaced by zero.
pub fn sanitize(pixel_color: Color) -> (out: Color)
    ensures
        out == Vec3(cleaned(pixel_color.0), cleaned(pixel_color.1), cleaned(pixel_color.2)),
{
    Vec3::new(zero_nan(pixel_color.x()), zero_nan(pixel_color.y()), zero_nan(pixel_color.z()))
}

/// Two to the power `n`.
fn power_of_two(n: u64) -> (d: u64)
    requires
        n <= 52,
    ensures
        d == pow2(n as nat),
        1 <= d <= HIDDEN_BIT,
{
    let mut d: u64 = 1;
    let mut s: u64 = 0;
    proof {
        lemma2_to64();
        lemma2_to64_rest();
    }
    while s < n
        invariant
            0 <= s <= n <= 52,
            d == pow2(s as nat),
            1 <= d <= pow2(52),
            pow2(52) == HIDDEN_BIT,
        decreases n - s,
    {
        proof {
            lemma_pow2_unfold((s + 1) as nat);
            if s + 1 < 52 {
                vstd::arithmetic::power2::lemma_pow2_strictly_increases((s + 1) as nat, 52);
            }
        }
        d = d * 2;
        s += 1;
    }
    d
}

/// The byte of a gamma-corrected channel.
pub fn quantize(v: Scalar) -> (byte: i32)
    ensures
        byte == channel_byte(v),
        0 <= byte <= 255,
{
    if v.is_nan() {
        return 0;
    }
    let c = v.clamp(Scalar::zero(), Scalar { bits: CHANNEL_MAX_BITS });
    let m: u64 = c.abs().to_bits();
    assert(m == c.magnitude());
    assert(m <= CHANNEL_MAX_BITS);
    let e: u64 = m / HIDDEN_BIT;
    let f: u64 = m % HIDDEN_BIT;
    if e < 1015 {
        return 0;
    }
    assert(e <= 1022);
    let d = power_of_two(1067 - e);
    let whole = (HIDDEN_BIT + f) / d;
    proof {
        lemma2_to64();
        lemma2_to64_rest();
        lemma_pow2_unfold(45);
        if 1067 - e > 45 {
            vstd::arithmetic::power2::lemma_pow2_strictly_increases(45, (1067 - e) as nat);
        }
        assert(d >= pow2(45));
        assert(pow2(45) == 0x2000_0000_0000);
        assert(HIDDEN_BIT + f < 0x20_0000_0000_0000);
        let num = (HIDDEN_BIT + f) as int;
        let den = d as int;
        assert(whole == num / den);
        assert(num / den < 256) by (nonlinear_arith)
            requires
                den >= 0x2000_0000_0000,
                0 <= num < 0x20_0000_0000_0000,
        ;
    }
    whole as i32
}

/// The three bytes of a pixel whose channels are gamma-corrected already.
pub fn encode(pixel_color: Color) -> (rgb: (i32, i32, i32))
    ensures
        rgb.0 == channel_byte(pixel_color.0),
        rgb.1 == channel_byte(pixel_color.1),
        rgb.2 == channel_byte(pixel_color.2),
{
    (quantize(pixel_color.x()), quantize(pixel_color.y()), quantize(pixel_color.z()))
}

/// Carries the three values that `get_color` has from its caller.
pub open spec fn corrected(r: Scalar, g: Scalar, b: Scalar) -> bool {
    true
}

/// Whether `rgb` are bytes that `get_color` may return: each is the byte of what
/// `gamma` made of the cleaned channel and the number of samples.
pub open spec fn color_allows<F: Fn(Scalar, i32) -> Scalar>(
    pixel_color: Color,
    samples_per_pixel: i32,
    gamma: F,
    rgb: (i32, i32, i32),
) -> bool {
    exists|r: Scalar, g: Scalar, b: Scalar|
        {
            &&& #[trigger] corrected(r, g, b)
            &&& gamma.ensures((cleaned(pixel_color.0), samples_per_pixel), r)
            &&& gamma.ensures((cleaned(pixel_color.1), samples_per_pixel), g)
            &&& gamma.ensures((cleaned(pixel_color.2), samples_per_pixel), b)
            &&& rgb.0 == channel_byte(r)
            &&& rgb.1 == channel_byte(g)
            &&& rgb.2 == channel_byte(b)
        }
}

/// The three bytes of a pixel from the radiance accumulated over
/// `samples_per_pixel` samples.
///
/// Each channel is cleaned of a NaN, handed to `gamma` together with the number of
/// samples (which is to return the square root of the mean), and turned into its
/// byte.
pub fn get_color<F: Fn(Scalar, i32) -> Scalar>(pixel_color: Color, samples_per_pixel: i32, gamma: &F) -> (rgb: (
    i32,
    i32,
    i32,
))
    requires
        forall|c: Scalar, n: i32| gamma.requires((c, n)),
    ensures
        color_allows(pixel_color, samples_per_pixel, *gamma, rgb),
        0 <= rgb.0 <= 255,
        0 <= rgb.1 <= 255,
        0 <= rgb.2 <= 255,
{
    let clean = sanitize(pixel_color);
    let r = gamma(clean.x(), samples_per_pixel);
    let g = gamma(clean.y(), samples_per_pixel);
    let b = gamma(clean.z(), samples_per_pixel);
    assert(corrected(r, g, b));
    (quantize(r), quantize(g), quantize(b))
}

/// A cleaned channel is a number, and cleaning changes no number.
pub proof fn lemma_cleaned_is_a_number(c: Scalar)
    ensures
        !cleaned(c).nan(),
        !c.nan() ==> cleaned(c) == c,
        cleaned(cleaned(c)) == cleaned(c),
{
}

/// The byte of a channel lies between 0 and 255, whatever the channel holds.
pub proof fn lemma_channel_byte_in_range(v: Scalar)
    ensures
        0 <= channel_byte(v) <= 255,
{
    if !v.nan() {
        let c = v.clamped(Scalar { bits: 0 }, Scalar { bits: CHANNEL_MAX_BITS });
        let h = HIDDEN_BIT as int;
        let e = c.magnitude() / h;
        let f = c.magnitude() % h;
        assert(c.magnitude() <= CHANNEL_MAX_BITS);
        assert(e <= 1022);
        if e >= 1015 {
            let d = pow2((1067 - e) as nat) as int;
            lemma2_to64();
            lemma2_to64_rest();
            if 1067 - e > 45 {
                vstd::arithmetic::power2::lemma_pow2_strictly_increases(45, (1067 - e) as nat);
            }
            assert(pow2(45) == 0x2000_0000_0000);
            assert(0 <= (h + f) / d < 256) by (nonlinear_arith)
                requires
                    d >= 0x2000_0000_0000,
                    0 <= h + f < 0x20_0000_0000_0000,
            ;
        }
    }
}

/// A quotient by at least twice the divisor, of a numerator below twice `h`, is not
/// above the quotient of `h` or more by the divisor.
proof fn lemma_quotient_of_next_exponent(h: int, fa: int, fb: int, da: int, db: int, k: int)
    requires
        da == db * k,
        k >= 2,
        db > 0,
        h > 0,
        0 <= fa < h,
        0 <= fb,
    ensures
        (h + fa) / da <= (h + fb) / db,
{
    let q = (h + fa) / da;
    assert(da > 0) by (nonlinear_arith)
        requires
            da == db * k,
            k >= 2,
            db > 0,
    ;
    vstd::arithmetic::div_mod::lemma_fundamental_div_mod(h + fa, da);
    vstd::arithmetic::div_mod::lemma_fundamental_div_mod(h + fb, db);
    vstd::arithmetic::div_mod::lemma_mod_bound(h + fa, da);
    vstd::arithmetic::div_mod::lemma_mod_bound(h + fb, db);
    let p = (h + fb) / db;
    // da * q <= h + fa < 2 * h, and h + fb < db * (p + 1)
    assert(da * q <= h + fa);
    assert(h + fb < db * (p + 1)) by (nonlinear_arith)
        requires
            h + fb == db * p + (h + fb) % db,
            (h + fb) % db < db,
    ;
    if q > p {
        assert(da * q >= 2 * h) by (nonlinear_arith)
            requires
                da == db * k,
                k >= 2,
                db > 0,
                q >= p + 1,
                h + fb < db * (p + 1),
                fb >= 0,
                p >= 0 || q >= 0,
                h > 0,
        {
            assert(db * k * q >= db * 2 * q);
            assert(db * 2 * q >= 2 * (db * (p + 1)));
        }
    }
}

/// The byte of a channel never falls when the channel rises.
pub proof fn lemma_channel_byte_rises(a: Scalar, b: Scalar)
    requires
        a.at_most(b),
    ensures
        channel_byte(a) <= channel_byte(b),
{
    let lo = Scalar { bits: 0 };
    let hi = Scalar { bits: CHANNEL_MAX_BITS };
    let ca = a.clamped(lo, hi);
    let cb = b.clamped(lo, hi);
    assert(ca.magnitude() <= cb.magnitude());
    let h = HIDDEN_BIT as int;
    let ea = ca.magnitude() / h;
    let fa = ca.magnitude() % h;
    let eb = cb.magnitude() / h;
    let fb = cb.magnitude() % h;
    assert(cb.magnitude() <= CHANNEL_MAX_BITS);
    assert(eb <= 1022);
    assert(ea <= eb);
    if eb >= 1015 {
        let db = pow2((1067 - eb) as nat) as int;
        vstd::arithmetic::power2::lemma_pow2_pos((1067 - eb) as nat);
        assert((h + fb) / db >= 0) by (nonlinear_arith)
            requires
                h + fb >= 0,
                db > 0,
        ;
    }
    if ea >= 1015 {
        let da = pow2((1067 - ea) as nat) as int;
        let db = pow2((1067 - eb) as nat) as int;
        vstd::arithmetic::power2::lemma_pow2_pos((1067 - ea) as nat);
        vstd::arithmetic::power2::lemma_pow2_pos((1067 - eb) as nat);
        if ea == eb {
            assert(fa <= fb);
            assert((h + fa) / da <= (h + fb) / db) by (nonlinear_arith)
                requires
                    da == db,
                    da > 0,
                    fa <= fb,
            ;
        } else {
            // the next exponent halves the divisor, and the hidden bit alone
            // outweighs any fraction
            vstd::arithmetic::power2::lemma_pow2_adds((1067 - eb) as nat, (eb - ea) as nat);
            vstd::arithmetic::power2::lemma_pow2_pos((eb - ea) as nat);
            lemma_pow2_unfold((eb - ea) as nat);
            vstd::arithmetic::power2::lemma_pow2_pos((eb - ea - 1) as nat);
            let k = pow2((eb - ea) as nat) as int;
            assert(k >= 2);
            assert(da == db * k);
            lemma_quotient_of_next_exponent(h, fa, fb, da, db, k);
        }
    }
}

} // verus!
