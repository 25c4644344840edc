//! The color model: an 8-bit RGB triple and exact fixed-point conversions.
//!
//! All fractional quantities (saturation, lightness, value, CMYK components)
//! are carried as integers in units of `1/10200`; the scale is chosen so that
//! both `255` (channel range) and `510` (twice the channel range) divide it,
//! which keeps the channel boundaries exactly representable. Hue is carried in
//! millidegrees, so a full turn is `360000` units.

use vstd::prelude::*;
use vstd::string::StrSliceExecFns;
use vstd::string::StringExecFns;

use crate::text::dec_str;
use crate::text::hex_digit_char;
use crate::text::hex_pair;
use crate::text::push_hex_byte;
use crate::text::push_u32;

verus! {

/// One whole (`1.0`) in fixed-point saturation / lightness / value units.
pub const FRAC_ONE: u32 = 10200;

/// One full hue turn (360 degrees) in millidegrees.
pub const HUE_TURN: u32 = 360000;

/// The five displayable color representations, in their fixed display order.
#[derive(Debug, Clone, Copy, PartialEq, Eq, Structural)]
pub enum ColorFormat {
    Hex,
    Rgb,
    Hsl,
    Hsv,
    Cmyk,
}

/// An immutable color: three 8-bit channels.
#[derive(Debug, Clone, Copy, PartialEq, Eq, Structural)]
pub struct CasColor {
    pub r: u8,
    pub g: u8,
    pub b: u8,
}

pub open spec fn max3(a: int, b: int, c: int) -> int {
    if a >= b && a >= c {
        a
    } else if b >= c {
        b
    } else {
        c
    }
}

pub open spec fn min3(a: int, b: int, c: int) -> int {
    if a <= b && a <= c {
        a
    } else if b <= c {
        b
    } else {
        c
    }
}

/// Lightness of an RGB triple, in `1/10200` units: `(max + min) / 2`,
/// scaled. Exact, no truncation: `10200 == 20 * 510`.
pub open spec fn light_fp(r: int, g: int, b: int) -> int {
    (max3(r, g, b) + min3(r, g, b)) * 20
}

/// HSL saturation of an RGB triple, in `1/10200` units, truncated.
/// Achromatic triples have saturation zero by convention.
pub open spec fn sat_fp(r: int, g: int, b: int) -> int {
    let mx = max3(r, g, b);
    let mn = min3(r, g, b);
    let d = mx - mn;
    let sum = mx + mn;
    if d == 0 {
        0
    } else if sum < 255 {
        d * 10200 / sum
    } else {
        d * 10200 / (510 - sum)
    }
}

/// HSL/HSV hue of an RGB triple in millidegrees, truncated, normalized into
/// `[0, 360000)` by adding a full turn when the raw sector value is negative.
/// Achromatic triples have hue zero by convention.
pub open spec fn hue_fp(r: int, g: int, b: int) -> int {
    let mx = max3(r, g, b);
    let mn = min3(r, g, b);
    let d = mx - mn;
    if d == 0 {
        0
    } else if r == mx {
        if g >= b {
            (g - b) * 60000 / d
        } else {
            ((g - b) * 60000 + 360000 * d) / d
        }
    } else if g == mx {
        ((b - r) * 60000 + 120000 * d) / d
    } else {
        ((r - g) * 60000 + 240000 * d) / d
    }
}

/// A hue reduced to one turn: the Euclidean remainder modulo 360000.
pub open spec fn norm_hue(h: int) -> int {
    h % 360000
}

/// Chroma for HSL inputs: `(1 - |2l - 1|) * s`, in `1/10200` units,
/// truncated.
pub open spec fn chroma_fp(s: int, l: int) -> int {
    (10200 - vstd::math::abs(2 * l - 10200)) * s / 10200
}

/// Chroma for HSV inputs: `v * s`, in `1/10200` units, truncated.
pub open spec fn chroma_v_fp(s: int, v: int) -> int {
    v * s / 10200
}

/// The second-largest pre-offset component: `c * (1 - |(h/60 mod 2) - 1|)`,
/// with hue in millidegrees, truncated.
pub open spec fn second_fp(h: int, c: int) -> int {
    c * (60000 - vstd::math::abs(h % 120000 - 60000)) / 60000
}

/// Distributes chroma and second component over the channels by 60-degree
/// hue sector.
pub open spec fn sector_mix(h: int, c: int, x: int) -> (int, int, int) {
    if h < 60000 {
        (c, x, 0)
    } else if h < 120000 {
        (x, c, 0)
    } else if h < 180000 {
        (0, c, x)
    } else if h < 240000 {
        (0, x, c)
    } else if h < 300000 {
        (x, 0, c)
    } else {
        (c, 0, x)
    }
}

/// One output channel of the HSL conversion: `(v + l - c/2) * 255` over
/// `1/10200` units collapses to a single truncating division by 80.
pub open spec fn hsl_channel(v: int, l: int, c: int) -> int {
    (2 * v + 2 * l - c) / 80
}

/// One output channel of the HSV conversion: `(v0 + v - c) * 255` over
/// `1/10200` units collapses to a single truncating division by 40.
pub open spec fn hsv_channel(v0: int, v: int, c: int) -> int {
    (v0 + v - c) / 40
}

/// The RGB triple an HSL triple converts to; hue already reduced to one
/// turn.
pub open spec fn hsl_rgb(h: int, s: int, l: int) -> (int, int, int) {
    let c = chroma_fp(s, l);
    let x = second_fp(h, c);
    let (r0, g0, b0) = sector_mix(h, c, x);
    (hsl_channel(r0, l, c), hsl_channel(g0, l, c), hsl_channel(b0, l, c))
}

/// The RGB triple an HSV triple converts to; hue already reduced to one
/// turn.
pub open spec fn hsv_rgb(h: int, s: int, v: int) -> (int, int, int) {
    let c = chroma_v_fp(s, v);
    let x = second_fp(h, c);
    let (r0, g0, b0) = sector_mix(h, c, x);
    (hsv_channel(r0, v, c), hsv_channel(g0, v, c), hsv_channel(b0, v, c))
}

/// HSV value of an RGB triple, in `1/10200` units. Exact: `10200 == 40 * 255`.
pub open spec fn val_fp(r: int, g: int, b: int) -> int {
    max3(r, g, b) * 40
}

/// HSV saturation of an RGB triple, in `1/10200` units, truncated.
pub open spec fn sat_v_fp(r: int, g: int, b: int) -> int {
    let mx = max3(r, g, b);
    let d = mx - min3(r, g, b);
    if d == 0 {
        0
    } else {
        d * 10200 / mx
    }
}

/// The black component of CMYK, in `1/10200` units. Exact.
pub open spec fn cmyk_k(r: int, g: int, b: int) -> int {
    10200 - max3(r, g, b) * 40
}

/// One chromatic CMYK component, `(mx - channel) / mx`, in `1/10200` units,
/// truncated; pure black reports zero by convention.
pub open spec fn cmyk_component(ch: int, mx: int) -> int {
    if mx == 0 {
        0
    } else {
        (mx - ch) * 10200 / mx
    }
}

/// The color an in-range HSL triple denotes: the conversion output packed
/// back into channels.
pub open spec fn hsl_color(h: int, s: int, l: int) -> CasColor {
    let (r, g, b) = hsl_rgb(norm_hue(h), s, l);
    CasColor { r: r as u8, g: g as u8, b: b as u8 }
}

/// A hue in millidegrees rounded to whole degrees, half away from zero.
pub open spec fn round_deg(h: int) -> int {
    (h + 500) / 1000
}

/// A `1/10200` fraction rounded to whole percent, half away from zero.
pub open spec fn round_pct(u: int) -> int {
    (u * 100 + 5100) / 10200
}

/// The display form of the RGB representation.
pub open spec fn rgb_text(c: CasColor) -> Seq<char> {
    "rgb("@ + dec_str(c.r as nat) + ", "@ + dec_str(c.g as nat) + ", "@ + dec_str(c.b as nat)
        + ")"@
}

/// The display form of the HSL representation: whole degrees and percents.
pub open spec fn hsl_text(c: CasColor) -> Seq<char> {
    let h = round_deg(hue_fp(c.r as int, c.g as int, c.b as int));
    let s = round_pct(sat_fp(c.r as int, c.g as int, c.b as int));
    let l = round_pct(light_fp(c.r as int, c.g as int, c.b as int));
    "hsl("@ + dec_str(h as nat) + ", "@ + dec_str(s as nat) + "%, "@ + dec_str(l as nat) + "%)"@
}

/// The display form of the HSV representation: whole degrees and percents.
pub open spec fn hsv_text(c: CasColor) -> Seq<char> {
    let h = round_deg(hue_fp(c.r as int, c.g as int, c.b as int));
    let s = round_pct(sat_v_fp(c.r as int, c.g as int, c.b as int));
    let v = round_pct(val_fp(c.r as int, c.g as int, c.b as int));
    "hsv("@ + dec_str(h as nat) + ", "@ + dec_str(s as nat) + "%, "@ + dec_str(v as nat) + "%)"@
}

/// The display form of the CMYK representation: whole percents.
pub open spec fn cmyk_text(c: CasColor) -> Seq<char> {
    let mx = max3(c.r as int, c.g as int, c.b as int);
    let cc = round_pct(cmyk_component(c.r as int, mx));
    let m = round_pct(cmyk_component(c.g as int, mx));
    let y = round_pct(cmyk_component(c.b as int, mx));
    let k = round_pct(cmyk_k(c.r as int, c.g as int, c.b as int));
    "cmyk("@ + dec_str(cc as nat) + "%, "@ + dec_str(m as nat) + "%, "@ + dec_str(y as nat)
        + "%, "@ + dec_str(k as nat) + "%)"@
}

/// The short label of each representation.
pub open spec fn format_label(f: ColorFormat) -> Seq<char> {
    match f {
        ColorFormat::Hex => "HEX"@,
        ColorFormat::Rgb => "RGB"@,
        ColorFormat::Hsl => "HSL"@,
        ColorFormat::Hsv => "HSV"@,
        ColorFormat::Cmyk => "CMYK"@,
    }
}

/// The display form of each representation of a color.
pub open spec fn format_value_spec(f: ColorFormat, c: CasColor) -> Seq<char> {
    match f {
        ColorFormat::Hex => hex_str(c),
        ColorFormat::Rgb => rgb_text(c),
        ColorFormat::Hsl => hsl_text(c),
        ColorFormat::Hsv => hsv_text(c),
        ColorFormat::Cmyk => cmyk_text(c),
    }
}

impl ColorFormat {
    /// The short label of the representation.
    pub fn label(&self) -> (s: &'static str)
        ensures
            s@ == format_label(*self),
    {
        match self {
            ColorFormat::Hex => "HEX",
            ColorFormat::Rgb => "RGB",
            ColorFormat::Hsl => "HSL",
            ColorFormat::Hsv => "HSV",
            ColorFormat::Cmyk => "CMYK",
        }
    }
}

/// Renders one representation of a color as its display string.
pub fn format_value(f: ColorFormat, c: &CasColor) -> (s: String)
    ensures
        s@ == format_value_spec(f, *c),
{
    match f {
        ColorFormat::Hex => c.to_hex(),
        ColorFormat::Rgb => {
            let mut s = String::from_str("rgb(");
            push_u32(&mut s, c.r as u32);
            s.append(", ");
            push_u32(&mut s, c.g as u32);
            s.append(", ");
            push_u32(&mut s, c.b as u32);
            s.append(")");
            proof {
                assert(s@ =~= rgb_text(*c));
            }
            s
        },
        ColorFormat::Hsl => {
            let (h, sa, l) = c.to_hsl();
            let mut s = String::from_str("hsl(");
            push_u32(&mut s, (h + 500) / 1000);
            s.append(", ");
            push_u32(&mut s, (sa * 100 + 5100) / 10200);
            s.append("%, ");
            push_u32(&mut s, (l * 100 + 5100) / 10200);
            s.append("%)");
            proof {
                assert(s@ =~= hsl_text(*c));
            }
            s
        },
        ColorFormat::Hsv => {
            let (h, sa, v) = c.to_hsv();
            let mut s = String::from_str("hsv(");
            push_u32(&mut s, (h + 500) / 1000);
            s.append(", ");
            push_u32(&mut s, (sa * 100 + 5100) / 10200);
            s.append("%, ");
            push_u32(&mut s, (v * 100 + 5100) / 10200);
            s.append("%)");
            proof {
                assert(s@ =~= hsv_text(*c));
            }
            s
        },
        ColorFormat::Cmyk => {
            let (cc, m, y, k) = c.to_cmyk();
            let mut s = String::from_str("cmyk(");
            push_u32(&mut s, (cc * 100 + 5100) / 10200);
            s.append("%, ");
            push_u32(&mut s, (m * 100 + 5100) / 10200);
            s.append("%, ");
            push_u32(&mut s, (y * 100 + 5100) / 10200);
            s.append("%, ");
            push_u32(&mut s, (k * 100 + 5100) / 10200);
            s.append("%)");
            proof {
                assert(s@ =~= cmyk_text(*c));
            }
            s
        },
    }
}

/// Scaling a truncated quotient back up loses less than one unit:
/// `(40 * den) * ((d * 10200 / den)) / 10200` is `40 * d` or `40 * d - 1`.
proof fn lemma_scaled_div_cancel(d: int, den: int)
    requires
        0 < den <= 254,
        0 < d <= den,
    ensures
        40 * d - 1 <= (40 * den) * (d * 10200 / den) / 10200 <= 40 * d,
{
    let q = d * 10200 / den;
    let rem = d * 10200 % den;
    vstd::arithmetic::div_mod::lemma_fundamental_div_mod(d * 10200, den);
    assert(den * q == d * 10200 - rem);
    assert((40 * den) * q == 40 * (den * q)) by (nonlinear_arith);
    assert((40 * den) * q == 40 * d * 10200 - 40 * rem);
    if rem == 0 {
        assert((40 * d * 10200) / 10200 == 40 * d) by (nonlinear_arith);
    } else {
        assert(0 < 40 * rem < 10200);
        assert((40 * d * 10200 - 40 * rem) / 10200 == 40 * d - 1) by {
            vstd::arithmetic::div_mod::lemma_fundamental_div_mod_converse(
                40 * d * 10200 - 40 * rem,
                10200,
                40 * d - 1,
                10200 - 40 * rem,
            );
        }
    }
}

/// The second component lands within two units under `40 * num` when the
/// sector factor `f` is the truncated or rounded-up quotient
/// `num * 60000 / d`.
proof fn lemma_x_close(c: int, d: int, num: int, f: int)
    requires
        0 < d <= 255,
        0 <= num <= d,
        40 * d - 1 <= c <= 40 * d,
        num * 60000 / d <= f <= num * 60000 / d + 1,
        f <= 60000,
    ensures
        40 * num - 2 <= c * f / 60000 <= 40 * num,
{
    let q = num * 60000 / d;
    let r2 = num * 60000 % d;
    vstd::arithmetic::div_mod::lemma_fundamental_div_mod(num * 60000, d);
    assert(d * q == num * 60000 - r2);
    assert(0 <= q <= 60000) by (nonlinear_arith)
        requires
            0 < d,
            0 <= num <= d,
            d * q == num * 60000 - r2,
            0 <= r2 < d,
    ;
    // Upper bound: c * f <= 40 d (q + 1) = 40 (d q) + 40 d <= 40 num 60000 + 10200.
    assert(c * f <= 40 * num * 60000 + 10200) by (nonlinear_arith)
        requires
            0 <= c <= 40 * d,
            0 <= f <= q + 1,
            0 < d <= 255,
            d * q == num * 60000 - r2,
            0 <= r2 < d,
            0 <= num,
    ;
    assert(c * f / 60000 <= 40 * num) by {
        assert(c * f / 60000 <= (40 * num * 60000 + 10200) / 60000) by {
            vstd::arithmetic::div_mod::lemma_div_is_ordered(c * f, 40 * num * 60000 + 10200, 60000);
        }
        assert((40 * num * 60000 + 10200) / 60000 == 40 * num) by {
            vstd::arithmetic::div_mod::lemma_fundamental_div_mod_converse(
                40 * num * 60000 + 10200,
                60000,
                40 * num,
                10200,
            );
        }
    }
    // Lower bound: c * f >= (40 d - 1) q >= 40 num 60000 - 40 d - 60000 + ...
    assert(c * f >= 40 * num * 60000 - 70200) by (nonlinear_arith)
        requires
            c >= 40 * d - 1,
            f >= q,
            0 <= q <= 60000,
            0 < d <= 255,
            d * q == num * 60000 - r2,
            0 <= r2 < d,
            0 <= num,
            c >= 0,
    ;
    assert(c * f / 60000 >= 40 * num - 2) by {
        assert((40 * num * 60000 - 70200) / 60000 >= 40 * num - 2) by {
            vstd::arithmetic::div_mod::lemma_fundamental_div_mod_converse(
                40 * num * 60000 - 70200,
                60000,
                40 * num - 2,
                49800,
            );
        }
        vstd::arithmetic::div_mod::lemma_div_is_ordered(40 * num * 60000 - 70200, c * f, 60000);
    }
}

/// The chroma recomputed from a triple's own saturation and lightness comes
/// back within one unit of the exact scaled delta `40 * (max - min)`.
proof fn lemma_chroma_close(r: int, g: int, b: int)
    requires
        0 <= r <= 255,
        0 <= g <= 255,
        0 <= b <= 255,
        max3(r, g, b) > min3(r, g, b),
    ensures
        ({
            let d = max3(r, g, b) - min3(r, g, b);
            40 * d - 1 <= chroma_fp(sat_fp(r, g, b), light_fp(r, g, b)) <= 40 * d
        }),
{
    let mx = max3(r, g, b);
    let mn = min3(r, g, b);
    let d = mx - mn;
    let sum = mx + mn;
    let l = light_fp(r, g, b);
    let s = sat_fp(r, g, b);
    assert(l == sum * 20);
    if sum < 255 {
        assert(s == d * 10200 / sum);
        assert(10200 - vstd::math::abs(2 * l - 10200) == 40 * sum);
        assert(chroma_fp(s, l) == (40 * sum) * (d * 10200 / sum) / 10200);
        lemma_scaled_div_cancel(d, sum);
    } else if sum == 255 {
        assert(s == d * 10200 / 255);
        assert(d * 10200 == (40 * d) * 255) by (nonlinear_arith);
        assert((40 * d) * 255 / 255 == 40 * d) by (nonlinear_arith);
        assert(s == 40 * d);
        assert(10200 - vstd::math::abs(2 * l - 10200) == 10200);
        assert(chroma_fp(s, l) == 10200 * (40 * d) / 10200);
        assert(10200 * (40 * d) / 10200 == 40 * d) by (nonlinear_arith);
    } else {
        let sum2 = 510 - sum;
        assert(s == d * 10200 / sum2);
        assert(0 < sum2 <= 254);
        assert(d <= sum2);
        assert(10200 - vstd::math::abs(2 * l - 10200) == 40 * sum2);
        assert(chroma_fp(s, l) == (40 * sum2) * (d * 10200 / sum2) / 10200);
        lemma_scaled_div_cancel(d, sum2);
    }
}

/// Bounds on the truncated quotient `num * 60000 / d` that drive the hue
/// sector analysis.
proof fn lemma_q2_facts(d: int, num: int)
    requires
        0 < d <= 255,
        0 <= num <= d,
    ensures
        0 <= num * 60000 / d <= 60000,
        num == d ==> num * 60000 / d == 60000 && num * 60000 % d == 0,
        num < d ==> num * 60000 / d <= 59998,
{
    let q = num * 60000 / d;
    let r2 = num * 60000 % d;
    vstd::arithmetic::div_mod::lemma_fundamental_div_mod(num * 60000, d);
    assert(d * q == num * 60000 - r2);
    assert(0 <= q <= 60000) by (nonlinear_arith)
        requires
            0 < d,
            0 <= num <= d,
            d * q == num * 60000 - r2,
            0 <= r2 < d,
    ;
    if num == d {
        assert(q == 60000 && r2 == 0) by (nonlinear_arith)
            requires
                0 < d,
                num == d,
                d * q == num * 60000 - r2,
                0 <= r2 < d,
        ;
    } else {
        assert(q <= 59998) by (nonlinear_arith)
            requires
                0 < d <= 255,
                0 <= num < d,
                d * q == num * 60000 - r2,
                0 <= r2 < d,
        ;
    }
}

/// In the downward half of a sector pair the hue stands at `k` minus the
/// rounded-up quotient: `(k*d - num*60000)/d == k - ceil(num*60000/d)`.
proof fn lemma_back_hue(d: int, num: int, k: int)
    requires
        0 < d <= 255,
        0 <= num <= d,
        60000 <= k <= 360000,
    ensures
        ({
            let q = num * 60000 / d;
            let h = (k * d - num * 60000) / d;
            &&& q <= k - h <= q + 1
            &&& (num * 60000 % d == 0 ==> h == k - q)
            &&& (num * 60000 % d != 0 ==> h == k - q - 1)
        }),
{
    let q = num * 60000 / d;
    let r2 = num * 60000 % d;
    vstd::arithmetic::div_mod::lemma_fundamental_div_mod(num * 60000, d);
    assert(d * q == num * 60000 - r2);
    lemma_q2_facts(d, num);
    if r2 == 0 {
        assert(k * d - num * 60000 == (k - q) * d) by (nonlinear_arith)
            requires
                d * q == num * 60000,
        ;
        assert(((k - q) * d) / d == k - q) by (nonlinear_arith)
            requires
                0 < d,
        ;
    } else {
        assert(k * d - num * 60000 == (k - q - 1) * d + (d - r2)) by (nonlinear_arith)
            requires
                d * q == num * 60000 - r2,
        ;
        vstd::arithmetic::div_mod::lemma_fundamental_div_mod_converse(
            k * d - num * 60000,
            d,
            k - q - 1,
            d - r2,
        );
    }
}

/// Folds the chroma and second-component bounds through the final channel
/// division: the slot carrying the chroma lands on the maximum, the slot
/// carrying the second component lands on `num + min`, and the empty slot is
/// exactly the minimum.
proof fn lemma_channels_close(c: int, x: int, d: int, num: int, mx: int, mn: int)
    requires
        0 <= mn <= mx <= 255,
        d == mx - mn,
        0 < d,
        0 <= num <= d,
        40 * d - 1 <= c <= 40 * d,
        40 * num - 2 <= x <= 40 * num,
    ensures
        mx - 1 <= hsl_channel(c, (mx + mn) * 20, c) <= mx,
        num + mn - 1 <= hsl_channel(x, (mx + mn) * 20, c) <= num + mn,
        hsl_channel(0, (mx + mn) * 20, c) == mn,
{
    let l = (mx + mn) * 20;
    assert(2 * c + 2 * l - c == c + 40 * (mx + mn));
    assert(80 * mx - 1 <= c + 40 * (mx + mn) <= 80 * mx);
    assert((80 * mx - 1) / 80 == mx - 1 && (80 * mx) / 80 == mx) by {
        vstd::arithmetic::div_mod::lemma_fundamental_div_mod_converse(80 * mx - 1, 80, mx - 1, 79);
        vstd::arithmetic::div_mod::lemma_fundamental_div_mod_converse(80 * mx, 80, mx, 0);
    }
    vstd::arithmetic::div_mod::lemma_div_is_ordered(80 * mx - 1, 2 * c + 2 * l - c, 80);
    vstd::arithmetic::div_mod::lemma_div_is_ordered(2 * c + 2 * l - c, 80 * mx, 80);

    let tx = num + mn;
    assert(80 * tx - 4 <= 2 * x + 2 * l - c <= 80 * tx + 1);
    assert((80 * tx - 4) / 80 == tx - 1 && (80 * tx + 1) / 80 == tx) by {
        vstd::arithmetic::div_mod::lemma_fundamental_div_mod_converse(80 * tx - 4, 80, tx - 1, 76);
        vstd::arithmetic::div_mod::lemma_fundamental_div_mod_converse(80 * tx + 1, 80, tx, 1);
    }
    vstd::arithmetic::div_mod::lemma_div_is_ordered(80 * tx - 4, 2 * x + 2 * l - c, 80);
    vstd::arithmetic::div_mod::lemma_div_is_ordered(2 * x + 2 * l - c, 80 * tx + 1, 80);

    assert(80 * mn <= 2 * 0 + 2 * l - c <= 80 * mn + 1);
    assert((80 * mn) / 80 == mn && (80 * mn + 1) / 80 == mn) by {
        vstd::arithmetic::div_mod::lemma_fundamental_div_mod_converse(80 * mn, 80, mn, 0);
        vstd::arithmetic::div_mod::lemma_fundamental_div_mod_converse(80 * mn + 1, 80, mn, 1);
    }
    vstd::arithmetic::div_mod::lemma_div_is_ordered(80 * mn, 2 * 0 + 2 * l - c, 80);
    vstd::arithmetic::div_mod::lemma_div_is_ordered(2 * 0 + 2 * l - c, 80 * mn + 1, 80);
}

/// Law: HSL round trip. Converting any color to hue, saturation and
/// lightness and back moves every channel by at most two (the documented
/// truncation tolerance; the proof in fact bounds each channel by one).
/// The hue that the conversion reports is already reduced to one turn, so
/// feeding it back through the modular reduction leaves it unchanged.
pub proof fn lemma_hsl_round_trip(r: int, g: int, b: int)
    requires
        0 <= r <= 255,
        0 <= g <= 255,
        0 <= b <= 255,
    ensures
        ({
            let (r2, g2, b2) = hsl_rgb(hue_fp(r, g, b), sat_fp(r, g, b), light_fp(r, g, b));
            &&& -2 <= r2 - r <= 2
            &&& -2 <= g2 - g <= 2
            &&& -2 <= b2 - b <= 2
        }),
        norm_hue(hue_fp(r, g, b)) == hue_fp(r, g, b),
{
    let mx = max3(r, g, b);
    let mn = min3(r, g, b);
    let d = mx - mn;
    let sum = mx + mn;
    let h = hue_fp(r, g, b);
    let s = sat_fp(r, g, b);
    let l = light_fp(r, g, b);
    let c = chroma_fp(s, l);
    let x = second_fp(h, c);
    lemma_hue_in_range(r, g, b);
    assert(norm_hue(h) == h) by {
        vstd::arithmetic::div_mod::lemma_fundamental_div_mod_converse(h, 360000, 0, h);
    }

    if d == 0 {
        assert(r == g && g == b && mx == r && mn == r && h == 0 && s == 0);
        assert((10200 - vstd::math::abs(2 * l - 10200)) * 0 == 0) by (nonlinear_arith);
        assert(c == 0int / 10200);
        assert(0 * (60000 - vstd::math::abs(0int % 120000 - 60000)) == 0) by (nonlinear_arith);
        assert(x == 0int / 60000);
        assert(c == 0 && x == 0) by {
            vstd::arithmetic::div_mod::lemma_fundamental_div_mod_converse(0, 10200, 0, 0);
            vstd::arithmetic::div_mod::lemma_fundamental_div_mod_converse(0, 60000, 0, 0);
        }
        assert(hsl_channel(0, l, 0) == (80 * r) / 80);
        assert((80 * r) / 80 == r) by {
            vstd::arithmetic::div_mod::lemma_fundamental_div_mod_converse(80 * r, 80, r, 0);
        }
        return ;
    }

    lemma_chroma_close(r, g, b);
    assert(40 * d - 1 <= c <= 40 * d);

    if r == mx {
        if g >= b {
            let num = g - b;
            assert(mn == b && num <= d);
            assert(h == num * 60000 / d);
            lemma_q2_facts(d, num);
            if num == d {
                assert(h == 60000 && g == mx);
                assert(h % 120000 == 60000) by {
                    vstd::arithmetic::div_mod::lemma_fundamental_div_mod_converse(
                        60000,
                        120000,
                        0,
                        60000,
                    );
                }
                assert(60000 - vstd::math::abs(h % 120000 - 60000) == 60000);
                assert(x == c * 60000 / 60000);
                assert(c * 60000 / 60000 == c) by (nonlinear_arith);
                lemma_channels_close(c, c, d, d, mx, mn);
                // sector arm for h == 60000: (x, c, 0), and x == c here
            } else {
                assert(h <= 59998 && h < 60000);
                assert(h % 120000 == h) by {
                    vstd::arithmetic::div_mod::lemma_fundamental_div_mod_converse(h, 120000, 0, h);
                }
                assert(60000 - vstd::math::abs(h % 120000 - 60000) == h);
                assert(x == c * h / 60000);
                lemma_x_close(c, d, num, h);
                lemma_channels_close(c, x, d, num, mx, mn);
                // sector arm (c, x, 0): r is the max, g is num + mn, b is mn
            }
        } else {
            let num = b - g;
            assert(mn == g && 0 < num <= d);
            assert(h == (360000 * d - num * 60000) / d);
            lemma_q2_facts(d, num);
            lemma_back_hue(d, num, 360000);
            let q = num * 60000 / d;
            if num == d {
                assert(q == 60000 && num * 60000 % d == 0);
                assert(h == 300000 && b == mx && r == mx);
                assert(h % 120000 == 60000) by {
                    vstd::arithmetic::div_mod::lemma_fundamental_div_mod_converse(
                        300000,
                        120000,
                        2,
                        60000,
                    );
                }
                assert(60000 - vstd::math::abs(h % 120000 - 60000) == 60000);
                assert(x == c * 60000 / 60000);
                assert(c * 60000 / 60000 == c) by (nonlinear_arith);
                lemma_channels_close(c, c, d, d, mx, mn);
                // sector arm for h == 300000: (c, 0, x), and x == c here
            } else {
                assert(q <= 59998 && q + 1 < 60000);
                assert(300000 < h < 360000);
                assert(h % 120000 == h - 240000) by {
                    vstd::arithmetic::div_mod::lemma_fundamental_div_mod_converse(
                        h,
                        120000,
                        2,
                        h - 240000,
                    );
                }
                assert(60000 - vstd::math::abs(h % 120000 - 60000) == 360000 - h);
                assert(x == c * (360000 - h) / 60000);
                lemma_x_close(c, d, num, 360000 - h);
                lemma_channels_close(c, x, d, num, mx, mn);
                // sector arm (c, 0, x): r is the max, g is mn, b is num + mn
            }
        }
    } else if g == mx {
        assert(r < mx);
        if b >= r {
            let num = b - r;
            assert(mn == r && num <= d);
            let q = num * 60000 / d;
            let r2 = num * 60000 % d;
            lemma_q2_facts(d, num);
            vstd::arithmetic::div_mod::lemma_fundamental_div_mod(num * 60000, d);
            assert(num * 60000 + 120000 * d == (q + 120000) * d + r2) by (nonlinear_arith)
                requires
                    d * q == num * 60000 - r2,
            ;
            vstd::arithmetic::div_mod::lemma_fundamental_div_mod_converse(
                num * 60000 + 120000 * d,
                d,
                q + 120000,
                r2,
            );
            assert(h == ((b - r) * 60000 + 120000 * d) / d);
            assert(h == 120000 + q);
            if num == d {
                assert(h == 180000 && b == mx);
                assert(h % 120000 == 60000) by {
                    vstd::arithmetic::div_mod::lemma_fundamental_div_mod_converse(
                        180000,
                        120000,
                        1,
                        60000,
                    );
                }
                assert(60000 - vstd::math::abs(h % 120000 - 60000) == 60000);
                assert(x == c * 60000 / 60000);
                assert(c * 60000 / 60000 == c) by (nonlinear_arith);
                lemma_channels_close(c, c, d, d, mx, mn);
                // sector arm for h == 180000: (0, x, c), and x == c here
            } else {
                assert(q <= 59998);
                assert(120000 <= h < 180000);
                assert(h % 120000 == h - 120000) by {
                    vstd::arithmetic::div_mod::lemma_fundamental_div_mod_converse(
                        h,
                        120000,
                        1,
                        h - 120000,
                    );
                }
                assert(60000 - vstd::math::abs(h % 120000 - 60000) == h - 120000);
                assert(x == c * (h - 120000) / 60000);
                lemma_x_close(c, d, num, h - 120000);
                lemma_channels_close(c, x, d, num, mx, mn);
                // sector arm (0, c, x): r is mn, g is the max, b is num + mn
            }
        } else {
            let num = r - b;
            assert(mn == b && 0 < num && num < d);
            assert(h == (120000 * d - num * 60000) / d);
            lemma_q2_facts(d, num);
            lemma_back_hue(d, num, 120000);
            let q = num * 60000 / d;
            assert(q <= 59998);
            vstd::arithmetic::div_mod::lemma_fundamental_div_mod(num * 60000, d);
            assert(q >= 1) by (nonlinear_arith)
                requires
                    0 < d <= 255,
                    num >= 1,
                    q == num * 60000 / d,
                    d * q == num * 60000 - num * 60000 % d,
                    0 <= num * 60000 % d < d,
            ;
            assert(60000 < h < 120000);
            assert(h % 120000 == h) by {
                vstd::arithmetic::div_mod::lemma_fundamental_div_mod_converse(h, 120000, 0, h);
            }
            assert(60000 - vstd::math::abs(h % 120000 - 60000) == 120000 - h);
            assert(x == c * (120000 - h) / 60000);
            lemma_x_close(c, d, num, 120000 - h);
            lemma_channels_close(c, x, d, num, mx, mn);
            // sector arm (x, c, 0): r is num + mn, g is the max, b is mn
        }
    } else {
        assert(b == mx && r < mx && g < mx);
        if r >= g {
            let num = r - g;
            assert(mn == g && num < d);
            let q = num * 60000 / d;
            let r2 = num * 60000 % d;
            lemma_q2_facts(d, num);
            vstd::arithmetic::div_mod::lemma_fundamental_div_mod(num * 60000, d);
            assert(num * 60000 + 240000 * d == (q + 240000) * d + r2) by (nonlinear_arith)
                requires
                    d * q == num * 60000 - r2,
            ;
            vstd::arithmetic::div_mod::lemma_fundamental_div_mod_converse(
                num * 60000 + 240000 * d,
                d,
                q + 240000,
                r2,
            );
            assert(h == ((r - g) * 60000 + 240000 * d) / d);
            assert(h == 240000 + q);
            assert(q <= 59998);
            assert(240000 <= h < 300000);
            assert(h % 120000 == h - 240000) by {
                vstd::arithmetic::div_mod::lemma_fundamental_div_mod_converse(
                    h,
                    120000,
                    2,
                    h - 240000,
                );
            }
            assert(60000 - vstd::math::abs(h % 120000 - 60000) == h - 240000);
            assert(x == c * (h - 240000) / 60000);
            lemma_x_close(c, d, num, h - 240000);
            lemma_channels_close(c, x, d, num, mx, mn);
            // sector arm (x, 0, c): r is num + mn, g is mn, b is the max
        } else {
            let num = g - r;
            assert(mn == r && 0 < num && num < d);
            assert(h == (240000 * d - num * 60000) / d);
            lemma_q2_facts(d, num);
            lemma_back_hue(d, num, 240000);
            let q = num * 60000 / d;
            assert(q <= 59998);
            vstd::arithmetic::div_mod::lemma_fundamental_div_mod(num * 60000, d);
            assert(q >= 1) by (nonlinear_arith)
                requires
                    0 < d <= 255,
                    num >= 1,
                    q == num * 60000 / d,
                    d * q == num * 60000 - num * 60000 % d,
                    0 <= num * 60000 % d < d,
            ;
            assert(180000 < h < 240000);
            assert(h % 120000 == h - 120000) by {
                vstd::arithmetic::div_mod::lemma_fundamental_div_mod_converse(
                    h,
                    120000,
                    1,
                    h - 120000,
                );
            }
            assert(60000 - vstd::math::abs(h % 120000 - 60000) == 240000 - h);
            assert(x == c * (240000 - h) / 60000);
            lemma_x_close(c, d, num, 240000 - h);
            lemma_channels_close(c, x, d, num, mx, mn);
            // sector arm (0, x, c): r is mn, g is num + mn, b is the max
        }
    }
}

/// Whether `c` is a hexadecimal digit in either case.
pub open spec fn is_hex_digit(c: char) -> bool {
    ('0' <= c && c <= '9') || ('a' <= c && c <= 'f') || ('A' <= c && c <= 'F')
}

/// The numeric value of a hexadecimal digit character.
pub open spec fn hex_val(c: char) -> int {
    if '0' <= c && c <= '9' {
        c as int - '0' as int
    } else if 'a' <= c && c <= 'f' {
        10 + c as int - 'a' as int
    } else {
        10 + c as int - 'A' as int
    }
}

/// Drops one optional leading `#` from a candidate hex string.
pub open spec fn strip_hash(cs: Seq<char>) -> Seq<char> {
    if cs.len() > 0 && cs[0] == '#' {
        cs.skip(1)
    } else {
        cs
    }
}

/// Whether every character of `cs` is a hexadecimal digit.
pub open spec fn all_hex(cs: Seq<char>) -> bool {
    forall|i: int| 0 <= i < cs.len() ==> is_hex_digit(#[trigger] cs[i])
}

/// What `from_hex` accepts and returns: after the optional `#`, either six
/// hex digits (two per channel) or three hex digits, each standing for a
/// doubled pair (`F53` reads as `FF5533`). Anything else is rejected.
pub open spec fn spec_hex_parse(cs: Seq<char>) -> Option<CasColor> {
    let t = strip_hash(cs);
    if t.len() == 6 && all_hex(t) {
        Some(
            CasColor {
                r: (hex_val(t[0]) * 16 + hex_val(t[1])) as u8,
                g: (hex_val(t[2]) * 16 + hex_val(t[3])) as u8,
                b: (hex_val(t[4]) * 16 + hex_val(t[5])) as u8,
            },
        )
    } else if t.len() == 3 && all_hex(t) {
        Some(
            CasColor {
                r: (hex_val(t[0]) * 17) as u8,
                g: (hex_val(t[1]) * 17) as u8,
                b: (hex_val(t[2]) * 17) as u8,
            },
        )
    } else {
        None
    }
}

/// The canonical formatting of a color: `#` followed by six uppercase hex
/// digits, zero-padded.
pub open spec fn hex_str(c: CasColor) -> Seq<char> {
    seq!['#'] + hex_pair(c.r as int) + hex_pair(c.g as int) + hex_pair(c.b as int)
}

/// The numeric value of a hexadecimal digit character, or `None` when the
/// character is not one.
fn hex_digit_value(c: char) -> (v: Option<u8>)
    ensures
        match v {
            Some(d) => is_hex_digit(c) && d == hex_val(c) && d <= 15,
            None => !is_hex_digit(c),
        },
{
    if '0' <= c && c <= '9' {
        Some((c as u32 - '0' as u32) as u8)
    } else if 'a' <= c && c <= 'f' {
        Some((10 + c as u32 - 'a' as u32) as u8)
    } else if 'A' <= c && c <= 'F' {
        Some((10 + c as u32 - 'A' as u32) as u8)
    } else {
        None
    }
}

impl Default for CasColor {
    /// The default color is black.
    fn default() -> (c: CasColor)
        ensures
            c.r == 0 && c.g == 0 && c.b == 0,
    {
        CasColor { r: 0, g: 0, b: 0 }
    }
}

impl CasColor {
    /// Builds a color from its three channels. Total: every 8-bit triple is a
    /// valid color.
    pub fn from_rgb(r: u8, g: u8, b: u8) -> (c: CasColor)
        ensures
            c.r == r,
            c.g == g,
            c.b == b,
    {
        CasColor { r, g, b }
    }

    /// Returns the three channels.
    pub fn to_rgb(&self) -> (t: (u8, u8, u8))
        ensures
            t.0 == self.r,
            t.1 == self.g,
            t.2 == self.b,
    {
        (self.r, self.g, self.b)
    }

    /// Parses a hex color string: one optional leading `#`, then six hex
    /// digits, or three short-form digits each of which doubles. Any other
    /// shape is rejected; a wrong length and a bad digit keep the two error
    /// texts of the original interface apart.
    pub fn from_hex(hex: &str) -> (res: Result<CasColor, String>)
        ensures
            match res {
                Ok(c) => spec_hex_parse(hex@) == Some(c),
                Err(e) => {
                    &&& spec_hex_parse(hex@) is None
                    &&& if strip_hash(hex@).len() == 6 || strip_hash(hex@).len() == 3 {
                        e@ == "Invalid hex"@
                    } else {
                        e@ == "Invalid hex color"@
                    }
                },
            },
    {
        let n = hex.unicode_len();
        let start: usize = if n > 0 && hex.get_char(0) == '#' {
            1
        } else {
            0
        };
        proof {
            assert(strip_hash(hex@) =~= hex@.skip(start as int));
        }
        let m = n - start;
        let ghost t = strip_hash(hex@);
        if m != 6 && m != 3 {
            return Err(String::from_str("Invalid hex color"));
        }

        if m == 6 {
            let v0 = hex_digit_value(hex.get_char(start));
            let v1 = hex_digit_value(hex.get_char(start + 1));
            let v2 = hex_digit_value(hex.get_char(start + 2));
            let v3 = hex_digit_value(hex.get_char(start + 3));
            let v4 = hex_digit_value(hex.get_char(start + 4));
            let v5 = hex_digit_value(hex.get_char(start + 5));
            match (v0, v1, v2, v3, v4, v5) {
                (Some(a), Some(b), Some(c), Some(d), Some(e), Some(f)) => {
                    proof {
                        assert(t[0] == hex@[start + 0] && t[1] == hex@[start + 1] && t[2] == hex@[
                            start + 2
                        ] && t[3] == hex@[start + 3] && t[4] == hex@[start + 4] && t[5] == hex@[
                            start + 5
                        ]);
                        assert forall|j: int| 0 <= j < t.len() implies is_hex_digit(
                            #[trigger] t[j],
                        ) by {
                            if j == 0 {
                            } else if j == 1 {
                            } else if j == 2 {
                            } else if j == 3 {
                            } else if j == 4 {
                            } else {
                                assert(j == 5);
                            }
                        }
                    }
                    Ok(CasColor { r: a * 16 + b, g: c * 16 + d, b: e * 16 + f })
                },
                _ => {
                    proof {
                        assert(t[0] == hex@[start + 0] && t[1] == hex@[start + 1] && t[2] == hex@[
                            start + 2
                        ] && t[3] == hex@[start + 3] && t[4] == hex@[start + 4] && t[5] == hex@[
                            start + 5
                        ]);
                        if all_hex(t) {
                            assert(is_hex_digit(t[0]) && is_hex_digit(t[1]) && is_hex_digit(t[2])
                                && is_hex_digit(t[3]) && is_hex_digit(t[4]) && is_hex_digit(t[5]));
                        }
                    }
                    Err(String::from_str("Invalid hex"))
                },
            }
        } else {
            let v0 = hex_digit_value(hex.get_char(start));
            let v1 = hex_digit_value(hex.get_char(start + 1));
            let v2 = hex_digit_value(hex.get_char(start + 2));
            match (v0, v1, v2) {
                (Some(a), Some(b), Some(c)) => {
                    proof {
                        assert(t[0] == hex@[start + 0] && t[1] == hex@[start + 1] && t[2] == hex@[
                            start + 2
                        ]);
                        assert forall|j: int| 0 <= j < t.len() implies is_hex_digit(
                            #[trigger] t[j],
                        ) by {
                            if j == 0 {
                            } else if j == 1 {
                            } else {
                                assert(j == 2);
                            }
                        }
                    }
                    Ok(CasColor { r: a * 17, g: b * 17, b: c * 17 })
                },
                _ => {
                    proof {
                        assert(t[0] == hex@[start + 0] && t[1] == hex@[start + 1] && t[2] == hex@[
                            start + 2
                        ]);
                        if all_hex(t) {
                            assert(is_hex_digit(t[0]) && is_hex_digit(t[1]) && is_hex_digit(t[2]));
                        }
                    }
                    Err(String::from_str("Invalid hex"))
                },
            }
        }
    }

    /// Formats the color as `#RRGGBB` with uppercase, zero-padded hex digits.
    pub fn to_hex(&self) -> (s: String)
        ensures
            s@ == hex_str(*self),
    {
        let mut s = String::from_str("#");
        proof {
            reveal_strlit("#");
        }
        push_hex_byte(&mut s, self.r);
        push_hex_byte(&mut s, self.g);
        push_hex_byte(&mut s, self.b);
        proof {
            assert(s@ =~= hex_str(*self));
        }
        s
    }

    /// Builds a color from hue (millidegrees, any value; reduced modulo one
    /// turn), saturation and lightness (`1/10200` units), by the standard
    /// chroma / hue-sector algorithm with truncating division.
    pub fn from_hsl(h: i64, s: u32, l: u32) -> (out: CasColor)
        requires
            s <= 10200,
            l <= 10200,
        ensures
            ({
                let (rr, gg, bb) = hsl_rgb(norm_hue(h as int), s as int, l as int);
                out.r == rr && out.g == gg && out.b == bb
            }),
    {
        let hn = norm_hue_exec(h);
        let s64 = s as u64;
        let l64 = l as u64;
        let dl: u64 = if 2 * l64 >= 10200 {
            2 * l64 - 10200
        } else {
            10200 - 2 * l64
        };
        proof {
            assert((10200 - dl) * s64 <= 104040000) by (nonlinear_arith)
                requires
                    0 <= 10200 - dl <= 10200,
                    0 <= s64 <= 10200,
            ;
        }
        let c: u64 = (10200 - dl) * s64 / 10200;
        proof {
            assert(c <= 10200 - dl) by (nonlinear_arith)
                requires
                    c == (10200 - dl) * s64 / 10200,
                    0 <= 10200 - dl <= 10200,
                    0 <= s64 <= 10200,
            ;
            assert(c <= 2 * l64 && c + 2 * l64 <= 20400);
        }
        let h2: u64 = hn % 120000;
        let t: u64 = if h2 >= 60000 {
            h2 - 60000
        } else {
            60000 - h2
        };
        proof {
            assert(c * (60000 - t) <= 612000000) by (nonlinear_arith)
                requires
                    0 <= c <= 10200,
                    0 <= 60000 - t <= 60000,
            ;
        }
        let x: u64 = c * (60000 - t) / 60000;
        proof {
            assert(x <= c) by (nonlinear_arith)
                requires
                    x == c * (60000 - t) / 60000,
                    0 <= c,
                    0 <= 60000 - t <= 60000,
            ;
        }
        let (r0, g0, b0): (u64, u64, u64) = if hn < 60000 {
            (c, x, 0)
        } else if hn < 120000 {
            (x, c, 0)
        } else if hn < 180000 {
            (0, c, x)
        } else if hn < 240000 {
            (0, x, c)
        } else if hn < 300000 {
            (x, 0, c)
        } else {
            (c, 0, x)
        };
        let r: u64 = (2 * r0 + 2 * l64 - c) / 80;
        let g: u64 = (2 * g0 + 2 * l64 - c) / 80;
        let b: u64 = (2 * b0 + 2 * l64 - c) / 80;
        CasColor { r: r as u8, g: g as u8, b: b as u8 }
    }

    /// Builds a color from hue (millidegrees, any value; reduced modulo one
    /// turn), saturation and value (`1/10200` units), by the standard
    /// chroma / hue-sector algorithm with truncating division.
    pub fn from_hsv(h: i64, s: u32, v: u32) -> (out: CasColor)
        requires
            s <= 10200,
            v <= 10200,
        ensures
            ({
                let (rr, gg, bb) = hsv_rgb(norm_hue(h as int), s as int, v as int);
                out.r == rr && out.g == gg && out.b == bb
            }),
    {
        let hn = norm_hue_exec(h);
        let s64 = s as u64;
        let v64 = v as u64;
        proof {
            assert(v64 * s64 <= 104040000) by (nonlinear_arith)
                requires
                    0 <= v64 <= 10200,
                    0 <= s64 <= 10200,
            ;
        }
        let c: u64 = v64 * s64 / 10200;
        proof {
            assert(c <= v64) by (nonlinear_arith)
                requires
                    c == v64 * s64 / 10200,
                    0 <= v64 <= 10200,
                    0 <= s64 <= 10200,
            ;
        }
        let h2: u64 = hn % 120000;
        let t: u64 = if h2 >= 60000 {
            h2 - 60000
        } else {
            60000 - h2
        };
        proof {
            assert(c * (60000 - t) <= 612000000) by (nonlinear_arith)
                requires
                    0 <= c <= 10200,
                    0 <= 60000 - t <= 60000,
            ;
        }
        let x: u64 = c * (60000 - t) / 60000;
        proof {
            assert(x <= c) by (nonlinear_arith)
                requires
                    x == c * (60000 - t) / 60000,
                    0 <= c,
                    0 <= 60000 - t <= 60000,
            ;
        }
        let (r0, g0, b0): (u64, u64, u64) = if hn < 60000 {
            (c, x, 0)
        } else if hn < 120000 {
            (x, c, 0)
        } else if hn < 180000 {
            (0, c, x)
        } else if hn < 240000 {
            (0, x, c)
        } else if hn < 300000 {
            (x, 0, c)
        } else {
            (c, 0, x)
        };
        let r: u64 = (r0 + v64 - c) / 40;
        let g: u64 = (g0 + v64 - c) / 40;
        let b: u64 = (b0 + v64 - c) / 40;
        CasColor { r: r as u8, g: g as u8, b: b as u8 }
    }

    /// Hue (millidegrees), saturation and lightness (`1/10200` units) of the
    /// color, by the standard max/min/delta formulas with truncating division.
    pub fn to_hsl(&self) -> (t: (u32, u32, u32))
        ensures
            t.0 == hue_fp(self.r as int, self.g as int, self.b as int),
            t.1 == sat_fp(self.r as int, self.g as int, self.b as int),
            t.2 == light_fp(self.r as int, self.g as int, self.b as int),
            t.0 < 360000,
            t.1 <= 10200,
            t.2 <= 10200,
    {
        let r = self.r as u64;
        let g = self.g as u64;
        let b = self.b as u64;
        let mx = max3_exec(r, g, b);
        let mn = min3_exec(r, g, b);
        let d = mx - mn;
        let sum = mx + mn;

        let l = sum * 20;

        if d == 0 {
            return (0, 0, l as u32);
        }

        let s = if sum < 255 {
            d * 10200 / sum
        } else {
            d * 10200 / (510 - sum)
        };
        proof {
            lemma_sat_in_range(r as int, g as int, b as int);
        }

        let h = if r == mx {
            if g >= b {
                (g - b) * 60000 / d
            } else {
                (360000 * d - (b - g) * 60000) / d
            }
        } else if g == mx {
            if b >= r {
                ((b - r) * 60000 + 120000 * d) / d
            } else {
                (120000 * d - (r - b) * 60000) / d
            }
        } else {
            if r >= g {
                ((r - g) * 60000 + 240000 * d) / d
            } else {
                (240000 * d - (g - r) * 60000) / d
            }
        };
        proof {
            lemma_hue_in_range(r as int, g as int, b as int);
        }

        (h as u32, s as u32, l as u32)
    }

    /// Hue (millidegrees), saturation and value (`1/10200` units) of the
    /// color, by the standard max/min/delta formulas with truncating
    /// division.
    pub fn to_hsv(&self) -> (t: (u32, u32, u32))
        ensures
            t.0 == hue_fp(self.r as int, self.g as int, self.b as int),
            t.1 == sat_v_fp(self.r as int, self.g as int, self.b as int),
            t.2 == val_fp(self.r as int, self.g as int, self.b as int),
            t.0 < 360000,
            t.1 <= 10200,
            t.2 <= 10200,
    {
        let r = self.r as u64;
        let g = self.g as u64;
        let b = self.b as u64;
        let mx = max3_exec(r, g, b);
        let mn = min3_exec(r, g, b);
        let d = mx - mn;

        let v = mx * 40;

        if d == 0 {
            return (0, 0, v as u32);
        }

        let s = d * 10200 / mx;
        proof {
            assert(d * 10200 / (mx as int) <= 10200) by (nonlinear_arith)
                requires
                    0 < d <= mx,
            ;
        }

        let h = if r == mx {
            if g >= b {
                (g - b) * 60000 / d
            } else {
                (360000 * d - (b - g) * 60000) / d
            }
        } else if g == mx {
            if b >= r {
                ((b - r) * 60000 + 120000 * d) / d
            } else {
                (120000 * d - (r - b) * 60000) / d
            }
        } else {
            if r >= g {
                ((r - g) * 60000 + 240000 * d) / d
            } else {
                (240000 * d - (g - r) * 60000) / d
            }
        };
        proof {
            lemma_hue_in_range(r as int, g as int, b as int);
        }

        (h as u32, s as u32, v as u32)
    }

    /// Cyan, magenta, yellow and black components of the color, in `1/10200`
    /// units, truncated. Pure black reports exactly `(0, 0, 0, 1)`: the
    /// chromatic components are zero by convention, never a division by zero.
    pub fn to_cmyk(&self) -> (t: (u32, u32, u32, u32))
        ensures
            t.0 == cmyk_component(self.r as int, max3(self.r as int, self.g as int, self.b as int)),
            t.1 == cmyk_component(self.g as int, max3(self.r as int, self.g as int, self.b as int)),
            t.2 == cmyk_component(self.b as int, max3(self.r as int, self.g as int, self.b as int)),
            t.3 == cmyk_k(self.r as int, self.g as int, self.b as int),
            t.0 <= 10200 && t.1 <= 10200 && t.2 <= 10200 && t.3 <= 10200,
            t.3 == 10200 <==> self.r == 0 && self.g == 0 && self.b == 0,
    {
        let r = self.r as u64;
        let g = self.g as u64;
        let b = self.b as u64;
        let mx = max3_exec(r, g, b);

        if mx == 0 {
            return (0, 0, 0, 10200);
        }

        let k = 10200 - mx * 40;
        let c = (mx - r) * 10200 / mx;
        let m = (mx - g) * 10200 / mx;
        let y = (mx - b) * 10200 / mx;
        proof {
            assert((mx - r) * 10200 / (mx as int) <= 10200 && (mx - g) * 10200 / (mx as int)
                <= 10200 && (mx - b) * 10200 / (mx as int) <= 10200) by (nonlinear_arith)
                requires
                    0 < mx,
                    0 <= mx - r <= mx,
                    0 <= mx - g <= mx,
                    0 <= mx - b <= mx,
            ;
        }
        (c as u32, m as u32, y as u32, k as u32)
    }
}

/// Reduces a hue in millidegrees, possibly negative, to `[0, 360000)` by the
/// Euclidean remainder.
fn norm_hue_exec(h: i64) -> (hn: u64)
    ensures
        hn == norm_hue(h as int),
        hn < 360000,
{
    if h >= 0 {
        (h as u64) % 360000
    } else {
        let neg: u64 = (-(h as i128)) as u64;
        let m: u64 = neg % 360000;
        proof {
            assert(h as int == -(neg as int));
            assert(m == (neg as int) % 360000);
            if m == 0 {
                assert((-(neg as int)) % 360000 == 0) by (nonlinear_arith)
                    requires
                        (neg as int) % 360000 == 0,
                ;
            } else {
                assert((-(neg as int)) % 360000 == 360000 - m) by (nonlinear_arith)
                    requires
                        m == (neg as int) % 360000,
                        0 < m < 360000,
                ;
            }
        }
        if m == 0 {
            0
        } else {
            360000 - m
        }
    }
}

/// Law: uppercasing, digit by digit. For every hexadecimal digit character,
/// re-formatting its numeric value gives the same character with lowercase
/// letters replaced by their uppercase forms (32 code points below).
pub proof fn lemma_hex_digit_uppercases(c: char)
    requires
        is_hex_digit(c),
    ensures
        'a' <= c && c <= 'f' ==> hex_digit_char(hex_val(c)) as int == c as int - 32,
        !('a' <= c && c <= 'f') ==> hex_digit_char(hex_val(c)) == c,
{
}

/// Law: hex round trip. A string made of one optional `#` and six hex digits
/// is accepted by the parser, and formatting the parsed color yields `#`
/// followed by the same six digits, uppercased.
pub proof fn lemma_hex_round_trip(cs: Seq<char>)
    requires
        strip_hash(cs).len() == 6,
        all_hex(strip_hash(cs)),
    ensures
        spec_hex_parse(cs) is Some,
        hex_str(spec_hex_parse(cs).unwrap()) =~= seq!['#'] + Seq::new(
            6,
            |i: int| hex_digit_char(hex_val(strip_hash(cs)[i])),
        ),
{
    let t = strip_hash(cs);
    assert(is_hex_digit(t[0]) && is_hex_digit(t[1]) && is_hex_digit(t[2]) && is_hex_digit(t[3])
        && is_hex_digit(t[4]) && is_hex_digit(t[5]));
    let v0 = hex_val(t[0]);
    let v1 = hex_val(t[1]);
    let v2 = hex_val(t[2]);
    let v3 = hex_val(t[3]);
    let v4 = hex_val(t[4]);
    let v5 = hex_val(t[5]);
    let c = spec_hex_parse(cs).unwrap();
    assert(c.r == v0 * 16 + v1 && c.g == v2 * 16 + v3 && c.b == v4 * 16 + v5);
    assert((v0 * 16 + v1) / 16 == v0 && (v0 * 16 + v1) % 16 == v1) by (nonlinear_arith)
        requires
            0 <= v0 <= 15,
            0 <= v1 <= 15,
    ;
    assert((v2 * 16 + v3) / 16 == v2 && (v2 * 16 + v3) % 16 == v3) by (nonlinear_arith)
        requires
            0 <= v2 <= 15,
            0 <= v3 <= 15,
    ;
    assert((v4 * 16 + v5) / 16 == v4 && (v4 * 16 + v5) % 16 == v5) by (nonlinear_arith)
        requires
            0 <= v4 <= 15,
            0 <= v5 <= 15,
    ;
}

fn max3_exec(a: u64, b: u64, c: u64) -> (m: u64)
    ensures
        m == max3(a as int, b as int, c as int),
{
    if a >= b && a >= c {
        a
    } else if b >= c {
        b
    } else {
        c
    }
}

fn min3_exec(a: u64, b: u64, c: u64) -> (m: u64)
    ensures
        m == min3(a as int, b as int, c as int),
{
    if a <= b && a <= c {
        a
    } else if b <= c {
        b
    } else {
        c
    }
}

/// For channels in range, the saturation formula stays within one whole.
proof fn lemma_sat_in_range(r: int, g: int, b: int)
    requires
        0 <= r <= 255,
        0 <= g <= 255,
        0 <= b <= 255,
    ensures
        0 <= sat_fp(r, g, b) <= 10200,
{
    let mx = max3(r, g, b);
    let mn = min3(r, g, b);
    let d = mx - mn;
    let sum = mx + mn;
    if d != 0 {
        if sum < 255 {
            assert(d <= sum);
            assert(0 <= d * 10200 / sum <= 10200) by (nonlinear_arith)
                requires
                    0 < d <= sum,
            ;
        } else {
            assert(d <= 510 - sum);
            assert(0 <= d * 10200 / (510 - sum) <= 10200) by (nonlinear_arith)
                requires
                    0 < d <= 510 - sum,
            ;
        }
    }
}

/// For channels in range, the hue formula lands in `[0, 360000)`.
proof fn lemma_hue_in_range(r: int, g: int, b: int)
    requires
        0 <= r <= 255,
        0 <= g <= 255,
        0 <= b <= 255,
    ensures
        0 <= hue_fp(r, g, b) < 360000,
{
    let mx = max3(r, g, b);
    let mn = min3(r, g, b);
    let d = mx - mn;
    if d != 0 {
        if r == mx {
            if g >= b {
                assert(g - b < d || g - b == d);
                assert(0 <= (g - b) * 60000 / d < 360000) by (nonlinear_arith)
                    requires
                        0 < d,
                        0 <= g - b <= d,
                ;
            } else {
                assert(0 <= ((g - b) * 60000 + 360000 * d) / d < 360000) by (nonlinear_arith)
                    requires
                        0 < d,
                        0 < b - g <= d,
                ;
            }
        } else if g == mx {
            assert(0 <= ((b - r) * 60000 + 120000 * d) / d < 360000) by (nonlinear_arith)
                requires
                    0 < d,
                    -d <= b - r <= d,
            ;
        } else {
            assert(0 <= ((r - g) * 60000 + 240000 * d) / d < 360000) by (nonlinear_arith)
                requires
                    0 < d,
                    -d <= r - g <= d,
            ;
        }
    }
}

} // verus!

