//! The color pipeline: an 8-bit RGB triple, intensity scaling in fixed-point
//! micro-units, exact gamma correction (exponent 2.2 = 11/5), and a tabulated
//! black-body color-temperature fit.
use vstd::prelude::*;

verus! {

use crate::SCALE;

/// One 8-bit color channel triple, in R, G, B order.
#[derive(Clone, Copy, Debug, PartialEq, Eq, Structural)]
pub struct Rgb {
    pub red: u8,
    pub green: u8,
    pub blue: u8,
}

impl Rgb {
    /// The all-dark triple.
    pub fn black() -> (c: Rgb)
        ensures
            c == black(),
    {
        Rgb { red: 0, green: 0, blue: 0 }
    }
}

pub open spec fn black() -> Rgb {
    Rgb { red: 0, green: 0, blue: 0 }
}

/// A channel scaled by `intensity * max_intensity` (both in micro-units),
/// rounded to the nearest integer: round(c * i * m / SCALE^2).
pub open spec fn scaled_channel(c: u8, intensity: u32, max_intensity: u32) -> int {
    (c * intensity * max_intensity + 500_000_000_000) / 1_000_000_000_000
}

/// The whole triple scaled by `intensity * max_intensity`.
pub open spec fn scaled_rgb(c: Rgb, intensity: u32, max_intensity: u32) -> Rgb {
    Rgb {
        red: scaled_channel(c.red, intensity, max_intensity) as u8,
        green: scaled_channel(c.green, intensity, max_intensity) as u8,
        blue: scaled_channel(c.blue, intensity, max_intensity) as u8,
    }
}

pub proof fn lemma_scaled_channel_bound(c: u8, intensity: u32, max_intensity: u32)
    requires
        intensity <= SCALE,
        max_intensity <= SCALE,
    ensures
        0 <= scaled_channel(c, intensity, max_intensity) <= 255,
        c * intensity <= 255 * 1_000_000,
        0 <= c * intensity * max_intensity <= 255 * 1_000_000 * 1_000_000,
{
    assert(c * intensity <= 255 * 1_000_000) by (nonlinear_arith)
        requires
            c <= 255,
            intensity <= 1_000_000,
    ;
    assert(0 <= c * intensity * max_intensity <= 255 * 1_000_000 * 1_000_000) by (nonlinear_arith)
        requires
            0 <= c * intensity <= 255 * 1_000_000,
            0 <= max_intensity <= 1_000_000,
    ;
}

fn scale_one(c: u8, intensity: u32, max_intensity: u32) -> (r: u8)
    requires
        intensity <= SCALE,
        max_intensity <= SCALE,
    ensures
        r == scaled_channel(c, intensity, max_intensity),
{
    proof {
        lemma_scaled_channel_bound(c, intensity, max_intensity);
    }
    let product: u64 = (c as u64) * (intensity as u64) * (max_intensity as u64);
    let scaled: u64 = (product + 500_000_000_000) / 1_000_000_000_000;
    scaled as u8
}

/// Multiply each channel by `intensity * max_intensity` (micro-units), rounding
/// to the nearest integer. The result never exceeds 255, so no clamping is
/// needed beyond the rounding itself.
pub fn scale_rgb(c: &Rgb, intensity: u32, max_intensity: u32) -> (r: Rgb)
    requires
        intensity <= SCALE,
        max_intensity <= SCALE,
    ensures
        r == scaled_rgb(*c, intensity, max_intensity),
{
    Rgb {
        red: scale_one(c.red, intensity, max_intensity),
        green: scale_one(c.green, intensity, max_intensity),
        blue: scale_one(c.blue, intensity, max_intensity),
    }
}

/// x^5, grouped as ((x*x)*(x*x))*x.
pub open spec fn pow5(x: int) -> int {
    let x2 = x * x;
    x2 * x2 * x
}

/// x^11, grouped as (((x*x)*(x*x))*((x*x)*(x*x)))*(x*x)*x.
pub open spec fn pow11(x: int) -> int {
    let x2 = x * x;
    let x4 = x2 * x2;
    let x8 = x4 * x4;
    x8 * x2 * x
}

/// 255^6, the denominator of the exact gamma characterization.
pub const POW6_255: u64 = 274_941_996_890_625;

/// `n == round(255 * (c/255)^2.2)`, stated exactly in integers. Since
/// 2.2 == 11/5, that rounding is the unique `n` with
/// `(2n-1)^5 * 255^6 <= 32 * c^11 < (2n+1)^5 * 255^6`
/// (no tie is possible: the left side of either comparison is odd times odd
/// while the right is even, so the fifth root never lands exactly on n + 1/2).
pub open spec fn gamma_rel(c: u8, n: u8) -> bool {
    pow5(2 * n - 1) * POW6_255 <= 32 * pow11(c as int) < pow5(2 * n + 1) * POW6_255
}

/// The smallest m >= n with 32 * c^11 < (2m+1)^5 * 255^6 (255 if none below).
pub closed spec fn gamma_from(c: u8, n: u8) -> u8
    decreases 255 - n,
{
    if n >= 255 {
        255
    } else if 32 * pow11(c as int) < pow5(2 * n + 1) * POW6_255 {
        n
    } else {
        gamma_from(c, (n + 1) as u8)
    }
}

/// Gamma correction of one channel with exponent 2.2: round(255 * (c/255)^2.2).
pub closed spec fn gamma_of(c: u8) -> u8 {
    gamma_from(c, 0)
}

/// Gamma correction of a whole triple, channel by channel.
pub open spec fn gamma_rgb(c: Rgb) -> Rgb {
    Rgb { red: gamma_of(c.red), green: gamma_of(c.green), blue: gamma_of(c.blue) }
}

/// Gamma-correct one channel with exponent 2.2 = 11/5, exactly: the result is
/// round(255 * (c/255)^2.2), found by searching for the integer satisfying
/// the characterization `gamma_rel`.
fn gamma_one(c: u8) -> (r: u8)
    ensures
        r == gamma_of(c),
        gamma_rel(c, r),
{
    let x: u128 = c as u128;
    assert(x * x <= 65_025) by (nonlinear_arith)
        requires
            x <= 255,
    ;
    let x2: u128 = x * x;
    assert(x2 * x2 <= 4_228_250_625) by (nonlinear_arith)
        requires
            x2 <= 65_025,
    ;
    let x4: u128 = x2 * x2;
    assert(x4 * x4 <= 17_878_103_347_812_890_625) by (nonlinear_arith)
        requires
            x4 <= 4_228_250_625,
    ;
    let x8: u128 = x4 * x4;
    assert(x8 * x2 <= 1_162_523_670_191_533_212_890_625) by (nonlinear_arith)
        requires
            x8 <= 17_878_103_347_812_890_625,
            x2 <= 65_025,
    ;
    assert(x8 * x2 * x <= 296_443_535_898_840_969_287_109_375) by (nonlinear_arith)
        requires
            x8 * x2 <= 1_162_523_670_191_533_212_890_625,
            x <= 255,
    ;
    let x11: u128 = x8 * x2 * x;
    let lhs: u128 = 32 * x11;
    assert(lhs == 32 * pow11(c as int));
    let mut n: u32 = 0;
    while n < 255
        invariant
            n <= 255,
            lhs == 32 * pow11(c as int),
            lhs <= 9_486_193_148_762_911_017_187_500_000,
            gamma_from(c, n as u8) == gamma_of(c),
            n > 0 ==> pow5(2 * (n as int) - 1) * POW6_255 <= 32 * pow11(c as int),
        decreases 255 - n,
    {
        let q: u128 = (2 * n + 1) as u128;
        assert(q * q <= 261_121) by (nonlinear_arith)
            requires
                q <= 511,
        ;
        let q2: u128 = q * q;
        assert(q2 * q2 <= 68_184_176_641) by (nonlinear_arith)
            requires
                q2 <= 261_121,
        ;
        let q4: u128 = q2 * q2;
        assert(q4 * q <= 34_842_114_263_551) by (nonlinear_arith)
            requires
                q4 <= 68_184_176_641,
                q <= 511,
        ;
        assert(q4 * q * 274_941_996_890_625 <= 9_579_560_471_512_040_003_771_109_375) by (nonlinear_arith)
            requires
                q4 * q <= 34_842_114_263_551,
        ;
        let rhs: u128 = q4 * q * (POW6_255 as u128);
        assert(rhs == pow5(2 * (n as int) + 1) * POW6_255);
        if lhs < rhs {
            assert(pow11(c as int) >= 0);
            assert(pow5(-1int) == -1);
            return n as u8;
        }
        n = n + 1;
    }
    assert(gamma_from(c, 255) == 255);
    assert(pow5(511int) == 34_842_114_263_551) by (nonlinear_arith);
    assert(34_842_114_263_551 * 274_941_996_890_625 == 9_579_560_471_512_040_003_771_109_375) by (nonlinear_arith);
    255
}


/// Gamma-correct a triple channel by channel with exponent 2.2. Applied only
/// at frame-render time; the scaled color a pixel keeps is never gamma
/// corrected in place, since applying the correction twice crushes mid-tones.
pub fn gamma_correct(c: &Rgb) -> (r: Rgb)
    ensures
        r == gamma_rgb(*c),
        gamma_rel(c.red, r.red),
        gamma_rel(c.green, r.green),
        gamma_rel(c.blue, r.blue),
{
    Rgb { red: gamma_one(c.red), green: gamma_one(c.green), blue: gamma_one(c.blue) }
}

/// Green channel of the black-body fit, tabulated over t = kelvin / 100:
/// clamp(round(99.4708025861 * ln(t) - 161.1195681661), 0, 255), and 0 at t = 0.
pub open spec fn green_level(t: u16) -> u8 {
    match t {
        0 | 1 | 2 | 3 | 4 | 5 => 0,
        6 => 17,
        7 => 32,
        8 => 46,
        9 => 57,
        10 => 68,
        11 => 77,
        12 => 86,
        13 => 94,
        14 => 101,
        15 => 108,
        16 => 115,
        17 => 121,
        18 => 126,
        19 => 132,
        20 => 137,
        21 => 142,
        22 => 146,
        23 => 151,
        24 => 155,
        25 => 159,
        26 => 163,
        27 => 167,
        28 => 170,
        29 => 174,
        30 => 177,
        31 => 180,
        32 => 184,
        33 => 187,
        34 => 190,
        35 => 193,
        36 => 195,
        37 => 198,
        38 => 201,
        39 => 203,
        40 => 206,
        41 => 208,
        42 => 211,
        43 => 213,
        44 => 215,
        45 => 218,
        46 => 220,
        47 => 222,
        48 => 224,
        49 => 226,
        50 => 228,
        51 => 230,
        52 => 232,
        53 => 234,
        54 => 236,
        55 => 237,
        56 => 239,
        57 => 241,
        58 => 243,
        59 => 244,
        60 => 246,
        61 => 248,
        62 => 249,
        63 => 251,
        64 => 253,
        65 => 254,
        66 => 255,
        _ => 0,
    }
}

fn green_level_table(t: u16) -> (r: u8)
    ensures
        r == green_level(t),
{
    match t {
        0 | 1 | 2 | 3 | 4 | 5 => 0,
        6 => 17,
        7 => 32,
        8 => 46,
        9 => 57,
        10 => 68,
        11 => 77,
        12 => 86,
        13 => 94,
        14 => 101,
        15 => 108,
        16 => 115,
        17 => 121,
        18 => 126,
        19 => 132,
        20 => 137,
        21 => 142,
        22 => 146,
        23 => 151,
        24 => 155,
        25 => 159,
        26 => 163,
        27 => 167,
        28 => 170,
        29 => 174,
        30 => 177,
        31 => 180,
        32 => 184,
        33 => 187,
        34 => 190,
        35 => 193,
        36 => 195,
        37 => 198,
        38 => 201,
        39 => 203,
        40 => 206,
        41 => 208,
        42 => 211,
        43 => 213,
        44 => 215,
        45 => 218,
        46 => 220,
        47 => 222,
        48 => 224,
        49 => 226,
        50 => 228,
        51 => 230,
        52 => 232,
        53 => 234,
        54 => 236,
        55 => 237,
        56 => 239,
        57 => 241,
        58 => 243,
        59 => 244,
        60 => 246,
        61 => 248,
        62 => 249,
        63 => 251,
        64 => 253,
        65 => 254,
        66 => 255,
        _ => 0,
    }
}

/// Blue channel of the black-body fit, tabulated over t = kelvin / 100:
/// 0 up to t = 19, 255 from t = 66 on, and
/// clamp(round(138.5177312231 * ln(t - 10) - 305.0447927307), 0, 255) between.
pub open spec fn blue_level(t: u16) -> u8 {
    match t {
        0 | 1 | 2 | 3 | 4 | 5 | 6 | 7 | 8 | 9 | 10 | 11 | 12 | 13 | 14 | 15 | 16 | 17 | 18 | 19 => 0,
        20 => 14,
        21 => 27,
        22 => 39,
        23 => 50,
        24 => 61,
        25 => 70,
        26 => 79,
        27 => 87,
        28 => 95,
        29 => 103,
        30 => 110,
        31 => 117,
        32 => 123,
        33 => 129,
        34 => 135,
        35 => 141,
        36 => 146,
        37 => 151,
        38 => 157,
        39 => 161,
        40 => 166,
        41 => 171,
        42 => 175,
        43 => 179,
        44 => 183,
        45 => 187,
        46 => 191,
        47 => 195,
        48 => 199,
        49 => 202,
        50 => 206,
        51 => 209,
        52 => 213,
        53 => 216,
        54 => 219,
        55 => 222,
        56 => 225,
        57 => 228,
        58 => 231,
        59 => 234,
        60 => 237,
        61 => 240,
        62 => 242,
        63 => 245,
        64 => 248,
        65 => 250,
        66 => 255,
        _ => 0,
    }
}

fn blue_level_table(t: u16) -> (r: u8)
    ensures
        r == blue_level(t),
{
    match t {
        0 | 1 | 2 | 3 | 4 | 5 | 6 | 7 | 8 | 9 | 10 | 11 | 12 | 13 | 14 | 15 | 16 | 17 | 18 | 19 => 0,
        20 => 14,
        21 => 27,
        22 => 39,
        23 => 50,
        24 => 61,
        25 => 70,
        26 => 79,
        27 => 87,
        28 => 95,
        29 => 103,
        30 => 110,
        31 => 117,
        32 => 123,
        33 => 129,
        34 => 135,
        35 => 141,
        36 => 146,
        37 => 151,
        38 => 157,
        39 => 161,
        40 => 166,
        41 => 171,
        42 => 175,
        43 => 179,
        44 => 183,
        45 => 187,
        46 => 191,
        47 => 195,
        48 => 199,
        49 => 202,
        50 => 206,
        51 => 209,
        52 => 213,
        53 => 216,
        54 => 219,
        55 => 222,
        56 => 225,
        57 => 228,
        58 => 231,
        59 => 234,
        60 => 237,
        61 => 240,
        62 => 242,
        63 => 245,
        64 => 248,
        65 => 250,
        66 => 255,
        _ => 0,
    }
}


/// The black-body approximation at `kelvin`, over t = kelvin / 100. In the
/// tabulated range (t <= 66) the red channel of the fit is the constant 255.
pub open spec fn temp_rgb(kelvin: u16) -> Rgb {
    Rgb { red: 255, green: green_level(kelvin / 100), blue: blue_level(kelvin / 100) }
}

/// Approximate the color of black-body radiation at `kelvin` (Tanner
/// Helland's piecewise fit), tabulated for the warm range this system draws
/// its temperatures from: below 6700 K, where the high-temperature branch of
/// the fit has not yet begun and red is pinned at 255.
pub fn temperature_to_rgb(kelvin: u16) -> (r: Rgb)
    requires
        kelvin < 6700,
    ensures
        r == temp_rgb(kelvin),
{
    let t: u16 = kelvin / 100;
    Rgb { red: 255, green: green_level_table(t), blue: blue_level_table(t) }
}

} // verus!
