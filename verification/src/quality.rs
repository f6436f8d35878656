//! The quality curve: how many bits an encoder spends on a pixel at a given
//! quality setting.
//!
//! Each codec has a reference point, a quality setting and the bits it
//! spends per pixel there. Six steps of the setting halve or double the
//! bits. Quality is counted in levels, 294ths of a doubling, of which a step
//! of the constant rate factor is 49 and a point of a hardware encoder's
//! quality scale is 25; the powers of two in between come from two tables of
//! roots, in millionths.

use vstd::arithmetic::power2::{
    lemma2_to64,
    lemma_pow2_adds,
    lemma_pow2_pos,
    lemma_pow2_strictly_increases,
    lemma_pow2_unfold,
    pow2,
};
use vstd::prelude::*;
use crate::number::{saturate_u64, Milli};
use crate::text::{chars_of, contains_text, holds_text, lowercase_of, spells};
use crate::wide::{lemma_quotient_at_least, mul_div, power_of_two};

verus! {

/// The reference point of a codec.
#[derive(Clone, Copy, Debug, PartialEq, Eq, Structural)]
pub struct CodecReference {
    /// The constant rate factor of the reference point.
    pub reference_crf: u32,
    /// The bits spent per pixel there.
    pub reference_bits_per_pixel: Milli,
}

/// The reference point of the codec whose name, in lower case, is `lowered`;
/// that of H.264 for a name that is not known.
pub open spec fn codec_reference_of(lowered: Seq<char>) -> CodecReference {
    if lowered == "libx265"@ || lowered == "h265"@ || lowered == "hevc"@ {
        CodecReference { reference_crf: 28, reference_bits_per_pixel: Milli { thousandths: 40 } }
    } else if lowered == "libvpx-vp9"@ || lowered == "vp9"@ {
        CodecReference { reference_crf: 31, reference_bits_per_pixel: Milli { thousandths: 50 } }
    } else if lowered == "libaom-av1"@ || lowered == "av1"@ || lowered == "libsvtav1"@ {
        CodecReference { reference_crf: 32, reference_bits_per_pixel: Milli { thousandths: 32 } }
    } else if lowered == "prores"@ || lowered == "prores_ks"@ {
        CodecReference { reference_crf: 9, reference_bits_per_pixel: Milli { thousandths: 1900 } }
    } else if lowered == "h264_videotoolbox"@ || lowered == "h264_nvenc"@ {
        CodecReference { reference_crf: 23, reference_bits_per_pixel: Milli { thousandths: 45 } }
    } else {
        CodecReference { reference_crf: 23, reference_bits_per_pixel: Milli { thousandths: 75 } }
    }
}

/// Whether the codec is a hardware encoder, one with a quality scale from 0
/// to 100 in place of a constant rate factor.
pub open spec fn is_hardware_codec(codec: Seq<char>) -> bool {
    contains_text(codec, "videotoolbox"@) || contains_text(codec, "nvenc"@)
}

/// Computes [`codec_reference_of`] for a name that is already in lower case.
pub fn reference_for(lowered: &str) -> (reference: CodecReference)
    ensures
        reference == codec_reference_of(lowered@),
        9 <= reference.reference_crf <= 32,
        32 <= reference.reference_bits_per_pixel.thousandths <= 1900,
{
    let v = chars_of(lowered);
    if spells(&v, "libx265") || spells(&v, "h265") || spells(&v, "hevc") {
        CodecReference { reference_crf: 28, reference_bits_per_pixel: Milli { thousandths: 40 } }
    } else if spells(&v, "libvpx-vp9") || spells(&v, "vp9") {
        CodecReference { reference_crf: 31, reference_bits_per_pixel: Milli { thousandths: 50 } }
    } else if spells(&v, "libaom-av1") || spells(&v, "av1") || spells(&v, "libsvtav1") {
        CodecReference { reference_crf: 32, reference_bits_per_pixel: Milli { thousandths: 32 } }
    } else if spells(&v, "prores") || spells(&v, "prores_ks") {
        CodecReference { reference_crf: 9, reference_bits_per_pixel: Milli { thousandths: 1900 } }
    } else if spells(&v, "h264_videotoolbox") || spells(&v, "h264_nvenc") {
        CodecReference { reference_crf: 23, reference_bits_per_pixel: Milli { thousandths: 45 } }
    } else {
        CodecReference { reference_crf: 23, reference_bits_per_pixel: Milli { thousandths: 75 } }
    }
}

/// The reference point of a codec, whatever the case of its name.
pub fn codec_reference(codec: &str) -> (reference: CodecReference)
    ensures
        reference == codec_reference_of(lowercase_of(codec@)),
        9 <= reference.reference_crf <= 32,
        32 <= reference.reference_bits_per_pixel.thousandths <= 1900,
{
    let lowered = codec.to_lowercase();
    reference_for(lowered.as_str())
}

/// Decides [`is_hardware_codec`].
pub fn hardware_codec(codec: &str) -> (b: bool)
    ensures
        b == is_hardware_codec(codec@),
{
    let v = chars_of(codec);
    holds_text(&v, "videotoolbox") || holds_text(&v, "nvenc")
}

// ---------------------------------------------------------------------------
// Levels
// ---------------------------------------------------------------------------

/// The level of the reference point: 43 doublings above level zero.
pub open spec fn reference_level() -> int {
    12_642
}

/// The level of a quality setting against a reference point. A software
/// encoder goes by the constant rate factor, 49 levels to the step. A
/// hardware encoder goes by its quality scale, on which `quality` stands for
/// the constant rate factor `(100 - quality) / 1.96`: 25 levels to the point.
pub open spec fn quality_level(reference_crf: u32, hardware: bool, crf: u8, quality: u32) -> int {
    if hardware {
        reference_level() + 49 * reference_crf - 25 * (100 - quality)
    } else {
        reference_level() + 49 * (reference_crf - crf)
    }
}

/// Computes [`quality_level`].
pub fn level_of(reference_crf: u32, hardware: bool, crf: u8, quality: u32) -> (level: u64)
    requires
        reference_crf <= 255,
    ensures
        level == quality_level(reference_crf, hardware, crf, quality),
{
    if hardware {
        12_642 + 49 * (reference_crf as u64) + 25 * (quality as u64) - 2500
    } else {
        12_642 + 49 * (reference_crf as u64) - 49 * (crf as u64)
    }
}

/// Two to the power `i / 6`, in millionths, for `i` from 0 to 5.
pub open spec fn sixth_root(i: int) -> int {
    if i == 0 {
        1_000_000
    } else if i == 1 {
        1_122_462
    } else if i == 2 {
        1_259_921
    } else if i == 3 {
        1_414_214
    } else if i == 4 {
        1_587_401
    } else {
        1_781_797
    }
}

/// Two to the power `i / 294`, in millionths, for `i` from 0 to 48.
pub open spec fn fine_root(i: int) -> int {
    if i == 0 {
        1_000_000
    } else if i == 1 {
        1_002_360
    } else if i == 2 {
        1_004_726
    } else if i == 3 {
        1_007_098
    } else if i == 4 {
        1_009_475
    } else if i == 5 {
        1_011_858
    } else if i == 6 {
        1_014_246
    } else if i == 7 {
        1_016_640
    } else if i == 8 {
        1_019_040
    } else if i == 9 {
        1_021_446
    } else if i == 10 {
        1_023_857
    } else if i == 11 {
        1_026_273
    } else if i == 12 {
        1_028_696
    } else if i == 13 {
        1_031_124
    } else if i == 14 {
        1_033_558
    } else if i == 15 {
        1_035_997
    } else if i == 16 {
        1_038_443
    } else if i == 17 {
        1_040_894
    } else if i == 18 {
        1_043_351
    } else if i == 19 {
        1_045_814
    } else if i == 20 {
        1_048_282
    } else if i == 21 {
        1_050_757
    } else if i == 22 {
        1_053_237
    } else if i == 23 {
        1_055_723
    } else if i == 24 {
        1_058_215
    } else if i == 25 {
        1_060_713
    } else if i == 26 {
        1_063_216
    } else if i == 27 {
        1_065_726
    } else if i == 28 {
        1_068_242
    } else if i == 29 {
        1_070_763
    } else if i == 30 {
        1_073_291
    } else if i == 31 {
        1_075_824
    } else if i == 32 {
        1_078_363
    } else if i == 33 {
        1_080_909
    } else if i == 34 {
        1_083_460
    } else if i == 35 {
        1_086_018
    } else if i == 36 {
        1_088_581
    } else if i == 37 {
        1_091_151
    } else if i == 38 {
        1_093_726
    } else if i == 39 {
        1_096_308
    } else if i == 40 {
        1_098_896
    } else if i == 41 {
        1_101_490
    } else if i == 42 {
        1_104_090
    } else if i == 43 {
        1_106_696
    } else if i == 44 {
        1_109_308
    } else if i == 45 {
        1_111_926
    } else if i == 46 {
        1_114_551
    } else if i == 47 {
        1_117_182
    } else {
        1_119_819
    }
}

/// Computes [`sixth_root`].
fn sixth_root_at(i: u64) -> (root: u64)
    requires
        i < 6,
    ensures
        root == sixth_root(i as int),
        1_000_000 <= root <= 1_781_797,
{
    match i {
        0 => 1_000_000,
        1 => 1_122_462,
        2 => 1_259_921,
        3 => 1_414_214,
        4 => 1_587_401,
        _ => 1_781_797,
    }
}

/// Computes [`fine_root`].
fn fine_root_at(i: u64) -> (root: u64)
    requires
        i < 49,
    ensures
        root == fine_root(i as int),
        1_000_000 <= root <= 1_119_819,
{
    match i {
        0 => 1_000_000,
        1 => 1_002_360,
        2 => 1_004_726,
        3 => 1_007_098,
        4 => 1_009_475,
        5 => 1_011_858,
        6 => 1_014_246,
        7 => 1_016_640,
        8 => 1_019_040,
        9 => 1_021_446,
        10 => 1_023_857,
        11 => 1_026_273,
        12 => 1_028_696,
        13 => 1_031_124,
        14 => 1_033_558,
        15 => 1_035_997,
        16 => 1_038_443,
        17 => 1_040_894,
        18 => 1_043_351,
        19 => 1_045_814,
        20 => 1_048_282,
        21 => 1_050_757,
        22 => 1_053_237,
        23 => 1_055_723,
        24 => 1_058_215,
        25 => 1_060_713,
        26 => 1_063_216,
        27 => 1_065_726,
        28 => 1_068_242,
        29 => 1_070_763,
        30 => 1_073_291,
        31 => 1_075_824,
        32 => 1_078_363,
        33 => 1_080_909,
        34 => 1_083_460,
        35 => 1_086_018,
        36 => 1_088_581,
        37 => 1_091_151,
        38 => 1_093_726,
        39 => 1_096_308,
        40 => 1_098_896,
        41 => 1_101_490,
        42 => 1_104_090,
        43 => 1_106_696,
        44 => 1_109_308,
        45 => 1_111_926,
        46 => 1_114_551,
        47 => 1_117_182,
        _ => 1_119_819,
    }
}

// ---------------------------------------------------------------------------
// The curve
// ---------------------------------------------------------------------------

/// Two to the power `r / 294`, in millionths of millionths, for `r` from 0
/// to 293.
pub open spec fn root_factor(r: int) -> int {
    sixth_root(r / 49) * fine_root(r % 49)
}

/// The weight of a level: two to the power `level / 294`, in millionths of
/// millionths.
pub open spec fn level_factor(level: int) -> int {
    root_factor(level % 294) * pow2((level / 294) as nat)
}

/// What the curve's value is cut from: the bits per pixel, in thousandths,
/// times the weight of the level, times the pixel rate, in thousandths of a
/// pixel per second.
pub open spec fn curve_numerator(bits_per_pixel: Milli, level: int, pixel_rate: int) -> int {
    bits_per_pixel.thousandths * level_factor(level) * pixel_rate
}

/// What the numerator is divided by to give thousandths of a kilobit per
/// second: ten to the power 18, for the thousandths and millionths in it,
/// times two to the power 43, the weight of the reference level.
pub open spec fn curve_denominator() -> int {
    8_796_093_022_208_000_000_000_000_000_000
}

/// The bit rate on the curve of a codec with the given bits per pixel at its
/// reference point, at `level`, for `pixel_rate` thousandths of a pixel per
/// second: the reference bits per pixel, doubled for every 294 levels above
/// the reference level and halved for every 294 below, times the pixel rate.
pub open spec fn curve_kbps(bits_per_pixel: Milli, level: int, pixel_rate: int) -> Milli {
    Milli {
        thousandths: saturate_u64(
            curve_numerator(bits_per_pixel, level, pixel_rate) / curve_denominator(),
        ),
    }
}

proof fn lemma_pow2_75()
    ensures
        pow2(75) == 0x8_0000_0000_0000_0000_00,
        pow2(128) == 0x1_0000_0000_0000_0000_0000_0000_0000_0000,
{
    lemma2_to64();
    lemma_pow2_adds(64, 11);
    lemma_pow2_adds(64, 64);
}

fn curve_value(bits_per_pixel: Milli, level: u64, pixel_rate: u128) -> (kbps: Milli)
    requires
        32 <= bits_per_pixel.thousandths <= 1900,
    ensures
        kbps == curve_kbps(bits_per_pixel, level as int, pixel_rate as int),
{
    let doublings: u64 = level / 294;
    let r: u64 = level % 294;
    let coarse = sixth_root_at(r / 49);
    let fine = fine_root_at(r % 49);
    assert(coarse * fine <= 1_781_797 * 1_119_819 && coarse * fine >= 1_000_000 * 1_000_000)
        by (nonlinear_arith)
        requires
            1_000_000 <= coarse <= 1_781_797,
            1_000_000 <= fine <= 1_119_819,
    ;
    let root: u128 = coarse as u128 * fine as u128;
    assert(bits_per_pixel.thousandths * root <= 1900 * (1_781_797 * 1_119_819)
        && bits_per_pixel.thousandths * root >= 32 * (1_000_000 * 1_000_000)) by (nonlinear_arith)
        requires
            32 <= bits_per_pixel.thousandths <= 1900,
            1_000_000 * 1_000_000 <= root <= 1_781_797 * 1_119_819,
    ;
    let unit: u128 = bits_per_pixel.thousandths as u128 * root;
    let ghost weight = pow2(doublings as nat) as int;
    let ghost numerator = curve_numerator(bits_per_pixel, level as int, pixel_rate as int);
    assert(numerator == unit * weight * pixel_rate) by (nonlinear_arith)
        requires
            numerator == bits_per_pixel.thousandths * (root * weight) * pixel_rate,
            unit == bits_per_pixel.thousandths * root,
    ;
    if pixel_rate == 0 {
        assert(numerator == 0) by (nonlinear_arith)
            requires
                numerator == unit * weight * pixel_rate,
                pixel_rate == 0,
        ;
        return Milli { thousandths: 0 };
    }
    let low: u32 = if doublings > 75 {
        75
    } else {
        doublings as u32
    };
    let high: u64 = doublings - low as u64;
    let low_weight = power_of_two(low);
    proof {
        lemma_pow2_75();
        lemma_pow2_pos(low as nat);
        if low < 75 {
            lemma_pow2_strictly_increases(low as nat, 75);
        }
        lemma_pow2_adds(low as nat, high as nat);
        assert(unit * low_weight < 0x8000_0000_0000_0000_0000_0000_0000_0000) by (nonlinear_arith)
            requires
                0 <= unit <= 1900 * (1_781_797 * 1_119_819),
                0 < low_weight <= 0x8_0000_0000_0000_0000_00,
        ;
    }
    let a: u128 = unit * low_weight;
    let scaled: Option<u128> = if high == 0 {
        proof {
            lemma2_to64();
        }
        Some(pixel_rate)
    } else if high >= 128 {
        proof {
            lemma_pow2_pos(high as nat);
            if high > 128 {
                lemma_pow2_strictly_increases(128, high as nat);
            }
        }
        None
    } else {
        pixel_rate.checked_mul(power_of_two(high as u32))
    };
    let ghost high_weight = pow2(high as nat) as int;
    match scaled {
        Some(b) => {
            assert(a * b == numerator) by (nonlinear_arith)
                requires
                    a == unit * low_weight,
                    b == pixel_rate * high_weight,
                    weight == low_weight * high_weight,
                    numerator == unit * weight * pixel_rate,
            ;
            match mul_div(a, b, 8_796_093_022_208_000_000_000_000_000_000u128) {
                Some((quotient, _)) => Milli { thousandths: quotient },
                None => Milli { thousandths: u64::MAX },
            }
        },
        None => {
            proof {
                assert(pixel_rate * high_weight >= 0x1_0000_0000_0000_0000_0000_0000_0000_0000)
                    by (nonlinear_arith)
                    requires
                        pixel_rate * high_weight > 0xffff_ffff_ffff_ffff_ffff_ffff_ffff_ffff
                            || (pixel_rate >= 1 && high_weight
                            >= 0x1_0000_0000_0000_0000_0000_0000_0000_0000),
                ;
                assert(numerator >= 0x1_0000_0000_0000_0000 * curve_denominator())
                    by (nonlinear_arith)
                    requires
                        numerator == unit * weight * pixel_rate,
                        weight == low_weight * high_weight,
                        low_weight == 0x8_0000_0000_0000_0000_00,
                        unit >= 32 * (1_000_000 * 1_000_000),
                        pixel_rate * high_weight >= 0x1_0000_0000_0000_0000_0000_0000_0000_0000,
                        curve_denominator() == 8_796_093_022_208_000_000_000_000_000_000,
                ;
                lemma_quotient_at_least(numerator, curve_denominator(), 0x1_0000_0000_0000_0000);
            }
            Milli { thousandths: u64::MAX }
        },
    }
}

/// The bit rate on the curve of `codec` at `level`, for `pixel_rate`
/// thousandths of a pixel per second.
pub fn reference_bitrate_from_quality(codec: &str, level: u64, pixel_rate: u128) -> (kbps: Milli)
    ensures
        kbps == curve_kbps(
            codec_reference_of(lowercase_of(codec@)).reference_bits_per_pixel,
            level as int,
            pixel_rate as int,
        ),
{
    let reference = codec_reference(codec);
    curve_value(reference.reference_bits_per_pixel, level, pixel_rate)
}

// ---------------------------------------------------------------------------
// The curve rises with the level
// ---------------------------------------------------------------------------

proof fn lemma_level_factor_step(level: int)
    requires
        level >= 0,
    ensures
        0 < level_factor(level) < level_factor(level + 1),
{
    let r = level % 294;
    let s = level / 294;
    lemma_pow2_pos(s as nat);
    let p = pow2(s as nat) as int;
    if r < 293 {
        assert(0 < root_factor(r) < root_factor(r + 1)) by {
            lemma_root_factor_rises(r);
        }
        assert(root_factor(r) * p < root_factor(r + 1) * p && 0 < root_factor(r) * p)
            by (nonlinear_arith)
            requires
                0 < root_factor(r) < root_factor(r + 1),
                p > 0,
        ;
    } else {
        lemma_pow2_unfold((s + 1) as nat);
        assert(root_factor(0) == 1_000_000 * 1_000_000);
        assert(root_factor(293) * p < root_factor(0) * (2 * p) && 0 < root_factor(293) * p)
            by (nonlinear_arith)
            requires
                root_factor(293) == 1_781_797 * 1_119_819,
                root_factor(0) == 1_000_000 * 1_000_000,
                p > 0,
        ;
    }
}

proof fn lemma_root_factor_rises(r: int)
    requires
        0 <= r < 293,
    ensures
        0 < root_factor(r) < root_factor(r + 1),
{
    let a = r / 49;
    let b = r % 49;
    if b < 48 {
        assert((r + 1) / 49 == a && (r + 1) % 49 == b + 1);
        assert(0 < fine_root(b) < fine_root(b + 1));
        assert(sixth_root(a) * fine_root(b) < sixth_root(a) * fine_root(b + 1) && 0 < sixth_root(a)
            * fine_root(b)) by (nonlinear_arith)
            requires
                0 < fine_root(b) < fine_root(b + 1),
                sixth_root(a) >= 1_000_000,
        ;
    } else {
        assert((r + 1) / 49 == a + 1 && (r + 1) % 49 == 0);
        assert(a <= 4);
        assert(sixth_root(a) * 1_119_819 > 0);
    }
}

/// A higher level weighs more: the weight of a level rises strictly with
/// the level.
pub proof fn lemma_level_factor_rises(lower: int, higher: int)
    requires
        0 <= lower < higher,
    ensures
        0 < level_factor(lower) < level_factor(higher),
    decreases higher - lower,
{
    lemma_level_factor_step(lower);
    if lower + 1 < higher {
        lemma_level_factor_rises(lower + 1, higher);
    }
}

/// The curve rises with the level: at a higher level the value before it is
/// cut to thousandths is strictly greater, for any bits per pixel and any
/// pixel rate above zero, and the value itself is not smaller.
pub proof fn lemma_curve_rises(bits_per_pixel: Milli, lower: int, higher: int, pixel_rate: int)
    requires
        0 <= lower < higher,
        pixel_rate >= 0,
    ensures
        bits_per_pixel.thousandths > 0 && pixel_rate > 0 ==> curve_numerator(
            bits_per_pixel,
            lower,
            pixel_rate,
        ) < curve_numerator(bits_per_pixel, higher, pixel_rate),
        curve_kbps(bits_per_pixel, lower, pixel_rate).thousandths <= curve_kbps(
            bits_per_pixel,
            higher,
            pixel_rate,
        ).thousandths,
{
    lemma_level_factor_rises(lower, higher);
    let b = bits_per_pixel.thousandths as int;
    let f1 = level_factor(lower);
    let f2 = level_factor(higher);
    assert(b * f1 * pixel_rate <= b * f2 * pixel_rate && b * f1 * pixel_rate >= 0
        && (b > 0 && pixel_rate > 0 ==> b * f1 * pixel_rate < b * f2 * pixel_rate))
        by (nonlinear_arith)
        requires
            0 < f1 < f2,
            b >= 0,
            pixel_rate >= 0,
    ;
    vstd::arithmetic::div_mod::lemma_div_is_ordered(
        curve_numerator(bits_per_pixel, lower, pixel_rate),
        curve_numerator(bits_per_pixel, higher, pixel_rate),
        curve_denominator(),
    );
    vstd::arithmetic::div_mod::lemma_div_pos_is_pos(
        curve_numerator(bits_per_pixel, lower, pixel_rate),
        curve_denominator(),
    );
}

// ---------------------------------------------------------------------------
// The tables hold roots of two
// ---------------------------------------------------------------------------

/// `x` times itself.
pub open spec fn squared(x: int) -> int {
    x * x
}

/// `x` to the power 6.
pub open spec fn sixth_power(x: int) -> int {
    squared(x) * squared(x) * squared(x)
}

/// Each entry of the table of sixth roots is the millionth nearest to two to
/// the power `i / 6`: twice the entry is less than one away from two million
/// times that root.
pub proof fn lemma_sixth_roots_are_nearest(i: int)
    requires
        0 <= i <= 5,
    ensures
        sixth_power(2 * sixth_root(i) - 1) <= pow2(i as nat) * sixth_power(2_000_000)
            < sixth_power(2 * sixth_root(i) + 1),
{
    lemma2_to64();
    if i == 0 {
        assert(sixth_power(1_999_999int) <= 1 * sixth_power(2_000_000int) < sixth_power(
            2_000_001int,
        )) by (nonlinear_arith);
    } else if i == 1 {
        assert(sixth_power(2_244_923int) <= 2 * sixth_power(2_000_000int) < sixth_power(
            2_244_925int,
        )) by (nonlinear_arith);
    } else if i == 2 {
        assert(sixth_power(2_519_841int) <= 4 * sixth_power(2_000_000int) < sixth_power(
            2_519_843int,
        )) by (nonlinear_arith);
    } else if i == 3 {
        assert(sixth_power(2_828_427int) <= 8 * sixth_power(2_000_000int) < sixth_power(
            2_828_429int,
        )) by (nonlinear_arith);
    } else if i == 4 {
        assert(sixth_power(3_174_801int) <= 16 * sixth_power(2_000_000int) < sixth_power(
            3_174_803int,
        )) by (nonlinear_arith);
    } else {
        assert(sixth_power(3_563_593int) <= 32 * sixth_power(2_000_000int) < sixth_power(
            3_563_595int,
        )) by (nonlinear_arith);
    }
}

} // verus!
