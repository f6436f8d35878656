//! The frame size of the output: what the configured resolution makes of the
//! source's size.

use vstd::prelude::*;
use crate::config::{ConfigView, ConversionConfig};
use crate::error::{agrees, invalid_input, join, join4, ConversionError};
use crate::number::{parse_i32, parse_i32_text, parse_u32, parse_u32_text, saturate_u32};
use crate::probe::{option_text, optional_str, probe_view, ProbeMetadata, ProbeView};
use crate::text::{
    chars_of,
    count_char,
    find_char,
    lemma_occurs_within,
    occurrences,
    position_of,
    same_text,
    slice_of,
    spells,
    trim,
    trimmed,
};

verus! {

/// A frame size in pixels.
#[derive(Clone, Copy, Debug, PartialEq, Eq, Structural)]
pub struct VideoDimensions {
    pub width: u32,
    pub height: u32,
}

/// The frame size assumed where none is known: 1280 by 720.
pub open spec fn default_dimensions() -> VideoDimensions {
    VideoDimensions { width: 1280, height: 720 }
}

/// The aspect ratio assumed where none is known: 16 to 9.
pub open spec fn default_aspect() -> VideoDimensions {
    VideoDimensions { width: 16, height: 9 }
}

// ---------------------------------------------------------------------------
// The source's size
// ---------------------------------------------------------------------------

/// The size that a text of the form `<width>x<height>` states; `None` for
/// any other text.
pub open spec fn resolution_of(resolution: Option<Seq<char>>) -> Option<(u32, u32)> {
    match resolution {
        Some(text) => {
            let cross = position_of(text, 'x');
            if occurrences(text, 'x') == 1 {
                match (parse_u32_text(text.take(cross)), parse_u32_text(text.skip(cross + 1))) {
                    (Some(w), Some(h)) => Some((w as u32, h as u32)),
                    _ => None,
                }
            } else {
                None
            }
        },
        None => None,
    }
}

/// The size of the source: its width and height where both are known and
/// above zero, else what its resolution text states.
pub open spec fn source_dimensions(metadata: Option<ProbeView>) -> Option<VideoDimensions> {
    match metadata {
        Some(m) => match (m.width, m.height) {
            (Some(w), Some(h)) if w > 0 && h > 0 => Some(VideoDimensions { width: w, height: h }),
            _ => match resolution_of(m.resolution) {
                Some((w, h)) => Some(VideoDimensions { width: w, height: h }),
                None => None,
            },
        },
        None => None,
    }
}

/// Reads a size of the form `<width>x<height>`.
pub fn parse_resolution(metadata_resolution: Option<&String>) -> (size: Option<(u32, u32)>)
    ensures
        size == resolution_of(
            match metadata_resolution {
                Some(r) => Some(r@),
                None => None,
            },
        ),
{
    match metadata_resolution {
        Some(resolution) => {
            let text = chars_of(resolution.as_str());
            if count_char(&text, 'x') != 1 {
                return None;
            }
            let cross = find_char(&text, 0, 'x');
            assert(text@.subrange(0, text.len() as int) == text@);
            proof {
                lemma_occurs_within(text@, 'x');
            }
            let head = slice_of(&text, 0, cross);
            let tail = slice_of(&text, cross + 1, text.len());
            match (parse_u32(&head), parse_u32(&tail)) {
                (Some(w), Some(h)) => Some((w, h)),
                _ => None,
            }
        },
        None => None,
    }
}

/// The size of the source, where it is known.
pub fn metadata_dimensions(metadata: Option<&ProbeMetadata>) -> (size: Option<VideoDimensions>)
    ensures
        size == source_dimensions(probe_view(metadata)),
{
    match metadata {
        Some(meta) => {
            match (meta.width, meta.height) {
                (Some(w), Some(h)) => {
                    if w > 0 && h > 0 {
                        return Some(VideoDimensions { width: w, height: h });
                    }
                },
                _ => {},
            }
            match parse_resolution(meta.resolution.as_ref()) {
                Some((w, h)) => Some(VideoDimensions { width: w, height: h }),
                None => None,
            }
        },
        None => None,
    }
}

// ---------------------------------------------------------------------------
// Scaling
// ---------------------------------------------------------------------------

/// The width that goes with a height at 16 to 9: the customary width for the
/// customary heights, else the height times 16/9, rounded to the nearest.
pub open spec fn nominal_width(height: u32) -> u32 {
    if height == 2160 {
        3840
    } else if height == 1440 {
        2560
    } else if height == 1080 {
        1920
    } else if height == 720 {
        1280
    } else if height == 576 {
        1024
    } else if height == 480 {
        854
    } else {
        saturate_u32((32 * height + 9) / 18)
    }
}

/// `known * numerator / denominator`, rounded to the nearest, halves upward,
/// and held between 1 and the largest 32-bit value. A denominator of zero
/// gives the largest value, unless the product is zero too, which gives 1.
pub open spec fn scaled_dimension(known: u32, numerator: u32, denominator: u32) -> u32 {
    if denominator == 0 {
        if numerator == 0 || known == 0 {
            1
        } else {
            u32::MAX
        }
    } else {
        let rounded = (2 * known * numerator + denominator) / (2 * denominator);
        if rounded < 1 {
            1
        } else {
            saturate_u32(rounded)
        }
    }
}

/// The size with one side given and the other derived from the aspect ratio
/// of `aspect`, its width to its height.
pub open spec fn dimension_from_aspect(known: u32, aspect: VideoDimensions, is_width_known: bool) -> VideoDimensions {
    if is_width_known {
        VideoDimensions {
            width: known,
            height: scaled_dimension(known, aspect.height, aspect.width),
        }
    } else {
        VideoDimensions {
            width: scaled_dimension(known, aspect.width, aspect.height),
            height: known,
        }
    }
}

/// The size for a preset height: the width keeps the source's aspect ratio
/// where the source's size is known, and is the nominal width otherwise.
pub open spec fn preset_dimensions(height: u32, source: Option<VideoDimensions>) -> VideoDimensions {
    VideoDimensions {
        width: if height == 0 {
            1280
        } else {
            match source {
                Some(size) => scaled_dimension(height, size.width, size.height),
                None => nominal_width(height),
            }
        },
        height: if height < 1 {
            1
        } else {
            height
        },
    }
}

/// Computes [`nominal_width`].
pub fn nominal_width_for_height(height: u32) -> (width: u32)
    ensures
        width == nominal_width(height),
{
    if height == 2160 {
        3840
    } else if height == 1440 {
        2560
    } else if height == 1080 {
        1920
    } else if height == 720 {
        1280
    } else if height == 576 {
        1024
    } else if height == 480 {
        854
    } else {
        let rounded: u64 = (32 * (height as u64) + 9) / 18;
        if rounded > u32::MAX as u64 {
            u32::MAX
        } else {
            rounded as u32
        }
    }
}

/// Computes [`scaled_dimension`].
pub fn scale_dimension(known: u32, numerator: u32, denominator: u32) -> (scaled: u32)
    ensures
        scaled == scaled_dimension(known, numerator, denominator),
{
    if denominator == 0 {
        if numerator == 0 || known == 0 {
            1
        } else {
            u32::MAX
        }
    } else {
        assert(known * numerator <= 0xffff_ffff * 0xffff_ffff) by (nonlinear_arith)
            requires
                0 <= known <= 0xffff_ffff,
                0 <= numerator <= 0xffff_ffff,
        ;
        let product: u64 = known as u64 * numerator as u64;
        let rounded: u128 = (2 * (product as u128) + denominator as u128) / (2 * (
        denominator as u128));
        assert(2 * (known * numerator) == 2 * known * numerator) by (nonlinear_arith);
        if rounded < 1 {
            1
        } else if rounded > u32::MAX as u128 {
            u32::MAX
        } else {
            rounded as u32
        }
    }
}

/// Derives the missing side of a size from an aspect ratio.
pub fn derive_dimension_from_aspect(known: u32, aspect: VideoDimensions, is_width_known: bool) -> (size:
    VideoDimensions)
    ensures
        size == dimension_from_aspect(known, aspect, is_width_known),
{
    if is_width_known {
        VideoDimensions { width: known, height: scale_dimension(known, aspect.height, aspect.width) }
    } else {
        VideoDimensions { width: scale_dimension(known, aspect.width, aspect.height), height: known }
    }
}

/// The size for a preset height.
pub fn resolution_from_height(height: u32, source: Option<VideoDimensions>) -> (size:
    VideoDimensions)
    ensures
        size == preset_dimensions(height, source),
{
    let width = if height == 0 {
        1280
    } else {
        match source {
            Some(size) => scale_dimension(height, size.width, size.height),
            None => nominal_width_for_height(height),
        }
    };
    VideoDimensions {
        width,
        height: if height < 1 {
            1
        } else {
            height
        },
    }
}

// ---------------------------------------------------------------------------
// Custom sizes
// ---------------------------------------------------------------------------

/// What a custom dimension asks for: `None` to derive it, where the setting
/// is absent, blank or `-1`; a number of pixels above zero; or an error for
/// any other text. `field` names the setting in the error.
pub open spec fn custom_dimension_of(value: Option<Seq<char>>, field: Seq<char>) -> Result<
    Option<u32>,
    Seq<char>,
> {
    match value {
        None => Ok(None),
        Some(raw) => if trim(raw).len() == 0 || trim(raw) == "-1"@ {
            Ok(None)
        } else {
            match parse_i32_text(trim(raw)) {
                None => Err("Invalid "@ + field + " value: "@ + raw),
                Some(pixels) => if pixels <= 0 {
                    Err(field + " must be positive or -1, got "@ + raw)
                } else {
                    Ok(Some(pixels as u32))
                },
            }
        },
    }
}

/// The source's aspect ratio, or 16 to 9 where its size is unknown.
pub open spec fn aspect_of(source: Option<VideoDimensions>) -> VideoDimensions {
    match source {
        Some(size) => size,
        None => default_aspect(),
    }
}

/// The source's size, or 1280 by 720 where it is unknown.
pub open spec fn size_or_default(source: Option<VideoDimensions>) -> VideoDimensions {
    match source {
        Some(size) => size,
        None => default_dimensions(),
    }
}

/// The size for a custom resolution: both sides as given; one side given and
/// the other derived from the aspect ratio; or the source's size where
/// neither is given. The width is read first, and its error comes first.
pub open spec fn custom_dimensions_of(config: ConfigView, source: Option<VideoDimensions>) -> Result<
    VideoDimensions,
    Seq<char>,
> {
    match custom_dimension_of(config.custom_width, "customWidth"@) {
        Err(e) => Err(e),
        Ok(width) => match custom_dimension_of(config.custom_height, "customHeight"@) {
            Err(e) => Err(e),
            Ok(height) => Ok(
                match (width, height) {
                    (Some(w), Some(h)) => VideoDimensions { width: w, height: h },
                    (Some(w), None) => dimension_from_aspect(w, aspect_of(source), true),
                    (None, Some(h)) => dimension_from_aspect(h, aspect_of(source), false),
                    (None, None) => size_or_default(source),
                },
            ),
        },
    }
}

/// The frame size of the output: a preset height with a width to match, a
/// custom size, or else the source's size.
pub open spec fn target_dimensions_of(config: ConfigView, metadata: Option<ProbeView>) -> Result<
    VideoDimensions,
    Seq<char>,
> {
    let source = source_dimensions(metadata);
    if config.resolution == "1080p"@ {
        Ok(preset_dimensions(1080, source))
    } else if config.resolution == "720p"@ {
        Ok(preset_dimensions(720, source))
    } else if config.resolution == "480p"@ {
        Ok(preset_dimensions(480, source))
    } else if config.resolution == "custom"@ {
        custom_dimensions_of(config, source)
    } else {
        Ok(size_or_default(source))
    }
}

/// Reads one custom dimension.
pub fn parse_custom_dimension(value: Option<&str>, field: &str) -> (outcome: Result<
    Option<u32>,
    ConversionError,
>)
    ensures
        agrees(outcome, custom_dimension_of(option_text(value), field@)),
{
    match value {
        None => Ok(None),
        Some(raw) => {
            let text = trimmed(&chars_of(raw));
            if text.len() == 0 || spells(&text, "-1") {
                return Ok(None);
            }
            match parse_i32(&text) {
                None => invalid_input(join4("Invalid ", field, " value: ", raw)),
                Some(pixels) => {
                    if pixels <= 0 {
                        invalid_input(join(join(field, " must be positive or -1, got ").as_str(), raw))
                    } else {
                        Ok(Some(pixels as u32))
                    }
                },
            }
        },
    }
}

/// The size for a custom resolution.
pub fn custom_dimensions(config: &ConversionConfig, source: Option<VideoDimensions>) -> (outcome:
    Result<VideoDimensions, ConversionError>)
    ensures
        agrees(outcome, custom_dimensions_of(config@, source)),
{
    let width = match parse_custom_dimension(optional_str(&config.custom_width), "customWidth") {
        Ok(w) => w,
        Err(e) => {
            return Err(e);
        },
    };
    let height = match parse_custom_dimension(optional_str(&config.custom_height), "customHeight") {
        Ok(h) => h,
        Err(e) => {
            return Err(e);
        },
    };
    let aspect = match source {
        Some(size) => size,
        None => VideoDimensions { width: 16, height: 9 },
    };
    Ok(
        match (width, height) {
            (Some(w), Some(h)) => VideoDimensions { width: w, height: h },
            (Some(w), None) => derive_dimension_from_aspect(w, aspect, true),
            (None, Some(h)) => derive_dimension_from_aspect(h, aspect, false),
            (None, None) => match source {
                Some(size) => size,
                None => VideoDimensions { width: 1280, height: 720 },
            },
        },
    )
}

/// The frame size of the output.
pub fn determine_target_dimensions(config: &ConversionConfig, metadata: Option<&ProbeMetadata>) -> (outcome:
    Result<VideoDimensions, ConversionError>)
    ensures
        agrees(outcome, target_dimensions_of(config@, probe_view(metadata))),
{
    let source = metadata_dimensions(metadata);
    let resolution = config.resolution.as_str();
    if same_text(resolution, "1080p") {
        Ok(resolution_from_height(1080, source))
    } else if same_text(resolution, "720p") {
        Ok(resolution_from_height(720, source))
    } else if same_text(resolution, "480p") {
        Ok(resolution_from_height(480, source))
    } else if same_text(resolution, "custom") {
        custom_dimensions(config, source)
    } else {
        Ok(
            match source {
                Some(size) => size,
                None => VideoDimensions { width: 1280, height: 720 },
            },
        )
    }
}

} // verus!
