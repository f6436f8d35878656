//! The estimation engine: the bit rate and the size that a conversion will
//! come to, from its configuration and from what is known of the source.
//!
//! [`estimate_of`] says what the estimate is; [`estimate_output`] computes
//! it. Every quantity is exact to the thousandth: bit rates in kilobits per
//! second, frame rates in frames per second, durations in seconds, sizes in
//! megabytes.

use vstd::arithmetic::div_mod::lemma_div_is_ordered;
use vstd::prelude::*;
use crate::config::{
    is_audio_only_container,
    is_audio_only_name,
    ConfigView,
    ConversionConfig,
};
use crate::dimensions::{
    determine_target_dimensions,
    target_dimensions_of,
    VideoDimensions,
};
use crate::error::{agrees, invalid_input, join, join4, ConversionError};
use crate::number::{parse_decimal, parse_decimal_text, saturate_u32, saturate_u64, Decimal, Milli};
use crate::probe::{
    known_audio_sum,
    known_audio_total,
    parse_probe_bitrate,
    probe_bitrate_of,
    probe_view,
    track_views,
    AudioTrack,
    AudioTrackView,
    ProbeMetadata,
    ProbeView,
};
use crate::quality::{
    codec_reference,
    codec_reference_of,
    curve_kbps,
    curve_numerator,
    hardware_codec,
    is_hardware_codec,
    lemma_curve_rises,
    level_of,
    quality_level,
    reference_bitrate_from_quality,
};
use crate::text::{
    begins_with,
    chars_of,
    count_char,
    eq_ignoring_ascii_case,
    find_char,
    lemma_occurs_within,
    lemma_second_occurrence,
    lowercase_of,
    occurrences,
    position_of,
    replace_char,
    replaced,
    same_text,
    slice_of,
    spells,
    spells_ignoring_ascii_case,
    starts_with,
    trim,
    trimmed,
};

verus! {

/// The predicted outcome of a conversion. The bit rates are in whole
/// kilobits per second, each rounded to the nearest; the size is in
/// megabytes, and absent where the duration of the source is unknown.
#[derive(Clone, Copy, Debug, PartialEq, Eq, Structural)]
pub struct OutputEstimate {
    pub video_kbps: u32,
    pub audio_kbps: u32,
    pub total_kbps: u32,
    pub size_mb: Option<Milli>,
}

// ---------------------------------------------------------------------------
// Frame rate and configured bit rates
// ---------------------------------------------------------------------------

/// The frame rate of the output: that of the source, or 30 where it is
/// unknown, if the rate stays as it is; else the configured rate, which must
/// be a number above zero.
pub open spec fn target_fps_of(config: ConfigView, metadata: Option<ProbeView>) -> Result<
    Milli,
    Seq<char>,
> {
    if config.fps == "original"@ {
        Ok(
            match metadata {
                Some(m) => match m.frame_rate {
                    Some(rate) => rate,
                    None => Milli { thousandths: 30_000 },
                },
                None => Milli { thousandths: 30_000 },
            },
        )
    } else {
        match parse_decimal_text(trim(config.fps)) {
            None => Err("Invalid fps value: "@ + config.fps),
            Some(rate) => if rate.is_positive() {
                Ok(rate.clamped())
            } else {
                Err("Frame rate must be positive, got "@ + config.fps)
            },
        }
    }
}

/// A configured bit rate: a number above zero, in which a comma may stand
/// for the decimal point. `field` names the setting in the error.
pub open spec fn config_bitrate_of(value: Seq<char>, field: Seq<char>) -> Result<Milli, Seq<char>> {
    if trim(value).len() == 0 {
        Err(field + " must not be empty"@)
    } else {
        match parse_decimal_text(replaced(trim(value), ',', '.')) {
            None => Err("Invalid "@ + field + " value: "@ + value),
            Some(rate) => if rate.is_positive() {
                Ok(rate.clamped())
            } else {
                Err(field + " must be positive, got "@ + value)
            },
        }
    }
}

/// The frame rate of the output.
pub fn determine_target_fps(config: &ConversionConfig, metadata: Option<&ProbeMetadata>) -> (outcome:
    Result<Milli, ConversionError>)
    ensures
        agrees(outcome, target_fps_of(config@, probe_view(metadata))),
{
    if same_text(config.fps.as_str(), "original") {
        return Ok(
            match metadata {
                Some(m) => match m.frame_rate {
                    Some(rate) => rate,
                    None => Milli { thousandths: 30_000 },
                },
                None => Milli { thousandths: 30_000 },
            },
        );
    }
    match parse_decimal(&trimmed(&chars_of(config.fps.as_str()))) {
        None => invalid_input(join("Invalid fps value: ", config.fps.as_str())),
        Some(rate) => {
            if rate.positive() {
                Ok(rate.to_milli())
            } else {
                invalid_input(join("Frame rate must be positive, got ", config.fps.as_str()))
            }
        },
    }
}

/// Reads a configured bit rate.
pub fn parse_config_bitrate(value: &str, field: &str) -> (outcome: Result<Milli, ConversionError>)
    ensures
        agrees(outcome, config_bitrate_of(value@, field@)),
{
    let text = trimmed(&chars_of(value));
    if text.len() == 0 {
        return invalid_input(join(field, " must not be empty"));
    }
    match parse_decimal(&replace_char(&text, ',', '.')) {
        None => invalid_input(join4("Invalid ", field, " value: ", value)),
        Some(rate) => {
            if rate.positive() {
                Ok(rate.to_milli())
            } else {
                invalid_input(join(join(field, " must be positive, got ").as_str(), value))
            }
        },
    }
}

// ---------------------------------------------------------------------------
// Audio
// ---------------------------------------------------------------------------

/// `ids` with every repeat of an earlier id left out.
pub open spec fn without_repeats(ids: Seq<u32>) -> Seq<u32>
    decreases ids.len(),
{
    if ids.len() == 0 {
        seq![]
    } else if without_repeats(ids.drop_last()).contains(ids.last()) {
        without_repeats(ids.drop_last())
    } else {
        without_repeats(ids.drop_last()).push(ids.last())
    }
}

/// The audio tracks that the output carries: the selected ones, each once;
/// else the first track of the source; else one track, numbered 0, where the
/// container holds audio alone; else none.
pub open spec fn audio_track_ids(config: ConfigView, metadata: Option<ProbeView>, audio_only: bool) -> Seq<
    u32,
> {
    if config.selected_audio_tracks.len() > 0 {
        without_repeats(config.selected_audio_tracks)
    } else if metadata is Some && metadata->0.audio_tracks.len() > 0 {
        seq![metadata->0.audio_tracks[0].index]
    } else if audio_only {
        seq![0u32]
    } else {
        seq![]
    }
}

/// The position of the first track numbered `id`; the number of tracks where
/// there is none.
pub open spec fn track_position(tracks: Seq<AudioTrackView>, id: u32) -> int
    decreases tracks.len(),
{
    if tracks.len() == 0 || tracks[0].index == id {
        0
    } else {
        1 + track_position(tracks.drop_first(), id)
    }
}

/// The bit rate assumed for a copied track whose own is unknown: 128.
pub open spec fn fallback_audio_kbps() -> Milli {
    Milli { thousandths: 128_000 }
}

/// The bit rate of the copied track `id`: its probed rate, or the fallback
/// where the source has no such track or does not know its rate.
pub open spec fn copied_track_kbps(tracks: Seq<AudioTrackView>, id: u32) -> Milli {
    let at = track_position(tracks, id);
    if at < tracks.len() && tracks[at].bitrate_kbps is Some && tracks[at].bitrate_kbps->0.thousandths
        > 0 {
        tracks[at].bitrate_kbps->0
    } else {
        fallback_audio_kbps()
    }
}

/// The bit rates of the copied tracks `ids`, summed, in thousandths.
pub open spec fn copied_sum(tracks: Seq<AudioTrackView>, ids: Seq<u32>) -> int
    decreases ids.len(),
{
    if ids.len() == 0 {
        0
    } else {
        copied_sum(tracks, ids.drop_last()) + copied_track_kbps(tracks, ids.last()).thousandths
    }
}

/// Whether the audio codec writes raw samples.
pub open spec fn is_raw_audio(codec: Seq<char>) -> bool {
    starts_with(lowercase_of(codec), "pcm_"@)
}

/// The bit rate of one track of raw audio: the configured rate where it is a
/// number above zero, else 1536.
pub open spec fn raw_audio_kbps(audio_bitrate: Seq<char>) -> Milli {
    match parse_decimal_text(audio_bitrate) {
        Some(rate) => if rate.is_positive() {
            rate.clamped()
        } else {
            Milli { thousandths: 1_536_000 }
        },
        None => Milli { thousandths: 1_536_000 },
    }
}

/// `count` tracks at `rate` each.
pub open spec fn tracks_at(rate: Milli, count: nat) -> Milli {
    Milli { thousandths: saturate_u64(rate.thousandths * count) }
}

/// The audio bit rate of the output: nothing without tracks; the rates of
/// the source's tracks where they are copied and the source is known; 1536
/// or the configured rate per track for raw audio; else the configured rate
/// per track, which must then be a number above zero.
pub open spec fn audio_kbps_of(config: ConfigView, metadata: Option<ProbeView>, audio_only: bool) -> Result<
    Milli,
    Seq<char>,
> {
    let ids = audio_track_ids(config, metadata, audio_only);
    if ids.len() == 0 {
        Ok(Milli { thousandths: 0 })
    } else if eq_ignoring_ascii_case(config.audio_codec, "copy"@) && metadata is Some {
        Ok(Milli { thousandths: saturate_u64(copied_sum(metadata->0.audio_tracks, ids)) })
    } else if is_raw_audio(config.audio_codec) {
        Ok(tracks_at(raw_audio_kbps(config.audio_bitrate), ids.len()))
    } else {
        match config_bitrate_of(config.audio_bitrate, "audio bitrate"@) {
            Ok(rate) => Ok(tracks_at(rate, ids.len())),
            Err(e) => Err(e),
        }
    }
}

fn holds_id(ids: &Vec<u32>, id: u32) -> (b: bool)
    ensures
        b == ids@.contains(id),
{
    let mut i: usize = 0;
    while i < ids.len()
        invariant
            i <= ids.len(),
            forall|k: int| 0 <= k < i ==> ids@[k] != id,
        decreases ids.len() - i,
    {
        if ids[i] == id {
            return true;
        }
        i += 1;
    }
    false
}

/// The audio tracks that the output carries.
pub fn resolve_audio_track_ids(
    config: &ConversionConfig,
    metadata: Option<&ProbeMetadata>,
    audio_only: bool,
) -> (ids: Vec<u32>)
    ensures
        ids@ == audio_track_ids(config@, probe_view(metadata), audio_only),
{
    let selected = &config.selected_audio_tracks;
    if selected.len() > 0 {
        let mut ordered: Vec<u32> = Vec::new();
        let mut i: usize = 0;
        while i < selected.len()
            invariant
                i <= selected.len(),
                ordered@ == without_repeats(selected@.take(i as int)),
            decreases selected.len() - i,
        {
            assert(selected@.take(i + 1).drop_last() == selected@.take(i as int));
            if !holds_id(&ordered, selected[i]) {
                ordered.push(selected[i]);
            }
            i += 1;
        }
        assert(selected@.take(selected.len() as int) == selected@);
        return ordered;
    }
    let mut ids: Vec<u32> = Vec::new();
    match metadata {
        Some(m) => {
            if m.audio_tracks.len() > 0 {
                ids.push(m.audio_tracks[0].index);
                return ids;
            }
        },
        None => {},
    }
    if audio_only {
        ids.push(0);
    }
    ids
}

proof fn lemma_track_position(tracks: Seq<AudioTrackView>, id: u32, k: int)
    requires
        0 <= k <= tracks.len(),
        forall|i: int| 0 <= i < k ==> (#[trigger] tracks[i]).index != id,
        k == tracks.len() || tracks[k].index == id,
    ensures
        track_position(tracks, id) == k,
    decreases k,
{
    if k > 0 {
        let rest = tracks.drop_first();
        assert forall|i: int| 0 <= i < k - 1 implies (#[trigger] rest[i]).index != id by {}
        lemma_track_position(rest, id, k - 1);
    }
}

fn copied_track(tracks: &Vec<AudioTrack>, id: u32) -> (rate: Milli)
    ensures
        rate == copied_track_kbps(track_views(tracks@), id),
{
    let mut i: usize = 0;
    while i < tracks.len() && tracks[i].index != id
        invariant
            i <= tracks.len(),
            forall|k: int| 0 <= k < i ==> (#[trigger] track_views(tracks@)[k]).index != id,
        decreases tracks.len() - i,
    {
        i += 1;
    }
    proof {
        lemma_track_position(track_views(tracks@), id, i as int);
    }
    if i < tracks.len() {
        match tracks[i].bitrate_kbps {
            Some(rate) => {
                if rate.thousandths > 0 {
                    return rate;
                }
            },
            None => {},
        }
    }
    Milli { thousandths: 128_000 }
}

fn saturated(x: u128) -> (y: u64)
    ensures
        y == saturate_u64(x as int),
{
    if x > u64::MAX as u128 {
        u64::MAX
    } else {
        x as u64
    }
}

fn times_count(rate: Milli, count: usize) -> (total: Milli)
    ensures
        total == tracks_at(rate, count as nat),
{
    assert(rate.thousandths * count <= 0xffff_ffff_ffff_ffff * 0xffff_ffff_ffff_ffff)
        by (nonlinear_arith)
        requires
            0 <= rate.thousandths <= 0xffff_ffff_ffff_ffff,
            0 <= count <= 0xffff_ffff_ffff_ffff,
    ;
    Milli { thousandths: saturated(rate.thousandths as u128 * count as u128) }
}

fn raw_audio_rate(audio_bitrate: &str) -> (rate: Milli)
    ensures
        rate == raw_audio_kbps(audio_bitrate@),
{
    match parse_decimal(&chars_of(audio_bitrate)) {
        Some(rate) => {
            if rate.positive() {
                rate.to_milli()
            } else {
                Milli { thousandths: 1_536_000 }
            }
        },
        None => Milli { thousandths: 1_536_000 },
    }
}

/// The audio bit rate of the output.
pub fn estimate_audio_bitrate_kbps(
    config: &ConversionConfig,
    metadata: Option<&ProbeMetadata>,
    audio_only: bool,
) -> (outcome: Result<Milli, ConversionError>)
    ensures
        agrees(outcome, audio_kbps_of(config@, probe_view(metadata), audio_only)),
{
    let ids = resolve_audio_track_ids(config, metadata, audio_only);
    if ids.len() == 0 {
        return Ok(Milli { thousandths: 0 });
    }
    if spells_ignoring_ascii_case(&chars_of(config.audio_codec.as_str()), "copy") {
        match metadata {
            Some(m) => {
                let mut sum: u128 = 0;
                let mut i: usize = 0;
                while i < ids.len()
                    invariant
                        i <= ids.len(),
                        sum == copied_sum(track_views(m.audio_tracks@), ids@.take(i as int)),
                        sum <= i * 0xffff_ffff_ffff_ffff,
                    decreases ids.len() - i,
                {
                    assert(ids@.take(i + 1).drop_last() == ids@.take(i as int));
                    let rate = copied_track(&m.audio_tracks, ids[i]);
                    sum = sum + rate.thousandths as u128;
                    i += 1;
                }
                assert(ids@.take(ids.len() as int) == ids@);
                return Ok(Milli { thousandths: saturated(sum) });
            },
            None => {},
        }
    }
    let lowered = config.audio_codec.to_lowercase();
    if begins_with(&chars_of(lowered.as_str()), "pcm_") {
        return Ok(times_count(raw_audio_rate(config.audio_bitrate.as_str()), ids.len()));
    }
    match parse_config_bitrate(config.audio_bitrate.as_str(), "audio bitrate") {
        Ok(rate) => Ok(times_count(rate, ids.len())),
        Err(e) => Err(e),
    }
}

// ---------------------------------------------------------------------------
// Video
// ---------------------------------------------------------------------------

/// The video bit rate of the source: its probed rate where that is above
/// zero; else 95 hundredths of the rate of the whole file, the rest being
/// taken for overhead, less the known rates of the audio tracks, and no less
/// than zero; unknown where the rate of the file is unknown too.
pub open spec fn source_video_kbps(metadata: Option<ProbeView>) -> Option<Milli> {
    match metadata {
        Some(m) => if m.video_bitrate_kbps is Some && m.video_bitrate_kbps->0.thousandths > 0 {
            m.video_bitrate_kbps
        } else {
            match probe_bitrate_of(m.bitrate) {
                Some(whole) => Some(
                    Milli {
                        thousandths: saturate_u64(
                            whole.thousandths * 95 / 100 - known_audio_sum(m.audio_tracks),
                        ),
                    },
                ),
                None => None,
            }
        },
        None => None,
    }
}

/// The pixel rate of a frame size at a frame rate, in thousandths of a pixel
/// per second.
pub open spec fn pixel_rate_of(size: VideoDimensions, fps: Milli) -> int {
    size.width * size.height * fps.thousandths
}

/// The level of the configured quality on the curve of the configured codec.
pub open spec fn configured_level(config: ConfigView) -> int {
    quality_level(
        codec_reference_of(lowercase_of(config.video_codec)).reference_crf,
        is_hardware_codec(config.video_codec),
        config.crf,
        config.quality,
    )
}

/// The video bit rate in quality mode.
///
/// Where the source's bit rate is known, it is projected onto the output by
/// the ratio of the pixel rates and scaled by two to the power of a sixth of
/// the distance from the configured quality to the quality that the source
/// has on the codec's curve. The source's quality is the one at which the
/// curve, at the source's pixel rate, gives the source's bit rate; so the
/// projection lands on the curve again, at the configured quality and the
/// output's pixel rate, whatever the source's bit rate is, as long as it is
/// above zero. A source whose bit rate comes to zero projects to zero.
/// Where the source's bit rate is unknown, the curve is read directly.
pub open spec fn quality_video_kbps(
    config: ConfigView,
    metadata: Option<ProbeView>,
    size: VideoDimensions,
    fps: Milli,
) -> Milli {
    if source_video_kbps(metadata) == Some(Milli { thousandths: 0 }) {
        Milli { thousandths: 0 }
    } else {
        curve_kbps(
            codec_reference_of(lowercase_of(config.video_codec)).reference_bits_per_pixel,
            configured_level(config),
            pixel_rate_of(size, fps),
        )
    }
}

/// The video bit rate of the output: none for a container that holds audio
/// alone; the configured rate in bit rate mode, which must then be a number
/// above zero; else the rate in quality mode.
pub open spec fn video_kbps_of(
    config: ConfigView,
    metadata: Option<ProbeView>,
    audio_only: bool,
    size: VideoDimensions,
    fps: Milli,
) -> Result<Milli, Seq<char>> {
    if audio_only {
        Ok(Milli { thousandths: 0 })
    } else if config.video_bitrate_mode == "bitrate"@ {
        config_bitrate_of(config.video_bitrate, "video bitrate"@)
    } else {
        Ok(quality_video_kbps(config, metadata, size, fps))
    }
}

/// The video bit rate of the source, where it is known.
pub fn source_video_bitrate_kbps(metadata: Option<&ProbeMetadata>) -> (kbps: Option<Milli>)
    ensures
        kbps == source_video_kbps(probe_view(metadata)),
{
    match metadata {
        Some(m) => {
            match m.video_bitrate_kbps {
                Some(rate) => {
                    if rate.thousandths > 0 {
                        return Some(rate);
                    }
                },
                None => {},
            }
            let file_rate = match &m.bitrate {
                Some(text) => parse_probe_bitrate(Some(text.as_str())),
                None => parse_probe_bitrate(None),
            };
            match file_rate {
                Some(whole) => {
                    let sum = known_audio_total(&m.audio_tracks);
                    let content: u128 = whole.thousandths as u128 * 95 / 100;
                    if content > sum {
                        Some(Milli { thousandths: (content - sum) as u64 })
                    } else {
                        Some(Milli { thousandths: 0 })
                    }
                },
                None => None,
            }
        },
        None => None,
    }
}

/// Computes [`pixel_rate_of`].
pub fn pixel_rate(size: VideoDimensions, fps: Milli) -> (rate: u128)
    ensures
        rate == pixel_rate_of(size, fps),
{
    assert(size.width * size.height <= 0xffff_ffff * 0xffff_ffff) by (nonlinear_arith)
        requires
            0 <= size.width <= 0xffff_ffff,
            0 <= size.height <= 0xffff_ffff,
    ;
    let area: u64 = size.width as u64 * size.height as u64;
    assert(area * fps.thousandths <= (0xffff_ffff * 0xffff_ffff) * 0xffff_ffff_ffff_ffff)
        by (nonlinear_arith)
        requires
            0 <= area <= 0xffff_ffff * 0xffff_ffff,
            0 <= fps.thousandths <= 0xffff_ffff_ffff_ffff,
    ;
    area as u128 * fps.thousandths as u128
}

/// The video bit rate in quality mode.
pub fn estimate_quality_video_bitrate(
    config: &ConversionConfig,
    metadata: Option<&ProbeMetadata>,
    target_dimensions: VideoDimensions,
    target_fps: Milli,
) -> (kbps: Milli)
    ensures
        kbps == quality_video_kbps(config@, probe_view(metadata), target_dimensions, target_fps),
{
    match source_video_bitrate_kbps(metadata) {
        Some(rate) => {
            if rate.thousandths == 0 {
                return Milli { thousandths: 0 };
            }
        },
        None => {},
    }
    let codec = config.video_codec.as_str();
    let reference = codec_reference(codec);
    let level = level_of(reference.reference_crf, hardware_codec(codec), config.crf, config.quality);
    reference_bitrate_from_quality(codec, level, pixel_rate(target_dimensions, target_fps))
}

// ---------------------------------------------------------------------------
// Total and size
// ---------------------------------------------------------------------------

/// What the container adds to its content, as the factor by which the total
/// exceeds the streams: 1.04 for transport streams, 1.008 for the MP4
/// family, 1.01 for Matroska, WebM and any other.
pub open spec fn overhead_of(lowered: Seq<char>) -> Milli {
    if lowered == "ts"@ || lowered == "m2ts"@ {
        Milli { thousandths: 1040 }
    } else if lowered == "mp4"@ || lowered == "m4v"@ || lowered == "mov"@ {
        Milli { thousandths: 1008 }
    } else {
        Milli { thousandths: 1010 }
    }
}

/// The total bit rate: the streams together, times the container's factor.
pub open spec fn total_kbps_of(video: Milli, audio: Milli, overhead: Milli) -> Milli {
    Milli {
        thousandths: saturate_u64(
            (video.thousandths + audio.thousandths) * overhead.thousandths / 1000,
        ),
    }
}

/// A decimal number in thousandths, with its sign.
pub open spec fn signed_thousandths(d: Decimal) -> int {
    if d.negative {
        -(d.thousandths as int)
    } else {
        d.thousandths as int
    }
}

/// The duration that a text states, in seconds: a number of seconds, or
/// hours, minutes and seconds with colons between them. A negative duration
/// counts as zero; any other text states none.
pub open spec fn duration_seconds_of(duration: Option<Seq<char>>) -> Option<Milli> {
    match duration {
        Some(text) => match parse_decimal_text(text) {
            Some(seconds) => Some(seconds.clamped()),
            None => {
                let first = position_of(text, ':');
                let rest = text.skip(first + 1);
                let second = position_of(rest, ':');
                if occurrences(text, ':') == 2 {
                    match (
                        parse_decimal_text(trim(text.take(first))),
                        parse_decimal_text(trim(rest.take(second))),
                        parse_decimal_text(trim(rest.skip(second + 1))),
                    ) {
                        (Some(h), Some(m), Some(s)) => Some(
                            Milli {
                                thousandths: saturate_u64(
                                    signed_thousandths(h) * 3600 + signed_thousandths(m) * 60
                                        + signed_thousandths(s),
                                ),
                            },
                        ),
                        _ => None,
                    }
                } else {
                    None
                }
            },
        },
        None => None,
    }
}

/// The size of the output, in megabytes: the total bit rate times the
/// duration, in kilobits, an eighth of it for kilobytes, a thousandth of
/// that for megabytes.
pub open spec fn size_mb_of(total: Milli, seconds: Milli) -> Milli {
    Milli { thousandths: saturate_u64(total.thousandths * seconds.thousandths / 8_000_000) }
}

/// A bit rate in whole kilobits per second, rounded to the nearest.
pub open spec fn whole_kbps(rate: Milli) -> u32 {
    saturate_u32(rate.rounded())
}

/// Computes [`overhead_of`] for a name that is already in lower case.
pub fn overhead_for(lowered: &str) -> (overhead: Milli)
    ensures
        overhead == overhead_of(lowered@),
{
    let v = chars_of(lowered);
    if spells(&v, "ts") || spells(&v, "m2ts") {
        Milli { thousandths: 1040 }
    } else if spells(&v, "mp4") || spells(&v, "m4v") || spells(&v, "mov") {
        Milli { thousandths: 1008 }
    } else {
        Milli { thousandths: 1010 }
    }
}

/// What the container adds to its content, whatever the case of its name.
pub fn container_overhead_factor(container: &str) -> (overhead: Milli)
    ensures
        overhead == overhead_of(lowercase_of(container@)),
{
    let lowered = container.to_lowercase();
    overhead_for(lowered.as_str())
}

/// Computes [`total_kbps_of`].
pub fn total_bitrate(video: Milli, audio: Milli, overhead: Milli) -> (total: Milli)
    ensures
        total == total_kbps_of(video, audio, overhead),
{
    let streams: u128 = video.thousandths as u128 + audio.thousandths as u128;
    match streams.checked_mul(overhead.thousandths as u128) {
        Some(product) => Milli { thousandths: saturated(product / 1000) },
        None => Milli { thousandths: u64::MAX },
    }
}

fn signed_value(d: Decimal) -> (v: i128)
    ensures
        v == signed_thousandths(d),
{
    if d.negative {
        -(d.thousandths as i128)
    } else {
        d.thousandths as i128
    }
}

/// Reads a duration.
pub fn parse_duration_to_seconds(duration: Option<&String>) -> (seconds: Option<Milli>)
    ensures
        seconds == duration_seconds_of(
            match duration {
                Some(d) => Some(d@),
                None => None,
            },
        ),
{
    match duration {
        Some(duration_str) => {
            let text = chars_of(duration_str.as_str());
            match parse_decimal(&text) {
                Some(seconds) => {
                    return Some(seconds.to_milli());
                },
                None => {},
            }
            if count_char(&text, ':') != 2 {
                return None;
            }
            let first = find_char(&text, 0, ':');
            assert(text@.subrange(0, text.len() as int) == text@);
            proof {
                lemma_occurs_within(text@, ':');
            }
            let rest = slice_of(&text, first + 1, text.len());
            let second = find_char(&rest, 0, ':');
            assert(rest@.subrange(0, rest.len() as int) == rest@);
            proof {
                lemma_second_occurrence(text@, ':');
                lemma_occurs_within(rest@, ':');
            }
            let hours_text = slice_of(&text, 0, first);
            let minutes_text = slice_of(&rest, 0, second);
            let seconds_text = slice_of(&rest, second + 1, rest.len());
            match (
                parse_decimal(&trimmed(&hours_text)),
                parse_decimal(&trimmed(&minutes_text)),
                parse_decimal(&trimmed(&seconds_text)),
            ) {
                (Some(h), Some(m), Some(s)) => {
                    let total: i128 = signed_value(h) * 3600 + signed_value(m) * 60 + signed_value(
                        s,
                    );
                    Some(
                        Milli {
                            thousandths: if total < 0 {
                                0
                            } else if total > u64::MAX as i128 {
                                u64::MAX
                            } else {
                                total as u64
                            },
                        },
                    )
                },
                _ => None,
            }
        },
        None => None,
    }
}

/// Computes [`size_mb_of`].
pub fn size_in_megabytes(total: Milli, seconds: Milli) -> (size: Milli)
    ensures
        size == size_mb_of(total, seconds),
{
    assert(total.thousandths * seconds.thousandths <= 0xffff_ffff_ffff_ffff * 0xffff_ffff_ffff_ffff)
        by (nonlinear_arith)
        requires
            0 <= total.thousandths <= 0xffff_ffff_ffff_ffff,
            0 <= seconds.thousandths <= 0xffff_ffff_ffff_ffff,
    ;
    Milli {
        thousandths: saturated(
            total.thousandths as u128 * seconds.thousandths as u128 / 8_000_000,
        ),
    }
}

/// Computes [`whole_kbps`].
pub fn round_kbps(rate: Milli) -> (kbps: u32)
    ensures
        kbps == whole_kbps(rate),
{
    let rounded: u64 = rate.thousandths / 1000 + if rate.thousandths % 1000 >= 500 {
        1u64
    } else {
        0u64
    };
    if rounded > u32::MAX as u64 {
        u32::MAX
    } else {
        rounded as u32
    }
}

// ---------------------------------------------------------------------------
// The estimate
// ---------------------------------------------------------------------------

/// The estimate from its parts.
pub open spec fn estimate_from(
    video: Milli,
    audio: Milli,
    overhead: Milli,
    seconds: Option<Milli>,
) -> OutputEstimate {
    OutputEstimate {
        video_kbps: whole_kbps(video),
        audio_kbps: whole_kbps(audio),
        total_kbps: whole_kbps(total_kbps_of(video, audio, overhead)),
        size_mb: match seconds {
            Some(s) => Some(size_mb_of(total_kbps_of(video, audio, overhead), s)),
            None => None,
        },
    }
}

/// The estimate for a configuration and what is known of the source, or the
/// detail of the error that the configuration's first invalid setting
/// raises: the frame size is looked at first, then the frame rate, the video
/// bit rate and the audio bit rate.
pub open spec fn estimate_of(config: ConfigView, metadata: Option<ProbeView>) -> Result<
    OutputEstimate,
    Seq<char>,
> {
    let audio_only = is_audio_only_name(lowercase_of(config.container));
    match target_dimensions_of(config, metadata) {
        Err(e) => Err(e),
        Ok(size) => match target_fps_of(config, metadata) {
            Err(e) => Err(e),
            Ok(fps) => match video_kbps_of(config, metadata, audio_only, size, fps) {
                Err(e) => Err(e),
                Ok(video) => match audio_kbps_of(config, metadata, audio_only) {
                    Err(e) => Err(e),
                    Ok(audio) => Ok(
                        estimate_from(
                            video,
                            audio,
                            overhead_of(lowercase_of(config.container)),
                            match metadata {
                                Some(m) => duration_seconds_of(m.duration),
                                None => None,
                            },
                        ),
                    ),
                },
            },
        },
    }
}

// ---------------------------------------------------------------------------
// Laws of the estimate
// ---------------------------------------------------------------------------

/// The estimate is a function of what the configuration and the metadata
/// say: two configurations that say the same, with metadata that says the
/// same, have the same estimate.
pub proof fn lemma_same_inputs_same_estimate(
    first: ConversionConfig,
    second: ConversionConfig,
    first_metadata: Option<ProbeMetadata>,
    second_metadata: Option<ProbeMetadata>,
)
    requires
        first@ == second@,
        first_metadata is Some <==> second_metadata is Some,
        first_metadata is Some ==> first_metadata->0@ == second_metadata->0@,
    ensures
        estimate_of(
            first@,
            match first_metadata {
                Some(m) => Some(m@),
                None => None,
            },
        ) == estimate_of(
            second@,
            match second_metadata {
                Some(m) => Some(m@),
                None => None,
            },
        ),
{
}

/// The configuration with another constant rate factor.
pub open spec fn with_crf(config: ConfigView, crf: u8) -> ConfigView {
    ConfigView { crf, ..config }
}

/// The video bit rate in quality mode before it is cut to thousandths, as
/// the numerator of the fraction whose denominator is the curve's.
pub open spec fn quality_video_exact(config: ConfigView, size: VideoDimensions, fps: Milli) -> int {
    curve_numerator(
        codec_reference_of(lowercase_of(config.video_codec)).reference_bits_per_pixel,
        configured_level(config),
        pixel_rate_of(size, fps),
    )
}

proof fn lemma_total_rises(lower: Milli, higher: Milli, audio: Milli, overhead: Milli)
    requires
        lower.thousandths <= higher.thousandths,
    ensures
        total_kbps_of(lower, audio, overhead).thousandths <= total_kbps_of(
            higher,
            audio,
            overhead,
        ).thousandths,
{
    let a = (lower.thousandths + audio.thousandths) * overhead.thousandths;
    let b = (higher.thousandths + audio.thousandths) * overhead.thousandths;
    assert(0 <= a <= b) by (nonlinear_arith)
        requires
            a == (lower.thousandths + audio.thousandths) * overhead.thousandths,
            b == (higher.thousandths + audio.thousandths) * overhead.thousandths,
            0 <= lower.thousandths <= higher.thousandths,
            audio.thousandths >= 0,
            overhead.thousandths >= 0,
    ;
    lemma_div_is_ordered(a, b, 1000);
}

proof fn lemma_size_rises(lower: Milli, higher: Milli, seconds: Milli)
    requires
        lower.thousandths <= higher.thousandths,
    ensures
        size_mb_of(lower, seconds).thousandths <= size_mb_of(higher, seconds).thousandths,
{
    let a = lower.thousandths * seconds.thousandths;
    let b = higher.thousandths * seconds.thousandths;
    assert(0 <= a <= b) by (nonlinear_arith)
        requires
            a == lower.thousandths * seconds.thousandths,
            b == higher.thousandths * seconds.thousandths,
            0 <= lower.thousandths <= higher.thousandths,
            seconds.thousandths >= 0,
    ;
    lemma_div_is_ordered(a, b, 8_000_000);
}

/// A higher constant rate factor lowers the video bit rate in quality mode:
/// for a software encoder and a pixel rate above zero, the bit rate on the
/// curve, before it is cut to thousandths, is strictly smaller; and for any
/// encoder and any pixel rate the bit rate itself is not greater.
pub proof fn lemma_quality_bitrate_falls_as_crf_rises(
    config: ConfigView,
    metadata: Option<ProbeView>,
    higher: u8,
    size: VideoDimensions,
    fps: Milli,
)
    requires
        config.crf < higher,
    ensures
        !is_hardware_codec(config.video_codec) && pixel_rate_of(size, fps) > 0
            ==> quality_video_exact(with_crf(config, higher), size, fps) < quality_video_exact(
            config,
            size,
            fps,
        ),
        quality_video_kbps(with_crf(config, higher), metadata, size, fps).thousandths
            <= quality_video_kbps(config, metadata, size, fps).thousandths,
{
    let reference = codec_reference_of(lowercase_of(config.video_codec));
    let rate = pixel_rate_of(size, fps);
    assert(rate >= 0) by (nonlinear_arith)
        requires
            rate == size.width * size.height * fps.thousandths,
            size.width >= 0,
            size.height >= 0,
            fps.thousandths >= 0,
    ;
    if !is_hardware_codec(config.video_codec) {
        lemma_curve_rises(
            reference.reference_bits_per_pixel,
            configured_level(with_crf(config, higher)),
            configured_level(config),
            rate,
        );
    }
}

/// A higher constant rate factor never raises the estimate: with everything
/// else the same, the estimate is an error if and only if it was one, and
/// the same one; else the video bit rate, the total bit rate and the size
/// are not greater than before, and the audio bit rate is the same.
pub proof fn lemma_estimate_falls_as_crf_rises(
    config: ConfigView,
    metadata: Option<ProbeView>,
    higher: u8,
)
    requires
        config.crf < higher,
    ensures
        match (estimate_of(config, metadata), estimate_of(with_crf(config, higher), metadata)) {
            (Ok(before), Ok(after)) => {
                &&& after.video_kbps <= before.video_kbps
                &&& after.audio_kbps == before.audio_kbps
                &&& after.total_kbps <= before.total_kbps
                &&& match (before.size_mb, after.size_mb) {
                    (Some(b), Some(a)) => a.thousandths <= b.thousandths,
                    (None, None) => true,
                    _ => false,
                }
            },
            (Err(before), Err(after)) => before == after,
            _ => false,
        },
{
    let other = with_crf(config, higher);
    let audio_only = is_audio_only_name(lowercase_of(config.container));
    match (target_dimensions_of(config, metadata), target_fps_of(config, metadata)) {
        (Ok(size), Ok(fps)) => {
            lemma_quality_bitrate_falls_as_crf_rises(config, metadata, higher, size, fps);
            match (
                video_kbps_of(config, metadata, audio_only, size, fps),
                video_kbps_of(other, metadata, audio_only, size, fps),
                audio_kbps_of(config, metadata, audio_only),
            ) {
                (Ok(before), Ok(after), Ok(audio)) => {
                    let overhead = overhead_of(lowercase_of(config.container));
                    lemma_total_rises(after, before, audio, overhead);
                    match metadata {
                        Some(m) => match duration_seconds_of(m.duration) {
                            Some(seconds) => {
                                lemma_size_rises(
                                    total_kbps_of(after, audio, overhead),
                                    total_kbps_of(before, audio, overhead),
                                    seconds,
                                );
                            },
                            None => {},
                        },
                        None => {},
                    }
                },
                _ => {},
            }
        },
        _ => {},
    }
}

/// Estimates the output of a conversion. The estimate depends on the
/// configuration and the metadata alone.
pub fn estimate_output(config: ConversionConfig, metadata: Option<ProbeMetadata>) -> (outcome:
    Result<OutputEstimate, ConversionError>)
    ensures
        agrees(
            outcome,
            estimate_of(
                config@,
                match metadata {
                    Some(m) => Some(m@),
                    None => None,
                },
            ),
        ),
{
    let metadata_ref = metadata.as_ref();
    let audio_only = is_audio_only_container(config.container.as_str());
    let target_dimensions = match determine_target_dimensions(&config, metadata_ref) {
        Ok(size) => size,
        Err(e) => {
            return Err(e);
        },
    };
    let target_fps = match determine_target_fps(&config, metadata_ref) {
        Ok(fps) => fps,
        Err(e) => {
            return Err(e);
        },
    };
    let video = if audio_only {
        Milli { thousandths: 0 }
    } else if same_text(config.video_bitrate_mode.as_str(), "bitrate") {
        match parse_config_bitrate(config.video_bitrate.as_str(), "video bitrate") {
            Ok(rate) => rate,
            Err(e) => {
                return Err(e);
            },
        }
    } else {
        estimate_quality_video_bitrate(&config, metadata_ref, target_dimensions, target_fps)
    };
    let audio = match estimate_audio_bitrate_kbps(&config, metadata_ref, audio_only) {
        Ok(rate) => rate,
        Err(e) => {
            return Err(e);
        },
    };
    let overhead = container_overhead_factor(config.container.as_str());
    let total = total_bitrate(video, audio, overhead);
    let seconds = match metadata_ref {
        Some(m) => parse_duration_to_seconds(m.duration.as_ref()),
        None => None,
    };
    Ok(
        OutputEstimate {
            video_kbps: round_kbps(video),
            audio_kbps: round_kbps(audio),
            total_kbps: round_kbps(total),
            size_mb: match seconds {
                Some(s) => Some(size_in_megabytes(total, s)),
                None => None,
            },
        },
    )
}

} // verus!
