//! What is known of a source file: the facts a probe reports, and the value
//! object that the estimation reads.
//!
//! Bit rates are in kilobits per second, frame rates in frames per second,
//! both held in thousandths.

use vstd::prelude::*;
use crate::number::{parse_decimal, parse_decimal_text, saturate_u64, Decimal, Milli};
use crate::text::{
    chars_of,
    eq_ignoring_ascii_case,
    find_char,
    position_of,
    slice_of,
    spells_ignoring_ascii_case,
    text_of,
    trim,
    trimmed,
};

verus! {

/// The descriptive tags of a file or of a stream.
#[derive(Clone, Debug)]
pub struct FfprobeTags {
    pub title: Option<String>,
    pub artist: Option<String>,
    pub album: Option<String>,
    pub genre: Option<String>,
    pub date: Option<String>,
    pub creation_time: Option<String>,
    pub language: Option<String>,
    pub comment: Option<String>,
    pub description_upper: Option<String>,
    pub date_upper: Option<String>,
}

impl Default for FfprobeTags {
    fn default() -> (tags: FfprobeTags)
        ensures
            tags@ == FfprobeTags::none(),
    {
        FfprobeTags {
            title: None,
            artist: None,
            album: None,
            genre: None,
            date: None,
            creation_time: None,
            language: None,
            comment: None,
            description_upper: None,
            date_upper: None,
        }
    }
}

/// Tags as the contracts see them.
pub struct TagsView {
    pub title: Option<Seq<char>>,
    pub artist: Option<Seq<char>>,
    pub album: Option<Seq<char>>,
    pub genre: Option<Seq<char>>,
    pub date: Option<Seq<char>>,
    pub creation_time: Option<Seq<char>>,
    pub language: Option<Seq<char>>,
    pub comment: Option<Seq<char>>,
    pub description_upper: Option<Seq<char>>,
    pub date_upper: Option<Seq<char>>,
}

impl View for FfprobeTags {
    type V = TagsView;

    open spec fn view(&self) -> TagsView {
        TagsView {
            title: text_of(self.title),
            artist: text_of(self.artist),
            album: text_of(self.album),
            genre: text_of(self.genre),
            date: text_of(self.date),
            creation_time: text_of(self.creation_time),
            language: text_of(self.language),
            comment: text_of(self.comment),
            description_upper: text_of(self.description_upper),
            date_upper: text_of(self.date_upper),
        }
    }
}

impl FfprobeTags {
    /// The tags of which none is set.
    pub open spec fn none() -> TagsView {
        TagsView {
            title: None,
            artist: None,
            album: None,
            genre: None,
            date: None,
            creation_time: None,
            language: None,
            comment: None,
            description_upper: None,
            date_upper: None,
        }
    }
}

/// One audio track of a source file.
#[derive(Clone, Debug)]
pub struct AudioTrack {
    pub index: u32,
    pub codec: String,
    pub channels: String,
    pub language: Option<String>,
    pub label: Option<String>,
    pub bitrate_kbps: Option<Milli>,
}

/// An audio track as the contracts see it.
pub struct AudioTrackView {
    pub index: u32,
    pub codec: Seq<char>,
    pub channels: Seq<char>,
    pub language: Option<Seq<char>>,
    pub label: Option<Seq<char>>,
    pub bitrate_kbps: Option<Milli>,
}

impl View for AudioTrack {
    type V = AudioTrackView;

    open spec fn view(&self) -> AudioTrackView {
        AudioTrackView {
            index: self.index,
            codec: self.codec@,
            channels: self.channels@,
            language: text_of(self.language),
            label: text_of(self.label),
            bitrate_kbps: self.bitrate_kbps,
        }
    }
}

/// The views of a list of tracks.
pub open spec fn track_views(tracks: Seq<AudioTrack>) -> Seq<AudioTrackView> {
    Seq::new(tracks.len(), |i: int| tracks[i]@)
}

/// The facts known of a source file. Any of them may be missing.
#[derive(Clone, Debug)]
pub struct ProbeMetadata {
    pub duration: Option<String>,
    pub bitrate: Option<String>,
    pub video_codec: Option<String>,
    pub audio_codec: Option<String>,
    pub resolution: Option<String>,
    pub frame_rate: Option<Milli>,
    pub width: Option<u32>,
    pub height: Option<u32>,
    pub video_bitrate_kbps: Option<Milli>,
    pub audio_tracks: Vec<AudioTrack>,
    pub tags: Option<FfprobeTags>,
}

/// The metadata as the contracts see it.
pub struct ProbeView {
    pub duration: Option<Seq<char>>,
    pub bitrate: Option<Seq<char>>,
    pub video_codec: Option<Seq<char>>,
    pub audio_codec: Option<Seq<char>>,
    pub resolution: Option<Seq<char>>,
    pub frame_rate: Option<Milli>,
    pub width: Option<u32>,
    pub height: Option<u32>,
    pub video_bitrate_kbps: Option<Milli>,
    pub audio_tracks: Seq<AudioTrackView>,
    pub tags: Option<TagsView>,
}

impl View for ProbeMetadata {
    type V = ProbeView;

    open spec fn view(&self) -> ProbeView {
        ProbeView {
            duration: text_of(self.duration),
            bitrate: text_of(self.bitrate),
            video_codec: text_of(self.video_codec),
            audio_codec: text_of(self.audio_codec),
            resolution: text_of(self.resolution),
            frame_rate: self.frame_rate,
            width: self.width,
            height: self.height,
            video_bitrate_kbps: self.video_bitrate_kbps,
            audio_tracks: track_views(self.audio_tracks@),
            tags: match self.tags {
                Some(tags) => Some(tags@),
                None => None,
            },
        }
    }
}

impl ProbeMetadata {
    /// The metadata of which nothing is known.
    pub open spec fn unknown() -> ProbeView {
        ProbeView {
            duration: None,
            bitrate: None,
            video_codec: None,
            audio_codec: None,
            resolution: None,
            frame_rate: None,
            width: None,
            height: None,
            video_bitrate_kbps: None,
            audio_tracks: Seq::empty(),
            tags: None,
        }
    }
}

impl Default for ProbeMetadata {
    fn default() -> (metadata: ProbeMetadata)
        ensures
            metadata@ == ProbeMetadata::unknown(),
    {
        let metadata = ProbeMetadata {
            duration: None,
            bitrate: None,
            video_codec: None,
            audio_codec: None,
            resolution: None,
            frame_rate: None,
            width: None,
            height: None,
            video_bitrate_kbps: None,
            audio_tracks: Vec::new(),
            tags: None,
        };
        assert(metadata@.audio_tracks =~= Seq::empty());
        metadata
    }
}

/// The view of optional metadata.
pub open spec fn probe_view(metadata: Option<&ProbeMetadata>) -> Option<ProbeView> {
    match metadata {
        Some(m) => Some(m@),
        None => None,
    }
}

// ---------------------------------------------------------------------------
// Numbers in probe output
// ---------------------------------------------------------------------------

/// What a probe field says, where it says anything: the text without the
/// white space around it, unless that is empty or `n/a` in any case.
pub open spec fn stated(raw: Option<Seq<char>>) -> Option<Seq<char>> {
    match raw {
        Some(text) => if trim(text).len() == 0 || eq_ignoring_ascii_case(trim(text), "n/a"@) {
            None
        } else {
            Some(trim(text))
        },
        None => None,
    }
}

/// The bit rate that a probe field states, in kilobits per second. The field
/// gives bits per second; a rate that is not a number above zero is unknown.
pub open spec fn probe_bitrate_of(raw: Option<Seq<char>>) -> Option<Milli> {
    match stated(raw) {
        Some(text) => match parse_decimal_text(text) {
            Some(d) => if d.is_positive() {
                Some(Milli { thousandths: d.thousandths / 1000 })
            } else {
                None
            },
            None => None,
        },
        None => None,
    }
}

/// The quotient of two decimal numbers, cut to thousandths; zero where it is
/// negative, the largest value where it is too large to hold.
pub open spec fn quotient_of(numerator: Decimal, denominator: Decimal) -> Milli {
    if numerator.negative != denominator.negative || numerator.thousandths == 0 {
        Milli { thousandths: 0 }
    } else if denominator.thousandths == 0 {
        Milli { thousandths: u64::MAX }
    } else {
        Milli {
            thousandths: saturate_u64(
                numerator.thousandths * 1000 / denominator.thousandths as int,
            ),
        }
    }
}

/// The frame rate that a probe field states: a number, or a fraction
/// `numerator/denominator` whose denominator is not zero. Anything else is
/// unknown, and a negative rate counts as zero.
pub open spec fn frame_rate_of(raw: Option<Seq<char>>) -> Option<Milli> {
    match stated(raw) {
        Some(text) => {
            let slash = position_of(text, '/');
            if slash < text.len() {
                match (
                    parse_decimal_text(trim(text.take(slash))),
                    parse_decimal_text(trim(text.skip(slash + 1))),
                ) {
                    (Some(numerator), Some(denominator)) => if denominator.nonzero {
                        Some(quotient_of(numerator, denominator))
                    } else {
                        None
                    },
                    _ => None,
                }
            } else {
                match parse_decimal_text(text) {
                    Some(d) => Some(d.clamped()),
                    None => None,
                }
            }
        },
        None => None,
    }
}

/// Computes [`stated`].
pub fn stated_chars(raw: Option<&str>) -> (text: Option<Vec<char>>)
    ensures
        match text {
            Some(t) => stated(option_text(raw)) == Some(t@),
            None => stated(option_text(raw)) is None,
        },
{
    match raw {
        Some(r) => {
            let v = chars_of(r);
            let t = trimmed(&v);
            if t.len() == 0 || spells_ignoring_ascii_case(&t, "n/a") {
                None
            } else {
                Some(t)
            }
        },
        None => None,
    }
}

/// The text of an optional string slice.
pub open spec fn option_text(s: Option<&str>) -> Option<Seq<char>> {
    match s {
        Some(t) => Some(t@),
        None => None,
    }
}

/// An optional string as an optional string slice.
pub fn optional_str(value: &Option<String>) -> (s: Option<&str>)
    ensures
        option_text(s) == text_of(*value),
{
    match value {
        Some(text) => Some(text.as_str()),
        None => None,
    }
}

/// Reads a bit rate as a probe states it.
pub fn parse_probe_bitrate(raw: Option<&str>) -> (kbps: Option<Milli>)
    ensures
        kbps == probe_bitrate_of(option_text(raw)),
{
    match stated_chars(raw) {
        Some(text) => match parse_decimal(&text) {
            Some(d) => if d.positive() {
                Some(Milli { thousandths: d.thousandths / 1000 })
            } else {
                None
            },
            None => None,
        },
        None => None,
    }
}

/// Computes [`quotient_of`].
pub fn quotient(numerator: Decimal, denominator: Decimal) -> (q: Milli)
    ensures
        q == quotient_of(numerator, denominator),
{
    if numerator.negative != denominator.negative || numerator.thousandths == 0 {
        Milli { thousandths: 0 }
    } else if denominator.thousandths == 0 {
        Milli { thousandths: u64::MAX }
    } else {
        let exact: u128 = numerator.thousandths as u128 * 1000 / denominator.thousandths as u128;
        if exact > u64::MAX as u128 {
            Milli { thousandths: u64::MAX }
        } else {
            Milli { thousandths: exact as u64 }
        }
    }
}

/// Reads a frame rate as a probe states it.
pub fn parse_frame_rate_string(value: Option<&str>) -> (fps: Option<Milli>)
    ensures
        fps == frame_rate_of(option_text(value)),
{
    match stated_chars(value) {
        Some(text) => {
            let slash = find_char(&text, 0, '/');
            assert(text@.subrange(0, text.len() as int) == text@);
            if slash < text.len() {
                let head = slice_of(&text, 0, slash);
                let tail = slice_of(&text, slash + 1, text.len());
                let numerator = parse_decimal(&trimmed(&head));
                let denominator = parse_decimal(&trimmed(&tail));
                match (numerator, denominator) {
                    (Some(n), Some(d)) => if d.nonzero {
                        Some(quotient(n, d))
                    } else {
                        None
                    },
                    _ => None,
                }
            } else {
                match parse_decimal(&text) {
                    Some(d) => Some(d.to_milli()),
                    None => None,
                }
            }
        },
        None => None,
    }
}

// ---------------------------------------------------------------------------
// Sums over tracks
// ---------------------------------------------------------------------------

/// The known bit rates of the tracks, summed, in thousandths.
pub open spec fn known_audio_sum(tracks: Seq<AudioTrackView>) -> int
    decreases tracks.len(),
{
    if tracks.len() == 0 {
        0
    } else {
        known_audio_sum(tracks.drop_last()) + match tracks.last().bitrate_kbps {
            Some(rate) => rate.thousandths as int,
            None => 0,
        }
    }
}

/// Computes [`known_audio_sum`].
pub fn known_audio_total(tracks: &Vec<AudioTrack>) -> (sum: u128)
    ensures
        sum == known_audio_sum(track_views(tracks@)),
{
    let mut sum: u128 = 0;
    let mut i: usize = 0;
    while i < tracks.len()
        invariant
            i <= tracks.len(),
            sum == known_audio_sum(track_views(tracks@).take(i as int)),
            sum <= i * 0xffff_ffff_ffff_ffff,
        decreases tracks.len() - i,
    {
        assert(track_views(tracks@).take(i + 1).drop_last() == track_views(tracks@).take(i as int));
        match tracks[i].bitrate_kbps {
            Some(rate) => {
                sum = sum + rate.thousandths as u128;
            },
            None => {},
        }
        i += 1;
    }
    assert(track_views(tracks@).take(tracks.len() as int) == track_views(tracks@));
    sum
}

} // verus!
