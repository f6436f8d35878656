//! The encode configuration: an immutable value object that describes the
//! target of one conversion.

use vstd::prelude::*;
use crate::number::Milli;
use crate::text::{chars_of, lowercase_of, spells, text_of};

verus! {

/// What becomes of the source's descriptive tags.
#[derive(Clone, Copy, Debug, PartialEq, Eq, Structural)]
pub enum MetadataMode {
    /// Keep the source's tags; configured tags are written over them.
    Preserve,
    /// Drop every tag.
    Clean,
    /// Drop the source's tags and write the configured ones.
    Replace,
}

impl Default for MetadataMode {
    fn default() -> (mode: MetadataMode)
        ensures
            mode == MetadataMode::Preserve,
    {
        MetadataMode::Preserve
    }
}

/// The tags to write, and how to treat those of the source.
#[derive(Clone, Debug)]
pub struct MetadataConfig {
    pub mode: MetadataMode,
    pub title: Option<String>,
    pub artist: Option<String>,
    pub album: Option<String>,
    pub genre: Option<String>,
    pub date: Option<String>,
    pub comment: Option<String>,
}

impl Default for MetadataConfig {
    fn default() -> (m: MetadataConfig)
        ensures
            m.mode == MetadataMode::Preserve,
            m.title is None,
            m.artist is None,
            m.album is None,
            m.genre is None,
            m.date is None,
            m.comment is None,
    {
        MetadataConfig {
            mode: MetadataMode::Preserve,
            title: None,
            artist: None,
            album: None,
            genre: None,
            date: None,
            comment: None,
        }
    }
}

/// The target of one conversion.
///
/// `audio_volume` is a percentage: 100 leaves the volume as it is.
#[derive(Clone, Debug)]
pub struct ConversionConfig {
    pub container: String,
    pub video_codec: String,
    pub video_bitrate_mode: String,
    pub video_bitrate: String,
    pub audio_codec: String,
    pub audio_bitrate: String,
    pub audio_channels: String,
    pub audio_volume: Milli,
    pub audio_normalize: bool,
    pub selected_audio_tracks: Vec<u32>,
    pub resolution: String,
    pub custom_width: Option<String>,
    pub custom_height: Option<String>,
    pub scaling_algorithm: String,
    pub fps: String,
    pub crf: u8,
    pub quality: u32,
    pub preset: String,
    pub start_time: Option<String>,
    pub end_time: Option<String>,
    pub metadata: MetadataConfig,
}

/// The tag settings as the contracts see them.
pub struct MetadataConfigView {
    pub mode: MetadataMode,
    pub title: Option<Seq<char>>,
    pub artist: Option<Seq<char>>,
    pub album: Option<Seq<char>>,
    pub genre: Option<Seq<char>>,
    pub date: Option<Seq<char>>,
    pub comment: Option<Seq<char>>,
}

impl View for MetadataConfig {
    type V = MetadataConfigView;

    open spec fn view(&self) -> MetadataConfigView {
        MetadataConfigView {
            mode: self.mode,
            title: text_of(self.title),
            artist: text_of(self.artist),
            album: text_of(self.album),
            genre: text_of(self.genre),
            date: text_of(self.date),
            comment: text_of(self.comment),
        }
    }
}

/// The configuration as the contracts see it.
pub struct ConfigView {
    pub container: Seq<char>,
    pub video_codec: Seq<char>,
    pub video_bitrate_mode: Seq<char>,
    pub video_bitrate: Seq<char>,
    pub audio_codec: Seq<char>,
    pub audio_bitrate: Seq<char>,
    pub audio_channels: Seq<char>,
    pub audio_volume: Milli,
    pub audio_normalize: bool,
    pub selected_audio_tracks: Seq<u32>,
    pub resolution: Seq<char>,
    pub custom_width: Option<Seq<char>>,
    pub custom_height: Option<Seq<char>>,
    pub scaling_algorithm: Seq<char>,
    pub fps: Seq<char>,
    pub crf: u8,
    pub quality: u32,
    pub preset: Seq<char>,
    pub start_time: Option<Seq<char>>,
    pub end_time: Option<Seq<char>>,
    pub metadata: MetadataConfigView,
}

impl View for ConversionConfig {
    type V = ConfigView;

    open spec fn view(&self) -> ConfigView {
        ConfigView {
            container: self.container@,
            video_codec: self.video_codec@,
            video_bitrate_mode: self.video_bitrate_mode@,
            video_bitrate: self.video_bitrate@,
            audio_codec: self.audio_codec@,
            audio_bitrate: self.audio_bitrate@,
            audio_channels: self.audio_channels@,
            audio_volume: self.audio_volume,
            audio_normalize: self.audio_normalize,
            selected_audio_tracks: self.selected_audio_tracks@,
            resolution: self.resolution@,
            custom_width: text_of(self.custom_width),
            custom_height: text_of(self.custom_height),
            scaling_algorithm: self.scaling_algorithm@,
            fps: self.fps@,
            crf: self.crf,
            quality: self.quality,
            preset: self.preset@,
            start_time: text_of(self.start_time),
            end_time: text_of(self.end_time),
            metadata: self.metadata@,
        }
    }
}

/// The quality of a hardware encoder where none is configured.
pub fn default_quality() -> (quality: u32)
    ensures
        quality == 50,
{
    50
}

/// The audio volume where none is configured: 100 percent.
pub fn default_audio_volume() -> (volume: Milli)
    ensures
        volume.thousandths == 100_000,
{
    Milli { thousandths: 100_000 }
}

/// Whether `lowered`, a container's name in lower case, names a container
/// that holds audio alone.
pub open spec fn is_audio_only_name(lowered: Seq<char>) -> bool {
    ||| lowered == "mp3"@
    ||| lowered == "wav"@
    ||| lowered == "flac"@
    ||| lowered == "aac"@
    ||| lowered == "m4a"@
}

/// Decides [`is_audio_only_name`] for a name that is already in lower case.
pub fn audio_only_name(lowered: &str) -> (b: bool)
    ensures
        b == is_audio_only_name(lowered@),
{
    let v = chars_of(lowered);
    spells(&v, "mp3") || spells(&v, "wav") || spells(&v, "flac") || spells(&v, "aac") || spells(
        &v,
        "m4a",
    )
}

/// Whether the container, whatever the case of its name, holds audio alone.
pub fn is_audio_only_container(container: &str) -> (b: bool)
    ensures
        b == is_audio_only_name(lowercase_of(container@)),
{
    let lowered = container.to_lowercase();
    audio_only_name(lowered.as_str())
}

} // verus!
