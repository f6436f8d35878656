//! The encoder's command line: the ordered argument list that a
//! configuration stands for.
//!
//! [`ffmpeg_args`] says what the list is, section by section;
//! [`build_ffmpeg_args`] computes it.

use vstd::prelude::*;
use vstd::string::StringExecFns;
use crate::config::{
    is_audio_only_container,
    is_audio_only_name,
    ConfigView,
    ConversionConfig,
    MetadataConfig,
    MetadataConfigView,
    MetadataMode,
};
use crate::error::{join, join3, join4};
use crate::number::{decimal_string, decimal_text, digit_char, push_decimal, Milli};
use crate::text::{lowercase_of, same_text, text_of};

verus! {

/// The texts of a list of strings.
pub open spec fn texts(v: Seq<String>) -> Seq<Seq<char>> {
    Seq::new(v.len(), |i: int| v[i]@)
}

fn push_text(args: &mut Vec<String>, s: String)
    ensures
        texts(final(args)@) == texts(old(args)@).push(s@),
{
    args.push(s);
}

fn push_pair(args: &mut Vec<String>, flag: &str, value: String)
    ensures
        texts(final(args)@) == texts(old(args)@) + seq![flag@, value@],
{
    push_text(args, String::from_str(flag));
    push_text(args, value);
}

// ---------------------------------------------------------------------------
// The cut and the tags
// ---------------------------------------------------------------------------

/// The text of an optional setting, where it is present and not empty.
pub open spec fn given(value: Option<Seq<char>>) -> Option<Seq<char>> {
    match value {
        Some(v) => if v.len() > 0 {
            Some(v)
        } else {
            None
        },
        None => None,
    }
}

/// A flag with its value, where the value is given; nothing otherwise.
pub open spec fn option_args(flag: Seq<char>, value: Option<Seq<char>>) -> Seq<Seq<char>> {
    match given(value) {
        Some(v) => seq![flag, v],
        None => seq![],
    }
}

/// One `-metadata key=value` pair, where the value is given; nothing
/// otherwise. `prefix` is the key with its `=`.
pub open spec fn tag_args(prefix: Seq<char>, value: Option<Seq<char>>) -> Seq<Seq<char>> {
    match given(value) {
        Some(v) => seq!["-metadata"@, prefix + v],
        None => seq![],
    }
}

/// The `-metadata` pairs of the configured tags, in the order title, artist,
/// album, genre, date, comment.
pub open spec fn metadata_flags(metadata: MetadataConfigView) -> Seq<Seq<char>> {
    tag_args("title="@, metadata.title) + tag_args("artist="@, metadata.artist) + tag_args(
        "album="@,
        metadata.album,
    ) + tag_args("genre="@, metadata.genre) + tag_args("date="@, metadata.date) + tag_args(
        "comment="@,
        metadata.comment,
    )
}

/// The arguments that treat the tags as the mode asks.
pub open spec fn metadata_args(metadata: MetadataConfigView) -> Seq<Seq<char>> {
    match metadata.mode {
        MetadataMode::Clean => seq!["-map_metadata"@, "-1"@],
        MetadataMode::Replace => seq!["-map_metadata"@, "-1"@] + metadata_flags(metadata),
        MetadataMode::Preserve => metadata_flags(metadata),
    }
}

fn push_option(args: &mut Vec<String>, flag: &str, value: &Option<String>)
    ensures
        texts(final(args)@) == texts(old(args)@) + option_args(flag@, text_of(*value)),
{
    match value {
        Some(v) => {
            if !v.as_str().is_empty() {
                push_pair(args, flag, v.clone());
                return ;
            }
        },
        None => {},
    }
}

fn push_tag(args: &mut Vec<String>, prefix: &str, value: &Option<String>)
    ensures
        texts(final(args)@) == texts(old(args)@) + tag_args(prefix@, text_of(*value)),
{
    match value {
        Some(v) => {
            if !v.as_str().is_empty() {
                push_pair(args, "-metadata", join(prefix, v.as_str()));
                return ;
            }
        },
        None => {},
    }
}

/// Appends the `-metadata` pairs of the configured tags to `args`.
#[verifier::rlimit(40)]
pub fn add_metadata_flags(args: &mut Vec<String>, metadata: &MetadataConfig)
    ensures
        texts(final(args)@) == texts(old(args)@) + metadata_flags(metadata@),
{
    push_tag(args, "title=", &metadata.title);
    push_tag(args, "artist=", &metadata.artist);
    push_tag(args, "album=", &metadata.album);
    push_tag(args, "genre=", &metadata.genre);
    push_tag(args, "date=", &metadata.date);
    push_tag(args, "comment=", &metadata.comment);
}

fn push_metadata(args: &mut Vec<String>, metadata: &MetadataConfig)
    ensures
        texts(final(args)@) == texts(old(args)@) + metadata_args(metadata@),
{
    match metadata.mode {
        MetadataMode::Clean => {
            push_pair(args, "-map_metadata", String::from_str("-1"));
        },
        MetadataMode::Replace => {
            push_pair(args, "-map_metadata", String::from_str("-1"));
            add_metadata_flags(args, metadata);
        },
        MetadataMode::Preserve => {
            add_metadata_flags(args, metadata);
        },
    }
}

// ---------------------------------------------------------------------------
// Video
// ---------------------------------------------------------------------------

/// The constant-quality level handed to the NVENC encoder: the quality on
/// the scale 0 to 100, where more is better, mapped onto the levels 51 to 1,
/// where less is better.
pub open spec fn nvenc_cq(quality: u32) -> nat {
    let raw = 52 - quality / 2;
    if raw < 1 {
        1
    } else if raw > 51 {
        51
    } else {
        raw as nat
    }
}

/// How the video bit rate is controlled: a fixed rate, or the quality setting
/// of the chosen encoder.
pub open spec fn rate_control_args(config: ConfigView) -> Seq<Seq<char>> {
    if config.video_bitrate_mode == "bitrate"@ {
        seq!["-b:v"@, config.video_bitrate + "k"@]
    } else if config.video_codec == "h264_nvenc"@ {
        seq!["-rc:v"@, "vbr"@, "-cq:v"@, decimal_text(nvenc_cq(config.quality))]
    } else if config.video_codec == "h264_videotoolbox"@ {
        seq!["-q:v"@, decimal_text(config.quality as nat)]
    } else {
        seq!["-crf"@, decimal_text(config.crf as nat)]
    }
}

/// A custom dimension as the scale filter takes it: `-1` where it is absent.
pub open spec fn dimension_text(value: Option<Seq<char>>) -> Seq<char> {
    match value {
        Some(v) => v,
        None => "-1"@,
    }
}

/// The scale filter for the configured resolution.
pub open spec fn scale_text(config: ConfigView) -> Seq<char> {
    if config.resolution == "custom"@ {
        "scale="@ + dimension_text(config.custom_width) + ":"@ + dimension_text(
            config.custom_height,
        )
    } else if config.resolution == "1080p"@ {
        "scale=-1:1080"@
    } else if config.resolution == "720p"@ {
        "scale=-1:720"@
    } else if config.resolution == "480p"@ {
        "scale=-1:480"@
    } else {
        "scale=-1:-1"@
    }
}

/// The flag that selects the scaling algorithm; empty for an unknown one.
pub open spec fn algorithm_text(config: ConfigView) -> Seq<char> {
    if config.scaling_algorithm == "lanczos"@ {
        ":flags=lanczos"@
    } else if config.scaling_algorithm == "bilinear"@ {
        ":flags=bilinear"@
    } else if config.scaling_algorithm == "nearest"@ {
        ":flags=neighbor"@
    } else if config.scaling_algorithm == "bicubic"@ {
        ":flags=bicubic"@
    } else {
        Seq::empty()
    }
}

/// The video filter: a scale filter unless the resolution stays as it is.
pub open spec fn video_filter_args(config: ConfigView) -> Seq<Seq<char>> {
    if config.resolution == "original"@ {
        seq![]
    } else {
        seq!["-vf"@, scale_text(config) + algorithm_text(config)]
    }
}

/// The frame rate, unless it stays as it is.
pub open spec fn frame_rate_args(config: ConfigView) -> Seq<Seq<char>> {
    if config.fps == "original"@ {
        seq![]
    } else {
        seq!["-r"@, config.fps]
    }
}

/// The video section: no video for an audio-only container, else the codec,
/// its rate control, the preset, the filter and the frame rate.
pub open spec fn video_args(config: ConfigView) -> Seq<Seq<char>> {
    if is_audio_only_name(lowercase_of(config.container)) {
        seq!["-vn"@]
    } else {
        seq!["-c:v"@, config.video_codec] + rate_control_args(config) + seq![
            "-preset"@,
            config.preset,
        ] + video_filter_args(config) + frame_rate_args(config)
    }
}

fn push_rate_control(args: &mut Vec<String>, config: &ConversionConfig)
    ensures
        texts(final(args)@) == texts(old(args)@) + rate_control_args(config@),
{
    if same_text(config.video_bitrate_mode.as_str(), "bitrate") {
        push_pair(args, "-b:v", join(config.video_bitrate.as_str(), "k"));
    } else if same_text(config.video_codec.as_str(), "h264_nvenc") {
        let half: u32 = config.quality / 2;
        let cq: u64 = if half >= 52 {
            1
        } else if half == 0 {
            51
        } else {
            (52 - half) as u64
        };
        push_pair(args, "-rc:v", String::from_str("vbr"));
        push_pair(args, "-cq:v", decimal_string(cq));
    } else if same_text(config.video_codec.as_str(), "h264_videotoolbox") {
        push_pair(args, "-q:v", decimal_string(config.quality as u64));
    } else {
        push_pair(args, "-crf", decimal_string(config.crf as u64));
    }
}

/// Computes [`dimension_text`].
pub fn dimension_string(value: &Option<String>) -> (s: String)
    ensures
        s@ == dimension_text(text_of(*value)),
{
    match value {
        Some(v) => v.clone(),
        None => String::from_str("-1"),
    }
}

fn scale_string(config: &ConversionConfig) -> (s: String)
    ensures
        s@ == scale_text(config@),
{
    let resolution = config.resolution.as_str();
    if same_text(resolution, "custom") {
        let w = dimension_string(&config.custom_width);
        let h = dimension_string(&config.custom_height);
        join4("scale=", w.as_str(), ":", h.as_str())
    } else if same_text(resolution, "1080p") {
        String::from_str("scale=-1:1080")
    } else if same_text(resolution, "720p") {
        String::from_str("scale=-1:720")
    } else if same_text(resolution, "480p") {
        String::from_str("scale=-1:480")
    } else {
        String::from_str("scale=-1:-1")
    }
}

fn algorithm_string(config: &ConversionConfig) -> (s: String)
    ensures
        s@ == algorithm_text(config@),
{
    let algorithm = config.scaling_algorithm.as_str();
    if same_text(algorithm, "lanczos") {
        String::from_str(":flags=lanczos")
    } else if same_text(algorithm, "bilinear") {
        String::from_str(":flags=bilinear")
    } else if same_text(algorithm, "nearest") {
        String::from_str(":flags=neighbor")
    } else if same_text(algorithm, "bicubic") {
        String::from_str(":flags=bicubic")
    } else {
        String::new()
    }
}

fn push_video(args: &mut Vec<String>, config: &ConversionConfig, audio_only: bool)
    requires
        audio_only == is_audio_only_name(lowercase_of(config.container@)),
    ensures
        texts(final(args)@) == texts(old(args)@) + video_args(config@),
{
    if audio_only {
        push_text(args, String::from_str("-vn"));
        return ;
    }
    push_pair(args, "-c:v", config.video_codec.clone());
    push_rate_control(args, config);
    push_pair(args, "-preset", config.preset.clone());
    if !same_text(config.resolution.as_str(), "original") {
        let scale = scale_string(config);
        let algorithm = algorithm_string(config);
        push_pair(args, "-vf", join(scale.as_str(), algorithm.as_str()));
    }
    if !same_text(config.fps.as_str(), "original") {
        push_pair(args, "-r", config.fps.clone());
    }
}

// ---------------------------------------------------------------------------
// Audio
// ---------------------------------------------------------------------------

/// One `-map 0:<index>` pair for each selected track, in order.
pub open spec fn track_maps(tracks: Seq<u32>) -> Seq<Seq<char>>
    decreases tracks.len(),
{
    if tracks.len() == 0 {
        seq![]
    } else {
        track_maps(tracks.drop_last()) + seq![
            "-map"@,
            "0:"@ + decimal_text(tracks.last() as nat),
        ]
    }
}

/// The stream selection: nothing where no track is selected; else the first
/// video stream, unless the container is audio-only, and the selected tracks.
pub open spec fn stream_map_args(config: ConfigView) -> Seq<Seq<char>> {
    if config.selected_audio_tracks.len() == 0 {
        seq![]
    } else if is_audio_only_name(lowercase_of(config.container)) {
        track_maps(config.selected_audio_tracks)
    } else {
        seq!["-map"@, "0:v:0"@] + track_maps(config.selected_audio_tracks)
    }
}

/// Whether the audio codec takes no bit rate.
pub open spec fn is_lossless_audio(codec: Seq<char>) -> bool {
    codec == "flac"@ || codec == "alac"@ || codec == "pcm_s16le"@
}

/// The channel layout, where one is asked for.
pub open spec fn channel_args(config: ConfigView) -> Seq<Seq<char>> {
    if config.audio_channels == "stereo"@ {
        seq!["-ac"@, "2"@]
    } else if config.audio_channels == "mono"@ {
        seq!["-ac"@, "1"@]
    } else {
        seq![]
    }
}

/// The audio section: the codec, its bit rate unless it is lossless, and the
/// channel layout.
pub open spec fn audio_args(config: ConfigView) -> Seq<Seq<char>> {
    seq!["-c:a"@, config.audio_codec] + (if is_lossless_audio(config.audio_codec) {
        seq![]
    } else {
        seq!["-b:a"@, config.audio_bitrate + "k"@]
    }) + channel_args(config)
}

/// Whether the volume differs from 100 percent by more than a hundredth of
/// a percent.
pub open spec fn changes_volume(volume: Milli) -> bool {
    volume.thousandths > 100_010 || volume.thousandths < 99_990
}

/// The volume filter: the percentage as a factor with two decimal places.
pub open spec fn volume_text(volume: Milli) -> Seq<char> {
    let hundredths = volume.rounded();
    "volume="@ + decimal_text((hundredths / 100) as nat) + "."@ + seq![
        digit_char((hundredths / 10 % 10) as nat),
        digit_char((hundredths % 10) as nat),
    ]
}

/// The audio filter chain: loudness normalisation, then the volume, each
/// where it is asked for; `None` where neither is.
pub open spec fn audio_filter_text(config: ConfigView) -> Option<Seq<char>> {
    if config.audio_normalize && changes_volume(config.audio_volume) {
        Some("loudnorm=I=-16:TP=-1.5:LRA=11"@ + ","@ + volume_text(config.audio_volume))
    } else if config.audio_normalize {
        Some("loudnorm=I=-16:TP=-1.5:LRA=11"@)
    } else if changes_volume(config.audio_volume) {
        Some(volume_text(config.audio_volume))
    } else {
        None
    }
}

/// The audio filter argument, where there is a filter chain.
pub open spec fn audio_filter_args(config: ConfigView) -> Seq<Seq<char>> {
    match audio_filter_text(config) {
        Some(chain) => seq!["-af"@, chain],
        None => seq![],
    }
}

fn push_stream_maps(args: &mut Vec<String>, config: &ConversionConfig, audio_only: bool)
    requires
        audio_only == is_audio_only_name(lowercase_of(config.container@)),
    ensures
        texts(final(args)@) == texts(old(args)@) + stream_map_args(config@),
{
    let n = config.selected_audio_tracks.len();
    if n == 0 {
        return ;
    }
    if !audio_only {
        push_pair(args, "-map", String::from_str("0:v:0"));
    }
    let ghost base = texts(args@);
    let mut i: usize = 0;
    while i < n
        invariant
            i <= n,
            n == config.selected_audio_tracks@.len(),
            texts(args@) == base + track_maps(config.selected_audio_tracks@.take(i as int)),
        decreases n - i,
    {
        let index = config.selected_audio_tracks[i];
        let mut target = String::from_str("0:");
        push_decimal(&mut target, index as u64);
        push_pair(args, "-map", target);
        proof {
            let tracks = config.selected_audio_tracks@;
            assert(tracks.take(i + 1).drop_last() == tracks.take(i as int));
        }
        i += 1;
    }
    proof {
        let tracks = config.selected_audio_tracks@;
        assert(tracks.take(n as int) == tracks);
    }
}

fn lossless_audio(codec: &str) -> (b: bool)
    ensures
        b == is_lossless_audio(codec@),
{
    same_text(codec, "flac") || same_text(codec, "alac") || same_text(codec, "pcm_s16le")
}

fn push_audio(args: &mut Vec<String>, config: &ConversionConfig)
    ensures
        texts(final(args)@) == texts(old(args)@) + audio_args(config@),
{
    push_pair(args, "-c:a", config.audio_codec.clone());
    if !lossless_audio(config.audio_codec.as_str()) {
        push_pair(args, "-b:a", join(config.audio_bitrate.as_str(), "k"));
    }
    if same_text(config.audio_channels.as_str(), "stereo") {
        push_pair(args, "-ac", String::from_str("2"));
    } else if same_text(config.audio_channels.as_str(), "mono") {
        push_pair(args, "-ac", String::from_str("1"));
    }
}

fn volume_changed(volume: Milli) -> (b: bool)
    ensures
        b == changes_volume(volume),
{
    volume.thousandths > 100_010 || volume.thousandths < 99_990
}

fn volume_string(volume: Milli) -> (s: String)
    ensures
        s@ == volume_text(volume),
{
    let hundredths: u64 = volume.thousandths / 1000 + (if volume.thousandths % 1000 >= 500 {
        1u64
    } else {
        0u64
    });
    let mut s = String::from_str("volume=");
    push_decimal(&mut s, hundredths / 100);
    s.append(".");
    let tens: u8 = (hundredths / 10 % 10) as u8;
    let ones: u8 = (hundredths % 10) as u8;
    let second: char = (48u8 + tens) as char;
    let third: char = (48u8 + ones) as char;
    s.push(second);
    s.push(third);
    s
}

fn push_audio_filters(args: &mut Vec<String>, config: &ConversionConfig)
    ensures
        texts(final(args)@) == texts(old(args)@) + audio_filter_args(config@),
{
    let louder = volume_changed(config.audio_volume);
    if config.audio_normalize && louder {
        let volume = volume_string(config.audio_volume);
        push_pair(args, "-af", join3("loudnorm=I=-16:TP=-1.5:LRA=11", ",", volume.as_str()));
    } else if config.audio_normalize {
        push_pair(args, "-af", String::from_str("loudnorm=I=-16:TP=-1.5:LRA=11"));
    } else if louder {
        push_pair(args, "-af", volume_string(config.audio_volume));
    }
}

// ---------------------------------------------------------------------------
// The whole list
// ---------------------------------------------------------------------------

/// The encoder's arguments for converting `input` to `output` as `config`
/// describes: the start of the cut, the input, the end of the cut, the tags,
/// the video section, the stream selection, the audio section, the audio
/// filters, and last the output, which may be written over.
pub open spec fn ffmpeg_args(input: Seq<char>, output: Seq<char>, config: ConfigView) -> Seq<
    Seq<char>,
> {
    option_args("-ss"@, config.start_time) + seq!["-i"@, input] + option_args(
        "-to"@,
        config.end_time,
    ) + metadata_args(config.metadata) + video_args(config) + stream_map_args(config)
        + audio_args(config) + audio_filter_args(config) + seq!["-y"@, output]
}

/// Builds the encoder's argument list.
pub fn build_ffmpeg_args(input: &str, output: &str, config: &ConversionConfig) -> (args: Vec<
    String,
>)
    ensures
        texts(args@) == ffmpeg_args(input@, output@, config@),
{
    let mut args: Vec<String> = Vec::new();
    push_option(&mut args, "-ss", &config.start_time);
    push_pair(&mut args, "-i", String::from_str(input));
    push_option(&mut args, "-to", &config.end_time);
    push_metadata(&mut args, &config.metadata);
    let audio_only = is_audio_only_container(config.container.as_str());
    push_video(&mut args, config, audio_only);
    push_stream_maps(&mut args, config, audio_only);
    push_audio(&mut args, config);
    push_audio_filters(&mut args, config);
    push_pair(&mut args, "-y", String::from_str(output));
    args
}

} // verus!
