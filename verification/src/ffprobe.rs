//! From a probe's report to the metadata value object.
//!
//! The caller runs the prober and decodes its report; what the report means
//! is worked out here.

use vstd::prelude::*;
use vstd::string::StringExecFns;
use crate::error::join3;
use crate::number::{decimal_string, decimal_text, push_signed_decimal, signed_decimal_text, Milli};
use crate::probe::{
    frame_rate_of,
    known_audio_sum,
    known_audio_total,
    optional_str,
    parse_frame_rate_string,
    parse_probe_bitrate,
    probe_bitrate_of,
    track_views,
    AudioTrack,
    AudioTrackView,
    FfprobeTags,
    ProbeMetadata,
    ProbeView,
    TagsView,
};
use crate::text::{same_text, text_of};

verus! {

/// One stream of a probed file, as the prober reports it.
#[derive(Clone, Debug)]
pub struct FfprobeStream {
    pub index: u32,
    pub codec_type: String,
    pub codec_name: Option<String>,
    pub width: Option<i32>,
    pub height: Option<i32>,
    pub channels: Option<i32>,
    pub bit_rate: Option<String>,
    pub avg_frame_rate: Option<String>,
    pub channel_layout: Option<String>,
    pub tags: Option<FfprobeTags>,
}

/// The container of a probed file, as the prober reports it.
#[derive(Clone, Debug)]
pub struct FfprobeFormat {
    pub duration: Option<String>,
    pub bit_rate: Option<String>,
    pub tags: Option<FfprobeTags>,
}

/// A prober's report.
#[derive(Clone, Debug)]
pub struct FfprobeOutput {
    pub streams: Vec<FfprobeStream>,
    pub format: FfprobeFormat,
}

/// The view of optional tags.
pub open spec fn tags_view(tags: Option<FfprobeTags>) -> Option<TagsView> {
    match tags {
        Some(t) => Some(t@),
        None => None,
    }
}

/// A stream as the contracts see it.
pub struct StreamView {
    pub index: u32,
    pub codec_type: Seq<char>,
    pub codec_name: Option<Seq<char>>,
    pub width: Option<i32>,
    pub height: Option<i32>,
    pub channels: Option<i32>,
    pub bit_rate: Option<Seq<char>>,
    pub avg_frame_rate: Option<Seq<char>>,
    pub channel_layout: Option<Seq<char>>,
    pub tags: Option<TagsView>,
}

impl View for FfprobeStream {
    type V = StreamView;

    open spec fn view(&self) -> StreamView {
        StreamView {
            index: self.index,
            codec_type: self.codec_type@,
            codec_name: text_of(self.codec_name),
            width: self.width,
            height: self.height,
            channels: self.channels,
            bit_rate: text_of(self.bit_rate),
            avg_frame_rate: text_of(self.avg_frame_rate),
            channel_layout: text_of(self.channel_layout),
            tags: tags_view(self.tags),
        }
    }
}

/// A container as the contracts see it.
pub struct FormatView {
    pub duration: Option<Seq<char>>,
    pub bit_rate: Option<Seq<char>>,
    pub tags: Option<TagsView>,
}

impl View for FfprobeFormat {
    type V = FormatView;

    open spec fn view(&self) -> FormatView {
        FormatView {
            duration: text_of(self.duration),
            bit_rate: text_of(self.bit_rate),
            tags: tags_view(self.tags),
        }
    }
}

/// The views of a list of streams.
pub open spec fn stream_views(streams: Seq<FfprobeStream>) -> Seq<StreamView> {
    Seq::new(streams.len(), |i: int| streams[i]@)
}

// ---------------------------------------------------------------------------
// What a report means
// ---------------------------------------------------------------------------

/// The position of the first video stream; the number of streams where
/// there is none.
pub open spec fn video_position(streams: Seq<StreamView>) -> int
    decreases streams.len(),
{
    if streams.len() == 0 || streams[0].codec_type == "video"@ {
        0
    } else {
        1 + video_position(streams.drop_first())
    }
}

/// The first video stream, where there is one.
pub open spec fn video_stream(streams: Seq<StreamView>) -> Option<StreamView> {
    if video_position(streams) < streams.len() {
        Some(streams[video_position(streams)])
    } else {
        None
    }
}

/// The frame size that a stream reports: its width and height where both
/// are known and above zero.
pub open spec fn stream_size(stream: StreamView) -> Option<(u32, u32)> {
    match (stream.width, stream.height) {
        (Some(w), Some(h)) if w > 0 && h > 0 => Some((w as u32, h as u32)),
        _ => None,
    }
}

/// The audio track that an audio stream stands for: a codec that is not
/// named is `unknown`, a channel count that is not given is `?`, and the
/// label and the language come from the stream's tags.
pub open spec fn track_of(stream: StreamView) -> AudioTrackView {
    AudioTrackView {
        index: stream.index,
        codec: match stream.codec_name {
            Some(name) => name,
            None => "unknown"@,
        },
        channels: match stream.channels {
            Some(count) => signed_decimal_text(count as int),
            None => "?"@,
        },
        language: match stream.tags {
            Some(tags) => tags.language,
            None => None,
        },
        label: match stream.tags {
            Some(tags) => tags.title,
            None => None,
        },
        bitrate_kbps: probe_bitrate_of(stream.bit_rate),
    }
}

/// The audio tracks of a report: one for each audio stream, in order.
pub open spec fn audio_tracks_of(streams: Seq<StreamView>) -> Seq<AudioTrackView>
    decreases streams.len(),
{
    if streams.len() == 0 {
        seq![]
    } else if streams.last().codec_type == "audio"@ {
        audio_tracks_of(streams.drop_last()).push(track_of(streams.last()))
    } else {
        audio_tracks_of(streams.drop_last())
    }
}

/// The video bit rate that a report gives: that of the first video stream,
/// or else what the rate of the whole file exceeds the known rates of the
/// audio tracks by, where it exceeds them.
pub open spec fn probed_video_kbps(streams: Seq<StreamView>, format: FormatView) -> Option<Milli> {
    let own = match video_stream(streams) {
        Some(video) => probe_bitrate_of(video.bit_rate),
        None => None,
    };
    if own is Some {
        own
    } else {
        match probe_bitrate_of(format.bit_rate) {
            Some(whole) => if whole.thousandths > known_audio_sum(audio_tracks_of(streams)) {
                Some(
                    Milli {
                        thousandths: (whole.thousandths - known_audio_sum(
                            audio_tracks_of(streams),
                        )) as u64,
                    },
                )
            } else {
                None
            },
            None => None,
        }
    }
}

/// The metadata that a report stands for. The duration, the bit rate and the
/// tags are the container's; codec, size and frame rate are those of the
/// first video stream; the audio codec is that of the first audio track.
pub open spec fn probed(streams: Seq<StreamView>, format: FormatView) -> ProbeView {
    let video = video_stream(streams);
    let size = match video {
        Some(v) => stream_size(v),
        None => None,
    };
    let tracks = audio_tracks_of(streams);
    ProbeView {
        duration: format.duration,
        bitrate: format.bit_rate,
        video_codec: match video {
            Some(v) => v.codec_name,
            None => None,
        },
        audio_codec: if tracks.len() > 0 {
            Some(tracks[0].codec)
        } else {
            None
        },
        resolution: match size {
            Some((w, h)) => Some(decimal_text(w as nat) + "x"@ + decimal_text(h as nat)),
            None => None,
        },
        frame_rate: match video {
            Some(v) => frame_rate_of(v.avg_frame_rate),
            None => None,
        },
        width: match size {
            Some((w, _)) => Some(w),
            None => None,
        },
        height: match size {
            Some((_, h)) => Some(h),
            None => None,
        },
        video_bitrate_kbps: probed_video_kbps(streams, format),
        audio_tracks: tracks,
        tags: format.tags,
    }
}

proof fn lemma_video_position(streams: Seq<StreamView>, k: int)
    requires
        0 <= k <= streams.len(),
        forall|i: int| 0 <= i < k ==> (#[trigger] streams[i]).codec_type != "video"@,
        k == streams.len() || streams[k].codec_type == "video"@,
    ensures
        video_position(streams) == k,
    decreases k,
{
    if k > 0 {
        let rest = streams.drop_first();
        lemma_video_position(rest, k - 1);
    }
}

fn find_video(streams: &Vec<FfprobeStream>) -> (at: usize)
    ensures
        at == video_position(stream_views(streams@)),
        at <= streams.len(),
{
    let mut at: usize = 0;
    while at < streams.len() && !same_text(streams[at].codec_type.as_str(), "video")
        invariant
            at <= streams.len(),
            forall|i: int|
                0 <= i < at ==> (#[trigger] stream_views(streams@)[i]).codec_type != "video"@,
        decreases streams.len() - at,
    {
        at += 1;
    }
    proof {
        lemma_video_position(stream_views(streams@), at as int);
    }
    at
}

fn track_from(stream: &FfprobeStream) -> (track: AudioTrack)
    ensures
        track@ == track_of(stream@),
{
    let codec = match &stream.codec_name {
        Some(name) => name.clone(),
        None => String::from_str("unknown"),
    };
    let channels = match stream.channels {
        Some(count) => {
            let mut text = String::new();
            push_signed_decimal(&mut text, count as i64);
            text
        },
        None => String::from_str("?"),
    };
    let (language, label) = match &stream.tags {
        Some(tags) => (tags.language.clone(), tags.title.clone()),
        None => (None, None),
    };
    AudioTrack {
        index: stream.index,
        codec,
        channels,
        language,
        label,
        bitrate_kbps: parse_probe_bitrate(optional_str(&stream.bit_rate)),
    }
}

fn audio_tracks(streams: &Vec<FfprobeStream>) -> (tracks: Vec<AudioTrack>)
    ensures
        track_views(tracks@) == audio_tracks_of(stream_views(streams@)),
{
    let mut tracks: Vec<AudioTrack> = Vec::new();
    let mut i: usize = 0;
    while i < streams.len()
        invariant
            i <= streams.len(),
            track_views(tracks@) == audio_tracks_of(stream_views(streams@).take(i as int)),
        decreases streams.len() - i,
    {
        assert(stream_views(streams@).take(i + 1).drop_last() == stream_views(streams@).take(
            i as int,
        ));
        if same_text(streams[i].codec_type.as_str(), "audio") {
            let track = track_from(&streams[i]);
            tracks.push(track);
        }
        i += 1;
    }
    assert(stream_views(streams@).take(streams.len() as int) == stream_views(streams@));
    tracks
}

/// Works out the metadata that a prober's report stands for.
pub fn probe_media(probe: FfprobeOutput) -> (metadata: ProbeMetadata)
    ensures
        metadata@ == probed(stream_views(probe.streams@), probe.format@),
{
    let streams = &probe.streams;
    let at = find_video(streams);
    let tracks = audio_tracks(streams);
    let mut video_codec: Option<String> = None;
    let mut resolution: Option<String> = None;
    let mut width: Option<u32> = None;
    let mut height: Option<u32> = None;
    let mut frame_rate: Option<Milli> = None;
    let mut video_bitrate_kbps: Option<Milli> = None;
    if at < streams.len() {
        let video = &streams[at];
        video_codec = video.codec_name.clone();
        match (video.width, video.height) {
            (Some(w), Some(h)) => {
                if w > 0 && h > 0 {
                    width = Some(w as u32);
                    height = Some(h as u32);
                    let w_text = decimal_string(w as u64);
                    let h_text = decimal_string(h as u64);
                    resolution = Some(join3(w_text.as_str(), "x", h_text.as_str()));
                }
            },
            _ => {},
        }
        frame_rate = parse_frame_rate_string(optional_str(&video.avg_frame_rate));
        video_bitrate_kbps = parse_probe_bitrate(optional_str(&video.bit_rate));
    }
    if video_bitrate_kbps.is_none() {
        match parse_probe_bitrate(optional_str(&probe.format.bit_rate)) {
            Some(whole) => {
                let sum = known_audio_total(&tracks);
                if whole.thousandths as u128 > sum {
                    video_bitrate_kbps = Some(
                        Milli { thousandths: (whole.thousandths as u128 - sum) as u64 },
                    );
                }
            },
            None => {},
        }
    }
    let audio_codec = if tracks.len() > 0 {
        Some(tracks[0].codec.clone())
    } else {
        None
    };
    ProbeMetadata {
        duration: probe.format.duration,
        bitrate: probe.format.bit_rate,
        video_codec,
        audio_codec,
        resolution,
        frame_rate,
        width,
        height,
        video_bitrate_kbps,
        audio_tracks: tracks,
        tags: probe.format.tags,
    }
}

} // verus!
