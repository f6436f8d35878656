use transcode_core::args::{add_metadata_flags, build_ffmpeg_args};
use transcode_core::config::{ConversionConfig, MetadataConfig, MetadataMode};
use transcode_core::number::Milli;

fn contains_args(args: &[String], expected: &[&str]) -> bool {
    expected.iter().all(|e| args.iter().any(|a| a == e))
}

fn sample_config(container: &str) -> ConversionConfig {
    ConversionConfig {
        container: container.into(),
        video_codec: "libx264".into(),
        video_bitrate_mode: "crf".into(),
        video_bitrate: "5000".into(),
        audio_codec: "aac".into(),
        audio_bitrate: "128".into(),
        audio_channels: "original".into(),
        audio_volume: Milli::from_units(100),
        selected_audio_tracks: vec![],
        resolution: "original".into(),
        custom_width: None,
        custom_height: None,
        scaling_algorithm: "bicubic".into(),
        fps: "original".into(),
        crf: 23,
        quality: 50,
        preset: "medium".into(),
        start_time: None,
        end_time: None,
        audio_normalize: false,
        metadata: MetadataConfig::default(),
    }
}

fn strings(items: &[&str]) -> Vec<String> {
    items.iter().map(|s| s.to_string()).collect()
}

#[test]
fn test_default_mp4_h264() {
    let config = ConversionConfig {
        container: "mp4".into(),
        video_codec: "libx264".into(),
        video_bitrate_mode: "crf".into(),
        video_bitrate: "5000".into(),
        audio_codec: "aac".into(),
        audio_bitrate: "128".into(),
        audio_channels: "original".into(),
        audio_volume: Milli::from_units(100),
        selected_audio_tracks: vec![],
        resolution: "original".into(),
        custom_width: None,
        custom_height: None,
        scaling_algorithm: "bicubic".into(),
        fps: "original".into(),
        crf: 23,
        quality: 50,
        preset: "medium".into(),
        start_time: None,
        end_time: None,
        audio_normalize: false,
        metadata: MetadataConfig::default(),
    };

    let args = build_ffmpeg_args("input.mov", "output.mp4", &config);

    assert_eq!(args[0], "-i");
    assert_eq!(args[1], "input.mov");

    assert!(contains_args(&args, &["-c:v", "libx264"]));
    assert!(contains_args(&args, &["-c:a", "aac"]));

    assert!(contains_args(&args, &["-crf", "23"]));
    assert!(contains_args(&args, &["-preset", "medium"]));

    assert!(!args.iter().any(|a| a == "-vf"));
}

#[test]
fn test_resolution_scaling_1080p() {
    let config = ConversionConfig {
        container: "mp4".into(),
        video_codec: "libx264".into(),
        video_bitrate_mode: "crf".into(),
        video_bitrate: "5000".into(),
        audio_codec: "aac".into(),
        audio_bitrate: "128".into(),
        audio_channels: "original".into(),
        audio_volume: Milli::from_units(100),
        selected_audio_tracks: vec![],
        resolution: "1080p".into(),
        custom_width: None,
        custom_height: None,
        scaling_algorithm: "bicubic".into(),
        fps: "original".into(),
        crf: 23,
        quality: 50,
        preset: "medium".into(),
        start_time: None,
        end_time: None,
        audio_normalize: false,
        metadata: MetadataConfig::default(),
    };
    let args = build_ffmpeg_args("in.mp4", "out.mp4", &config);

    let vf_index = args.iter().position(|r| r == "-vf").unwrap();
    assert_eq!(args[vf_index + 1], "scale=-1:1080:flags=bicubic");
}

#[test]
fn test_resolution_scaling_720p() {
    let config = ConversionConfig {
        container: "mp4".into(),
        video_codec: "libx264".into(),
        video_bitrate_mode: "crf".into(),
        video_bitrate: "5000".into(),
        audio_codec: "aac".into(),
        audio_bitrate: "128".into(),
        audio_channels: "original".into(),
        audio_volume: Milli::from_units(100),
        selected_audio_tracks: vec![],
        resolution: "720p".into(),
        custom_width: None,
        custom_height: None,
        scaling_algorithm: "bicubic".into(),
        fps: "original".into(),
        crf: 23,
        quality: 50,
        preset: "medium".into(),
        start_time: None,
        end_time: None,
        audio_normalize: false,
        metadata: MetadataConfig::default(),
    };

    let args = build_ffmpeg_args("in.mp4", "out.mp4", &config);

    let vf_index = args.iter().position(|r| r == "-vf").unwrap();
    assert_eq!(args[vf_index + 1], "scale=-1:720:flags=bicubic");
}

#[test]
fn test_high_quality_h265() {
    let config = ConversionConfig {
        container: "mkv".into(),
        video_codec: "libx265".into(),
        video_bitrate_mode: "crf".into(),
        video_bitrate: "8000".into(),
        audio_codec: "ac3".into(),
        audio_bitrate: "192".into(),
        audio_channels: "original".into(),
        audio_volume: Milli::from_units(100),
        selected_audio_tracks: vec![],
        resolution: "original".into(),
        custom_width: None,
        custom_height: None,
        scaling_algorithm: "bicubic".into(),
        fps: "original".into(),
        crf: 18,
        quality: 50,
        preset: "slow".into(),
        start_time: None,
        end_time: None,
        audio_normalize: false,
        metadata: MetadataConfig::default(),
    };
    let args = build_ffmpeg_args("raw.mov", "archive.mkv", &config);

    assert!(contains_args(&args, &["-c:v", "libx265"]));
    assert!(contains_args(&args, &["-crf", "18"]));
    assert!(contains_args(&args, &["-preset", "slow"]));
    assert!(contains_args(&args, &["-c:a", "ac3"]));
    assert_eq!(args.last().unwrap(), "archive.mkv");
}

#[test]
fn test_web_optimization_vp9() {
    let config = ConversionConfig {
        container: "webm".into(),
        video_codec: "libvpx-vp9".into(),
        video_bitrate_mode: "crf".into(),
        video_bitrate: "2500".into(),
        audio_codec: "libopus".into(),
        audio_bitrate: "96".into(),
        audio_channels: "original".into(),
        audio_volume: Milli::from_units(100),
        selected_audio_tracks: vec![],
        resolution: "original".into(),
        custom_width: None,
        custom_height: None,
        scaling_algorithm: "bicubic".into(),
        fps: "original".into(),
        crf: 30,
        quality: 50,
        preset: "medium".into(),
        start_time: None,
        end_time: None,
        audio_normalize: false,
        metadata: MetadataConfig::default(),
    };
    let args = build_ffmpeg_args("clip.mp4", "web.webm", &config);

    assert!(contains_args(&args, &["-c:v", "libvpx-vp9"]));
    assert!(contains_args(&args, &["-c:a", "libopus"]));
    assert!(args.last().unwrap().ends_with(".webm"));
}

#[test]
fn test_custom_resolution_and_fps() {
    let mut config = sample_config("mp4");
    config.resolution = "custom".into();
    config.custom_width = Some("1280".into());
    config.custom_height = Some("720".into());
    config.fps = "30".into();
    config.scaling_algorithm = "lanczos".into();

    let args = build_ffmpeg_args("in.mp4", "out.mp4", &config);

    let vf_index = args.iter().position(|r| r == "-vf").unwrap();
    assert_eq!(args[vf_index + 1], "scale=1280:720:flags=lanczos");

    let fps_index = args.iter().position(|r| r == "-r").unwrap();
    assert_eq!(args[fps_index + 1], "30");
}

#[test]
fn test_video_bitrate_mode() {
    let mut config = sample_config("mp4");
    config.video_bitrate_mode = "bitrate".into();
    config.video_bitrate = "2500".into();

    let args = build_ffmpeg_args("in.mp4", "out.mp4", &config);

    assert!(contains_args(&args, &["-b:v", "2500k"]));
    assert!(!args.iter().any(|a| a == "-crf"));
}

#[test]
fn test_av1_codec() {
    let mut config = sample_config("mkv");
    config.video_codec = "libsvtav1".into();

    let args = build_ffmpeg_args("in.mp4", "out.mkv", &config);

    assert!(contains_args(&args, &["-c:v", "libsvtav1"]));
}

#[test]
fn test_hardware_encoder_videotoolbox() {
    let mut config = sample_config("mov");
    config.video_codec = "h264_videotoolbox".into();
    config.quality = 55;

    let args = build_ffmpeg_args("in.mov", "out.mov", &config);

    assert!(contains_args(&args, &["-c:v", "h264_videotoolbox"]));
    assert!(contains_args(&args, &["-q:v", "55"]));
    assert!(!args.iter().any(|a| a == "-crf"));
}

#[test]
fn test_hardware_encoder_nvenc() {
    let mut config = sample_config("mp4");
    config.video_codec = "h264_nvenc".into();
    config.quality = 50;

    let args = build_ffmpeg_args("in.mp4", "out.mp4", &config);

    assert!(contains_args(&args, &["-c:v", "h264_nvenc"]));
    assert!(contains_args(&args, &["-rc:v", "vbr"]));
    assert!(contains_args(&args, &["-cq:v", "27"]));
    assert!(!args.iter().any(|a| a == "-crf"));
}

#[test]
fn test_scaling_algorithms() {
    let algos = vec![
        ("lanczos", ":flags=lanczos"),
        ("bicubic", ":flags=bicubic"),
        ("nearest", ":flags=neighbor"),
    ];

    for (algo_name, expected_flag) in algos {
        let mut config = sample_config("mp4");
        config.resolution = "720p".into();
        config.scaling_algorithm = algo_name.into();

        let args = build_ffmpeg_args("in.mp4", "out.mp4", &config);
        let vf_arg = args.iter().find(|a| a.starts_with("scale=")).unwrap();
        assert!(
            vf_arg.ends_with(expected_flag),
            "Algorithm {} expected flag {}, got {}",
            algo_name,
            expected_flag,
            vf_arg
        );
    }
}

#[test]
fn test_audio_volume_filter() {
    let config = sample_config("mp4");
    let args = build_ffmpeg_args("in.mp4", "out.mp4", &config);
    assert!(!args.iter().any(|a| a == "-af"), "no -af at 100% volume");

    let mut config_reduced = sample_config("mp4");
    config_reduced.audio_volume = Milli::from_units(50);
    let args_reduced = build_ffmpeg_args("in.mp4", "out.mp4", &config_reduced);
    let af_index = args_reduced.iter().position(|r| r == "-af").unwrap();
    assert_eq!(args_reduced[af_index + 1], "volume=0.50");

    let mut config_boosted = sample_config("mp4");
    config_boosted.audio_volume = Milli::from_units(150);
    let args_boosted = build_ffmpeg_args("in.mp4", "out.mp4", &config_boosted);
    let af_index = args_boosted.iter().position(|r| r == "-af").unwrap();
    assert_eq!(args_boosted[af_index + 1], "volume=1.50");
}

#[test]
fn whole_argument_list_in_order() {
    let mut config = sample_config("mp4");
    config.start_time = Some("00:00:05".into());
    config.end_time = Some("00:01:00".into());
    config.resolution = "480p".into();
    config.scaling_algorithm = "bilinear".into();
    config.fps = "24".into();
    config.selected_audio_tracks = vec![1, 2];
    config.audio_channels = "stereo".into();
    config.audio_normalize = true;
    config.audio_volume = Milli::from_thousandths(72_500);
    config.metadata.mode = MetadataMode::Replace;
    config.metadata.title = Some("Holiday".into());
    config.metadata.artist = Some(String::new());
    config.metadata.comment = Some("cut".into());

    let args = build_ffmpeg_args("in.mov", "out.mp4", &config);
    assert_eq!(
        args,
        strings(&[
            "-ss", "00:00:05", "-i", "in.mov", "-to", "00:01:00",
            "-map_metadata", "-1", "-metadata", "title=Holiday", "-metadata", "comment=cut",
            "-c:v", "libx264", "-crf", "23", "-preset", "medium",
            "-vf", "scale=-1:480:flags=bilinear", "-r", "24",
            "-map", "0:v:0", "-map", "0:1", "-map", "0:2",
            "-c:a", "aac", "-b:a", "128k", "-ac", "2",
            "-af", "loudnorm=I=-16:TP=-1.5:LRA=11,volume=0.73",
            "-y", "out.mp4",
        ])
    );
}

#[test]
fn audio_only_container_drops_video() {
    let mut config = sample_config("MP3");
    config.audio_codec = "flac".into();
    config.audio_channels = "mono".into();
    config.selected_audio_tracks = vec![3];
    config.metadata.mode = MetadataMode::Clean;
    config.metadata.title = Some("ignored".into());

    let args = build_ffmpeg_args("a.wav", "a.mp3", &config);
    assert_eq!(
        args,
        strings(&[
            "-i", "a.wav", "-map_metadata", "-1", "-vn", "-map", "0:3", "-c:a", "flac", "-ac", "1",
            "-y", "a.mp3",
        ])
    );
}

#[test]
fn nvenc_level_is_held_between_1_and_51() {
    let mut config = sample_config("mp4");
    config.video_codec = "h264_nvenc".into();
    for (quality, level) in [(0u32, "51"), (1, "51"), (2, "51"), (3, "51"), (4, "50"), (100, "2"), (101, "2"), (102, "1"), (4_000_000_000, "1")] {
        config.quality = quality;
        let args = build_ffmpeg_args("i", "o", &config);
        let at = args.iter().position(|a| a == "-cq:v").unwrap();
        assert_eq!(args[at + 1], level, "quality {}", quality);
    }
}

#[test]
fn custom_scale_uses_auto_for_missing_sides() {
    let mut config = sample_config("mp4");
    config.resolution = "custom".into();
    config.custom_width = Some("640".into());
    config.scaling_algorithm = "unknown".into();
    let args = build_ffmpeg_args("i", "o", &config);
    let at = args.iter().position(|a| a == "-vf").unwrap();
    assert_eq!(args[at + 1], "scale=640:-1");

    config.custom_width = None;
    let args = build_ffmpeg_args("i", "o", &config);
    let at = args.iter().position(|a| a == "-vf").unwrap();
    assert_eq!(args[at + 1], "scale=-1:-1");
}

#[test]
fn volume_within_a_hundredth_of_a_percent_is_left_alone() {
    let mut config = sample_config("mp4");
    config.audio_volume = Milli::from_thousandths(100_010);
    assert!(!build_ffmpeg_args("i", "o", &config).iter().any(|a| a == "-af"));
    config.audio_volume = Milli::from_thousandths(99_990);
    assert!(!build_ffmpeg_args("i", "o", &config).iter().any(|a| a == "-af"));
    config.audio_volume = Milli::from_thousandths(100_011);
    let args = build_ffmpeg_args("i", "o", &config);
    let at = args.iter().position(|a| a == "-af").unwrap();
    assert_eq!(args[at + 1], "volume=1.00");
    config.audio_volume = Milli::from_thousandths(1_234_500);
    let args = build_ffmpeg_args("i", "o", &config);
    let at = args.iter().position(|a| a == "-af").unwrap();
    assert_eq!(args[at + 1], "volume=12.35");
}

#[test]
fn metadata_flags_skip_empty_and_missing_tags() {
    let mut metadata = MetadataConfig::default();
    metadata.title = Some("T".into());
    metadata.album = Some(String::new());
    metadata.genre = Some("G".into());
    metadata.date = Some("2024".into());
    let mut args = vec!["kept".to_string()];
    add_metadata_flags(&mut args, &metadata);
    assert_eq!(
        args,
        strings(&["kept", "-metadata", "title=T", "-metadata", "genre=G", "-metadata", "date=2024"])
    );
}

#[test]
fn preserve_mode_writes_tags_without_clearing() {
    let mut config = sample_config("mp4");
    config.metadata.artist = Some("A".into());
    let args = build_ffmpeg_args("i", "o", &config);
    assert!(!args.iter().any(|a| a == "-map_metadata"));
    let at = args.iter().position(|a| a == "-metadata").unwrap();
    assert_eq!(args[at + 1], "artist=A");
}
