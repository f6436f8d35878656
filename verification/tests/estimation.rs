use transcode_core::config::{ConversionConfig, MetadataConfig};
use transcode_core::error::ConversionError;
use transcode_core::estimation::{
    container_overhead_factor, determine_target_fps, estimate_audio_bitrate_kbps, estimate_output,
    parse_config_bitrate, parse_duration_to_seconds, resolve_audio_track_ids,
    source_video_bitrate_kbps, OutputEstimate,
};
use transcode_core::number::Milli;
use transcode_core::probe::{AudioTrack, ProbeMetadata};

fn sample_config(container: &str) -> ConversionConfig {
    ConversionConfig {
        container: container.into(),
        video_codec: "libx264".into(),
        video_bitrate_mode: "crf".into(),
        video_bitrate: "5000".into(),
        audio_codec: "aac".into(),
        audio_bitrate: "128".into(),
        audio_channels: "original".into(),
        audio_volume: Milli::from_units(100),
        audio_normalize: false,
        selected_audio_tracks: vec![],
        resolution: "original".into(),
        custom_width: None,
        custom_height: None,
        scaling_algorithm: "bicubic".into(),
        fps: "original".into(),
        crf: 23,
        quality: 50,
        preset: "medium".into(),
        start_time: None,
        end_time: None,
        metadata: MetadataConfig::default(),
    }
}

fn track(index: u32, kbps: Option<u32>) -> AudioTrack {
    AudioTrack {
        index,
        codec: "aac".into(),
        channels: "2".into(),
        language: None,
        label: None,
        bitrate_kbps: kbps.map(Milli::from_units),
    }
}

fn sample_metadata() -> ProbeMetadata {
    ProbeMetadata {
        duration: Some("60".into()),
        bitrate: Some("4128000".into()),
        video_codec: Some("h264".into()),
        audio_codec: Some("aac".into()),
        resolution: Some("1920x1080".into()),
        frame_rate: Some(Milli::from_units(30)),
        width: Some(1920),
        height: Some(1080),
        video_bitrate_kbps: Some(Milli::from_units(4000)),
        audio_tracks: vec![AudioTrack {
            index: 0,
            codec: "aac".into(),
            channels: "2".into(),
            language: None,
            label: None,
            bitrate_kbps: Some(Milli::from_units(128)),
        }],
        tags: None,
    }
}

fn invalid(outcome: Result<OutputEstimate, ConversionError>) -> String {
    match outcome {
        Err(ConversionError::InvalidInput(detail)) => detail,
        other => panic!("expected an invalid-input error, got {:?}", other),
    }
}

#[test]
fn test_estimate_output_standard_video() {
    let config = sample_config("mp4");
    let metadata = sample_metadata();

    let estimate = estimate_output(config, Some(metadata)).unwrap();

    assert_eq!(estimate.audio_kbps, 128);
    assert_eq!(estimate.video_kbps, 4666);
    assert_eq!(estimate.total_kbps, 4832);
    let size = estimate.size_mb.expect("size should exist");
    let size = size.thousandths as f64 / 1000.0;
    assert!((size - 36.2).abs() < 0.2);
}

#[test]
fn test_estimate_output_without_audio_stream() {
    let config = sample_config("mp4");
    let mut metadata = sample_metadata();
    metadata.audio_codec = None;
    metadata.audio_tracks.clear();

    let estimate = estimate_output(config, Some(metadata)).unwrap();

    assert_eq!(estimate.audio_kbps, 0);
    assert!(estimate.video_kbps > 0);
}

#[test]
fn test_estimate_output_audio_only_container() {
    let mut config = sample_config("mp3");
    config.audio_codec = "mp3".into();
    let metadata = sample_metadata();

    let estimate = estimate_output(config, Some(metadata)).unwrap();

    assert_eq!(estimate.video_kbps, 0);
    assert_eq!(estimate.audio_kbps, 128);
    assert_eq!(estimate.total_kbps, 129);
}

#[test]
fn test_estimate_output_without_metadata_uses_reference_curve() {
    let mut config = sample_config("mp4");
    config.resolution = "720p".into();
    config.fps = "30".into();

    let estimate = estimate_output(config, None).unwrap();

    assert_eq!(estimate.video_kbps, 2074);
}

#[test]
fn test_audio_copy_prefers_probe_bitrate() {
    let mut config = sample_config("mp4");
    config.audio_codec = "copy".into();
    config.audio_bitrate = "256".into();
    config.selected_audio_tracks = vec![0];

    let metadata = sample_metadata();
    let estimate = estimate_output(config, Some(metadata)).unwrap();

    assert_eq!(estimate.audio_kbps, 128);
}

#[test]
fn test_estimate_output_crf_adjustment_tracks_source_quality() {
    let metadata = sample_metadata();
    let mut baseline_config = sample_config("mp4");
    baseline_config.crf = 23;

    let baseline = estimate_output(baseline_config.clone(), Some(metadata.clone())).unwrap();

    let mut lower_quality = baseline_config.clone();
    lower_quality.crf = 30;

    let mut higher_quality = baseline_config;
    higher_quality.crf = 18;

    let low_estimate = estimate_output(lower_quality, Some(metadata.clone())).unwrap();
    let high_estimate = estimate_output(higher_quality, Some(metadata)).unwrap();

    assert!(low_estimate.video_kbps < baseline.video_kbps);
    assert!(high_estimate.video_kbps > baseline.video_kbps);
}

#[test]
fn standard_video_estimate_is_exact() {
    let estimate = estimate_output(sample_config("mp4"), Some(sample_metadata())).unwrap();
    assert_eq!(
        estimate,
        OutputEstimate {
            video_kbps: 4666,
            audio_kbps: 128,
            total_kbps: 4832,
            size_mb: Some(Milli::from_thousandths(36_239)),
        }
    );
}

#[test]
fn estimate_is_the_same_for_the_same_inputs() {
    let a = estimate_output(sample_config("mkv"), Some(sample_metadata())).unwrap();
    let b = estimate_output(sample_config("mkv"), Some(sample_metadata())).unwrap();
    assert_eq!(a, b);
}

#[test]
fn each_step_of_crf_lowers_the_video_bitrate() {
    let mut last = u32::MAX;
    for crf in 0u8..=60 {
        let mut config = sample_config("mp4");
        config.crf = crf;
        let estimate = estimate_output(config, Some(sample_metadata())).unwrap();
        assert!(estimate.video_kbps < last, "crf {}", crf);
        last = estimate.video_kbps;
    }
}

#[test]
fn six_steps_of_crf_halve_the_video_bitrate() {
    let mut config = sample_config("mp4");
    config.crf = 17;
    let high = estimate_output(config.clone(), Some(sample_metadata())).unwrap();
    config.crf = 23;
    let middle = estimate_output(config.clone(), Some(sample_metadata())).unwrap();
    config.crf = 29;
    let low = estimate_output(config, Some(sample_metadata())).unwrap();
    assert_eq!(middle.video_kbps, 4666);
    assert_eq!(high.video_kbps, 9331);
    assert_eq!(low.video_kbps, 2333);
}

#[test]
fn one_step_of_crf_is_a_sixth_of_a_doubling() {
    let mut config = sample_config("mp4");
    config.crf = 22;
    let estimate = estimate_output(config, Some(sample_metadata())).unwrap();
    // 4665.6 * 2^(1/6) = 5236.96
    assert_eq!(estimate.video_kbps, 5237);
}

#[test]
fn hardware_quality_maps_onto_the_curve() {
    let mut config = sample_config("mp4");
    config.video_codec = "h264_nvenc".into();
    config.resolution = "720p".into();
    config.fps = "30".into();
    config.quality = 50;
    // 0.045 bits per pixel at crf 23; quality 50 stands for crf 25.51:
    // 0.045 * 27648000 / 1000 * 2^((23 - 25.51) / 6) = 930.9
    let estimate = estimate_output(config.clone(), None).unwrap();
    assert_eq!(estimate.video_kbps, 931);
    config.quality = 100;
    // crf 0: 1244.16 * 2^(23 / 6) = 17734.7
    let estimate = estimate_output(config.clone(), None).unwrap();
    assert_eq!(estimate.video_kbps, 17735);
    config.quality = 4_000_000_000;
    let estimate = estimate_output(config, None).unwrap();
    assert_eq!(estimate.video_kbps, u32::MAX);
    assert_eq!(estimate.total_kbps, u32::MAX);
}

#[test]
fn other_codecs_have_their_own_reference_points() {
    let cases = [
        ("libx265", 28u8, 0.040),
        ("HEVC", 28, 0.040),
        ("libvpx-vp9", 31, 0.050),
        ("libsvtav1", 32, 0.032),
        ("prores_ks", 9, 1.9),
        ("mystery", 23, 0.075),
    ];
    for (codec, crf, bits_per_pixel) in cases {
        let mut config = sample_config("mkv");
        config.video_codec = codec.into();
        config.crf = crf;
        config.resolution = "720p".into();
        config.fps = "30".into();
        let estimate = estimate_output(config, None).unwrap();
        let expected = (bits_per_pixel * 1280.0 * 720.0 * 30.0 / 1000.0f64).round() as u32;
        assert_eq!(estimate.video_kbps, expected, "codec {}", codec);
    }
}

#[test]
fn bitrate_mode_takes_the_configured_rate() {
    let mut config = sample_config("mp4");
    config.video_bitrate_mode = "bitrate".into();
    config.video_bitrate = " 2500,5 ".into();
    let estimate = estimate_output(config, Some(sample_metadata())).unwrap();
    assert_eq!(estimate.video_kbps, 2501);
    assert_eq!(estimate.audio_kbps, 128);
    // (2500.5 + 128) * 1.008 = 2649.528
    assert_eq!(estimate.total_kbps, 2650);
}

#[test]
fn invalid_settings_are_reported_in_order() {
    let mut config = sample_config("mp4");
    config.resolution = "custom".into();
    config.custom_width = Some("wide".into());
    config.custom_height = Some("0".into());
    config.fps = "fast".into();
    config.video_bitrate_mode = "bitrate".into();
    config.video_bitrate = "-5".into();
    config.audio_bitrate = "".into();
    assert_eq!(invalid(estimate_output(config.clone(), None)), "Invalid customWidth value: wide");
    config.custom_width = Some(" 640 ".into());
    assert_eq!(
        invalid(estimate_output(config.clone(), None)),
        "customHeight must be positive or -1, got 0"
    );
    config.custom_height = Some("-1".into());
    assert_eq!(invalid(estimate_output(config.clone(), None)), "Invalid fps value: fast");
    config.fps = "0".into();
    assert_eq!(invalid(estimate_output(config.clone(), None)), "Frame rate must be positive, got 0");
    config.fps = "25".into();
    assert_eq!(
        invalid(estimate_output(config.clone(), None)),
        "video bitrate must be positive, got -5"
    );
    config.video_bitrate = "abc".into();
    assert_eq!(invalid(estimate_output(config.clone(), None)), "Invalid video bitrate value: abc");
    config.video_bitrate = "  ".into();
    assert_eq!(invalid(estimate_output(config.clone(), None)), "video bitrate must not be empty");
    config.video_bitrate = "1000".into();
    config.selected_audio_tracks = vec![0];
    assert_eq!(invalid(estimate_output(config.clone(), None)), "audio bitrate must not be empty");
    config.audio_bitrate = "96".into();
    let estimate = estimate_output(config, None).unwrap();
    assert_eq!(estimate.video_kbps, 1000);
    assert_eq!(estimate.audio_kbps, 96);
}

#[test]
fn invalid_settings_count_for_audio_only_containers_too() {
    let mut config = sample_config("flac");
    config.fps = "-1".into();
    assert_eq!(invalid(estimate_output(config, None)), "Frame rate must be positive, got -1");
}

#[test]
fn size_is_absent_without_a_duration() {
    let mut metadata = sample_metadata();
    metadata.duration = None;
    let estimate = estimate_output(sample_config("mp4"), Some(metadata)).unwrap();
    assert_eq!(estimate.size_mb, None);
    let mut metadata = sample_metadata();
    metadata.duration = Some("N/A".into());
    let estimate = estimate_output(sample_config("mp4"), Some(metadata)).unwrap();
    assert_eq!(estimate.size_mb, None);
    let estimate = estimate_output(sample_config("mp4"), None).unwrap();
    assert_eq!(estimate.size_mb, None);
}

#[test]
fn durations_are_seconds_or_clock_times() {
    let read = |s: &str| parse_duration_to_seconds(Some(&s.to_string()));
    assert_eq!(read("60"), Some(Milli::from_units(60)));
    assert_eq!(read("12.3456"), Some(Milli::from_thousandths(12_345)));
    assert_eq!(read("01:02:03.5"), Some(Milli::from_thousandths(3_723_500)));
    assert_eq!(read(" 1 : 2 : 3 "), Some(Milli::from_units(3723)));
    assert_eq!(read("1:2"), None);
    assert_eq!(read("1:2:3:4"), None);
    assert_eq!(read("1:x:3"), None);
    assert_eq!(read(""), None);
    assert_eq!(read("-5"), Some(Milli::from_units(0)));
    assert_eq!(read("0:-1:30"), Some(Milli::from_units(0)));
    assert_eq!(read("1:-1:30"), Some(Milli::from_units(3570)));
    assert_eq!(parse_duration_to_seconds(None), None);
}

#[test]
fn container_families_have_their_overheads() {
    assert_eq!(container_overhead_factor("ts"), Milli::from_thousandths(1040));
    assert_eq!(container_overhead_factor("M2TS"), Milli::from_thousandths(1040));
    assert_eq!(container_overhead_factor("mkv"), Milli::from_thousandths(1010));
    assert_eq!(container_overhead_factor("webm"), Milli::from_thousandths(1010));
    assert_eq!(container_overhead_factor("mp4"), Milli::from_thousandths(1008));
    assert_eq!(container_overhead_factor("M4V"), Milli::from_thousandths(1008));
    assert_eq!(container_overhead_factor("Mov"), Milli::from_thousandths(1008));
    assert_eq!(container_overhead_factor("avi"), Milli::from_thousandths(1010));
}

#[test]
fn audio_tracks_are_resolved_in_order_of_preference() {
    let mut config = sample_config("mp4");
    let mut metadata = sample_metadata();
    metadata.audio_tracks = vec![track(4, None), track(5, None)];
    config.selected_audio_tracks = vec![3, 1, 3, 2, 1];
    assert_eq!(resolve_audio_track_ids(&config, Some(&metadata), false), vec![3, 1, 2]);
    config.selected_audio_tracks = vec![];
    assert_eq!(resolve_audio_track_ids(&config, Some(&metadata), true), vec![4]);
    metadata.audio_tracks.clear();
    assert_eq!(resolve_audio_track_ids(&config, Some(&metadata), true), vec![0]);
    assert_eq!(resolve_audio_track_ids(&config, None, true), vec![0]);
    assert_eq!(resolve_audio_track_ids(&config, None, false), Vec::<u32>::new());
}

#[test]
fn copied_tracks_fall_back_one_by_one() {
    let mut config = sample_config("mp4");
    config.audio_codec = "COPY".into();
    config.audio_bitrate = "oops".into();
    config.selected_audio_tracks = vec![1, 2, 9];
    let mut metadata = sample_metadata();
    metadata.audio_tracks = vec![track(1, Some(320)), track(2, None), track(1, Some(64))];
    // track 1 at its own 320, track 2 and the missing track 9 at 128 each
    assert_eq!(
        estimate_audio_bitrate_kbps(&config, Some(&metadata), false).unwrap(),
        Milli::from_units(576)
    );
    metadata.audio_tracks = vec![track(1, None), track(2, Some(0))];
    assert_eq!(
        estimate_audio_bitrate_kbps(&config, Some(&metadata), false).unwrap(),
        Milli::from_units(384)
    );
    // without metadata the configured rate is needed after all
    assert!(estimate_audio_bitrate_kbps(&config, None, false).is_err());
}

#[test]
fn raw_audio_defaults_to_1536_per_track() {
    let mut config = sample_config("mkv");
    config.audio_codec = "PCM_s16le".into();
    config.audio_bitrate = "".into();
    config.selected_audio_tracks = vec![0, 1];
    assert_eq!(
        estimate_audio_bitrate_kbps(&config, None, false).unwrap(),
        Milli::from_units(3072)
    );
    config.audio_bitrate = "0".into();
    assert_eq!(
        estimate_audio_bitrate_kbps(&config, None, false).unwrap(),
        Milli::from_units(3072)
    );
    config.audio_bitrate = "768".into();
    assert_eq!(
        estimate_audio_bitrate_kbps(&config, None, false).unwrap(),
        Milli::from_units(1536)
    );
}

#[test]
fn no_tracks_no_audio() {
    let mut config = sample_config("mp4");
    config.audio_bitrate = "bad".into();
    assert_eq!(
        estimate_audio_bitrate_kbps(&config, None, false).unwrap(),
        Milli::from_units(0)
    );
}

#[test]
fn source_bitrate_is_probed_or_taken_from_the_file() {
    let mut metadata = sample_metadata();
    assert_eq!(source_video_bitrate_kbps(Some(&metadata)), Some(Milli::from_units(4000)));
    metadata.video_bitrate_kbps = None;
    // 4128 * 0.95 - 128 = 3793.6
    assert_eq!(
        source_video_bitrate_kbps(Some(&metadata)),
        Some(Milli::from_thousandths(3_793_600))
    );
    metadata.video_bitrate_kbps = Some(Milli::from_units(0));
    metadata.audio_tracks = vec![track(0, Some(5000)), track(1, None)];
    assert_eq!(source_video_bitrate_kbps(Some(&metadata)), Some(Milli::from_units(0)));
    metadata.bitrate = Some("n/a".into());
    assert_eq!(source_video_bitrate_kbps(Some(&metadata)), None);
    assert_eq!(source_video_bitrate_kbps(None), None);
}

#[test]
fn a_source_without_video_bits_projects_to_zero() {
    let mut metadata = sample_metadata();
    metadata.video_bitrate_kbps = None;
    metadata.bitrate = Some("100000".into());
    let estimate = estimate_output(sample_config("mp4"), Some(metadata)).unwrap();
    assert_eq!(estimate.video_kbps, 0);
    assert_eq!(estimate.audio_kbps, 128);
}

#[test]
fn frame_rate_comes_from_the_source_or_the_setting() {
    let mut config = sample_config("mp4");
    let mut metadata = sample_metadata();
    metadata.frame_rate = Some(Milli::from_thousandths(23_976));
    assert_eq!(
        determine_target_fps(&config, Some(&metadata)).unwrap(),
        Milli::from_thousandths(23_976)
    );
    metadata.frame_rate = None;
    assert_eq!(determine_target_fps(&config, Some(&metadata)).unwrap(), Milli::from_units(30));
    assert_eq!(determine_target_fps(&config, None).unwrap(), Milli::from_units(30));
    config.fps = " 59.94 ".into();
    assert_eq!(
        determine_target_fps(&config, Some(&metadata)).unwrap(),
        Milli::from_thousandths(59_940)
    );
}

#[test]
fn configured_bitrates_must_be_numbers_above_zero() {
    assert_eq!(parse_config_bitrate("128", "audio bitrate").unwrap(), Milli::from_units(128));
    assert_eq!(
        parse_config_bitrate("+1,5", "audio bitrate").unwrap(),
        Milli::from_thousandths(1500)
    );
    assert_eq!(parse_config_bitrate(".5", "x").unwrap(), Milli::from_thousandths(500));
    assert_eq!(parse_config_bitrate("5.", "x").unwrap(), Milli::from_units(5));
    assert_eq!(parse_config_bitrate("0.0004", "x").unwrap(), Milli::from_units(0));
    for bad in ["0", "0.000", "-1", "1e3", "inf", "nan", ".", "1.2.3", "1 2", "٣"] {
        assert!(parse_config_bitrate(bad, "x").is_err(), "{}", bad);
    }
}

#[test]
fn huge_inputs_saturate() {
    let mut config = sample_config("mp4");
    config.resolution = "custom".into();
    config.custom_width = Some("2147483647".into());
    config.custom_height = Some("2147483647".into());
    config.fps = "99999999999999999999999999".into();
    config.crf = 0;
    let mut metadata = sample_metadata();
    metadata.duration = Some("99999999999999999999999999".into());
    let estimate = estimate_output(config, Some(metadata)).unwrap();
    assert_eq!(estimate.video_kbps, u32::MAX);
    assert_eq!(estimate.total_kbps, u32::MAX);
    assert_eq!(estimate.size_mb, Some(Milli::from_thousandths(u64::MAX)));
}
