use transcode_core::config::{ConversionConfig, MetadataConfig};
use transcode_core::dimensions::{
    custom_dimensions, derive_dimension_from_aspect, determine_target_dimensions,
    metadata_dimensions, nominal_width_for_height, parse_custom_dimension, parse_resolution,
    resolution_from_height, scale_dimension, VideoDimensions,
};
use transcode_core::error::ConversionError;
use transcode_core::number::Milli;
use transcode_core::probe::ProbeMetadata;

fn sample_config() -> ConversionConfig {
    ConversionConfig {
        container: "mp4".into(),
        video_codec: "libx264".into(),
        video_bitrate_mode: "crf".into(),
        video_bitrate: "5000".into(),
        audio_codec: "aac".into(),
        audio_bitrate: "128".into(),
        audio_channels: "original".into(),
        audio_volume: Milli::from_units(100),
        audio_normalize: false,
        selected_audio_tracks: vec![],
        resolution: "original".into(),
        custom_width: None,
        custom_height: None,
        scaling_algorithm: "bicubic".into(),
        fps: "original".into(),
        crf: 23,
        quality: 50,
        preset: "medium".into(),
        start_time: None,
        end_time: None,
        metadata: MetadataConfig::default(),
    }
}

fn size(width: u32, height: u32) -> VideoDimensions {
    VideoDimensions { width, height }
}

fn detail<T: std::fmt::Debug>(outcome: Result<T, ConversionError>) -> String {
    match outcome {
        Err(ConversionError::InvalidInput(detail)) => detail,
        other => panic!("unexpected {:?}", other),
    }
}

#[test]
fn resolutions_are_width_x_height() {
    let read = |s: &str| parse_resolution(Some(&s.to_string()));
    assert_eq!(read("1920x1080"), Some((1920, 1080)));
    assert_eq!(read("+4x0"), Some((4, 0)));
    assert_eq!(read("4294967295x1"), Some((4294967295, 1)));
    assert_eq!(read("4294967296x1"), None);
    assert_eq!(read("1920X1080"), None);
    assert_eq!(read("1920x1080x3"), None);
    assert_eq!(read("1920"), None);
    assert_eq!(read("x1080"), None);
    assert_eq!(read("1920x"), None);
    assert_eq!(read(" 1920x1080"), None);
    assert_eq!(read("-1x5"), None);
    assert_eq!(read(""), None);
    assert_eq!(parse_resolution(None), None);
}

#[test]
fn nominal_widths_are_sixteen_to_nine() {
    assert_eq!(nominal_width_for_height(2160), 3840);
    assert_eq!(nominal_width_for_height(1440), 2560);
    assert_eq!(nominal_width_for_height(1080), 1920);
    assert_eq!(nominal_width_for_height(720), 1280);
    assert_eq!(nominal_width_for_height(576), 1024);
    assert_eq!(nominal_width_for_height(480), 854);
    assert_eq!(nominal_width_for_height(360), 640);
    assert_eq!(nominal_width_for_height(1000), 1778);
    assert_eq!(nominal_width_for_height(1), 2);
    assert_eq!(nominal_width_for_height(0), 0);
    assert_eq!(nominal_width_for_height(u32::MAX), u32::MAX);
    for height in [7u32, 100, 241, 999, 4321, 100_000, 2_000_000_000] {
        let expected = (height as f64 * (16.0 / 9.0)).round() as u32;
        assert_eq!(nominal_width_for_height(height), expected, "height {}", height);
    }
}

#[test]
fn scaling_rounds_and_stays_in_range() {
    assert_eq!(scale_dimension(720, 1920, 1080), 1280);
    assert_eq!(scale_dimension(720, 4, 3), 960);
    assert_eq!(scale_dimension(1, 1, 2), 1);
    assert_eq!(scale_dimension(3, 1, 2), 2);
    assert_eq!(scale_dimension(1, 1, 3), 1);
    assert_eq!(scale_dimension(1, 1, 1000), 1);
    assert_eq!(scale_dimension(0, 5, 7), 1);
    assert_eq!(scale_dimension(5, 0, 7), 1);
    assert_eq!(scale_dimension(5, 7, 0), u32::MAX);
    assert_eq!(scale_dimension(5, 0, 0), 1);
    assert_eq!(scale_dimension(0, 7, 0), 1);
    assert_eq!(scale_dimension(u32::MAX, u32::MAX, 1), u32::MAX);
}

#[test]
fn preset_heights_keep_the_source_aspect() {
    assert_eq!(resolution_from_height(720, Some(size(1920, 1080))), size(1280, 720));
    assert_eq!(resolution_from_height(1080, Some(size(640, 480))), size(1440, 1080));
    assert_eq!(resolution_from_height(480, None), size(854, 480));
    assert_eq!(resolution_from_height(0, Some(size(640, 480))), size(1280, 1));
    assert_eq!(resolution_from_height(0, None), size(1280, 1));
    assert_eq!(resolution_from_height(720, Some(size(0, 0))), size(1, 720));
    assert_eq!(resolution_from_height(720, Some(size(5, 0))), size(u32::MAX, 720));
}

#[test]
fn one_side_is_derived_from_the_aspect() {
    assert_eq!(derive_dimension_from_aspect(1280, size(16, 9), true), size(1280, 720));
    assert_eq!(derive_dimension_from_aspect(720, size(16, 9), false), size(1280, 720));
    assert_eq!(derive_dimension_from_aspect(100, size(4, 3), true), size(100, 75));
    assert_eq!(derive_dimension_from_aspect(100, size(4, 3), false), size(133, 100));
    assert_eq!(derive_dimension_from_aspect(1, size(1000, 1), true), size(1, 1));
}

#[test]
fn custom_dimensions_are_positive_or_derived() {
    assert_eq!(parse_custom_dimension(None, "customWidth").unwrap(), None);
    assert_eq!(parse_custom_dimension(Some(""), "customWidth").unwrap(), None);
    assert_eq!(parse_custom_dimension(Some("  "), "customWidth").unwrap(), None);
    assert_eq!(parse_custom_dimension(Some("-1"), "customWidth").unwrap(), None);
    assert_eq!(parse_custom_dimension(Some(" -1 "), "customWidth").unwrap(), None);
    assert_eq!(parse_custom_dimension(Some(" 640 "), "customWidth").unwrap(), Some(640));
    assert_eq!(parse_custom_dimension(Some("+8"), "customWidth").unwrap(), Some(8));
    assert_eq!(
        parse_custom_dimension(Some("2147483647"), "customWidth").unwrap(),
        Some(2147483647)
    );
    assert_eq!(
        detail(parse_custom_dimension(Some(" 6x "), "customWidth")),
        "Invalid customWidth value:  6x "
    );
    assert_eq!(
        detail(parse_custom_dimension(Some("2147483648"), "customHeight")),
        "Invalid customHeight value: 2147483648"
    );
    assert_eq!(
        detail(parse_custom_dimension(Some("0"), "customHeight")),
        "customHeight must be positive or -1, got 0"
    );
    assert_eq!(
        detail(parse_custom_dimension(Some(" -2"), "customHeight")),
        "customHeight must be positive or -1, got  -2"
    );
}

#[test]
fn custom_sizes_fill_in_what_is_missing() {
    let mut config = sample_config();
    config.resolution = "custom".into();
    let source = Some(size(1920, 800));
    config.custom_width = Some("640".into());
    config.custom_height = Some("480".into());
    assert_eq!(custom_dimensions(&config, source).unwrap(), size(640, 480));
    config.custom_height = None;
    assert_eq!(custom_dimensions(&config, source).unwrap(), size(640, 267));
    assert_eq!(custom_dimensions(&config, None).unwrap(), size(640, 360));
    config.custom_width = Some("-1".into());
    config.custom_height = Some("400".into());
    assert_eq!(custom_dimensions(&config, source).unwrap(), size(960, 400));
    assert_eq!(custom_dimensions(&config, None).unwrap(), size(711, 400));
    config.custom_height = None;
    assert_eq!(custom_dimensions(&config, source).unwrap(), size(1920, 800));
    assert_eq!(custom_dimensions(&config, None).unwrap(), size(1280, 720));
    config.custom_width = Some("a".into());
    config.custom_height = Some("b".into());
    assert_eq!(detail(custom_dimensions(&config, None)), "Invalid customWidth value: a");
}

#[test]
fn the_source_size_comes_from_numbers_or_text() {
    let mut metadata = ProbeMetadata::default();
    assert_eq!(metadata_dimensions(Some(&metadata)), None);
    assert_eq!(metadata_dimensions(None), None);
    metadata.resolution = Some("640x360".into());
    assert_eq!(metadata_dimensions(Some(&metadata)), Some(size(640, 360)));
    metadata.width = Some(1920);
    assert_eq!(metadata_dimensions(Some(&metadata)), Some(size(640, 360)));
    metadata.height = Some(0);
    assert_eq!(metadata_dimensions(Some(&metadata)), Some(size(640, 360)));
    metadata.height = Some(1080);
    assert_eq!(metadata_dimensions(Some(&metadata)), Some(size(1920, 1080)));
}

#[test]
fn target_sizes_follow_the_resolution_setting() {
    let mut config = sample_config();
    let mut metadata = ProbeMetadata::default();
    metadata.width = Some(3840);
    metadata.height = Some(1600);
    let target = |config: &ConversionConfig, metadata: Option<&ProbeMetadata>| {
        determine_target_dimensions(config, metadata).unwrap()
    };
    assert_eq!(target(&config, Some(&metadata)), size(3840, 1600));
    assert_eq!(target(&config, None), size(1280, 720));
    config.resolution = "1080p".into();
    assert_eq!(target(&config, Some(&metadata)), size(2592, 1080));
    assert_eq!(target(&config, None), size(1920, 1080));
    config.resolution = "720p".into();
    assert_eq!(target(&config, Some(&metadata)), size(1728, 720));
    config.resolution = "480p".into();
    assert_eq!(target(&config, Some(&metadata)), size(1152, 480));
    assert_eq!(target(&config, None), size(854, 480));
    config.resolution = "8k".into();
    assert_eq!(target(&config, Some(&metadata)), size(3840, 1600));
    config.resolution = "custom".into();
    config.custom_height = Some("800".into());
    assert_eq!(target(&config, Some(&metadata)), size(1920, 800));
}
