use transcode_core::config::{ConversionConfig, MetadataConfig};
use transcode_core::error::ConversionError;
use transcode_core::manager::ManagerMessage;
use transcode_core::number::Milli;
use transcode_core::validation::{queue_conversion, validate_task_input, SourceStatus};

fn sample_config() -> ConversionConfig {
    ConversionConfig {
        container: "mp4".into(),
        video_codec: "libx264".into(),
        video_bitrate_mode: "crf".into(),
        video_bitrate: "5000".into(),
        audio_codec: "aac".into(),
        audio_bitrate: "128".into(),
        audio_channels: "original".into(),
        audio_volume: Milli::from_units(100),
        audio_normalize: false,
        selected_audio_tracks: vec![],
        resolution: "original".into(),
        custom_width: None,
        custom_height: None,
        scaling_algorithm: "bicubic".into(),
        fps: "original".into(),
        crf: 23,
        quality: 50,
        preset: "medium".into(),
        start_time: None,
        end_time: None,
        metadata: MetadataConfig::default(),
    }
}

fn reason(outcome: Result<(), ConversionError>) -> String {
    match outcome {
        Err(ConversionError::InvalidInput(detail)) => detail,
        other => panic!("unexpected {:?}", other),
    }
}

#[test]
fn the_source_must_be_a_regular_file() {
    let config = sample_config();
    assert_eq!(
        reason(validate_task_input(SourceStatus::Missing, "/x/a.mov", &config)),
        "Input file does not exist: /x/a.mov"
    );
    assert_eq!(
        reason(validate_task_input(SourceStatus::NotAFile, "/x", &config)),
        "Input path is not a file: /x"
    );
    assert!(validate_task_input(SourceStatus::RegularFile, "/x/a.mov", &config).is_ok());
}

#[test]
fn custom_sides_must_be_positive_or_auto() {
    let mut config = sample_config();
    config.resolution = "custom".into();
    let check = |config: &ConversionConfig| validate_task_input(SourceStatus::RegularFile, "f", config);
    assert!(check(&config).is_ok());
    config.custom_width = Some("1280".into());
    config.custom_height = Some("-1".into());
    assert!(check(&config).is_ok());
    config.custom_width = Some("+16".into());
    assert!(check(&config).is_ok());
    config.custom_width = Some("wide".into());
    assert_eq!(reason(check(&config)), "Invalid custom width: wide");
    config.custom_width = Some(" 12".into());
    assert_eq!(reason(check(&config)), "Invalid custom width:  12");
    config.custom_width = Some("99999999999".into());
    assert_eq!(reason(check(&config)), "Invalid custom width: 99999999999");
    config.custom_width = Some("12".into());
    config.custom_height = Some("".into());
    assert_eq!(reason(check(&config)), "Invalid custom height: ");
    config.custom_height = Some("0".into());
    assert_eq!(reason(check(&config)), "Resolution dimensions cannot be zero");
    config.custom_height = Some("-0".into());
    assert_eq!(reason(check(&config)), "Resolution dimensions cannot be zero");
    config.custom_height = Some("-2".into());
    assert_eq!(
        reason(check(&config)),
        "Resolution dimensions cannot be negative (except -1 for auto)"
    );
    config.custom_height = Some("-2147483648".into());
    assert_eq!(
        reason(check(&config)),
        "Resolution dimensions cannot be negative (except -1 for auto)"
    );
    // the sides are looked at for a custom resolution only
    config.resolution = "720p".into();
    assert!(check(&config).is_ok());
}

#[test]
fn an_explicit_bitrate_must_be_positive() {
    let mut config = sample_config();
    config.video_bitrate_mode = "bitrate".into();
    let check = |config: &ConversionConfig| validate_task_input(SourceStatus::RegularFile, "f", config);
    assert!(check(&config).is_ok());
    config.video_bitrate = "2500.5".into();
    assert!(check(&config).is_ok());
    config.video_bitrate = "0".into();
    assert_eq!(reason(check(&config)), "Video bitrate must be positive");
    config.video_bitrate = "-3".into();
    assert_eq!(reason(check(&config)), "Video bitrate must be positive");
    config.video_bitrate = "fast".into();
    assert_eq!(reason(check(&config)), "Invalid video bitrate: fast");
    config.video_bitrate = " 5".into();
    assert_eq!(reason(check(&config)), "Invalid video bitrate:  5");
    // an audio-only container needs no video bit rate
    config.container = "FLAC".into();
    assert!(check(&config).is_ok());
    config.container = "mp4".into();
    config.video_bitrate_mode = "crf".into();
    assert!(check(&config).is_ok());
}

#[test]
fn the_first_fault_is_the_one_reported() {
    let mut config = sample_config();
    config.resolution = "custom".into();
    config.custom_width = Some("0".into());
    config.video_bitrate_mode = "bitrate".into();
    config.video_bitrate = "x".into();
    assert_eq!(
        reason(validate_task_input(SourceStatus::Missing, "p", &config)),
        "Input file does not exist: p"
    );
    assert_eq!(
        reason(validate_task_input(SourceStatus::RegularFile, "p", &config)),
        "Resolution dimensions cannot be zero"
    );
}

#[test]
fn a_valid_job_becomes_an_enqueue_message() {
    let outcome = queue_conversion(
        SourceStatus::RegularFile,
        "job-1".into(),
        "/a/b.mov".into(),
        Some("name".into()),
        sample_config(),
    );
    match outcome {
        Ok(ManagerMessage::Enqueue(task)) => {
            assert_eq!(task.id, "job-1");
            assert_eq!(task.file_path, "/a/b.mov");
            assert_eq!(task.output_name, Some("name".to_string()));
            assert_eq!(task.config.container, "mp4");
        }
        other => panic!("unexpected {:?}", other),
    }
}

#[test]
fn an_invalid_job_never_reaches_the_queue() {
    let outcome = queue_conversion(
        SourceStatus::Missing,
        "job-1".into(),
        "/a/b.mov".into(),
        None,
        sample_config(),
    );
    match outcome {
        Err(ConversionError::InvalidInput(detail)) => {
            assert_eq!(detail, "Input file does not exist: /a/b.mov")
        }
        other => panic!("unexpected {:?}", other),
    }
}
