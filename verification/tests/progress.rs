use transcode_core::number::Milli;
use transcode_core::progress::{duration_marker, parse_time, position_marker, progress};

fn seconds(time: Option<Milli>) -> Option<f64> {
    time.map(|t| t.thousandths as f64 / 1000.0)
}

#[test]
fn test_time_parsing() {
    assert_eq!(seconds(parse_time("00:00:10.50")), Some(10.5));
    assert_eq!(seconds(parse_time("01:00:00.00")), Some(3600.0));
    assert_eq!(seconds(parse_time("00:01:05.10")), Some(65.1));

    assert_eq!(seconds(parse_time("invalid")), None);
    assert_eq!(seconds(parse_time("00:10")), None);
}

#[test]
fn time_must_have_the_exact_shape() {
    assert_eq!(parse_time("99:59:59.99"), Some(Milli::from_thousandths(359_999_990)));
    assert_eq!(parse_time("0:00:10.50"), None);
    assert_eq!(parse_time("00:00:10.5"), None);
    assert_eq!(parse_time("00:00:10,50"), None);
    assert_eq!(parse_time("00-00-10.50"), None);
    assert_eq!(parse_time(" 00:00:10.50"), None);
    assert_eq!(parse_time("00:00:1a.50"), None);
    assert_eq!(parse_time("00:00:10.500"), None);
    assert_eq!(parse_time(""), None);
    assert_eq!(parse_time("٠٠:٠٠:١٠.٥٠"), None);
}

#[test]
fn markers_are_found_in_encoder_output() {
    let line = "  Duration: 00:01:00.00, start: 0.000000, bitrate: 4128 kb/s";
    assert_eq!(duration_marker(line), Some("00:01:00.00".to_string()));
    assert_eq!(position_marker(line), None);

    let line = "frame=  240 fps= 60 q=28.0 size=    1024kB time=00:00:15.00 bitrate= 559.2kbits/s";
    assert_eq!(position_marker(line), Some("00:00:15.00".to_string()));
    assert_eq!(duration_marker(line), None);

    assert_eq!(duration_marker("Duration: N/A, bitrate: N/A"), None);
    assert_eq!(position_marker("time=1:2:3.4"), None);
    assert_eq!(
        position_marker("time=00:00:01.00 time=00:00:02.00"),
        Some("00:00:01.00".to_string())
    );
}

#[test]
fn progress_is_the_share_reached_held_at_100() {
    let d = Milli::from_units(60);
    assert_eq!(progress(Milli::from_units(15), d), Milli::from_units(25));
    assert_eq!(progress(Milli::from_units(0), d), Milli::from_units(0));
    assert_eq!(progress(Milli::from_units(60), d), Milli::from_units(100));
    assert_eq!(progress(Milli::from_units(90), d), Milli::from_units(100));
    assert_eq!(progress(Milli::from_thousandths(20_000), d), Milli::from_thousandths(33_333));
    assert_eq!(progress(Milli::from_units(5), Milli::from_units(0)), Milli::from_units(100));
    assert_eq!(progress(Milli::from_units(0), Milli::from_units(0)), Milli::from_units(100));
}
