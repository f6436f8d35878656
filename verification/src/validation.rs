//! Admission: what is checked of a job before it may join the queue.
//!
//! A job that fails a check is turned away at once, with the reason; it
//! never reaches the queue and never takes a slot.

use vstd::prelude::*;
use vstd::string::StringExecFns;
use crate::args::{dimension_string, dimension_text};
use crate::config::{is_audio_only_container, is_audio_only_name, ConfigView, ConversionConfig};
use crate::error::{invalid_input, join, ConversionError};
use crate::manager::ManagerMessage;
use crate::number::{parse_decimal, parse_decimal_text, parse_i32, parse_i32_text};
use crate::text::{chars_of, lowercase_of, same_text};
use crate::worker::ConversionTask;

verus! {

/// What the caller found at the source path.
#[derive(Clone, Copy, Debug, PartialEq, Eq, Structural)]
pub enum SourceStatus {
    /// Nothing is there.
    Missing,
    /// Something is there that is not a regular file.
    NotAFile,
    /// A regular file is there.
    RegularFile,
}

/// What is wrong with the source, if anything.
pub open spec fn source_error(source: SourceStatus, file_path: Seq<char>) -> Option<Seq<char>> {
    match source {
        SourceStatus::Missing => Some("Input file does not exist: "@ + file_path),
        SourceStatus::NotAFile => Some("Input path is not a file: "@ + file_path),
        SourceStatus::RegularFile => None,
    }
}

/// What is wrong with the custom size, if anything. Each side must be a
/// whole number: above zero, or -1 to have it derived, which an absent side
/// stands for too. The width is read first.
pub open spec fn custom_size_error(config: ConfigView) -> Option<Seq<char>> {
    if config.resolution == "custom"@ {
        match parse_i32_text(dimension_text(config.custom_width)) {
            None => Some("Invalid custom width: "@ + dimension_text(config.custom_width)),
            Some(w) => match parse_i32_text(dimension_text(config.custom_height)) {
                None => Some("Invalid custom height: "@ + dimension_text(config.custom_height)),
                Some(h) => if w == 0 || h == 0 {
                    Some("Resolution dimensions cannot be zero"@)
                } else if w < -1 || h < -1 {
                    Some("Resolution dimensions cannot be negative (except -1 for auto)"@)
                } else {
                    None
                },
            },
        }
    } else {
        None
    }
}

/// What is wrong with the video bit rate, if anything. It is looked at only
/// in bit rate mode and for a container that holds video, and must then be a
/// number above zero.
pub open spec fn video_bitrate_error(config: ConfigView) -> Option<Seq<char>> {
    if config.video_bitrate_mode == "bitrate"@ && !is_audio_only_name(
        lowercase_of(config.container),
    ) {
        match parse_decimal_text(config.video_bitrate) {
            None => Some("Invalid video bitrate: "@ + config.video_bitrate),
            Some(rate) => if rate.is_positive() {
                None
            } else {
                Some("Video bitrate must be positive"@)
            },
        }
    } else {
        None
    }
}

/// Why the job is turned away, if it is: the first of what is wrong with the
/// source, with the custom size and with the video bit rate.
pub open spec fn validation_error(source: SourceStatus, file_path: Seq<char>, config: ConfigView) -> Option<
    Seq<char>,
> {
    if source_error(source, file_path) is Some {
        source_error(source, file_path)
    } else if custom_size_error(config) is Some {
        custom_size_error(config)
    } else {
        video_bitrate_error(config)
    }
}

/// Whether `outcome` turns a job away for the reason `error`, or admits it
/// where there is none.
pub open spec fn decides<T>(outcome: Result<T, ConversionError>, error: Option<Seq<char>>) -> bool {
    match error {
        Some(reason) => outcome matches Err(ConversionError::InvalidInput(detail)) && detail@
            == reason,
        None => outcome is Ok,
    }
}

fn check_custom_size(config: &ConversionConfig) -> (outcome: Result<(), ConversionError>)
    ensures
        decides(outcome, custom_size_error(config@)),
{
    if !same_text(config.resolution.as_str(), "custom") {
        return Ok(());
    }
    let width_text = dimension_string(&config.custom_width);
    let height_text = dimension_string(&config.custom_height);
    let w = match parse_i32(&chars_of(width_text.as_str())) {
        Some(w) => w,
        None => {
            return invalid_input(join("Invalid custom width: ", width_text.as_str()));
        },
    };
    let h = match parse_i32(&chars_of(height_text.as_str())) {
        Some(h) => h,
        None => {
            return invalid_input(join("Invalid custom height: ", height_text.as_str()));
        },
    };
    if w == 0 || h == 0 {
        return invalid_input(String::from_str("Resolution dimensions cannot be zero"));
    }
    if w < -1 || h < -1 {
        return invalid_input(
            String::from_str("Resolution dimensions cannot be negative (except -1 for auto)"),
        );
    }
    Ok(())
}

fn check_video_bitrate(config: &ConversionConfig) -> (outcome: Result<(), ConversionError>)
    ensures
        decides(outcome, video_bitrate_error(config@)),
{
    if same_text(config.video_bitrate_mode.as_str(), "bitrate") && !is_audio_only_container(
        config.container.as_str(),
    ) {
        match parse_decimal(&chars_of(config.video_bitrate.as_str())) {
            None => invalid_input(join("Invalid video bitrate: ", config.video_bitrate.as_str())),
            Some(rate) => {
                if rate.positive() {
                    Ok(())
                } else {
                    invalid_input(String::from_str("Video bitrate must be positive"))
                }
            },
        }
    } else {
        Ok(())
    }
}

/// Checks a job before it is admitted.
pub fn validate_task_input(source: SourceStatus, file_path: &str, config: &ConversionConfig) -> (outcome:
    Result<(), ConversionError>)
    ensures
        decides(outcome, validation_error(source, file_path@, config@)),
{
    match source {
        SourceStatus::Missing => {
            return invalid_input(join("Input file does not exist: ", file_path));
        },
        SourceStatus::NotAFile => {
            return invalid_input(join("Input path is not a file: ", file_path));
        },
        SourceStatus::RegularFile => {},
    }
    match check_custom_size(config) {
        Ok(_) => {},
        Err(e) => {
            return Err(e);
        },
    }
    check_video_bitrate(config)
}

/// Admits a job: checks it and, where nothing is wrong, hands back the
/// message that enqueues it, to be sent to the coordinator.
pub fn queue_conversion(
    source: SourceStatus,
    id: String,
    file_path: String,
    output_name: Option<String>,
    config: ConversionConfig,
) -> (outcome: Result<ManagerMessage, ConversionError>)
    ensures
        decides(outcome, validation_error(source, file_path@, config@)),
        outcome matches Ok(message) ==> message == ManagerMessage::Enqueue(
            ConversionTask { id, file_path, output_name, config },
        ),
{
    match validate_task_input(source, file_path.as_str(), &config) {
        Ok(_) => Ok(ManagerMessage::Enqueue(ConversionTask { id, file_path, output_name, config })),
        Err(e) => Err(e),
    }
}

} // verus!
