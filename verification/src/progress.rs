//! Reading the encoder's diagnostic output: the markers for the total
//! duration and for the current position, and the progress they give.

use vstd::prelude::*;
use crate::number::{is_digit, digit_of, digit, Milli};
use crate::text::chars_of;

verus! {

/// The marker for the total duration: `Duration: HH:MM:SS.ff`.
pub const DURATION_PATTERN: &'static str = r"Duration: (\d{2}:\d{2}:\d{2}\.\d{2})";

/// The marker for the current position: `time=HH:MM:SS.ff`.
pub const POSITION_PATTERN: &'static str = r"time=(\d{2}:\d{2}:\d{2}\.\d{2})";

/// What the first capture group holds in the leftmost match of the regular
/// expression `pattern` in `haystack`, as the `regex` crate finds it: `None`
/// where `pattern` is no valid expression, where nothing matches, and where
/// the group took no part in the match.
pub uninterp spec fn first_capture_of(pattern: Seq<char>, haystack: Seq<char>) -> Option<Seq<char>>;

/// `regex::Regex::new`, `Regex::captures` and `Captures::get(1)`: compiles
/// the pattern, searches the haystack for its leftmost match and hands out
/// the text of the first capture group. None of the three panics; an invalid
/// pattern, no match and an idle group all give `None`.
#[verifier::external_body]
fn first_capture(pattern: &str, haystack: &str) -> (found: Option<String>)
    ensures
        match found {
            Some(text) => first_capture_of(pattern@, haystack@) == Some(text@),
            None => first_capture_of(pattern@, haystack@) is None,
        },
{
    let expression = regex::Regex::new(pattern).ok()?;
    let captures = expression.captures(haystack)?;
    match captures.get(1) {
        Some(group) => Some(group.as_str().to_string()),
        None => None,
    }
}

/// The time text of the duration marker in `line`, if the line holds one.
pub fn duration_marker(line: &str) -> (found: Option<String>)
    ensures
        match found {
            Some(text) => first_capture_of(DURATION_PATTERN@, line@) == Some(text@),
            None => first_capture_of(DURATION_PATTERN@, line@) is None,
        },
{
    first_capture(DURATION_PATTERN, line)
}

/// The time text of the position marker in `line`, if the line holds one.
pub fn position_marker(line: &str) -> (found: Option<String>)
    ensures
        match found {
            Some(text) => first_capture_of(POSITION_PATTERN@, line@) == Some(text@),
            None => first_capture_of(POSITION_PATTERN@, line@) is None,
        },
{
    first_capture(POSITION_PATTERN, line)
}

// ---------------------------------------------------------------------------
// Times
// ---------------------------------------------------------------------------

/// Whether `s` has the shape `HH:MM:SS.ff`, every letter a digit.
pub open spec fn is_time_text(s: Seq<char>) -> bool {
    &&& s.len() == 11
    &&& is_digit(s[0]) && is_digit(s[1])
    &&& s[2] == ':'
    &&& is_digit(s[3]) && is_digit(s[4])
    &&& s[5] == ':'
    &&& is_digit(s[6]) && is_digit(s[7])
    &&& s[8] == '.'
    &&& is_digit(s[9]) && is_digit(s[10])
}

/// The number that the two digits at `i` and `i + 1` spell.
pub open spec fn two_digits(s: Seq<char>, i: int) -> nat {
    digit_of(s[i]) * 10 + digit_of(s[i + 1])
}

/// The time that `s` spells, in seconds: hours, minutes, seconds and
/// hundredths. `None` unless `s` has exactly the shape `HH:MM:SS.ff`.
pub open spec fn parse_time_text(s: Seq<char>) -> Option<Milli> {
    if is_time_text(s) {
        Some(
            Milli {
                thousandths: ((two_digits(s, 0) * 3600 + two_digits(s, 3) * 60 + two_digits(s, 6))
                    * 1000 + two_digits(s, 9) * 10) as u64,
            },
        )
    } else {
        None
    }
}

fn pair_at(v: &Vec<char>, i: usize) -> (r: Option<u64>)
    requires
        i + 1 < v.len(),
    ensures
        r == (if is_digit(v@[i as int]) && is_digit(v@[i + 1]) {
            Some(two_digits(v@, i as int) as u64)
        } else {
            None
        }),
{
    if digit(v[i]) && digit(v[i + 1]) {
        Some((v[i] as u32 - 48) as u64 * 10 + (v[i + 1] as u32 - 48) as u64)
    } else {
        None
    }
}

/// Reads a time of the shape `HH:MM:SS.ff`; any other text gives no value.
pub fn parse_time(time_str: &str) -> (time: Option<Milli>)
    ensures
        time == parse_time_text(time_str@),
{
    let v = chars_of(time_str);
    if v.len() != 11 || v[2] != ':' || v[5] != ':' || v[8] != '.' {
        return None;
    }
    match (pair_at(&v, 0), pair_at(&v, 3), pair_at(&v, 6), pair_at(&v, 9)) {
        (Some(hours), Some(minutes), Some(seconds), Some(hundredths)) => Some(
            Milli { thousandths: (hours * 3600 + minutes * 60 + seconds) * 1000 + hundredths * 10 },
        ),
        _ => None,
    }
}

/// The time of a marker, where there is a marker and its text is a time.
pub open spec fn marker_time(marker: Option<Seq<char>>) -> Option<Milli> {
    match marker {
        Some(text) => parse_time_text(text),
        None => None,
    }
}

// ---------------------------------------------------------------------------
// Progress
// ---------------------------------------------------------------------------

/// The share of `duration` that `position` has reached, as a percentage cut
/// to thousandths and held at 100. A duration of zero counts as reached.
pub open spec fn progress_of(position: Milli, duration: Milli) -> Milli {
    if duration.thousandths == 0 || position.thousandths >= duration.thousandths {
        Milli { thousandths: 100_000 }
    } else {
        Milli { thousandths: (position.thousandths * 100_000 / duration.thousandths as int) as u64 }
    }
}

/// Computes [`progress_of`].
pub fn progress(position: Milli, duration: Milli) -> (percent: Milli)
    ensures
        percent == progress_of(position, duration),
        percent.thousandths <= 100_000,
{
    if duration.thousandths == 0 || position.thousandths >= duration.thousandths {
        Milli { thousandths: 100_000 }
    } else {
        let p: u128 = position.thousandths as u128;
        let d: u128 = duration.thousandths as u128;
        let share: u128 = p * 100_000 / d;
        assert(share <= 100_000) by (nonlinear_arith)
            requires
                share == (p * 100_000) / (d as int),
                p < d,
                d > 0,
        ;
        Milli { thousandths: share as u64 }
    }
}

} // verus!
