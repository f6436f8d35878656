//! The one error type of the library.

use vstd::prelude::*;
use vstd::string::StringExecFns;

verus! {

/// Why an operation failed. Each variant carries the detail of the failure
/// as text.
#[derive(Debug)]
pub enum ConversionError {
    /// The external encoder or prober, or a signal to it, could not be invoked.
    Shell(String),
    /// A file operation failed.
    Io(String),
    /// Probe output could not be decoded.
    Json(String),
    /// A message could not be delivered to the coordinator.
    Channel(String),
    /// The prober ran and reported failure.
    Probe(String),
    /// The encoder process ended unsuccessfully.
    Worker(String),
    /// A request was rejected before any work was done.
    InvalidInput(String),
    /// No running job has the given id.
    TaskNotFound(String),
}

impl ConversionError {
    /// The detail carried by the error.
    pub open spec fn detail(&self) -> Seq<char> {
        match self {
            ConversionError::Shell(d) => d@,
            ConversionError::Io(d) => d@,
            ConversionError::Json(d) => d@,
            ConversionError::Channel(d) => d@,
            ConversionError::Probe(d) => d@,
            ConversionError::Worker(d) => d@,
            ConversionError::InvalidInput(d) => d@,
            ConversionError::TaskNotFound(d) => d@,
        }
    }

    /// The heading under which the error is reported.
    pub open spec fn heading(&self) -> Seq<char> {
        match self {
            ConversionError::Shell(_) => "Shell command failed: "@,
            ConversionError::Io(_) => "IO error: "@,
            ConversionError::Json(_) => "JSON parsing failed: "@,
            ConversionError::Channel(_) => "Internal channel error: "@,
            ConversionError::Probe(_) => "Probe failed: "@,
            ConversionError::Worker(_) => "Worker process error: "@,
            ConversionError::InvalidInput(_) => "Invalid input: "@,
            ConversionError::TaskNotFound(_) => "Task not found: "@,
        }
    }

    /// The text shown for the error: its heading, then its detail.
    pub fn message(&self) -> (text: String)
        ensures
            text@ == self.heading() + self.detail(),
    {
        match self {
            ConversionError::Shell(d) => join("Shell command failed: ", d.as_str()),
            ConversionError::Io(d) => join("IO error: ", d.as_str()),
            ConversionError::Json(d) => join("JSON parsing failed: ", d.as_str()),
            ConversionError::Channel(d) => join("Internal channel error: ", d.as_str()),
            ConversionError::Probe(d) => join("Probe failed: ", d.as_str()),
            ConversionError::Worker(d) => join("Worker process error: ", d.as_str()),
            ConversionError::InvalidInput(d) => join("Invalid input: ", d.as_str()),
            ConversionError::TaskNotFound(d) => join("Task not found: ", d.as_str()),
        }
    }
}

/// Whether `outcome` is what `expected` asks for: the same value, or an
/// invalid-input error with the same detail.
pub open spec fn agrees<T>(outcome: Result<T, ConversionError>, expected: Result<T, Seq<char>>) -> bool {
    match (outcome, expected) {
        (Ok(value), Ok(wanted)) => value == wanted,
        (Err(ConversionError::InvalidInput(detail)), Err(wanted)) => detail@ == wanted,
        _ => false,
    }
}

/// The invalid-input error with the given detail.
pub fn invalid_input<T>(detail: String) -> (outcome: Result<T, ConversionError>)
    ensures
        outcome matches Err(ConversionError::InvalidInput(d)) && d@ == detail@,
{
    Err(ConversionError::InvalidInput(detail))
}

/// The text `a` followed by the text `b`.
pub fn join(a: &str, b: &str) -> (s: String)
    ensures
        s@ == a@ + b@,
{
    let mut s = String::from_str(a);
    s.append(b);
    s
}

/// The texts `a`, `b` and `c` in a row.
pub fn join3(a: &str, b: &str, c: &str) -> (s: String)
    ensures
        s@ == a@ + b@ + c@,
{
    let mut s = String::from_str(a);
    s.append(b);
    s.append(c);
    s
}

/// The texts `a`, `b`, `c` and `d` in a row.
pub fn join4(a: &str, b: &str, c: &str, d: &str) -> (s: String)
    ensures
        s@ == a@ + b@ + c@ + d@,
{
    let mut s = String::from_str(a);
    s.append(b);
    s.append(c);
    s.append(d);
    s
}

} // verus!
