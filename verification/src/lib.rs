//! The core of a batch media transcoder: which jobs run when, what the
//! encoder's output says about their progress, and what a conversion will
//! cost in bits before it is run. Every rule is stated as a contract and
//! proved.
//!
//! The library decides and computes; it starts no process and touches no
//! file. Its caller spawns the encoder, relays what it prints, delivers
//! signals, and tells the library what happened.
//!
//! - [`manager`]: the coordinator, a state machine over the queue, the
//!   running jobs and the concurrency limit, with the plans for pausing,
//!   resuming and cancelling a job.
//! - [`worker`] and [`progress`]: one job's worker, from the encoder's
//!   arguments to its terminal report, and the markers it reads.
//! - [`validation`]: what is checked of a job before it is admitted.
//! - [`args`] and [`output_path`]: the encoder's command line and the path
//!   it writes to.
//! - [`estimation`], [`dimensions`] and [`quality`]: the estimate of the
//!   output's bit rate and size.
//! - [`probe`] and [`ffprobe`]: what is known of a source file, and how a
//!   prober's report is read.
//! - [`config`] and [`error`]: the configuration of a conversion and the
//!   error type.
//! - [`number`], [`text`] and [`wide`]: numbers as text, fixed-point
//!   quantities, strings, and exact arithmetic on wide products.

pub mod args;
pub mod config;
pub mod dimensions;
pub mod error;
pub mod estimation;
pub mod ffprobe;
pub mod manager;
pub mod number;
pub mod output_path;
pub mod probe;
pub mod progress;
pub mod quality;
pub mod text;
pub mod validation;
pub mod wide;
pub mod worker;
