//! The worker of one job, as a state machine.
//!
//! The caller spawns the encoder and feeds the worker what the process
//! emits; the worker answers each event with the reports to publish, and,
//! once the stream of events has ended, with the job's one terminal report.

use vstd::prelude::*;
use vstd::string::StringExecFns;
use crate::args::{build_ffmpeg_args, ffmpeg_args, texts};
use crate::config::ConversionConfig;
use crate::error::ConversionError;
use crate::number::{push_signed_decimal, signed_decimal_text, Milli};
use crate::output_path::{build_output_path, output_path};
use crate::text::text_of;
use crate::progress::{
    duration_marker,
    first_capture_of,
    marker_time,
    parse_time,
    position_marker,
    progress,
    progress_of,
    DURATION_PATTERN,
    POSITION_PATTERN,
};

verus! {

/// One conversion to run.
#[derive(Clone, Debug)]
pub struct ConversionTask {
    pub id: String,
    pub file_path: String,
    pub output_name: Option<String>,
    pub config: ConversionConfig,
}

/// What the encoder process emitted.
#[derive(Debug)]
pub enum WorkerEvent {
    /// One line of diagnostic output.
    Stderr(String),
    /// The process ended, with its exit code where it has one.
    Terminated(Option<i32>),
    /// Anything else; it changes nothing.
    Other,
}

/// What a worker publishes about its job.
#[derive(Debug)]
pub enum WorkerReport {
    /// A line of the encoder's output, relayed as it came.
    Log { id: String, line: String },
    /// The share of the job that is done, as a percentage.
    Progress { id: String, progress: Milli },
    /// The job succeeded and wrote `output_path`.
    Completed { id: String, output_path: String },
    /// The job failed.
    Failed { id: String, error: String },
}

/// An event as the contracts see it.
pub enum EventView {
    Stderr(Seq<char>),
    Terminated(Option<i32>),
    Other,
}

/// A report as the contracts see it.
pub enum ReportView {
    Log { id: Seq<char>, line: Seq<char> },
    Progress { id: Seq<char>, progress: Milli },
    Completed { id: Seq<char>, output_path: Seq<char> },
    Failed { id: Seq<char>, error: Seq<char> },
}

impl View for WorkerEvent {
    type V = EventView;

    open spec fn view(&self) -> EventView {
        match self {
            WorkerEvent::Stderr(line) => EventView::Stderr(line@),
            WorkerEvent::Terminated(code) => EventView::Terminated(*code),
            WorkerEvent::Other => EventView::Other,
        }
    }
}

impl View for WorkerReport {
    type V = ReportView;

    open spec fn view(&self) -> ReportView {
        match self {
            WorkerReport::Log { id, line } => ReportView::Log { id: id@, line: line@ },
            WorkerReport::Progress { id, progress } => ReportView::Progress {
                id: id@,
                progress: *progress,
            },
            WorkerReport::Completed { id, output_path } => ReportView::Completed {
                id: id@,
                output_path: output_path@,
            },
            WorkerReport::Failed { id, error } => ReportView::Failed { id: id@, error: error@ },
        }
    }
}

impl ReportView {
    /// Whether the report ends its job: a completion or a failure.
    pub open spec fn is_terminal(self) -> bool {
        self is Completed || self is Failed
    }

    /// The job that the report is about.
    pub open spec fn job(self) -> Seq<char> {
        match self {
            ReportView::Log { id, .. } => id,
            ReportView::Progress { id, .. } => id,
            ReportView::Completed { id, .. } => id,
            ReportView::Failed { id, .. } => id,
        }
    }
}

/// The views of a list of reports.
pub open spec fn report_views(reports: Seq<WorkerReport>) -> Seq<ReportView> {
    Seq::new(reports.len(), |i: int| reports[i]@)
}

/// A worker as the contracts see it.
pub struct WorkerView {
    pub id: Seq<char>,
    pub output_path: Seq<char>,
    /// The total duration, once a duration marker has been read.
    pub total_duration: Option<Milli>,
    /// The exit code of the last termination seen.
    pub exit_code: Option<i32>,
}

/// The state of one job's worker.
#[derive(Debug)]
pub struct Worker {
    id: String,
    output_path: String,
    total_duration: Option<Milli>,
    exit_code: Option<i32>,
}

impl View for Worker {
    type V = WorkerView;

    closed spec fn view(&self) -> WorkerView {
        WorkerView {
            id: self.id@,
            output_path: self.output_path@,
            total_duration: self.total_duration,
            exit_code: self.exit_code,
        }
    }
}

// ---------------------------------------------------------------------------
// What a worker does, stated over the views
// ---------------------------------------------------------------------------

/// The total duration after a line with the given duration marker: the first
/// marker that gives a time is kept for good.
pub open spec fn duration_after(known: Option<Milli>, marker: Option<Seq<char>>) -> Option<Milli> {
    if known is Some {
        known
    } else {
        marker_time(marker)
    }
}

/// The reports for one line of output: the line itself, and the progress
/// where the duration is known and the line's position marker gives a time.
pub open spec fn line_reports(
    id: Seq<char>,
    line: Seq<char>,
    duration: Option<Milli>,
    position: Option<Seq<char>>,
) -> Seq<ReportView> {
    let log = seq![ReportView::Log { id, line }];
    match (duration, marker_time(position)) {
        (Some(d), Some(p)) => log.push(ReportView::Progress { id, progress: progress_of(p, d) }),
        _ => log,
    }
}

/// The worker after an event.
pub open spec fn state_after(w: WorkerView, event: EventView) -> WorkerView {
    match event {
        EventView::Stderr(line) => WorkerView {
            total_duration: duration_after(
                w.total_duration,
                first_capture_of(DURATION_PATTERN@, line),
            ),
            ..w
        },
        EventView::Terminated(code) => WorkerView { exit_code: code, ..w },
        EventView::Other => w,
    }
}

/// The reports that answer an event.
pub open spec fn reports_for(w: WorkerView, event: EventView) -> Seq<ReportView> {
    match event {
        EventView::Stderr(line) => line_reports(
            w.id,
            line,
            state_after(w, event).total_duration,
            first_capture_of(POSITION_PATTERN@, line),
        ),
        _ => seq![],
    }
}

/// An exit code as the failure report shows it.
pub open spec fn exit_code_text(code: Option<i32>) -> Seq<char> {
    match code {
        Some(c) => "Some("@ + signed_decimal_text(c as int) + ")"@,
        None => "None"@,
    }
}

/// The text of the failure report for an exit code.
pub open spec fn failure_text(code: Option<i32>) -> Seq<char> {
    "Process terminated with code "@ + exit_code_text(code)
}

/// Whether the job succeeded: its process ended with exit code 0.
pub open spec fn succeeded(w: WorkerView) -> bool {
    w.exit_code == Some(0i32)
}

/// The terminal report of a worker whose stream of events has ended.
pub open spec fn terminal_report(w: WorkerView) -> ReportView {
    if succeeded(w) {
        ReportView::Completed { id: w.id, output_path: w.output_path }
    } else {
        ReportView::Failed { id: w.id, error: failure_text(w.exit_code) }
    }
}

/// Everything a worker publishes over its life: the reports for each event
/// in turn, then the terminal report.
pub open spec fn life_reports(w: WorkerView, events: Seq<EventView>) -> Seq<ReportView>
    decreases events.len(),
{
    if events.len() == 0 {
        seq![terminal_report(w)]
    } else {
        reports_for(w, events[0]) + life_reports(state_after(w, events[0]), events.drop_first())
    }
}

/// A job has exactly one terminal report, whatever its process emits: the
/// last report of its worker's life is a completion or a failure, no report
/// before it is, and every report is about the worker's own job.
pub proof fn lemma_one_terminal_report(w: WorkerView, events: Seq<EventView>)
    ensures
        life_reports(w, events).len() >= 1,
        life_reports(w, events).last().is_terminal(),
        forall|i: int|
            0 <= i < life_reports(w, events).len() - 1 ==> !(#[trigger] life_reports(
                w,
                events,
            )[i]).is_terminal(),
        forall|i: int|
            0 <= i < life_reports(w, events).len() ==> (#[trigger] life_reports(w, events)[i]).job()
                == w.id,
    decreases events.len(),
{
    if events.len() > 0 {
        lemma_one_terminal_report(state_after(w, events[0]), events.drop_first());
    }
}

// ---------------------------------------------------------------------------
// The worker
// ---------------------------------------------------------------------------

impl Worker {
    /// The worker for `task`, and the arguments to spawn the encoder with:
    /// the output path is fixed now, nothing has been read yet.
    pub fn start(task: &ConversionTask) -> (started: (Worker, Vec<String>))
        ensures
            started.0@ == (WorkerView {
                id: task.id@,
                output_path: output_path(
                    task.file_path@,
                    task.config.container@,
                    text_of(task.output_name),
                ),
                total_duration: None,
                exit_code: None,
            }),
            texts(started.1@) == ffmpeg_args(task.file_path@, started.0@.output_path, task.config@),
    {
        let path = build_output_path(
            task.file_path.as_str(),
            task.config.container.as_str(),
            task.output_name.clone(),
        );
        let args = build_ffmpeg_args(task.file_path.as_str(), path.as_str(), &task.config);
        let worker = Worker {
            id: task.id.clone(),
            output_path: path,
            total_duration: None,
            exit_code: None,
        };
        (worker, args)
    }

    /// The job's id.
    pub fn id(&self) -> (id: &str)
        ensures
            id@ == self@.id,
    {
        self.id.as_str()
    }

    /// The path that the job writes to.
    pub fn output_path(&self) -> (path: &str)
        ensures
            path@ == self@.output_path,
    {
        self.output_path.as_str()
    }

    /// The total duration, once known.
    pub fn total_duration(&self) -> (duration: Option<Milli>)
        ensures
            duration == self@.total_duration,
    {
        self.total_duration
    }

    /// Takes note of one line of output, given the markers found in it.
    pub fn note_line(
        &mut self,
        line: String,
        duration_text: Option<String>,
        position_text: Option<String>,
    ) -> (reports: Vec<WorkerReport>)
        ensures
            final(self)@ == (WorkerView {
                total_duration: duration_after(
                    old(self)@.total_duration,
                    text_of(duration_text),
                ),
                ..old(self)@
            }),
            report_views(reports@) == line_reports(
                old(self)@.id,
                line@,
                final(self)@.total_duration,
                text_of(position_text),
            ),
    {
        let mut reports: Vec<WorkerReport> = Vec::new();
        reports.push(WorkerReport::Log { id: self.id.clone(), line });
        if self.total_duration.is_none() {
            if let Some(text) = duration_text {
                self.total_duration = parse_time(text.as_str());
            }
        }
        if let Some(duration) = self.total_duration {
            if let Some(text) = position_text {
                if let Some(position) = parse_time(text.as_str()) {
                    reports.push(
                        WorkerReport::Progress {
                            id: self.id.clone(),
                            progress: progress(position, duration),
                        },
                    );
                }
            }
        }
        reports
    }

    /// Takes note of what the process emitted and answers with the reports
    /// to publish, none of them terminal.
    pub fn observe(&mut self, event: WorkerEvent) -> (reports: Vec<WorkerReport>)
        ensures
            final(self)@ == state_after(old(self)@, event@),
            report_views(reports@) == reports_for(old(self)@, event@),
    {
        match event {
            WorkerEvent::Stderr(line) => {
                let duration_text = if self.total_duration.is_none() {
                    duration_marker(line.as_str())
                } else {
                    None
                };
                let position_text = position_marker(line.as_str());
                self.note_line(line, duration_text, position_text)
            },
            WorkerEvent::Terminated(code) => {
                self.exit_code = code;
                let reports: Vec<WorkerReport> = Vec::new();
                reports
            },
            WorkerEvent::Other => {
                let reports: Vec<WorkerReport> = Vec::new();
                reports
            },
        }
    }

    /// Ends the job once the stream of events has ended: the terminal report
    /// to publish, and the outcome to hand to the coordinator. The job
    /// succeeded if and only if its process ended with exit code 0.
    pub fn finish(self) -> (end: (WorkerReport, Result<(), ConversionError>))
        ensures
            end.0@ == terminal_report(self@),
            succeeded(self@) ==> end.1 is Ok,
            !succeeded(self@) ==> (end.1 matches Err(ConversionError::Worker(detail)) && detail@
                == failure_text(self@.exit_code)),
    {
        let success = match self.exit_code {
            Some(code) => code == 0,
            None => false,
        };
        if success {
            (WorkerReport::Completed { id: self.id, output_path: self.output_path }, Ok(()))
        } else {
            let text = failure_string(self.exit_code);
            let detail = text.clone();
            (
                WorkerReport::Failed { id: self.id, error: text },
                Err(ConversionError::Worker(detail)),
            )
        }
    }
}

fn failure_string(code: Option<i32>) -> (text: String)
    ensures
        text@ == failure_text(code),
{
    let mut text = String::from_str("Process terminated with code ");
    match code {
        Some(c) => {
            text.append("Some(");
            push_signed_decimal(&mut text, c as i64);
            text.append(")");
        },
        None => {
            text.append("None");
        },
    }
    text
}

} // verus!
