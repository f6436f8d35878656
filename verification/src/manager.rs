//! The coordinator: the pending queue, the running jobs, the table of their
//! processes and the concurrency limit, changed by one message at a time.
//!
//! The manager decides; it starts nothing itself. Each message is answered
//! with the jobs to launch, and each request to pause, resume or cancel with
//! the signals to deliver.

use std::collections::VecDeque;
use vstd::hash_map::StringHashMap;
use vstd::prelude::*;
use vstd::string::StringExecFns;
use crate::error::ConversionError;
use crate::worker::ConversionTask;

verus! {

broadcast use {vstd::set::group_set_axioms, vstd::map::group_map_axioms};

/// The concurrency limit of a new manager.
pub const DEFAULT_MAX_CONCURRENCY: usize = 2;

/// What the coordinator is told.
#[derive(Debug)]
pub enum ManagerMessage {
    /// A job was admitted.
    Enqueue(ConversionTask),
    /// The job's worker spawned the process with the given id.
    TaskStarted(String, u32),
    /// The job ended in success.
    TaskCompleted(String),
    /// The job ended in failure.
    TaskError(String, ConversionError),
}

/// What to do to a process.
#[derive(Clone, Copy, Debug, PartialEq, Eq, Structural)]
pub enum SignalKind {
    /// Freeze the process.
    Stop,
    /// Let a frozen process run on.
    Continue,
    /// End the process at once.
    Kill,
}

/// One signal to deliver to one process.
#[derive(Clone, Copy, Debug, PartialEq, Eq, Structural)]
pub struct ProcessSignal {
    pub pid: u32,
    pub kind: SignalKind,
    /// Whether a failure to deliver the signal is to be ignored.
    pub best_effort: bool,
}

/// The manager as the contracts see it.
pub struct ManagerView {
    /// The admitted jobs that wait, oldest first.
    pub queue: Seq<ConversionTask>,
    /// The ids of the jobs that hold a slot.
    pub running: Set<Seq<char>>,
    /// The process of each job that reported one and has not ended.
    pub active: Map<Seq<char>, u32>,
    /// The limit as it was set.
    pub max_concurrency: nat,
}

impl ManagerView {
    /// The limit that a scheduling pass goes by: the limit set, but no less
    /// than one.
    pub open spec fn limit(self) -> nat {
        if self.max_concurrency < 1 {
            1
        } else {
            self.max_concurrency
        }
    }

    /// Whether no more jobs hold a slot than the limit allows.
    pub open spec fn within_limit(self) -> bool {
        self.running.finite() && self.running.len() <= self.limit()
    }
}

/// How many jobs a scheduling pass launches: it takes jobs off the front of
/// the queue, each into a slot under its id, for as long as jobs wait and
/// fewer than `limit` slots are held.
pub open spec fn launch_count(queue: Seq<ConversionTask>, running: Set<Seq<char>>, limit: nat) -> nat
    decreases queue.len(),
{
    if queue.len() > 0 && running.len() < limit {
        1 + launch_count(queue.drop_first(), running.insert(queue[0].id@), limit)
    } else {
        0
    }
}

/// The ids of a list of jobs.
pub open spec fn ids_of(tasks: Seq<ConversionTask>) -> Set<Seq<char>> {
    Set::new(|id: Seq<char>| exists|i: int| 0 <= i < tasks.len() && #[trigger] tasks[i].id@ == id)
}

/// The jobs that a scheduling pass launches, in queue order.
pub open spec fn launched_by_pass(v: ManagerView) -> Seq<ConversionTask> {
    v.queue.take(launch_count(v.queue, v.running, v.limit()) as int)
}

/// The manager after a scheduling pass.
pub open spec fn after_pass(v: ManagerView) -> ManagerView {
    ManagerView {
        queue: v.queue.skip(launch_count(v.queue, v.running, v.limit()) as int),
        running: v.running.union(ids_of(launched_by_pass(v))),
        ..v
    }
}

/// The manager after the state change of a message, before the scheduling
/// pass: an admitted job joins the back of the queue; a started job gets its
/// process recorded; a job that ended gives up its slot and its record.
pub open spec fn applied(v: ManagerView, message: ManagerMessage) -> ManagerView {
    match message {
        ManagerMessage::Enqueue(task) => ManagerView { queue: v.queue.push(task), ..v },
        ManagerMessage::TaskStarted(id, pid) => ManagerView {
            active: v.active.insert(id@, pid),
            ..v
        },
        ManagerMessage::TaskCompleted(id) => ManagerView {
            running: v.running.remove(id@),
            active: v.active.remove(id@),
            ..v
        },
        ManagerMessage::TaskError(id, _) => ManagerView {
            running: v.running.remove(id@),
            active: v.active.remove(id@),
            ..v
        },
    }
}

/// The manager after a message: its state change, then one scheduling pass.
pub open spec fn after_message(v: ManagerView, message: ManagerMessage) -> ManagerView {
    after_pass(applied(v, message))
}

/// The signal that pauses or resumes the process `pid`.
pub open spec fn direct_signal(pid: u32, kind: SignalKind) -> ProcessSignal {
    ProcessSignal { pid, kind, best_effort: false }
}

/// The signals that cancel the job `id`: none where the job has no process;
/// else the process is first let run on, whether or not that succeeds, and
/// then ended.
pub open spec fn cancel_signals(v: ManagerView, id: Seq<char>) -> Seq<ProcessSignal> {
    if v.active.contains_key(id) {
        seq![
            ProcessSignal { pid: v.active[id], kind: SignalKind::Continue, best_effort: true },
            ProcessSignal { pid: v.active[id], kind: SignalKind::Kill, best_effort: false },
        ]
    } else {
        seq![]
    }
}

/// The detail of the error for a signal that could not be delivered.
pub open spec fn signal_failure_text(kind: SignalKind) -> Seq<char> {
    match kind {
        SignalKind::Stop => "Failed to send SIGSTOP"@,
        SignalKind::Continue => "Failed to send SIGCONT"@,
        SignalKind::Kill => "Failed to send SIGKILL"@,
    }
}

/// The coordinator's state.
pub struct ConversionManager {
    queue: VecDeque<ConversionTask>,
    running: StringHashMap<()>,
    active: StringHashMap<u32>,
    max_concurrency: usize,
}

impl View for ConversionManager {
    type V = ManagerView;

    closed spec fn view(&self) -> ManagerView {
        ManagerView {
            queue: self.queue@,
            running: self.running@.dom(),
            active: self.active@,
            max_concurrency: self.max_concurrency as nat,
        }
    }
}

impl ConversionManager {
    #[verifier::type_invariant]
    spec fn well_formed(&self) -> bool {
        self.running@.dom().finite()
    }

    /// A manager with nothing queued, nothing running and the default limit.
    pub fn new() -> (manager: ConversionManager)
        ensures
            manager@ == (ManagerView {
                queue: Seq::empty(),
                running: Set::empty(),
                active: Map::empty(),
                max_concurrency: DEFAULT_MAX_CONCURRENCY as nat,
            }),
    {
        ConversionManager {
            queue: VecDeque::new(),
            running: StringHashMap::new(),
            active: StringHashMap::new(),
            max_concurrency: DEFAULT_MAX_CONCURRENCY,
        }
    }

    /// A manager with nothing queued, nothing running and the given limit,
    /// which must not be zero.
    pub fn with_max_concurrency(value: usize) -> (outcome: Result<
        ConversionManager,
        ConversionError,
    >)
        ensures
            value == 0 ==> (outcome matches Err(ConversionError::InvalidInput(detail)) && detail@
                == "Max concurrency must be at least 1"@),
            value != 0 ==> (outcome matches Ok(manager) && manager@ == (ManagerView {
                queue: Seq::empty(),
                running: Set::empty(),
                active: Map::empty(),
                max_concurrency: value as nat,
            })),
    {
        if value == 0 {
            return Err(
                ConversionError::InvalidInput(String::from_str("Max concurrency must be at least 1")),
            );
        }
        Ok(
            ConversionManager {
                queue: VecDeque::new(),
                running: StringHashMap::new(),
                active: StringHashMap::new(),
                max_concurrency: value,
            },
        )
    }

    /// The limit as it was set.
    pub fn current_max_concurrency(&self) -> (limit: usize)
        ensures
            limit == self@.max_concurrency,
    {
        self.max_concurrency
    }

    /// Sets the limit. Zero is rejected and changes nothing; any other value
    /// becomes the limit of the passes to come, and no job is touched.
    pub fn update_max_concurrency(&mut self, value: usize) -> (outcome: Result<
        (),
        ConversionError,
    >)
        ensures
            value == 0 ==> final(self)@ == old(self)@ && (outcome matches Err(
                ConversionError::InvalidInput(detail),
            ) && detail@ == "Max concurrency must be at least 1"@),
            value != 0 ==> outcome is Ok && final(self)@ == (ManagerView {
                max_concurrency: value as nat,
                ..old(self)@
            }),
    {
        if value == 0 {
            return Err(
                ConversionError::InvalidInput(String::from_str("Max concurrency must be at least 1")),
            );
        }
        proof {
            use_type_invariant(&*self);
        }
        self.max_concurrency = value;
        Ok(())
    }

    /// How many jobs wait in the queue.
    pub fn queued(&self) -> (n: usize)
        ensures
            n == self@.queue.len(),
    {
        self.queue.len()
    }

    /// How many jobs hold a slot.
    pub fn running(&self) -> (n: usize)
        ensures
            self@.running.finite(),
            n == self@.running.len(),
    {
        proof {
            use_type_invariant(self);
        }
        self.running.len()
    }

    /// Whether the job `id` holds a slot.
    pub fn is_running(&self, id: &str) -> (b: bool)
        ensures
            b == self@.running.contains(id@),
    {
        self.running.contains_key(id)
    }

    /// The process of the job `id`, where it has reported one and not ended.
    pub fn process_of(&self, id: &str) -> (pid: Option<u32>)
        ensures
            pid == (if self@.active.contains_key(id@) {
                Some(self@.active[id@])
            } else {
                None
            }),
    {
        match self.active.get(id) {
            Some(pid) => Some(*pid),
            None => None,
        }
    }

    /// Takes one message: applies its state change, runs one scheduling
    /// pass, and answers with the jobs to launch now, oldest first.
    pub fn handle(&mut self, message: ManagerMessage) -> (launched: Vec<ConversionTask>)
        ensures
            final(self)@ == after_message(old(self)@, message),
            launched@ == launched_by_pass(applied(old(self)@, message)),
    {
        proof {
            use_type_invariant(&*self);
        }
        let limit: usize = if self.max_concurrency < 1 {
            1
        } else {
            self.max_concurrency
        };
        let mut queue: VecDeque<ConversionTask> = VecDeque::new();
        let mut running: StringHashMap<()> = StringHashMap::new();
        let mut active: StringHashMap<u32> = StringHashMap::new();
        core::mem::swap(&mut self.queue, &mut queue);
        core::mem::swap(&mut self.running, &mut running);
        core::mem::swap(&mut self.active, &mut active);
        match message {
            ManagerMessage::Enqueue(task) => {
                queue.push_back(task);
            },
            ManagerMessage::TaskStarted(id, pid) => {
                active.insert(id, pid);
            },
            ManagerMessage::TaskCompleted(id) => {
                running.remove(id.as_str());
                active.remove(id.as_str());
            },
            ManagerMessage::TaskError(id, _) => {
                running.remove(id.as_str());
                active.remove(id.as_str());
            },
        }
        let launched = process_queue(&mut queue, &mut running, limit);
        core::mem::swap(&mut self.queue, &mut queue);
        core::mem::swap(&mut self.running, &mut running);
        core::mem::swap(&mut self.active, &mut active);
        launched
    }

    /// The signal that pauses the job `id`. The job must have a process:
    /// one that only waits in the queue, or has ended, is not found.
    pub fn pause_task(&self, id: &str) -> (plan: Result<ProcessSignal, ConversionError>)
        ensures
            self@.active.contains_key(id@) ==> plan == Ok::<ProcessSignal, ConversionError>(
                direct_signal(self@.active[id@], SignalKind::Stop),
            ),
            !self@.active.contains_key(id@) ==> (plan matches Err(
                ConversionError::TaskNotFound(detail),
            ) && detail@ == id@),
    {
        match self.active.get(id) {
            Some(pid) => Ok(ProcessSignal { pid: *pid, kind: SignalKind::Stop, best_effort: false }),
            None => Err(ConversionError::TaskNotFound(String::from_str(id))),
        }
    }

    /// The signal that resumes the job `id`. The job must have a process.
    pub fn resume_task(&self, id: &str) -> (plan: Result<ProcessSignal, ConversionError>)
        ensures
            self@.active.contains_key(id@) ==> plan == Ok::<ProcessSignal, ConversionError>(
                direct_signal(self@.active[id@], SignalKind::Continue),
            ),
            !self@.active.contains_key(id@) ==> (plan matches Err(
                ConversionError::TaskNotFound(detail),
            ) && detail@ == id@),
    {
        match self.active.get(id) {
            Some(pid) => Ok(
                ProcessSignal { pid: *pid, kind: SignalKind::Continue, best_effort: false },
            ),
            None => Err(ConversionError::TaskNotFound(String::from_str(id))),
        }
    }

    /// The signals that cancel the job `id`, in the order to deliver them.
    /// A job without a process needs none: cancelling it succeeds at once.
    pub fn cancel_task(&self, id: &str) -> (plan: Vec<ProcessSignal>)
        ensures
            plan@ == cancel_signals(self@, id@),
    {
        let mut plan: Vec<ProcessSignal> = Vec::new();
        match self.active.get(id) {
            Some(pid) => {
                plan.push(
                    ProcessSignal { pid: *pid, kind: SignalKind::Continue, best_effort: true },
                );
                plan.push(ProcessSignal { pid: *pid, kind: SignalKind::Kill, best_effort: false });
            },
            None => {
            },
        }
        plan
    }
}

/// One scheduling pass: launches waiting jobs, oldest first, while fewer
/// slots are held than the limit allows.
fn process_queue(
    queue: &mut VecDeque<ConversionTask>,
    running: &mut StringHashMap<()>,
    limit: usize,
) -> (launched: Vec<ConversionTask>)
    requires
        old(running)@.dom().finite(),
    ensures
        final(running)@.dom().finite(),
        launched@ == old(queue)@.take(
            launch_count(old(queue)@, old(running)@.dom(), limit as nat) as int,
        ),
        final(queue)@ == old(queue)@.skip(
            launch_count(old(queue)@, old(running)@.dom(), limit as nat) as int,
        ),
        final(running)@.dom() == old(running)@.dom().union(ids_of(launched@)),
{
    let mut launched: Vec<ConversionTask> = Vec::new();
    let ghost first_queue = queue@;
    let ghost first_running = running@.dom();
    while running.len() < limit && queue.len() > 0
        invariant
            running@.dom().finite(),
            launched@.len() <= first_queue.len(),
            launched@ == first_queue.take(launched@.len() as int),
            queue@ == first_queue.skip(launched@.len() as int),
            running@.dom() == first_running.union(ids_of(launched@)),
            launch_count(first_queue, first_running, limit as nat) == launched@.len()
                + launch_count(queue@, running@.dom(), limit as nat),
        decreases queue@.len(),
    {
        let ghost launched_before = launched@;
        let task = queue.pop_front().unwrap();
        running.insert(task.id.clone(), ());
        launched.push(task);
        proof {
            let k = launched_before.len() as int;
            assert(ids_of(launched@) == ids_of(launched_before).insert(task.id@)) by {
                assert forall|id: Seq<char>|
                    ids_of(launched@).contains(id) == ids_of(launched_before).insert(
                        task.id@,
                    ).contains(id) by {
                    if ids_of(launched@).contains(id) {
                        let i = choose|i: int|
                            0 <= i < launched@.len() && #[trigger] launched@[i].id@ == id;
                    }
                    if ids_of(launched_before).contains(id) {
                        let i = choose|i: int|
                            0 <= i < launched_before.len() && #[trigger] launched_before[i].id@
                                == id;
                        assert(launched@[i].id@ == id);
                    }
                    if id == task.id@ {
                        assert(launched@[k].id@ == id);
                    }
                }
            }
        }
    }
    launched
}

/// What a request makes of the delivery of one of its signals: a signal that
/// was delivered, or was sent on a best effort, lets the request go on; any
/// other failure is the request's error.
pub fn signal_outcome(signal: &ProcessSignal, delivered: bool) -> (outcome: Result<
    (),
    ConversionError,
>)
    ensures
        delivered || signal.best_effort ==> outcome is Ok,
        !delivered && !signal.best_effort ==> (outcome matches Err(ConversionError::Shell(detail))
            && detail@ == signal_failure_text(signal.kind)),
{
    if delivered || signal.best_effort {
        Ok(())
    } else {
        let detail = match signal.kind {
            SignalKind::Stop => String::from_str("Failed to send SIGSTOP"),
            SignalKind::Continue => String::from_str("Failed to send SIGCONT"),
            SignalKind::Kill => String::from_str("Failed to send SIGKILL"),
        };
        Err(ConversionError::Shell(detail))
    }
}

/// The message that tells the coordinator how the job `id` ended.
pub fn outcome_message(id: String, outcome: Result<(), ConversionError>) -> (message:
    ManagerMessage)
    ensures
        match outcome {
            Ok(_) => message == ManagerMessage::TaskCompleted(id),
            Err(error) => message == ManagerMessage::TaskError(id, error),
        },
{
    match outcome {
        Ok(_) => ManagerMessage::TaskCompleted(id),
        Err(error) => ManagerMessage::TaskError(id, error),
    }
}

// ---------------------------------------------------------------------------
// Laws of scheduling
// ---------------------------------------------------------------------------

/// Whether the jobs of `queue` have ids that differ from one another and
/// from those of the running jobs.
pub open spec fn ids_are_fresh(queue: Seq<ConversionTask>, running: Set<Seq<char>>) -> bool {
    &&& forall|i: int| 0 <= i < queue.len() ==> !running.contains(#[trigger] queue[i].id@)
    &&& forall|i: int, j: int|
        0 <= i < j < queue.len() ==> #[trigger] queue[i].id@ != #[trigger] queue[j].id@
}

proof fn lemma_ids_of_first(queue: Seq<ConversionTask>, n: int)
    requires
        1 <= n <= queue.len(),
    ensures
        ids_of(queue.take(n)) == ids_of(queue.drop_first().take(n - 1)).insert(queue[0].id@),
{
    let whole = queue.take(n);
    let rest = queue.drop_first().take(n - 1);
    assert forall|id: Seq<char>|
        ids_of(whole).contains(id) == ids_of(rest).insert(queue[0].id@).contains(id) by {
        if ids_of(whole).contains(id) {
            let i = choose|i: int| 0 <= i < whole.len() && #[trigger] whole[i].id@ == id;
            if i > 0 {
                assert(rest[i - 1].id@ == id);
            }
        }
        if ids_of(rest).contains(id) {
            let i = choose|i: int| 0 <= i < rest.len() && #[trigger] rest[i].id@ == id;
            assert(whole[i + 1].id@ == id);
        }
        if id == queue[0].id@ {
            assert(whole[0].id@ == id);
        }
    }
}

/// A scheduling pass launches no more jobs than wait, evicts no running job,
/// and fills the slots no further than the limit: afterwards as many jobs
/// run as ran before, or as the limit allows, whichever is more.
pub proof fn lemma_pass_respects_limit(v: ManagerView)
    requires
        v.running.finite(),
    ensures
        launch_count(v.queue, v.running, v.limit()) <= v.queue.len(),
        after_pass(v).running.finite(),
        v.running.subset_of(after_pass(v).running),
        after_pass(v).running.len() <= v.running.len() || after_pass(v).running.len()
            <= v.limit(),
        v.within_limit() ==> after_pass(v).within_limit(),
    decreases v.queue.len(),
{
    let n = launch_count(v.queue, v.running, v.limit());
    if v.queue.len() > 0 && v.running.len() < v.limit() {
        let next = ManagerView {
            queue: v.queue.drop_first(),
            running: v.running.insert(v.queue[0].id@),
            ..v
        };
        lemma_pass_respects_limit(next);
        lemma_ids_of_first(v.queue, n as int);
        assert(after_pass(v).running == after_pass(next).running);
    } else {
        assert(after_pass(v).running == v.running);
    }
}

/// No message brings more jobs to run than the limit allows: a manager that
/// is within its limit is within it after any message. Nor does a message
/// evict a job: whatever ran before still runs, but for the job that the
/// message reports as ended.
pub proof fn lemma_message_respects_limit(v: ManagerView, message: ManagerMessage)
    requires
        v.running.finite(),
    ensures
        after_message(v, message).running.finite(),
        v.within_limit() ==> after_message(v, message).within_limit(),
        forall|id: Seq<char>|
            v.running.contains(id) && applied(v, message).running.contains(id) ==> (
            #[trigger] after_message(v, message).running.contains(id)),
{
    lemma_pass_respects_limit(applied(v, message));
}

/// Whether every process on record belongs to a job that holds a slot.
pub open spec fn records_are_of_running_jobs(v: ManagerView) -> bool {
    v.active.dom().subset_of(v.running)
}

/// Only running jobs have a process on record, as long as workers report
/// their own: where every record is of a running job, it is so after any
/// message too, unless the message reports the process of a job that holds
/// no slot.
pub proof fn lemma_records_stay_with_running_jobs(v: ManagerView, message: ManagerMessage)
    requires
        v.running.finite(),
        records_are_of_running_jobs(v),
        message matches ManagerMessage::TaskStarted(id, _) ==> v.running.contains(id@),
    ensures
        records_are_of_running_jobs(after_message(v, message)),
{
    lemma_pass_respects_limit(applied(v, message));
    let middle = applied(v, message);
}

/// Where the waiting jobs have fresh ids, a pass launches exactly as many of
/// them as there are free slots, or all of them where fewer wait.
pub proof fn lemma_launch_count_of_fresh_jobs(
    queue: Seq<ConversionTask>,
    running: Set<Seq<char>>,
    limit: nat,
)
    requires
        running.finite(),
        ids_are_fresh(queue, running),
    ensures
        launch_count(queue, running, limit) == (if running.len() >= limit {
            0
        } else if queue.len() <= limit - running.len() {
            queue.len() as int
        } else {
            limit - running.len()
        }),
    decreases queue.len(),
{
    if queue.len() > 0 && running.len() < limit {
        let rest = queue.drop_first();
        let more = running.insert(queue[0].id@);
        lemma_launch_count_of_fresh_jobs(rest, more, limit);
    }
}

} // verus!
