//! The scheduler: a fixed-cadence tick loop that fans one probe out per
//! target and forwards each completed result to the sink.
//!
//! The timer, the concurrent probe units and the sink live outside this
//! crate; what is verified here is every decision the loop makes. The
//! scheduler is a state machine: [`step`] takes the current state and one
//! event (a timer tick carrying a registry snapshot, or the completion of
//! one probe unit) and returns the next state and the action the
//! surrounding loop must perform. A tick with no targets launches nothing;
//! a tick that fires while a batch is still in flight is skipped, so at
//! most one batch is ever active; each completion is forwarded to the sink
//! at once, carrying the originating target's id, whatever order
//! completions arrive in. Fan-out within a batch is unbounded: one probe
//! unit is launched per target.

use vstd::prelude::*;
use crate::probe::ProbeKind;
use crate::probe::kind_of;
use crate::probe::probe_kind;
use crate::types::ProbeResult;
use crate::types::Target;

verus! {

/// One unit of probe work: what a concurrent probe unit needs from its
/// target, by value.
pub struct ProbeJob {
    /// The originating target's id, attached to the finished result.
    pub id: String,
    /// Host to probe.
    pub host: String,
    /// Port to probe, meaningful for TCP jobs.
    pub port: u16,
    /// Which probe strategy to run.
    pub kind: ProbeKind,
}

impl Clone for ProbeJob {
    fn clone(&self) -> (res: Self)
        ensures
            res == *self,
    {
        ProbeJob {
            id: self.id.clone(),
            host: self.host.clone(),
            port: self.port,
            kind: self.kind,
        }
    }
}

/// The job a target gives rise to.
pub open spec fn job_of(t: Target) -> ProbeJob {
    ProbeJob { id: t.id, host: t.host, port: t.port, kind: kind_of(t.probe_type@) }
}

/// The jobs of a whole snapshot, in registry order.
pub open spec fn jobs_of(ts: Seq<Target>) -> Seq<ProbeJob> {
    Seq::new(ts.len(), |i: int| job_of(ts[i]))
}

/// Plan one tick's batch: one job per snapshotted target, in order.
pub fn plan_tick(targets: &Vec<Target>) -> (jobs: Vec<ProbeJob>)
    ensures
        jobs@ == jobs_of(targets@),
{
    let n = targets.len();
    let mut jobs: Vec<ProbeJob> = Vec::new();
    let mut i: usize = 0;
    while i < n
        invariant
            n == targets@.len(),
            0 <= i <= n,
            jobs@.len() == i,
            forall|k: int| 0 <= k < i ==> jobs@[k] == job_of(targets@[k]),
        decreases n - i,
    {
        let t = &targets[i];
        let kind = probe_kind(&t.probe_type);
        jobs.push(ProbeJob { id: t.id.clone(), host: t.host.clone(), port: t.port, kind });
        i = i + 1;
    }
    proof {
        assert(jobs@ =~= jobs_of(targets@));
    }
    jobs
}

/// A raw result with the originating job's id attached: what the sink
/// receives.
pub open spec fn finished(job: ProbeJob, raw: ProbeResult) -> ProbeResult {
    ProbeResult {
        id: job.id,
        ok: raw.ok,
        latency_ms: raw.latency_ms,
        error: raw.error,
        timestamp: raw.timestamp,
    }
}

/// Attach the originating job's id to a completed probe's raw result.
pub fn finish_probe(job: &ProbeJob, raw: ProbeResult) -> (r: ProbeResult)
    ensures
        r == finished(*job, raw),
{
    ProbeResult {
        id: job.id.clone(),
        ok: raw.ok,
        latency_ms: raw.latency_ms,
        error: raw.error,
        timestamp: raw.timestamp,
    }
}

/// How many jobs of a batch are still in flight.
pub open spec fn count_pending(done: Seq<bool>) -> nat
    decreases done.len(),
{
    if done.len() == 0 {
        0
    } else {
        count_pending(done.drop_last()) + (if done.last() {
            0nat
        } else {
            1nat
        })
    }
}

/// The scheduler's state between events.
pub enum SchedulerState {
    /// No batch in flight: waiting for the next tick.
    Waiting,
    /// A batch in flight: its jobs, which of them have completed, and how
    /// many have not.
    Running { jobs: Vec<ProbeJob>, done: Vec<bool>, pending: usize },
}

/// One event the surrounding loop hands to the scheduler.
pub enum SchedulerEvent {
    /// The interval timer fired; `targets` is the registry snapshot taken
    /// at that moment.
    Tick { targets: Vec<Target> },
    /// The concurrent unit running batch job `index` finished with this
    /// raw result (its id still empty).
    ProbeDone { index: usize, raw: ProbeResult },
}

/// What the surrounding loop must do after a step.
pub enum SchedulerAction {
    /// Nothing: an empty tick, or a completion that matches no in-flight
    /// job.
    Idle,
    /// Launch one concurrent probe unit per job.
    Launch { jobs: Vec<ProbeJob> },
    /// The tick fired while a batch was in flight: launch nothing, the
    /// missed tick is dropped.
    SkipTick,
    /// Forward this finished result to the sink. Delivery is best-effort:
    /// a sink failure is swallowed, never retried nor surfaced.
    Emit { result: ProbeResult },
}

/// The scheduler state abstracted to its mathematical content.
pub enum StateModel {
    Waiting,
    Running { jobs: Seq<ProbeJob>, done: Seq<bool> },
}

/// An event abstracted to its mathematical content.
pub enum EventModel {
    Tick { targets: Seq<Target> },
    ProbeDone { index: int, raw: ProbeResult },
}

/// An action abstracted to its mathematical content.
pub enum ActionModel {
    Idle,
    Launch { jobs: Seq<ProbeJob> },
    SkipTick,
    Emit { result: ProbeResult },
}

impl View for SchedulerState {
    type V = StateModel;

    open spec fn view(&self) -> StateModel {
        match self {
            SchedulerState::Waiting => StateModel::Waiting,
            SchedulerState::Running { jobs, done, .. } => StateModel::Running {
                jobs: jobs@,
                done: done@,
            },
        }
    }
}

impl View for SchedulerEvent {
    type V = EventModel;

    open spec fn view(&self) -> EventModel {
        match self {
            SchedulerEvent::Tick { targets } => EventModel::Tick { targets: targets@ },
            SchedulerEvent::ProbeDone { index, raw } => EventModel::ProbeDone {
                index: *index as int,
                raw: *raw,
            },
        }
    }
}

impl View for SchedulerAction {
    type V = ActionModel;

    open spec fn view(&self) -> ActionModel {
        match self {
            SchedulerAction::Idle => ActionModel::Idle,
            SchedulerAction::Launch { jobs } => ActionModel::Launch { jobs: jobs@ },
            SchedulerAction::SkipTick => ActionModel::SkipTick,
            SchedulerAction::Emit { result } => ActionModel::Emit { result: *result },
        }
    }
}

impl SchedulerState {
    /// A running batch tracks one completion flag per job, counts its
    /// in-flight jobs exactly, and holds at least one.
    pub open spec fn wf(self) -> bool {
        match self {
            SchedulerState::Waiting => true,
            SchedulerState::Running { jobs, done, pending } => {
                &&& done@.len() == jobs@.len()
                &&& pending == count_pending(done@)
                &&& pending > 0
            },
        }
    }
}

/// What one step of the scheduler decides, over the mathematical models.
pub open spec fn spec_step(s: StateModel, e: EventModel) -> (StateModel, ActionModel) {
    match (s, e) {
        (StateModel::Waiting, EventModel::Tick { targets }) => {
            if targets.len() == 0 {
                (StateModel::Waiting, ActionModel::Idle)
            } else {
                (
                    StateModel::Running {
                        jobs: jobs_of(targets),
                        done: Seq::new(targets.len(), |i: int| false),
                    },
                    ActionModel::Launch { jobs: jobs_of(targets) },
                )
            }
        },
        (StateModel::Running { jobs, done }, EventModel::Tick { .. }) => (
            StateModel::Running { jobs, done },
            ActionModel::SkipTick,
        ),
        (StateModel::Running { jobs, done }, EventModel::ProbeDone { index, raw }) => {
            if 0 <= index < done.len() && !done[index] {
                let done2 = done.update(index, true);
                let next = if count_pending(done2) == 0 {
                    StateModel::Waiting
                } else {
                    StateModel::Running { jobs, done: done2 }
                };
                (next, ActionModel::Emit { result: finished(jobs[index], raw) })
            } else {
                (StateModel::Running { jobs, done }, ActionModel::Idle)
            }
        },
        (StateModel::Waiting, EventModel::ProbeDone { .. }) => (
            StateModel::Waiting,
            ActionModel::Idle,
        ),
    }
}

/// Flipping one in-flight flag to done lowers the in-flight count by one.
proof fn lemma_count_pending_update(done: Seq<bool>, i: int)
    requires
        0 <= i < done.len(),
        !done[i],
    ensures
        count_pending(done.update(i, true)) == count_pending(done) - 1,
    decreases done.len(),
{
    let d2 = done.update(i, true);
    if i == done.len() - 1 {
        assert(d2.drop_last() =~= done.drop_last());
    } else {
        assert(d2.drop_last() =~= done.drop_last().update(i, true));
        lemma_count_pending_update(done.drop_last(), i);
    }
}

/// A batch with no job in flight has every completion flag set.
proof fn lemma_count_pending_zero(done: Seq<bool>)
    requires
        count_pending(done) == 0,
    ensures
        forall|k: int| 0 <= k < done.len() ==> done[k],
    decreases done.len(),
{
    if done.len() > 0 {
        lemma_count_pending_zero(done.drop_last());
        assert forall|k: int| 0 <= k < done.len() implies done[k] by {
            if k < done.len() - 1 {
                assert(done.drop_last()[k]);
            } else {
                assert(done.last());
            }
        }
    }
}

/// In a batch where nothing has completed, every job is in flight.
proof fn lemma_count_pending_all_false(done: Seq<bool>)
    requires
        forall|k: int| 0 <= k < done.len() ==> !done[k],
    ensures
        count_pending(done) == done.len(),
    decreases done.len(),
{
    if done.len() > 0 {
        lemma_count_pending_all_false(done.drop_last());
    }
}

/// The states and actions a sequence of events drives the scheduler
/// through, starting from `s`: the final state and the action of each step.
pub open spec fn run_events(s: StateModel, evs: Seq<EventModel>) -> (StateModel, Seq<ActionModel>)
    decreases evs.len(),
{
    if evs.len() == 0 {
        (s, Seq::empty())
    } else {
        let first = spec_step(s, evs[0]);
        let rest = run_events(first.0, evs.drop_first());
        (rest.0, seq![first.1].add(rest.1))
    }
}

/// The batch index a completion event names.
pub open spec fn done_index(e: EventModel) -> int {
    match e {
        EventModel::ProbeDone { index, .. } => index,
        EventModel::Tick { .. } => -1,
    }
}

/// Whether some event of `evs` completes batch job `j`.
pub open spec fn covers(evs: Seq<EventModel>, j: int) -> bool {
    exists|k: int| 0 <= k < evs.len() && done_index(#[trigger] evs[k]) == j
}

/// A tick that arrives with an empty registry snapshot launches no probe
/// and emits nothing: the scheduler stays waiting and the loop does
/// nothing.
pub proof fn lemma_empty_tick_is_noop(targets: Seq<Target>)
    requires
        targets.len() == 0,
    ensures
        spec_step(StateModel::Waiting, EventModel::Tick { targets }) == (
            StateModel::Waiting,
            ActionModel::Idle,
        ),
{
}

/// Skip-missed-ticks: a tick that fires while a batch is still in flight
/// changes nothing and launches nothing, so at most one batch is ever
/// active, however long the batch runs.
pub proof fn lemma_missed_tick_skipped(s: StateModel, targets: Seq<Target>)
    requires
        s is Running,
    ensures
        spec_step(s, EventModel::Tick { targets }).0 == s,
        spec_step(s, EventModel::Tick { targets }).1 == ActionModel::SkipTick,
{
}

/// A batch whose in-flight jobs each complete exactly once, in any order,
/// emits exactly one sink event per completion, each carrying the
/// originating job's id; every in-flight job is among the completions, and
/// the scheduler returns to waiting.
pub proof fn lemma_batch_emits_one_per_job(
    jobs: Seq<ProbeJob>,
    done: Seq<bool>,
    evs: Seq<EventModel>,
)
    requires
        done.len() == jobs.len(),
        count_pending(done) > 0,
        evs.len() == count_pending(done),
        forall|k: int|
            0 <= k < evs.len() ==> ((#[trigger] evs[k]) matches EventModel::ProbeDone {
                index,
                ..
            } && 0 <= index < done.len() && !done[index]),
        forall|k: int, l: int| 0 <= k < l < evs.len() ==> done_index(evs[k]) != done_index(evs[l]),
    ensures
        ({
            let (fin, acts) = run_events(StateModel::Running { jobs, done }, evs);
            &&& acts.len() == evs.len()
            &&& fin == StateModel::Waiting
            &&& forall|k: int|
                0 <= k < evs.len() ==> ((#[trigger] evs[k]) matches EventModel::ProbeDone {
                    index,
                    raw,
                } && acts[k] == ActionModel::Emit { result: finished(jobs[index], raw) })
            &&& forall|j: int| 0 <= j < done.len() && !done[j] ==> #[trigger] covers(evs, j)
        }),
    decreases evs.len(),
{
    let e0 = evs[0];
    let i0 = done_index(e0);
    lemma_count_pending_update(done, i0);
    let done2 = done.update(i0, true);
    if evs.len() == 1 {
        assert(run_events(StateModel::Waiting, evs.drop_first()) == (
            StateModel::Waiting,
            Seq::<ActionModel>::empty(),
        ));
        lemma_count_pending_zero(done2);
        assert forall|j: int| 0 <= j < done.len() && !done[j] implies #[trigger] covers(
            evs,
            j,
        ) by {
            assert(done2[j]);
            assert(j == i0);
            assert(done_index(evs[0]) == j);
        }
    } else {
        assert forall|k: int|
            0 <= k < evs.drop_first().len() implies (#[trigger] evs.drop_first()[k]) matches EventModel::ProbeDone {
            index,
            ..
        } && 0 <= index < done2.len() && !done2[index] by {
            assert(evs.drop_first()[k] == evs[k + 1]);
            assert(done_index(evs[k + 1]) != i0);
        }
        assert forall|k: int, l: int|
            0 <= k < l < evs.drop_first().len() implies done_index(evs.drop_first()[k])
            != done_index(evs.drop_first()[l]) by {
            assert(evs.drop_first()[k] == evs[k + 1]);
            assert(evs.drop_first()[l] == evs[l + 1]);
        }
        lemma_batch_emits_one_per_job(jobs, done2, evs.drop_first());
        assert forall|j: int| 0 <= j < done.len() && !done[j] implies #[trigger] covers(
            evs,
            j,
        ) by {
            if j == i0 {
                assert(done_index(evs[0]) == j);
            } else {
                assert(!done2[j]);
                assert(covers(evs.drop_first(), j));
                let k0 = choose|k: int|
                    0 <= k < evs.drop_first().len() && done_index(
                        #[trigger] evs.drop_first()[k],
                    ) == j;
                assert(evs.drop_first()[k0] == evs[k0 + 1]);
                assert(done_index(evs[k0 + 1]) == j);
            }
        }
    }
    let (fin, acts) = run_events(StateModel::Running { jobs, done }, evs);
    assert forall|k: int|
        0 <= k < evs.len() implies ((#[trigger] evs[k]) matches EventModel::ProbeDone {
        index,
        raw,
    } && acts[k] == ActionModel::Emit { result: finished(jobs[index], raw) }) by {
        if k > 0 {
            assert(evs[k] == evs.drop_first()[k - 1]);
        }
    }
}

/// A tick's batch of N targets produces exactly N sink events, one per
/// target — every target's job is among the completions, and each event
/// carries its target's id — regardless of the order completions arrive
/// in.
pub proof fn lemma_tick_batch_one_event_per_target(targets: Seq<Target>, evs: Seq<EventModel>)
    requires
        0 < targets.len(),
        evs.len() == targets.len(),
        forall|k: int|
            0 <= k < evs.len() ==> ((#[trigger] evs[k]) matches EventModel::ProbeDone {
                index,
                ..
            } && 0 <= index < targets.len()),
        forall|k: int, l: int| 0 <= k < l < evs.len() ==> done_index(evs[k]) != done_index(evs[l]),
    ensures
        ({
            let start = spec_step(StateModel::Waiting, EventModel::Tick { targets }).0;
            let (fin, acts) = run_events(start, evs);
            &&& acts.len() == targets.len()
            &&& fin == StateModel::Waiting
            &&& forall|k: int|
                0 <= k < evs.len() ==> ((#[trigger] evs[k]) matches EventModel::ProbeDone {
                    index,
                    raw,
                } && acts[k] == ActionModel::Emit { result: finished(job_of(targets[index]), raw) }
                    && finished(job_of(targets[index]), raw).id == targets[index].id)
            &&& forall|j: int| 0 <= j < targets.len() ==> #[trigger] covers(evs, j)
        }),
{
    let done0 = Seq::new(targets.len(), |i: int| false);
    lemma_count_pending_all_false(done0);
    lemma_batch_emits_one_per_job(jobs_of(targets), done0, evs);
    assert forall|j: int| 0 <= j < targets.len() implies #[trigger] covers(evs, j) by {
        assert(!done0[j]);
    }
}

/// Run one scheduler step: from the current state and one event, the next
/// state and the action the surrounding loop must perform.
pub fn step(state: SchedulerState, event: SchedulerEvent) -> (res: (
    SchedulerState,
    SchedulerAction,
))
    requires
        state.wf(),
    ensures
        res.0.wf(),
        (res.0@, res.1@) == spec_step(state@, event@),
{
    match state {
        SchedulerState::Waiting => match event {
            SchedulerEvent::Tick { targets } => {
                let n = targets.len();
                if n == 0 {
                    (SchedulerState::Waiting, SchedulerAction::Idle)
                } else {
                    let jobs = plan_tick(&targets);
                    let launch = jobs.clone();
                    proof {
                        assert forall|k: int| 0 <= k < jobs@.len() implies launch@[k]
                            == jobs@[k] by {
                            assert(cloned::<ProbeJob>(jobs@[k], launch@[k]));
                        }
                        assert(launch@ =~= jobs@);
                    }
                    let mut done: Vec<bool> = Vec::new();
                    let mut i: usize = 0;
                    while i < n
                        invariant
                            0 <= i <= n,
                            done@.len() == i,
                            forall|k: int| 0 <= k < i ==> !done@[k],
                        decreases n - i,
                    {
                        done.push(false);
                        i = i + 1;
                    }
                    proof {
                        lemma_count_pending_all_false(done@);
                        assert(done@ =~= Seq::new(targets@.len(), |i: int| false));
                    }
                    (
                        SchedulerState::Running { jobs, done, pending: n },
                        SchedulerAction::Launch { jobs: launch },
                    )
                }
            },
            SchedulerEvent::ProbeDone { .. } => (SchedulerState::Waiting, SchedulerAction::Idle),
        },
        SchedulerState::Running { jobs, mut done, pending } => match event {
            SchedulerEvent::Tick { .. } => (
                SchedulerState::Running { jobs, done, pending },
                SchedulerAction::SkipTick,
            ),
            SchedulerEvent::ProbeDone { index, raw } => {
                if index < done.len() && !done[index] {
                    let ghost old_done = done@;
                    let result = finish_probe(&jobs[index], raw);
                    done.set(index, true);
                    proof {
                        lemma_count_pending_update(old_done, index as int);
                    }
                    let next = if pending == 1 {
                        SchedulerState::Waiting
                    } else {
                        SchedulerState::Running { jobs, done, pending: pending - 1 }
                    };
                    (next, SchedulerAction::Emit { result })
                } else {
                    (
                        SchedulerState::Running { jobs, done, pending },
                        SchedulerAction::Idle,
                    )
                }
            },
        },
    }
}

} // verus!
