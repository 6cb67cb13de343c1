//! The scheduler: one timer-driven loop per job. Each loop sleeps for the
//! job's interval, has the job invoked, notes how the invocation ended and
//! sleeps again, whatever the outcome and whatever the other loops do.
//!
//! The loops themselves are run by the caller, which sleeps and invokes.
//! This module decides: given the state of a loop and what just happened,
//! what the loop's state is now and what is to be done next.
use crate::context::Data;
use crate::tasks::{checked, Job, JobConfig, JobError, JobKind, JobModel, Outcome};
use std::sync::Arc;
use vstd::prelude::*;

verus! {

/// Where a loop stands.
#[derive(Clone, Copy, Debug, PartialEq, Eq, Structural)]
pub enum Phase {
    /// Not started yet.
    Idle,
    /// Asleep until the next tick.
    Waiting,
    /// The job is being invoked.
    Running,
}

/// What happened to a loop.
#[derive(Clone, Copy, Debug, PartialEq, Eq)]
pub enum LoopEvent {
    /// The loop was started at `now`.
    Spawned { now: u64 },
    /// The loop woke up at `now`.
    Woke { now: u64 },
    /// The invocation of the job ended at `now`.
    Resolved { now: u64, outcome: Outcome },
}

/// What is to be done for a loop.
#[derive(Clone, Copy, Debug, PartialEq, Eq)]
pub enum LoopAction {
    /// Sleep until `until`, then tell the loop that it woke.
    Sleep { until: u64 },
    /// Invoke the job with the shared state, then tell the loop how and
    /// when the invocation ended.
    Invoke,
    /// Note in the log how the invocation ended, then sleep until `until`
    /// and tell the loop that it woke.
    Record { outcome: Outcome, until: u64 },
    /// Nothing: the event does not concern the loop as it stands.
    Ignore,
}

/// The state of the loop of one job: the job's interval, where the loop
/// stands and when it is next due. It holds nothing of earlier invocations.
#[derive(Clone, Copy, Debug, PartialEq, Eq, Structural)]
pub struct ExecutionLoop {
    pub interval: u64,
    pub phase: Phase,
    pub next_tick: u64,
}

impl LoopEvent {
    /// When the event happened.
    pub open spec fn time(self) -> u64 {
        match self {
            LoopEvent::Spawned { now } => now,
            LoopEvent::Woke { now } => now,
            LoopEvent::Resolved { now, .. } => now,
        }
    }
}

/// The later of two instants.
pub open spec fn later(a: int, b: int) -> int {
    if a >= b {
        a
    } else {
        b
    }
}

impl ExecutionLoop {
    /// The loop of a job with the given interval that has not started.
    pub open spec fn idle(interval: u64) -> ExecutionLoop {
        ExecutionLoop { interval, phase: Phase::Idle, next_tick: 0 }
    }

    /// The loop of a job with the given interval that is asleep until
    /// `next_tick`.
    pub open spec fn waiting(interval: u64, next_tick: u64) -> ExecutionLoop {
        ExecutionLoop { interval, phase: Phase::Waiting, next_tick }
    }

    /// When the loop is due after the event, as a number that need not fit
    /// the clock.
    ///
    /// A loop that starts is due one interval later: there is no
    /// invocation at the start. A loop whose invocation ended is due one
    /// interval after the tick that led to the invocation, or at once if
    /// that instant has passed; it does not make up for ticks that it
    /// missed. No other event moves the tick.
    pub open spec fn due_after(self, event: LoopEvent) -> int {
        match (self.phase, event) {
            (Phase::Idle, LoopEvent::Spawned { now }) => now + self.interval,
            (Phase::Running, LoopEvent::Resolved { now, .. }) => later(
                self.next_tick + self.interval,
                now as int,
            ),
            _ => self.next_tick as int,
        }
    }

    /// The event can be taken: the instant at which the loop is due after
    /// it fits the clock.
    pub open spec fn in_range(self, event: LoopEvent) -> bool {
        self.due_after(event) <= u64::MAX
    }

    /// The state of the loop after the event.
    ///
    /// A loop that starts goes to sleep. A sleeping loop that wakes at or
    /// after its tick runs; one that wakes early sleeps on. A running loop
    /// whose invocation ended goes to sleep, whatever the outcome. Any other
    /// event leaves the loop as it is.
    pub open spec fn next(self, event: LoopEvent) -> ExecutionLoop {
        let due = self.due_after(event) as u64;
        match (self.phase, event) {
            (Phase::Idle, LoopEvent::Spawned { .. }) => ExecutionLoop {
                interval: self.interval,
                phase: Phase::Waiting,
                next_tick: due,
            },
            (Phase::Waiting, LoopEvent::Woke { now }) => if now >= self.next_tick {
                ExecutionLoop { interval: self.interval, phase: Phase::Running, next_tick: due }
            } else {
                self
            },
            (Phase::Running, LoopEvent::Resolved { .. }) => ExecutionLoop {
                interval: self.interval,
                phase: Phase::Waiting,
                next_tick: due,
            },
            _ => self,
        }
    }

    /// What is to be done after the event.
    pub open spec fn action(self, event: LoopEvent) -> LoopAction {
        let due = self.due_after(event) as u64;
        match (self.phase, event) {
            (Phase::Idle, LoopEvent::Spawned { .. }) => LoopAction::Sleep { until: due },
            (Phase::Waiting, LoopEvent::Woke { now }) => if now >= self.next_tick {
                LoopAction::Invoke
            } else {
                LoopAction::Sleep { until: due }
            },
            (Phase::Running, LoopEvent::Resolved { outcome, .. }) => LoopAction::Record {
                outcome,
                until: due,
            },
            _ => LoopAction::Ignore,
        }
    }

    /// The loop of a job with the given interval, not started.
    pub fn new(interval: u64) -> (r: ExecutionLoop)
        ensures
            r == ExecutionLoop::idle(interval),
    {
        ExecutionLoop { interval, phase: Phase::Idle, next_tick: 0 }
    }

    /// Takes an event: gives the state of the loop after it and what is to
    /// be done. Where the instant at which the loop would be due does not fit
    /// the clock, the event is not taken and there is no result.
    pub fn step(self, event: LoopEvent) -> (r: Option<(ExecutionLoop, LoopAction)>)
        ensures
            r == (if self.in_range(event) {
                Some((self.next(event), self.action(event)))
            } else {
                None
            }),
    {
        match self.phase {
            Phase::Idle => match event {
                LoopEvent::Spawned { now } => {
                    if now > u64::MAX - self.interval {
                        return None;
                    }
                    let due: u64 = now + self.interval;
                    Some(
                        (
                            ExecutionLoop {
                                interval: self.interval,
                                phase: Phase::Waiting,
                                next_tick: due,
                            },
                            LoopAction::Sleep { until: due },
                        ),
                    )
                },
                _ => Some((self, LoopAction::Ignore)),
            },
            Phase::Waiting => match event {
                LoopEvent::Woke { now } => {
                    if now >= self.next_tick {
                        Some(
                            (
                                ExecutionLoop {
                                    interval: self.interval,
                                    phase: Phase::Running,
                                    next_tick: self.next_tick,
                                },
                                LoopAction::Invoke,
                            ),
                        )
                    } else {
                        Some((self, LoopAction::Sleep { until: self.next_tick }))
                    }
                },
                _ => Some((self, LoopAction::Ignore)),
            },
            Phase::Running => match event {
                LoopEvent::Resolved { now, outcome } => {
                    if self.next_tick > u64::MAX - self.interval {
                        return None;
                    }
                    let planned: u64 = self.next_tick + self.interval;
                    let due: u64 = if planned >= now {
                        planned
                    } else {
                        now
                    };
                    Some(
                        (
                            ExecutionLoop {
                                interval: self.interval,
                                phase: Phase::Waiting,
                                next_tick: due,
                            },
                            LoopAction::Record { outcome, until: due },
                        ),
                    )
                },
                _ => Some((self, LoopAction::Ignore)),
            },
        }
    }
}

/// The state of a loop after a sequence of events, each taken as far as
/// it fits the clock.
pub open spec fn run(state: ExecutionLoop, events: Seq<LoopEvent>) -> ExecutionLoop
    decreases events.len(),
{
    if events.len() == 0 {
        state
    } else {
        let before = run(state, events.drop_last());
        if before.in_range(events.last()) {
            before.next(events.last())
        } else {
            before
        }
    }
}

/// How often the job is invoked in the course of a sequence of events.
pub open spec fn invocations(state: ExecutionLoop, events: Seq<LoopEvent>) -> nat
    decreases events.len(),
{
    if events.len() == 0 {
        0
    } else {
        let before = run(state, events.drop_last());
        let earlier = invocations(state, events.drop_last());
        if before.in_range(events.last()) && before.action(events.last()) is Invoke {
            earlier + 1
        } else {
            earlier
        }
    }
}

/// The events of a loop that is woken exactly when it is due: for each
/// invocation the wake-up at the tick, and the end of the invocation after
/// the time that the invocation took. The first tick is one interval after
/// `start`.
pub open spec fn punctual_events(
    interval: u64,
    start: u64,
    outcomes: Seq<Outcome>,
    durations: Seq<u64>,
) -> Seq<LoopEvent>
    decreases outcomes.len(),
{
    if outcomes.len() == 0 {
        Seq::empty()
    } else {
        let tick = start + outcomes.len() * interval;
        punctual_events(interval, start, outcomes.drop_last(), durations.drop_last()).push(
            LoopEvent::Woke { now: tick as u64 },
        ).push(
            LoopEvent::Resolved {
                now: (tick + durations.last()) as u64,
                outcome: outcomes.last(),
            },
        )
    }
}

/// No invocation before the first interval has passed: a loop that was
/// started at `start` invokes its job in no sequence of events that all
/// happen before `start + interval`.
pub proof fn lemma_no_invocation_before_first_tick(
    interval: u64,
    start: u64,
    events: Seq<LoopEvent>,
)
    requires
        start + interval <= u64::MAX,
        forall|i: int| 0 <= i < events.len() ==> (#[trigger] events[i]).time() < start + interval,
    ensures
        ExecutionLoop::idle(interval).next(LoopEvent::Spawned { now: start })
            == ExecutionLoop::waiting(interval, (start + interval) as u64),
        ExecutionLoop::idle(interval).action(LoopEvent::Spawned { now: start })
            == (LoopAction::Sleep { until: (start + interval) as u64 }),
        invocations(ExecutionLoop::waiting(interval, (start + interval) as u64), events) == 0,
        run(ExecutionLoop::waiting(interval, (start + interval) as u64), events)
            == ExecutionLoop::waiting(interval, (start + interval) as u64),
    decreases events.len(),
{
    if events.len() > 0 {
        let front = events.drop_last();
        assert forall|i: int| 0 <= i < front.len() implies (#[trigger] front[i]).time() < start
            + interval by {
            assert(front[i] == events[i]);
        }
        lemma_no_invocation_before_first_tick(interval, start, front);
        assert(events.last() == events[events.len() - 1]);
    }
}

/// The outcome of an invocation does not touch the schedule: whether the
/// job succeeded or failed, and however it failed, the loop goes to sleep and
/// is due at the same instant.
pub proof fn lemma_outcome_does_not_move_the_tick(
    state: ExecutionLoop,
    now: u64,
    first: Outcome,
    second: Outcome,
)
    ensures
        state.in_range(LoopEvent::Resolved { now, outcome: first }) == state.in_range(
            LoopEvent::Resolved { now, outcome: second },
        ),
        state.next(LoopEvent::Resolved { now, outcome: first }) == state.next(
            LoopEvent::Resolved { now, outcome: second },
        ),
        state.phase == Phase::Running ==> state.next(
            LoopEvent::Resolved { now, outcome: first },
        ).phase == Phase::Waiting,
{
}

/// A job is never invoked while it is being invoked: a running loop asks
/// for no invocation, and stays running until it is told that the invocation
/// ended.
pub proof fn lemma_no_overlap(state: ExecutionLoop, event: LoopEvent)
    requires
        state.phase == Phase::Running,
    ensures
        !(state.action(event) is Invoke),
        !(event is Resolved) ==> state.next(event) == state,
{
}

/// A product grows by one factor when the other grows by one.
proof fn lemma_next_multiple(k: int, d: int)
    ensures
        (k + 1) * d == k * d + d,
        k >= 0 && d >= 0 ==> k * d >= 0,
{
    assert((k + 1) * d == k * d + d) by (nonlinear_arith);
    assert(k >= 0 && d >= 0 ==> k * d >= 0) by (nonlinear_arith);
}

/// A loop that is woken when it is due, and whose invocations each take no
/// longer than the interval, invokes its job once per interval, whatever the
/// outcomes: after `n` intervals it has invoked the job `n` times and is
/// asleep until the next tick, `n + 1` intervals after the start.
pub proof fn lemma_punctual_cadence(
    interval: u64,
    start: u64,
    outcomes: Seq<Outcome>,
    durations: Seq<u64>,
)
    requires
        interval > 0,
        outcomes.len() == durations.len(),
        forall|i: int| 0 <= i < durations.len() ==> (#[trigger] durations[i]) <= interval,
        start + (outcomes.len() + 1) * interval <= u64::MAX,
    ensures
        invocations(
            ExecutionLoop::waiting(interval, (start + interval) as u64),
            punctual_events(interval, start, outcomes, durations),
        ) == outcomes.len(),
        run(
            ExecutionLoop::waiting(interval, (start + interval) as u64),
            punctual_events(interval, start, outcomes, durations),
        ) == ExecutionLoop::waiting(
            interval,
            (start + (outcomes.len() + 1) * interval) as u64,
        ),
    decreases outcomes.len(),
{
    let first = ExecutionLoop::waiting(interval, (start + interval) as u64);
    let n = outcomes.len() as int;
    lemma_next_multiple(n, interval as int);
    if n == 0 {
        assert(0 * interval == 0);
    } else {
        let front = punctual_events(interval, start, outcomes.drop_last(), durations.drop_last());
        lemma_next_multiple(n - 1, interval as int);
        assert forall|i: int| 0 <= i < durations.drop_last().len() implies (
        #[trigger] durations.drop_last()[i]) <= interval by {
            assert(durations.drop_last()[i] == durations[i]);
        }
        lemma_punctual_cadence(interval, start, outcomes.drop_last(), durations.drop_last());
        let tick = start + n * interval;
        let woke = LoopEvent::Woke { now: tick as u64 };
        let resolved = LoopEvent::Resolved {
            now: (tick + durations.last()) as u64,
            outcome: outcomes.last(),
        };
        let events = front.push(woke).push(resolved);
        assert(events == punctual_events(interval, start, outcomes, durations));
        assert(events.drop_last() =~= front.push(woke));
        assert(events.last() == resolved);
        assert(front.push(woke).drop_last() =~= front);
        assert(front.push(woke).last() == woke);
        let asleep = run(first, front);
        assert(asleep == ExecutionLoop::waiting(interval, tick as u64));
        let running = run(first, front.push(woke));
        assert(asleep.in_range(woke));
        assert(running == asleep.next(woke));
        assert(running.phase == Phase::Running);
        assert(asleep.action(woke) is Invoke);
        assert(invocations(first, front.push(woke)) == n);
        assert(durations.last() == durations[n - 1]);
        assert(running.due_after(resolved) == tick + interval);
        assert(running.in_range(resolved));
        assert(running.action(resolved) is Record);
    }
}

/// Each loop keeps its own cadence: by the instant `horizon`, a loop that
/// was started at `start`, is woken when it is due and whose invocations end
/// at once has invoked its job once for each whole interval that has passed
/// since the start, and its next tick lies after `horizon`.
pub proof fn lemma_invocations_by(interval: u64, start: u64, horizon: u64, outcomes: Seq<Outcome>)
    requires
        interval > 0,
        start <= horizon,
        horizon + interval <= u64::MAX,
        outcomes.len() == (horizon - start) / (interval as int),
    ensures
        invocations(
            ExecutionLoop::waiting(interval, (start + interval) as u64),
            punctual_events(interval, start, outcomes, Seq::new(outcomes.len(), |i: int| 0u64)),
        ) == (horizon - start) / (interval as int),
        run(
            ExecutionLoop::waiting(interval, (start + interval) as u64),
            punctual_events(interval, start, outcomes, Seq::new(outcomes.len(), |i: int| 0u64)),
        ).phase == Phase::Waiting,
        run(
            ExecutionLoop::waiting(interval, (start + interval) as u64),
            punctual_events(interval, start, outcomes, Seq::new(outcomes.len(), |i: int| 0u64)),
        ).next_tick > horizon,
        start + outcomes.len() * interval <= horizon,
{
    let n = outcomes.len() as int;
    let d = interval as int;
    let span = horizon - start;
    assert(n * d <= span && span < (n + 1) * d) by (nonlinear_arith)
        requires
            d > 0,
            span >= 0,
            n == span / d,
    ;
    lemma_next_multiple(n, d);
    lemma_punctual_cadence(interval, start, outcomes, Seq::new(outcomes.len(), |i: int| 0u64));
}

/// The number of ticks in a day where a tick is a millisecond.
pub const DAY: i64 = 86_400_000;

/// Every configured job has an interval above zero.
pub open spec fn all_valid(configs: Seq<JobConfig>) -> bool {
    forall|i: int| 0 <= i < configs.len() ==> (#[trigger] configs[i]).interval > 0
}

/// The jobs that the daemon runs, in their order. Built once; never
/// changed.
#[derive(Debug)]
pub struct JobRegistry {
    jobs: Vec<Job>,
}

impl View for JobRegistry {
    type V = Seq<JobModel>;

    closed spec fn view(&self) -> Seq<JobModel> {
        self.jobs@.map_values(|job: Job| job@)
    }
}

/// The jobs that the daemon is built with: the status-update check, once a
/// day.
pub fn default_jobs() -> (configs: Vec<JobConfig>)
    ensures
        configs@.len() == 1,
        configs@[0].name@ == "status_update_check"@,
        configs@[0].interval == DAY,
        configs@[0].kind == JobKind::StatusUpdateCheck,
        all_valid(configs@),
{
    let mut configs: Vec<JobConfig> = Vec::new();
    configs.push(
        JobConfig {
            name: String::from_str("status_update_check"),
            interval: DAY,
            kind: JobKind::StatusUpdateCheck,
        },
    );
    configs
}

impl JobRegistry {
    /// Builds the registry from the configured jobs, in their order. If
    /// any of them has an interval of zero or less, no registry is built:
    /// the daemon must not run on a schedule that makes no sense.
    pub fn build(configs: &Vec<JobConfig>) -> (r: Result<JobRegistry, JobError>)
        ensures
            match r {
                Ok(registry) => all_valid(configs@) && registry@ == configs@.map_values(
                    |c: JobConfig| checked(c),
                ),
                Err(e) => !all_valid(configs@) && e == JobError::ConfigurationError,
            },
    {
        let mut jobs: Vec<Job> = Vec::new();
        let mut i: usize = 0;
        while i < configs.len()
            invariant
                i <= configs@.len(),
                jobs@.len() == i,
                forall|k: int| 0 <= k < i ==> (#[trigger] configs@[k]).interval > 0,
                forall|k: int| 0 <= k < i ==> (#[trigger] jobs@[k])@ == checked(configs@[k]),
            decreases configs@.len() - i,
        {
            match Job::new(&configs[i]) {
                Ok(job) => {
                    jobs.push(job);
                },
                Err(e) => {
                    return Err(e);
                },
            }
            i = i + 1;
        }
        let registry = JobRegistry { jobs };
        assert(registry@ =~= configs@.map_values(|c: JobConfig| checked(c)));
        Ok(registry)
    }

    /// How many jobs there are.
    pub fn len(&self) -> (n: usize)
        ensures
            n == self@.len(),
    {
        self.jobs.len()
    }

    /// The job at `index`, if there is one.
    pub fn job(&self, index: usize) -> (r: Option<&Job>)
        ensures
            match r {
                Some(job) => index < self@.len() && job@ == self@[index as int],
                None => index >= self@.len(),
            },
    {
        if index < self.jobs.len() {
            Some(&self.jobs[index])
        } else {
            None
        }
    }
}

/// What a scheduler holds, as plain values: the jobs and the state of the
/// loop of each.
pub struct SchedulerModel {
    pub jobs: Seq<JobModel>,
    pub loops: Seq<ExecutionLoop>,
}

/// The scheduler: the registry of jobs, the shared state that every
/// invocation is handed, and the loop of each job.
pub struct Scheduler {
    registry: JobRegistry,
    context: Arc<Data>,
    loops: Vec<ExecutionLoop>,
}

impl View for Scheduler {
    type V = SchedulerModel;

    closed spec fn view(&self) -> SchedulerModel {
        SchedulerModel { jobs: self.registry@, loops: self.loops@ }
    }
}

/// Every job can be started at `now`: its first tick fits the clock.
pub open spec fn can_start(jobs: Seq<JobModel>, now: u64) -> bool {
    forall|i: int| 0 <= i < jobs.len() ==> now + (#[trigger] jobs[i]).interval <= u64::MAX
}

/// The loops of the given jobs just after all were started at `now`: each
/// asleep until one interval of its own job has passed.
pub open spec fn started_loops(jobs: Seq<JobModel>, now: u64) -> Seq<ExecutionLoop> {
    Seq::new(
        jobs.len(),
        |i: int| ExecutionLoop::waiting(jobs[i].interval as u64, (now + jobs[i].interval) as u64),
    )
}

/// What is to be done for the loops of the given jobs just after all were
/// started at `now`: for each, to sleep until its first tick.
pub open spec fn started_actions(jobs: Seq<JobModel>, now: u64) -> Seq<LoopAction> {
    Seq::new(jobs.len(), |i: int| LoopAction::Sleep { until: (now + jobs[i].interval) as u64 })
}

impl SchedulerModel {
    /// There is one loop for each job, and it has the interval of its job.
    pub open spec fn aligned(self) -> bool {
        &&& self.loops.len() == self.jobs.len()
        &&& forall|i: int|
            0 <= i < self.loops.len() ==> (#[trigger] self.loops[i]).interval
                == self.jobs[i].interval
    }

    /// The scheduler after the loop at `index` was told of an event. Where
    /// there is no such loop, or the event cannot be taken, it is the
    /// scheduler as it was.
    pub open spec fn stepped(self, index: int, event: LoopEvent) -> SchedulerModel {
        if 0 <= index < self.loops.len() && self.loops[index].in_range(event) {
            SchedulerModel {
                jobs: self.jobs,
                loops: self.loops.update(index, self.loops[index].next(event)),
            }
        } else {
            self
        }
    }
}

/// The loops do not touch each other: an event for one loop leaves every
/// other loop as it is, and events for two different loops lead to the same
/// state in either order.
pub proof fn lemma_loops_are_independent(
    scheduler: SchedulerModel,
    first: int,
    first_event: LoopEvent,
    second: int,
    second_event: LoopEvent,
)
    requires
        first != second,
    ensures
        0 <= second < scheduler.loops.len() ==> scheduler.stepped(first, first_event).loops[second]
            == scheduler.loops[second],
        scheduler.stepped(first, first_event).stepped(second, second_event) == scheduler.stepped(
            second,
            second_event,
        ).stepped(first, first_event),
{
    let a = scheduler.stepped(first, first_event).stepped(second, second_event);
    let b = scheduler.stepped(second, second_event).stepped(first, first_event);
    assert(a.loops =~= b.loops);
}

impl Scheduler {

    /// The shared state that the scheduler was started with.
    pub closed spec fn shared(&self) -> Arc<Data> {
        self.context
    }

    /// Starts one loop for each job of the registry, at the instant `now`,
    /// and says what is to be done for each: to sleep for one interval. No
    /// job is invoked by the start. If the first tick of some job does not
    /// fit the clock, nothing is started.
    pub fn start(registry: JobRegistry, context: Arc<Data>, now: u64) -> (r: Option<
        (Scheduler, Vec<LoopAction>),
    >)
        ensures
            match r {
                Some((scheduler, actions)) => {
                    &&& can_start(registry@, now)
                    &&& scheduler@.jobs == registry@
                    &&& scheduler@.loops == started_loops(registry@, now)
                    &&& actions@ == started_actions(registry@, now)
                    &&& scheduler.shared() == context
                    &&& scheduler@.aligned()
                },
                None => !can_start(registry@, now),
            },
    {
        let mut loops: Vec<ExecutionLoop> = Vec::new();
        let mut actions: Vec<LoopAction> = Vec::new();
        let mut i: usize = 0;
        while i < registry.jobs.len()
            invariant
                i <= registry.jobs@.len(),
                loops@.len() == i,
                actions@.len() == i,
                registry@.len() == registry.jobs@.len(),
                forall|k: int|
                    0 <= k < registry.jobs@.len() ==> (#[trigger] registry@[k])
                        == registry.jobs@[k]@,
                forall|k: int| 0 <= k < i ==> now + (#[trigger] registry@[k]).interval <= u64::MAX,
                forall|k: int|
                    0 <= k < i ==> (#[trigger] loops@[k]) == started_loops(registry@, now)[k],
                forall|k: int|
                    0 <= k < i ==> (#[trigger] actions@[k]) == started_actions(registry@, now)[k],
            decreases registry.jobs@.len() - i,
        {
            let interval = registry.jobs[i].interval();
            match ExecutionLoop::new(interval).step(LoopEvent::Spawned { now }) {
                Some((state, action)) => {
                    loops.push(state);
                    actions.push(action);
                },
                None => {
                    assert(now + registry@[i as int].interval > u64::MAX);
                    return None;
                },
            }
            i = i + 1;
        }
        proof {
            assert(loops@ =~= started_loops(registry@, now));
            assert(actions@ =~= started_actions(registry@, now));
        }
        Some((Scheduler { registry, context, loops }, actions))
    }

    /// How many loops there are.
    pub fn len(&self) -> (n: usize)
        ensures
            n == self@.loops.len(),
    {
        self.loops.len()
    }

    /// The shared state, to hand to an invocation.
    pub fn context(&self) -> (r: &Arc<Data>)
        ensures
            *r == self.shared(),
    {
        &self.context
    }

    /// The job of the loop at `index`, if there is one.
    pub fn job(&self, index: usize) -> (r: Option<&Job>)
        ensures
            match r {
                Some(job) => index < self@.jobs.len() && job@ == self@.jobs[index as int],
                None => index >= self@.jobs.len(),
            },
    {
        self.registry.job(index)
    }

    /// The state of the loop at `index`, if there is one.
    pub fn state(&self, index: usize) -> (r: Option<ExecutionLoop>)
        ensures
            r == (if index < self@.loops.len() {
                Some(self@.loops[index as int])
            } else {
                None
            }),
    {
        if index < self.loops.len() {
            Some(self.loops[index])
        } else {
            None
        }
    }

    /// Tells the loop at `index` of an event and says what is to be done
    /// for it. The other loops stay as they are, and so do the jobs. Where
    /// there is no such loop, or the event cannot be taken, nothing changes
    /// and there is no result.
    pub fn step(&mut self, index: usize, event: LoopEvent) -> (r: Option<LoopAction>)
        ensures
            final(self)@.jobs == old(self)@.jobs,
            final(self).shared() == old(self).shared(),
            old(self)@.aligned() ==> final(self)@.aligned(),
            final(self)@ == old(self)@.stepped(index as int, event),
            match r {
                Some(action) => {
                    &&& index < old(self)@.loops.len()
                    &&& old(self)@.loops[index as int].in_range(event)
                    &&& action == old(self)@.loops[index as int].action(event)
                    &&& final(self)@.loops == old(self)@.loops.update(
                        index as int,
                        old(self)@.loops[index as int].next(event),
                    )
                },
                None => {
                    &&& !(index < old(self)@.loops.len() && old(self)@.loops[index as int].in_range(
                        event,
                    ))
                    &&& final(self)@.loops == old(self)@.loops
                },
            },
    {
        if index >= self.loops.len() {
            return None;
        }
        match self.loops[index].step(event) {
            Some((state, action)) => {
                self.loops.set(index, state);
                Some(action)
            },
            None => None,
        }
    }
}

} // verus!
