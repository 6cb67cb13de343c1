use amd::context::ReactionRoles;
use amd::scheduler::{
    default_jobs, ExecutionLoop, JobRegistry, LoopAction, LoopEvent, Phase, Scheduler, DAY,
};
use amd::tasks::{Job, JobConfig, JobError, JobKind};
use amd::Data;
use std::sync::Arc;
use tracing_subscriber::{reload, EnvFilter, Registry};

fn context() -> Arc<Data> {
    let (_layer, handle): (reload::Layer<EnvFilter, Registry>, _) =
        reload::Layer::new(EnvFilter::new("info"));
    Arc::new(Data {
        reaction_roles: ReactionRoles::new(),
        log_reload_handle: Arc::new(tokio::sync::RwLock::new(handle)),
    })
}

fn config(name: &str, interval: i64) -> JobConfig {
    JobConfig { name: name.to_string(), interval, kind: JobKind::StatusUpdateCheck }
}

fn registry(intervals: &[i64]) -> JobRegistry {
    let configs: Vec<JobConfig> =
        intervals.iter().enumerate().map(|(i, d)| config(&format!("job{}", i), *d)).collect();
    JobRegistry::build(&configs).unwrap()
}

/// Drives every loop as a punctual caller would, up to and including the
/// instant `horizon`; each invocation takes `duration` and ends as
/// `outcome`. Returns how often each job was invoked and when.
fn drive(
    scheduler: &mut Scheduler,
    actions: Vec<LoopAction>,
    horizon: u64,
    duration: u64,
    outcome: Result<(), JobError>,
) -> Vec<Vec<u64>> {
    let mut invoked: Vec<Vec<u64>> = vec![Vec::new(); actions.len()];
    for (index, first) in actions.into_iter().enumerate() {
        let mut action = first;
        let mut now = 0u64;
        loop {
            match action {
                LoopAction::Sleep { until } | LoopAction::Record { until, .. } => {
                    if until > horizon {
                        break;
                    }
                    now = now.max(until);
                    action = scheduler.step(index, LoopEvent::Woke { now }).unwrap();
                }
                LoopAction::Invoke => {
                    invoked[index].push(now);
                    now += duration;
                    action = scheduler.step(index, LoopEvent::Resolved { now, outcome }).unwrap();
                }
                LoopAction::Ignore => panic!("a punctual caller is never ignored"),
            }
        }
    }
    invoked
}

#[test]
fn job_with_positive_interval_is_accepted() {
    let job = Job::new(&config("daily", 5)).unwrap();
    assert_eq!(job.name(), "daily");
    assert_eq!(job.interval(), 5);
    assert_eq!(job.kind(), JobKind::StatusUpdateCheck);
    assert_eq!(Job::new(&config("long", i64::MAX)).unwrap().interval(), i64::MAX as u64);
}

#[test]
fn job_with_zero_or_negative_interval_is_a_configuration_error() {
    assert_eq!(Job::new(&config("never", 0)).err(), Some(JobError::ConfigurationError));
    assert_eq!(Job::new(&config("back", -1)).err(), Some(JobError::ConfigurationError));
    assert_eq!(Job::new(&config("back", i64::MIN)).err(), Some(JobError::ConfigurationError));
}

#[test]
fn registry_keeps_the_jobs_in_order() {
    let r = JobRegistry::build(&vec![config("a", 1), config("b", 3), config("c", 2)]).unwrap();
    assert_eq!(r.len(), 3);
    assert_eq!(r.job(0).unwrap().name(), "a");
    assert_eq!(r.job(1).unwrap().name(), "b");
    assert_eq!(r.job(1).unwrap().interval(), 3);
    assert_eq!(r.job(2).unwrap().name(), "c");
    assert!(r.job(3).is_none());
}

#[test]
fn registry_with_one_invalid_job_is_not_built() {
    assert_eq!(
        JobRegistry::build(&vec![config("a", 1), config("b", 0), config("c", 2)]).err(),
        Some(JobError::ConfigurationError)
    );
    assert_eq!(
        JobRegistry::build(&vec![config("a", -5)]).err(),
        Some(JobError::ConfigurationError)
    );
}

#[test]
fn empty_registry_is_built() {
    assert_eq!(JobRegistry::build(&vec![]).unwrap().len(), 0);
}

#[test]
fn default_jobs_hold_the_daily_status_update_check() {
    let configs = default_jobs();
    assert_eq!(configs.len(), 1);
    assert_eq!(configs[0].name, "status_update_check");
    assert_eq!(configs[0].interval, 86_400_000);
    assert_eq!(DAY, 24 * 60 * 60 * 1000);
    let registry = JobRegistry::build(&configs).unwrap();
    assert_eq!(registry.job(0).unwrap().interval(), 86_400_000);
}

#[test]
fn start_puts_every_loop_to_sleep_for_its_own_interval() {
    let shared = context();
    let (scheduler, actions) = Scheduler::start(registry(&[1, 3]), shared.clone(), 100).unwrap();
    assert_eq!(
        actions,
        vec![LoopAction::Sleep { until: 101 }, LoopAction::Sleep { until: 103 }]
    );
    assert_eq!(scheduler.len(), 2);
    assert_eq!(
        scheduler.state(0),
        Some(ExecutionLoop { interval: 1, phase: Phase::Waiting, next_tick: 101 })
    );
    assert_eq!(
        scheduler.state(1),
        Some(ExecutionLoop { interval: 3, phase: Phase::Waiting, next_tick: 103 })
    );
    assert_eq!(scheduler.state(2), None);
    assert_eq!(scheduler.job(1).unwrap().name(), "job1");
    assert!(scheduler.job(2).is_none());
    assert!(Arc::ptr_eq(scheduler.context(), &shared));
}

#[test]
fn start_invokes_no_job() {
    let (mut scheduler, actions) = Scheduler::start(registry(&[5, 7, 9]), context(), 0).unwrap();
    assert!(actions.iter().all(|a| matches!(a, LoopAction::Sleep { .. })));
    for now in 0..5 {
        for index in 0..3 {
            let action = scheduler.step(index, LoopEvent::Woke { now }).unwrap();
            assert!(matches!(action, LoopAction::Sleep { .. }));
        }
    }
    assert_eq!(scheduler.step(0, LoopEvent::Woke { now: 5 }), Some(LoopAction::Invoke));
    assert_eq!(scheduler.step(1, LoopEvent::Woke { now: 5 }), Some(LoopAction::Sleep { until: 7 }));
}

#[test]
fn start_of_nothing_starts_nothing() {
    let (scheduler, actions) = Scheduler::start(registry(&[]), context(), 5).unwrap();
    assert_eq!(actions, vec![]);
    assert_eq!(scheduler.len(), 0);
}

#[test]
fn start_beyond_the_clock_starts_nothing() {
    assert!(Scheduler::start(registry(&[1, 3]), context(), u64::MAX - 2).is_none());
    assert!(Scheduler::start(registry(&[1, 3]), context(), u64::MAX - 3).is_some());
}

#[test]
fn failing_job_ticks_again_after_exactly_one_interval() {
    let n = 6;
    let (mut scheduler, actions) = Scheduler::start(registry(&[10]), context(), 0).unwrap();
    let invoked = drive(
        &mut scheduler,
        actions,
        10 * (n + 1),
        0,
        Err(JobError::NetworkError),
    );
    assert_eq!(invoked[0], vec![10, 20, 30, 40, 50, 60, 70]);
    assert_eq!(invoked[0].len() as u64, n + 1);
}

#[test]
fn failure_is_recorded_and_the_loop_sleeps_on() {
    let (mut scheduler, _) = Scheduler::start(registry(&[10]), context(), 0).unwrap();
    assert_eq!(scheduler.step(0, LoopEvent::Woke { now: 10 }), Some(LoopAction::Invoke));
    for error in [
        JobError::NetworkError,
        JobError::MalformedResponse,
        JobError::PermissionDenied,
        JobError::ConfigurationError,
    ] {
        let mut copy = scheduler.state(0).unwrap();
        let (next, action) =
            copy.step(LoopEvent::Resolved { now: 12, outcome: Err(error) }).unwrap();
        assert_eq!(action, LoopAction::Record { outcome: Err(error), until: 20 });
        assert_eq!(next, ExecutionLoop { interval: 10, phase: Phase::Waiting, next_tick: 20 });
        copy = next;
        assert_eq!(copy.step(LoopEvent::Woke { now: 20 }).unwrap().1, LoopAction::Invoke);
    }
    let ok = scheduler.step(0, LoopEvent::Resolved { now: 12, outcome: Ok(()) });
    assert_eq!(ok, Some(LoopAction::Record { outcome: Ok(()), until: 20 }));
}

#[test]
fn jobs_with_different_intervals_keep_their_own_cadence() {
    let (mut scheduler, actions) = Scheduler::start(registry(&[1, 3]), context(), 0).unwrap();
    let invoked = drive(&mut scheduler, actions, 3, 0, Ok(()));
    assert_eq!(invoked[0], vec![1, 2, 3]);
    assert_eq!(invoked[1], vec![3]);
}

#[test]
fn cadence_counts_whole_intervals_since_the_start() {
    let (mut scheduler, actions) = Scheduler::start(registry(&[4, 7, 100]), context(), 50).unwrap();
    let invoked = drive(&mut scheduler, actions, 99, 1, Ok(()));
    assert_eq!(invoked[0].len(), 12);
    assert_eq!(invoked[1].len(), 7);
    assert_eq!(invoked[2].len(), 0);
    assert_eq!(invoked[1], vec![57, 64, 71, 78, 85, 92, 99]);
}

#[test]
fn one_loop_does_not_touch_another() {
    let (mut scheduler, _) = Scheduler::start(registry(&[1, 3]), context(), 0).unwrap();
    let other = scheduler.state(1);
    scheduler.step(0, LoopEvent::Woke { now: 1 }).unwrap();
    scheduler.step(0, LoopEvent::Resolved { now: 1, outcome: Err(JobError::PermissionDenied) }).unwrap();
    assert_eq!(scheduler.state(1), other);
    assert_eq!(scheduler.job(1).unwrap().interval(), 3);
}

#[test]
fn overlong_invocation_is_followed_at_once_without_catching_up() {
    let state = ExecutionLoop { interval: 10, phase: Phase::Running, next_tick: 10 };
    let (next, action) = state.step(LoopEvent::Resolved { now: 47, outcome: Ok(()) }).unwrap();
    assert_eq!(action, LoopAction::Record { outcome: Ok(()), until: 47 });
    assert_eq!(next, ExecutionLoop { interval: 10, phase: Phase::Waiting, next_tick: 47 });
    let (running, action) = next.step(LoopEvent::Woke { now: 47 }).unwrap();
    assert_eq!(action, LoopAction::Invoke);
    let (after, _) = running.step(LoopEvent::Resolved { now: 48, outcome: Ok(()) }).unwrap();
    assert_eq!(after.next_tick, 57);
}

#[test]
fn late_wake_up_runs_and_keeps_the_tick() {
    let state = ExecutionLoop { interval: 10, phase: Phase::Waiting, next_tick: 10 };
    let (running, action) = state.step(LoopEvent::Woke { now: 13 }).unwrap();
    assert_eq!(action, LoopAction::Invoke);
    assert_eq!(running, ExecutionLoop { interval: 10, phase: Phase::Running, next_tick: 10 });
    let (after, _) = running.step(LoopEvent::Resolved { now: 14, outcome: Ok(()) }).unwrap();
    assert_eq!(after.next_tick, 20);
}

#[test]
fn events_that_do_not_concern_the_loop_are_ignored() {
    let idle = ExecutionLoop::new(4);
    assert_eq!(idle, ExecutionLoop { interval: 4, phase: Phase::Idle, next_tick: 0 });
    assert_eq!(idle.step(LoopEvent::Woke { now: 9 }), Some((idle, LoopAction::Ignore)));
    assert_eq!(
        idle.step(LoopEvent::Resolved { now: 9, outcome: Ok(()) }),
        Some((idle, LoopAction::Ignore))
    );
    let waiting = ExecutionLoop { interval: 4, phase: Phase::Waiting, next_tick: 8 };
    assert_eq!(waiting.step(LoopEvent::Spawned { now: 9 }), Some((waiting, LoopAction::Ignore)));
    assert_eq!(
        waiting.step(LoopEvent::Resolved { now: 9, outcome: Ok(()) }),
        Some((waiting, LoopAction::Ignore))
    );
    let running = ExecutionLoop { interval: 4, phase: Phase::Running, next_tick: 8 };
    assert_eq!(running.step(LoopEvent::Spawned { now: 9 }), Some((running, LoopAction::Ignore)));
    assert_eq!(running.step(LoopEvent::Woke { now: 9 }), Some((running, LoopAction::Ignore)));
}

#[test]
fn tick_beyond_the_clock_is_not_taken() {
    let idle = ExecutionLoop::new(4);
    assert_eq!(idle.step(LoopEvent::Spawned { now: u64::MAX - 3 }), None);
    assert_eq!(
        idle.step(LoopEvent::Spawned { now: u64::MAX - 4 }).unwrap().0.next_tick,
        u64::MAX
    );
    let running = ExecutionLoop { interval: 4, phase: Phase::Running, next_tick: u64::MAX - 3 };
    assert_eq!(running.step(LoopEvent::Resolved { now: 0, outcome: Ok(()) }), None);
    let (mut scheduler, _) = Scheduler::start(registry(&[4]), context(), u64::MAX - 4).unwrap();
    assert_eq!(scheduler.step(0, LoopEvent::Woke { now: u64::MAX }), Some(LoopAction::Invoke));
    let before = scheduler.state(0);
    assert_eq!(scheduler.step(0, LoopEvent::Resolved { now: u64::MAX, outcome: Ok(()) }), None);
    assert_eq!(scheduler.state(0), before);
}

#[test]
fn step_for_a_loop_that_is_not_there_changes_nothing() {
    let (mut scheduler, _) = Scheduler::start(registry(&[4]), context(), 0).unwrap();
    let before = scheduler.state(0);
    assert_eq!(scheduler.step(1, LoopEvent::Woke { now: 4 }), None);
    assert_eq!(scheduler.state(0), before);
}
