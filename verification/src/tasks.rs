//! Jobs: units of recurring work, and how one invocation of a job ends.
use vstd::prelude::*;

pub mod status_update;

verus! {

/// Why an invocation of a job failed.
#[derive(Clone, Copy, Debug, PartialEq, Eq, Structural)]
pub enum JobError {
    /// A collaborator could not be reached, or refused the request.
    NetworkError,
    /// A collaborator answered with something that is no answer.
    MalformedResponse,
    /// The messaging platform did not allow the action.
    PermissionDenied,
    /// The job was set up with values it cannot run with.
    ConfigurationError,
}

/// The failure that an HTTP status of a collaborator stands for: a
/// permission error where the status is 401 or 403, a network error for any
/// other status.
pub open spec fn status_failure(status: u16) -> JobError {
    if status == 401 || status == 403 {
        JobError::PermissionDenied
    } else {
        JobError::NetworkError
    }
}

/// Names the failure that an HTTP status of a collaborator stands for.
pub fn failure_for_status(status: u16) -> (e: JobError)
    ensures
        e == status_failure(status),
{
    if status == 401 || status == 403 {
        JobError::PermissionDenied
    } else {
        JobError::NetworkError
    }
}

/// How an invocation of a job ended.
pub type Outcome = Result<(), JobError>;

/// What a job does when it is invoked.
#[derive(Clone, Copy, Debug, PartialEq, Eq, Structural)]
pub enum JobKind {
    /// Reminds the members who have not sent today's status update, and
    /// reports to the roster service who has.
    StatusUpdateCheck,
}

/// A job as it is configured: not yet checked.
#[derive(Clone, Debug)]
pub struct JobConfig {
    pub name: String,
    /// The time from one invocation to the next, in ticks of the
    /// scheduler's clock.
    pub interval: i64,
    pub kind: JobKind,
}

/// A unit of recurring work: a name for the log, the time from one
/// invocation to the next, and what to do. The interval of a job is never
/// zero.
#[derive(Debug)]
pub struct Job {
    name: String,
    interval: u64,
    kind: JobKind,
}

/// What a job is made of, as plain values.
pub struct JobModel {
    pub name: Seq<char>,
    pub interval: nat,
    pub kind: JobKind,
}

/// The job that a configured job with a positive interval stands for.
pub open spec fn checked(config: JobConfig) -> JobModel {
    JobModel { name: config.name@, interval: config.interval as nat, kind: config.kind }
}

impl View for Job {
    type V = JobModel;

    closed spec fn view(&self) -> JobModel {
        JobModel { name: self.name@, interval: self.interval as nat, kind: self.kind }
    }
}

impl Job {
    #[verifier::type_invariant]
    spec fn positive_interval(&self) -> bool {
        self.interval > 0
    }

    /// Checks a configured job. An interval of zero or less is a
    /// configuration error; any other job is accepted as it is.
    pub fn new(config: &JobConfig) -> (r: Result<Job, JobError>)
        ensures
            match r {
                Ok(job) => config.interval > 0 && job@ == checked(*config),
                Err(e) => config.interval <= 0 && e == JobError::ConfigurationError,
            },
    {
        if config.interval <= 0 {
            Err(JobError::ConfigurationError)
        } else {
            Ok(
                Job {
                    name: config.name.clone(),
                    interval: config.interval as u64,
                    kind: config.kind,
                },
            )
        }
    }

    /// The name of the job, for the log.
    pub fn name(&self) -> (r: &str)
        ensures
            r@ == self@.name,
    {
        self.name.as_str()
    }

    /// The time from one invocation to the next.
    pub fn interval(&self) -> (r: u64)
        ensures
            r == self@.interval,
            r > 0,
    {
        proof {
            use_type_invariant(self);
        }
        self.interval
    }

    /// What the job does.
    pub fn kind(&self) -> (r: JobKind)
        ensures
            r == self@.kind,
    {
        self.kind
    }
}

} // verus!
