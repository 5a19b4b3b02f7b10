//! Job dispatch for the render service: the queue and per-job state
//! machine behind `submit`, modelled and verified apart from the thread
//! pool that drives it.
//!
//! A job moves Queued → Dispatched → Computing → {Succeeded | Failed |
//! Cancelled} → ResultDelivered; a completion is consumed exactly once.
//! Strict submission order is preserved at ingress: the dispatcher always
//! claims the oldest still-queued job. Submission after the queue is torn
//! down fails immediately rather than blocking.

use vstd::prelude::*;

verus! {

/// Errors that can occur during execution.
#[derive(Clone, Debug)]
pub enum Error {
    /// A request that can never succeed: unknown format name, empty or
    /// inverted region, zero-sized raster. Surfaced pre-computation.
    InvalidArgument(String),
    /// A coordinate unrepresentable in the chosen format; aborts the whole
    /// request before parallel work starts.
    ConversionOutOfRange(String),
    /// The caller withdrew interest mid-computation; distinct from failure,
    /// and no partial image is returned.
    Cancelled,
    /// Submission after service shutdown; surfaced synchronously, never
    /// enqueued.
    ServiceUnavailable,
    /// Any other internal failure.
    Internal(String),
}

/// The lifecycle of one submitted job.
#[derive(Clone, Copy, Debug, PartialEq, Eq, Structural)]
pub enum JobState {
    Queued,
    Dispatched,
    Computing,
    Succeeded,
    Failed,
    Cancelled,
    ResultDelivered,
}

/// The terminal computation outcomes a worker can report.
#[derive(Clone, Copy, Debug, PartialEq, Eq, Structural)]
pub enum JobOutcome {
    Succeeded,
    Failed,
    Cancelled,
}

/// The job state recorded for an outcome.
pub open spec fn outcome_state(o: JobOutcome) -> JobState {
    match o {
        JobOutcome::Succeeded => JobState::Succeeded,
        JobOutcome::Failed => JobState::Failed,
        JobOutcome::Cancelled => JobState::Cancelled,
    }
}

/// Is a job at a terminal computation outcome, awaiting delivery?
pub open spec fn is_terminal(s: JobState) -> bool {
    s == JobState::Succeeded || s == JobState::Failed || s == JobState::Cancelled
}

/// The oldest still-queued job at or after index i.
pub open spec fn first_queued_from(jobs: Seq<JobState>, i: int) -> Option<int>
    decreases jobs.len() - i,
{
    if i < 0 || i >= jobs.len() {
        None
    } else if jobs[i] == JobState::Queued {
        Some(i)
    } else {
        first_queued_from(jobs, i + 1)
    }
}

/// The verified core of the render service's dispatcher: the inbound
/// queue's job states and the open/closed flag. The surrounding threads
/// hold the job payloads and completion handles; every state transition
/// they make goes through this machine.
pub struct ServiceQueue {
    jobs: Vec<JobState>,
    open: bool,
}

impl ServiceQueue {
    /// The recorded job states, in submission order.
    pub closed spec fn view(&self) -> Seq<JobState> {
        self.jobs@
    }

    /// Is the queue still accepting submissions?
    pub closed spec fn is_open(&self) -> bool {
        self.open
    }

    /// A fresh, open queue with no jobs.
    pub fn new() -> (r: ServiceQueue)
        ensures
            r@ =~= Seq::<JobState>::empty(),
            r.is_open(),
    {
        ServiceQueue { jobs: Vec::new(), open: true }
    }

    /// How many jobs have ever been submitted.
    pub fn len(&self) -> (r: usize)
        ensures
            r == self@.len(),
    {
        self.jobs.len()
    }

    /// The state of one job.
    pub fn state_of(&self, id: usize) -> (r: JobState)
        requires
            id < self@.len(),
        ensures
            r == self@[id as int],
    {
        self.jobs[id]
    }

    /// Submit a job: enqueued in submission order while the queue is open;
    /// fails immediately with ServiceUnavailable after teardown.
    pub fn submit(&mut self) -> (res: Result<usize, Error>)
        requires
            old(self)@.len() < usize::MAX,
        ensures
            old(self).is_open() ==> (res matches Ok(id) && id == old(self)@.len() && final (self)@
                =~= old(self)@.push(JobState::Queued) && final (self).is_open()),
            !old(self).is_open() ==> (res matches Err(e) && e matches Error::ServiceUnavailable)
                && final (self)@ == old(self)@ && !final (self).is_open(),
    {
        if !self.open {
            return Err(Error::ServiceUnavailable);
        }
        let id = self.jobs.len();
        self.jobs.push(JobState::Queued);
        Ok(id)
    }

    /// The dispatcher claims the oldest still-queued job, if any, marking
    /// it Dispatched.
    pub fn claim(&mut self) -> (res: Option<usize>)
        ensures
            final (self).is_open() == old(self).is_open(),
            match res {
                Some(id) => first_queued_from(old(self)@, 0) == Some(id as int) && final (self)@
                    =~= old(self)@.update(id as int, JobState::Dispatched),
                None => first_queued_from(old(self)@, 0) is None && final (self)@ == old(self)@,
            },
    {
        let n = self.jobs.len();
        let mut i: usize = 0;
        while i < n
            invariant
                n == self@.len(),
                0 <= i <= n,
                *self == *old(self),
                first_queued_from(self@, 0) == first_queued_from(self@, i as int),
            decreases n - i,
        {
            if matches!(self.jobs[i], JobState::Queued) {
                self.jobs.set(i, JobState::Dispatched);
                return Some(i);
            }
            i = i + 1;
        }
        None
    }

    /// A worker begins computing a claimed job.
    pub fn start(&mut self, id: usize)
        requires
            id < old(self)@.len(),
            old(self)@[id as int] == JobState::Dispatched,
        ensures
            final (self)@ =~= old(self)@.update(id as int, JobState::Computing),
            final (self).is_open() == old(self).is_open(),
    {
        self.jobs.set(id, JobState::Computing);
    }

    /// A worker reports a job's terminal outcome.
    pub fn finish(&mut self, id: usize, outcome: JobOutcome)
        requires
            id < old(self)@.len(),
            old(self)@[id as int] == JobState::Computing,
        ensures
            final (self)@ =~= old(self)@.update(id as int, outcome_state(outcome)),
            final (self).is_open() == old(self).is_open(),
    {
        match outcome {
            JobOutcome::Succeeded => self.jobs.set(id, JobState::Succeeded),
            JobOutcome::Failed => self.jobs.set(id, JobState::Failed),
            JobOutcome::Cancelled => self.jobs.set(id, JobState::Cancelled),
        }
    }

    /// The caller consumes a completed job's result: allowed exactly once,
    /// and only from a terminal outcome.
    pub fn deliver(&mut self, id: usize)
        requires
            id < old(self)@.len(),
            is_terminal(old(self)@[id as int]),
        ensures
            final (self)@ =~= old(self)@.update(id as int, JobState::ResultDelivered),
            final (self).is_open() == old(self).is_open(),
    {
        self.jobs.set(id, JobState::ResultDelivered);
    }

    /// Tear the queue down: no further submission is accepted.
    pub fn close(&mut self)
        ensures
            final (self)@ == old(self)@,
            !final (self).is_open(),
    {
        self.open = false;
    }
}

} // verus!
