//! The worker-pool protocol: what a pool of a given size is made of, what
//! each worker does with a message, and how many terminate signals a
//! shutdown owes. The threads, channel and locks themselves live in the
//! embedding application; the decisions live here.

use vstd::prelude::*;

verus! {

/// What travels down the shared queue: a job, or the order to stop.
pub enum PoolMessage<J> {
    NewJob(J),
    Terminate,
}

/// What a worker does next: run the job it drew, or stop.
pub enum WorkerStep<J> {
    Run(J),
    Stop,
}

/// The worker loop's one decision: a job is run, the terminate signal
/// stops the worker, nothing else.
pub fn worker_dispatch<J>(message: PoolMessage<J>) -> (r: WorkerStep<J>)
    ensures
        r == (match message {
            PoolMessage::NewJob(j) => WorkerStep::Run(j),
            PoolMessage::Terminate => WorkerStep::<J>::Stop,
        }),
{
    match message {
        PoolMessage::NewJob(job) => WorkerStep::Run(job),
        PoolMessage::Terminate => WorkerStep::Stop,
    }
}

/// The shape of a worker pool: how many workers it runs. A pool of zero
/// workers is a fatal misconfiguration and is ruled out up front; the
/// embedding application must check the size before building one.
pub struct PoolPlan {
    pub size: usize,
}

impl PoolPlan {
    /// Plans a pool. Zero workers would accept jobs that nothing ever
    /// runs, so zero is excluded outright.
    pub fn new(size: usize) -> (r: PoolPlan)
        requires
            size > 0,
        ensures
            r.size == size,
    {
        PoolPlan { size }
    }

    /// The worker identifiers, one per worker, counted from zero.
    pub fn worker_ids(&self) -> (r: Vec<usize>)
        ensures
            r@.len() == self.size,
            forall|i: int| 0 <= i < r@.len() ==> r@[i] == i,
    {
        let mut ids: Vec<usize> = Vec::new();
        let mut id: usize = 0;
        while id < self.size
            invariant
                0 <= id <= self.size,
                ids@.len() == id,
                forall|i: int| 0 <= i < ids@.len() ==> ids@[i] == i,
            decreases self.size - id,
        {
            ids.push(id);
            id += 1;
        }
        ids
    }

    /// How many terminate signals a shutdown sends: exactly one per
    /// worker, so every worker is told to stop and joined.
    pub fn terminate_count(&self) -> (r: usize)
        ensures
            r == self.size,
    {
        self.size
    }
}

} // verus!
