//! The pool itself: a fixed set of workers around one queue of jobs.

use std::collections::VecDeque;
use vstd::prelude::*;
use crate::model::{lemma_census_split, Fetch, JoinStep, PoolState};
use crate::worker::{Worker, WorkerEvent, WorkerState};

verus! {

/// Why a job was not accepted. The job comes back to the caller.
#[derive(Debug)]
pub enum SubmitError<J> {
    /// Teardown has begun: the queue is closed.
    Closed(J),
    /// Every worker has been lost to a failed job: nobody is left to take
    /// the job.
    NoWorker(J),
}

impl<J> PoolState<J> {
    /// What a caller that submits `job` is told.
    pub open spec fn verdict(self, job: J) -> Result<(), SubmitError<J>> {
        if !self.open {
            Err(SubmitError::Closed(job))
        } else if self.live() == 0 {
            Err(SubmitError::NoWorker(job))
        } else {
            Ok(())
        }
    }
}

/// A pool of workers that take jobs of type `J` from a shared queue, oldest
/// first.
///
/// The pool decides; it does not run anything. The owner of the threads
/// calls [`ThreadPool::next_job`] for a waiting worker and does what the
/// answer says, reports the outcome of a job with [`ThreadPool::complete`]
/// or [`ThreadPool::fail`], and at teardown calls [`ThreadPool::shutdown`]
/// and then [`ThreadPool::join_next`] until every worker is joined.
pub struct ThreadPool<J> {
    workers: Vec<Worker>,
    queue: VecDeque<J>,
    open: bool,
    live: usize,
    joined: usize,
    model: Ghost<PoolState<J>>,
}

impl<J> View for ThreadPool<J> {
    type V = PoolState<J>;

    closed spec fn view(&self) -> PoolState<J> {
        self.model@
    }
}

impl<J> ThreadPool<J> {
    /// The pool's fields agree with its abstract state, and that state is
    /// one the pool can reach.
    pub closed spec fn wf(&self) -> bool {
        &&& self.model@.inv()
        &&& self.workers@.len() == self.model@.workers.len()
        &&& forall|w: int|
            0 <= w < self.workers@.len() ==> {
                &&& (#[trigger] self.workers@[w]).index() == w
                &&& self.workers@[w].phase() == self.model@.workers[w].state()
            }
        &&& self.queue@ == self.model@.pending()
        &&& self.open == self.model@.open
        &&& self.live == self.model@.live()
        &&& self.joined == self.model@.joined
    }

    /// A well-formed pool is in a state that satisfies the invariant of
    /// the abstract machine, so that everything proved of such states holds
    /// of the pool.
    pub proof fn invariant_holds(&self)
        requires
            self.wf(),
        ensures
            self@.inv(),
    {
    }

    /// Creates a pool of `size` workers, each waiting for its first job.
    /// The queue is open and empty.
    pub fn new(size: usize) -> (pool: Self)
        requires
            size > 0,
        ensures
            pool.wf(),
            pool@ == PoolState::<J>::init(size as nat),
            pool@.size() == size,
            pool@.live() == size,
            forall|w: int| 0 <= w < size ==> pool@.waiting(w),
    {
        let mut workers: Vec<Worker> = Vec::with_capacity(size);
        let mut id: usize = 0;
        while id < size
            invariant
                id <= size,
                workers@.len() == id,
                forall|w: int|
                    0 <= w < id ==> {
                        &&& (#[trigger] workers@[w]).index() == w
                        &&& workers@[w].phase() == WorkerState::Waiting
                    },
            decreases size - id,
        {
            workers.push(Worker::new(id));
            id = id + 1;
        }
        proof {
            PoolState::<J>::lemma_init(size as nat);
        }
        ThreadPool {
            workers,
            queue: VecDeque::new(),
            open: true,
            live: size,
            joined: 0,
            model: Ghost(PoolState::init(size as nat)),
        }
    }

    /// Submits `job`. If the pool is accepting, the job goes to the back
    /// of the queue. If teardown has begun, or no worker is left, the job
    /// comes back and nothing changes.
    pub fn execute(&mut self, job: J) -> (accepted: Result<(), SubmitError<J>>)
        requires
            old(self).wf(),
        ensures
            final(self).wf(),
            final(self)@ == old(self)@.submit(job),
            accepted == old(self)@.verdict(job),
    {
        proof {
            self.model@.lemma_submit(job);
        }
        if !self.open {
            Err(SubmitError::Closed(job))
        } else if self.live == 0 {
            Err(SubmitError::NoWorker(job))
        } else {
            self.model = Ghost(self.model@.submit(job));
            self.queue.push_back(job);
            Ok(())
        }
    }

    /// Worker `worker`, waiting, asks for its next job. It gets the oldest
    /// queued job and is running from then on; or is told to keep waiting,
    /// if nothing is queued and the queue is open; or is told to leave, and
    /// counts as terminated, if nothing is queued and the queue is closed.
    pub fn next_job(&mut self, worker: usize) -> (answer: Fetch<J>)
        requires
            old(self).wf(),
            old(self)@.waiting(worker as int),
        ensures
            final(self).wf(),
            final(self)@ == old(self)@.take(worker as int),
            answer == old(self)@.fetch(worker as int),
    {
        proof {
            self.model@.lemma_take(worker as int);
            lemma_census_bound_live(self.model@);
        }
        match self.queue.pop_front() {
            Some(job) => {
                self.apply(worker, WorkerEvent::JobReceived);
                self.model = Ghost(self.model@.take(worker as int));
                Fetch::Job(job)
            },
            None => {
                if self.open {
                    Fetch::Idle
                } else {
                    self.apply(worker, WorkerEvent::QueueClosed);
                    self.live = self.live - 1;
                    self.model = Ghost(self.model@.take(worker as int));
                    Fetch::Shutdown
                }
            },
        }
    }

    /// Applies `event` to worker `worker` and touches nothing else.
    fn apply(&mut self, worker: usize, event: WorkerEvent)
        requires
            worker < old(self).workers@.len(),
        ensures
            final(self).workers@.len() == old(self).workers@.len(),
            final(self).workers@[worker as int].index() == old(self).workers@[worker as int].index(),
            final(self).workers@[worker as int].phase() == old(self).workers@[worker as int].phase().after(
                event,
            ),
            forall|w: int|
                0 <= w < old(self).workers@.len() && w != worker ==> final(self).workers@[w] == old(
                    self,
                ).workers@[w],
            final(self).queue == old(self).queue,
            final(self).open == old(self).open,
            final(self).live == old(self).live,
            final(self).joined == old(self).joined,
            final(self).model == old(self).model,
    {
        let mut changed = self.workers[worker];
        let _ = changed.step(event);
        self.workers.set(worker, changed);
    }

    /// The job that worker `worker` was running has returned: the job is
    /// done and the worker waits again.
    pub fn complete(&mut self, worker: usize)
        requires
            old(self).wf(),
            old(self)@.running(worker as int),
        ensures
            final(self).wf(),
            final(self)@ == old(self)@.complete(worker as int),
    {
        proof {
            self.model@.lemma_complete(worker as int);
        }
        self.apply(worker, WorkerEvent::JobReturned);
        self.model = Ghost(self.model@.complete(worker as int));
    }

    /// The job that worker `worker` was running has failed and taken the
    /// worker's thread with it. The worker is lost and is not replaced.
    pub fn fail(&mut self, worker: usize)
        requires
            old(self).wf(),
            old(self)@.running(worker as int),
        ensures
            final(self).wf(),
            final(self)@ == old(self)@.fail(worker as int),
    {
        proof {
            self.model@.lemma_fail(worker as int);
            lemma_census_bound_live(self.model@);
        }
        self.apply(worker, WorkerEvent::JobFailed);
        self.live = self.live - 1;
        self.model = Ghost(self.model@.fail(worker as int));
    }

    /// Begins teardown: closes the queue. Jobs already queued stay queued
    /// and will be taken; no further job is accepted. Closing a closed
    /// queue changes nothing.
    pub fn shutdown(&mut self)
        requires
            old(self).wf(),
        ensures
            final(self).wf(),
            final(self)@ == old(self)@.close(),
    {
        proof {
            self.model@.lemma_close();
        }
        self.open = false;
        self.model = Ghost(self.model@.close());
    }

    /// Tries to join the next worker, in the order of construction. Only a
    /// worker that has terminated is joined; the answer says what was found
    /// otherwise, and then nothing changes.
    pub fn join_next(&mut self) -> (step: JoinStep)
        requires
            old(self).wf(),
        ensures
            final(self).wf(),
            final(self)@ == old(self)@.join(),
            step == old(self)@.join_step(),
    {
        proof {
            self.model@.lemma_join();
        }
        if self.open {
            JoinStep::StillOpen
        } else if self.joined >= self.workers.len() {
            JoinStep::Complete
        } else {
            let id = self.joined;
            match self.workers[id].state() {
                WorkerState::Terminated => {
                    self.joined = id + 1;
                    self.model = Ghost(self.model@.join());
                    JoinStep::Joined(id)
                },
                WorkerState::Failed => JoinStep::Lost(id),
                _ => JoinStep::Busy(id),
            }
        }
    }

    /// The number of workers, fixed at construction.
    pub fn size(&self) -> (size: usize)
        requires
            self.wf(),
        ensures
            size == self@.size(),
            size > 0,
    {
        self.workers.len()
    }

    /// Whether the queue is open: teardown has not begun.
    pub fn is_open(&self) -> (open: bool)
        requires
            self.wf(),
        ensures
            open == self@.open,
    {
        self.open
    }

    /// The number of queued jobs that no worker has taken yet.
    pub fn pending(&self) -> (pending: usize)
        requires
            self.wf(),
        ensures
            pending == self@.pending().len(),
    {
        self.queue.len()
    }

    /// The number of workers that still have a thread in the service loop.
    pub fn live_workers(&self) -> (live: usize)
        requires
            self.wf(),
        ensures
            live == self@.live(),
    {
        self.live
    }

    /// The number of workers that teardown has joined.
    pub fn joined(&self) -> (joined: usize)
        requires
            self.wf(),
        ensures
            joined == self@.joined,
    {
        self.joined
    }

    /// Whether teardown has joined every worker.
    pub fn is_torn_down(&self) -> (torn_down: bool)
        requires
            self.wf(),
        ensures
            torn_down == self@.torn_down(),
    {
        self.joined == self.workers.len()
    }

    /// The state of worker `worker`, if the pool has such a worker.
    pub fn worker_state(&self, worker: usize) -> (state: Option<WorkerState>)
        requires
            self.wf(),
        ensures
            state == if worker < self@.size() {
                Some(self@.workers[worker as int].state())
            } else {
                None
            },
    {
        if worker < self.workers.len() {
            Some(self.workers[worker].state())
        } else {
            None
        }
    }
}

/// The live workers are no more than the workers.
proof fn lemma_census_bound_live<J>(s: PoolState<J>)
    ensures
        s.live() <= s.workers.len(),
{
    lemma_census_split(s.workers);
}

} // verus!
