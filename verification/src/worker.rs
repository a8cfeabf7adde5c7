//! One worker of the pool: an identity and a place in the service loop.

use vstd::prelude::*;

verus! {

/// Where a worker stands in its service loop.
#[derive(Clone, Copy, Debug, PartialEq, Eq, Structural)]
pub enum WorkerState {
    /// Blocked on the queue, ready to take the next job.
    Waiting,
    /// Invoking a job it took from the queue.
    Running,
    /// Left the loop because the queue was closed and drained.
    Terminated,
    /// Lost: the job it was invoking did not return.
    Failed,
}

/// What can happen to a worker.
#[derive(Clone, Copy, Debug, PartialEq, Eq, Structural)]
pub enum WorkerEvent {
    /// The queue handed the worker a job.
    JobReceived,
    /// The queue reported that it is closed and holds nothing.
    QueueClosed,
    /// The job in hand returned.
    JobReturned,
    /// The job in hand failed and took the thread with it.
    JobFailed,
}

impl WorkerState {
    /// A live worker still has a thread in the service loop.
    pub open spec fn live(self) -> bool {
        self is Waiting || self is Running
    }

    /// Whether `event` can happen to a worker in this state.
    pub open spec fn enabled(self, event: WorkerEvent) -> bool {
        match event {
            WorkerEvent::JobReceived | WorkerEvent::QueueClosed => self is Waiting,
            WorkerEvent::JobReturned | WorkerEvent::JobFailed => self is Running,
        }
    }

    /// The state that `event` leads to. An event that is not enabled leaves
    /// the state as it is.
    pub open spec fn after(self, event: WorkerEvent) -> WorkerState {
        if !self.enabled(event) {
            self
        } else {
            match event {
                WorkerEvent::JobReceived => WorkerState::Running,
                WorkerEvent::QueueClosed => WorkerState::Terminated,
                WorkerEvent::JobReturned => WorkerState::Waiting,
                WorkerEvent::JobFailed => WorkerState::Failed,
            }
        }
    }

    /// How many of its own events a worker in this state can still see at
    /// most before it has to take a new job: two while it runs (return, then
    /// the next answer of the queue), one while it waits, none once it is gone.
    pub open spec fn weight(self) -> nat {
        match self {
            WorkerState::Waiting => 1,
            WorkerState::Running => 2,
            WorkerState::Terminated | WorkerState::Failed => 0,
        }
    }

    /// Whether the worker still has a thread in the service loop.
    pub fn is_live(self) -> (live: bool)
        ensures
            live == self.live(),
    {
        match self {
            WorkerState::Waiting | WorkerState::Running => true,
            WorkerState::Terminated | WorkerState::Failed => false,
        }
    }
}

/// A worker: its index in the pool and its state.
#[derive(Clone, Copy, Debug)]
pub struct Worker {
    id: usize,
    state: WorkerState,
}

impl Worker {
    /// The worker's index in its pool.
    pub closed spec fn index(&self) -> usize {
        self.id
    }

    /// The worker's place in the service loop.
    pub closed spec fn phase(&self) -> WorkerState {
        self.state
    }

    /// A worker with index `id`, about to ask the queue for its first job.
    pub fn new(id: usize) -> (worker: Worker)
        ensures
            worker.index() == id,
            worker.phase() == WorkerState::Waiting,
    {
        Worker { id, state: WorkerState::Waiting }
    }

    /// The worker's index in its pool.
    pub fn id(&self) -> (id: usize)
        ensures
            id == self.index(),
    {
        self.id
    }

    /// The worker's place in the service loop.
    pub fn state(&self) -> (state: WorkerState)
        ensures
            state == self.phase(),
    {
        self.state
    }

    /// Applies `event` to the worker. An event that cannot happen in the
    /// worker's state is refused and changes nothing.
    pub fn step(&mut self, event: WorkerEvent) -> (accepted: bool)
        ensures
            accepted == old(self).phase().enabled(event),
            final(self).phase() == old(self).phase().after(event),
            final(self).index() == old(self).index(),
    {
        let next = match (self.state, event) {
            (WorkerState::Waiting, WorkerEvent::JobReceived) => Some(WorkerState::Running),
            (WorkerState::Waiting, WorkerEvent::QueueClosed) => Some(WorkerState::Terminated),
            (WorkerState::Running, WorkerEvent::JobReturned) => Some(WorkerState::Waiting),
            (WorkerState::Running, WorkerEvent::JobFailed) => Some(WorkerState::Failed),
            _ => None,
        };
        match next {
            Some(state) => {
                self.state = state;
                true
            },
            None => false,
        }
    }
}

} // verus!
