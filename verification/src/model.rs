//! The abstract machine that the pool implements.
//!
//! A state records the workers, every job that was ever accepted, which
//! worker took which job, and which jobs have returned. A job is known by its
//! ticket: its position in the order of acceptance. The queue is not stored:
//! it is what was accepted and not yet taken.

use vstd::prelude::*;
use crate::worker::WorkerState;

verus! {

/// What a worker is doing, with the ticket of the job that it has in hand.
pub enum Phase {
    /// Blocked on the queue.
    Waiting,
    /// Invoking the job with this ticket.
    Running(int),
    /// Gone, after the queue was closed and drained.
    Terminated,
    /// Gone, killed by the job with this ticket.
    Failed(int),
}

impl Phase {
    /// The phase without its ticket.
    pub open spec fn state(self) -> WorkerState {
        match self {
            Phase::Waiting => WorkerState::Waiting,
            Phase::Running(_) => WorkerState::Running,
            Phase::Terminated => WorkerState::Terminated,
            Phase::Failed(_) => WorkerState::Failed,
        }
    }

    /// Whether the worker took the job with ticket `t` and the job has not
    /// returned.
    pub open spec fn holds(self, t: int) -> bool {
        self == Phase::Running(t) || self == Phase::Failed(t)
    }
}

/// How many of `workers` are in `state`.
pub open spec fn census(workers: Seq<Phase>, state: WorkerState) -> nat
    decreases workers.len(),
{
    if workers.len() == 0 {
        0
    } else {
        let rest = census(workers.drop_last(), state);
        if workers.last().state() == state {
            rest + 1
        } else {
            rest
        }
    }
}

/// What the queue answers a worker that asks for its next job.
#[derive(Debug)]
pub enum Fetch<J> {
    /// The oldest job in the queue, now the worker's to invoke.
    Job(J),
    /// Nothing is queued and the queue is open: block until that changes.
    Idle,
    /// Nothing is queued and the queue is closed: leave the service loop.
    Shutdown,
}

/// One step of joining the workers at teardown.
#[derive(Clone, Copy, Debug, PartialEq, Eq, Structural)]
pub enum JoinStep {
    /// The queue is still open. A worker would wait on it forever, so
    /// nothing may be joined yet.
    StillOpen,
    /// The next worker in line is still in its service loop.
    Busy(usize),
    /// The next worker in line had terminated and is now joined.
    Joined(usize),
    /// The next worker in line was lost to a failed job: it cannot be
    /// joined, and teardown cannot complete.
    Lost(usize),
    /// Every worker has been joined.
    Complete,
}

/// A state of the pool.
pub struct PoolState<J> {
    /// The workers, in the order of their construction.
    pub workers: Seq<Phase>,
    /// Every job that was accepted, in the order of acceptance.
    pub submitted: Seq<J>,
    /// For each job handed out so far, the index of the worker that took
    /// it. Jobs leave the queue in the order of their tickets.
    pub taken_by: Seq<int>,
    /// The tickets of the jobs that have returned.
    pub done: Set<int>,
    /// Whether the queue still accepts jobs.
    pub open: bool,
    /// How many workers teardown has joined, counted from the first.
    pub joined: nat,
}

/// The states are disjoint: counted state by state, the workers add up.
pub proof fn lemma_census_split(workers: Seq<Phase>)
    ensures
        census(workers, WorkerState::Waiting) + census(workers, WorkerState::Running) + census(
            workers,
            WorkerState::Terminated,
        ) + census(workers, WorkerState::Failed) == workers.len(),
    decreases workers.len(),
{
    if workers.len() > 0 {
        lemma_census_split(workers.drop_last());
    }
}

impl<J> PoolState<J> {
    /// A fresh pool of `size` workers: all waiting, nothing submitted.
    pub open spec fn init(size: nat) -> Self {
        PoolState {
            workers: Seq::new(size, |i: int| Phase::Waiting),
            submitted: Seq::empty(),
            taken_by: Seq::empty(),
            done: Set::empty(),
            open: true,
            joined: 0,
        }
    }

    /// The number of workers.
    pub open spec fn size(self) -> nat {
        self.workers.len()
    }

    /// How many jobs have been handed to a worker.
    pub open spec fn started(self) -> nat {
        self.taken_by.len()
    }

    /// The queue: the accepted jobs that no worker has taken, oldest first.
    pub open spec fn pending(self) -> Seq<J> {
        self.submitted.skip(self.started() as int)
    }

    /// How many workers still have a thread in the service loop.
    pub open spec fn live(self) -> nat {
        census(self.workers, WorkerState::Waiting) + census(self.workers, WorkerState::Running)
    }

    /// Whether a job submitted now is accepted: the queue is open and a
    /// worker is left to take the job.
    pub open spec fn accepting(self) -> bool {
        self.open && self.live() > 0
    }

    /// Whether worker `w` is blocked on the queue.
    pub open spec fn waiting(self, w: int) -> bool {
        0 <= w < self.workers.len() && self.workers[w] is Waiting
    }

    /// Whether worker `w` is invoking a job.
    pub open spec fn running(self, w: int) -> bool {
        0 <= w < self.workers.len() && self.workers[w] is Running
    }

    /// Whether teardown has joined every worker.
    pub open spec fn torn_down(self) -> bool {
        self.joined == self.workers.len()
    }

    /// An upper bound on the worker events that can still happen once the
    /// queue is closed: two for each queued job (take, return), and for
    /// each worker what its own state allows.
    pub open spec fn work_left(self) -> nat {
        2 * self.pending().len() + census(self.workers, WorkerState::Waiting) + 2 * census(
            self.workers,
            WorkerState::Running,
        )
    }

    /// Submission of `job`: appended to the queue if the pool is accepting,
    /// else nothing changes.
    pub open spec fn submit(self, job: J) -> Self {
        if self.accepting() {
            PoolState { submitted: self.submitted.push(job), ..self }
        } else {
            self
        }
    }

    /// What worker `w` is told when it asks for its next job.
    pub open spec fn fetch(self, w: int) -> Fetch<J> {
        if self.pending().len() > 0 {
            Fetch::Job(self.pending()[0])
        } else if self.open {
            Fetch::Idle
        } else {
            Fetch::Shutdown
        }
    }

    /// Worker `w`, waiting, asks for its next job: it takes the oldest
    /// queued job, or keeps waiting on an open queue, or terminates on a
    /// closed one.
    pub open spec fn take(self, w: int) -> Self {
        if self.pending().len() > 0 {
            PoolState {
                workers: self.workers.update(w, Phase::Running(self.started() as int)),
                taken_by: self.taken_by.push(w),
                ..self
            }
        } else if self.open {
            self
        } else {
            PoolState { workers: self.workers.update(w, Phase::Terminated), ..self }
        }
    }

    /// The job that worker `w` was running has returned.
    pub open spec fn complete(self, w: int) -> Self {
        match self.workers[w] {
            Phase::Running(t) => PoolState {
                workers: self.workers.update(w, Phase::Waiting),
                done: self.done.insert(t),
                ..self
            },
            _ => self,
        }
    }

    /// The job that worker `w` was running has failed: the worker is lost.
    pub open spec fn fail(self, w: int) -> Self {
        match self.workers[w] {
            Phase::Running(t) => PoolState {
                workers: self.workers.update(w, Phase::Failed(t)),
                ..self
            },
            _ => self,
        }
    }

    /// Teardown begins: the queue is closed, for good.
    pub open spec fn close(self) -> Self {
        PoolState { open: false, ..self }
    }

    /// What an attempt to join the next worker finds.
    pub open spec fn join_step(self) -> JoinStep {
        if self.open {
            JoinStep::StillOpen
        } else if self.joined >= self.workers.len() {
            JoinStep::Complete
        } else {
            match self.workers[self.joined as int] {
                Phase::Terminated => JoinStep::Joined(self.joined as usize),
                Phase::Failed(_) => JoinStep::Lost(self.joined as usize),
                _ => JoinStep::Busy(self.joined as usize),
            }
        }
    }

    /// An attempt to join the next worker: it counts as joined if it had
    /// terminated, else nothing changes.
    pub open spec fn join(self) -> Self {
        if self.join_step() is Joined {
            PoolState { joined: self.joined + 1, ..self }
        } else {
            self
        }
    }

    /// What holds of every state that the pool can reach.
    pub open spec fn inv(self) -> bool {
        &&& self.workers.len() > 0
        &&& self.taken_by.len() <= self.submitted.len()
        &&& self.joined <= self.workers.len()
        &&& self.done_were_taken()
        &&& self.taken_are_accounted_for()
        &&& self.holders_are_recorded()
        &&& self.exits_are_clean()
        &&& self.joined_have_exited()
    }

    /// Only a job that a worker took can have returned.
    pub open spec fn done_were_taken(self) -> bool {
        forall|t: int| #[trigger] self.done.contains(t) ==> 0 <= t < self.taken_by.len()
    }

    /// Every job that left the queue went to a worker of this pool, and
    /// either has returned or is still in that worker's hands.
    pub open spec fn taken_are_accounted_for(self) -> bool {
        forall|t: int|
            0 <= t < self.taken_by.len() ==> {
                &&& 0 <= #[trigger] self.taken_by[t] < self.workers.len()
                &&& self.done.contains(t) || self.workers[self.taken_by[t]].holds(t)
            }
    }

    /// Worker `w` took the job with ticket `t`, the job has not returned,
    /// and the worker has taken no job since.
    pub open spec fn in_hand(self, t: int, w: int) -> bool {
        &&& 0 <= t < self.taken_by.len()
        &&& self.taken_by[t] == w
        &&& !self.done.contains(t)
        &&& forall|u: int| t < u < self.taken_by.len() ==> #[trigger] self.taken_by[u] != w
    }

    /// A worker holds only a job that it took itself and that has not
    /// returned.
    pub open spec fn holders_are_recorded(self) -> bool {
        forall|w: int|
            0 <= w < self.workers.len() ==> match #[trigger] self.workers[w] {
                Phase::Running(t) => self.in_hand(t, w),
                Phase::Failed(t) => self.in_hand(t, w),
                _ => true,
            }
    }

    /// A worker terminates only when the queue is closed and empty.
    pub open spec fn exits_are_clean(self) -> bool {
        forall|w: int|
            0 <= w < self.workers.len() && (#[trigger] self.workers[w]) is Terminated ==> {
                &&& !self.open
                &&& self.taken_by.len() == self.submitted.len()
            }
    }

    /// Teardown joins the workers in order, and only terminated ones.
    pub open spec fn joined_have_exited(self) -> bool {
        forall|w: int| 0 <= w < self.joined ==> (#[trigger] self.workers[w]) is Terminated
    }

    /// `later` can come after `self`: what was recorded stays recorded.
    pub open spec fn precedes(self, later: Self) -> bool {
        &&& later.workers.len() == self.workers.len()
        &&& self.submitted.is_prefix_of(later.submitted)
        &&& self.taken_by.is_prefix_of(later.taken_by)
        &&& self.done.subset_of(later.done)
        &&& later.open ==> self.open
        &&& self.joined <= later.joined
    }
}

/// No more workers are in a state than there are workers.
pub proof fn lemma_census_bound(workers: Seq<Phase>, state: WorkerState)
    ensures
        census(workers, state) <= workers.len(),
    decreases workers.len(),
{
    if workers.len() > 0 {
        lemma_census_bound(workers.drop_last(), state);
    }
}

/// A worker that changes its phase leaves the count of its old state and
/// joins that of its new one.
pub proof fn lemma_census_update(workers: Seq<Phase>, w: int, phase: Phase, state: WorkerState)
    requires
        0 <= w < workers.len(),
    ensures
        census(workers.update(w, phase), state) + (if workers[w].state() == state {
            1nat
        } else {
            0nat
        }) == census(workers, state) + (if phase.state() == state {
            1nat
        } else {
            0nat
        }),
    decreases workers.len(),
{
    let changed = workers.update(w, phase);
    if w == workers.len() - 1 {
        assert(changed.drop_last() =~= workers.drop_last());
    } else {
        assert(changed.drop_last() =~= workers.drop_last().update(w, phase));
        lemma_census_update(workers.drop_last(), w, phase, state);
    }
}

/// The count of a state is zero exactly if no worker is in it.
pub proof fn lemma_census_zero(workers: Seq<Phase>, state: WorkerState)
    ensures
        census(workers, state) == 0 <==> forall|w: int|
            0 <= w < workers.len() ==> (#[trigger] workers[w]).state() != state,
    decreases workers.len(),
{
    if workers.len() > 0 {
        let rest = workers.drop_last();
        lemma_census_zero(rest, state);
        if census(workers, state) == 0 {
            assert forall|w: int| 0 <= w < workers.len() implies (#[trigger] workers[w]).state()
                != state by {
                if w < workers.len() - 1 {
                    assert(rest[w] == workers[w]);
                }
            }
        } else if workers.last().state() != state {
            let w = choose|w: int| 0 <= w < rest.len() && (#[trigger] rest[w]).state() == state;
            assert(workers[w] == rest[w]);
        }
    }
}

/// The count of a state is the number of workers exactly if all of them
/// are in it.
pub proof fn lemma_census_all(workers: Seq<Phase>, state: WorkerState)
    ensures
        census(workers, state) == workers.len() <==> forall|w: int|
            0 <= w < workers.len() ==> (#[trigger] workers[w]).state() == state,
    decreases workers.len(),
{
    if workers.len() > 0 {
        let rest = workers.drop_last();
        lemma_census_all(rest, state);
        lemma_census_bound(rest, state);
        if census(workers, state) == workers.len() {
            assert forall|w: int| 0 <= w < workers.len() implies (#[trigger] workers[w]).state()
                == state by {
                if w < workers.len() - 1 {
                    assert(rest[w] == workers[w]);
                }
            }
        } else if workers.last().state() == state {
            let w = choose|w: int| 0 <= w < rest.len() && (#[trigger] rest[w]).state() != state;
            assert(workers[w] == rest[w]);
        }
    }
}

impl<J> PoolState<J> {
    /// A fresh pool is in order: every worker is live and waiting, and
    /// nothing is queued.
    pub proof fn lemma_init(size: nat)
        requires
            size > 0,
        ensures
            Self::init(size).inv(),
            Self::init(size).size() == size,
            Self::init(size).live() == size,
            Self::init(size).pending() =~= Seq::<J>::empty(),
            Self::init(size).work_left() == size,
            forall|w: int| 0 <= w < size ==> Self::init(size).waiting(w),
    {
        let s = Self::init(size);
        lemma_census_all(s.workers, WorkerState::Waiting);
        lemma_census_zero(s.workers, WorkerState::Running);
    }

    /// Submission keeps the pool in order. An accepted job goes to the back
    /// of the queue.
    pub proof fn lemma_submit(self, job: J)
        requires
            self.inv(),
        ensures
            self.submit(job).inv(),
            self.precedes(self.submit(job)),
            self.accepting() ==> self.submit(job).pending() =~= self.pending().push(job),
            !self.accepting() ==> self.submit(job) == self,
    {
    }

    /// A waiting worker that asks for a job keeps the pool in order.
    pub proof fn lemma_take(self, w: int)
        requires
            self.inv(),
            self.waiting(w),
        ensures
            self.take(w).inv(),
            self.precedes(self.take(w)),
            self.fetch(w) is Job ==> self.take(w).pending() =~= self.pending().skip(1),
            !(self.fetch(w) is Job) ==> self.take(w).pending() == self.pending(),
            self.fetch(w) is Job ==> self.take(w).live() == self.live(),
            self.fetch(w) is Job ==> self.take(w).work_left() + 1 == self.work_left(),
            self.fetch(w) is Idle ==> self.take(w) == self,
            self.fetch(w) is Shutdown ==> self.take(w).live() + 1 == self.live(),
            self.fetch(w) is Shutdown ==> self.take(w).work_left() + 1 == self.work_left(),
    {
        if self.pending().len() > 0 {
            let t = self.started() as int;
            lemma_census_update(self.workers, w, Phase::Running(t), WorkerState::Waiting);
            lemma_census_update(self.workers, w, Phase::Running(t), WorkerState::Running);
        } else if !self.open {
            lemma_census_update(self.workers, w, Phase::Terminated, WorkerState::Waiting);
            lemma_census_update(self.workers, w, Phase::Terminated, WorkerState::Running);
        }
    }

    /// The return of a job keeps the pool in order and frees the worker.
    pub proof fn lemma_complete(self, w: int)
        requires
            self.inv(),
            self.running(w),
        ensures
            self.complete(w).inv(),
            self.precedes(self.complete(w)),
            self.complete(w).waiting(w),
            self.complete(w).pending() == self.pending(),
            self.complete(w).live() == self.live(),
            self.complete(w).work_left() + 1 == self.work_left(),
    {
        lemma_census_update(self.workers, w, Phase::Waiting, WorkerState::Waiting);
        lemma_census_update(self.workers, w, Phase::Waiting, WorkerState::Running);
    }

    /// The loss of a worker keeps the pool in order: the job stays in the
    /// lost worker's hands.
    pub proof fn lemma_fail(self, w: int)
        requires
            self.inv(),
            self.running(w),
        ensures
            self.fail(w).inv(),
            self.precedes(self.fail(w)),
            self.fail(w).pending() == self.pending(),
            self.fail(w).live() + 1 == self.live(),
            self.fail(w).work_left() + 2 == self.work_left(),
    {
        let t = self.workers[w]->Running_0;
        lemma_census_update(self.workers, w, Phase::Failed(t), WorkerState::Waiting);
        lemma_census_update(self.workers, w, Phase::Failed(t), WorkerState::Running);
    }

    /// Closing the queue keeps the pool in order and touches nothing else.
    pub proof fn lemma_close(self)
        requires
            self.inv(),
        ensures
            self.close().inv(),
            self.precedes(self.close()),
            !self.open ==> self.close() == self,
    {
    }

    /// A step of joining keeps the pool in order.
    pub proof fn lemma_join(self)
        requires
            self.inv(),
        ensures
            self.join().inv(),
            self.precedes(self.join()),
            !(self.join_step() is Joined) ==> self.join() == self,
    {
    }
}

} // verus!
