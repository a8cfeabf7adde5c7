//! What the pool guarantees, stated over runs of the abstract machine.

use vstd::prelude::*;
use crate::model::{lemma_census_zero, JoinStep, Phase, PoolState};
use crate::worker::WorkerState;

verus! {

/// One event in the life of a pool.
pub enum Step<J> {
    /// A caller submits a job.
    Submit(J),
    /// A worker asks the queue for its next job.
    Take(int),
    /// The job that a worker was running returns.
    Complete(int),
    /// The job that a worker was running fails.
    Fail(int),
    /// Teardown begins.
    Close,
    /// Teardown tries to join the next worker.
    Join,
}

impl<J> Step<J> {
    /// Whether the step is one that a worker takes in its service loop.
    pub open spec fn by_worker(self) -> bool {
        self is Take || self is Complete || self is Fail
    }
}

/// The jobs that `steps` submit, in order.
pub open spec fn offered<J>(steps: Seq<Step<J>>) -> Seq<J>
    decreases steps.len(),
{
    if steps.len() == 0 {
        Seq::empty()
    } else {
        match steps.last() {
            Step::Submit(job) => offered(steps.drop_last()).push(job),
            _ => offered(steps.drop_last()),
        }
    }
}

impl<J> PoolState<J> {
    /// Whether `step` can happen in this state: a worker asks for a job
    /// only while it waits, and a job returns or fails only while its
    /// worker runs it.
    pub open spec fn enabled(self, step: Step<J>) -> bool {
        match step {
            Step::Submit(_) => true,
            Step::Take(w) => self.waiting(w),
            Step::Complete(w) => self.running(w),
            Step::Fail(w) => self.running(w),
            Step::Close => true,
            Step::Join => true,
        }
    }

    /// The state after `step`.
    pub open spec fn next(self, step: Step<J>) -> Self {
        match step {
            Step::Submit(job) => self.submit(job),
            Step::Take(w) => self.take(w),
            Step::Complete(w) => self.complete(w),
            Step::Fail(w) => self.fail(w),
            Step::Close => self.close(),
            Step::Join => self.join(),
        }
    }

    /// The state after `steps`, taken in order.
    pub open spec fn run(self, steps: Seq<Step<J>>) -> Self
        decreases steps.len(),
    {
        if steps.len() == 0 {
            self
        } else {
            self.run(steps.drop_last()).next(steps.last())
        }
    }

    /// Whether `steps` can happen in order from this state: each step is
    /// enabled in the state that it meets.
    pub open spec fn admits(self, steps: Seq<Step<J>>) -> bool
        decreases steps.len(),
    {
        steps.len() == 0 || (self.admits(steps.drop_last()) && self.run(
            steps.drop_last(),
        ).enabled(steps.last()))
    }

    /// No step leads out of the invariant, and no step forgets what was
    /// recorded: an accepted job keeps its ticket, a job once taken stays
    /// with its worker, a job once done stays done, a closed queue stays
    /// closed.
    pub proof fn law_step(self, step: Step<J>)
        requires
            self.inv(),
            self.enabled(step),
        ensures
            self.next(step).inv(),
            self.precedes(self.next(step)),
    {
        match step {
            Step::Submit(job) => self.lemma_submit(job),
            Step::Take(w) => self.lemma_take(w),
            Step::Complete(w) => self.lemma_complete(w),
            Step::Fail(w) => self.lemma_fail(w),
            Step::Close => self.lemma_close(),
            Step::Join => self.lemma_join(),
        }
    }

    /// What holds of one step holds of any run.
    pub proof fn law_run(self, steps: Seq<Step<J>>)
        requires
            self.inv(),
            self.admits(steps),
        ensures
            self.run(steps).inv(),
            self.precedes(self.run(steps)),
        decreases steps.len(),
    {
        if steps.len() > 0 {
            let before = self.run(steps.drop_last());
            self.law_run(steps.drop_last());
            before.law_step(steps.last());
        }
    }

    /// Every state that a pool of `size` workers can reach satisfies the
    /// invariant, and has `size` workers.
    pub proof fn law_reachable(size: nat, steps: Seq<Step<J>>)
        requires
            size > 0,
            Self::init(size).admits(steps),
        ensures
            Self::init(size).run(steps).inv(),
            Self::init(size).run(steps).size() == size,
    {
        Self::lemma_init(size);
        Self::init(size).law_run(steps);
    }

    /// A job is in exactly one place. One that is still queued has been
    /// taken by nobody. One that has left the queue was taken by exactly
    /// one worker, and either has returned or is in that worker's hands,
    /// not both. No two workers ever hold the same job.
    pub proof fn law_one_taker(self, t: int)
        requires
            self.inv(),
            0 <= t < self.submitted.len(),
        ensures
            t >= self.started() ==> !self.done.contains(t) && forall|w: int|
                0 <= w < self.size() ==> !(#[trigger] self.workers[w]).holds(t),
            t < self.started() ==> {
                &&& 0 <= self.taken_by[t] < self.size()
                &&& self.done.contains(t) != self.workers[self.taken_by[t]].holds(t)
                &&& forall|w: int|
                    0 <= w < self.size() && (#[trigger] self.workers[w]).holds(t) ==> w
                        == self.taken_by[t]
            },
    {
        assert forall|w: int| 0 <= w < self.size() && (#[trigger] self.workers[w]).holds(
            t,
        ) implies self.in_hand(t, w) by {}
        if t < self.started() {
            let _ = self.taken_by[t];
        }
    }

    /// Jobs leave the queue in the order of their acceptance: the queue is
    /// what was accepted after the last job that was taken.
    pub proof fn law_fifo(self, k: int)
        requires
            self.inv(),
            0 <= k < self.pending().len(),
        ensures
            self.pending()[k] == self.submitted[self.started() + k],
            self.pending().len() + self.started() == self.submitted.len(),
    {
    }

    /// A worker runs one job at a time: of two jobs that the same worker
    /// took, the earlier one had returned before the later one was taken.
    pub proof fn law_one_at_a_time(self, t: int, u: int)
        requires
            self.inv(),
            0 <= t < u < self.started(),
            self.taken_by[t] == self.taken_by[u],
        ensures
            self.done.contains(t),
    {
        let w = self.taken_by[t];
        if self.workers[w].holds(t) {
            assert(self.in_hand(t, w));
        }
    }

    /// A pool with a single worker runs its jobs one after the other, in
    /// the order of submission: once a job has been taken, every job
    /// submitted before it has returned.
    pub proof fn law_single_worker_serializes(self, t: int, u: int)
        requires
            self.inv(),
            self.size() == 1,
            0 <= t < u < self.started(),
        ensures
            self.done.contains(t),
    {
        let _ = self.taken_by[t];
        let _ = self.taken_by[u];
        self.law_one_at_a_time(t, u);
    }

    /// Workers run in parallel: two waiting workers take two queued jobs
    /// one right after the other, and then both jobs are in progress at
    /// once, the older one with the worker that asked first.
    pub proof fn law_parallel(self, v: int, w: int)
        requires
            self.inv(),
            self.waiting(v),
            self.waiting(w),
            v != w,
            self.pending().len() >= 2,
        ensures
            self.take(v).waiting(w),
            self.take(v).take(w).workers[v] == Phase::Running(self.started() as int),
            self.take(v).take(w).workers[w] == Phase::Running(self.started() as int + 1),
            self.take(v).take(w).pending() =~= self.pending().skip(2),
    {
        self.lemma_take(v);
        self.take(v).lemma_take(w);
    }

    /// Once teardown has joined every worker, every job that was ever
    /// accepted has been taken by a worker and has returned, and nothing
    /// is left in the queue.
    pub proof fn law_teardown_drains(self)
        requires
            self.inv(),
            self.torn_down(),
        ensures
            !self.open,
            self.pending().len() == 0,
            self.started() == self.submitted.len(),
            forall|t: int| 0 <= t < self.submitted.len() ==> self.done.contains(t),
            forall|w: int| 0 <= w < self.size() ==> (#[trigger] self.workers[w]) is Terminated,
            self.work_left() == 0,
    {
        assert(self.workers[0] is Terminated);
        assert forall|t: int| 0 <= t < self.submitted.len() implies self.done.contains(t) by {
            let w = self.taken_by[t];
            assert(self.workers[w] is Terminated);
        }
        lemma_census_zero(self.workers, WorkerState::Waiting);
        lemma_census_zero(self.workers, WorkerState::Running);
    }

    /// The same, of a whole life: however a pool of `size` workers was
    /// used, if its teardown has completed then each accepted job was
    /// taken once, by one worker, and has returned.
    pub proof fn law_every_job_runs_once(size: nat, steps: Seq<Step<J>>)
        requires
            size > 0,
            Self::init(size).admits(steps),
            Self::init(size).run(steps).torn_down(),
        ensures
            ({
                let end = Self::init(size).run(steps);
                &&& end.taken_by.len() == end.submitted.len()
                &&& forall|t: int|
                    0 <= t < end.submitted.len() ==> {
                        &&& end.done.contains(t)
                        &&& 0 <= #[trigger] end.taken_by[t] < size
                    }
            }),
    {
        Self::law_reachable(size, steps);
        let end = Self::init(size).run(steps);
        end.law_teardown_drains();
        assert forall|t: int| 0 <= t < end.submitted.len() implies {
            &&& end.done.contains(t)
            &&& 0 <= #[trigger] end.taken_by[t] < size
        } by {}
    }

    /// While the queue is open and no worker is lost, every submitted job
    /// is accepted, in the order of submission: after a run that loses no
    /// worker and leaves the queue open, the accepted jobs are those
    /// accepted before, followed by the jobs that the run submitted.
    pub proof fn law_open_pool_accepts_all(self, steps: Seq<Step<J>>)
        requires
            self.inv(),
            self.live() > 0,
            self.admits(steps),
            self.run(steps).open,
            forall|i: int| 0 <= i < steps.len() ==> !((#[trigger] steps[i]) is Fail),
        ensures
            self.run(steps).submitted == self.submitted + offered(steps),
            self.run(steps).live() == self.live(),
        decreases steps.len(),
    {
        if steps.len() > 0 {
            let body = steps.drop_last();
            let before = self.run(body);
            assert forall|i: int| 0 <= i < body.len() implies !((#[trigger] body[i]) is Fail) by {
                assert(body[i] == steps[i]);
            }
            assert(!(steps[steps.len() - 1] is Fail));
            self.law_run(body);
            before.law_step(steps.last());
            self.law_open_pool_accepts_all(body);
            match steps.last() {
                Step::Take(w) => before.lemma_take(w),
                Step::Complete(w) => before.lemma_complete(w),
                _ => {},
            }
            assert(self.run(steps).submitted =~= self.submitted + offered(steps));
        } else {
            assert(self.submitted =~= self.submitted + offered(steps));
        }
    }

    /// Once the queue is closed it stays closed, and no job is accepted
    /// any more: whatever happens next, the accepted jobs are the ones
    /// accepted before.
    pub proof fn law_closed_accepts_nothing(self, steps: Seq<Step<J>>)
        requires
            self.inv(),
            !self.open,
            self.admits(steps),
        ensures
            !self.run(steps).open,
            self.run(steps).submitted == self.submitted,
        decreases steps.len(),
    {
        if steps.len() > 0 {
            self.law_closed_accepts_nothing(steps.drop_last());
        }
    }

    /// Nothing is joined while the queue is open: teardown closes the
    /// queue first.
    pub proof fn law_close_before_join(self)
        requires
            self.inv(),
            self.open,
        ensures
            self.joined == 0,
            self.join() == self,
            forall|w: int| 0 <= w < self.size() ==> !((#[trigger] self.workers[w]) is Terminated),
    {
        if self.joined > 0 {
            assert(self.workers[0] is Terminated);
        }
    }

    /// Closing twice is closing once.
    pub proof fn law_close_is_idempotent(self)
        ensures
            self.close().close() == self.close(),
    {
    }

    /// A closed queue keeps no worker waiting: each step of a worker uses
    /// up some of the work that is left, so that after a run of worker
    /// steps as long as the work that was left, every worker has exited.
    pub proof fn law_drain_is_bounded(self, steps: Seq<Step<J>>)
        requires
            self.inv(),
            !self.open,
            self.admits(steps),
            forall|i: int| 0 <= i < steps.len() ==> (#[trigger] steps[i]).by_worker(),
        ensures
            steps.len() + self.run(steps).work_left() <= self.work_left(),
        decreases steps.len(),
    {
        if steps.len() > 0 {
            let body = steps.drop_last();
            assert forall|i: int| 0 <= i < body.len() implies (#[trigger] body[i]).by_worker() by {
                assert(body[i] == steps[i]);
            }
            self.law_drain_is_bounded(body);
            self.law_closed_accepts_nothing(body);
            self.law_run(body);
            let before = self.run(body);
            match steps.last() {
                Step::Take(w) => before.lemma_take(w),
                Step::Complete(w) => before.lemma_complete(w),
                Step::Fail(w) => before.lemma_fail(w),
                _ => {},
            }
        }
    }

    /// When no work is left, nothing is queued and no worker is in its
    /// service loop any more.
    pub proof fn law_no_work_left(self)
        requires
            self.inv(),
            self.work_left() == 0,
        ensures
            self.pending().len() == 0,
            self.live() == 0,
            forall|w: int|
                0 <= w < self.size() ==> !(#[trigger] self.workers[w]).state().live(),
    {
        lemma_census_zero(self.workers, WorkerState::Waiting);
        lemma_census_zero(self.workers, WorkerState::Running);
    }

    /// Teardown cannot get stuck while no worker has been lost: after the
    /// queue is closed, either every worker has been joined, or the next
    /// worker in line can be joined, or it is still in its service loop,
    /// where its next step is enabled and uses up work that is left.
    pub proof fn law_no_deadlock(self)
        requires
            self.inv(),
            !self.open,
            forall|w: int| 0 <= w < self.size() ==> !((#[trigger] self.workers[w]) is Failed),
        ensures
            match self.join_step() {
                JoinStep::Complete => self.torn_down(),
                JoinStep::Joined(_) => self.join().joined == self.joined + 1,
                JoinStep::Busy(_) => {
                    let w = self.joined as int;
                    &&& self.waiting(w) || self.running(w)
                    &&& self.waiting(w) ==> self.take(w).work_left() < self.work_left()
                    &&& self.running(w) ==> self.complete(w).work_left() < self.work_left()
                },
                _ => false,
            },
    {
        if self.joined < self.size() {
            let w = self.joined as int;
            let _ = self.workers[w];
            if self.waiting(w) {
                self.lemma_take(w);
            }
            if self.running(w) {
                self.lemma_complete(w);
            }
        }
    }

    /// A pool that never got a job tears down at once: after closure each
    /// worker is told to leave the first time it asks.
    pub proof fn law_idle_pool_exits(self, w: int)
        requires
            self.inv(),
            !self.open,
            self.submitted.len() == 0,
            self.waiting(w),
        ensures
            self.take(w).workers[w] == Phase::Terminated,
            self.take(w).live() + 1 == self.live(),
    {
        self.lemma_take(w);
    }

    /// Losing workers only ever shrinks the pool: no step adds a live
    /// worker.
    pub proof fn law_capacity_never_grows(self, step: Step<J>)
        requires
            self.inv(),
            self.enabled(step),
        ensures
            self.next(step).live() <= self.live(),
            self.next(step).size() == self.size(),
    {
        match step {
            Step::Take(w) => self.lemma_take(w),
            Step::Complete(w) => self.lemma_complete(w),
            Step::Fail(w) => self.lemma_fail(w),
            _ => {},
        }
    }
}

} // verus!
