//! The pool as a mathematical state machine.
//!
//! A `PoolView` is everything that can be said about a pool at one instant:
//! whether it still accepts jobs, what each worker is doing, which jobs wait,
//! and the history of what was submitted, started and finished. An `Event` is
//! one atomic thing that can happen to it. The executable pool promises, call
//! by call, that it moves exactly as `PoolView::step` says.

use crate::worker::{JobOutcome, WorkerAction};
use vstd::multiset::Multiset;
use vstd::prelude::*;
use vstd::seq_lib::to_multiset_build;

verus! {

/// The life cycle of a pool. It only ever moves forward.
#[derive(Clone, Copy, Debug, PartialEq, Eq, Structural)]
pub enum PoolState {
    /// Jobs can be submitted.
    Accepting,
    /// No more submissions; jobs already accepted still run to completion.
    Draining,
    /// Every worker has exited.
    Stopped,
}

/// One worker as the pool sees it.
pub struct WorkerView<J> {
    /// False once the worker has seen the closure signal and left its loop.
    pub running: bool,
    /// The job the worker is executing right now, if any.
    pub current: Option<J>,
}

/// One atomic occurrence in the life of a pool.
pub enum Event<J> {
    /// A producer submits a job.
    Submit(J),
    /// The owner begins shutdown.
    Shutdown,
    /// The worker with this index asks the queue for work.
    Dispatch(int),
    /// The worker with this index reports that its job has ended.
    Complete(int, JobOutcome),
}

/// The abstract state of a pool.
#[verifier::ext_equal]
pub struct PoolView<J> {
    /// True while the producer side of the queue exists.
    pub open: bool,
    /// The workers, by index. The length never changes.
    pub workers: Seq<WorkerView<J>>,
    /// Jobs accepted but not yet handed to a worker, oldest first.
    pub pending: Seq<J>,
    /// Every job ever accepted, in order of submission.
    pub submitted: Seq<J>,
    /// Every job ever handed to a worker, in order of hand-out.
    pub started: Seq<J>,
    /// Every job whose execution has ended, in order of completion.
    pub finished: Seq<J>,
    /// How many of the finished jobs ended in failure.
    pub failures: nat,
}

/// The jobs a worker slot contributes to the set of jobs in flight.
pub open spec fn slot_jobs<J>(current: Option<J>) -> Multiset<J> {
    match current {
        Some(job) => Multiset::singleton(job),
        None => Multiset::empty(),
    }
}

/// The jobs that are being executed right now, over all workers.
pub open spec fn in_flight<J>(workers: Seq<WorkerView<J>>) -> Multiset<J>
    decreases workers.len(),
{
    if workers.len() == 0 {
        Multiset::empty()
    } else {
        in_flight(workers.drop_last()).add(slot_jobs(workers.last().current))
    }
}

impl<J> PoolView<J> {
    /// A fresh pool of `size` idle, running workers.
    pub open spec fn init(size: nat) -> Self {
        PoolView {
            open: true,
            workers: Seq::new(size, |i: int| WorkerView { running: true, current: None }),
            pending: Seq::empty(),
            submitted: Seq::empty(),
            started: Seq::empty(),
            finished: Seq::empty(),
            failures: 0,
        }
    }

    /// Whether `w` names a worker of this pool.
    pub open spec fn has_worker(self, w: int) -> bool {
        0 <= w < self.workers.len()
    }

    /// Whether worker `w` is in its loop and has no job: the only moment at
    /// which it asks the queue for work.
    pub open spec fn is_waiting(self, w: int) -> bool {
        self.has_worker(w) && self.workers[w].running && self.workers[w].current is None
    }

    /// Whether worker `w` is executing a job.
    pub open spec fn is_busy(self, w: int) -> bool {
        self.has_worker(w) && self.workers[w].current is Some
    }

    /// Whether every worker has left its loop.
    pub open spec fn all_exited(self) -> bool {
        forall|w: int| 0 <= w < self.workers.len() ==> !(#[trigger] self.workers[w]).running
    }

    /// Where the pool stands in its life cycle.
    pub open spec fn state(self) -> PoolState {
        if self.open {
            PoolState::Accepting
        } else if self.all_exited() {
            PoolState::Stopped
        } else {
            PoolState::Draining
        }
    }

    /// Whether `event` can happen in this state.
    pub open spec fn enabled(self, event: Event<J>) -> bool {
        match event {
            Event::Submit(_) => self.open,
            Event::Shutdown => true,
            Event::Dispatch(w) => self.is_waiting(w),
            Event::Complete(w, _) => self.is_busy(w),
        }
    }

    /// What a waiting worker is told when it asks for work: run the oldest
    /// pending job; wait, if nothing is pending and more may come; exit, if
    /// nothing is pending and the queue is closed.
    pub open spec fn action(self) -> WorkerAction<J> {
        if self.pending.len() > 0 {
            WorkerAction::Run(self.pending[0])
        } else if self.open {
            WorkerAction::Wait
        } else {
            WorkerAction::Exit
        }
    }

    /// The state after a producer has submitted `job`.
    pub open spec fn submit(self, job: J) -> Self {
        PoolView { pending: self.pending.push(job), submitted: self.submitted.push(job), ..self }
    }

    /// The state after shutdown has begun.
    pub open spec fn close(self) -> Self {
        PoolView { open: false, ..self }
    }

    /// The state after worker `w` has asked for work.
    pub open spec fn dispatch(self, w: int) -> Self {
        match self.action() {
            WorkerAction::Run(job) => PoolView {
                workers: self.workers.update(w, WorkerView { running: true, current: Some(job) }),
                pending: self.pending.drop_first(),
                started: self.started.push(job),
                ..self
            },
            WorkerAction::Wait => self,
            WorkerAction::Exit => PoolView {
                workers: self.workers.update(w, WorkerView { running: false, current: None }),
                ..self
            },
        }
    }

    /// The state after worker `w` has reported the end of its job.
    pub open spec fn complete(self, w: int, outcome: JobOutcome) -> Self {
        PoolView {
            workers: self.workers.update(
                w,
                WorkerView { running: self.workers[w].running, current: None },
            ),
            finished: self.finished.push(self.workers[w].current->0),
            failures: if outcome is Failed {
                self.failures + 1
            } else {
                self.failures
            },
            ..self
        }
    }

    /// The state after `event`.
    pub open spec fn step(self, event: Event<J>) -> Self {
        match event {
            Event::Submit(job) => self.submit(job),
            Event::Shutdown => self.close(),
            Event::Dispatch(w) => self.dispatch(w),
            Event::Complete(w, outcome) => self.complete(w, outcome),
        }
    }

    /// What holds of a pool at every instant of its life.
    pub open spec fn inv(self) -> bool {
        &&& self.workers.len() > 0
        &&& self.started + self.pending =~= self.submitted
        &&& self.started.to_multiset() =~= self.finished.to_multiset().add(in_flight(self.workers))
        &&& self.failures <= self.finished.len()
        &&& forall|w: int|
            0 <= w < self.workers.len() && !(#[trigger] self.workers[w]).running ==> {
                &&& self.workers[w].current is None
                &&& !self.open
                &&& self.pending.len() == 0
            }
    }
}

/// The state of a pool of `size` workers after `events` have happened to it,
/// in order.
pub open spec fn run<J>(size: nat, events: Seq<Event<J>>) -> PoolView<J>
    decreases events.len(),
{
    if events.len() == 0 {
        PoolView::init(size)
    } else {
        run(size, events.drop_last()).step(events.last())
    }
}

/// Whether `events` is a history: each event was enabled in the state that
/// the events before it had led to.
pub open spec fn admissible<J>(size: nat, events: Seq<Event<J>>) -> bool
    decreases events.len(),
{
    events.len() == 0 || {
        &&& admissible(size, events.drop_last())
        &&& run(size, events.drop_last()).enabled(events.last())
    }
}

/// The jobs submitted in the course of `events`, in order.
pub open spec fn submissions<J>(events: Seq<Event<J>>) -> Seq<J>
    decreases events.len(),
{
    if events.len() == 0 {
        Seq::empty()
    } else {
        match events.last() {
            Event::Submit(job) => submissions(events.drop_last()).push(job),
            _ => submissions(events.drop_last()),
        }
    }
}

/// A history grows by one event as the pool takes one step.
pub proof fn lemma_history_push<J>(size: nat, events: Seq<Event<J>>, event: Event<J>)
    ensures
        run(size, events.push(event)) == run(size, events).step(event),
        admissible(size, events.push(event)) <==> admissible(size, events) && run(
            size,
            events,
        ).enabled(event),
{
    assert(events.push(event).drop_last() =~= events);
}

impl<J> PoolView<J> {
    /// A fresh pool satisfies the invariant.
    pub proof fn lemma_init_inv(size: nat)
        requires
            size > 0,
        ensures
            Self::init(size).inv(),
    {
        let v = Self::init(size);
        lemma_in_flight_idle(v.workers);
        assert(v.started + v.pending =~= v.submitted);
    }

    /// Accepting a job keeps the invariant.
    pub proof fn lemma_submit_inv(self, job: J)
        requires
            self.inv(),
            self.open,
        ensures
            self.submit(job).inv(),
    {
        assert(self.started + self.pending.push(job) =~= (self.started + self.pending).push(job));
    }

    /// Beginning shutdown keeps the invariant.
    pub proof fn lemma_close_inv(self)
        requires
            self.inv(),
        ensures
            self.close().inv(),
    {
    }

    /// Answering a waiting worker keeps the invariant.
    pub proof fn lemma_dispatch_inv(self, w: int)
        requires
            self.inv(),
            self.is_waiting(w),
        ensures
            self.dispatch(w).inv(),
    {
        let next = self.dispatch(w);
        match self.action() {
            WorkerAction::Run(job) => {
                lemma_in_flight_update(self.workers, w, next.workers[w]);
                to_multiset_build(self.started, job);
                assert(next.started + next.pending =~= self.started + self.pending);
            },
            WorkerAction::Wait => {},
            WorkerAction::Exit => {
                lemma_in_flight_update(self.workers, w, next.workers[w]);
            },
        }
    }

    /// The end of a job keeps the invariant.
    pub proof fn lemma_complete_inv(self, w: int, outcome: JobOutcome)
        requires
            self.inv(),
            self.is_busy(w),
        ensures
            self.complete(w, outcome).inv(),
    {
        let next = self.complete(w, outcome);
        let job = self.workers[w].current->0;
        lemma_in_flight_update(self.workers, w, next.workers[w]);
        to_multiset_build(self.finished, job);
    }
}

/// Replacing what one worker holds changes the jobs in flight by exactly that
/// worker's contribution.
pub proof fn lemma_in_flight_update<J>(workers: Seq<WorkerView<J>>, w: int, next: WorkerView<J>)
    requires
        0 <= w < workers.len(),
    ensures
        slot_jobs(workers[w].current).subset_of(in_flight(workers)),
        in_flight(workers.update(w, next)) =~= in_flight(workers).sub(
            slot_jobs(workers[w].current),
        ).add(slot_jobs(next.current)),
    decreases workers.len(),
{
    let rest = workers.drop_last();
    let updated = workers.update(w, next);
    if w == workers.len() - 1 {
        assert(updated.drop_last() =~= rest);
    } else {
        lemma_in_flight_update(rest, w, next);
        assert(updated.drop_last() =~= rest.update(w, next));
    }
}

/// Workers that hold nothing have nothing in flight.
pub proof fn lemma_in_flight_idle<J>(workers: Seq<WorkerView<J>>)
    requires
        forall|w: int| 0 <= w < workers.len() ==> (#[trigger] workers[w]).current is None,
    ensures
        in_flight(workers) =~= Multiset::<J>::empty(),
    decreases workers.len(),
{
    if workers.len() > 0 {
        lemma_in_flight_idle(workers.drop_last());
    }
}

} // verus!
