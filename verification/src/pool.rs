//! The pool: a fixed set of workers behind one shared queue, and the
//! protocol by which jobs enter, run and drain.
//!
//! The pool holds no thread. It is the single place where every decision of
//! the protocol is taken: whether a submission is accepted, which job a worker
//! gets, whether a worker waits or exits, and in which order the owner waits
//! for the workers on shutdown. The caller supplies the threads, blocks where
//! the pool says `Wait`, and executes what the pool says to `Run`.

use crate::model::{
    admissible, lemma_history_push, run, Event, PoolState, PoolView, WorkerView,
};
use crate::queue::SharedQueue;
use crate::worker::{JobOutcome, Worker, WorkerAction, WorkerState};
use vstd::prelude::*;

verus! {

/// A pool cannot be built with no workers.
#[derive(Clone, Copy, Debug, PartialEq, Eq, Structural)]
pub struct FatalConfigError;

/// A job was submitted after shutdown had begun.
#[derive(Clone, Copy, Debug, PartialEq, Eq, Structural)]
pub struct SubmissionError;

impl FatalConfigError {
    /// The error in words.
    pub fn message(&self) -> (text: &'static str)
        ensures
            text@ == "a worker pool needs at least one worker"@,
    {
        "a worker pool needs at least one worker"
    }
}

impl SubmissionError {
    /// The error in words.
    pub fn message(&self) -> (text: &'static str)
        ensures
            text@ == "the worker pool is shutting down and takes no more jobs"@,
    {
        "the worker pool is shutting down and takes no more jobs"
    }
}

/// What the pool remembers for the sake of its contracts only.
struct Ledger<J> {
    /// Everything that has happened to the pool, in order.
    events: Seq<Event<J>>,
    /// Every job ever accepted, in order of submission.
    submitted: Seq<J>,
    /// Every job ever handed to a worker, in order of hand-out.
    started: Seq<J>,
    /// Every job whose execution has ended, in order of completion.
    finished: Seq<J>,
    /// How many of the finished jobs ended in failure.
    failures: nat,
    /// For each worker, the job it is executing.
    current: Seq<Option<J>>,
}

/// A fixed-size pool of workers that share one queue of jobs of type `J`.
pub struct ThreadPool<J> {
    workers: Vec<Worker>,
    queue: SharedQueue<J>,
    ledger: Ghost<Ledger<J>>,
}

impl<J> View for ThreadPool<J> {
    type V = PoolView<J>;

    closed spec fn view(&self) -> PoolView<J> {
        PoolView {
            open: self.queue.is_open(),
            workers: Seq::new(
                self.workers@.len(),
                |i: int|
                    WorkerView {
                        running: self.workers@[i].running(),
                        current: self.ledger@.current[i],
                    },
            ),
            pending: self.queue.pending(),
            submitted: self.ledger@.submitted,
            started: self.ledger@.started,
            finished: self.ledger@.finished,
            failures: self.ledger@.failures,
        }
    }
}

impl<J> ThreadPool<J> {
    /// Everything that has happened to the pool since it was built, in
    /// order.
    pub closed spec fn history(&self) -> Seq<Event<J>> {
        self.ledger@.events
    }

    /// The pool is sound: its workers are numbered by position, each is busy
    /// exactly when it holds a job, and its abstract state is the one to
    /// which its history leads and satisfies the invariant of the state
    /// machine.
    pub closed spec fn wf(&self) -> bool {
        &&& self.ledger@.current.len() == self.workers@.len()
        &&& forall|i: int|
            0 <= i < self.workers@.len() ==> {
                &&& (#[trigger] self.workers@[i]).ident() == i
                &&& self.workers@[i].busy() == (self.ledger@.current[i] is Some)
            }
        &&& self@.inv()
        &&& admissible(self.workers@.len() as nat, self.ledger@.events)
        &&& self@ == run(self.workers@.len() as nat, self.ledger@.events)
    }

    /// A sound pool stands where its history has led it, each event of that
    /// history was possible when it happened, and the invariant of the state
    /// machine holds. Whatever is proved of all histories therefore holds of
    /// every pool.
    pub proof fn lemma_wf_history(&self)
        requires
            self.wf(),
        ensures
            self@.inv(),
            admissible(self@.workers.len(), self.history()),
            self@ == run(self@.workers.len(), self.history()),
    {
    }

    /// Builds a pool of `size` workers, all running and idle, that accepts
    /// jobs. A pool of no workers is refused.
    pub fn new(size: usize) -> (result: Result<ThreadPool<J>, FatalConfigError>)
        ensures
            size == 0 <==> result is Err,
            result matches Ok(pool) ==> {
                &&& pool.wf()
                &&& pool@ =~= PoolView::<J>::init(size as nat)
                &&& pool.history() =~= Seq::<Event<J>>::empty()
            },
    {
        if size == 0 {
            return Err(FatalConfigError);
        }
        let mut workers: Vec<Worker> = Vec::new();
        let mut i: usize = 0;
        while i < size
            invariant
                i <= size,
                workers@.len() == i,
                forall|k: int|
                    0 <= k < i ==> {
                        &&& (#[trigger] workers@[k]).ident() == k
                        &&& workers@[k].running()
                        &&& !workers@[k].busy()
                    },
            decreases size - i,
        {
            workers.push(Worker::new(i));
            i += 1;
        }
        let pool = ThreadPool {
            workers,
            queue: SharedQueue::new(),
            ledger: Ghost(
                Ledger {
                    events: Seq::empty(),
                    submitted: Seq::empty(),
                    started: Seq::empty(),
                    finished: Seq::empty(),
                    failures: 0,
                    current: Seq::new(size as nat, |k: int| None),
                },
            ),
        };
        proof {
            PoolView::<J>::lemma_init_inv(size as nat);
            assert(pool@ =~= PoolView::<J>::init(size as nat));
        }
        Ok(pool)
    }

    /// The number of workers, fixed when the pool was built.
    pub fn size(&self) -> (size: usize)
        ensures
            size == self@.workers.len(),
    {
        self.workers.len()
    }

    /// How many accepted jobs wait for a worker.
    pub fn queued(&self) -> (count: usize)
        ensures
            count == self@.pending.len(),
    {
        self.queue.len()
    }

    /// Whether worker `w` is in its loop and has no job, so that it may ask
    /// for work. False for a number that names no worker.
    pub fn is_waiting(&self, w: usize) -> (waiting: bool)
        requires
            self.wf(),
        ensures
            waiting == self@.is_waiting(w as int),
    {
        if w < self.workers.len() {
            let worker = &self.workers[w];
            match worker.state() {
                WorkerState::Running => !worker.is_busy(),
                WorkerState::Stopped => false,
            }
        } else {
            false
        }
    }

    /// Whether worker `w` is executing a job, so that its end may be
    /// reported. False for a number that names no worker.
    pub fn is_busy(&self, w: usize) -> (busy: bool)
        requires
            self.wf(),
        ensures
            busy == self@.is_busy(w as int),
    {
        if w < self.workers.len() {
            self.workers[w].is_busy()
        } else {
            false
        }
    }

    /// The worker with number `w`, as it stands now.
    pub fn worker(&self, w: usize) -> (worker: Option<Worker>)
        requires
            self.wf(),
        ensures
            worker is Some <==> self@.has_worker(w as int),
            worker matches Some(found) ==> {
                &&& found.ident() == w
                &&& found.running() == self@.workers[w as int].running
                &&& found.busy() == self@.is_busy(w as int)
            },
    {
        if w < self.workers.len() {
            Some(self.workers[w])
        } else {
            None
        }
    }

    /// Where the pool stands in its life cycle: accepting until shutdown
    /// begins, draining while some worker is still in its loop, stopped once
    /// all have exited.
    pub fn state(&self) -> (state: PoolState)
        ensures
            state == self@.state(),
    {
        if self.queue.accepts() {
            return PoolState::Accepting;
        }
        let mut i: usize = 0;
        while i < self.workers.len()
            invariant
                i <= self.workers@.len(),
                !self@.open,
                forall|k: int| 0 <= k < i ==> !(#[trigger] self@.workers[k]).running,
            decreases self.workers@.len() - i,
        {
            match self.workers[i].state() {
                WorkerState::Running => {
                    assert(self@.workers[i as int].running);
                    return PoolState::Draining;
                },
                WorkerState::Stopped => {},
            }
            i += 1;
        }
        PoolState::Stopped
    }

    /// Submits `job` for execution by some worker. The job is accepted while
    /// the pool has not begun shutdown, and refused from then on.
    pub fn execute(&mut self, job: J) -> (result: Result<(), SubmissionError>)
        requires
            old(self).wf(),
        ensures
            final(self).wf(),
            old(self)@.open ==> {
                &&& result is Ok
                &&& final(self)@ =~= old(self)@.submit(job)
                &&& final(self).history() =~= old(self).history().push(Event::Submit(job))
            },
            !old(self)@.open ==> {
                &&& result is Err
                &&& final(self)@ =~= old(self)@
                &&& final(self).history() =~= old(self).history()
            },
    {
        match self.queue.send(job) {
            Ok(()) => {
                proof {
                    old(self)@.lemma_submit_inv(job);
                    lemma_history_push(
                        self.workers@.len() as nat,
                        self.ledger@.events,
                        Event::Submit(job),
                    );
                }
                self.ledger = Ghost(
                    Ledger {
                        events: self.ledger@.events.push(Event::Submit(job)),
                        submitted: self.ledger@.submitted.push(job),
                        ..self.ledger@
                    },
                );
                assert(self@ =~= old(self)@.submit(job));
                Ok(())
            },
            Err(_) => Err(SubmissionError),
        }
    }

    /// Begins shutdown: from now on no job is accepted, and each worker exits
    /// once nothing is pending. Returns the workers whose threads the caller
    /// has to wait for, in the order in which to wait: all of them the first
    /// time, none when shutdown had already begun.
    pub fn shutdown(&mut self) -> (joins: Vec<usize>)
        requires
            old(self).wf(),
        ensures
            final(self).wf(),
            final(self)@ =~= old(self)@.close(),
            final(self).history() =~= old(self).history().push(Event::Shutdown),
            old(self)@.open ==> joins@ =~= Seq::new(
                old(self)@.workers.len(),
                |i: int| i as usize,
            ),
            !old(self)@.open ==> joins@ =~= Seq::<usize>::empty(),
    {
        let mut joins: Vec<usize> = Vec::new();
        proof {
            old(self)@.lemma_close_inv();
            lemma_history_push(self.workers@.len() as nat, self.ledger@.events, Event::Shutdown);
        }
        self.ledger = Ghost(
            Ledger { events: self.ledger@.events.push(Event::Shutdown), ..self.ledger@ },
        );
        if !self.queue.accepts() {
            assert(self@ =~= old(self)@.close());
            return joins;
        }
        self.queue.close();
        assert(self@ =~= old(self)@.close());
        let mut i: usize = 0;
        while i < self.workers.len()
            invariant
                i <= self.workers@.len(),
                joins@.len() == i,
                forall|k: int| 0 <= k < i ==> joins@[k] == k,
                forall|k: int|
                    0 <= k < self.workers@.len() ==> (#[trigger] self.workers@[k]).ident() == k,
            decreases self.workers@.len() - i,
        {
            joins.push(self.workers[i].id());
            i += 1;
        }
        joins
    }

    /// Worker `w` asks for work. The oldest pending job goes to it and to
    /// nobody else; with nothing pending it is told to wait while the pool
    /// accepts jobs, and to exit once shutdown has begun.
    pub fn next_action(&mut self, w: usize) -> (action: WorkerAction<J>)
        requires
            old(self).wf(),
            old(self)@.is_waiting(w as int),
        ensures
            final(self).wf(),
            action == old(self)@.action(),
            final(self)@ =~= old(self)@.dispatch(w as int),
            final(self).history() =~= old(self).history().push(Event::Dispatch(w as int)),
    {
        proof {
            old(self)@.lemma_dispatch_inv(w as int);
            lemma_history_push(
                self.workers@.len() as nat,
                self.ledger@.events,
                Event::Dispatch(w as int),
            );
        }
        let mut worker = self.workers[w];
        let delivery = self.queue.receive();
        let action = worker.react(delivery);
        self.workers.set(w, worker);
        let ghost told = old(self)@.action();
        self.ledger = Ghost(
            match told {
                WorkerAction::Run(job) => Ledger {
                    events: self.ledger@.events.push(Event::Dispatch(w as int)),
                    started: self.ledger@.started.push(job),
                    current: self.ledger@.current.update(w as int, Some(job)),
                    ..self.ledger@
                },
                _ => Ledger {
                    events: self.ledger@.events.push(Event::Dispatch(w as int)),
                    ..self.ledger@
                },
            },
        );
        assert(self@ =~= old(self)@.dispatch(w as int));
        action
    }

    /// Worker `w` reports that the job it was executing has ended. Whether
    /// the job completed or failed, the worker is free for the next one.
    pub fn complete(&mut self, w: usize, outcome: JobOutcome)
        requires
            old(self).wf(),
            old(self)@.is_busy(w as int),
        ensures
            final(self).wf(),
            final(self)@ =~= old(self)@.complete(w as int, outcome),
            final(self).history() =~= old(self).history().push(Event::Complete(w as int, outcome)),
    {
        proof {
            old(self)@.lemma_complete_inv(w as int, outcome);
            lemma_history_push(
                self.workers@.len() as nat,
                self.ledger@.events,
                Event::Complete(w as int, outcome),
            );
        }
        let mut worker = self.workers[w];
        worker.finish();
        self.workers.set(w, worker);
        self.ledger = Ghost(
            Ledger {
                events: self.ledger@.events.push(Event::Complete(w as int, outcome)),
                finished: self.ledger@.finished.push(self.ledger@.current[w as int]->0),
                failures: if outcome is Failed {
                    self.ledger@.failures + 1
                } else {
                    self.ledger@.failures
                },
                current: self.ledger@.current.update(w as int, None),
                ..self.ledger@
            },
        );
        assert(self@ =~= old(self)@.complete(w as int, outcome));
    }
}

} // verus!
