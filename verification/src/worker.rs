//! One worker of the pool: the decisions of its loop, without the thread that
//! runs them.
//!
//! A worker repeats three steps: ask the shared queue for work, let
//! `Worker::react` decide what the answer means, and, where that was a job,
//! execute it and report the end with `Worker::finish`. Whoever owns the
//! thread performs the waiting and the execution.

use crate::queue::Delivery;
use vstd::prelude::*;

verus! {

/// Whether a worker is still in its loop.
#[derive(Clone, Copy, Debug, PartialEq, Eq, Structural)]
pub enum WorkerState {
    /// From creation until the queue reports closure.
    Running,
    /// The worker has left its loop and takes no more jobs.
    Stopped,
}

/// How the execution of a job ended.
#[derive(Clone, Copy, Debug, PartialEq, Eq, Structural)]
pub enum JobOutcome {
    /// The job ran to its end.
    Completed,
    /// The job broke off with a failure of its own.
    Failed,
}

/// What a worker does next.
#[derive(Debug, PartialEq, Eq)]
pub enum WorkerAction<J> {
    /// Execute this job on the worker's own thread, then report its end.
    Run(J),
    /// Block until the queue changes, then ask again.
    Wait,
    /// Leave the loop; the thread terminates.
    Exit,
}

/// A worker: its identity and where it stands in its loop.
#[derive(Clone, Copy, Debug)]
pub struct Worker {
    id: usize,
    state: WorkerState,
    busy: bool,
}

impl Worker {
    /// The number the worker was created with.
    pub closed spec fn ident(&self) -> usize {
        self.id
    }

    /// Whether the worker is still in its loop.
    pub closed spec fn running(&self) -> bool {
        self.state == WorkerState::Running
    }

    /// Whether the worker is executing a job.
    pub closed spec fn busy(&self) -> bool {
        self.busy
    }

    /// A running worker with nothing to do.
    pub fn new(id: usize) -> (worker: Worker)
        ensures
            worker.ident() == id,
            worker.running(),
            !worker.busy(),
    {
        Worker { id, state: WorkerState::Running, busy: false }
    }

    /// The number the worker was created with. It tells workers apart in
    /// diagnostics and plays no part in which job goes where.
    pub fn id(&self) -> (id: usize)
        ensures
            id == self.ident(),
    {
        self.id
    }

    /// Whether the worker is still in its loop.
    pub fn state(&self) -> (state: WorkerState)
        ensures
            state == WorkerState::Running <==> self.running(),
            state == WorkerState::Stopped <==> !self.running(),
    {
        self.state
    }

    /// Whether the worker is executing a job.
    pub fn is_busy(&self) -> (busy: bool)
        ensures
            busy == self.busy(),
    {
        self.busy
    }

    /// One turn of the loop: decides what the queue's answer means. A job is
    /// to be run, and the worker is busy until it reports the end; an empty
    /// queue means waiting; the closure signal ends the loop for good.
    pub fn react<J>(&mut self, delivery: Delivery<J>) -> (action: WorkerAction<J>)
        requires
            old(self).running(),
            !old(self).busy(),
        ensures
            final(self).ident() == old(self).ident(),
            match delivery {
                Delivery::Job(job) => action == WorkerAction::Run(job) && final(self).running()
                    && final(self).busy(),
                Delivery::Empty => action == WorkerAction::<J>::Wait && final(self).running()
                    && !final(self).busy(),
                Delivery::Closed => action == WorkerAction::<J>::Exit && !final(self).running()
                    && !final(self).busy(),
            },
    {
        match delivery {
            Delivery::Job(job) => {
                self.busy = true;
                WorkerAction::Run(job)
            },
            Delivery::Empty => WorkerAction::Wait,
            Delivery::Closed => {
                self.state = WorkerState::Stopped;
                WorkerAction::Exit
            },
        }
    }

    /// The end of the job the worker was running. However the job ended, the
    /// worker stays in its loop and is free for the next job.
    pub fn finish(&mut self)
        requires
            old(self).busy(),
        ensures
            final(self).ident() == old(self).ident(),
            final(self).running() == old(self).running(),
            !final(self).busy(),
    {
        self.busy = false;
    }
}

} // verus!
