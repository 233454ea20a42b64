//! The shared queue: the hand-off between the producers that submit jobs and
//! the workers that run them.

use std::collections::VecDeque;
use vstd::prelude::*;

verus! {

/// What a worker gets when it asks the queue for work.
#[derive(Debug, PartialEq, Eq)]
pub enum Delivery<J> {
    /// The oldest pending job; it is handed to this caller and to nobody else.
    Job(J),
    /// Nothing is pending, but producers may still send: the caller waits.
    Empty,
    /// Nothing is pending and nothing will come: the closure signal.
    Closed,
}

/// An unbounded first-in, first-out queue of jobs with a terminal closed
/// state.
pub struct SharedQueue<J> {
    items: VecDeque<J>,
    open: bool,
}

impl<J> SharedQueue<J> {
    /// The jobs that wait in the queue, oldest first.
    pub closed spec fn pending(&self) -> Seq<J> {
        self.items@
    }

    /// Whether producers can still send.
    pub closed spec fn is_open(&self) -> bool {
        self.open
    }

    /// An open queue with nothing in it.
    pub fn new() -> (q: Self)
        ensures
            q.pending() == Seq::<J>::empty(),
            q.is_open(),
    {
        SharedQueue { items: VecDeque::new(), open: true }
    }

    /// Appends `job` behind everything already pending. A closed queue takes
    /// nothing and hands the job back.
    pub fn send(&mut self, job: J) -> (r: Result<(), J>)
        ensures
            old(self).is_open() ==> r is Ok && final(self).is_open()
                && final(self).pending() == old(self).pending().push(job),
            !old(self).is_open() ==> r == Err::<(), J>(job) && *final(self) == *old(self),
    {
        if self.open {
            self.items.push_back(job);
            Ok(())
        } else {
            Err(job)
        }
    }

    /// Closes the queue: nothing more can be sent, and what is pending stays
    /// to be received. Closing a closed queue changes nothing.
    pub fn close(&mut self)
        ensures
            !final(self).is_open(),
            final(self).pending() == old(self).pending(),
    {
        self.open = false;
    }

    /// Whether producers can still send.
    pub fn accepts(&self) -> (open: bool)
        ensures
            open == self.is_open(),
    {
        self.open
    }

    /// How many jobs wait in the queue.
    pub fn len(&self) -> (n: usize)
        ensures
            n == self.pending().len(),
    {
        self.items.len()
    }

    /// Takes the oldest pending job, if there is one; otherwise tells the
    /// caller whether to wait or to stop.
    pub fn receive(&mut self) -> (d: Delivery<J>)
        ensures
            final(self).is_open() == old(self).is_open(),
            match d {
                Delivery::Job(j) => old(self).pending().len() > 0 && j == old(self).pending()[0]
                    && final(self).pending() == old(self).pending().drop_first(),
                Delivery::Empty => old(self).pending().len() == 0 && old(self).is_open()
                    && final(self).pending() == old(self).pending(),
                Delivery::Closed => old(self).pending().len() == 0 && !old(self).is_open()
                    && final(self).pending() == old(self).pending(),
            },
    {
        match self.items.pop_front() {
            Some(job) => Delivery::Job(job),
            None => if self.open {
                Delivery::Empty
            } else {
                Delivery::Closed
            },
        }
    }
}

} // verus!
