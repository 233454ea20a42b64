use worker_pool::{
    Delivery, FatalConfigError, JobOutcome, PoolState, SharedQueue, SubmissionError, ThreadPool,
    Worker, WorkerAction, WorkerState,
};

fn pool_of(size: usize) -> ThreadPool<u32> {
    ThreadPool::new(size).unwrap()
}

#[test]
fn a_pool_of_no_workers_is_refused() {
    let refused = ThreadPool::<u32>::new(0);
    assert_eq!(Some(FatalConfigError), refused.err());
}

#[test]
fn a_fresh_pool_has_all_its_workers_waiting() {
    for size in [1usize, 2, 4, 17] {
        let pool = pool_of(size);
        assert_eq!(size, pool.size());
        assert_eq!(PoolState::Accepting, pool.state());
        assert_eq!(0, pool.queued());
        for w in 0..size {
            let worker = pool.worker(w).unwrap();
            assert_eq!(w, worker.id());
            assert_eq!(WorkerState::Running, worker.state());
            assert!(!worker.is_busy());
            assert!(pool.is_waiting(w));
            assert!(!pool.is_busy(w));
        }
        assert!(pool.worker(size).is_none());
        assert!(!pool.is_waiting(size));
        assert!(!pool.is_busy(size));
    }
}

#[test]
fn four_jobs_on_two_workers_each_run_once() {
    let mut pool = pool_of(2);
    for id in 1..=4u32 {
        assert_eq!(Ok(()), pool.execute(id));
    }
    assert_eq!(4, pool.queued());
    let mut recorded: Vec<u32> = Vec::new();

    // Both workers take a job: two run side by side, two wait their turn.
    let first = pool.next_action(0);
    let second = pool.next_action(1);
    assert_eq!(WorkerAction::Run(1), first);
    assert_eq!(WorkerAction::Run(2), second);
    assert!(pool.is_busy(0) && pool.is_busy(1));
    assert_eq!(2, pool.queued());

    // Shutdown begins while jobs are in flight and queued: nothing is lost.
    assert_eq!(vec![0, 1], pool.shutdown());
    assert_eq!(PoolState::Draining, pool.state());

    recorded.push(2);
    pool.complete(1, JobOutcome::Completed);
    assert_eq!(WorkerAction::Run(3), pool.next_action(1));
    recorded.push(1);
    pool.complete(0, JobOutcome::Completed);
    assert_eq!(WorkerAction::Run(4), pool.next_action(0));
    assert_eq!(0, pool.queued());
    assert_eq!(PoolState::Draining, pool.state());

    recorded.push(4);
    pool.complete(0, JobOutcome::Completed);
    assert_eq!(WorkerAction::Exit, pool.next_action(0));
    assert_eq!(PoolState::Draining, pool.state());
    recorded.push(3);
    pool.complete(1, JobOutcome::Completed);
    assert_eq!(PoolState::Draining, pool.state());
    assert_eq!(WorkerAction::Exit, pool.next_action(1));

    // Only now, with every job recorded, has the pool stopped.
    assert_eq!(PoolState::Stopped, pool.state());
    recorded.sort();
    assert_eq!(vec![1, 2, 3, 4], recorded);
    assert_eq!(WorkerState::Stopped, pool.worker(0).unwrap().state());
    assert_eq!(WorkerState::Stopped, pool.worker(1).unwrap().state());
}

#[test]
fn execute_after_shutdown_is_refused() {
    let mut pool = pool_of(1);
    assert_eq!(Ok(()), pool.execute(10));
    assert_eq!(vec![0], pool.shutdown());
    assert_eq!(Err(SubmissionError), pool.execute(11));
    assert_eq!(1, pool.queued());
    // The job accepted before shutdown still runs; the refused one never does.
    assert_eq!(WorkerAction::Run(10), pool.next_action(0));
    pool.complete(0, JobOutcome::Completed);
    assert_eq!(WorkerAction::Exit, pool.next_action(0));
    assert_eq!(PoolState::Stopped, pool.state());
    assert_eq!(Err(SubmissionError), pool.execute(12));
    assert_eq!(0, pool.queued());
}

#[test]
fn shutdown_twice_is_shutdown_once() {
    let mut pool = pool_of(3);
    assert_eq!(vec![0, 1, 2], pool.shutdown());
    assert_eq!(PoolState::Draining, pool.state());
    assert_eq!(Vec::<usize>::new(), pool.shutdown());
    assert_eq!(PoolState::Draining, pool.state());
    for w in 0..3 {
        assert_eq!(WorkerAction::Exit, pool.next_action(w));
    }
    assert_eq!(PoolState::Stopped, pool.state());
    assert_eq!(Vec::<usize>::new(), pool.shutdown());
    assert_eq!(PoolState::Stopped, pool.state());
}

#[test]
fn jobs_leave_the_queue_in_submission_order() {
    let mut pool = pool_of(1);
    for id in [30u32, 10, 20, 10] {
        assert_eq!(Ok(()), pool.execute(id));
    }
    let mut started = Vec::new();
    while let WorkerAction::Run(id) = pool.next_action(0) {
        started.push(id);
        pool.complete(0, JobOutcome::Completed);
    }
    assert_eq!(vec![30, 10, 20, 10], started);
}

#[test]
fn jobs_submitted_while_all_workers_are_busy_keep_their_order() {
    let mut pool = pool_of(2);
    assert_eq!(Ok(()), pool.execute(1));
    assert_eq!(Ok(()), pool.execute(2));
    assert_eq!(WorkerAction::Run(1), pool.next_action(0));
    assert_eq!(WorkerAction::Run(2), pool.next_action(1));
    assert_eq!(Ok(()), pool.execute(3));
    assert_eq!(Ok(()), pool.execute(4));
    // Whichever worker is free first gets the older job.
    pool.complete(1, JobOutcome::Completed);
    assert_eq!(WorkerAction::Run(3), pool.next_action(1));
    pool.complete(0, JobOutcome::Completed);
    assert_eq!(WorkerAction::Run(4), pool.next_action(0));
}

#[test]
fn an_idle_worker_waits_while_the_pool_accepts() {
    let mut pool = pool_of(2);
    assert_eq!(WorkerAction::Wait, pool.next_action(0));
    assert!(pool.is_waiting(0));
    assert_eq!(Ok(()), pool.execute(5));
    assert_eq!(WorkerAction::Run(5), pool.next_action(0));
    assert_eq!(WorkerAction::Wait, pool.next_action(1));
    assert_eq!(PoolState::Accepting, pool.state());
}

#[test]
fn a_failed_job_does_not_stop_its_worker() {
    let mut pool = pool_of(2);
    for id in 1..=3u32 {
        assert_eq!(Ok(()), pool.execute(id));
    }
    assert_eq!(WorkerAction::Run(1), pool.next_action(0));
    pool.complete(0, JobOutcome::Failed);
    assert!(pool.is_waiting(0));
    assert_eq!(WorkerState::Running, pool.worker(0).unwrap().state());
    assert_eq!(2, pool.size());
    // The same worker goes on, and so does the other.
    assert_eq!(WorkerAction::Run(2), pool.next_action(0));
    assert_eq!(WorkerAction::Run(3), pool.next_action(1));
    pool.complete(0, JobOutcome::Completed);
    pool.complete(1, JobOutcome::Failed);
    assert_eq!(vec![0, 1], pool.shutdown());
    assert_eq!(WorkerAction::Exit, pool.next_action(0));
    assert_eq!(WorkerAction::Exit, pool.next_action(1));
    assert_eq!(PoolState::Stopped, pool.state());
}

#[test]
fn more_workers_than_jobs() {
    let mut pool = pool_of(3);
    assert_eq!(Ok(()), pool.execute(1));
    assert_eq!(vec![0, 1, 2], pool.shutdown());
    assert_eq!(WorkerAction::Run(1), pool.next_action(2));
    assert_eq!(WorkerAction::Exit, pool.next_action(0));
    assert_eq!(WorkerAction::Exit, pool.next_action(1));
    assert_eq!(PoolState::Draining, pool.state());
    pool.complete(2, JobOutcome::Completed);
    assert_eq!(WorkerAction::Exit, pool.next_action(2));
    assert_eq!(PoolState::Stopped, pool.state());
}

#[test]
fn no_jobs_at_all() {
    let mut pool = pool_of(2);
    assert_eq!(vec![0, 1], pool.shutdown());
    assert_eq!(WorkerAction::Exit, pool.next_action(1));
    assert_eq!(WorkerAction::Exit, pool.next_action(0));
    assert_eq!(PoolState::Stopped, pool.state());
}

#[test]
fn errors_say_what_went_wrong() {
    assert_eq!("a worker pool needs at least one worker", FatalConfigError.message());
    assert_eq!(
        "the worker pool is shutting down and takes no more jobs",
        SubmissionError.message()
    );
}

#[test]
fn the_queue_is_first_in_first_out() {
    let mut queue: SharedQueue<&str> = SharedQueue::new();
    assert!(queue.accepts());
    assert_eq!(Delivery::Empty, queue.receive());
    assert_eq!(Ok(()), queue.send("a"));
    assert_eq!(Ok(()), queue.send("b"));
    assert_eq!(Ok(()), queue.send("c"));
    assert_eq!(3, queue.len());
    assert_eq!(Delivery::Job("a"), queue.receive());
    assert_eq!(Delivery::Job("b"), queue.receive());
    assert_eq!(1, queue.len());
    assert_eq!(Delivery::Job("c"), queue.receive());
    assert_eq!(Delivery::Empty, queue.receive());
}

#[test]
fn a_closed_queue_drains_and_then_signals_closure() {
    let mut queue: SharedQueue<u8> = SharedQueue::new();
    assert_eq!(Ok(()), queue.send(1));
    queue.close();
    assert!(!queue.accepts());
    assert_eq!(Err(2), queue.send(2));
    assert_eq!(1, queue.len());
    assert_eq!(Delivery::Job(1), queue.receive());
    assert_eq!(Delivery::Closed, queue.receive());
    assert_eq!(Delivery::Closed, queue.receive());
    queue.close();
    assert_eq!(Delivery::Closed, queue.receive());
}

#[test]
fn a_worker_runs_what_it_is_given_and_exits_on_closure() {
    let mut worker = Worker::new(7);
    assert_eq!(7, worker.id());
    assert_eq!(WorkerState::Running, worker.state());
    assert!(!worker.is_busy());
    assert_eq!(WorkerAction::Wait, worker.react(Delivery::<u8>::Empty));
    assert!(!worker.is_busy());
    assert_eq!(WorkerAction::Run(9u8), worker.react(Delivery::Job(9u8)));
    assert!(worker.is_busy());
    worker.finish();
    assert!(!worker.is_busy());
    assert_eq!(WorkerState::Running, worker.state());
    assert_eq!(WorkerAction::Exit, worker.react(Delivery::<u8>::Closed));
    assert_eq!(WorkerState::Stopped, worker.state());
    assert_eq!(7, worker.id());
}

/// A small generator of numbers that look arbitrary and are the same on every
/// run.
fn next(seed: &mut u64) -> usize {
    *seed = seed.wrapping_mul(6364136223846793005).wrapping_add(1442695040888963407);
    (*seed >> 33) as usize
}

#[test]
fn every_schedule_runs_every_job_once() {
    for round in 0..200u64 {
        let mut seed = round;
        let size = 1 + next(&mut seed) % 4;
        let jobs = (next(&mut seed) % 9) as u32;
        let mut pool = pool_of(size);
        let mut holds: Vec<Option<u32>> = vec![None; size];
        let mut submitted = 0u32;
        let mut started: Vec<u32> = Vec::new();
        let mut finished: Vec<u32> = Vec::new();
        let mut closed = false;

        while pool.state() != PoolState::Stopped {
            let w = next(&mut seed) % size;
            match next(&mut seed) % 4 {
                0 if submitted < jobs => {
                    assert_eq!(Ok(()), pool.execute(submitted));
                    submitted += 1;
                }
                0 | 1 if submitted == jobs && !closed => {
                    let expected: Vec<usize> = (0..size).collect();
                    assert_eq!(expected, pool.shutdown());
                    closed = true;
                }
                2 if pool.is_waiting(w) => match pool.next_action(w) {
                    WorkerAction::Run(id) => {
                        started.push(id);
                        holds[w] = Some(id);
                    }
                    WorkerAction::Wait => assert!(!closed),
                    WorkerAction::Exit => assert!(closed),
                },
                3 if pool.is_busy(w) => {
                    let outcome =
                        if next(&mut seed) % 3 == 0 { JobOutcome::Failed } else { JobOutcome::Completed };
                    pool.complete(w, outcome);
                    finished.push(holds[w].take().unwrap());
                }
                _ => {}
            }
            assert_eq!(size, pool.size());
            assert_eq!(submitted as usize, started.len() + pool.queued());
        }

        let all: Vec<u32> = (0..jobs).collect();
        assert_eq!(all, started);
        finished.sort();
        assert_eq!(all, finished);
        assert_eq!(0, pool.queued());
        assert_eq!(Err(SubmissionError), pool.execute(99));
    }
}
