//! What holds of every pool, whatever its size, whatever is submitted, and
//! however the workers' steps interleave.
//!
//! A history of a pool is a sequence of events, each of which was possible
//! when it happened. The laws below speak of all such histories.

use crate::model::{
    admissible, in_flight, lemma_in_flight_idle, run, submissions, Event, PoolState, PoolView,
    WorkerView,
};
use crate::pool::ThreadPool;
use crate::worker::{JobOutcome, WorkerAction};
use vstd::prelude::*;

verus! {

/// How far a pool has come in its life cycle.
pub open spec fn stage(state: PoolState) -> nat {
    match state {
        PoolState::Accepting => 0,
        PoolState::Draining => 1,
        PoolState::Stopped => 2,
    }
}

/// Every event that can happen keeps the invariant, the number of workers,
/// and everything that was ever submitted.
pub proof fn law_step_keeps_invariant<J>(pre: PoolView<J>, event: Event<J>)
    requires
        pre.inv(),
        pre.enabled(event),
    ensures
        pre.step(event).inv(),
        pre.step(event).workers.len() == pre.workers.len(),
        pre.step(event).submitted == match event {
            Event::Submit(job) => pre.submitted.push(job),
            _ => pre.submitted,
        },
{
    match event {
        Event::Submit(job) => pre.lemma_submit_inv(job),
        Event::Shutdown => pre.lemma_close_inv(),
        Event::Dispatch(w) => pre.lemma_dispatch_inv(w),
        Event::Complete(w, outcome) => pre.lemma_complete_inv(w, outcome),
    }
}

/// After any history, a pool built with `size` workers still has exactly
/// `size` workers, satisfies the invariant, and has accepted exactly the jobs
/// that were submitted to it, in their order.
pub proof fn law_every_history_is_sound<J>(size: nat, events: Seq<Event<J>>)
    requires
        size > 0,
        admissible(size, events),
    ensures
        run(size, events).inv(),
        run(size, events).workers.len() == size,
        run(size, events).submitted == submissions(events),
    decreases events.len(),
{
    if events.len() == 0 {
        PoolView::<J>::lemma_init_inv(size);
    } else {
        law_every_history_is_sound(size, events.drop_last());
        law_step_keeps_invariant(run(size, events.drop_last()), events.last());
    }
}

/// A fresh pool has exactly `size` workers, each of them in its loop and
/// waiting for its first job, and it accepts submissions.
pub proof fn law_fresh_pool_has_all_workers_live<J>(size: nat)
    requires
        size > 0,
    ensures
        PoolView::<J>::init(size).workers.len() == size,
        forall|w: int| 0 <= w < size ==> PoolView::<J>::init(size).is_waiting(w),
        PoolView::<J>::init(size).state() == PoolState::Accepting,
        PoolView::<J>::init(size).submitted.len() == 0,
{
}

/// Jobs leave the queue in the order in which they were submitted: at every
/// instant the jobs handed out so far, followed by those still pending, are
/// the jobs submitted so far. No job is handed out twice, none is skipped.
pub proof fn law_jobs_start_in_submission_order<J>(size: nat, events: Seq<Event<J>>)
    requires
        size > 0,
        admissible(size, events),
    ensures
        run(size, events).started + run(size, events).pending == submissions(events),
        run(size, events).pending.len() > 0 ==> run(size, events).action() == WorkerAction::Run(
            submissions(events)[run(size, events).started.len() as int],
        ),
{
    law_every_history_is_sound(size, events);
    let v = run(size, events);
    assert(v.started + v.pending =~= v.submitted);
    if v.pending.len() > 0 {
        assert((v.started + v.pending)[v.started.len() as int] == v.pending[0]);
    }
}

/// At every instant, the jobs handed to workers are exactly those that have
/// finished together with those that some worker is executing right now.
pub proof fn law_started_jobs_are_running_or_finished<J>(size: nat, events: Seq<Event<J>>)
    requires
        size > 0,
        admissible(size, events),
    ensures
        run(size, events).started.to_multiset() == run(size, events).finished.to_multiset().add(
            in_flight(run(size, events).workers),
        ),
{
    law_every_history_is_sound(size, events);
}

/// No job is lost and none is doubled. At every instant each job that was
/// submitted is in exactly one place: it waits in the queue, or one worker is
/// executing it, or it has finished.
pub proof fn law_every_job_is_in_one_place<J>(size: nat, events: Seq<Event<J>>)
    requires
        size > 0,
        admissible(size, events),
    ensures
        submissions(events).to_multiset() == run(size, events).finished.to_multiset().add(
            in_flight(run(size, events).workers),
        ).add(run(size, events).pending.to_multiset()),
{
    law_every_history_is_sound(size, events);
    let v = run(size, events);
    vstd::seq_lib::lemma_multiset_commutative(v.started, v.pending);
}

/// A pool that satisfies the invariant and has stopped has nothing pending
/// and nothing in flight: every job it accepted was handed to a worker once,
/// in order of submission, and has finished once.
pub proof fn law_stopped_pool_is_drained<J>(pool: PoolView<J>)
    requires
        pool.inv(),
        pool.state() == PoolState::Stopped,
    ensures
        pool.pending.len() == 0,
        forall|w: int| 0 <= w < pool.workers.len() ==> !pool.is_busy(w) && !pool.is_waiting(w),
        pool.started == pool.submitted,
        pool.finished.to_multiset() == pool.submitted.to_multiset(),
        pool.finished.len() == pool.submitted.len(),
{
    assert(!pool.workers[0].running);
    assert forall|w: int| 0 <= w < pool.workers.len() implies (#[trigger] pool.workers[w]).current
        is None by {
        assert(!pool.workers[w].running);
    }
    lemma_in_flight_idle(pool.workers);
    assert(pool.started =~= pool.started + pool.pending);
    assert(pool.finished.to_multiset() =~= pool.submitted.to_multiset());
    pool.finished.to_multiset_ensures();
    pool.submitted.to_multiset_ensures();
}

/// Whatever number of jobs is submitted to a pool of whatever size, and
/// however the steps interleave: once the pool has stopped, every submitted
/// job has been executed exactly once.
pub proof fn law_every_job_runs_exactly_once<J>(size: nat, events: Seq<Event<J>>)
    requires
        size > 0,
        admissible(size, events),
        run(size, events).state() == PoolState::Stopped,
    ensures
        run(size, events).started == submissions(events),
        run(size, events).finished.to_multiset() == submissions(events).to_multiset(),
        run(size, events).pending.len() == 0,
        in_flight(run(size, events).workers) == vstd::multiset::Multiset::<J>::empty(),
{
    law_every_history_is_sound(size, events);
    let v = run(size, events);
    law_stopped_pool_is_drained(v);
    assert forall|w: int| 0 <= w < v.workers.len() implies (#[trigger] v.workers[w]).current
        is None by {
        assert(!v.is_busy(w));
    }
    lemma_in_flight_idle(v.workers);
}

/// What a caller may rely on once an executable pool has stopped: every job
/// the pool ever accepted has been handed to a worker once, in order of
/// submission, and has finished once; every worker has left its loop; and
/// the pool accepts nothing more.
pub proof fn law_stopped_thread_pool_has_run_every_job<J>(pool: &ThreadPool<J>)
    requires
        pool.wf(),
        pool@.state() == PoolState::Stopped,
    ensures
        pool@.started == submissions(pool.history()),
        pool@.finished.to_multiset() == submissions(pool.history()).to_multiset(),
        pool@.pending.len() == 0,
        forall|w: int| 0 <= w < pool@.workers.len() ==> !pool@.is_busy(w) && !pool@.is_waiting(w),
        !pool@.open,
{
    pool.lemma_wf_history();
    law_every_job_runs_exactly_once(pool@.workers.len(), pool.history());
    law_stopped_pool_is_drained(pool@);
}

/// No worker idles while a job waits: a worker that asks for work while
/// something is pending is given the oldest pending job, whether or not the
/// pool still accepts submissions. So as many jobs run side by side as there
/// are workers to ask.
pub proof fn law_waiting_job_goes_to_the_worker_that_asks<J>(pool: PoolView<J>, w: int)
    requires
        pool.inv(),
        pool.is_waiting(w),
        pool.pending.len() > 0,
    ensures
        pool.action() == WorkerAction::Run(pool.pending[0]),
        pool.dispatch(w).is_busy(w),
        pool.dispatch(w).workers[w].current == Some(pool.pending[0]),
        pool.dispatch(w).pending == pool.pending.drop_first(),
        forall|other: int|
            0 <= other < pool.workers.len() && other != w ==> pool.dispatch(w).workers[other]
                == pool.workers[other],
{
}

/// Shutdown cannot be undone, and a pool never goes back in its life cycle.
pub proof fn law_life_cycle_moves_forward<J>(pre: PoolView<J>, event: Event<J>)
    requires
        pre.inv(),
        pre.enabled(event),
    ensures
        !pre.open ==> !pre.step(event).open,
        stage(pre.state()) <= stage(pre.step(event).state()),
        pre.state() == PoolState::Stopped ==> pre.step(event) == pre,
{
    let post = pre.step(event);
    if !pre.open && pre.all_exited() {
        match event {
            Event::Submit(_) => {},
            Event::Shutdown => {
                assert(post =~= pre);
            },
            Event::Dispatch(w) => {
                assert(!pre.workers[w].running);
            },
            Event::Complete(w, _) => {
                assert(!pre.workers[w].running);
            },
        }
    }
}

/// Once shutdown has begun, the pool is closed for good: after any history
/// that contains a shutdown, no submission is possible.
pub proof fn law_shutdown_is_final<J>(size: nat, events: Seq<Event<J>>, k: int, job: J)
    requires
        size > 0,
        admissible(size, events),
        0 <= k < events.len(),
        events[k] is Shutdown,
    ensures
        !run(size, events).open,
        !run(size, events).enabled(Event::Submit(job)),
        run(size, events).state() != PoolState::Accepting,
    decreases events.len(),
{
    if k < events.len() - 1 {
        law_shutdown_is_final(size, events.drop_last(), k, job);
        law_every_history_is_sound(size, events.drop_last());
        law_life_cycle_moves_forward(run(size, events.drop_last()), events.last());
    }
}

/// A job that fails costs the pool nothing but the job: the worker that ran
/// it is back in its loop, ready for the next job, every other worker is
/// untouched, and the pool is in the state in which a successful job would
/// have left it, but for the count of failures.
pub proof fn law_failed_job_leaves_worker_ready<J>(pre: PoolView<J>, w: int)
    requires
        pre.inv(),
        pre.is_busy(w),
    ensures
        pre.complete(w, JobOutcome::Failed).is_waiting(w),
        pre.complete(w, JobOutcome::Failed).enabled(Event::Dispatch(w)),
        forall|other: int|
            0 <= other < pre.workers.len() && other != w ==> pre.complete(
                w,
                JobOutcome::Failed,
            ).workers[other] == pre.workers[other],
        pre.complete(w, JobOutcome::Failed).pending == pre.pending,
        pre.complete(w, JobOutcome::Failed).open == pre.open,
        pre.complete(w, JobOutcome::Failed) == (PoolView {
            failures: pre.failures + 1,
            ..pre.complete(w, JobOutcome::Completed)
        }),
{
    let failed = pre.complete(w, JobOutcome::Failed);
    let completed = pre.complete(w, JobOutcome::Completed);
    assert(failed =~= PoolView { failures: pre.failures + 1, ..completed });
}

/// Shutdown never leaves a worker waiting: once the pool is closed, a worker
/// that asks for work is given a job or told to exit.
pub proof fn law_closed_pool_never_says_wait<J>(pool: PoolView<J>)
    requires
        !pool.open,
    ensures
        pool.action() != WorkerAction::<J>::Wait,
{
}

/// What one worker still has before it: one step to finish the job it holds,
/// if it holds one, and one step to leave its loop, if it is still in it.
pub open spec fn worker_load<J>(worker: WorkerView<J>) -> nat {
    (if worker.running {
        1nat
    } else {
        0nat
    }) + (if worker.current is Some {
        1nat
    } else {
        0nat
    })
}

/// What all the workers together still have before them.
pub open spec fn workers_load<J>(workers: Seq<WorkerView<J>>) -> nat
    decreases workers.len(),
{
    if workers.len() == 0 {
        0
    } else {
        workers_load(workers.drop_last()) + worker_load(workers.last())
    }
}

/// The number of worker steps that separate a closed pool from having
/// stopped: two for each pending job, which has to be taken and finished, and
/// the load of the workers.
pub open spec fn work_left<J>(pool: PoolView<J>) -> nat {
    2 * pool.pending.len() + workers_load(pool.workers)
}

/// Changing one worker changes the load by the difference for that worker.
pub proof fn lemma_workers_load_update<J>(workers: Seq<WorkerView<J>>, w: int, next: WorkerView<J>)
    requires
        0 <= w < workers.len(),
    ensures
        workers_load(workers.update(w, next)) + worker_load(workers[w]) == workers_load(workers)
            + worker_load(next),
    decreases workers.len(),
{
    let rest = workers.drop_last();
    let updated = workers.update(w, next);
    if w == workers.len() - 1 {
        assert(updated.drop_last() =~= rest);
    } else {
        lemma_workers_load_update(rest, w, next);
        assert(updated.drop_last() =~= rest.update(w, next));
    }
}

/// The workers have no load exactly when each of them has none.
pub proof fn lemma_workers_load_zero<J>(workers: Seq<WorkerView<J>>)
    ensures
        workers_load(workers) == 0 <==> forall|w: int|
            0 <= w < workers.len() ==> worker_load(#[trigger] workers[w]) == 0,
    decreases workers.len(),
{
    if workers.len() > 0 {
        let rest = workers.drop_last();
        lemma_workers_load_zero(rest);
        if workers_load(workers) == 0 {
            assert forall|w: int| 0 <= w < workers.len() implies worker_load(
                #[trigger] workers[w],
            ) == 0 by {
                if w < workers.len() - 1 {
                    assert(rest[w] == workers[w]);
                }
            }
        } else if workers_load(rest) != 0 {
            let w = choose|w: int| 0 <= w < rest.len() && worker_load(#[trigger] rest[w]) != 0;
            assert(workers[w] == rest[w]);
        }
    }
}

/// Draining ends. In a closed pool every step of a worker, be it to take a
/// job, to finish one, or to exit, brings the pool exactly one step closer to
/// having stopped.
pub proof fn law_draining_step_reduces_work_left<J>(pre: PoolView<J>, event: Event<J>)
    requires
        pre.inv(),
        !pre.open,
        pre.enabled(event),
        event is Dispatch || event is Complete,
    ensures
        work_left(pre.step(event)) + 1 == work_left(pre),
{
    let post = pre.step(event);
    match event {
        Event::Dispatch(w) => {
            lemma_workers_load_update(pre.workers, w, post.workers[w]);
        },
        Event::Complete(w, _) => {
            lemma_workers_load_update(pre.workers, w, post.workers[w]);
        },
        _ => {},
    }
}

/// A closed pool has stopped exactly when no work is left.
pub proof fn law_closed_pool_stops_when_no_work_is_left<J>(pool: PoolView<J>)
    requires
        pool.inv(),
        !pool.open,
    ensures
        work_left(pool) == 0 <==> pool.state() == PoolState::Stopped,
{
    lemma_workers_load_zero(pool.workers);
    if pool.state() == PoolState::Stopped {
        assert(!pool.workers[0].running);
        assert forall|w: int| 0 <= w < pool.workers.len() implies worker_load(
            #[trigger] pool.workers[w],
        ) == 0 by {
            assert(!pool.workers[w].running);
        }
    }
    if work_left(pool) == 0 {
        assert forall|w: int| 0 <= w < pool.workers.len() implies !(#[trigger] pool.workers[w])
            .running by {
            assert(worker_load(pool.workers[w]) == 0);
        }
    }
}

/// A draining pool is never stuck: some worker is still in its loop, and it
/// can either ask for work, and is then not told to wait, or report the end
/// of the job it is executing.
pub proof fn law_draining_pool_can_proceed<J>(pool: PoolView<J>)
    requires
        pool.inv(),
        pool.state() == PoolState::Draining,
    ensures
        exists|w: int|
            pool.enabled(Event::Dispatch(w)) || pool.enabled(
                Event::Complete(w, JobOutcome::Completed),
            ),
        pool.action() != WorkerAction::<J>::Wait,
{
    let w = choose|w: int| 0 <= w < pool.workers.len() && (#[trigger] pool.workers[w]).running;
    assert(pool.enabled(Event::Dispatch(w)) || pool.enabled(
        Event::Complete(w, JobOutcome::Completed),
    ));
}

} // verus!
