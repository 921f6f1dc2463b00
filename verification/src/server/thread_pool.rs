//! The job queue of the worker pool.
//!
//! The pool's threads live outside this library. What they share is this
//! queue: the listener submits jobs to it, and each worker asks it what to do
//! next. A job that was accepted is handed to one worker, once.

use std::collections::VecDeque;
use vstd::prelude::*;

verus! {

/// Mathematical content of a [`JobQueue`]: whether it still accepts jobs, and
/// the jobs that wait, the oldest first.
pub ghost struct QueueView<J> {
    pub open: bool,
    pub pending: Seq<J>,
}

/// What a worker does next.
pub enum WorkerStep<J> {
    /// Run this job, then ask again.
    Run(J),
    /// Nothing waits: sleep until a job is submitted or the queue is closed,
    /// then ask again.
    Wait,
    /// Nothing waits and nothing will come: leave.
    Exit,
}

/// The queue that was just made: open and empty.
pub open spec fn fresh<J>() -> QueueView<J> {
    QueueView { open: true, pending: Seq::empty() }
}

/// The queue after `job` was submitted: an open queue takes it in at the
/// end, a closed one is unchanged.
pub open spec fn after_submit<J>(queue: QueueView<J>, job: J) -> QueueView<J> {
    if queue.open {
        QueueView { pending: queue.pending.push(job), ..queue }
    } else {
        queue
    }
}

/// The queue after a worker asked for its next step: without its oldest job,
/// where it held one.
pub open spec fn after_take<J>(queue: QueueView<J>) -> QueueView<J> {
    if queue.pending.len() > 0 {
        QueueView { pending: queue.pending.drop_first(), ..queue }
    } else {
        queue
    }
}

/// The queue after it was closed: it accepts nothing more and keeps what
/// waits.
pub open spec fn after_close<J>(queue: QueueView<J>) -> QueueView<J> {
    QueueView { open: false, ..queue }
}

/// A first-in, first-out queue of jobs that can be closed.
pub struct JobQueue<J> {
    open: bool,
    pending: VecDeque<J>,
}

impl<J> View for JobQueue<J> {
    type V = QueueView<J>;

    closed spec fn view(&self) -> QueueView<J> {
        QueueView { open: self.open, pending: self.pending@ }
    }
}

impl<J> JobQueue<J> {
    /// An open queue without jobs.
    pub fn new() -> (queue: JobQueue<J>)
        ensures
            queue@ == fresh::<J>(),
    {
        JobQueue { open: true, pending: VecDeque::new() }
    }

    /// Whether the queue accepts jobs.
    pub fn is_open(&self) -> (open: bool)
        ensures
            open == self@.open,
    {
        self.open
    }

    /// The number of jobs that wait.
    pub fn len(&self) -> (n: usize)
        ensures
            n == self@.pending.len(),
    {
        self.pending.len()
    }

    /// Submits a job. An open queue accepts it behind the jobs that wait; a
    /// closed queue hands it back.
    pub fn submit(&mut self, job: J) -> (refused: Result<(), J>)
        ensures
            final(self)@ == after_submit(old(self)@, job),
            old(self)@.open ==> refused is Ok,
            !old(self)@.open ==> refused == Err::<(), J>(job),
    {
        if self.open {
            self.pending.push_back(job);
            Ok(())
        } else {
            Err(job)
        }
    }

    /// Tells a worker what to do next. The oldest job that waits leaves the
    /// queue with this call, so no other call can hand it out again.
    pub fn next(&mut self) -> (step: WorkerStep<J>)
        ensures
            final(self)@ == after_take(old(self)@),
            match step {
                WorkerStep::Run(job) => old(self)@.pending.len() > 0 && job == old(
                    self,
                )@.pending[0],
                WorkerStep::Wait => old(self)@.pending.len() == 0 && old(self)@.open,
                WorkerStep::Exit => old(self)@.pending.len() == 0 && !old(self)@.open,
            },
    {
        match self.pending.pop_front() {
            Some(job) => {
                assert(self.pending@ =~= old(self).pending@.drop_first());
                WorkerStep::Run(job)
            },
            None => if self.open {
                WorkerStep::Wait
            } else {
                WorkerStep::Exit
            },
        }
    }

    /// Closes the queue. The jobs that wait are still handed out.
    pub fn close(&mut self)
        ensures
            final(self)@ == after_close(old(self)@),
    {
        self.open = false;
    }
}

/// What can happen to a queue.
pub ghost enum QueueOp<J> {
    /// A job is submitted.
    Submit(J),
    /// The worker with this number asks for its next step.
    Take(nat),
    /// The queue is closed.
    Close,
}

/// A queue together with its history: the jobs it accepted, and the jobs it
/// handed out with the worker that got each, both in order.
pub ghost struct History<J> {
    pub queue: QueueView<J>,
    pub accepted: Seq<J>,
    pub delivered: Seq<(nat, J)>,
}

/// The jobs of a run of deliveries, without the workers.
pub open spec fn jobs_of<J>(delivered: Seq<(nat, J)>) -> Seq<J> {
    delivered.map_values(|delivery: (nat, J)| delivery.1)
}

/// The history after one more operation.
pub open spec fn record<J>(history: History<J>, op: QueueOp<J>) -> History<J> {
    match op {
        QueueOp::Submit(job) => History {
            queue: after_submit(history.queue, job),
            accepted: if history.queue.open {
                history.accepted.push(job)
            } else {
                history.accepted
            },
            ..history
        },
        QueueOp::Take(worker) => History {
            queue: after_take(history.queue),
            delivered: if history.queue.pending.len() > 0 {
                history.delivered.push((worker, history.queue.pending[0]))
            } else {
                history.delivered
            },
            ..history
        },
        QueueOp::Close => History { queue: after_close(history.queue), ..history },
    }
}

/// The history of a fresh queue after the operations `ops`, in their order.
pub open spec fn replay<J>(ops: Seq<QueueOp<J>>) -> History<J>
    decreases ops.len(),
{
    if ops.len() == 0 {
        History { queue: fresh(), accepted: Seq::empty(), delivered: Seq::empty() }
    } else {
        record(replay(ops.drop_last()), ops.last())
    }
}

/// No job is lost and none is handed out twice: however submissions, the
/// takes of any number of workers and a close follow one another, the jobs
/// handed out so far, followed by the jobs that wait, are the jobs accepted
/// so far, each once and in order. So every accepted job has gone to exactly
/// one worker or still waits.
pub proof fn lemma_every_job_once<J>(ops: Seq<QueueOp<J>>)
    ensures
        jobs_of(replay(ops).delivered) + replay(ops).queue.pending == replay(ops).accepted,
    decreases ops.len(),
{
    if ops.len() == 0 {
        assert(jobs_of(Seq::<(nat, J)>::empty()) + Seq::<J>::empty() =~= Seq::<J>::empty());
    } else {
        let before = replay(ops.drop_last());
        let after = replay(ops);
        lemma_every_job_once(ops.drop_last());
        assert(jobs_of(after.delivered) + after.queue.pending =~= after.accepted);
    }
}

/// The operations that submit `jobs`, in their order.
pub open spec fn submissions<J>(jobs: Seq<J>) -> Seq<QueueOp<J>> {
    jobs.map_values(|job: J| QueueOp::Submit(job))
}

/// One take by each of `workers`, in their order.
pub open spec fn takes_by<J>(workers: Seq<nat>) -> Seq<QueueOp<J>> {
    workers.map_values(|worker: nat| QueueOp::Take(worker))
}

/// A fresh queue accepts every job submitted to it and hands nothing out
/// before it is asked to.
pub proof fn lemma_submissions_wait<J>(jobs: Seq<J>)
    ensures
        replay(submissions(jobs)) == (History {
            queue: QueueView { open: true, pending: jobs },
            accepted: jobs,
            delivered: Seq::empty(),
        }),
    decreases jobs.len(),
{
    let ops = submissions(jobs);
    if jobs.len() == 0 {
        assert(jobs =~= Seq::<J>::empty());
    } else {
        lemma_submissions_wait(jobs.drop_last());
        assert(ops.drop_last() =~= submissions(jobs.drop_last()));
        assert(ops.last() == QueueOp::Submit(jobs.last()));
        assert(jobs.drop_last().push(jobs.last()) =~= jobs);
    }
}

/// After the jobs `jobs` were submitted, the takes of `workers`, no more of
/// them than jobs, hand out the first jobs in order, one to each worker in
/// turn, and leave the others waiting.
pub proof fn lemma_takes_deliver_in_order<J>(jobs: Seq<J>, workers: Seq<nat>)
    requires
        workers.len() <= jobs.len(),
    ensures
        replay(submissions(jobs) + takes_by(workers)) == (History {
            queue: QueueView { open: true, pending: jobs.skip(workers.len() as int) },
            accepted: jobs,
            delivered: Seq::new(workers.len(), |i: int| (workers[i], jobs[i])),
        }),
    decreases workers.len(),
{
    let ops = submissions(jobs) + takes_by::<J>(workers);
    let expected = Seq::new(workers.len(), |i: int| (workers[i], jobs[i]));
    if workers.len() == 0 {
        assert(ops =~= submissions(jobs));
        lemma_submissions_wait(jobs);
        assert(jobs.skip(0) =~= jobs);
        assert(expected =~= Seq::<(nat, J)>::empty());
    } else {
        let fewer = workers.drop_last();
        lemma_takes_deliver_in_order(jobs, fewer);
        assert(ops.drop_last() =~= submissions(jobs) + takes_by::<J>(fewer));
        assert(ops.last() == QueueOp::<J>::Take(workers.last()));
        assert(jobs.skip(fewer.len() as int).drop_first() =~= jobs.skip(workers.len() as int));
        assert(Seq::new(fewer.len(), |i: int| (fewer[i], jobs[i])).push(
            (workers.last(), jobs.skip(fewer.len() as int)[0]),
        ) =~= expected);
    }
}

/// K jobs submitted to a pool of any number of workers, and K takes, by
/// whichever workers: exactly the K jobs are handed out, each once, in the
/// order of their submission, and none waits any more. A take after that
/// hands out nothing.
pub proof fn lemma_all_jobs_delivered<J>(jobs: Seq<J>, workers: Seq<nat>, late: nat)
    requires
        workers.len() == jobs.len(),
    ensures
        jobs_of(replay(submissions(jobs) + takes_by(workers)).delivered) == jobs,
        replay(submissions(jobs) + takes_by(workers)).queue.pending.len() == 0,
        record(replay(submissions(jobs) + takes_by(workers)), QueueOp::Take(late)).delivered
            == replay(submissions(jobs) + takes_by(workers)).delivered,
{
    lemma_takes_deliver_in_order(jobs, workers);
    assert(jobs_of(Seq::new(workers.len(), |i: int| (workers[i], jobs[i]))) =~= jobs);
}

} // verus!
