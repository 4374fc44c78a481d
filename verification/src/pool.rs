//! The worker pool: a fixed set of workers and the queue that feeds them.
//!
//! The pool is the bookkeeping behind the threads. Whoever runs the threads
//! keeps it behind a lock; a worker asks it for its next turn, runs the job it
//! was given to completion, reports that it is done and asks again. Messages
//! leave the queue in the order in which they entered it, each to one worker.

use vstd::prelude::*;
use std::collections::VecDeque;
use vstd::string::StringExecFns;

verus! {

/// A pool cannot be built without workers.
#[derive(Debug, PartialEq, Eq)]
pub struct PoolCreationError;

impl PoolCreationError {
    /// The error as text.
    pub fn message(&self) -> (r: String)
        ensures
            r@ == "Size must be greater than zero"@,
    {
        String::from_str("Size must be greater than zero")
    }
}

/// What travels through the queue.
#[derive(Debug, PartialEq, Eq)]
pub enum Message<J> {
    /// A job to run.
    NewJob(J),
    /// The signal to exit.
    Terminate,
}

/// What a worker is doing.
#[derive(Clone, Copy, Debug, PartialEq, Eq, Structural)]
pub enum WorkerState {
    /// Waiting for a message.
    Idle,
    /// Running a job.
    Busy,
    /// Gone, after a terminate signal.
    Exited,
}

/// One execution unit of the pool.
#[derive(Clone, Copy, Debug, PartialEq, Eq)]
pub struct Worker {
    pub id: usize,
    pub state: WorkerState,
}

/// What a worker is to do next.
#[derive(Debug, PartialEq, Eq)]
pub enum Turn<J> {
    /// Run this job to completion, then report and ask again.
    Run(J),
    /// Leave the loop.
    Exit,
    /// Nothing is queued: block until something is.
    Wait,
}

/// The pool as plain values.
pub struct PoolView<J> {
    /// The state of each worker, by its number.
    pub workers: Seq<WorkerState>,
    /// The messages that no worker has taken yet, oldest first.
    pub queue: Seq<Message<J>>,
    /// Whether the terminate signals were sent.
    pub terminating: bool,
}

impl<J> PoolView<J> {
    /// The worker with this number exists and waits for a message.
    pub open spec fn idle(self, worker: int) -> bool {
        0 <= worker < self.workers.len() && self.workers[worker] == WorkerState::Idle
    }

    /// The pool after a job was submitted: the job is queued behind all
    /// others, whatever the workers are doing. Once the terminate signals were
    /// sent no job is taken any more.
    pub open spec fn submit(self, job: J) -> PoolView<J> {
        if self.terminating {
            self
        } else {
            PoolView { queue: self.queue.push(Message::NewJob(job)), ..self }
        }
    }

    /// The pool after all of `jobs` were submitted, in order.
    pub open spec fn submit_all(self, jobs: Seq<J>) -> PoolView<J>
        decreases jobs.len(),
    {
        if jobs.len() == 0 {
            self
        } else {
            self.submit_all(jobs.drop_last()).submit(jobs.last())
        }
    }

    /// The pool after a worker asked for its next turn: a worker that waits
    /// takes the oldest message, if there is one.
    pub open spec fn take(self, worker: int) -> PoolView<J> {
        if self.idle(worker) && self.queue.len() > 0 {
            PoolView {
                workers: self.workers.update(
                    worker,
                    match self.queue[0] {
                        Message::NewJob(_) => WorkerState::Busy,
                        Message::Terminate => WorkerState::Exited,
                    },
                ),
                queue: self.queue.skip(1),
                ..self
            }
        } else {
            self
        }
    }

    /// The pool after a worker reported that its job is done.
    pub open spec fn finish(self, worker: int) -> PoolView<J> {
        if 0 <= worker < self.workers.len() && self.workers[worker] == WorkerState::Busy {
            PoolView { workers: self.workers.update(worker, WorkerState::Idle), ..self }
        } else {
            self
        }
    }

    /// The pool after it was told to shut down: one terminate signal for each
    /// worker, behind whatever is queued. A second call changes nothing.
    pub open spec fn shut_down(self) -> PoolView<J> {
        if self.terminating {
            self
        } else {
            PoolView {
                queue: self.queue + Seq::new(self.workers.len(), |i: int| Message::Terminate),
                terminating: true,
                ..self
            }
        }
    }
}

/// The messages that carry these jobs, in order.
pub open spec fn as_messages<J>(jobs: Seq<J>) -> Seq<Message<J>> {
    Seq::new(jobs.len(), |i: int| Message::NewJob(jobs[i]))
}

/// Number of workers that run a job.
pub open spec fn count_busy(workers: Seq<WorkerState>) -> nat
    decreases workers.len(),
{
    if workers.len() == 0 {
        0
    } else {
        count_busy(workers.drop_last()) + if workers.last() == WorkerState::Busy {
            1nat
        } else {
            0nat
        }
    }
}

/// No more jobs run at a time than there are workers.
pub proof fn lemma_busy_bounded(workers: Seq<WorkerState>)
    ensures
        count_busy(workers) <= workers.len(),
    decreases workers.len(),
{
    if workers.len() > 0 {
        lemma_busy_bounded(workers.drop_last());
    }
}

/// A saturated pool drops nothing: jobs that are submitted while no worker is
/// free are queued, all of them and in order, behind what was queued before,
/// and no worker is disturbed.
pub proof fn lemma_excess_jobs_wait<J>(pool: PoolView<J>, jobs: Seq<J>)
    requires
        !pool.terminating,
    ensures
        pool.submit_all(jobs).queue == pool.queue + as_messages(jobs),
        pool.submit_all(jobs).workers == pool.workers,
        !pool.submit_all(jobs).terminating,
    decreases jobs.len(),
{
    if jobs.len() == 0 {
        assert(pool.queue + as_messages(jobs) =~= pool.queue);
    } else {
        lemma_excess_jobs_wait(pool, jobs.drop_last());
        assert(pool.queue + as_messages(jobs) =~= (pool.queue + as_messages(
            jobs.drop_last(),
        )).push(Message::NewJob(jobs.last())));
    }
}

impl<J> PoolView<J> {
    /// The pool after each of the first `n` workers asked for its next turn,
    /// in the order of their numbers.
    pub open spec fn take_each(self, n: nat) -> PoolView<J>
        decreases n,
    {
        if n == 0 {
            self
        } else {
            self.take_each((n - 1) as nat).take(n - 1)
        }
    }
}

/// A pool with enough workers serves all at once: where as many workers wait
/// as jobs are queued, each of them takes one job, in order, and no job is
/// left waiting.
pub proof fn lemma_enough_workers<J>(pool: PoolView<J>, jobs: Seq<J>)
    requires
        pool.queue == as_messages(jobs),
        jobs.len() <= pool.workers.len(),
        forall|i: int| 0 <= i < jobs.len() ==> #[trigger] pool.workers[i] == WorkerState::Idle,
    ensures
        pool.take_each(jobs.len()).queue.len() == 0,
        pool.take_each(jobs.len()).workers.len() == pool.workers.len(),
        forall|i: int|
            0 <= i < jobs.len() ==> #[trigger] pool.take_each(jobs.len()).workers[i]
                == WorkerState::Busy,
        forall|i: int|
            jobs.len() <= i < pool.workers.len() ==> #[trigger] pool.take_each(
                jobs.len(),
            ).workers[i] == pool.workers[i],
{
    lemma_served_in_order(pool, jobs, jobs.len());
    assert(as_messages(jobs).skip(jobs.len() as int).len() == 0);
}

proof fn lemma_served_in_order<J>(pool: PoolView<J>, jobs: Seq<J>, k: nat)
    requires
        pool.queue == as_messages(jobs),
        k <= jobs.len() <= pool.workers.len(),
        forall|i: int| 0 <= i < jobs.len() ==> #[trigger] pool.workers[i] == WorkerState::Idle,
    ensures
        pool.take_each(k).queue == as_messages(jobs).skip(k as int),
        pool.take_each(k).workers.len() == pool.workers.len(),
        forall|i: int| 0 <= i < k ==> #[trigger] pool.take_each(k).workers[i] == WorkerState::Busy,
        forall|i: int|
            k <= i < pool.workers.len() ==> #[trigger] pool.take_each(k).workers[i]
                == pool.workers[i],
    decreases k,
{
    if k == 0 {
        assert(as_messages(jobs).skip(0) =~= as_messages(jobs));
    } else {
        lemma_served_in_order(pool, jobs, (k - 1) as nat);
        let before = pool.take_each((k - 1) as nat);
        let after = before.take(k - 1);
        assert(before.workers[k - 1] == pool.workers[k - 1]);
        assert(before.idle(k - 1));
        assert(before.queue.len() > 0);
        assert(before.queue[0] == as_messages(jobs)[k - 1]);
        assert(before.queue.skip(1) =~= as_messages(jobs).skip(k as int));
        assert forall|i: int| 0 <= i < k implies #[trigger] after.workers[i]
            == WorkerState::Busy by {
            if i < k - 1 {
                assert(before.workers[i] == WorkerState::Busy);
            }
        }
        assert forall|i: int| k <= i < pool.workers.len() implies #[trigger] after.workers[i]
            == pool.workers[i] by {
            assert(before.workers[i] == pool.workers[i]);
        }
    }
}

/// A job that waited is served as soon as a worker is free: the worker that
/// finishes and asks again takes the oldest message, and only that one.
pub proof fn lemma_oldest_served_first<J>(pool: PoolView<J>, worker: int)
    requires
        0 <= worker < pool.workers.len(),
        pool.workers[worker] == WorkerState::Busy,
        pool.queue.len() > 0,
    ensures
        pool.finish(worker).take(worker).queue == pool.queue.skip(1),
        pool.queue[0] is NewJob ==> pool.finish(worker).take(worker).workers == pool.workers,
{
    let after = pool.finish(worker);
    assert(after.idle(worker));
    if pool.queue[0] is NewJob {
        assert(after.take(worker).workers =~= pool.workers);
    }
}

/// A fixed set of workers and the queue of what they are to do.
#[derive(Debug, PartialEq, Eq)]
pub struct Threadpool<J> {
    threads: Vec<Worker>,
    queue: VecDeque<Message<J>>,
    terminating: bool,
}

pub open spec fn worker_states(threads: Seq<Worker>) -> Seq<WorkerState> {
    Seq::new(threads.len(), |i: int| threads[i].state)
}

impl<J> Threadpool<J> {
    /// The pool as plain values.
    pub closed spec fn view(&self) -> PoolView<J> {
        PoolView {
            workers: worker_states(self.threads@),
            queue: self.queue@,
            terminating: self.terminating,
        }
    }

    /// A pool of `size` workers, all waiting, with nothing queued. A pool
    /// without workers is refused.
    pub fn build(size: usize) -> (r: Result<Threadpool<J>, PoolCreationError>)
        ensures
            match r {
                Ok(pool) => {
                    &&& size > 0
                    &&& pool@.workers == Seq::new(size as nat, |i: int| WorkerState::Idle)
                    &&& pool@.queue == Seq::<Message<J>>::empty()
                    &&& !pool@.terminating
                },
                Err(_) => size == 0,
            },
    {
        if size == 0 {
            return Err(PoolCreationError);
        }
        let mut threads: Vec<Worker> = Vec::new();
        let mut id: usize = 0;
        while id < size
            invariant
                id <= size,
                threads@.len() == id,
                forall|i: int| 0 <= i < id ==> (#[trigger] threads@[i]).id == i,
                forall|i: int| 0 <= i < id ==> (#[trigger] threads@[i]).state == WorkerState::Idle,
            decreases size - id,
        {
            threads.push(Worker { id, state: WorkerState::Idle });
            id += 1;
        }
        let pool = Threadpool { threads, queue: VecDeque::new(), terminating: false };
        assert(pool@.workers =~= Seq::new(size as nat, |i: int| WorkerState::Idle));
        Ok(pool)
    }

    /// Number of workers.
    pub fn size(&self) -> (n: usize)
        ensures
            n == self@.workers.len(),
    {
        self.threads.len()
    }

    /// Number of messages that wait for a worker.
    pub fn queued(&self) -> (n: usize)
        ensures
            n == self@.queue.len(),
    {
        self.queue.len()
    }

    /// Number of workers that run a job.
    pub fn busy(&self) -> (n: usize)
        ensures
            n == count_busy(self@.workers),
            n <= self@.workers.len(),
    {
        let ghost states = worker_states(self.threads@);
        let mut n: usize = 0;
        let mut i: usize = 0;
        assert(states.take(0) =~= Seq::<WorkerState>::empty());
        while i < self.threads.len()
            invariant
                i <= self.threads@.len(),
                states == worker_states(self.threads@),
                n == count_busy(states.take(i as int)),
                n <= i,
            decreases self.threads@.len() - i,
        {
            proof {
                let next = states.take(i + 1);
                assert(next.drop_last() =~= states.take(i as int));
                assert(next.last() == self.threads@[i as int].state);
            }
            if self.threads[i].state == WorkerState::Busy {
                n += 1;
            }
            i += 1;
        }
        assert(states.take(i as int) =~= states);
        n
    }

    /// Whether the terminate signals were sent.
    pub fn is_terminating(&self) -> (b: bool)
        ensures
            b == self@.terminating,
    {
        self.terminating
    }

    /// What the worker with this number is doing; `None` for a number that no
    /// worker has.
    pub fn state_of(&self, worker: usize) -> (r: Option<WorkerState>)
        ensures
            r == if worker < self@.workers.len() {
                Some(self@.workers[worker as int])
            } else {
                None
            },
    {
        if worker < self.threads.len() {
            Some(self.threads[worker].state)
        } else {
            None
        }
    }

    /// Submits a job. It is queued behind all others and taken by the first
    /// worker that is free; it is never refused because the workers are busy.
    /// A pool that is shutting down takes no job and hands it back.
    pub fn execute(&mut self, job: J) -> (r: Option<J>)
        ensures
            final(self)@ == old(self)@.submit(job),
            r == if old(self)@.terminating {
                Some(job)
            } else {
                None
            },
    {
        if self.terminating {
            return Some(job);
        }
        self.queue.push_back(Message::NewJob(job));
        None
    }

    /// The next turn of a worker. A worker that waits takes the oldest
    /// message: a job to run, or the signal to exit. With nothing queued, and
    /// for a worker that does not wait, the turn is to wait.
    pub fn next_turn(&mut self, worker: usize) -> (r: Turn<J>)
        ensures
            final(self)@ == old(self)@.take(worker as int),
            r == if old(self)@.idle(worker as int) && old(self)@.queue.len() > 0 {
                match old(self)@.queue[0] {
                    Message::NewJob(job) => Turn::Run(job),
                    Message::Terminate => Turn::Exit,
                }
            } else {
                Turn::Wait
            },
    {
        if worker >= self.threads.len() || self.threads[worker].state != WorkerState::Idle {
            return Turn::Wait;
        }
        match self.queue.pop_front() {
            None => Turn::Wait,
            Some(Message::NewJob(job)) => {
                self.threads.set(worker, Worker { id: worker, state: WorkerState::Busy });
                assert(self@.workers =~= old(self)@.take(worker as int).workers);
                Turn::Run(job)
            },
            Some(Message::Terminate) => {
                self.threads.set(worker, Worker { id: worker, state: WorkerState::Exited });
                assert(self@.workers =~= old(self)@.take(worker as int).workers);
                Turn::Exit
            },
        }
    }

    /// Records that a worker has run its job to completion.
    pub fn job_done(&mut self, worker: usize)
        ensures
            final(self)@ == old(self)@.finish(worker as int),
    {
        if worker < self.threads.len() && self.threads[worker].state == WorkerState::Busy {
            self.threads.set(worker, Worker { id: worker, state: WorkerState::Idle });
            assert(self@.workers =~= old(self)@.finish(worker as int).workers);
        }
    }

    /// Tells every worker to exit: one terminate signal for each, behind what
    /// is queued, so that jobs under way and jobs queued are still run.
    pub fn shutdown(&mut self)
        ensures
            final(self)@ == old(self)@.shut_down(),
    {
        if self.terminating {
            return ;
        }
        let count = self.threads.len();
        let mut i: usize = 0;
        let ghost before = self.queue@;
        assert(before + Seq::new(0, |k: int| Message::<J>::Terminate) =~= before);
        while i < count
            invariant
                i <= count,
                count == self.threads@.len(),
                self.threads@ == old(self).threads@,
                self.terminating == old(self).terminating,
                self.queue@ == before + Seq::new(i as nat, |k: int| Message::<J>::Terminate),
            decreases count - i,
        {
            self.queue.push_back(Message::Terminate);
            assert(self.queue@ =~= before + Seq::new((i + 1) as nat, |k: int| Message::<J>::Terminate));
            i += 1;
        }
        self.terminating = true;
    }

    /// Whether every worker has left its loop.
    pub fn all_exited(&self) -> (b: bool)
        ensures
            b == forall|i: int|
                0 <= i < self@.workers.len() ==> #[trigger] self@.workers[i]
                    == WorkerState::Exited,
    {
        let mut i: usize = 0;
        while i < self.threads.len()
            invariant
                i <= self.threads@.len(),
                forall|k: int|
                    0 <= k < i ==> (#[trigger] worker_states(self.threads@)[k])
                        == WorkerState::Exited,
            decreases self.threads@.len() - i,
        {
            if self.threads[i].state != WorkerState::Exited {
                assert(worker_states(self.threads@)[i as int] != WorkerState::Exited);
                return false;
            }
            i += 1;
        }
        true
    }
}

} // verus!
