//! A fixed-size worker pool, modelled as a state machine.
//!
//! Jobs are identified by tickets, handed out in submission order. The
//! queue of pending tickets is FIFO; each worker is either waiting for a
//! job, executing one, or terminated. The host runs the threads and the
//! closures, and asks the pool what to do at every step.
use vstd::prelude::*;

verus! {

/// Why a submission was refused.
#[derive(Debug, Clone, Copy, PartialEq, Eq, Structural)]
pub enum SubmitError {
    /// The enqueue side has been closed by a shutdown.
    Closed,
    /// Every ticket number has been used.
    Exhausted,
}

/// The model of a job queue.
pub struct QueueView {
    /// Tickets waiting to be taken, oldest first.
    pub pending: Seq<u64>,
    /// How many tickets were ever issued.
    pub issued: nat,
    /// Whether the enqueue side accepts jobs.
    pub open: bool,
}

impl QueueView {
    /// How many tickets have been taken off the queue.
    pub open spec fn taken(self) -> int {
        self.issued - self.pending.len()
    }
}

/// A FIFO of job tickets with a one-way close.
///
/// Tickets are numbered from zero in submission order, so the pending
/// part is the range of tickets issued but not yet taken.
pub struct JobQueue {
    head: u64,
    tail: u64,
    open: bool,
}

impl View for JobQueue {
    type V = QueueView;

    closed spec fn view(&self) -> QueueView {
        QueueView {
            pending: Seq::new((self.tail - self.head) as nat, |i: int| (self.head + i) as u64),
            issued: self.tail as nat,
            open: self.open,
        }
    }
}

/// The tickets `lo, lo + 1, ..., hi - 1`, in order.
pub open spec fn ticket_range(lo: int, hi: int) -> Seq<u64> {
    Seq::new((hi - lo) as nat, |i: int| (lo + i) as u64)
}

impl JobQueue {
    /// The queue's internal consistency.
    pub closed spec fn wf(&self) -> bool {
        self.head <= self.tail
    }

    /// An empty, open queue.
    pub fn new() -> (r: JobQueue)
        ensures
            r.wf(),
            r@.pending.len() == 0,
            r@.issued == 0,
            r@.open,
    {
        JobQueue { head: 0, tail: 0, open: true }
    }

    /// The pending tickets are the consecutive range after the taken ones.
    pub proof fn lemma_pending_range(&self)
        requires
            self.wf(),
        ensures
            self@.pending == ticket_range(self@.taken(), self@.issued as int),
            self@.taken() >= 0,
            self@.issued <= u64::MAX,
    {
        assert(self@.pending =~= ticket_range(self@.taken(), self@.issued as int));
    }

    /// Appends a new ticket at the tail.
    pub fn push(&mut self) -> (r: Result<u64, SubmitError>)
        requires
            old(self).wf(),
        ensures
            final(self).wf(),
            !old(self)@.open ==> r == Err::<u64, SubmitError>(SubmitError::Closed),
            old(self)@.open && old(self)@.issued == u64::MAX ==> r == Err::<u64, SubmitError>(
                SubmitError::Exhausted,
            ),
            r.is_err() ==> final(self)@ == old(self)@,
            old(self)@.open && old(self)@.issued < u64::MAX ==> {
                &&& r == Ok::<u64, SubmitError>(old(self)@.issued as u64)
                &&& final(self)@.pending == old(self)@.pending.push(old(self)@.issued as u64)
                &&& final(self)@.issued == old(self)@.issued + 1
                &&& final(self)@.open
            },
    {
        if !self.open {
            return Err(SubmitError::Closed);
        }
        if self.tail == u64::MAX {
            return Err(SubmitError::Exhausted);
        }
        let t = self.tail;
        self.tail = self.tail + 1;
        assert(self@.pending =~= old(self)@.pending.push(t));
        Ok(t)
    }

    /// Takes the oldest pending ticket, if any.
    pub fn pop(&mut self) -> (r: Option<u64>)
        requires
            old(self).wf(),
        ensures
            final(self).wf(),
            old(self)@.pending.len() == 0 ==> r.is_none() && final(self)@ == old(self)@,
            old(self)@.pending.len() > 0 ==> {
                &&& r == Some(old(self)@.pending[0])
                &&& final(self)@.pending == old(self)@.pending.drop_first()
                &&& final(self)@.issued == old(self)@.issued
                &&& final(self)@.open == old(self)@.open
            },
    {
        if self.head == self.tail {
            return None;
        }
        let t = self.head;
        self.head = self.head + 1;
        assert(self@.pending =~= old(self)@.pending.drop_first());
        Some(t)
    }

    /// Closes the enqueue side; returns whether this call closed it.
    pub fn close(&mut self) -> (r: bool)
        requires
            old(self).wf(),
        ensures
            final(self).wf(),
            r == old(self)@.open,
            final(self)@.pending == old(self)@.pending,
            final(self)@.issued == old(self)@.issued,
            !final(self)@.open,
    {
        let was_open = self.open;
        self.open = false;
        was_open
    }

    /// Whether the enqueue side still accepts jobs.
    pub fn is_open(&self) -> (r: bool)
        ensures
            r == self@.open,
    {
        self.open
    }

    /// How many tickets are waiting.
    pub fn len(&self) -> (r: u64)
        requires
            self.wf(),
        ensures
            r == self@.pending.len(),
    {
        self.tail - self.head
    }
}

/// Why a pool could not be built.
#[derive(Debug, Clone, Copy, PartialEq, Eq, Structural)]
pub enum BuildError {
    /// A pool needs at least one worker.
    ZeroSize,
}

/// The state of one worker.
#[derive(Debug, Clone, Copy, PartialEq, Eq, Structural)]
pub enum WorkerState {
    /// Blocked on the queue, holding no job.
    Waiting,
    /// Running the job with this ticket.
    Executing(u64),
    /// Left its loop after seeing the queue closed and empty.
    Terminated,
}

/// What a waiting worker is told to do next.
#[derive(Debug, Clone, Copy, PartialEq, Eq, Structural)]
pub enum Dispatch {
    /// Run the job with this ticket.
    Run(u64),
    /// Nothing queued yet: block until a submission or a shutdown.
    Wait,
    /// The queue is closed and drained: leave the loop.
    Exit,
}

/// The model of a pool.
pub struct PoolView {
    pub queue: QueueView,
    /// The state of each worker, by ordinal.
    pub workers: Seq<WorkerState>,
    /// The tickets of the finished jobs, in order of completion.
    pub finished: Seq<u64>,
}

/// How many of the workers are executing a job.
pub open spec fn busy_count(ws: Seq<WorkerState>) -> nat
    decreases ws.len(),
{
    if ws.len() == 0 {
        0
    } else {
        busy_count(ws.drop_last()) + if ws.last() is Executing {
            1nat
        } else {
            0nat
        }
    }
}

/// Whether some worker is executing the job with ticket `t`.
pub open spec fn running(ws: Seq<WorkerState>, t: u64) -> bool {
    exists|w: int| 0 <= w < ws.len() && ws[w] == WorkerState::Executing(t)
}

/// Whether every worker has terminated.
pub open spec fn all_terminated(ws: Seq<WorkerState>) -> bool {
    forall|w: int| 0 <= w < ws.len() ==> ws[w] == WorkerState::Terminated
}

proof fn lemma_busy_update(ws: Seq<WorkerState>, i: int, s: WorkerState)
    requires
        0 <= i < ws.len(),
    ensures
        busy_count(ws.update(i, s)) + (if ws[i] is Executing { 1int } else { 0int })
            == busy_count(ws) + (if s is Executing { 1int } else { 0int }),
    decreases ws.len(),
{
    let u = ws.update(i, s);
    if i == ws.len() - 1 {
        assert(u.drop_last() =~= ws.drop_last());
    } else {
        assert(u.drop_last() =~= ws.drop_last().update(i, s));
        lemma_busy_update(ws.drop_last(), i, s);
    }
}

proof fn lemma_busy_none(ws: Seq<WorkerState>)
    requires
        forall|w: int| 0 <= w < ws.len() ==> !(ws[w] is Executing),
    ensures
        busy_count(ws) == 0,
    decreases ws.len(),
{
    if ws.len() > 0 {
        lemma_busy_none(ws.drop_last());
    }
}

proof fn lemma_busy_bound(ws: Seq<WorkerState>)
    ensures
        busy_count(ws) <= ws.len(),
    decreases ws.len(),
{
    if ws.len() > 0 {
        lemma_busy_bound(ws.drop_last());
    }
}

/// The decisions of a fixed-size worker pool.
///
/// Submissions take a ticket from the queue; each worker asks for its next
/// job, reports when the job has returned, and terminates once the queue is
/// closed and drained. A shutdown closes the queue exactly once.
pub struct PoolCore {
    queue: JobQueue,
    workers: Vec<WorkerState>,
    completed: u64,
    finished: Ghost<Seq<u64>>,
}

impl View for PoolCore {
    type V = PoolView;

    closed spec fn view(&self) -> PoolView {
        PoolView { queue: self.queue@, workers: self.workers@, finished: self.finished@ }
    }
}

impl PoolCore {
    /// The pool's invariant.
    ///
    /// Every ticket taken off the queue is either running on exactly one
    /// worker or finished exactly once, and a worker only terminates after
    /// the queue is closed and empty.
    pub closed spec fn wf(&self) -> bool {
        let q = self.queue@;
        let ws = self.workers@;
        let f = self.finished@;
        &&& self.queue.wf()
        &&& ws.len() > 0
        &&& self.completed == f.len()
        &&& f.no_duplicates()
        &&& f.len() + busy_count(ws) == q.taken()
        &&& forall|i: int| 0 <= i < f.len() ==> f[i] < q.taken()
        &&& forall|w: int|
            0 <= w < ws.len() && #[trigger] ws[w] is Executing ==> ws[w]->Executing_0 < q.taken()
                && !f.contains(ws[w]->Executing_0)
        &&& forall|w1: int, w2: int|
            0 <= w1 < ws.len() && 0 <= w2 < ws.len() && #[trigger] ws[w1] is Executing
                && #[trigger] ws[w2] is Executing && ws[w1]->Executing_0 == ws[w2]->Executing_0
                ==> w1 == w2
        &&& forall|t: u64| t < q.taken() ==> f.contains(t) || running(ws, t)
        &&& (exists|w: int| 0 <= w < ws.len() && ws[w] == WorkerState::Terminated) ==> !q.open
            && q.pending.len() == 0
        &&& ws.len() == 1 ==> forall|i: int| 0 <= i < f.len() ==> f[i] == i
    }

    /// A pool of `size` waiting workers around an empty, open queue.
    pub fn new(size: usize) -> (r: PoolCore)
        requires
            size > 0,
        ensures
            r.wf(),
            r@.queue.pending.len() == 0,
            r@.queue.issued == 0,
            r@.queue.open,
            r@.workers == Seq::new(size as nat, |w: int| WorkerState::Waiting),
            r@.finished.len() == 0,
    {
        let queue = JobQueue::new();
        let mut workers: Vec<WorkerState> = Vec::with_capacity(size);
        let mut i: usize = 0;
        while i < size
            invariant
                i <= size,
                workers@ == Seq::new(i as nat, |w: int| WorkerState::Waiting),
            decreases size - i,
        {
            workers.push(WorkerState::Waiting);
            i = i + 1;
            assert(workers@ =~= Seq::new(i as nat, |w: int| WorkerState::Waiting));
        }
        let r = PoolCore { queue, workers, completed: 0, finished: Ghost(Seq::empty()) };
        proof {
            lemma_busy_none(r.workers@);
        }
        r
    }

    /// Like `new`, but a size of zero is reported rather than ruled out.
    pub fn build(size: usize) -> (r: Result<PoolCore, BuildError>)
        ensures
            size == 0 <==> r == Err::<PoolCore, BuildError>(BuildError::ZeroSize),
            r matches Ok(p) ==> {
                &&& p.wf()
                &&& p@.queue.pending.len() == 0
                &&& p@.queue.issued == 0
                &&& p@.queue.open
                &&& p@.workers == Seq::new(size as nat, |w: int| WorkerState::Waiting)
                &&& p@.finished.len() == 0
            },
    {
        if size == 0 {
            Err(BuildError::ZeroSize)
        } else {
            Ok(PoolCore::new(size))
        }
    }

    /// Enqueues a new job at the tail and returns its ticket.
    ///
    /// Refused once a shutdown has begun, and when the ticket numbers are
    /// used up; a refusal changes nothing.
    pub fn submit(&mut self) -> (r: Result<u64, SubmitError>)
        requires
            old(self).wf(),
        ensures
            final(self).wf(),
            !old(self)@.queue.open ==> r == Err::<u64, SubmitError>(SubmitError::Closed),
            old(self)@.queue.open && old(self)@.queue.issued == u64::MAX ==> r == Err::<
                u64,
                SubmitError,
            >(SubmitError::Exhausted),
            r.is_err() ==> final(self)@ == old(self)@,
            old(self)@.queue.open && old(self)@.queue.issued < u64::MAX ==> {
                &&& r == Ok::<u64, SubmitError>(old(self)@.queue.issued as u64)
                &&& final(self)@.queue.pending == old(self)@.queue.pending.push(
                    old(self)@.queue.issued as u64,
                )
                &&& final(self)@.queue.issued == old(self)@.queue.issued + 1
                &&& final(self)@.queue.open
                &&& final(self)@.workers == old(self)@.workers
                &&& final(self)@.finished == old(self)@.finished
            },
    {
        let r = self.queue.push();
        assert(self.queue@.taken() == old(self).queue@.taken());
        r
    }

    /// Decides what waiting worker `w` does next.
    ///
    /// It takes the oldest pending job if there is one; otherwise it waits
    /// while the queue is open, and terminates once it is closed.
    pub fn next_job(&mut self, w: usize) -> (r: Dispatch)
        requires
            old(self).wf(),
            w < old(self)@.workers.len(),
            old(self)@.workers[w as int] == WorkerState::Waiting,
        ensures
            final(self).wf(),
            final(self)@.finished == old(self)@.finished,
            final(self)@.queue.issued == old(self)@.queue.issued,
            final(self)@.queue.open == old(self)@.queue.open,
            old(self)@.queue.pending.len() > 0 ==> {
                &&& r == Dispatch::Run(old(self)@.queue.pending[0])
                &&& final(self)@.queue.pending == old(self)@.queue.pending.drop_first()
                &&& final(self)@.workers == old(self)@.workers.update(
                    w as int,
                    WorkerState::Executing(old(self)@.queue.pending[0]),
                )
            },
            old(self)@.queue.pending.len() == 0 && old(self)@.queue.open ==> r == Dispatch::Wait
                && final(self)@ == old(self)@,
            old(self)@.queue.pending.len() == 0 && !old(self)@.queue.open ==> {
                &&& r == Dispatch::Exit
                &&& final(self)@.queue == old(self)@.queue
                &&& final(self)@.workers == old(self)@.workers.update(
                    w as int,
                    WorkerState::Terminated,
                )
            },
    {
        proof {
            self.queue.lemma_pending_range();
        }
        let ghost ws = self.workers@;
        match self.queue.pop() {
            Some(t) => {
                self.workers.set(w, WorkerState::Executing(t));
                proof {
                    lemma_busy_update(ws, w as int, WorkerState::Executing(t));
                    let ws2 = self.workers@;
                    let f = self.finished@;
                    let taken = self.queue@.taken();
                    assert(t == taken - 1);
                    assert forall|w1: int, w2: int|
                        0 <= w1 < ws2.len() && 0 <= w2 < ws2.len() && #[trigger] ws2[w1] is Executing
                            && #[trigger] ws2[w2] is Executing && ws2[w1]->Executing_0
                            == ws2[w2]->Executing_0 implies w1 == w2 by {
                        if w1 != w && w2 != w {
                            assert(ws[w1] == ws2[w1] && ws[w2] == ws2[w2]);
                        } else if w1 == w && w2 != w {
                            assert(ws[w2] == ws2[w2]);
                        } else if w2 == w && w1 != w {
                            assert(ws[w1] == ws2[w1]);
                        }
                    }
                    assert forall|w2: int|
                        0 <= w2 < ws2.len() && #[trigger] ws2[w2] is Executing implies ws2[w2]->Executing_0
                        < taken && !f.contains(ws2[w2]->Executing_0) by {
                        if w2 != w {
                            assert(ws[w2] == ws2[w2]);
                        } else if f.contains(t) {
                            let i = choose|i: int| 0 <= i < f.len() && f[i] == t;
                        }
                    }
                    assert forall|t2: u64| t2 < taken implies f.contains(t2) || running(ws2, t2) by {
                        if t2 == t {
                            assert(ws2[w as int] == WorkerState::Executing(t));
                        } else if !f.contains(t2) {
                            let v = choose|v: int| 0 <= v < ws.len() && ws[v] == WorkerState::Executing(t2);
                            assert(ws2[v] == WorkerState::Executing(t2));
                        }
                    }
                    if ws2.len() == 1 {
                        assert forall|i: int| 0 <= i < f.len() implies f[i] == i by {}
                    }
                }
                Dispatch::Run(t)
            },
            None => {
                if self.queue.is_open() {
                    Dispatch::Wait
                } else {
                    self.workers.set(w, WorkerState::Terminated);
                    proof {
                        lemma_busy_update(ws, w as int, WorkerState::Terminated);
                        let ws2 = self.workers@;
                        let taken = self.queue@.taken();
                        assert forall|t2: u64| t2 < taken implies self.finished@.contains(t2) || running(ws2, t2) by {
                            if !self.finished@.contains(t2) {
                                let v = choose|v: int| 0 <= v < ws.len() && ws[v] == WorkerState::Executing(t2);
                                assert(ws2[v] == WorkerState::Executing(t2));
                            }
                        }
                    }
                    Dispatch::Exit
                }
            },
        }
    }

    /// Records that the job run by worker `w` has returned.
    pub fn finish_job(&mut self, w: usize)
        requires
            old(self).wf(),
            w < old(self)@.workers.len(),
            old(self)@.workers[w as int] is Executing,
        ensures
            final(self).wf(),
            final(self)@.queue == old(self)@.queue,
            final(self)@.workers == old(self)@.workers.update(w as int, WorkerState::Waiting),
            final(self)@.finished == old(self)@.finished.push(
                old(self)@.workers[w as int]->Executing_0,
            ),
    {
        let ghost ws = self.workers@;
        let ghost f = self.finished@;
        let ghost t = ws[w as int]->Executing_0;
        proof {
            self.queue.lemma_pending_range();
            lemma_busy_bound(ws);
            lemma_busy_update(ws, w as int, WorkerState::Waiting);
        }
        self.workers.set(w, WorkerState::Waiting);
        self.completed = self.completed + 1;
        self.finished = Ghost(self.finished@.push(t));
        proof {
            let ws2 = self.workers@;
            let f2 = self.finished@;
            let taken = self.queue@.taken();
            assert forall|i: int, j: int| 0 <= i < j < f2.len() implies f2[i] != f2[j] by {
                if j == f.len() {
                    assert(f.contains(f[i]));
                }
            }
            assert forall|w2: int|
                0 <= w2 < ws2.len() && #[trigger] ws2[w2] is Executing implies ws2[w2]->Executing_0
                < taken && !f2.contains(ws2[w2]->Executing_0) by {
                let t2 = ws2[w2]->Executing_0;
                assert(w2 != w);
                assert(ws[w2] == ws2[w2]);
                if t2 == t {
                    assert(ws[w as int] is Executing);
                }
                if f2.contains(t2) {
                    let i = choose|i: int| 0 <= i < f2.len() && f2[i] == t2;
                    if i < f.len() {
                        assert(f.contains(t2));
                    }
                }
            }
            assert forall|t2: u64| t2 < taken implies f2.contains(t2) || running(ws2, t2) by {
                if t2 == t {
                    assert(f2[f.len() as int] == t);
                } else if f.contains(t2) {
                    let i = choose|i: int| 0 <= i < f.len() && f[i] == t2;
                    assert(f2[i] == t2);
                } else {
                    let v = choose|v: int| 0 <= v < ws.len() && ws[v] == WorkerState::Executing(t2);
                    assert(v != w);
                    assert(ws2[v] == WorkerState::Executing(t2));
                }
            }
            if ws.len() == 1 {
                assert(w == 0);
                assert(busy_count(ws) == 1) by {
                    assert(ws.drop_last().len() == 0);
                }
                if t < f.len() {
                    assert(f[t as int] == t);
                    assert(f.contains(t));
                }
                assert forall|i: int| 0 <= i < f2.len() implies f2[i] == i by {}
            }
        }
    }

    /// Closes the enqueue side; returns whether this call closed it.
    ///
    /// Closing twice is harmless: the second call changes nothing.
    pub fn shutdown(&mut self) -> (r: bool)
        requires
            old(self).wf(),
        ensures
            final(self).wf(),
            r == old(self)@.queue.open,
            !final(self)@.queue.open,
            final(self)@.queue.pending == old(self)@.queue.pending,
            final(self)@.queue.issued == old(self)@.queue.issued,
            final(self)@.workers == old(self)@.workers,
            final(self)@.finished == old(self)@.finished,
    {
        let r = self.queue.close();
        assert(self.queue@.taken() == old(self).queue@.taken());
        r
    }

    /// Whether every worker has terminated.
    pub fn is_terminated(&self) -> (r: bool)
        ensures
            r == all_terminated(self@.workers),
    {
        let mut i: usize = 0;
        while i < self.workers.len()
            invariant
                i <= self.workers@.len(),
                forall|w: int| 0 <= w < i ==> self.workers@[w] == WorkerState::Terminated,
            decreases self.workers@.len() - i,
        {
            if self.workers[i] != WorkerState::Terminated {
                return false;
            }
            i = i + 1;
        }
        true
    }

    /// The number of workers.
    pub fn size(&self) -> (r: usize)
        ensures
            r == self@.workers.len(),
    {
        self.workers.len()
    }

    /// The state of worker `w`.
    pub fn worker_state(&self, w: usize) -> (r: WorkerState)
        requires
            w < self@.workers.len(),
        ensures
            r == self@.workers[w as int],
    {
        self.workers[w]
    }

    /// How many jobs have finished.
    pub fn completed(&self) -> (r: u64)
        requires
            self.wf(),
        ensures
            r == self@.finished.len(),
    {
        self.completed
    }

    /// How many jobs were accepted.
    pub fn submitted(&self) -> (r: u64)
        requires
            self.wf(),
        ensures
            r == self@.queue.issued,
    {
        proof {
            self.queue.lemma_pending_range();
        }
        self.queue.tail
    }

    /// How many jobs wait in the queue.
    pub fn queued(&self) -> (r: u64)
        requires
            self.wf(),
        ensures
            r == self@.queue.pending.len(),
    {
        self.queue.len()
    }

    /// Whether submissions are still accepted.
    pub fn is_open(&self) -> (r: bool)
        ensures
            r == self@.queue.open,
    {
        self.queue.is_open()
    }
}

/// Once every worker has terminated, every accepted job has run exactly
/// once: the queue is closed and empty, the finished tickets are exactly
/// the issued ones, each appearing once.
pub proof fn lemma_exactly_once(p: PoolCore)
    requires
        p.wf(),
        all_terminated(p@.workers),
    ensures
        !p@.queue.open,
        p@.queue.pending.len() == 0,
        p@.finished.len() == p@.queue.issued,
        p@.finished.no_duplicates(),
        forall|t: u64| t < p@.queue.issued ==> p@.finished.contains(t),
        forall|i: int| 0 <= i < p@.finished.len() ==> p@.finished[i] < p@.queue.issued,
{
    let ws = p@.workers;
    assert(ws[0] == WorkerState::Terminated);
    lemma_busy_none(ws);
    assert forall|t: u64| t < p@.queue.issued implies p@.finished.contains(t) by {
        if !p@.finished.contains(t) {
            assert(running(ws, t));
            let w = choose|w: int| 0 <= w < ws.len() && ws[w] == WorkerState::Executing(t);
        }
    }
}

/// With a single worker, jobs finish in the order they were submitted:
/// the finished tickets are `0, 1, 2, ...` with no gap.
pub proof fn lemma_single_worker_order(p: PoolCore)
    requires
        p.wf(),
        p@.workers.len() == 1,
    ensures
        p@.finished == ticket_range(0, p@.finished.len() as int),
{
    assert(p@.finished =~= ticket_range(0, p@.finished.len() as int));
}

} // verus!
