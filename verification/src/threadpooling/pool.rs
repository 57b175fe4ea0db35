//! The decisions of a thread pool that runs thunks: which pool sizes are
//! accepted, how the master hands out tasks, answers its workers' signals and
//! stops, and what a worker does with each signal and each polled task.
//!
//! The pool keeps each worker running on its own thread and continues to
//! process individual tasks; it does not split large tasks for parallel
//! execution. Threads and channels live with the caller, who feeds each
//! event to these state machines and performs the action they return.

use crate::threadpooling::steal::StealScan;
use crate::transport::messages::{Signal, Steal};
use crate::transport::return_value::ReturnMessage;
use vstd::prelude::*;

verus! {

// ---------------------------------------------------------------------------
// Pool size
// ---------------------------------------------------------------------------

/// How many workers a pool may have per logical core.
pub const WORKERS_PER_CORE: usize = 100;

/// A pool of `size` workers is accepted on a machine with `cores` logical
/// cores: it has at least one worker and at most a hundred per core.
pub open spec fn pool_size_allowed(size: int, cores: int) -> bool {
    0 < size && size <= cores * WORKERS_PER_CORE
}

/// Why a pool size was refused.
#[derive(Clone, Copy, Debug, PartialEq, Eq, Structural)]
pub enum PoolSizeError {
    /// A pool needs at least one worker.
    Empty,
    /// More than a hundred workers per logical core.
    TooLarge { size: usize, cores: usize },
}

/// The number of logical cores that `num_cpus::get` reports for this process.
/// Its documentation promises a value of at least 1; which value comes back
/// depends on the machine, its scheduler affinity and its cgroups, and is not
/// stated.
#[verifier::external_body]
fn logical_cores() -> (n: usize)
    ensures
        n >= 1,
{
    num_cpus::get()
}

/// Whether a pool of `size` workers fits on `cores` logical cores.
pub fn size_within_limit(size: usize, cores: usize) -> (ok: bool)
    ensures
        ok == pool_size_allowed(size as int, cores as int),
{
    if size == 0 {
        false
    } else if cores > usize::MAX / WORKERS_PER_CORE {
        assert(cores * 100 > usize::MAX) by (nonlinear_arith)
            requires
                cores > usize::MAX / 100,
        ;
        true
    } else {
        assert(cores * 100 <= usize::MAX) by (nonlinear_arith)
            requires
                cores <= usize::MAX / 100,
        ;
        size <= cores * WORKERS_PER_CORE
    }
}

/// The answer to a request for a pool of `size` workers on a machine with
/// `cores` logical cores: the core count when the size is accepted, otherwise
/// the reason for the refusal.
pub open spec fn spec_pool_size_verdict(size: usize, cores: usize) -> Result<usize, PoolSizeError> {
    if size == 0 {
        Err(PoolSizeError::Empty)
    } else if pool_size_allowed(size as int, cores as int) {
        Ok(cores)
    } else {
        Err(PoolSizeError::TooLarge { size, cores })
    }
}

/// Judges a request for a pool of `size` workers on `cores` logical cores.
pub fn pool_size_verdict(size: usize, cores: usize) -> (r: Result<usize, PoolSizeError>)
    ensures
        r == spec_pool_size_verdict(size, cores),
{
    if size == 0 {
        Err(PoolSizeError::Empty)
    } else if size_within_limit(size, cores) {
        Ok(cores)
    } else {
        Err(PoolSizeError::TooLarge { size, cores })
    }
}

/// Checks a requested pool size against this machine's logical core count,
/// which is only asked for when the size is not zero. On success it returns
/// that core count.
pub fn check_pool_size(size: usize) -> (r: Result<usize, PoolSizeError>)
    ensures
        exists|cores: usize| cores >= 1 && r == spec_pool_size_verdict(size, cores),
        (r == Err::<usize, PoolSizeError>(PoolSizeError::Empty)) <==> size == 0,
        r matches Ok(cores) ==> cores >= 1 && pool_size_allowed(size as int, cores as int),
        r matches Err(PoolSizeError::TooLarge { size: s, cores }) ==> s == size && cores >= 1
            && !pool_size_allowed(size as int, cores as int),
        0 < size <= 100 ==> r is Ok,
{
    if size == 0 {
        let r = Err(PoolSizeError::Empty);
        assert(r == spec_pool_size_verdict(size, 1));
        return r;
    }
    let cores = logical_cores();
    pool_size_verdict(size, cores)
}

/// The worker ids of a pool of `size` workers, in order: `0, 1, ..., size - 1`.
/// The workers are created, and at shutdown waited for, in this order.
pub fn worker_ids(size: usize) -> (ids: Vec<usize>)
    ensures
        ids@.len() == size,
        forall|i: int| 0 <= i < size ==> ids@[i] == i,
{
    let mut ids: Vec<usize> = Vec::new();
    let mut i: usize = 0;
    while i < size
        invariant
            i <= size,
            ids@.len() == i,
            forall|j: int| 0 <= j < i ==> ids@[j] == j,
        decreases size - i,
    {
        ids.push(i);
        i = i + 1;
    }
    ids
}

// ---------------------------------------------------------------------------
// Master
// ---------------------------------------------------------------------------

/// Whether a polled signal is the request to stop.
pub open spec fn is_terminate(sig: Option<Signal>) -> bool {
    sig matches Some(Signal::Terminate(_))
}

/// The worker that receives a task when the round-robin cursor stands at
/// `current` in a pool of `size` workers: the cursor wraps to the first worker
/// once it has passed the last.
pub open spec fn dispatch_target(current: nat, size: nat) -> nat {
    if current >= size {
        0
    } else {
        current
    }
}

/// Where the round-robin cursor stands after `k` tasks have been handed out
/// by a fresh master of `size` workers.
pub open spec fn cursor_after(size: nat, k: nat) -> nat
    decreases k,
{
    if k == 0 {
        0
    } else {
        dispatch_target(cursor_after(size, (k - 1) as nat), size) + 1
    }
}

/// A worker id as a natural number.
pub open spec fn opt_nat(t: Option<usize>) -> Option<nat> {
    match t {
        Some(v) => Some(v as nat),
        None => None,
    }
}

/// The master after a poll of its incoming task queue, and the worker that
/// receives the task when one arrived.
pub open spec fn incoming_spec(m: MasterView, arrived: bool) -> (MasterView, Option<nat>) {
    if arrived {
        let t = dispatch_target(m.current, m.size);
        (MasterView { current: t + 1, ..m }, Some(t))
    } else {
        (MasterView { running: m.running && !m.stopping, ..m }, None)
    }
}

/// The master after a sequence of polls of its incoming queue: `true` where
/// a task arrived, `false` where the queue was empty.
pub open spec fn master_after_polls(m: MasterView, arrivals: Seq<bool>) -> MasterView
    decreases arrivals.len(),
{
    if arrivals.len() == 0 {
        m
    } else {
        master_after_polls(incoming_spec(m, arrivals[0]).0, arrivals.drop_first())
    }
}

/// Abstract state of the master.
pub struct MasterView {
    pub size: nat,
    pub current: nat,
    pub running: bool,
    pub stopping: bool,
}

/// What the master does about a signal from one of its workers.
pub enum MonitorAction {
    /// Start a new worker under the id of the one that ended.
    Respawn(usize),
    /// Look through the other queues for a task for an idle worker.
    Steal(StealScan),
    /// Nothing to do.
    Ignore,
}

/// The master's state: the number of workers, the round-robin cursor,
/// whether it keeps running and whether the owner has asked it to stop.
pub struct MasterState {
    size: usize,
    current_thread: usize,
    running: bool,
    stopping: bool,
}

impl View for MasterState {
    type V = MasterView;

    closed spec fn view(&self) -> MasterView {
        MasterView {
            size: self.size as nat,
            current: self.current_thread as nat,
            running: self.running,
            stopping: self.stopping,
        }
    }
}

impl MasterState {
    /// The pool has at least one worker, the cursor never stands past the
    /// last one, and the master ends its run only once asked to stop.
    #[verifier::type_invariant]
    closed spec fn wf(self) -> bool {
        &&& 0 < self.size
        &&& self.current_thread <= self.size
        &&& (self.running || self.stopping)
    }

    /// A running master of `size` workers whose cursor is at the first worker.
    pub fn new(size: usize) -> (m: Self)
        requires
            size > 0,
        ensures
            m@ == (MasterView { size: size as nat, current: 0, running: true, stopping: false }),
    {
        MasterState { size, current_thread: 0, running: true, stopping: false }
    }

    /// The number of workers.
    pub fn size(&self) -> (n: usize)
        ensures
            n == self@.size,
            n > 0,
    {
        proof {
            use_type_invariant(self);
        }
        self.size
    }

    /// The round-robin cursor.
    pub fn current_thread(&self) -> (c: usize)
        ensures
            c == self@.current,
            c <= self@.size,
    {
        proof {
            use_type_invariant(self);
        }
        self.current_thread
    }

    /// Whether the master keeps running.
    pub fn is_running(&self) -> (r: bool)
        ensures
            r == self@.running,
            !r ==> self@.stopping,
    {
        proof {
            use_type_invariant(self);
        }
        self.running
    }

    /// Whether the owner has asked the master to stop.
    pub fn is_stopping(&self) -> (r: bool)
        ensures
            r == self@.stopping,
    {
        self.stopping
    }

    /// Handles what the owner's signal channel yielded: a request to stop is
    /// remembered, and the master then runs on only until its incoming queue
    /// is empty; anything else, or nothing, changes nothing.
    pub fn on_user_signal(&mut self, sig: Option<Signal>)
        ensures
            final(self)@ == (MasterView { stopping: old(self)@.stopping || is_terminate(sig), ..old(self)@ }),
    {
        proof {
            use_type_invariant(&*self);
        }
        match sig {
            Some(Signal::Terminate(_)) => {
                self.stopping = true;
            },
            _ => {},
        }
    }

    /// Decides what to do about what the workers' signal channel yielded. A
    /// worker that ended is replaced under the same id; a worker that found
    /// its queue empty gets a scan of the other queues. Signals naming no
    /// worker of this pool, requests to stop and an empty poll are ignored.
    pub fn on_monitor_signal(&self, sig: Option<Signal>) -> (a: MonitorAction)
        ensures
            match sig {
                Some(Signal::Terminated(t)) => if t.thread_id < self@.size {
                    a == MonitorAction::Respawn(t.thread_id)
                } else {
                    a is Ignore
                },
                Some(Signal::Steal(s)) => if s.thread_id < self@.size {
                    a matches MonitorAction::Steal(scan) && scan@.thief == s.thread_id
                        && scan@.queues == self@.size && scan@.next == 0 && !scan@.done
                } else {
                    a is Ignore
                },
                _ => a is Ignore,
            },
    {
        match sig {
            Some(Signal::Terminated(t)) => {
                if t.thread_id < self.size {
                    MonitorAction::Respawn(t.thread_id)
                } else {
                    MonitorAction::Ignore
                }
            },
            Some(Signal::Steal(s)) => {
                if s.thread_id < self.size {
                    MonitorAction::Steal(StealScan::new(s.thread_id, self.size))
                } else {
                    MonitorAction::Ignore
                }
            },
            _ => MonitorAction::Ignore,
        }
    }

    /// Picks the worker that receives an incoming task, in turn: the worker
    /// under the cursor, or the first one once the cursor has passed the
    /// last; the cursor then moves past the chosen worker.
    pub fn dispatch(&mut self) -> (target: usize)
        ensures
            target == dispatch_target(old(self)@.current, old(self)@.size),
            target < old(self)@.size,
            final(self)@ == (MasterView { current: (target + 1) as nat, ..old(self)@ }),
    {
        proof {
            use_type_invariant(&*self);
        }
        if self.current_thread >= self.size {
            self.current_thread = 0;
        }
        let target = self.current_thread;
        self.current_thread = target + 1;
        target
    }

    /// Handles what the incoming task queue yielded: an arrived task goes to
    /// the worker that `dispatch` picks, also after a request to stop; an
    /// empty queue ends the run once the owner has asked the master to stop.
    pub fn on_incoming(&mut self, arrived: bool) -> (target: Option<usize>)
        ensures
            (final(self)@, opt_nat(target)) == incoming_spec(old(self)@, arrived),
            target matches Some(t) ==> t < old(self)@.size,
            target is Some <==> arrived,
            final(self)@.size == old(self)@.size,
            final(self)@.stopping == old(self)@.stopping,
            !arrived ==> final(self)@.current == old(self)@.current,
            !arrived ==> final(self)@.running == (old(self)@.running && !old(self)@.stopping),
            arrived ==> final(self)@.running == old(self)@.running,
            target matches Some(t) ==> final(self)@.current == t + 1 && (t == old(self)@.current
                || (t == 0 && old(self)@.current >= old(self)@.size)),
    {
        if arrived {
            Some(self.dispatch())
        } else {
            proof {
                use_type_invariant(&*self);
            }
            if self.stopping {
                self.running = false;
            }
            None
        }
    }
}

/// Tasks are handed out in turn: the `k`-th task that a fresh master of
/// `size` workers hands out (counting from 0) goes to worker `k % size`.
pub proof fn lemma_round_robin(size: nat, k: nat)
    requires
        size > 0,
    ensures
        dispatch_target(cursor_after(size, k), size) == k % size,
        cursor_after(size, k) == if k == 0 {
            0
        } else {
            ((k - 1) as nat % size) + 1
        },
    decreases k,
{
    if k == 0 {
        vstd::arithmetic::div_mod::lemma_small_mod(0, size);
    } else {
        let p = (k - 1) as nat;
        lemma_round_robin(size, p);
        assert(cursor_after(size, k) == dispatch_target(cursor_after(size, p), size) + 1);
        assert(cursor_after(size, k) == p % size + 1);
        vstd::arithmetic::div_mod::lemma_add_mod_noop(p as int, 1, size as int);
        if size == 1 {
            vstd::arithmetic::div_mod::lemma_mod_pos_bound(p as int, 1);
            vstd::arithmetic::div_mod::lemma_mod_pos_bound(k as int, 1);
        } else {
            vstd::arithmetic::div_mod::lemma_small_mod(1, size);
            vstd::arithmetic::div_mod::lemma_mod_pos_bound(p as int, size as int);
            if p % size + 1 < size {
                vstd::arithmetic::div_mod::lemma_small_mod((p % size + 1) as nat, size);
            } else {
                vstd::arithmetic::div_mod::lemma_mod_self_0(size as int);
            }
        }
    }
}

/// The workers that receive the tasks a master in state `m` hands out over a
/// sequence of polls of its incoming queue, in order: `true` where a task
/// arrived, `false` where the queue was empty.
pub open spec fn dispatched_targets(m: MasterView, arrivals: Seq<bool>) -> Seq<nat>
    decreases arrivals.len(),
{
    if arrivals.len() == 0 {
        seq![]
    } else {
        let (m1, t) = incoming_spec(m, arrivals[0]);
        match t {
            Some(x) => seq![x] + dispatched_targets(m1, arrivals.drop_first()),
            None => dispatched_targets(m1, arrivals.drop_first()),
        }
    }
}

/// The number of polls in `arrivals` that found a task.
pub open spec fn arrived_count(arrivals: Seq<bool>) -> nat
    decreases arrivals.len(),
{
    if arrivals.len() == 0 {
        0
    } else {
        (if arrivals[0] {
            1nat
        } else {
            0nat
        }) + arrived_count(arrivals.drop_first())
    }
}

/// Round-robin survives gaps: a master whose cursor stands where it does
/// after `c` tasks hands the `k`-th of the following tasks to worker
/// `(c + k) % size`, whatever empty polls come in between, and hands out one
/// task for each poll that found one.
pub proof fn lemma_round_robin_with_gaps(m: MasterView, c: nat, arrivals: Seq<bool>)
    requires
        m.size > 0,
        m.current == cursor_after(m.size, c),
    ensures
        dispatched_targets(m, arrivals).len() == arrived_count(arrivals),
        forall|k: int|
            0 <= k < dispatched_targets(m, arrivals).len() ==> #[trigger] dispatched_targets(
                m,
                arrivals,
            )[k] == (c + k) % (m.size as int),
    decreases arrivals.len(),
{
    if arrivals.len() > 0 {
        let rest = arrivals.drop_first();
        let (m1, t) = incoming_spec(m, arrivals[0]);
        lemma_round_robin(m.size, c);
        if arrivals[0] {
            assert(m1.current == cursor_after(m.size, c + 1));
            lemma_round_robin_with_gaps(m1, c + 1, rest);
            let ts = dispatched_targets(m, arrivals);
            let tr = dispatched_targets(m1, rest);
            assert(ts == seq![dispatch_target(m.current, m.size)] + tr);
            assert forall|k: int| 0 <= k < ts.len() implies #[trigger] ts[k] == (c + k) % (
            m.size as int) by {
                if k > 0 {
                    assert(ts[k] == tr[k - 1]);
                }
            }
        } else {
            lemma_round_robin_with_gaps(m1, c, rest);
        }
    }
}

/// A fresh master hands the `k`-th task it receives to worker `k % size`,
/// whatever empty polls of its incoming queue come in between.
pub proof fn lemma_fresh_master_round_robin(size: nat, arrivals: Seq<bool>)
    requires
        size > 0,
    ensures
        forall|k: int|
            0 <= k < dispatched_targets(
                MasterView { size, current: 0, running: true, stopping: false },
                arrivals,
            ).len() ==> #[trigger] dispatched_targets(
                MasterView { size, current: 0, running: true, stopping: false },
                arrivals,
            )[k] == k % (size as int),
{
    lemma_round_robin_with_gaps(
        MasterView { size, current: 0, running: true, stopping: false },
        0,
        arrivals,
    );
}

/// Whether the master has been asked to stop after a sequence of owner
/// signals, starting from `stopping`.
pub open spec fn stop_requested_after(stopping: bool, sigs: Seq<Option<Signal>>) -> bool
    decreases sigs.len(),
{
    if sigs.len() == 0 {
        stopping
    } else {
        stop_requested_after(stopping || is_terminate(sigs[0]), sigs.drop_first())
    }
}

/// A request to stop is never withdrawn: after a sequence of owner signals
/// the master has been asked to stop exactly when it had been before or one
/// of them was a request to stop.
pub proof fn lemma_stop_request_is_final(stopping: bool, sigs: Seq<Option<Signal>>)
    ensures
        stop_requested_after(stopping, sigs) == (stopping || exists|i: int|
            0 <= i < sigs.len() && is_terminate(#[trigger] sigs[i])),
    decreases sigs.len(),
{
    if sigs.len() > 0 {
        let rest = sigs.drop_first();
        lemma_stop_request_is_final(stopping || is_terminate(sigs[0]), rest);
        if exists|i: int| 0 <= i < rest.len() && is_terminate(#[trigger] rest[i]) {
            let i = choose|i: int| 0 <= i < rest.len() && is_terminate(#[trigger] rest[i]);
            assert(sigs[i + 1] == rest[i]);
        }
        if exists|i: int| 0 <= i < sigs.len() && is_terminate(#[trigger] sigs[i]) {
            let i = choose|i: int| 0 <= i < sigs.len() && is_terminate(#[trigger] sigs[i]);
            if i > 0 {
                assert(rest[i - 1] == sigs[i]);
            }
        }
    }
}

/// Shutdown drops no submitted task: whatever the incoming queue yields, the
/// master keeps running exactly until it has been asked to stop and then
/// finds that queue empty. Every task that arrives before that poll is handed
/// to a worker, and the request to stop, the pool size and the run of a
/// master not asked to stop are left as they were.
pub proof fn lemma_master_drains_before_stopping(m: MasterView, arrivals: Seq<bool>)
    ensures
        master_after_polls(m, arrivals).running == (m.running && !(m.stopping && exists|i: int|
            0 <= i < arrivals.len() && !#[trigger] arrivals[i])),
        master_after_polls(m, arrivals).stopping == m.stopping,
        master_after_polls(m, arrivals).size == m.size,
    decreases arrivals.len(),
{
    if arrivals.len() > 0 {
        let rest = arrivals.drop_first();
        let m1 = incoming_spec(m, arrivals[0]).0;
        lemma_master_drains_before_stopping(m1, rest);
        if exists|i: int| 0 <= i < rest.len() && !#[trigger] rest[i] {
            let i = choose|i: int| 0 <= i < rest.len() && !#[trigger] rest[i];
            assert(arrivals[i + 1] == rest[i]);
        }
        if exists|i: int| 0 <= i < arrivals.len() && !#[trigger] arrivals[i] {
            let i = choose|i: int| 0 <= i < arrivals.len() && !#[trigger] arrivals[i];
            if i > 0 {
                assert(rest[i - 1] == arrivals[i]);
            }
        }
    }
}

// ---------------------------------------------------------------------------
// Worker
// ---------------------------------------------------------------------------

/// What a worker got when it waited on its task queue.
pub enum TaskPoll {
    /// A task ran; it carries the task's result when that result is an
    /// `i64`, the only kind of result the pool reports back.
    Finished(Option<i64>),
    /// No task arrived in time.
    Empty,
}

/// What a worker does after a poll of its queue.
pub enum WorkerAction {
    /// Send this message to the pool's owner.
    Report(ReturnMessage<i64>),
    /// Send this signal to the master, then pause briefly.
    RequestSteal(Signal),
    /// Nothing to send.
    Idle,
    /// The worker has stopped and polls no more.
    Stop,
}

/// Abstract state of a worker.
pub struct WorkerView {
    pub thread_id: usize,
    pub running: bool,
    pub stopping: bool,
}

/// A worker's state: its id, whether it keeps running and whether it has
/// been asked to stop.
pub struct WorkerState {
    thread_id: usize,
    running: bool,
    stopping: bool,
}

impl View for WorkerState {
    type V = WorkerView;

    closed spec fn view(&self) -> WorkerView {
        WorkerView { thread_id: self.thread_id, running: self.running, stopping: self.stopping }
    }
}

/// A worker in state `w` after the poll `poll`, and the action it takes: a
/// task's `i64` result is reported as a successful message carrying that
/// value; an empty queue makes a worker that was asked to stop end its run,
/// and any other worker ask the master for work from another queue; a worker
/// that has ended does nothing more.
pub open spec fn worker_step(w: WorkerView, poll: TaskPoll) -> (WorkerView, WorkerAction) {
    if !w.running {
        (w, WorkerAction::Stop)
    } else {
        match poll {
            TaskPoll::Finished(Some(v)) => (
                w,
                WorkerAction::Report(ReturnMessage { success: true, message: v }),
            ),
            TaskPoll::Finished(None) => (w, WorkerAction::Idle),
            TaskPoll::Empty => if w.stopping {
                (WorkerView { running: false, ..w }, WorkerAction::Stop)
            } else {
                (w, WorkerAction::RequestSteal(Signal::Steal(Steal { thread_id: w.thread_id })))
            },
        }
    }
}

/// The worker after a sequence of polls that each found a task, with those
/// tasks' results.
pub open spec fn worker_after_tasks(w: WorkerView, results: Seq<Option<i64>>) -> WorkerView
    decreases results.len(),
{
    if results.len() == 0 {
        w
    } else {
        worker_after_tasks(worker_step(w, TaskPoll::Finished(results[0])).0, results.drop_first())
    }
}

impl WorkerState {
    /// The worker ends its run only once asked to stop.
    #[verifier::type_invariant]
    closed spec fn wf(self) -> bool {
        self.running || self.stopping
    }

    /// A running worker with id `thread_id`; a worker that replaces one that
    /// ended is created the same way, under the same id.
    pub fn new(thread_id: usize) -> (w: Self)
        ensures
            w@ == (WorkerView { thread_id, running: true, stopping: false }),
    {
        WorkerState { thread_id, running: true, stopping: false }
    }

    /// The worker's id.
    pub fn thread_id(&self) -> (t: usize)
        ensures
            t == self@.thread_id,
    {
        self.thread_id
    }

    /// Whether the worker keeps running.
    pub fn is_running(&self) -> (r: bool)
        ensures
            r == self@.running,
            !r ==> self@.stopping,
    {
        proof {
            use_type_invariant(self);
        }
        self.running
    }

    /// Whether the worker has been asked to stop.
    pub fn is_stopping(&self) -> (r: bool)
        ensures
            r == self@.stopping,
    {
        self.stopping
    }

    /// Handles what the worker's signal channel yielded: a request to stop is
    /// remembered, and the worker then runs on only until its queue is
    /// empty; anything else, or nothing, changes nothing.
    pub fn on_signal(&mut self, sig: Option<Signal>)
        ensures
            final(self)@ == (WorkerView { stopping: old(self)@.stopping || is_terminate(sig), ..old(self)@ }),
    {
        proof {
            use_type_invariant(&*self);
        }
        match sig {
            Some(Signal::Terminate(_)) => {
                self.stopping = true;
            },
            _ => {},
        }
    }

    /// Decides what follows a poll of the worker's queue, as `worker_step`
    /// describes.
    pub fn on_poll(&mut self, poll: TaskPoll) -> (a: WorkerAction)
        ensures
            (final(self)@, a) == worker_step(old(self)@, poll),
            final(self)@.thread_id == old(self)@.thread_id,
            final(self)@.stopping == old(self)@.stopping,
            final(self)@.running == (old(self)@.running && !(old(self)@.stopping
                && poll is Empty)),
    {
        proof {
            use_type_invariant(&*self);
        }
        if !self.running {
            return WorkerAction::Stop;
        }
        match poll {
            TaskPoll::Finished(Some(v)) => WorkerAction::Report(ReturnMessage::completed(v)),
            TaskPoll::Finished(None) => WorkerAction::Idle,
            TaskPoll::Empty => {
                if self.stopping {
                    self.running = false;
                    WorkerAction::Stop
                } else {
                    WorkerAction::RequestSteal(Signal::steal(self.thread_id))
                }
            },
        }
    }
}

/// A worker that has ended its run neither reports results nor asks for work
/// again, whatever it polls and whatever signal it gets.
pub proof fn lemma_ended_worker_is_silent(w: WorkerView, sig: Option<Signal>, poll: TaskPoll)
    requires
        !w.running,
    ensures
        worker_step(w, poll) == (w, WorkerAction::Stop),
        worker_step(WorkerView { stopping: w.stopping || is_terminate(sig), ..w }, poll).1 is Stop,
{
}

/// A running worker reports every `i64` result unchanged and marked
/// successful, and asks for work under its own id whenever its queue is empty
/// and it has not been asked to stop.
pub proof fn lemma_worker_reports_results(w: WorkerView, v: i64)
    requires
        w.running,
    ensures
        worker_step(w, TaskPoll::Finished(Some(v))).1 matches WorkerAction::Report(m) && m.success
            && m.message == v,
        !w.stopping ==> (worker_step(w, TaskPoll::Empty).1 matches WorkerAction::RequestSteal(
            Signal::Steal(s),
        ) && s.thread_id == w.thread_id),
{
}

/// The worker after a sequence of polls of its queue.
pub open spec fn worker_after_polls(w: WorkerView, polls: Seq<TaskPoll>) -> WorkerView
    decreases polls.len(),
{
    if polls.len() == 0 {
        w
    } else {
        worker_after_polls(worker_step(w, polls[0]).0, polls.drop_first())
    }
}

/// Only a stop request makes a worker stop: polls never change a worker's id
/// or whether it has been asked to stop, and a worker not asked to stop is
/// still running after any polls, empty queues included. A worker asked to
/// stop ends its run exactly at its first empty poll.
pub proof fn lemma_only_a_stop_request_stops_a_worker(w: WorkerView, polls: Seq<TaskPoll>)
    ensures
        worker_after_polls(w, polls).thread_id == w.thread_id,
        worker_after_polls(w, polls).stopping == w.stopping,
        !w.stopping ==> worker_after_polls(w, polls).running == w.running,
        w.stopping ==> worker_after_polls(w, polls).running == (w.running && forall|i: int|
            0 <= i < polls.len() ==> !(#[trigger] polls[i] is Empty)),
    decreases polls.len(),
{
    if polls.len() > 0 {
        let rest = polls.drop_first();
        lemma_only_a_stop_request_stops_a_worker(worker_step(w, polls[0]).0, rest);
        if w.stopping {
            if forall|i: int| 0 <= i < rest.len() ==> !(#[trigger] rest[i] is Empty) {
                if !(polls[0] is Empty) {
                    assert forall|i: int| 0 <= i < polls.len() implies !(#[trigger] polls[i] is Empty) by {
                        if i > 0 {
                            assert(polls[i] == rest[i - 1]);
                        }
                    }
                }
            } else {
                let i = choose|i: int| 0 <= i < rest.len() && (#[trigger] rest[i] is Empty);
                assert(polls[i + 1] == rest[i]);
            }
        }
    }
}

/// Shutdown drops no task a worker holds: a worker asked to stop keeps
/// running through every task its queue yields, reporting each result as
/// `worker_step` says, and ends its run at the first poll that finds the
/// queue empty.
pub proof fn lemma_worker_drains_before_stopping(w: WorkerView, results: Seq<Option<i64>>)
    requires
        w.running,
    ensures
        worker_after_tasks(w, results) == w,
        w.stopping ==> worker_step(worker_after_tasks(w, results), TaskPoll::Empty) == (
        WorkerView { running: false, ..w }, WorkerAction::Stop),
    decreases results.len(),
{
    if results.len() > 0 {
        lemma_worker_drains_before_stopping(w, results.drop_first());
    }
}

} // verus!
