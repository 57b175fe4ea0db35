//! How tasks move through the pool. A task is handed from the incoming queue
//! to one worker's queue, may be moved from one worker's queue to another's by
//! a steal, and leaves a queue only when a worker runs it. Each move keeps the
//! multiset of all tasks unchanged, so no task is lost and none is doubled:
//! every task handed to the pool runs once.

use crate::threadpooling::pool::{dispatch_target, MasterView};
use crate::threadpooling::steal::{victim_from, StealView};
use vstd::multiset::Multiset;
use vstd::prelude::*;

verus! {

broadcast use vstd::seq_lib::group_to_multiset_ensures;

/// Every task held in the worker queues `qs`.
pub open spec fn all_queued(qs: Seq<Seq<nat>>) -> Multiset<nat>
    decreases qs.len(),
{
    if qs.len() == 0 {
        Multiset::empty()
    } else {
        all_queued(qs.drop_last()).add(qs.last().to_multiset())
    }
}

/// The tasks of a pool, each named by a number: those not yet handed to a
/// worker, those in each worker's queue, and those that have run.
pub struct PoolTasks {
    pub incoming: Seq<nat>,
    pub queues: Seq<Seq<nat>>,
    pub finished: Multiset<nat>,
}

/// Every task of the pool, wherever it stands.
pub open spec fn all_tasks(p: PoolTasks) -> Multiset<nat> {
    p.incoming.to_multiset().add(all_queued(p.queues)).add(p.finished)
}

/// The queues after the first task of queue `from` has been moved to the end
/// of queue `to`.
pub open spec fn move_head(qs: Seq<Seq<nat>>, from: int, to: int) -> Seq<Seq<nat>> {
    qs.update(from, qs[from].drop_first()).update(to, qs[to].push(qs[from][0]))
}

/// The pool after the master, in state `m`, has handed the first incoming
/// task to the worker that `dispatch` picks.
pub open spec fn dispatch_arrival(p: PoolTasks, m: MasterView) -> PoolTasks {
    let t = dispatch_target(m.current, m.size) as int;
    PoolTasks {
        incoming: p.incoming.drop_first(),
        queues: p.queues.update(t, p.queues[t].push(p.incoming[0])),
        ..p
    }
}

/// The pool after worker `i` has run the first task of its queue.
pub open spec fn run_task(p: PoolTasks, i: int) -> PoolTasks {
    PoolTasks {
        queues: p.queues.update(i, p.queues[i].drop_first()),
        finished: p.finished.insert(p.queues[i][0]),
        ..p
    }
}

/// The queue a scan in state `s` takes a task from: the first queue it
/// offers that holds a task, found by stepping past empty queues as
/// `StealScan::advance` does; `None` when every queue it offers is empty or
/// the scan is over.
pub open spec fn steal_source(qs: Seq<Seq<nat>>, s: StealView) -> Option<nat>
    decreases s.queues - s.next,
{
    if s.done {
        None
    } else {
        match victim_from(s.thief, s.queues, s.next) {
            None => None,
            Some(v) => if qs[v as int].len() > 0 {
                Some(v)
            } else {
                steal_source(qs, StealView { next: (v + 1) as nat, ..s })
            },
        }
    }
}

/// The queues after a scan in state `s` has run to its end: the first task
/// of the source queue, if any, has moved to the end of the thief's queue.
pub open spec fn steal_from(qs: Seq<Seq<nat>>, s: StealView) -> Seq<Seq<nat>> {
    match steal_source(qs, s) {
        None => qs,
        Some(v) => move_head(qs, v as int, s.thief as int),
    }
}

proof fn lemma_all_queued_update(qs: Seq<Seq<nat>>, i: int, q: Seq<nat>)
    requires
        0 <= i < qs.len(),
    ensures
        all_queued(qs.update(i, q)).add(qs[i].to_multiset()) =~= all_queued(qs).add(
            q.to_multiset(),
        ),
    decreases qs.len(),
{
    let q2 = qs.update(i, q);
    let lhs = all_queued(q2).add(qs[i].to_multiset());
    let rhs = all_queued(qs).add(q.to_multiset());
    if i == qs.len() - 1 {
        assert(q2.drop_last() =~= qs.drop_last());
        assert(all_queued(q2) == all_queued(qs.drop_last()).add(q.to_multiset()));
        assert(all_queued(qs) == all_queued(qs.drop_last()).add(qs[i].to_multiset()));
    } else {
        lemma_all_queued_update(qs.drop_last(), i, q);
        assert(q2.drop_last() =~= qs.drop_last().update(i, q));
        assert(all_queued(q2) == all_queued(qs.drop_last().update(i, q)).add(
            qs.last().to_multiset(),
        ));
        assert(all_queued(qs) == all_queued(qs.drop_last()).add(qs.last().to_multiset()));
    }
    assert forall|y: nat| lhs.count(y) == rhs.count(y) by {
        if i != qs.len() - 1 {
            assert(all_queued(qs.drop_last().update(i, q)).add(qs[i].to_multiset()).count(y)
                == all_queued(qs.drop_last()).add(q.to_multiset()).count(y));
        }
    }
}

proof fn lemma_drop_first_to_multiset(q: Seq<nat>)
    requires
        q.len() > 0,
    ensures
        q.to_multiset() =~= q.drop_first().to_multiset().insert(q[0]),
{
    assert(q.drop_first() =~= q.remove(0));
    assert(q.to_multiset().contains(q[0])) by {
        assert(q.contains(q[0]));
    }
}

/// Moving the first task of one queue to another keeps every task.
pub proof fn lemma_move_head_keeps_tasks(qs: Seq<Seq<nat>>, from: int, to: int)
    requires
        0 <= from < qs.len(),
        0 <= to < qs.len(),
        from != to,
        qs[from].len() > 0,
    ensures
        all_queued(move_head(qs, from, to)) =~= all_queued(qs),
        move_head(qs, from, to).len() == qs.len(),
{
    let x = qs[from][0];
    let a = qs[from].drop_first();
    let q1 = qs.update(from, a);
    let b = qs[to].push(x);
    lemma_all_queued_update(qs, from, a);
    lemma_all_queued_update(q1, to, b);
    lemma_drop_first_to_multiset(qs[from]);
    assert(q1[to] == qs[to]);
    assert(b.to_multiset() =~= qs[to].to_multiset().insert(x));
    let q2 = q1.update(to, b);
    assert forall|y: nat| all_queued(q2).count(y) == all_queued(qs).count(y) by {
        assert(all_queued(q1).add(qs[from].to_multiset()).count(y) == all_queued(qs).add(
            a.to_multiset(),
        ).count(y));
        assert(all_queued(q2).add(q1[to].to_multiset()).count(y) == all_queued(q1).add(
            b.to_multiset(),
        ).count(y));
    }
}

/// Handing an incoming task to a worker keeps every task; the task lands at
/// the end of the queue of the worker that `dispatch` picks.
pub proof fn lemma_dispatch_keeps_tasks(p: PoolTasks, m: MasterView)
    requires
        p.incoming.len() > 0,
        p.queues.len() == m.size,
        m.size > 0,
    ensures
        all_tasks(dispatch_arrival(p, m)) =~= all_tasks(p),
        dispatch_arrival(p, m).queues[dispatch_target(m.current, m.size) as int].last()
            == p.incoming[0],
        dispatch_arrival(p, m).finished == p.finished,
{
    let t = dispatch_target(m.current, m.size) as int;
    let x = p.incoming[0];
    let b = p.queues[t].push(x);
    let d = dispatch_arrival(p, m);
    lemma_all_queued_update(p.queues, t, b);
    lemma_drop_first_to_multiset(p.incoming);
    assert(b.to_multiset() =~= p.queues[t].to_multiset().insert(x));
    assert forall|y: nat| all_tasks(d).count(y) == all_tasks(p).count(y) by {
        assert(all_queued(d.queues).add(p.queues[t].to_multiset()).count(y) == all_queued(
            p.queues,
        ).add(b.to_multiset()).count(y));
    }
}

/// Running a task moves it from its worker's queue to the finished tasks:
/// every task is kept, and the finished tasks gain exactly that one.
pub proof fn lemma_run_keeps_tasks(p: PoolTasks, i: int)
    requires
        0 <= i < p.queues.len(),
        p.queues[i].len() > 0,
    ensures
        all_tasks(run_task(p, i)) =~= all_tasks(p),
        run_task(p, i).finished =~= p.finished.insert(p.queues[i][0]),
        run_task(p, i).incoming == p.incoming,
{
    let a = p.queues[i].drop_first();
    let r = run_task(p, i);
    lemma_all_queued_update(p.queues, i, a);
    lemma_drop_first_to_multiset(p.queues[i]);
    assert forall|y: nat| all_tasks(r).count(y) == all_tasks(p).count(y) by {
        assert(all_queued(r.queues).add(p.queues[i].to_multiset()).count(y) == all_queued(
            p.queues,
        ).add(a.to_multiset()).count(y));
    }
}

/// A request for work moves at most one task: the source is the first queue
/// at or after the scan's position, other than the thief's, that holds a
/// task; the thief's own queue is never robbed; with no such queue nothing
/// moves. Every task is kept.
pub proof fn lemma_steal_moves_at_most_one_task(qs: Seq<Seq<nat>>, s: StealView)
    requires
        qs.len() == s.queues,
        s.thief < s.queues,
    ensures
        match steal_source(qs, s) {
            None => steal_from(qs, s) == qs && (s.done || forall|j: int|
                s.next <= j < s.queues && j != s.thief ==> #[trigger] qs[j].len() == 0),
            Some(v) => {
                &&& !s.done
                &&& v != s.thief
                &&& s.next <= v < s.queues
                &&& qs[v as int].len() > 0
                &&& forall|j: int| s.next <= j < v && j != s.thief ==> #[trigger] qs[j].len() == 0
                &&& steal_from(qs, s) == move_head(qs, v as int, s.thief as int)
            },
        },
        all_queued(steal_from(qs, s)) =~= all_queued(qs),
    decreases s.queues - s.next,
{
    if !s.done {
        match victim_from(s.thief, s.queues, s.next) {
            None => {},
            Some(v) => {
                if qs[v as int].len() == 0 {
                    lemma_steal_moves_at_most_one_task(qs, StealView { next: (v + 1) as nat, ..s });
                }
            },
        }
    }
    match steal_source(qs, s) {
        None => {},
        Some(v) => {
            lemma_move_head_keeps_tasks(qs, v as int, s.thief as int);
        },
    }
}

/// How a scan's search for a source proceeds, one offered queue at a time: a
/// queue holding a task is the source (and `StealScan::advance_taken` ends
/// the scan); an empty one is stepped past as `StealScan::advance` does.
pub proof fn lemma_steal_step(qs: Seq<Seq<nat>>, s: StealView)
    ensures
        !s.done ==> match victim_from(s.thief, s.queues, s.next) {
            None => steal_source(qs, s) is None,
            Some(v) => if qs[v as int].len() > 0 {
                steal_source(qs, s) == Some(v)
            } else {
                steal_source(qs, s) == steal_source(qs, StealView { next: (v + 1) as nat, ..s })
            },
        },
        s.done ==> steal_source(qs, s) is None,
{
}

/// One move of tasks in the pool.
pub enum PoolMove {
    /// The master, in the given state, hands the first incoming task out.
    Dispatch(MasterView),
    /// The given worker runs the first task of its queue.
    Run(nat),
    /// A scan, from the given state to its end, serves a request for work.
    Steal(StealView),
}

/// Whether `mv` can be made on `p`: there is a task to hand out or to run,
/// and the master's or the scan's pool has as many queues as `p`.
pub open spec fn move_allowed(p: PoolTasks, mv: PoolMove) -> bool {
    match mv {
        PoolMove::Dispatch(m) => p.incoming.len() > 0 && p.queues.len() == m.size && m.size > 0,
        PoolMove::Run(i) => i < p.queues.len() && p.queues[i as int].len() > 0,
        PoolMove::Steal(s) => p.queues.len() == s.queues && s.thief < s.queues,
    }
}

/// The pool after the move `mv`.
pub open spec fn apply_move(p: PoolTasks, mv: PoolMove) -> PoolTasks {
    match mv {
        PoolMove::Dispatch(m) => dispatch_arrival(p, m),
        PoolMove::Run(i) => run_task(p, i as int),
        PoolMove::Steal(s) => PoolTasks { queues: steal_from(p.queues, s), ..p },
    }
}

/// Whether each move of `moves` can be made in turn, starting from `p`.
pub open spec fn moves_allowed(p: PoolTasks, moves: Seq<PoolMove>) -> bool
    decreases moves.len(),
{
    moves.len() == 0 || (move_allowed(p, moves[0]) && moves_allowed(
        apply_move(p, moves[0]),
        moves.drop_first(),
    ))
}

/// The pool after the moves `moves`, made in turn from `p`.
pub open spec fn apply_moves(p: PoolTasks, moves: Seq<PoolMove>) -> PoolTasks
    decreases moves.len(),
{
    if moves.len() == 0 {
        p
    } else {
        apply_moves(apply_move(p, moves[0]), moves.drop_first())
    }
}

/// Any move that can be made keeps every task.
pub proof fn lemma_move_keeps_tasks(p: PoolTasks, mv: PoolMove)
    requires
        move_allowed(p, mv),
    ensures
        all_tasks(apply_move(p, mv)) =~= all_tasks(p),
        apply_move(p, mv).queues.len() == p.queues.len(),
{
    match mv {
        PoolMove::Dispatch(m) => {
            lemma_dispatch_keeps_tasks(p, m);
        },
        PoolMove::Run(i) => {
            lemma_run_keeps_tasks(p, i as int);
        },
        PoolMove::Steal(s) => {
            lemma_steal_moves_at_most_one_task(p.queues, s);
            let r = apply_move(p, mv);
            assert forall|y: nat| all_tasks(r).count(y) == all_tasks(p).count(y) by {
                assert(all_queued(r.queues).count(y) == all_queued(p.queues).count(y));
            }
        },
    }
}

/// Every sequence of moves that can be made keeps every task.
pub proof fn lemma_moves_keep_tasks(p: PoolTasks, moves: Seq<PoolMove>)
    requires
        moves_allowed(p, moves),
    ensures
        all_tasks(apply_moves(p, moves)) =~= all_tasks(p),
    decreases moves.len(),
{
    if moves.len() > 0 {
        lemma_move_keeps_tasks(p, moves[0]);
        lemma_moves_keep_tasks(apply_move(p, moves[0]), moves.drop_first());
    }
}

/// Queues that are all empty hold no task.
pub proof fn lemma_empty_queues(qs: Seq<Seq<nat>>)
    requires
        forall|i: int| 0 <= i < qs.len() ==> #[trigger] qs[i].len() == 0,
    ensures
        all_queued(qs) =~= Multiset::<nat>::empty(),
    decreases qs.len(),
{
    if qs.len() > 0 {
        lemma_empty_queues(qs.drop_last());
        assert(qs.last().len() == 0);
        assert(qs.last() =~= Seq::<nat>::empty());
    }
}

/// A pool of `size` empty queues with the tasks `submitted` waiting to be
/// handed out.
pub open spec fn fresh_pool(submitted: Seq<nat>, size: nat) -> PoolTasks {
    PoolTasks {
        incoming: submitted,
        queues: Seq::new(size, |i: int| Seq::<nat>::empty()),
        finished: Multiset::empty(),
    }
}

/// Whether no task waits to be handed out or stands in a worker's queue.
pub open spec fn drained(p: PoolTasks) -> bool {
    &&& p.incoming.len() == 0
    &&& forall|i: int| 0 <= i < p.queues.len() ==> #[trigger] p.queues[i].len() == 0
}

/// Every submitted task runs exactly once: from a fresh pool, make any moves
/// that can be made; once no task waits or is queued any more, the tasks that
/// have run are exactly the submitted ones, each as often as it was
/// submitted.
pub proof fn lemma_every_task_runs_once(submitted: Seq<nat>, size: nat, moves: Seq<PoolMove>)
    requires
        moves_allowed(fresh_pool(submitted, size), moves),
        drained(apply_moves(fresh_pool(submitted, size), moves)),
    ensures
        apply_moves(fresh_pool(submitted, size), moves).finished =~= submitted.to_multiset(),
{
    let p0 = fresh_pool(submitted, size);
    let p = apply_moves(p0, moves);
    lemma_moves_keep_tasks(p0, moves);
    lemma_empty_queues(p0.queues);
    lemma_empty_queues(p.queues);
    assert(p.incoming =~= Seq::<nat>::empty());
    assert forall|y: nat| p.finished.count(y) == submitted.to_multiset().count(y) by {
        assert(all_tasks(p).count(y) == all_tasks(p0).count(y));
    }
}
} // verus!
