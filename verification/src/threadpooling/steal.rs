//! The search an idle worker's request sets off: the master looks through
//! the other workers' queues in order, moves the first task it finds to the
//! idle worker, and stops there.

use vstd::prelude::*;

verus! {

/// The queue tried next when the scan stands at `next`: the first index at
/// or after `next` that is below `queues` and is not the thief's own.
pub open spec fn victim_from(thief: nat, queues: nat, next: nat) -> Option<nat> {
    if next == thief {
        if next + 1 < queues {
            Some((next + 1) as nat)
        } else {
            None
        }
    } else if next < queues {
        Some(next)
    } else {
        None
    }
}

/// Whether queue `j` belongs to some worker other than the thief.
pub open spec fn other_queue(thief: nat, j: nat) -> bool {
    j != thief
}

/// The queues that a scan standing at `next` tries, in order, when none of
/// them yields a task.
pub open spec fn scan_trace(thief: nat, queues: nat, next: nat) -> Seq<nat>
    decreases queues - next,
{
    match victim_from(thief, queues, next) {
        Some(v) => seq![v] + scan_trace(thief, queues, (v + 1) as nat),
        None => seq![],
    }
}

/// A scan in which no queue yields a task tries every queue but the thief's
/// own, each once, in increasing order, starting at `next`.
pub proof fn lemma_scan_tries_every_other_queue(thief: nat, queues: nat, next: nat)
    ensures
        forall|j: nat|
            scan_trace(thief, queues, next).contains(j) <==> (next <= j < queues && j != thief),
        forall|i: int, k: int|
            0 <= i < k < scan_trace(thief, queues, next).len() ==> scan_trace(thief, queues, next)[i]
                < scan_trace(thief, queues, next)[k],
        scan_trace(thief, queues, next).len() == if next >= queues {
            0
        } else if next <= thief < queues {
            queues - next - 1
        } else {
            queues - next
        },
    decreases queues - next,
{
    let t = scan_trace(thief, queues, next);
    match victim_from(thief, queues, next) {
        Some(v) => {
            let rest = scan_trace(thief, queues, (v + 1) as nat);
            lemma_scan_tries_every_other_queue(thief, queues, (v + 1) as nat);
            assert(t == seq![v] + rest);
            assert forall|j: nat| t.contains(j) <==> (next <= j < queues && j != thief) by {
                if t.contains(j) {
                    let i = choose|i: int| 0 <= i < t.len() && t[i] == j;
                    if i > 0 {
                        assert(rest[i - 1] == j);
                        assert(rest.contains(j));
                    }
                }
                if next <= j < queues && j != thief {
                    if j == v {
                        assert(t[0] == j);
                    } else {
                        assert(rest.contains(j));
                        let i = choose|i: int| 0 <= i < rest.len() && rest[i] == j;
                        assert(t[i + 1] == j);
                    }
                }
            }
            assert forall|i: int, k: int| 0 <= i < k < t.len() implies t[i] < t[k] by {
                assert(rest.contains(t[k])) by {
                    assert(rest[k - 1] == t[k]);
                }
                if i > 0 {
                    assert(t[i] == rest[i - 1]);
                    assert(t[k] == rest[k - 1]);
                }
            }
        },
        None => {},
    }
}

/// The queue a scan offers is the first one at or after its position, below
/// the number of queues, that is not the thief's own; a scan that has not
/// ended offers a queue whenever such a queue exists.
pub proof fn lemma_victim_is_first_other_queue(s: StealScan)
    ensures
        s.spec_victim() is None <==> (s@.done || forall|j: nat|
            s@.next <= j < s@.queues ==> !#[trigger] other_queue(s@.thief, j)),
        s.spec_victim() matches Some(v) ==> {
            &&& !s@.done
            &&& v != s@.thief
            &&& s@.next <= v < s@.queues
            &&& forall|j: nat| s@.next <= j < v ==> !#[trigger] other_queue(s@.thief, j)
        },
{
    if !s@.done && s.spec_victim() is None {
        assert forall|j: nat| s@.next <= j < s@.queues implies !#[trigger] other_queue(s@.thief, j) by {
            if j != s@.thief {
                assert(j == s@.next || j == s@.next + 1);
            }
        }
    }
    if !s@.done && (forall|j: nat| s@.next <= j < s@.queues ==> !#[trigger] other_queue(s@.thief, j)) {
        if s@.next < s@.queues {
            assert(!other_queue(s@.thief, s@.next));
            if s@.next + 1 < s@.queues {
                assert(!other_queue(s@.thief, s@.next + 1));
            }
        }
    }
}

/// Abstract state of a scan.
pub struct StealView {
    pub thief: nat,
    pub queues: nat,
    pub next: nat,
    pub done: bool,
}

/// A scan over the worker queues on behalf of the worker `thief`.
pub struct StealScan {
    thief: usize,
    queues: usize,
    next: usize,
    done: bool,
}

impl View for StealScan {
    type V = StealView;

    closed spec fn view(&self) -> StealView {
        StealView {
            thief: self.thief as nat,
            queues: self.queues as nat,
            next: self.next as nat,
            done: self.done,
        }
    }
}

impl StealScan {
    /// The queue the scan offers next, if any.
    pub open spec fn spec_victim(self) -> Option<nat> {
        if self@.done {
            None
        } else {
            victim_from(self@.thief, self@.queues, self@.next)
        }
    }

    /// A scan for the worker `thief` over `queues` queues, not yet started.
    pub fn new(thief: usize, queues: usize) -> (s: Self)
        ensures
            s@ == (StealView { thief: thief as nat, queues: queues as nat, next: 0, done: false }),
    {
        StealScan { thief, queues, next: 0, done: false }
    }

    /// The worker on whose behalf the scan runs.
    pub fn thief(&self) -> (t: usize)
        ensures
            t == self@.thief,
    {
        self.thief
    }

    /// The queue to try next, or `None` when the scan is over. It is never
    /// the thief's own queue and always one of the `queues` queues.
    pub fn victim(&self) -> (r: Option<usize>)
        ensures
            r matches Some(v) ==> self.spec_victim() == Some(v as nat),
            r is None ==> self.spec_victim() is None,
            r matches Some(v) ==> v != self@.thief && v < self@.queues && v >= self@.next,
            r matches Some(v) ==> !self@.done && forall|j: nat|
                self@.next <= j < v ==> !#[trigger] other_queue(self@.thief, j),
            r is None <==> (self@.done || forall|j: nat|
                self@.next <= j < self@.queues ==> !#[trigger] other_queue(self@.thief, j)),
    {
        proof {
            lemma_victim_is_first_other_queue(*self);
        }
        if self.done {
            None
        } else if self.next == self.thief {
            if self.next < self.queues && self.next + 1 < self.queues {
                Some(self.next + 1)
            } else {
                None
            }
        } else if self.next < self.queues {
            Some(self.next)
        } else {
            None
        }
    }

    /// Moves the scan past the queue it offered, which had no task; with
    /// nothing offered, the scan is over and stays so.
    pub fn advance(&mut self)
        ensures
            final(self)@ == (StealView {
                next: match old(self).spec_victim() {
                    Some(v) => v + 1,
                    None => old(self)@.next,
                },
                ..old(self)@
            }),
    {
        match self.victim() {
            Some(v) => {
                self.next = v + 1;
            },
            None => {},
        }
    }

    /// Ends the scan after a task was taken from the queue it offered: a
    /// request for work moves at most one task.
    pub fn advance_taken(&mut self)
        ensures
            final(self)@ == (StealView { done: true, ..old(self)@ }),
            final(self).spec_victim() is None,
    {
        self.done = true;
    }
}

} // verus!
