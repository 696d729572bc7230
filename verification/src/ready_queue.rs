//! The ready-queue structure: one FIFO queue of PIDs per priority level,
//! giving O(1) push and priority-ordered pop.
//!
//! Policy: strict priority with FIFO tie-break inside a level. There is no
//! aging, so a lower-priority process can be starved indefinitely by
//! continuously runnable higher-priority ones; that is a deliberate design
//! choice of this scheduler.

use vstd::prelude::*;

use crate::process::{Pid, LEAST_PRIORITY};
use std::collections::VecDeque;

verus! {

/// Every priority level's queue is empty.
pub open spec fn all_empty(qs: Seq<Seq<Pid>>) -> bool {
    forall|l: int| 0 <= l < qs.len() ==> qs[l].len() == 0
}

/// `l` is the lowest-numbered (most urgent) priority level whose queue is
/// non-empty.
pub open spec fn is_first_nonempty(qs: Seq<Seq<Pid>>, l: int) -> bool {
    &&& 0 <= l < qs.len()
    &&& qs[l].len() > 0
    &&& forall|k: int| 0 <= k < l ==> qs[k].len() == 0
}

/// The lowest-numbered non-empty priority level. Meaningful only when not
/// `all_empty(qs)`; see [`lemma_first_nonempty`].
pub open spec fn first_nonempty(qs: Seq<Seq<Pid>>) -> int {
    choose|l: int| is_first_nonempty(qs, l)
}

/// When some queue is non-empty, `first_nonempty` picks the unique level
/// satisfying `is_first_nonempty`.
pub proof fn lemma_first_nonempty(qs: Seq<Seq<Pid>>)
    requires
        !all_empty(qs),
    ensures
        is_first_nonempty(qs, first_nonempty(qs)),
        forall|l: int| is_first_nonempty(qs, l) ==> l == first_nonempty(qs),
    decreases qs.len(),
{
    let w = choose|l: int| 0 <= l < qs.len() && qs[l].len() > 0;
    lemma_exists_first_nonempty(qs, w);
    let f = first_nonempty(qs);
    assert forall|l: int| is_first_nonempty(qs, l) implies l == f by {
        if l < f {
            assert(qs[l].len() == 0);
        } else if f < l {
            assert(qs[f].len() == 0);
        }
    }
}

proof fn lemma_exists_first_nonempty(qs: Seq<Seq<Pid>>, w: int)
    requires
        0 <= w < qs.len(),
        qs[w].len() > 0,
    ensures
        is_first_nonempty(qs, first_nonempty(qs)),
    decreases w,
{
    if forall|k: int| 0 <= k < w ==> qs[k].len() == 0 {
        assert(is_first_nonempty(qs, w));
        assert(is_first_nonempty(qs, first_nonempty(qs)));
    } else {
        let w2 = choose|k: int| 0 <= k < w && qs[k].len() > 0;
        lemma_exists_first_nonempty(qs, w2);
    }
}

/// An array of FIFO queues indexed by priority level; index 0 is served
/// first. Its view is the sequence of per-level PID sequences, front of
/// each queue first.
pub struct RunnablePids {
    queues: Vec<VecDeque<Pid>>,
}

impl View for RunnablePids {
    type V = Seq<Seq<Pid>>;

    closed spec fn view(&self) -> Seq<Seq<Pid>> {
        Seq::new(self.queues@.len() as nat, |i: int| self.queues@[i]@)
    }
}

impl RunnablePids {
    /// The structure always holds one queue per priority level.
    pub open spec fn wf(&self) -> bool {
        self@.len() == LEAST_PRIORITY + 1
    }

    /// One empty queue per priority level.
    pub fn new() -> (r: RunnablePids)
        ensures
            r.wf(),
            all_empty(r@),
    {
        let mut queues: Vec<VecDeque<Pid>> = Vec::new();
        let mut l: usize = 0;
        while l < LEAST_PRIORITY + 1
            invariant
                l <= LEAST_PRIORITY + 1,
                queues@.len() == l,
                forall|i: int| 0 <= i < l ==> queues@[i]@.len() == 0,
            decreases LEAST_PRIORITY + 1 - l,
        {
            queues.push(VecDeque::new());
            l = l + 1;
        }
        RunnablePids { queues }
    }

    /// Append `pid` to the back of the queue at level `priority`. Callers
    /// must not push a PID that is already enqueued; this structure itself
    /// does not check uniqueness.
    pub fn push(&mut self, pid: Pid, priority: usize)
        requires
            old(self).wf(),
            priority <= LEAST_PRIORITY,
        ensures
            final(self).wf(),
            final(self)@ == old(self)@.update(priority as int, old(self)@[priority as int].push(pid)),
    {
        let q = &mut self.queues[priority];
        q.push_back(pid);
        proof {
            assert(final(self)@ =~= old(self)@.update(
                priority as int,
                old(self)@[priority as int].push(pid),
            ));
        }
    }

    /// Scan the levels in increasing index order and remove the front
    /// element of the first non-empty queue; `None` when every queue is
    /// empty.
    pub fn pop(&mut self) -> (r: Option<Pid>)
        requires
            old(self).wf(),
        ensures
            final(self).wf(),
            match r {
                None => all_empty(old(self)@) && final(self)@ == old(self)@,
                Some(pid) => {
                    let l = first_nonempty(old(self)@);
                    &&& is_first_nonempty(old(self)@, l)
                    &&& pid == old(self)@[l][0]
                    &&& final(self)@ == old(self)@.update(l, old(self)@[l].drop_first())
                },
            },
    {
        let mut l: usize = 0;
        while l < self.queues.len()
            invariant
                self == old(self),
                self.wf(),
                l <= self.queues@.len(),
                forall|k: int| 0 <= k < l ==> self@[k].len() == 0,
            decreases self.queues@.len() - l,
        {
            if self.queues[l].len() > 0 {
                proof {
                    assert(is_first_nonempty(self@, l as int));
                    lemma_first_nonempty(self@);
                }
                let q = &mut self.queues[l];
                let front = q.pop_front();
                proof {
                    assert(final(self)@ =~= old(self)@.update(
                        l as int,
                        old(self)@[l as int].drop_first(),
                    ));
                }
                return front;
            }
            l = l + 1;
        }
        None
    }
}

} // verus!
