//! The laws of the scheduler and the rendezvous protocol, stated and
//! proved over the contracts of the operations themselves.

use vstd::prelude::*;

use crate::ipc::{
    buffers_in, deliver_to_receiver_post, receive_phys_rel, receiver_waiting, send_phys_rel,
};
use crate::memory::stamped;
use crate::process::{Message, Pid, ReceiveFrom, Status};
use crate::ready_queue::{first_nonempty, is_first_nonempty};
use crate::scheduler::{switch_rel, Fatal, SchedulerView, SwitchPair};

verus! {

/// At any observation point of a well-formed scheduler, at most one
/// process is `Running`, and it is the one the scheduler records as
/// running.
pub proof fn lemma_at_most_one_running(s: SchedulerView, p: Pid, q: Pid)
    requires
        s.wf_core(),
        s.contains(p),
        s.contains(q),
        s.proc(p).status is Running,
        s.proc(q).status is Running,
    ensures
        p == q,
        p == s.running,
{
}

/// The ready-queue structure always serves, among the currently enqueued
/// PIDs, one from the numerically smallest non-empty priority level:
/// every other enqueued PID sits at that level or a larger one. Within a
/// level the front is returned, which is the earliest-pushed element,
/// since pushes append at the back.
pub proof fn lemma_pop_most_urgent(qs: Seq<Seq<Pid>>, l: int, k: int)
    requires
        is_first_nonempty(qs, l),
        0 <= k < qs.len(),
        qs[k].len() > 0,
    ensures
        l <= k,
        first_nonempty(qs) == l,
{
    crate::ready_queue::lemma_first_nonempty(qs);
}

/// In a well-formed scheduler the PID that `pop` would serve names a
/// runnable process whose priority value is no larger than that of any
/// other runnable process.
pub proof fn lemma_pop_selects_minimal_priority(s: SchedulerView, other: Pid)
    requires
        s.wf_core(),
        !crate::ready_queue::all_empty(s.queues),
        s.contains(other),
        s.proc(other).status is Runnable,
    ensures
        ({
            let chosen = s.queues[first_nonempty(s.queues)][0];
            &&& s.contains(chosen)
            &&& s.proc(chosen).status is Runnable
            &&& s.proc(chosen).priority <= s.proc(other).priority
        }),
{
    crate::ready_queue::lemma_first_nonempty(s.queues);
    let l = first_nonempty(s.queues);
    let lo = s.proc(other).priority as int;
    assert(s.queues[lo].contains(other));
    let i = choose|i: int| 0 <= i < s.queues[lo].len() && s.queues[lo][i] == other;
    assert(s.queues[lo].len() > 0);
    lemma_pop_most_urgent(s.queues, l, lo);
}

/// If process B is blocked receiving — from anyone, or from the running
/// process A in particular — and A sends it a message: A does not block
/// (it stays `Running`), B becomes `Runnable`, and B's registered buffer
/// afterwards holds the sent message's body with A's PID stamped into the
/// header, whatever sender PID the message carried before.
pub proof fn lemma_send_to_waiting_receiver(
    pre: SchedulerView,
    mem_pre: Map<u64, Message>,
    msg: u64,
    b: Pid,
    post: SchedulerView,
    mem_post: Map<u64, Message>,
)
    requires
        pre.wf(),
        mem_pre.contains_key(msg),
        pre.contains(b),
        b != pre.running,
        pre.proc(b).receive_from == Some(ReceiveFrom::Any) || pre.proc(b).receive_from == Some(
            ReceiveFrom::Id(pre.running),
        ),
        send_phys_rel(pre, mem_pre, msg, b, post, mem_post, Ok(())),
    ensures
        post.contains(pre.running) && post.proc(pre.running).status is Running,
        post.contains(b) && post.proc(b).status is Runnable,
        mem_post[pre.proc(b).msg_ptr->0].body == mem_pre[msg].body,
        mem_post[pre.proc(b).msg_ptr->0].header.sender == pre.running,
{
    assert(receiver_waiting(pre, b));
    let a = pre.running;
    assert(post.proc(a) == pre.proc(a));
    let buf = pre.proc(b).msg_ptr->0;
    assert(mem_post == mem_pre.insert(msg, stamped(mem_pre[msg], a)).insert(
        buf,
        stamped(mem_pre[msg], a),
    ));
    assert(mem_post[buf] == stamped(mem_pre[msg], a));
}

/// If B is not waiting when the running process A sends to it, A blocks:
/// its status becomes `Sending { to: B, message }` with its message
/// registered, and A's PID joins the back of B's pending-sender queue —
/// so later senders queue up behind earlier ones, in arrival order.
pub proof fn lemma_send_blocks_sender(
    pre: SchedulerView,
    mem_pre: Map<u64, Message>,
    msg: u64,
    b: Pid,
    post: SchedulerView,
    mem_post: Map<u64, Message>,
)
    requires
        pre.wf(),
        pre.contains(b),
        b != pre.running,
        !receiver_waiting(pre, b),
        send_phys_rel(pre, mem_pre, msg, b, post, mem_post, Ok(())),
    ensures
        post.proc(pre.running).status == (Status::Sending { to: b, message: msg }),
        post.proc(pre.running).msg_ptr == Some(msg),
        post.proc(pre.running).send_to == Some(b),
        post.proc(b).pending_senders == pre.proc(b).pending_senders.push(pre.running),
        mem_post == mem_pre,
{
    assert(pre.proc_blocking_wf(pre.running));
}

/// A `receive_from_any` that finds senders waiting is satisfied by the
/// oldest one: the front of the pending-sender queue. That sender is
/// woken, the rest of the queue moves up, and the receiver's buffer holds
/// the front sender's stored message with its PID stamped into the
/// header.
pub proof fn lemma_receive_any_serves_oldest(
    pre: SchedulerView,
    mem_pre: Map<u64, Message>,
    buf: u64,
    post: SchedulerView,
    mem_post: Map<u64, Message>,
)
    requires
        pre.wf(),
        buffers_in(pre, mem_pre),
        pre.proc(pre.running).pending_senders.len() > 0,
        receive_phys_rel(pre, mem_pre, buf, ReceiveFrom::Any, post, mem_post, Ok(())),
    ensures
        ({
            let b = pre.running;
            let a = pre.proc(b).pending_senders[0];
            &&& post.contains(a) && post.proc(a).status is Runnable
            &&& post.proc(b).pending_senders == pre.proc(b).pending_senders.drop_first()
            &&& mem_post[buf].header.sender == a
            &&& mem_post[buf].body == mem_pre[pre.proc(a).msg_ptr->0].body
        }),
{
    let b = pre.running;
    let q = pre.proc(b).pending_senders;
    let a = q[0];
    assert(q.contains(a));
    assert(pre.contains(a) && pre.proc(a).send_to == Some(b));
    assert(pre.proc_blocking_wf(a));
    assert(a != b);
    assert(post == deliver_to_receiver_post(pre, a));
    q.index_of_first_ensures(a);
    assert(q.index_of_first(a) == Some(0int));
    assert(q.remove(0) =~= q.drop_first());
    let m = pre.proc(a).msg_ptr->0;
    assert(mem_post[buf] == stamped(mem_pre[m], a));
    assert(post.proc(b).pending_senders == q.remove_value(a));
}

/// A switch decision never hands back a pair whose incoming PID is the
/// PID that was already running: that case is reported as `Ok(None)` and
/// changes nothing.
pub proof fn lemma_switch_no_self_pair(
    pre: SchedulerView,
    post: SchedulerView,
    pair: SwitchPair,
)
    requires
        switch_rel(pre, post, Ok(Some(pair))),
    ensures
        pair.next != pre.running,
        pair.next == pre.next_pid(),
{
}

/// When the selected next PID is the running one, the switch reports
/// `Ok(None)` and leaves the scheduler untouched.
pub proof fn lemma_switch_self_is_noop(
    pre: SchedulerView,
    post: SchedulerView,
    r: Result<Option<SwitchPair>, Fatal>,
)
    requires
        switch_rel(pre, post, r),
        r is Ok,
        !crate::ready_queue::all_empty(pre.rotated_queues()),
        pre.next_pid() == pre.running,
    ensures
        r == Ok::<Option<SwitchPair>, Fatal>(None),
        post == pre,
{
    if let Ok(Some(pair)) = r {
        assert(false);
    }
}

} // verus!
