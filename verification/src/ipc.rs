//! The rendezvous message-passing protocol: the sender half, the receiver
//! half, and the entry points that run a protocol step and then always
//! take a switch decision.
//!
//! A message moves only when both partners are present: whoever arrives
//! first blocks, registers its buffer, and is woken by the partner. The
//! kernel copies the fixed-size record between physical buffers and
//! stamps the true sender PID into the delivered header.

use vstd::prelude::*;

use crate::memory::{stamped, AddressSpace, MsgMemory};
use crate::process::{Message, Pid, ProcessView, ReceiveFrom, Status};
use crate::scheduler::{switch_rel, Fatal, Scheduler, SchedulerView, SwitchPair};

verus! {

/// Every registered message buffer of a process table names a record that
/// is present in the message memory.
pub open spec fn buffers_in(s: SchedulerView, mem: Map<u64, Message>) -> bool {
    forall|pid: Pid| #[trigger] s.contains(pid) && s.proc(pid).msg_ptr is Some
        ==> mem.contains_key(s.proc(pid).msg_ptr->0)
}

/// Whether the destination process is blocked waiting for a message that
/// the running process may deliver: its filter is `Any` or names the
/// running process.
pub open spec fn receiver_waiting(s: SchedulerView, to: Pid) -> bool {
    ||| s.proc(to).receive_from == Some(ReceiveFrom::Id(s.running))
    ||| s.proc(to).receive_from == Some(ReceiveFrom::Any)
}

/// How one sender-protocol step on an already translated message address
/// relates the scheduler and the message memory before and after.
///
/// The destination must exist; then either the receiver is already
/// waiting — the message is delivered at once, the receiver's bookkeeping
/// is consumed and it is woken, and the sender keeps running — or the
/// sender blocks: it registers its message, appends itself to the
/// destination's pending-sender queue and becomes `Sending`.
pub open spec fn send_phys_rel(
    pre: SchedulerView,
    mem_pre: Map<u64, Message>,
    msg: u64,
    to: Pid,
    post: SchedulerView,
    mem_post: Map<u64, Message>,
    r: Result<(), Fatal>,
) -> bool {
    let s = pre.running;
    let d = pre.proc(to);
    if !pre.contains(to) {
        r == Err::<(), Fatal>(Fatal::NoSuchProcess) && post == pre && mem_post == mem_pre
    } else if receiver_waiting(pre, to) {
        let buf = d.msg_ptr->0;
        &&& r == Ok::<(), Fatal>(())
        &&& mem_post == mem_pre.insert(msg, stamped(mem_pre[msg], s)).insert(
            buf,
            stamped(mem_pre[msg], s),
        )
        &&& post == pre.with_proc(
            to,
            ProcessView {
                status: Status::Runnable,
                msg_ptr: None,
                send_to: None,
                receive_from: None,
                ..d
            },
        ).with_enqueued(to, d.priority as int)
    } else if pre.proc(s).msg_ptr is Some {
        r == Err::<(), Fatal>(Fatal::MessageAlreadyStored) && post == pre && mem_post == mem_pre
    } else {
        &&& r == Ok::<(), Fatal>(())
        &&& mem_post == mem_pre
        &&& post == pre.with_proc(
            s,
            ProcessView {
                status: Status::Sending { to, message: msg },
                msg_ptr: Some(msg),
                send_to: Some(to),
                ..pre.proc(s)
            },
        ).with_proc(to, ProcessView { pending_senders: d.pending_senders.push(s), ..d })
    }
}

/// The sender half of the rendezvous protocol, built per call: the
/// already translated physical address of the outgoing message and the
/// destination PID.
pub struct Sender {
    /// Physical address of the outgoing message.
    pub msg: u64,
    /// Destination PID.
    pub to: Pid,
}

impl Sender {
    /// Check that the destination is not the sender itself — a self-send
    /// is a programming error — and translate the message's virtual
    /// address.
    pub fn new(sched: &Scheduler, aspace: &AddressSpace, msg: u64, to: Pid) -> (r: Result<
        Sender,
        Fatal,
    >)
        ensures
            match r {
                Ok(snd) => {
                    &&& to != sched@.running
                    &&& aspace@.contains_key(msg)
                    &&& snd.msg == aspace@[msg]
                    &&& snd.to == to
                },
                Err(Fatal::SelfSend) => to == sched@.running,
                Err(Fatal::TranslationFailed) => to != sched@.running && !aspace@.contains_key(
                    msg,
                ),
                Err(_) => false,
            },
    {
        if to == sched.running() {
            return Err(Fatal::SelfSend);
        }
        match aspace.translate(msg) {
            Some(phys) => Ok(Sender { msg: phys, to }),
            None => Err(Fatal::TranslationFailed),
        }
    }

    /// Run the sender protocol: deliver at once if the receiver is
    /// waiting, otherwise block the running process as `Sending`.
    pub fn send(self, sched: &mut Scheduler, mem: &mut MsgMemory) -> (r: Result<(), Fatal>)
        requires
            old(sched)@.wf(),
            self.to != old(sched)@.running,
            buffers_in(old(sched)@, old(mem)@),
            old(mem)@.contains_key(self.msg),
        ensures
            send_phys_rel(
                old(sched)@,
                old(mem)@,
                self.msg,
                self.to,
                final(sched)@,
                final(mem)@,
                r,
            ),
            r is Ok ==> final(sched)@.wf_core() && buffers_in(final(sched)@, final(mem)@),
            r is Ok && receiver_waiting(old(sched)@, self.to) ==> final(sched)@.wf(),
            r is Err ==> final(sched)@ == old(sched)@ && final(mem)@ == old(mem)@,
    {
        let to = self.to;
        let running = sched.running();
        let waiting = match sched.process_as_ref(to) {
            None => {
                return Err(Fatal::NoSuchProcess);
            },
            Some(d) => match d.receive_from {
                Some(ReceiveFrom::Id(id)) => id == running,
                Some(ReceiveFrom::Any) => true,
                None => false,
            },
        };
        if waiting {
            // the receiver's registered buffer; it is blocked `Receiving`
            let buf = match sched.process_as_ref(to).unwrap().msg_ptr {
                Some(b) => b,
                None => {
                    proof {
                        assert(old(sched)@.proc_blocking_wf(to));
                        assert(false);
                    }
                    return Err(Fatal::MessageAlreadyStored);
                },
            };
            proof {
                assert(old(sched)@.proc_blocking_wf(to));
                assert(old(sched)@.proc(to).status is Receiving);
            }
            mem.copy_msg(self.msg, buf, running);
            let mut d = sched.take_process(to);
            d.msg_ptr = None;
            d.send_to = None;
            d.receive_from = None;
            sched.put_process(d);
            let ghost mid = sched@;
            proof {
                assert(mid.processes =~= pre_deliver_mid(old(sched)@, to).processes);
                lemma_deliver_cleared(old(sched)@, mid, to);
            }
            match sched.wake(to) {
                Ok(()) => {},
                Err(e) => {
                    proof {
                        assert(false);
                    }
                    return Err(e);
                },
            }
            proof {
                lemma_wake_establishes_wf(mid, sched@, to);
                assert(sched@.processes =~= old(sched)@.with_proc(
                    to,
                    ProcessView {
                        status: Status::Runnable,
                        msg_ptr: None,
                        send_to: None,
                        receive_from: None,
                        ..old(sched)@.proc(to)
                    },
                ).processes);
                assert forall|pid: Pid|
                    #[trigger] sched@.contains(pid) && sched@.proc(pid).msg_ptr is Some implies mem@
                    .contains_key(sched@.proc(pid).msg_ptr->0) by {
                    assert(old(sched)@.contains(pid));
                    if pid != to {
                        assert(sched@.proc(pid) == old(sched)@.proc(pid));
                    }
                }
            }
            Ok(())
        } else {
            if sched.process_as_ref(running).unwrap().msg_ptr.is_some() {
                proof {
                    assert(old(sched)@.proc_blocking_wf(running));
                    assert(false);
                }
                return Err(Fatal::MessageAlreadyStored);
            }
            let mut s = sched.take_process(running);
            s.msg_ptr = Some(self.msg);
            s.send_to = Some(to);
            s.status = Status::Sending { to, message: self.msg };
            sched.put_process(s);
            let mut d = sched.take_process(to);
            d.pids_try_to_send_this_process.push_back(running);
            sched.put_process(d);
            proof {
                assert(sched@.processes =~= old(sched)@.with_proc(
                    running,
                    ProcessView {
                        status: Status::Sending { to, message: self.msg },
                        msg_ptr: Some(self.msg),
                        send_to: Some(to),
                        ..old(sched)@.proc(running)
                    },
                ).with_proc(
                    to,
                    ProcessView {
                        pending_senders: old(sched)@.proc(to).pending_senders.push(running),
                        ..old(sched)@.proc(to)
                    },
                ).processes);
                lemma_block_sender_wf(old(sched)@, sched@, self.msg, to);
                assert forall|pid: Pid|
                    #[trigger] sched@.contains(pid) && sched@.proc(pid).msg_ptr is Some implies mem@
                    .contains_key(sched@.proc(pid).msg_ptr->0) by {
                    assert(old(sched)@.contains(pid));
                    if pid == to {
                        assert(sched@.proc(to).msg_ptr == old(sched)@.proc(to).msg_ptr);
                    } else if pid != running {
                        assert(sched@.proc(pid) == old(sched)@.proc(pid));
                    }
                }
            }
            Ok(())
        }
    }
}

/// Whether some sender is blocked waiting to be received under `filter`:
/// for a named PID, that process's recorded destination is the running
/// process; for `Any`, the running process's pending-sender queue is
/// non-empty.
///
/// For the named-PID case this layer reads the check as "the candidate
/// sender's destination equals the receiving process's PID": that is the
/// condition under which the candidate's stored message is addressed to
/// the receiver, and the one that keeps the pending-sender bookkeeping
/// consistent when the rendezvous completes.
pub open spec fn sender_waiting(s: SchedulerView, filter: ReceiveFrom) -> bool {
    match filter {
        ReceiveFrom::Id(from) => s.proc(from).send_to == Some(s.running),
        ReceiveFrom::Any => s.proc(s.running).pending_senders.len() > 0,
    }
}

/// The state after the running process blocks as a receiver: it registers
/// its buffer and filter and becomes `Receiving`.
pub open spec fn blocked_receiver_post(
    pre: SchedulerView,
    buf: u64,
    filter: ReceiveFrom,
) -> SchedulerView {
    pre.with_proc(
        pre.running,
        ProcessView {
            status: Status::Receiving(filter),
            msg_ptr: Some(buf),
            receive_from: Some(filter),
            ..pre.proc(pre.running)
        },
    )
}

/// The state after the running process receives from the blocked sender
/// `from`: the sender leaves the receiver's pending queue, its
/// bookkeeping is consumed, and it is woken.
pub open spec fn deliver_to_receiver_post(pre: SchedulerView, from: Pid) -> SchedulerView {
    let rcv = pre.running;
    pre.with_proc(
        rcv,
        ProcessView {
            pending_senders: pre.proc(rcv).pending_senders.remove_value(from),
            ..pre.proc(rcv)
        },
    ).with_proc(
        from,
        ProcessView {
            status: Status::Runnable,
            msg_ptr: None,
            send_to: None,
            receive_from: None,
            ..pre.proc(from)
        },
    ).with_enqueued(from, pre.proc(from).priority as int)
}

/// How one receiver-protocol step on an already translated buffer address
/// relates the scheduler and the message memory before and after.
///
/// For a named sender that must exist; then either a matching sender is
/// already blocked — its message is copied into the buffer with its PID
/// stamped into the header, and the sender is woken — or the receiver
/// blocks with its buffer registered. For `Any`, the oldest blocked
/// sender is served first.
pub open spec fn receive_phys_rel(
    pre: SchedulerView,
    mem_pre: Map<u64, Message>,
    buf: u64,
    filter: ReceiveFrom,
    post: SchedulerView,
    mem_post: Map<u64, Message>,
    r: Result<(), Fatal>,
) -> bool {
    let rcv = pre.running;
    match filter {
        ReceiveFrom::Id(from) => {
            if !pre.contains(from) {
                r == Err::<(), Fatal>(Fatal::NoSuchProcess) && post == pre && mem_post == mem_pre
            } else if pre.proc(from).send_to == Some(rcv) {
                deliver_rel(pre, mem_pre, buf, from, post, mem_post, r)
            } else {
                block_rel(pre, mem_pre, buf, filter, post, mem_post, r)
            }
        },
        ReceiveFrom::Any => {
            if pre.proc(rcv).pending_senders.len() > 0 {
                let from = pre.proc(rcv).pending_senders[0];
                deliver_rel(pre, mem_pre, buf, from, post, mem_post, r)
            } else {
                block_rel(pre, mem_pre, buf, filter, post, mem_post, r)
            }
        },
    }
}

/// The delivered half of `receive_phys_rel`.
pub open spec fn deliver_rel(
    pre: SchedulerView,
    mem_pre: Map<u64, Message>,
    buf: u64,
    from: Pid,
    post: SchedulerView,
    mem_post: Map<u64, Message>,
    r: Result<(), Fatal>,
) -> bool {
    let m = pre.proc(from).msg_ptr->0;
    &&& r == Ok::<(), Fatal>(())
    &&& mem_post == mem_pre.insert(m, stamped(mem_pre[m], from)).insert(
        buf,
        stamped(mem_pre[m], from),
    )
    &&& post == deliver_to_receiver_post(pre, from)
}

/// The blocked half of `receive_phys_rel`.
pub open spec fn block_rel(
    pre: SchedulerView,
    mem_pre: Map<u64, Message>,
    buf: u64,
    filter: ReceiveFrom,
    post: SchedulerView,
    mem_post: Map<u64, Message>,
    r: Result<(), Fatal>,
) -> bool {
    if pre.proc(pre.running).msg_ptr is Some {
        r == Err::<(), Fatal>(Fatal::MessageAlreadyStored) && post == pre && mem_post == mem_pre
    } else {
        &&& r == Ok::<(), Fatal>(())
        &&& mem_post == mem_pre
        &&& post == blocked_receiver_post(pre, buf, filter)
    }
}

/// The receiver half of the rendezvous protocol, built per call: the
/// already translated physical address of the receive buffer and the
/// filter.
pub struct Receiver {
    /// Physical address of the receive buffer.
    pub msg_buf: u64,
    /// Which senders this receive accepts.
    pub from: ReceiveFrom,
}

impl Receiver {
    /// A receive that accepts any sender; only the buffer address is
    /// translated.
    pub fn new_from_any(aspace: &AddressSpace, msg_buf: u64) -> (r: Result<Receiver, Fatal>)
        ensures
            match r {
                Ok(rv) => {
                    &&& aspace@.contains_key(msg_buf)
                    &&& rv.msg_buf == aspace@[msg_buf]
                    &&& rv.from == ReceiveFrom::Any
                },
                Err(Fatal::TranslationFailed) => !aspace@.contains_key(msg_buf),
                Err(_) => false,
            },
    {
        match aspace.translate(msg_buf) {
            Some(phys) => Ok(Receiver { msg_buf: phys, from: ReceiveFrom::Any }),
            None => Err(Fatal::TranslationFailed),
        }
    }

    /// A receive that accepts only `from`, which must not be the receiver
    /// itself.
    pub fn new_from(sched: &Scheduler, aspace: &AddressSpace, msg_buf: u64, from: Pid) -> (r:
        Result<Receiver, Fatal>)
        ensures
            match r {
                Ok(rv) => {
                    &&& from != sched@.running
                    &&& aspace@.contains_key(msg_buf)
                    &&& rv.msg_buf == aspace@[msg_buf]
                    &&& rv.from == ReceiveFrom::Id(from)
                },
                Err(Fatal::SelfReceive) => from == sched@.running,
                Err(Fatal::TranslationFailed) => from != sched@.running
                    && !aspace@.contains_key(msg_buf),
                Err(_) => false,
            },
    {
        if from == sched.running() {
            return Err(Fatal::SelfReceive);
        }
        match aspace.translate(msg_buf) {
            Some(phys) => Ok(Receiver { msg_buf: phys, from: ReceiveFrom::Id(from) }),
            None => Err(Fatal::TranslationFailed),
        }
    }

    /// Run the receiver protocol: take a waiting sender's message at once
    /// if there is one, otherwise block the running process as
    /// `Receiving`.
    pub fn receive(self, sched: &mut Scheduler, mem: &mut MsgMemory) -> (r: Result<(), Fatal>)
        requires
            old(sched)@.wf(),
            self.from matches ReceiveFrom::Id(f) ==> f != old(sched)@.running,
            buffers_in(old(sched)@, old(mem)@),
            old(mem)@.contains_key(self.msg_buf),
        ensures
            receive_phys_rel(
                old(sched)@,
                old(mem)@,
                self.msg_buf,
                self.from,
                final(sched)@,
                final(mem)@,
                r,
            ),
            r is Ok ==> final(sched)@.wf_core() && buffers_in(final(sched)@, final(mem)@),
            r is Ok && sender_waiting(old(sched)@, self.from) ==> final(sched)@.wf(),
            r is Err ==> final(sched)@ == old(sched)@ && final(mem)@ == old(mem)@,
    {
        let rcv = sched.running();
        let waiting = match self.from {
            ReceiveFrom::Id(id) => match sched.process_as_ref(id) {
                None => {
                    return Err(Fatal::NoSuchProcess);
                },
                Some(p) => match p.send_to {
                    Some(d) => d == rcv,
                    None => false,
                },
            },
            ReceiveFrom::Any => sched.process_as_ref(
                rcv,
            ).unwrap().pids_try_to_send_this_process.len() > 0,
        };
        if waiting {
            // select the source: the named sender, or the oldest blocked one
            let mut rp = sched.take_process(rcv);
            let src = match self.from {
                ReceiveFrom::Id(id) => {
                    proof {
                        assert(old(sched)@.proc_blocking_wf(id));
                        assert(old(sched)@.proc(id).status matches Status::Sending {
                            to,
                            ..
                        } && to == rcv);
                        assert(old(sched)@.proc(rcv).pending_senders.contains(id));
                    }
                    let ghost q = rp.pids_try_to_send_this_process@;
                    let mut idx: usize = 0;
                    while idx < rp.pids_try_to_send_this_process.len()
                        && rp.pids_try_to_send_this_process[idx] != id
                        invariant
                            rp.pids_try_to_send_this_process@ == q,
                            0 <= idx <= q.len(),
                            forall|k: int| 0 <= k < idx ==> q[k] != id,
                            q.contains(id),
                        decreases q.len() - idx,
                    {
                        idx = idx + 1;
                    }
                    proof {
                        if idx >= q.len() {
                            let w = choose|i: int| 0 <= i < q.len() && q[i] == id;
                            assert(false);
                        }
                        q.index_of_first_ensures(id);
                        assert(q.index_of_first(id) == Some(idx as int));
                        assert(q.remove_value(id) == q.remove(idx as int));
                    }
                    rp.pids_try_to_send_this_process.remove(idx);
                    id
                },
                ReceiveFrom::Any => {
                    let ghost q = rp.pids_try_to_send_this_process@;
                    let front = rp.pids_try_to_send_this_process.pop_front().unwrap();
                    proof {
                        q.index_of_first_ensures(front);
                        assert(q[0] == front);
                        assert(q.index_of_first(front) == Some(0int));
                        assert(q.remove(0) =~= q.drop_first());
                        assert(q.remove_value(front) == q.drop_first());
                        assert(rp.pids_try_to_send_this_process@ =~= q.remove_value(front));
                        assert(old(sched)@.proc(rcv).pending_senders[0] == front);
                    }
                    front
                },
            };
            sched.put_process(rp);
            proof {
                assert(old(sched)@.contains(src) && old(sched)@.proc(src).send_to == Some(rcv));
                assert(old(sched)@.proc_blocking_wf(src));
                assert(src != rcv);
            }
            // the sender's stored message; it is blocked `Sending` to us
            let m = match sched.process_as_ref(src).unwrap().msg_ptr {
                Some(m) => m,
                None => {
                    proof {
                        assert(false);
                    }
                    return Err(Fatal::MessageAlreadyStored);
                },
            };
            mem.copy_msg(m, self.msg_buf, src);
            let mut sp = sched.take_process(src);
            sp.msg_ptr = None;
            sp.send_to = None;
            sp.receive_from = None;
            sched.put_process(sp);
            let ghost mid = sched@;
            proof {
                assert(mid.processes =~= old(sched)@.with_proc(
                    rcv,
                    ProcessView {
                        pending_senders: old(sched)@.proc(rcv).pending_senders.remove_value(src),
                        ..old(sched)@.proc(rcv)
                    },
                ).with_proc(
                    src,
                    ProcessView {
                        msg_ptr: None,
                        send_to: None,
                        receive_from: None,
                        ..old(sched)@.proc(src)
                    },
                ).processes);
                lemma_receive_deliver_cleared(old(sched)@, mid, src);
            }
            match sched.wake(src) {
                Ok(()) => {},
                Err(e) => {
                    proof {
                        assert(false);
                    }
                    return Err(e);
                },
            }
            proof {
                lemma_wake_establishes_wf(mid, sched@, src);
                assert(sched@.processes =~= deliver_to_receiver_post(old(sched)@, src).processes);
                assert(sched@ =~= deliver_to_receiver_post(old(sched)@, src));
                assert forall|pid: Pid|
                    #[trigger] sched@.contains(pid) && sched@.proc(pid).msg_ptr is Some implies mem@
                    .contains_key(sched@.proc(pid).msg_ptr->0) by {
                    assert(old(sched)@.contains(pid));
                    if pid != src && pid != rcv {
                        assert(sched@.proc(pid) == old(sched)@.proc(pid));
                    } else if pid == rcv {
                        assert(sched@.proc(rcv).msg_ptr == old(sched)@.proc(rcv).msg_ptr);
                    }
                }
            }
            Ok(())
        } else {
            if sched.process_as_ref(rcv).unwrap().msg_ptr.is_some() {
                proof {
                    assert(old(sched)@.proc_blocking_wf(rcv));
                    assert(false);
                }
                return Err(Fatal::MessageAlreadyStored);
            }
            let mut rp = sched.take_process(rcv);
            rp.msg_ptr = Some(self.msg_buf);
            rp.receive_from = Some(self.from);
            rp.status = Status::Receiving(self.from);
            sched.put_process(rp);
            proof {
                assert(sched@.processes =~= blocked_receiver_post(
                    old(sched)@,
                    self.msg_buf,
                    self.from,
                ).processes);
                lemma_block_receiver_wf(old(sched)@, sched@, self.msg_buf, self.from);
                assert forall|pid: Pid|
                    #[trigger] sched@.contains(pid) && sched@.proc(pid).msg_ptr is Some implies mem@
                    .contains_key(sched@.proc(pid).msg_ptr->0) by {
                    assert(old(sched)@.contains(pid));
                    if pid != rcv {
                        assert(sched@.proc(pid) == old(sched)@.proc(pid));
                    }
                }
            }
            Ok(())
        }
    }
}

/// Consuming a waiting sender's bookkeeping — including its entry in the
/// receiver's pending queue — puts the scheduler exactly one `wake` away
/// from well-formedness again.
proof fn lemma_receive_deliver_cleared(pre: SchedulerView, mid: SchedulerView, src: Pid)
    requires
        pre.wf(),
        pre.contains(src),
        src != pre.running,
        pre.proc(src).send_to == Some(pre.running),
        mid.queues == pre.queues,
        mid.running == pre.running,
        mid.processes == pre.with_proc(
            pre.running,
            ProcessView {
                pending_senders: pre.proc(pre.running).pending_senders.remove_value(src),
                ..pre.proc(pre.running)
            },
        ).with_proc(
            src,
            ProcessView { msg_ptr: None, send_to: None, receive_from: None, ..pre.proc(src) },
        ).processes,
    ensures
        mid.wf_core_except_cleared(src),
        mid.proc(mid.running).status is Running,
        mid.proc(src).priority == pre.proc(src).priority,
        mid.proc(src).pid == pre.proc(src).pid,
{
    let rcv = pre.running;
    assert(pre.proc_blocking_wf(src));
    assert(pre.proc(src).status is Sending);
    let q = pre.proc(rcv).pending_senders;
    assert(q.contains(src));
    q.index_of_first_ensures(src);
    let i0 = q.index_of_first(src)->0;
    q.remove_ensures(i0);
    let q2 = q.remove_value(src);
    assert(q2 == q.remove(i0));
    // `src` occurs in the pending queue exactly once, at `i0`
    assert forall|k: int| 0 <= k < q2.len() implies #[trigger] q2[k] != src by {
        if k < i0 {
            assert(q2[k] == q[k]);
        } else {
            assert(q2[k] == q[k + 1]);
            assert(q[i0] == src);
        }
    }
    assert forall|pid: Pid| #[trigger] mid.contains(pid) implies mid.proc(pid).pid == pid
        && mid.proc(pid).structural_wf() by {
        assert(pre.contains(pid));
        if pid != src && pid != rcv {
            assert(mid.proc(pid) == pre.proc(pid));
        }
    }
    assert(mid.table_wf());
    assert forall|pid: Pid| #[trigger] mid.contains(pid) && mid.proc(pid).status is Running
        implies pid == mid.running by {
        assert(pre.contains(pid));
        if pid != src && pid != rcv {
            assert(mid.proc(pid) == pre.proc(pid));
        }
    }
    assert forall|pid: Pid| #[trigger] mid.contains(pid) && pid != src implies
        mid.proc_blocking_wf(pid) by {
        assert(pre.contains(pid));
        assert(pre.proc_blocking_wf(pid));
        if pid != rcv {
            assert(mid.proc(pid) == pre.proc(pid));
        }
        match mid.proc(pid).status {
            Status::Sending { to, message } => {
                assert(pre.contains(to));
            },
            Status::Receiving(f) => {
                if let ReceiveFrom::Id(from) = f {
                    assert(pre.contains(from));
                }
            },
            _ => {},
        }
    }
    // after the removal, `src` stands in no pending queue: its `send_to`
    // named the receiver, so the receiver's queue held its only entry
    assert forall|d: Pid, i: int|
        mid.contains(d) && 0 <= i < mid.proc(d).pending_senders.len() implies #[trigger] mid.proc(
        d,
    ).pending_senders[i] != src by {
        assert(pre.contains(d));
        if d == rcv {
            assert(mid.proc(rcv).pending_senders == q2);
        } else {
            assert(mid.proc(d).pending_senders == pre.proc(d).pending_senders);
            let e = pre.proc(d).pending_senders[i];
            assert(pre.contains(e) && pre.proc(e).send_to == Some(d));
            if e == src {
                assert(pre.proc(src).send_to == Some(rcv));
                assert(d == rcv);
                assert(false);
            }
        }
    }
    assert(mid.blocking_wf_except_cleared(src));
    assert forall|d: Pid, i: int|
        mid.contains(d) && 0 <= i < mid.proc(d).pending_senders.len() implies {
        &&& mid.contains(#[trigger] mid.proc(d).pending_senders[i])
        &&& mid.proc(mid.proc(d).pending_senders[i]).send_to == Some(d)
    } by {
        assert(pre.contains(d));
        let e = mid.proc(d).pending_senders[i];
        if d == rcv {
            assert(mid.proc(rcv).pending_senders == q2);
            if i < i0 {
                assert(q2[i] == q[i]);
            } else {
                assert(q2[i] == q[i + 1]);
            }
            assert(pre.proc(rcv).pending_senders.contains(e)) by {
                if i < i0 {
                    assert(q[i] == e);
                } else {
                    assert(q[i + 1] == e);
                }
            }
            assert(pre.contains(e) && pre.proc(e).send_to == Some(rcv)) by {
                let j = choose|j: int| 0 <= j < q.len() && q[j] == e;
                assert(pre.proc(rcv).pending_senders[j] == e);
            }
            assert(e != src);
            assert(e != rcv) by {
                assert(pre.proc_blocking_wf(rcv));
            }
            assert(mid.proc(e) == pre.proc(e));
        } else {
            assert(mid.proc(d).pending_senders == pre.proc(d).pending_senders);
            assert(pre.contains(e) && pre.proc(e).send_to == Some(d));
            assert(e != src);
            if e == rcv {
                assert(mid.proc(rcv).send_to == pre.proc(rcv).send_to);
            } else {
                assert(mid.proc(e) == pre.proc(e));
            }
        }
    }
    assert forall|s: Pid| #[trigger] mid.contains(s) && mid.proc(s).send_to is Some implies mid
        .proc(mid.proc(s).send_to->0)
        .pending_senders
        .contains(s) by {
        assert(pre.contains(s));
        assert(s != src);
        if s == rcv {
            assert(pre.proc_blocking_wf(rcv));
            assert(pre.proc(rcv).status is Running);
            assert(false);
        }
        assert(mid.proc(s) == pre.proc(s));
        assert(pre.proc_blocking_wf(s));
        let d = pre.proc(s).send_to->0;
        assert(pre.contains(d));
        assert(pre.proc(d).pending_senders.contains(s));
        if d == rcv {
            // s stays in the shortened queue: it is not the removed entry
            let j = choose|j: int| 0 <= j < q.len() && q[j] == s;
            assert(s != src);
            if j < i0 {
                assert(q2[j] == s);
            } else if j == i0 {
                assert(q[i0] == src);
                assert(false);
            } else {
                assert(q2[j - 1] == s);
            }
            assert(q2.contains(s));
        } else {
            assert(mid.proc(d).pending_senders == pre.proc(d).pending_senders);
        }
    }
    assert forall|d: Pid, i: int, j: int|
        mid.contains(d) && 0 <= i < j < mid.proc(d).pending_senders.len() implies mid.proc(
        d,
    ).pending_senders[i] != mid.proc(d).pending_senders[j] by {
        assert(pre.contains(d));
        if d == rcv {
            assert(mid.proc(rcv).pending_senders == q2);
            let qi = if i < i0 {
                i
            } else {
                i + 1
            };
            let qj = if j < i0 {
                j
            } else {
                j + 1
            };
            assert(q2[i] == q[qi] && q2[j] == q[qj]);
        } else {
            assert(mid.proc(d).pending_senders == pre.proc(d).pending_senders);
        }
    }
    assert(mid.pending_wf());
    assert forall|l: int, i: int|
        0 <= l < mid.queues.len() && 0 <= i < mid.queues[l].len() implies {
        &&& mid.contains(#[trigger] mid.queues[l][i])
        &&& mid.proc(mid.queues[l][i]).status is Runnable
        &&& mid.proc(mid.queues[l][i]).priority == l
    } by {
        let p = pre.queues[l][i];
        assert(pre.contains(p) && pre.proc(p).status is Runnable);
        assert(p != src);
        if p == rcv {
            assert(pre.proc(rcv).status is Running);
            assert(false);
        }
        assert(mid.proc(p) == pre.proc(p));
    }
    assert forall|pid: Pid| #[trigger] mid.contains(pid) && mid.proc(pid).status is Runnable
        implies mid.queues[mid.proc(pid).priority as int].contains(pid) by {
        assert(pre.contains(pid));
        if pid == rcv {
            assert(pre.proc(rcv).status is Running);
            assert(false);
        }
        assert(pid != src);
        assert(mid.proc(pid) == pre.proc(pid));
    }
    assert(mid.ready_wf());
}

/// Blocking the running process as a receiver keeps every structural part
/// of the invariant; only the full `wf` (a `Running` process exists) is
/// given up until the switch decision.
proof fn lemma_block_receiver_wf(pre: SchedulerView, post: SchedulerView, buf: u64, filter: ReceiveFrom)
    requires
        pre.wf(),
        pre.proc(pre.running).msg_ptr is None,
        filter matches ReceiveFrom::Id(f) ==> f != pre.running && pre.contains(f),
        post.queues == pre.queues,
        post.running == pre.running,
        post.processes == blocked_receiver_post(pre, buf, filter).processes,
    ensures
        post.wf_core(),
{
    let rcv = pre.running;
    assert(pre.proc_blocking_wf(rcv));
    assert(post.queues_wf());
    assert forall|pid: Pid| #[trigger] post.contains(pid) implies post.proc(pid).pid == pid
        && post.proc(pid).structural_wf() by {
        assert(pre.contains(pid));
        if pid != rcv {
            assert(post.proc(pid) == pre.proc(pid));
        }
    }
    assert(post.table_wf());
    assert forall|pid: Pid| #[trigger] post.contains(pid) && post.proc(pid).status is Running
        implies pid == post.running by {
        assert(pre.contains(pid));
        if pid != rcv {
            assert(post.proc(pid) == pre.proc(pid));
        }
    }
    assert forall|pid: Pid| #[trigger] post.contains(pid) implies post.proc_blocking_wf(pid) by {
        assert(pre.contains(pid));
        assert(pre.proc_blocking_wf(pid));
        if pid == rcv {
            assert(post.proc(rcv).status == Status::Receiving(filter));
        } else {
            assert(post.proc(pid) == pre.proc(pid));
            match post.proc(pid).status {
                Status::Sending { to, message } => {
                    assert(pre.contains(to));
                },
                Status::Receiving(f) => {
                    if let ReceiveFrom::Id(from) = f {
                        assert(pre.contains(from));
                    }
                },
                _ => {},
            }
        }
    }
    assert forall|d: Pid, i: int|
        post.contains(d) && 0 <= i < post.proc(d).pending_senders.len() implies {
        &&& post.contains(#[trigger] post.proc(d).pending_senders[i])
        &&& post.proc(post.proc(d).pending_senders[i]).send_to == Some(d)
    } by {
        assert(pre.contains(d));
        assert(post.proc(d).pending_senders == pre.proc(d).pending_senders);
        let e = pre.proc(d).pending_senders[i];
        assert(pre.contains(e) && pre.proc(e).send_to == Some(d));
        if e == rcv {
            assert(pre.proc(rcv).send_to is None);
            assert(false);
        }
        assert(post.proc(e) == pre.proc(e));
    }
    assert forall|s: Pid| #[trigger] post.contains(s) && post.proc(s).send_to is Some implies post
        .proc(post.proc(s).send_to->0)
        .pending_senders
        .contains(s) by {
        assert(pre.contains(s));
        if s == rcv {
            assert(pre.proc(rcv).send_to is None);
            assert(post.proc(rcv).send_to is None);
            assert(false);
        }
        assert(post.proc(s) == pre.proc(s));
        assert(pre.proc_blocking_wf(s));
        let d = pre.proc(s).send_to->0;
        assert(pre.contains(d));
        assert(pre.proc(d).pending_senders.contains(s));
        assert(post.proc(d).pending_senders == pre.proc(d).pending_senders);
    }
    assert forall|d: Pid, i: int, j: int|
        post.contains(d) && 0 <= i < j < post.proc(d).pending_senders.len() implies post.proc(
        d,
    ).pending_senders[i] != post.proc(d).pending_senders[j] by {
        assert(pre.contains(d));
        assert(post.proc(d).pending_senders == pre.proc(d).pending_senders);
    }
    assert(post.pending_wf());
    assert forall|l: int, i: int|
        0 <= l < post.queues.len() && 0 <= i < post.queues[l].len() implies {
        &&& post.contains(#[trigger] post.queues[l][i])
        &&& post.proc(post.queues[l][i]).status is Runnable
        &&& post.proc(post.queues[l][i]).priority == l
    } by {
        let p = pre.queues[l][i];
        assert(pre.contains(p) && pre.proc(p).status is Runnable);
        if p == rcv {
            assert(pre.proc(rcv).status is Running);
            assert(false);
        }
        assert(post.proc(p) == pre.proc(p));
    }
    assert forall|pid: Pid| #[trigger] post.contains(pid) && post.proc(pid).status is Runnable
        implies post.queues[post.proc(pid).priority as int].contains(pid) by {
        assert(pre.contains(pid));
        if pid == rcv {
            assert(pre.proc(rcv).status is Running);
            assert(false);
        }
        assert(post.proc(pid) == pre.proc(pid));
    }
    assert(post.ready_wf());
}

/// The state in the middle of a delivery: the woken partner `w` still has
/// its blocked status, but its bookkeeping fields are already cleared.
pub open spec fn pre_deliver_mid(pre: SchedulerView, w: Pid) -> SchedulerView {
    pre.with_proc(
        w,
        ProcessView { msg_ptr: None, send_to: None, receive_from: None, ..pre.proc(w) },
    )
}

/// Clearing a waiting receiver's bookkeeping puts the scheduler exactly
/// one `wake` away from well-formedness again.
proof fn lemma_deliver_cleared(pre: SchedulerView, mid: SchedulerView, w: Pid)
    requires
        pre.wf(),
        pre.contains(w),
        w != pre.running,
        pre.proc(w).status is Receiving,
        mid.queues == pre.queues,
        mid.running == pre.running,
        mid.processes == pre_deliver_mid(pre, w).processes,
    ensures
        mid.wf_core_except_cleared(w),
        mid.proc(mid.running).status is Running,
        mid.proc(w).priority == pre.proc(w).priority,
        mid.proc(w).pid == pre.proc(w).pid,
{
    assert(pre.proc_blocking_wf(w));
    assert forall|pid: Pid| #[trigger] mid.contains(pid) implies mid.proc(pid).pid == pid
        && mid.proc(pid).structural_wf() by {
        assert(pre.contains(pid));
    }
    assert(mid.table_wf());
    assert forall|pid: Pid| #[trigger] mid.contains(pid) && mid.proc(pid).status is Running
        implies pid == mid.running by {
        assert(pre.contains(pid));
        if pid != w {
            assert(mid.proc(pid) == pre.proc(pid));
        }
    }
    assert forall|pid: Pid| #[trigger] mid.contains(pid) && pid != w implies mid.proc_blocking_wf(
        pid,
    ) by {
        assert(pre.contains(pid));
        assert(pre.proc_blocking_wf(pid));
        assert(mid.proc(pid) == pre.proc(pid));
        match mid.proc(pid).status {
            Status::Sending { to, message } => {
                assert(pre.contains(to));
            },
            Status::Receiving(f) => {
                if let ReceiveFrom::Id(from) = f {
                    assert(pre.contains(from));
                }
            },
            _ => {},
        }
    }
    // a receiver never stands in a pending-sender queue: entries there
    // have their `send_to` set, and the receiver's was `None`
    assert forall|d: Pid, i: int|
        mid.contains(d) && 0 <= i < mid.proc(d).pending_senders.len() implies #[trigger] mid.proc(
        d,
    ).pending_senders[i] != w by {
        assert(pre.contains(d));
        assert(mid.proc(d).pending_senders == pre.proc(d).pending_senders);
        let s = pre.proc(d).pending_senders[i];
        assert(pre.contains(s) && pre.proc(s).send_to == Some(d));
        if s == w {
            assert(pre.proc(w).send_to is None);
            assert(false);
        }
    }
    assert(mid.blocking_wf_except_cleared(w));
    assert forall|d: Pid, i: int|
        mid.contains(d) && 0 <= i < mid.proc(d).pending_senders.len() implies {
        &&& mid.contains(#[trigger] mid.proc(d).pending_senders[i])
        &&& mid.proc(mid.proc(d).pending_senders[i]).send_to == Some(d)
    } by {
        assert(pre.contains(d));
        assert(mid.proc(d).pending_senders == pre.proc(d).pending_senders);
        let s = pre.proc(d).pending_senders[i];
        assert(pre.contains(s) && pre.proc(s).send_to == Some(d));
        assert(s != w);
        assert(mid.proc(s) == pre.proc(s));
    }
    assert forall|s: Pid| #[trigger] mid.contains(s) && mid.proc(s).send_to is Some implies mid
        .proc(mid.proc(s).send_to->0)
        .pending_senders
        .contains(s) by {
        assert(pre.contains(s));
        assert(s != w);
        assert(mid.proc(s) == pre.proc(s));
        assert(pre.proc_blocking_wf(s));
        let d = pre.proc(s).send_to->0;
        assert(pre.contains(d));
        assert(pre.proc(d).pending_senders.contains(s));
        assert(mid.proc(d).pending_senders == pre.proc(d).pending_senders);
    }
    assert forall|d: Pid, i: int, j: int|
        mid.contains(d) && 0 <= i < j < mid.proc(d).pending_senders.len() implies mid.proc(
        d,
    ).pending_senders[i] != mid.proc(d).pending_senders[j] by {
        assert(pre.contains(d));
        assert(mid.proc(d).pending_senders == pre.proc(d).pending_senders);
    }
    assert(mid.pending_wf());
    assert forall|l: int, i: int|
        0 <= l < mid.queues.len() && 0 <= i < mid.queues[l].len() implies {
        &&& mid.contains(#[trigger] mid.queues[l][i])
        &&& mid.proc(mid.queues[l][i]).status is Runnable
        &&& mid.proc(mid.queues[l][i]).priority == l
    } by {
        let q = pre.queues[l][i];
        assert(pre.contains(q) && pre.proc(q).status is Runnable);
        assert(q != w);
        assert(mid.proc(q) == pre.proc(q));
    }
    assert forall|pid: Pid| #[trigger] mid.contains(pid) && mid.proc(pid).status is Runnable
        implies mid.queues[mid.proc(pid).priority as int].contains(pid) by {
        assert(pre.contains(pid));
        assert(pid != w);
        assert(mid.proc(pid) == pre.proc(pid));
    }
    assert(mid.ready_wf());
}

/// Waking the cleared partner restores the full invariant: it becomes
/// `Runnable` and enters the queue of its own priority.
proof fn lemma_wake_establishes_wf(mid: SchedulerView, post: SchedulerView, w: Pid)
    requires
        mid.wf_core_except_cleared(w),
        mid.proc(mid.running).status is Running,
        post == mid.with_proc(w, ProcessView { status: Status::Runnable, ..mid.proc(w) })
            .with_enqueued(w, mid.proc(w).priority as int),
    ensures
        post.wf(),
{
    let lw = mid.proc(w).priority as int;
    assert(w != mid.running);
    assert(mid.contains(w) && mid.proc(w).structural_wf());
    assert(post.queues_wf());
    assert forall|pid: Pid| #[trigger] post.contains(pid) implies post.proc(pid).pid == pid
        && post.proc(pid).structural_wf() by {
        assert(mid.contains(pid));
        if pid != w {
            assert(post.proc(pid) == mid.proc(pid));
        }
    }
    assert(post.table_wf());
    assert forall|pid: Pid| #[trigger] post.contains(pid) && post.proc(pid).status is Running
        implies pid == post.running by {
        assert(mid.contains(pid));
        if pid != w {
            assert(post.proc(pid) == mid.proc(pid));
        }
    }
    assert forall|pid: Pid| #[trigger] post.contains(pid) implies post.proc_blocking_wf(pid) by {
        assert(mid.contains(pid));
        if pid != w {
            assert(mid.proc_blocking_wf(pid));
            assert(post.proc(pid) == mid.proc(pid));
            match post.proc(pid).status {
                Status::Sending { to, message } => {
                    assert(mid.contains(to));
                },
                Status::Receiving(f) => {
                    if let ReceiveFrom::Id(from) = f {
                        assert(mid.contains(from));
                    }
                },
                _ => {},
            }
        }
    }
    assert forall|d: Pid, i: int|
        post.contains(d) && 0 <= i < post.proc(d).pending_senders.len() implies {
        &&& post.contains(#[trigger] post.proc(d).pending_senders[i])
        &&& post.proc(post.proc(d).pending_senders[i]).send_to == Some(d)
    } by {
        assert(mid.contains(d));
        assert(post.proc(d).pending_senders == mid.proc(d).pending_senders);
        let s = mid.proc(d).pending_senders[i];
        assert(mid.contains(s) && mid.proc(s).send_to == Some(d));
        assert(s != w);
        assert(post.proc(s) == mid.proc(s));
    }
    assert forall|s: Pid| #[trigger] post.contains(s) && post.proc(s).send_to is Some implies post
        .proc(post.proc(s).send_to->0)
        .pending_senders
        .contains(s) by {
        assert(mid.contains(s));
        assert(s != w);
        assert(post.proc(s) == mid.proc(s));
        let d = mid.proc(s).send_to->0;
        assert(mid.proc(d).pending_senders.contains(s));
        assert(post.proc(d).pending_senders == mid.proc(d).pending_senders);
    }
    assert forall|d: Pid, i: int, j: int|
        post.contains(d) && 0 <= i < j < post.proc(d).pending_senders.len() implies post.proc(
        d,
    ).pending_senders[i] != post.proc(d).pending_senders[j] by {
        assert(mid.contains(d));
        assert(post.proc(d).pending_senders == mid.proc(d).pending_senders);
    }
    assert(post.pending_wf());
    assert forall|l: int, i: int|
        0 <= l < post.queues.len() && 0 <= i < post.queues[l].len() implies {
        &&& post.contains(#[trigger] post.queues[l][i])
        &&& post.proc(post.queues[l][i]).status is Runnable
        &&& post.proc(post.queues[l][i]).priority == l
    } by {
        if l == lw && i == post.queues[l].len() - 1 {
            assert(post.queues[l][i] == w);
        } else {
            let q = mid.queues[l][i];
            assert(post.queues[l][i] == q);
            assert(mid.contains(q) && mid.proc(q).status is Runnable);
            assert(q != w);
            assert(post.proc(q) == mid.proc(q));
        }
    }
    assert forall|pid: Pid| #[trigger] post.contains(pid) && post.proc(pid).status is Runnable
        implies post.queues[post.proc(pid).priority as int].contains(pid) by {
        assert(mid.contains(pid));
        if pid == w {
            assert(post.queues[lw][post.queues[lw].len() - 1] == w);
        } else {
            assert(post.proc(pid) == mid.proc(pid));
            let lp = mid.proc(pid).priority as int;
            assert(mid.queues[lp].contains(pid));
            let i = choose|i: int| 0 <= i < mid.queues[lp].len() && mid.queues[lp][i] == pid;
            assert(post.queues[lp][i] == pid);
        }
    }
    assert forall|l: int, i: int, j: int|
        0 <= l < post.queues.len() && 0 <= i < j < post.queues[l].len() implies post.queues[l][i]
        != post.queues[l][j] by {
        if l == lw && j == post.queues[l].len() - 1 {
            // the woken process was blocked, so it was in no ready queue
            let q = mid.queues[l][i];
            assert(post.queues[l][i] == q);
            assert(mid.proc(q).status is Runnable);
            assert(q != w);
        } else {
            assert(post.queues[l][i] == mid.queues[l][i]);
            assert(post.queues[l][j] == mid.queues[l][j]);
        }
    }
    assert(post.ready_wf());
}

/// Blocking the running process as a sender keeps every structural part
/// of the invariant; only the full `wf` (a `Running` process exists) is
/// given up until the switch decision.
proof fn lemma_block_sender_wf(pre: SchedulerView, post: SchedulerView, msg: u64, to: Pid)
    requires
        pre.wf(),
        pre.contains(to),
        to != pre.running,
        !receiver_waiting(pre, to),
        pre.proc(pre.running).msg_ptr is None,
        post.queues == pre.queues,
        post.running == pre.running,
        post.processes == pre.with_proc(
            pre.running,
            ProcessView {
                status: Status::Sending { to, message: msg },
                msg_ptr: Some(msg),
                send_to: Some(to),
                ..pre.proc(pre.running)
            },
        ).with_proc(
            to,
            ProcessView {
                pending_senders: pre.proc(to).pending_senders.push(pre.running),
                ..pre.proc(to)
            },
        ).processes,
    ensures
        post.wf_core(),
{
    let s = pre.running;
    assert(pre.proc_blocking_wf(s));
    assert(post.queues_wf());
    assert forall|pid: Pid| #[trigger] post.contains(pid) implies post.proc(pid).pid == pid
        && post.proc(pid).structural_wf() by {
        assert(pre.contains(pid));
        if pid != s && pid != to {
            assert(post.proc(pid) == pre.proc(pid));
        }
    }
    assert(post.table_wf());
    assert forall|pid: Pid| #[trigger] post.contains(pid) && post.proc(pid).status is Running
        implies pid == post.running by {
        assert(pre.contains(pid));
        if pid != s && pid != to {
            assert(post.proc(pid) == pre.proc(pid));
        }
    }
    assert forall|pid: Pid| #[trigger] post.contains(pid) implies post.proc_blocking_wf(pid) by {
        assert(pre.contains(pid));
        assert(pre.proc_blocking_wf(pid));
        if pid == s {
            assert(post.proc(s).status == Status::Sending { to, message: msg });
            assert(post.contains(to));
        } else if pid == to {
            match post.proc(to).status {
                Status::Sending { to: to2, message } => {
                    assert(pre.contains(to2));
                },
                Status::Receiving(f) => {
                    if let ReceiveFrom::Id(from) = f {
                        assert(pre.contains(from));
                    }
                },
                _ => {},
            }
        } else {
            assert(post.proc(pid) == pre.proc(pid));
            match post.proc(pid).status {
                Status::Sending { to: to2, message } => {
                    assert(pre.contains(to2));
                },
                Status::Receiving(f) => {
                    if let ReceiveFrom::Id(from) = f {
                        assert(pre.contains(from));
                    }
                },
                _ => {},
            }
        }
    }
    // the running process, having had `send_to == None`, stood in no
    // pending queue before
    assert forall|d: Pid, i: int|
        pre.contains(d) && 0 <= i < pre.proc(d).pending_senders.len() implies #[trigger] pre.proc(
        d,
    ).pending_senders[i] != s by {
        let e = pre.proc(d).pending_senders[i];
        assert(pre.contains(e) && pre.proc(e).send_to == Some(d));
        if e == s {
            assert(pre.proc(s).send_to is None);
            assert(false);
        }
    }
    assert forall|d: Pid, i: int|
        post.contains(d) && 0 <= i < post.proc(d).pending_senders.len() implies {
        &&& post.contains(#[trigger] post.proc(d).pending_senders[i])
        &&& post.proc(post.proc(d).pending_senders[i]).send_to == Some(d)
    } by {
        assert(pre.contains(d));
        if d == to && i == post.proc(d).pending_senders.len() - 1 {
            assert(post.proc(d).pending_senders[i] == s);
            assert(post.proc(s).send_to == Some(to));
        } else {
            assert(post.proc(d).pending_senders[i] == pre.proc(d).pending_senders[i]);
            let e = pre.proc(d).pending_senders[i];
            assert(pre.contains(e) && pre.proc(e).send_to == Some(d));
            assert(e != s);
            if e != to {
                assert(post.proc(e) == pre.proc(e));
            } else {
                assert(post.proc(to).send_to == pre.proc(to).send_to);
            }
        }
    }
    assert forall|x: Pid| #[trigger] post.contains(x) && post.proc(x).send_to is Some implies post
        .proc(post.proc(x).send_to->0)
        .pending_senders
        .contains(x) by {
        assert(pre.contains(x));
        if x == s {
            assert(post.proc(to).pending_senders[post.proc(to).pending_senders.len() - 1] == s);
        } else {
            assert(post.proc(x).send_to == pre.proc(x).send_to);
            assert(pre.proc_blocking_wf(x));
            let d = pre.proc(x).send_to->0;
            assert(pre.contains(d));
            assert(pre.proc(d).pending_senders.contains(x));
            let i = choose|i: int|
                0 <= i < pre.proc(d).pending_senders.len() && pre.proc(d).pending_senders[i] == x;
            assert(post.proc(d).pending_senders[i] == x);
        }
    }
    assert forall|d: Pid, i: int, j: int|
        post.contains(d) && 0 <= i < j < post.proc(d).pending_senders.len() implies post.proc(
        d,
    ).pending_senders[i] != post.proc(d).pending_senders[j] by {
        assert(pre.contains(d));
        if d == to && j == post.proc(d).pending_senders.len() - 1 {
            assert(post.proc(d).pending_senders[i] == pre.proc(d).pending_senders[i]);
            assert(pre.proc(d).pending_senders[i] != s);
            assert(post.proc(d).pending_senders[j] == s);
        } else {
            assert(post.proc(d).pending_senders[i] == pre.proc(d).pending_senders[i]);
            assert(post.proc(d).pending_senders[j] == pre.proc(d).pending_senders[j]);
        }
    }
    assert(post.pending_wf());
    assert forall|l: int, i: int|
        0 <= l < post.queues.len() && 0 <= i < post.queues[l].len() implies {
        &&& post.contains(#[trigger] post.queues[l][i])
        &&& post.proc(post.queues[l][i]).status is Runnable
        &&& post.proc(post.queues[l][i]).priority == l
    } by {
        let q = pre.queues[l][i];
        assert(pre.contains(q) && pre.proc(q).status is Runnable && pre.proc(q).priority == l);
        assert(q != s);
        if q == to {
            assert(post.proc(to).status == pre.proc(to).status);
            assert(post.proc(to).priority == pre.proc(to).priority);
        } else {
            assert(post.proc(q) == pre.proc(q));
        }
    }
    assert forall|pid: Pid| #[trigger] post.contains(pid) && post.proc(pid).status is Runnable
        implies post.queues[post.proc(pid).priority as int].contains(pid) by {
        assert(pre.contains(pid));
        if pid == to {
            assert(pre.proc(to).status is Runnable);
            assert(pre.queues[pre.proc(to).priority as int].contains(to));
        } else {
            assert(pid != s);
            assert(post.proc(pid) == pre.proc(pid));
        }
    }
    assert forall|l: int, i: int, j: int|
        0 <= l < post.queues.len() && 0 <= i < j < post.queues[l].len() implies post.queues[l][i]
        != post.queues[l][j] by {
        assert(post.queues[l] == pre.queues[l]);
    }
    assert(post.ready_wf());
}



/// How the `send` entry point relates states: the self-send check, the
/// address translation, one sender-protocol step, and — whenever the
/// protocol step completed — one switch decision on the resulting state.
pub open spec fn send_entry_rel(
    pre: SchedulerView,
    mem_pre: Map<u64, Message>,
    aspace: Map<u64, u64>,
    msg: u64,
    to: Pid,
    post: SchedulerView,
    mem_post: Map<u64, Message>,
    r: Result<Option<SwitchPair>, Fatal>,
) -> bool {
    if to == pre.running {
        r == Err::<Option<SwitchPair>, Fatal>(Fatal::SelfSend) && post == pre && mem_post
            == mem_pre
    } else if !aspace.contains_key(msg) {
        r == Err::<Option<SwitchPair>, Fatal>(Fatal::TranslationFailed) && post == pre && mem_post
            == mem_pre
    } else {
        let phys = aspace[msg];
        match r {
            Err(e) => {
                ||| send_phys_rel(pre, mem_pre, phys, to, post, mem_post, Err(e))
                ||| exists|s1: SchedulerView| #![auto]
                    send_phys_rel(pre, mem_pre, phys, to, s1, mem_post, Ok(())) && switch_rel(
                        s1,
                        post,
                        Err(e),
                    )
            },
            Ok(opt) => exists|s1: SchedulerView| #![auto]
                send_phys_rel(pre, mem_pre, phys, to, s1, mem_post, Ok(())) && switch_rel(
                    s1,
                    post,
                    Ok(opt),
                ),
        }
    }
}

/// How the `receive_from_any` entry point relates states: the address
/// translation, one receiver-protocol step with the `Any` filter, and —
/// whenever the protocol step completed — one switch decision.
pub open spec fn receive_any_entry_rel(
    pre: SchedulerView,
    mem_pre: Map<u64, Message>,
    aspace: Map<u64, u64>,
    buf: u64,
    post: SchedulerView,
    mem_post: Map<u64, Message>,
    r: Result<Option<SwitchPair>, Fatal>,
) -> bool {
    if !aspace.contains_key(buf) {
        r == Err::<Option<SwitchPair>, Fatal>(Fatal::TranslationFailed) && post == pre && mem_post
            == mem_pre
    } else {
        let phys = aspace[buf];
        match r {
            Err(e) => {
                ||| receive_phys_rel(pre, mem_pre, phys, ReceiveFrom::Any, post, mem_post, Err(e))
                ||| exists|s1: SchedulerView| #![auto]
                    receive_phys_rel(pre, mem_pre, phys, ReceiveFrom::Any, s1, mem_post, Ok(()))
                        && switch_rel(s1, post, Err(e))
            },
            Ok(opt) => exists|s1: SchedulerView| #![auto]
                receive_phys_rel(pre, mem_pre, phys, ReceiveFrom::Any, s1, mem_post, Ok(()))
                    && switch_rel(s1, post, Ok(opt)),
        }
    }
}

/// How the `receive_from` entry point relates states: the self-receive
/// check, the address translation, one receiver-protocol step with the
/// named filter, and — whenever the protocol step completed — one switch
/// decision.
pub open spec fn receive_from_entry_rel(
    pre: SchedulerView,
    mem_pre: Map<u64, Message>,
    aspace: Map<u64, u64>,
    buf: u64,
    from: Pid,
    post: SchedulerView,
    mem_post: Map<u64, Message>,
    r: Result<Option<SwitchPair>, Fatal>,
) -> bool {
    if from == pre.running {
        r == Err::<Option<SwitchPair>, Fatal>(Fatal::SelfReceive) && post == pre && mem_post
            == mem_pre
    } else if !aspace.contains_key(buf) {
        r == Err::<Option<SwitchPair>, Fatal>(Fatal::TranslationFailed) && post == pre && mem_post
            == mem_pre
    } else {
        let phys = aspace[buf];
        match r {
            Err(e) => {
                ||| receive_phys_rel(
                    pre,
                    mem_pre,
                    phys,
                    ReceiveFrom::Id(from),
                    post,
                    mem_post,
                    Err(e),
                )
                ||| exists|s1: SchedulerView| #![auto]
                    receive_phys_rel(
                        pre,
                        mem_pre,
                        phys,
                        ReceiveFrom::Id(from),
                        s1,
                        mem_post,
                        Ok(()),
                    ) && switch_rel(s1, post, Err(e))
            },
            Ok(opt) => exists|s1: SchedulerView| #![auto]
                receive_phys_rel(pre, mem_pre, phys, ReceiveFrom::Id(from), s1, mem_post, Ok(()))
                    && switch_rel(s1, post, Ok(opt)),
        }
    }
}

/// A switch decision never changes which buffers are registered, so it
/// keeps every registered buffer inside the message memory.
proof fn lemma_switch_keeps_buffers(
    s1: SchedulerView,
    post: SchedulerView,
    mem: Map<u64, Message>,
    r: Result<Option<SwitchPair>, Fatal>,
)
    requires
        s1.wf_core(),
        buffers_in(s1, mem),
        switch_rel(s1, post, r),
    ensures
        buffers_in(post, mem),
{
    match r {
        Ok(Some(pair)) => {
            assert forall|pid: Pid|
                #[trigger] post.contains(pid) && post.proc(pid).msg_ptr is Some implies mem
                .contains_key(post.proc(pid).msg_ptr->0) by {
                assert(s1.contains(pid));
                if pid == s1.next_pid() {
                    assert(post.proc(pid).msg_ptr == s1.proc(pid).msg_ptr);
                } else if pid == s1.running {
                    assert(post.proc(pid).msg_ptr == s1.proc(pid).msg_ptr);
                } else {
                    assert(post.proc(pid) == s1.proc(pid));
                }
            }
        },
        Ok(None) => {
            assert(post == s1);
        },
        Err(e) => {
            assert(post.processes == s1.processes);
            assert forall|pid: Pid|
                #[trigger] post.contains(pid) && post.proc(pid).msg_ptr is Some implies mem
                .contains_key(post.proc(pid).msg_ptr->0) by {
                assert(s1.contains(pid));
                assert(post.proc(pid) == s1.proc(pid));
            }
        },
    }
}

impl Scheduler {
    /// Send the message at virtual address `msg` to process `to`, then
    /// always take a switch decision. The returned pair, if any, is for
    /// the caller's low-level context swap, performed after the scheduler
    /// lock is released.
    pub fn send(&mut self, aspace: &AddressSpace, mem: &mut MsgMemory, msg: u64, to: Pid) -> (r:
        Result<Option<SwitchPair>, Fatal>)
        requires
            old(self)@.wf(),
            buffers_in(old(self)@, old(mem)@),
            aspace@.contains_key(msg) ==> old(mem)@.contains_key(aspace@[msg]),
        ensures
            send_entry_rel(
                old(self)@,
                old(mem)@,
                aspace@,
                msg,
                to,
                final(self)@,
                final(mem)@,
                r,
            ),
            r is Ok ==> final(self)@.wf() && buffers_in(final(self)@, final(mem)@),
    {
        let snd = match Sender::new(self, aspace, msg, to) {
            Ok(s) => s,
            Err(e) => {
                return Err(e);
            },
        };
        match snd.send(self, mem) {
            Ok(()) => {},
            Err(e) => {
                return Err(e);
            },
        }
        let ghost s1 = self@;
        let r = self.try_switch();
        proof {
            lemma_switch_keeps_buffers(s1, self@, mem@, r);
            assert(send_phys_rel(
                old(self)@,
                old(mem)@,
                aspace@[msg],
                to,
                s1,
                mem@,
                Ok(()),
            ));
        }
        r
    }

    /// Receive a message from any sender into the buffer at virtual
    /// address `msg_buf`, then always take a switch decision.
    pub fn receive_from_any(&mut self, aspace: &AddressSpace, mem: &mut MsgMemory, msg_buf: u64) -> (r:
        Result<Option<SwitchPair>, Fatal>)
        requires
            old(self)@.wf(),
            buffers_in(old(self)@, old(mem)@),
            aspace@.contains_key(msg_buf) ==> old(mem)@.contains_key(aspace@[msg_buf]),
        ensures
            receive_any_entry_rel(
                old(self)@,
                old(mem)@,
                aspace@,
                msg_buf,
                final(self)@,
                final(mem)@,
                r,
            ),
            r is Ok ==> final(self)@.wf() && buffers_in(final(self)@, final(mem)@),
    {
        let rv = match Receiver::new_from_any(aspace, msg_buf) {
            Ok(v) => v,
            Err(e) => {
                return Err(e);
            },
        };
        match rv.receive(self, mem) {
            Ok(()) => {},
            Err(e) => {
                return Err(e);
            },
        }
        let ghost s1 = self@;
        let r = self.try_switch();
        proof {
            lemma_switch_keeps_buffers(s1, self@, mem@, r);
            assert(receive_phys_rel(
                old(self)@,
                old(mem)@,
                aspace@[msg_buf],
                ReceiveFrom::Any,
                s1,
                mem@,
                Ok(()),
            ));
        }
        r
    }

    /// Receive a message from process `from` only, into the buffer at
    /// virtual address `msg_buf`, then always take a switch decision.
    pub fn receive_from(
        &mut self,
        aspace: &AddressSpace,
        mem: &mut MsgMemory,
        msg_buf: u64,
        from: Pid,
    ) -> (r: Result<Option<SwitchPair>, Fatal>)
        requires
            old(self)@.wf(),
            buffers_in(old(self)@, old(mem)@),
            aspace@.contains_key(msg_buf) ==> old(mem)@.contains_key(aspace@[msg_buf]),
        ensures
            receive_from_entry_rel(
                old(self)@,
                old(mem)@,
                aspace@,
                msg_buf,
                from,
                final(self)@,
                final(mem)@,
                r,
            ),
            r is Ok ==> final(self)@.wf() && buffers_in(final(self)@, final(mem)@),
    {
        let rv = match Receiver::new_from(self, aspace, msg_buf, from) {
            Ok(v) => v,
            Err(e) => {
                return Err(e);
            },
        };
        match rv.receive(self, mem) {
            Ok(()) => {},
            Err(e) => {
                return Err(e);
            },
        }
        let ghost s1 = self@;
        let r = self.try_switch();
        proof {
            lemma_switch_keeps_buffers(s1, self@, mem@, r);
            assert(receive_phys_rel(
                old(self)@,
                old(mem)@,
                aspace@[msg_buf],
                ReceiveFrom::Id(from),
                s1,
                mem@,
                Ok(()),
            ));
        }
        r
    }
}

} // verus!
