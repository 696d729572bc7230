//! The scheduler: owner of the process table and the ready-queue
//! structure, and home of the global well-formedness invariant every
//! operation preserves.
//!
//! All entry points must be called with hardware interrupts masked for
//! their whole duration and under the single scheduler lock; the lock and
//! the masking belong to the outer layer that owns the one scheduler
//! instance. Every precondition violation here is a fatal condition for
//! the kernel: it is reported as a [`Fatal`] value so the outer layer can
//! halt, never retried or absorbed.

use vstd::prelude::*;

use crate::process::{Pid, Process, ProcessView, ReceiveFrom, Status, LEAST_PRIORITY, STACK_GUARD};
use crate::ready_queue::{all_empty, first_nonempty, is_first_nonempty, RunnablePids};
use std::collections::BTreeMap;

verus! {

broadcast use vstd::std_specs::btree::group_btree_axioms, vstd::laws_cmp::group_laws_cmp;

/// A condition after which the kernel cannot continue: each variant is a
/// programming error in a caller or corrupted machine state. The outer
/// layer reacts by halting or restarting the system.
#[derive(Clone, Copy, Debug, PartialEq, Eq, Structural)]
pub enum Fatal {
    /// A process tried to send a message to itself.
    SelfSend,
    /// A process tried to receive a message from itself.
    SelfReceive,
    /// A PID was used that is not in the process table.
    NoSuchProcess,
    /// A process was registered under a PID already in the table.
    DuplicatePid,
    /// `wake` was called for a process that is `Running` or `Runnable`.
    AlreadyAwake,
    /// A message buffer was registered while one was already outstanding.
    MessageAlreadyStored,
    /// The ready queues were empty when a switch needed a next process.
    NoRunnablePids,
    /// A virtual address had no translation to a physical address.
    TranslationFailed,
    /// The incoming process's kernel-stack guard was overwritten.
    KernelStackSmashed,
}

/// What a completed switch decision hands back: the outgoing and incoming
/// PIDs, whose saved contexts the caller passes to the low-level
/// context-swap primitive, and the incoming kernel stack's bottom address
/// for the hardware's privileged-stack pointer.
#[derive(Clone, Copy, Debug, PartialEq, Eq, Structural)]
pub struct SwitchPair {
    pub previous: Pid,
    pub next: Pid,
    pub next_kernel_stack_bottom: u64,
}

/// Mathematical image of a [`Scheduler`]: the process table as a map, the
/// ready queues as sequences, and the running PID.
pub struct SchedulerView {
    pub processes: Map<Pid, ProcessView>,
    pub queues: Seq<Seq<Pid>>,
    pub running: Pid,
}

impl SchedulerView {
    /// Whether `pid` is in the process table.
    pub open spec fn contains(self, pid: Pid) -> bool {
        self.processes.dom().contains(pid)
    }

    /// The process registered under `pid`.
    pub open spec fn proc(self, pid: Pid) -> ProcessView {
        self.processes[pid]
    }

    /// The state with process `pid` replaced by `p`.
    pub open spec fn with_proc(self, pid: Pid, p: ProcessView) -> SchedulerView {
        SchedulerView { processes: self.processes.insert(pid, p), ..self }
    }

    /// The state with `pid` appended to the ready queue of level `l`.
    pub open spec fn with_enqueued(self, pid: Pid, l: int) -> SchedulerView {
        SchedulerView { queues: self.queues.update(l, self.queues[l].push(pid)), ..self }
    }

    /// One ready queue per priority level.
    pub open spec fn queues_wf(self) -> bool {
        self.queues.len() == LEAST_PRIORITY + 1
    }

    /// The idle process exists, the recorded running PID names a process
    /// that is on the CPU (running, or just blocked and awaiting the
    /// switch decision), and every table entry is keyed by its own PID and
    /// is structurally sound.
    pub open spec fn table_wf(self) -> bool {
        &&& self.contains(0)
        &&& self.contains(self.running)
        &&& !(self.proc(self.running).status is Runnable)
        &&& forall|pid: Pid| #[trigger] self.contains(pid) ==> self.proc(pid).pid == pid
            && self.proc(pid).structural_wf()
    }

    /// At most one process is `Running`, and it is the recorded one.
    pub open spec fn running_unique(self) -> bool {
        forall|pid: Pid| #[trigger] self.contains(pid) && self.proc(pid).status is Running
            ==> pid == self.running
    }

    /// The bookkeeping fields of process `pid` agree with its status:
    /// `msg_ptr` and `send_to` and `receive_from` are set exactly in the
    /// blocked states that own them, a sender's destination exists and
    /// differs from itself, and likewise a receiver's named partner.
    pub open spec fn proc_blocking_wf(self, pid: Pid) -> bool {
        let p = self.proc(pid);
        match p.status {
            Status::Running => p.msg_ptr is None && p.send_to is None && p.receive_from is None,
            Status::Runnable => p.msg_ptr is None && p.send_to is None && p.receive_from is None,
            Status::Sending { to, message } => {
                &&& p.msg_ptr == Some(message)
                &&& p.send_to == Some(to)
                &&& p.receive_from is None
                &&& to != pid
                &&& self.contains(to)
            },
            Status::Receiving(f) => {
                &&& p.msg_ptr is Some
                &&& p.receive_from == Some(f)
                &&& p.send_to is None
                &&& match f {
                    ReceiveFrom::Any => true,
                    ReceiveFrom::Id(from) => from != pid && self.contains(from),
                }
            },
        }
    }

    /// Every process's bookkeeping agrees with its status.
    pub open spec fn blocking_wf(self) -> bool {
        forall|pid: Pid| #[trigger] self.contains(pid) ==> self.proc_blocking_wf(pid)
    }

    /// Every process's bookkeeping agrees with its status, except that
    /// process `w`'s has already been consumed: `w` is still marked
    /// blocked, but its fields are cleared and it is ready to be woken.
    pub open spec fn blocking_wf_except_cleared(self, w: Pid) -> bool {
        &&& forall|pid: Pid| #[trigger] self.contains(pid) && pid != w
            ==> self.proc_blocking_wf(pid)
        &&& self.contains(w)
        &&& (self.proc(w).status is Sending || self.proc(w).status is Receiving)
        &&& self.proc(w).msg_ptr is None
        &&& self.proc(w).send_to is None
        &&& self.proc(w).receive_from is None
        &&& forall|d: Pid, i: int|
            #![trigger self.proc(d).pending_senders[i]]
            self.contains(d) && 0 <= i < self.proc(d).pending_senders.len()
                ==> self.proc(d).pending_senders[i] != w
    }

    /// A PID stands in some process's pending-sender queue exactly while
    /// its own `send_to` names that process, and each queue lists a sender
    /// at most once.
    pub open spec fn pending_wf(self) -> bool {
        &&& forall|d: Pid, i: int|
            #![trigger self.proc(d).pending_senders[i]]
            self.contains(d) && 0 <= i < self.proc(d).pending_senders.len() ==> {
                &&& self.contains(self.proc(d).pending_senders[i])
                &&& self.proc(self.proc(d).pending_senders[i]).send_to == Some(d)
            }
        &&& forall|s: Pid| #[trigger] self.contains(s) && self.proc(s).send_to is Some
            ==> self.proc(self.proc(s).send_to->0).pending_senders.contains(s)
        &&& forall|d: Pid, i: int, j: int|
            #![trigger self.proc(d).pending_senders[i], self.proc(d).pending_senders[j]]
            self.contains(d) && 0 <= i < j < self.proc(d).pending_senders.len()
                ==> self.proc(d).pending_senders[i] != self.proc(d).pending_senders[j]
    }

    /// The ready queues hold exactly the `Runnable` processes, each in the
    /// queue of its own priority and each exactly once.
    pub open spec fn ready_wf(self) -> bool {
        &&& forall|l: int, i: int|
            #![trigger self.queues[l][i]]
            0 <= l < self.queues.len() && 0 <= i < self.queues[l].len() ==> {
                &&& self.contains(self.queues[l][i])
                &&& self.proc(self.queues[l][i]).status is Runnable
                &&& self.proc(self.queues[l][i]).priority == l
            }
        &&& forall|pid: Pid| #[trigger] self.contains(pid) && self.proc(pid).status is Runnable
            ==> self.queues[self.proc(pid).priority as int].contains(pid)
        &&& forall|l: int, i: int, j: int|
            #![trigger self.queues[l][i], self.queues[l][j]]
            0 <= l < self.queues.len() && 0 <= i < j < self.queues[l].len()
                ==> self.queues[l][i] != self.queues[l][j]
    }

    /// Everything that holds at every point of a scheduling operation,
    /// including the window in which the running process has just blocked
    /// itself and the switch decision has not been taken yet.
    pub open spec fn wf_core(self) -> bool {
        &&& self.queues_wf()
        &&& self.table_wf()
        &&& self.running_unique()
        &&& self.blocking_wf()
        &&& self.pending_wf()
        &&& self.ready_wf()
    }

    /// The global invariant between operations: `wf_core`, and the
    /// recorded running process really is `Running`. It holds after
    /// `init` and is preserved by every entry point of this layer.
    pub open spec fn wf(self) -> bool {
        &&& self.wf_core()
        &&& self.proc(self.running).status is Running
    }

    /// `wf_core`, except that the blocked process `w` has had its
    /// bookkeeping consumed and awaits its `wake`.
    pub open spec fn wf_core_except_cleared(self, w: Pid) -> bool {
        &&& self.queues_wf()
        &&& self.table_wf()
        &&& self.running_unique()
        &&& self.blocking_wf_except_cleared(w)
        &&& self.pending_wf()
        &&& self.ready_wf()
    }

    /// The ready queues after the round-robin rotation point: a process
    /// that is still `Running` when the switch decision is taken is pushed
    /// to the back of its own priority level.
    pub open spec fn rotated_queues(self) -> Seq<Seq<Pid>> {
        if self.proc(self.running).status is Running {
            let l = self.proc(self.running).priority as int;
            self.queues.update(l, self.queues[l].push(self.running))
        } else {
            self.queues
        }
    }

    /// The PID the switcher selects to run next: the front of the first
    /// non-empty rotated queue. Meaningful only when some rotated queue is
    /// non-empty.
    pub open spec fn next_pid(self) -> Pid {
        self.rotated_queues()[first_nonempty(self.rotated_queues())][0]
    }

    /// The ready queues after the switch decision: the rotated queues with
    /// the selected PID removed.
    pub open spec fn popped_queues(self) -> Seq<Seq<Pid>> {
        let qs = self.rotated_queues();
        let l = first_nonempty(qs);
        qs.update(l, qs[l].drop_first())
    }

    /// State of a scheduler that has been constructed but not initialized:
    /// no processes, empty queues, PID 0 recorded as running.
    pub open spec fn pre_init(self) -> bool {
        &&& self.processes =~= Map::<Pid, ProcessView>::empty()
        &&& self.queues_wf()
        &&& all_empty(self.queues)
        &&& self.running == 0
    }
}

/// Lifting of a table of processes to a table of their views.
pub open spec fn lift(m: Map<Pid, Process>) -> Map<Pid, ProcessView> {
    m.map_values(|p: Process| p@)
}

proof fn lemma_lift_insert(m: Map<Pid, Process>, k: Pid, v: Process)
    ensures
        lift(m.insert(k, v)) =~= lift(m).insert(k, v@),
{
}

proof fn lemma_lift_remove(m: Map<Pid, Process>, k: Pid)
    ensures
        lift(m.remove(k)) =~= lift(m).remove(k),
{
}

/// Owner of the process table (an ordered map keyed by PID), the
/// ready-queue structure, and the currently running PID.
pub struct Scheduler {
    processes: BTreeMap<Pid, Process>,
    runnable_pids: RunnablePids,
    running: Pid,
}

impl View for Scheduler {
    type V = SchedulerView;

    closed spec fn view(&self) -> SchedulerView {
        SchedulerView {
            processes: lift(self.processes@),
            queues: self.runnable_pids@,
            running: self.running,
        }
    }
}

impl Scheduler {
    /// An empty scheduler. `init` must run before any other operation.
    pub fn new() -> (r: Scheduler)
        ensures
            r@.pre_init(),
    {
        let r = Scheduler {
            processes: BTreeMap::new(),
            runnable_pids: RunnablePids::new(),
            running: 0,
        };
        proof {
            assert(r@.processes =~= Map::<Pid, ProcessView>::empty());
        }
        r
    }

    /// Insert the permanent idle process (PID 0, `Running`) into the empty
    /// table, establishing the global invariant.
    pub fn init(&mut self)
        requires
            old(self)@.pre_init(),
        ensures
            final(self)@.wf(),
            final(self)@.running == 0,
            final(self)@.queues == old(self)@.queues,
            final(self)@.processes.dom() =~= old(self)@.processes.dom().insert(0),
            final(self)@.proc(0).status is Running,
            final(self)@.proc(0).pid == 0,
            final(self)@.proc(0).priority == LEAST_PRIORITY,
    {
        let idle = Process::idle();
        self.put_process(idle);
    }

    /// The PID of the currently running process.
    pub fn running(&self) -> (r: Pid)
        ensures
            r == self@.running,
    {
        self.running
    }

    /// Shared access to the process registered under `pid`.
    pub fn process_as_ref(&self, pid: Pid) -> (r: Option<&Process>)
        ensures
            match r {
                Some(p) => self@.contains(pid) && p@ == self@.proc(pid),
                None => !self@.contains(pid),
            },
    {
        let r = self.processes.get(&pid);
        proof {
            if self.processes@.contains_key(pid) {
                assert(self@.contains(pid));
            } else {
                assert(!self@.contains(pid));
            }
        }
        r
    }

    /// Remove and hand out the process registered under `pid`; the caller
    /// puts a (possibly updated) process back with `put_process`.
    pub(crate) fn take_process(&mut self, pid: Pid) -> (p: Process)
        requires
            old(self)@.contains(pid),
        ensures
            p@ == old(self)@.proc(pid),
            final(self)@.processes == old(self)@.processes.remove(pid),
            final(self)@.queues == old(self)@.queues,
            final(self)@.running == old(self)@.running,
    {
        proof {
            lemma_lift_remove(self.processes@, pid);
        }
        let p = self.processes.remove(&pid).unwrap();
        p
    }

    /// Register (or re-register) a process in the table under its own PID.
    pub(crate) fn put_process(&mut self, p: Process)
        ensures
            final(self)@.processes == old(self)@.processes.insert(p@.pid, p@),
            final(self)@.queues == old(self)@.queues,
            final(self)@.running == old(self)@.running,
    {
        proof {
            lemma_lift_insert(self.processes@, p.pid, p);
        }
        let pid = p.pid;
        self.processes.insert(pid, p);
    }

    /// Append `pid` to the ready queue of level `priority`.
    pub(crate) fn push_ready(&mut self, pid: Pid, priority: usize)
        requires
            old(self)@.queues_wf(),
            priority <= LEAST_PRIORITY,
        ensures
            final(self)@ == old(self)@.with_enqueued(pid, priority as int),
    {
        self.runnable_pids.push(pid, priority);
    }

    /// Remove and return the front of the first non-empty ready queue.
    pub(crate) fn pop_ready(&mut self) -> (r: Option<Pid>)
        requires
            old(self)@.queues_wf(),
        ensures
            final(self)@.processes == old(self)@.processes,
            final(self)@.running == old(self)@.running,
            match r {
                None => all_empty(old(self)@.queues) && final(self)@ == old(self)@,
                Some(pid) => {
                    let l = first_nonempty(old(self)@.queues);
                    &&& is_first_nonempty(old(self)@.queues, l)
                    &&& pid == old(self)@.queues[l][0]
                    &&& final(self)@.queues == old(self)@.queues.update(
                        l,
                        old(self)@.queues[l].drop_first(),
                    )
                },
            },
    {
        self.runnable_pids.pop()
    }

    /// Set the recorded running PID.
    pub(crate) fn set_running(&mut self, pid: Pid)
        ensures
            final(self)@.processes == old(self)@.processes,
            final(self)@.queues == old(self)@.queues,
            final(self)@.running == pid,
    {
        self.running = pid;
    }

    /// Register a newly constructed process and make it eligible to run.
    /// Fails fatally when a process with the same PID already exists:
    /// that is a programming error, not a runtime condition.
    pub fn add_process_as_runnable(&mut self, p: Process) -> (r: Result<(), Fatal>)
        requires
            old(self)@.wf(),
            p@.fresh(),
        ensures
            match r {
                Ok(()) => {
                    &&& !old(self)@.contains(p@.pid)
                    &&& final(self)@ == old(self)@.with_proc(p@.pid, p@).with_enqueued(
                        p@.pid,
                        p@.priority as int,
                    )
                    &&& final(self)@.wf()
                },
                Err(e) => {
                    &&& e == Fatal::DuplicatePid
                    &&& old(self)@.contains(p@.pid)
                    &&& final(self)@ == old(self)@
                },
            },
    {
        let pid = p.id();
        let priority = p.priority;
        if self.processes.contains_key(&pid) {
            proof {
                assert(old(self)@.contains(pid));
            }
            return Err(Fatal::DuplicatePid);
        }
        self.put_process(p);
        self.push_ready(pid, priority);
        proof {
            lemma_add_runnable_preserves_wf(old(self)@, final(self)@, p@);
        }
        Ok(())
    }

    /// Move a blocked process, whose protocol bookkeeping has already been
    /// consumed, back to `Runnable` and enqueue it at its priority. Fails
    /// fatally for a PID that is absent or already awake.
    pub fn wake(&mut self, pid: Pid) -> (r: Result<(), Fatal>)
        requires
            old(self)@.queues_wf(),
            old(self)@.contains(pid) ==> old(self)@.proc(pid).priority <= LEAST_PRIORITY
                && old(self)@.proc(pid).pid == pid,
        ensures
            match r {
                Ok(()) => {
                    &&& old(self)@.contains(pid)
                    &&& (old(self)@.proc(pid).status is Sending || old(self)@.proc(
                        pid,
                    ).status is Receiving)
                    &&& final(self)@ == old(self)@.with_proc(
                        pid,
                        ProcessView { status: Status::Runnable, ..old(self)@.proc(pid) },
                    ).with_enqueued(pid, old(self)@.proc(pid).priority as int)
                },
                Err(Fatal::NoSuchProcess) => !old(self)@.contains(pid) && final(self)@ == old(
                    self,
                )@,
                Err(Fatal::AlreadyAwake) => {
                    &&& old(self)@.contains(pid)
                    &&& (old(self)@.proc(pid).status is Running || old(self)@.proc(
                        pid,
                    ).status is Runnable)
                    &&& final(self)@ == old(self)@
                },
                Err(_) => false,
            },
    {
        if !self.processes.contains_key(&pid) {
            return Err(Fatal::NoSuchProcess);
        }
        let already_awake = match self.processes.get(&pid).unwrap().status {
            Status::Running => true,
            Status::Runnable => true,
            _ => false,
        };
        if already_awake {
            return Err(Fatal::AlreadyAwake);
        }
        let mut p = self.take_process(pid);
        p.status = Status::Runnable;
        let priority = p.priority;
        self.put_process(p);
        proof {
            assert(self@.processes =~= old(self)@.processes.insert(
                pid,
                ProcessView { status: Status::Runnable, ..old(self)@.proc(pid) },
            ));
        }
        self.push_ready(pid, priority);
        Ok(())
    }

    /// Decide which process runs next and do the bookkeeping around the
    /// context swap: rotate a still-running process to the back of its
    /// queue, pop the most urgent runnable PID, and — unless it is the
    /// running one already — check the incoming kernel-stack guard, hand
    /// back the switch pair, and update the statuses and the running PID.
    ///
    /// Never returns a switch pair whose incoming PID equals the PID that
    /// was already running: that case is observable as `Ok(None)`, with
    /// the scheduler left exactly as it was.
    pub fn try_switch(&mut self) -> (r: Result<Option<SwitchPair>, Fatal>)
        requires
            old(self)@.wf_core(),
        ensures
            switch_rel(old(self)@, final(self)@, r),
            r matches Ok(_) ==> final(self)@.wf(),
    {
        let running = self.running;
        let was_running = match self.process_as_ref(running).unwrap().status {
            Status::Running => true,
            _ => false,
        };
        if was_running {
            let priority = self.process_as_ref(running).unwrap().priority;
            self.push_ready(running, priority);
        }
        proof {
            assert(self@.queues == old(self)@.rotated_queues());
        }
        let next = match self.pop_ready() {
            None => {
                proof {
                    if old(self)@.proc(old(self)@.running).status is Running {
                        let lr = old(self)@.proc(old(self)@.running).priority as int;
                        assert(old(self)@.rotated_queues()[lr].len() > 0);
                        assert(false);
                    }
                    assert(self@ =~= old(self)@);
                }
                return Err(Fatal::NoRunnablePids);
            },
            Some(n) => n,
        };
        proof {
            lemma_rotated_entries(old(self)@);
        }
        if next == running {
            proof {
                lemma_rotate_pop_same_is_noop(old(self)@, self@);
            }
            return Ok(None);
        }
        let intact = self.process_as_ref(next).unwrap().kernel_stack_is_intact();
        if !intact {
            return Err(Fatal::KernelStackSmashed);
        }
        let bottom = self.process_as_ref(next).unwrap().kernel_stack_bottom_addr();
        if was_running {
            let mut cp = self.take_process(running);
            cp.status = Status::Runnable;
            self.put_process(cp);
        } else {
            proof {
                assert(self@.processes =~= self@.processes.insert(
                    running,
                    old(self)@.proc(running),
                ));
            }
        }
        let mut np = self.take_process(next);
        np.status = Status::Running;
        self.put_process(np);
        self.set_running(next);
        proof {
            assert(self@.processes =~= old(self)@.processes.insert(
                running,
                outgoing(old(self)@),
            ).insert(next, ProcessView { status: Status::Running, ..old(self)@.proc(next) }));
            lemma_switch_to_preserves_wf(old(self)@, self@);
        }
        Ok(Some(SwitchPair { previous: running, next, next_kernel_stack_bottom: bottom }))
    }

    /// Request a scheduling decision without an IPC operation, e.g. from
    /// a timer trap. Identical to `try_switch`; this is the bare entry
    /// point the trap layer calls.
    pub fn switch(&mut self) -> (r: Result<Option<SwitchPair>, Fatal>)
        requires
            old(self)@.wf(),
        ensures
            switch_rel(old(self)@, final(self)@, r),
            r matches Ok(_) ==> final(self)@.wf(),
    {
        self.try_switch()
    }

    /// Name of the currently running process, for trap and debug handlers.
    pub fn current_process_name(&self) -> (r: &'static str)
        requires
            self@.wf(),
        ensures
            r@ == self@.proc(self@.running).name,
    {
        self.processes.get(&self.running).unwrap().name
    }

    /// Bottom address of the running process's kernel stack, for trap
    /// handlers.
    pub fn current_kernel_stack_bottom(&self) -> (r: u64)
        requires
            self@.wf(),
        ensures
            r == self@.proc(self@.running).stack_base + 8 * self@.proc(self@.running).stack.len(),
    {
        self.processes.get(&self.running).unwrap().kernel_stack_bottom_addr()
    }
}

/// The outgoing process as the switch leaves it: if it was still
/// `Running` it becomes `Runnable`; if it had just blocked it keeps its
/// blocked status.
pub open spec fn outgoing(pre: SchedulerView) -> ProcessView {
    if pre.proc(pre.running).status is Running {
        ProcessView { status: Status::Runnable, ..pre.proc(pre.running) }
    } else {
        pre.proc(pre.running)
    }
}

/// How one switch decision relates the scheduler state before (`pre`) and
/// after (`post`), for each possible outcome.
pub open spec fn switch_rel(
    pre: SchedulerView,
    post: SchedulerView,
    r: Result<Option<SwitchPair>, Fatal>,
) -> bool {
    match r {
        Err(Fatal::NoRunnablePids) => all_empty(pre.rotated_queues()) && post == pre,
        Err(Fatal::KernelStackSmashed) => {
            &&& !all_empty(pre.rotated_queues())
            &&& pre.next_pid() != pre.running
            &&& pre.proc(pre.next_pid()).stack[0] != STACK_GUARD
            &&& post.processes == pre.processes
            &&& post.running == pre.running
            &&& post.queues == pre.popped_queues()
        },
        Err(_) => false,
        Ok(None) => {
            &&& !all_empty(pre.rotated_queues())
            &&& pre.next_pid() == pre.running
            &&& post == pre
        },
        Ok(Some(pair)) => {
            let next = pre.next_pid();
            &&& !all_empty(pre.rotated_queues())
            &&& pre.contains(next)
            &&& next != pre.running
            &&& pre.proc(next).stack[0] == STACK_GUARD
            &&& pair.previous == pre.running
            &&& pair.next == next
            &&& pair.next_kernel_stack_bottom == pre.proc(next).stack_base + 8 * pre.proc(
                next,
            ).stack.len()
            &&& post.running == next
            &&& post.queues == pre.popped_queues()
            &&& post.processes == pre.processes.insert(pre.running, outgoing(pre)).insert(
                next,
                ProcessView { status: Status::Running, ..pre.proc(next) },
            )
        },
    }
}

/// Every entry of the rotated queues is a table entry: either an old
/// ready-queue element (then `Runnable`) or the still-running process
/// appended at the rotation point. Entries stay distinct within a level
/// and sit at the level of their own priority.
proof fn lemma_rotated_entries(pre: SchedulerView)
    requires
        pre.wf_core(),
    ensures
        forall|l: int, i: int|
            #![trigger pre.rotated_queues()[l][i]]
            0 <= l < pre.rotated_queues().len() && 0 <= i < pre.rotated_queues()[l].len() ==> {
                &&& pre.contains(pre.rotated_queues()[l][i])
                &&& pre.proc(pre.rotated_queues()[l][i]).priority == l
                &&& (pre.proc(pre.rotated_queues()[l][i]).status is Runnable || pre.rotated_queues(
                )[l][i] == pre.running)
            },
        forall|l: int, i: int, j: int|
            #![trigger pre.rotated_queues()[l][i], pre.rotated_queues()[l][j]]
            0 <= l < pre.rotated_queues().len() && 0 <= i < j < pre.rotated_queues()[l].len()
                ==> pre.rotated_queues()[l][i] != pre.rotated_queues()[l][j],
{
    let qs = pre.rotated_queues();
    assert forall|l: int, i: int|
        0 <= l < qs.len() && 0 <= i < qs[l].len() implies {
        &&& pre.contains(#[trigger] qs[l][i])
        &&& pre.proc(qs[l][i]).priority == l
        &&& (pre.proc(qs[l][i]).status is Runnable || qs[l][i] == pre.running)
    } by {
        if pre.proc(pre.running).status is Running {
            let lr = pre.proc(pre.running).priority as int;
            if l == lr && i == qs[l].len() - 1 {
                assert(qs[l][i] == pre.running);
            } else {
                assert(qs[l][i] == pre.queues[l][i]);
            }
        } else {
            assert(qs[l][i] == pre.queues[l][i]);
        }
    }
    assert forall|l: int, i: int, j: int|
        0 <= l < qs.len() && 0 <= i < j < qs[l].len() implies qs[l][i] != qs[l][j] by {
        if pre.proc(pre.running).status is Running {
            let lr = pre.proc(pre.running).priority as int;
            if l == lr && j == qs[l].len() - 1 {
                // the running process cannot already sit in a ready queue
                assert(qs[l][i] == pre.queues[l][i]);
                assert(pre.proc(pre.queues[l][i]).status is Runnable);
                assert(qs[l][j] == pre.running);
            } else {
                assert(qs[l][i] == pre.queues[l][i]);
                assert(qs[l][j] == pre.queues[l][j]);
            }
        } else {
            assert(qs[l][i] == pre.queues[l][i]);
            assert(qs[l][j] == pre.queues[l][j]);
        }
    }
}

/// When the popped PID equals the running one, the rotation pushed it
/// onto its own empty level, so pushing and popping changed nothing.
proof fn lemma_rotate_pop_same_is_noop(pre: SchedulerView, cur: SchedulerView)
    requires
        pre.wf_core(),
        cur.processes == pre.processes,
        cur.running == pre.running,
        !all_empty(pre.rotated_queues()),
        is_first_nonempty(pre.rotated_queues(), first_nonempty(pre.rotated_queues())),
        pre.rotated_queues()[first_nonempty(pre.rotated_queues())][0] == pre.running,
        cur.queues == pre.rotated_queues().update(
            first_nonempty(pre.rotated_queues()),
            pre.rotated_queues()[first_nonempty(pre.rotated_queues())].drop_first(),
        ),
    ensures
        cur == pre,
        pre.next_pid() == pre.running,
        pre.proc(pre.running).status is Running,
        pre.wf() ==> cur.wf(),
{
    let qs = pre.rotated_queues();
    let l = first_nonempty(qs);
    lemma_rotated_entries(pre);
    // the selected front is the running process, so the rotation must have
    // appended it: a blocked or running process never sits in the queues
    if !(pre.proc(pre.running).status is Running) {
        assert(qs == pre.queues);
        assert(pre.proc(pre.queues[l][0]).status is Runnable);
        assert(false);
    }
    let lr = pre.proc(pre.running).priority as int;
    if l != lr {
        assert(qs[l] == pre.queues[l]);
        assert(pre.proc(pre.queues[l][0]).status is Runnable);
        assert(false);
    }
    // the running process is at the front of its own level, yet it was
    // appended at the back: the level must have been empty before
    if pre.queues[lr].len() > 0 {
        assert(qs[lr][0] == pre.queues[lr][0]);
        assert(pre.proc(pre.queues[lr][0]).status is Runnable);
        assert(false);
    }
    assert(qs[lr] =~= seq![pre.running]);
    assert(cur.queues =~~= pre.queues);
    assert(cur =~= pre);
}

/// A completed switch to a different PID preserves the global invariant
/// and leaves the selected process as the unique running one.
proof fn lemma_switch_to_preserves_wf(pre: SchedulerView, post: SchedulerView)
    requires
        pre.wf_core(),
        !all_empty(pre.rotated_queues()),
        is_first_nonempty(pre.rotated_queues(), first_nonempty(pre.rotated_queues())),
        pre.next_pid() != pre.running,
        post.running == pre.next_pid(),
        post.queues == pre.popped_queues(),
        post.processes == pre.processes.insert(pre.running, outgoing(pre)).insert(
            pre.next_pid(),
            ProcessView { status: Status::Running, ..pre.proc(pre.next_pid()) },
        ),
    ensures
        post.wf(),
{
    let qs = pre.rotated_queues();
    let l = first_nonempty(qs);
    let next = pre.next_pid();
    let run = pre.running;
    lemma_rotated_entries(pre);
    assert(pre.contains(next));
    assert(post.queues_wf());
    // table
    assert forall|pid: Pid| #[trigger] post.contains(pid) implies post.proc(pid).pid == pid
        && post.proc(pid).structural_wf() by {
        assert(pre.contains(pid));
    }
    assert(post.contains(0) && post.contains(post.running));
    assert(post.proc(next).status is Running);
    assert(post.table_wf());
    // unique running process
    assert forall|pid: Pid| #[trigger] post.contains(pid) && post.proc(pid).status is Running
        implies pid == post.running by {
        if pid != next && pid != run {
            assert(pre.contains(pid));
            assert(pre.proc(pid) == post.proc(pid));
        }
    }
    // blocking bookkeeping: the two touched processes only changed status
    // between Running and Runnable, whose field constraints agree
    assert forall|pid: Pid| #[trigger] post.contains(pid) implies post.proc_blocking_wf(pid) by {
        assert(pre.contains(pid));
        assert(pre.proc_blocking_wf(pid));
        if pid == next {
            assert(post.proc(pid).status is Running);
        } else if pid == run {
        } else {
            assert(post.proc(pid) == pre.proc(pid));
            match post.proc(pid).status {
                Status::Sending { to, message } => {
                    assert(pre.contains(to));
                },
                Status::Receiving(f) => {
                    if let ReceiveFrom::Id(from) = f {
                        assert(pre.contains(from));
                    }
                },
                _ => {},
            }
        }
    }
    // pending queues: no pending list and no send_to field changed
    assert forall|d: Pid, i: int|
        post.contains(d) && 0 <= i < post.proc(d).pending_senders.len() implies {
        &&& post.contains(#[trigger] post.proc(d).pending_senders[i])
        &&& post.proc(post.proc(d).pending_senders[i]).send_to == Some(d)
    } by {
        assert(pre.contains(d));
        assert(post.proc(d).pending_senders == pre.proc(d).pending_senders);
        let s = pre.proc(d).pending_senders[i];
        assert(pre.contains(s));
        assert(post.proc(s).send_to == pre.proc(s).send_to);
    }
    assert forall|s: Pid| #[trigger] post.contains(s) && post.proc(s).send_to is Some implies post
        .proc(post.proc(s).send_to->0)
        .pending_senders
        .contains(s) by {
        assert(pre.contains(s));
        assert(post.proc(s).send_to == pre.proc(s).send_to);
        assert(pre.proc_blocking_wf(s));
        let d = pre.proc(s).send_to->0;
        assert(pre.contains(d));
        assert(pre.proc(d).pending_senders.contains(s));
        assert(post.proc(d).pending_senders == pre.proc(d).pending_senders);
    }
    assert forall|d: Pid, i: int, j: int|
        post.contains(d) && 0 <= i < j < post.proc(d).pending_senders.len() implies post.proc(
        d,
    ).pending_senders[i] != post.proc(d).pending_senders[j] by {
        assert(pre.contains(d));
        assert(post.proc(d).pending_senders == pre.proc(d).pending_senders);
    }
    assert(post.pending_wf());
    // ready queues
    assert forall|l2: int, i: int|
        0 <= l2 < post.queues.len() && 0 <= i < post.queues[l2].len() implies {
        &&& post.contains(#[trigger] post.queues[l2][i])
        &&& post.proc(post.queues[l2][i]).status is Runnable
        &&& post.proc(post.queues[l2][i]).priority == l2
    } by {
        let q = if l2 == l {
            qs[l2][i + 1]
        } else {
            qs[l2][i]
        };
        assert(post.queues[l2][i] == q);
        assert(pre.contains(q));
        assert(pre.proc(q).priority == l2);
        // q is not the selected next: next sits only at qs[l][0]
        if q == next {
            if l2 == l {
                assert(qs[l2][i + 1] != qs[l2][0]);
                assert(false);
            } else {
                assert(pre.proc(next).priority == l);
                assert(false);
            }
        }
        if q == run {
            // the running process occurs only as the appended back of its
            // own level, so it can only be found there
            assert(pre.proc(run).status is Running);
            let lr = pre.proc(run).priority as int;
            if l2 != lr {
                assert(qs[l2] == pre.queues[l2]);
                assert(pre.proc(pre.queues[l2][if l2 == l {
                    i + 1
                } else {
                    i
                }]).status is Runnable);
                assert(false);
            }
        }
        if q != run {
            assert(pre.proc(q).status is Runnable);
            assert(post.proc(q).status is Runnable);
        } else {
            assert(post.proc(run) == outgoing(pre));
            assert(post.proc(run).status is Runnable);
        }
    }
    assert forall|pid: Pid| #[trigger] post.contains(pid) && post.proc(pid).status is Runnable
        implies post.queues[post.proc(pid).priority as int].contains(pid) by {
        assert(pre.contains(pid));
        let lp = pre.proc(pid).priority as int;
        assert(post.proc(pid).priority == lp);
        if pid == run {
            // the outgoing process was appended at the back of its level
            assert(pre.proc(run).status is Running);
            assert(qs[lp][qs[lp].len() - 1] == run);
            if lp == l {
                // it is not the dropped front, which is `next`
                assert(qs[l][0] == next);
                assert(qs[lp].len() >= 2);
                assert(post.queues[lp][qs[lp].len() - 2] == run);
            } else {
                assert(post.queues[lp][qs[lp].len() - 1] == run);
            }
        } else {
            // an untouched runnable process: it sat somewhere in the old
            // queues and was neither the dropped front nor the rotation
            assert(pid != next);
            assert(pre.proc(pid).status is Runnable);
            assert(pre.queues[lp].contains(pid));
            let i = choose|i: int| 0 <= i < pre.queues[lp].len() && pre.queues[lp][i] == pid;
            assert(qs[lp][i] == pid);
            if lp == l {
                assert(qs[l][0] == next);
                assert(i != 0);
                assert(post.queues[lp][i - 1] == pid);
            } else {
                assert(post.queues[lp][i] == pid);
            }
        }
    }
    assert forall|l2: int, i: int, j: int|
        0 <= l2 < post.queues.len() && 0 <= i < j < post.queues[l2].len() implies post.queues[l2][i]
        != post.queues[l2][j] by {
        if l2 == l {
            assert(post.queues[l2][i] == qs[l2][i + 1]);
            assert(post.queues[l2][j] == qs[l2][j + 1]);
        } else {
            assert(post.queues[l2][i] == qs[l2][i]);
            assert(post.queues[l2][j] == qs[l2][j]);
        }
    }
    assert(post.ready_wf());
}

/// Registering a fresh process under a new PID preserves the global
/// invariant.
proof fn lemma_add_runnable_preserves_wf(pre: SchedulerView, post: SchedulerView, p: ProcessView)
    requires
        pre.wf(),
        p.fresh(),
        !pre.contains(p.pid),
        post == pre.with_proc(p.pid, p).with_enqueued(p.pid, p.priority as int),
    ensures
        post.wf(),
{
    let pid = p.pid;
    let l = p.priority as int;
    assert(post.queues_wf());
    assert forall|q: Pid| #[trigger] post.contains(q) implies post.proc(q).pid == q
        && post.proc(q).structural_wf() by {
        if q != pid {
            assert(pre.contains(q));
        }
    }
    assert(post.table_wf());
    assert forall|q: Pid| #[trigger] post.contains(q) && post.proc(q).status is Running implies q
        == post.running by {
        if q != pid {
            assert(pre.contains(q));
        }
    }
    assert forall|q: Pid| #[trigger] post.contains(q) implies post.proc_blocking_wf(q) by {
        if q != pid {
            assert(pre.contains(q));
            assert(pre.proc_blocking_wf(q));
        }
    }
    assert forall|d: Pid, i: int|
        post.contains(d) && 0 <= i < post.proc(d).pending_senders.len() implies {
        &&& post.contains(#[trigger] post.proc(d).pending_senders[i])
        &&& post.proc(post.proc(d).pending_senders[i]).send_to == Some(d)
    } by {
        if d != pid {
            assert(pre.contains(d));
            assert(pre.proc(d).pending_senders[i] == post.proc(d).pending_senders[i]);
            let s = pre.proc(d).pending_senders[i];
            assert(pre.contains(s));
            assert(s != pid);
        }
    }
    assert forall|s: Pid| #[trigger] post.contains(s) && post.proc(s).send_to is Some implies post
        .proc(post.proc(s).send_to->0)
        .pending_senders
        .contains(s) by {
        if s != pid {
            assert(pre.contains(s));
            assert(pre.proc_blocking_wf(s));
            let d = pre.proc(s).send_to->0;
            assert(pre.contains(d));
            assert(d != pid);
            assert(pre.proc(d).pending_senders.contains(s));
            assert(post.proc(d).pending_senders == pre.proc(d).pending_senders);
        }
    }
    assert forall|d: Pid, i: int, j: int|
        post.contains(d) && 0 <= i < j < post.proc(d).pending_senders.len() implies post.proc(
        d,
    ).pending_senders[i] != post.proc(d).pending_senders[j] by {
        if d != pid {
            assert(pre.contains(d));
            assert(pre.proc(d).pending_senders[i] == post.proc(d).pending_senders[i]);
            assert(pre.proc(d).pending_senders[j] == post.proc(d).pending_senders[j]);
        }
    }
    assert(post.pending_wf());
    // ready queues: the new process is appended at its own level
    assert forall|l2: int, i: int|
        0 <= l2 < post.queues.len() && 0 <= i < post.queues[l2].len() implies {
        &&& post.contains(#[trigger] post.queues[l2][i])
        &&& post.proc(post.queues[l2][i]).status is Runnable
        &&& post.proc(post.queues[l2][i]).priority == l2
    } by {
        if l2 == l && i == post.queues[l2].len() - 1 {
            assert(post.queues[l2][i] == pid);
        } else {
            assert(post.queues[l2][i] == pre.queues[l2][i]);
            assert(pre.contains(pre.queues[l2][i]));
        }
    }
    assert forall|q: Pid| #[trigger] post.contains(q) && post.proc(q).status is Runnable implies
        post.queues[post.proc(q).priority as int].contains(q) by {
        if q == pid {
            assert(post.queues[l][post.queues[l].len() - 1] == pid);
        } else {
            assert(pre.contains(q));
            let lq = pre.proc(q).priority as int;
            let i = choose|i: int| 0 <= i < pre.queues[lq].len() && pre.queues[lq][i] == q;
            assert(pre.queues[lq].contains(q));
            let wi = choose|i: int| 0 <= i < pre.queues[lq].len() && pre.queues[lq][i] == q;
            assert(post.queues[lq][wi] == q);
        }
    }
    assert forall|l2: int, i: int, j: int|
        0 <= l2 < post.queues.len() && 0 <= i < j < post.queues[l2].len() implies post.queues[l2][i]
        != post.queues[l2][j] by {
        if l2 == l && j == post.queues[l2].len() - 1 {
            // the old queue cannot already hold the new PID
            assert(post.queues[l2][i] == pre.queues[l2][i]);
            assert(pre.contains(pre.queues[l2][i]));
        } else {
            assert(post.queues[l2][i] == pre.queues[l2][i]);
            assert(post.queues[l2][j] == pre.queues[l2][j]);
        }
    }
    assert(post.ready_wf());
}

} // verus!
