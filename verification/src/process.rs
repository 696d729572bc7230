//! Per-process state: identity, priority, status, saved context, kernel
//! stack, and the bookkeeping fields of the rendezvous message protocol.

use vstd::prelude::*;

use std::collections::VecDeque;

verus! {

/// Process identifier. PID 0 is reserved for the permanent idle process.
pub type Pid = u64;

/// Number of the numerically largest (least urgent) priority level.
/// Priorities range over `0 ..= LEAST_PRIORITY`; a lower value is
/// scheduled first.
pub const LEAST_PRIORITY: usize = 7;

/// Value kept at the low end of every kernel stack. A process is never
/// resumed while this word has been overwritten: that means the stack
/// overflowed into the guard.
pub const STACK_GUARD: u64 = 0x5a5a_5a5a_5a5a_5a5a;

/// Filter of a blocked receiver: accept a message from anyone, or only
/// from one given process.
#[derive(Clone, Copy, Debug, PartialEq, Eq, Structural)]
pub enum ReceiveFrom {
    Any,
    Id(Pid),
}

/// Scheduling status of a process. `Sending` and `Receiving` are the two
/// blocked states of the rendezvous protocol; `message` is the physical
/// address of the sender's outgoing message.
#[derive(Clone, Copy, Debug, PartialEq, Eq, Structural)]
pub enum Status {
    Running,
    Runnable,
    Sending { to: Pid, message: u64 },
    Receiving(ReceiveFrom),
}

/// Fixed-size opaque payload of a message. The kernel copies it verbatim
/// and never interprets it.
#[derive(Clone, Copy, Debug, PartialEq, Eq, Structural)]
pub struct Body(pub u64, pub u64, pub u64, pub u64, pub u64);

/// Message header. `sender` is always overwritten by the kernel with the
/// true sender's PID during delivery, whatever the sender placed there.
#[derive(Clone, Copy, Debug, PartialEq, Eq, Structural)]
pub struct Header {
    pub sender: Pid,
}

/// A fixed-size message as it sits in memory: a header and an opaque body.
#[derive(Clone, Copy, Debug, PartialEq, Eq, Structural)]
pub struct Message {
    pub header: Header,
    pub body: Body,
}

impl Message {
    /// A message carrying `body`, initially labelled as coming from `sender`.
    pub fn new(sender: Pid, body: Body) -> (m: Message)
        ensures
            m.header.sender == sender,
            m.body == body,
    {
        Message { header: Header { sender }, body }
    }
}

/// Saved execution state of a process that is not running. This layer
/// never looks inside it; it only hands it to the low-level context-swap
/// primitive of an outer layer.
#[derive(Clone, Copy, Debug, PartialEq, Eq, Structural)]
pub struct Context {
    pub data: u64,
}

/// Per-process record owned by the scheduler: identity, priority, status,
/// saved context, kernel stack, and the bookkeeping of the rendezvous
/// protocol.
pub struct Process {
    /// Identity; unique within the process table.
    pub pid: Pid,
    /// Name shown by introspection queries.
    pub name: &'static str,
    /// Priority level, within `0 ..= LEAST_PRIORITY`; lower runs first.
    pub priority: usize,
    /// Scheduling status.
    pub status: Status,
    /// Saved execution state, owned here while the process is not running.
    pub context: Context,
    /// Kernel stack contents; index 0 is the low end and holds
    /// [`STACK_GUARD`] until the stack overflows into it.
    pub kernel_stack: Vec<u64>,
    /// Virtual address of the low end of the kernel stack.
    pub stack_base: u64,
    /// Physical address of the outstanding message buffer: the process's
    /// own message while it blocks sending, or its receive buffer while it
    /// blocks receiving. Cleared when the buffer is consumed.
    pub msg_ptr: Option<u64>,
    /// Destination PID while the process blocks trying to send.
    pub send_to: Option<Pid>,
    /// Filter while the process blocks trying to receive.
    pub receive_from: Option<ReceiveFrom>,
    /// PIDs blocked waiting to send to this process, in arrival order.
    pub pids_try_to_send_this_process: VecDeque<Pid>,
}

/// Mathematical image of a [`Process`].
pub struct ProcessView {
    pub pid: Pid,
    pub name: Seq<char>,
    pub priority: usize,
    pub status: Status,
    pub context: Context,
    pub stack: Seq<u64>,
    pub stack_base: u64,
    pub msg_ptr: Option<u64>,
    pub send_to: Option<Pid>,
    pub receive_from: Option<ReceiveFrom>,
    pub pending_senders: Seq<Pid>,
}

impl View for Process {
    type V = ProcessView;

    open spec fn view(&self) -> ProcessView {
        ProcessView {
            pid: self.pid,
            name: self.name@,
            priority: self.priority,
            status: self.status,
            context: self.context,
            stack: self.kernel_stack@,
            stack_base: self.stack_base,
            msg_ptr: self.msg_ptr,
            send_to: self.send_to,
            receive_from: self.receive_from,
            pending_senders: self.pids_try_to_send_this_process@,
        }
    }
}

impl ProcessView {
    /// Shape every process keeps for its whole life: a legal priority and
    /// a non-empty kernel stack whose end addresses fit in the address
    /// space.
    pub open spec fn structural_wf(self) -> bool {
        &&& self.priority <= LEAST_PRIORITY
        &&& self.stack.len() >= 1
        &&& self.stack_base + 8 * self.stack.len() <= u64::MAX
    }

    /// State of a process as it is handed to the scheduler for
    /// registration: runnable, with no protocol bookkeeping outstanding.
    pub open spec fn fresh(self) -> bool {
        &&& self.structural_wf()
        &&& self.status is Runnable
        &&& self.msg_ptr is None
        &&& self.send_to is None
        &&& self.receive_from is None
        &&& self.pending_senders.len() == 0
    }
}

impl Process {
    /// A newly built process, ready to be registered as runnable. The
    /// kernel stack is `stack_words` words at virtual address
    /// `stack_base`, with the guard value written at its low end.
    pub fn new(
        pid: Pid,
        name: &'static str,
        priority: usize,
        stack_words: usize,
        stack_base: u64,
    ) -> (p: Process)
        requires
            priority <= LEAST_PRIORITY,
            1 <= stack_words,
            stack_base + 8 * stack_words <= u64::MAX,
        ensures
            p@.fresh(),
            p@.pid == pid,
            p@.name == name@,
            p@.priority == priority,
            p@.stack.len() == stack_words,
            p@.stack[0] == STACK_GUARD,
            p@.stack_base == stack_base,
    {
        let mut kernel_stack: Vec<u64> = Vec::new();
        kernel_stack.push(STACK_GUARD);
        let mut w: usize = 1;
        while w < stack_words
            invariant
                1 <= w <= stack_words,
                kernel_stack@.len() == w,
                kernel_stack@[0] == STACK_GUARD,
            decreases stack_words - w,
        {
            kernel_stack.push(0);
            w = w + 1;
        }
        Process {
            pid,
            name,
            priority,
            status: Status::Runnable,
            context: Context { data: 0 },
            kernel_stack,
            stack_base,
            msg_ptr: None,
            send_to: None,
            receive_from: None,
            pids_try_to_send_this_process: VecDeque::new(),
        }
    }

    /// The permanent idle process: PID 0, least urgent priority, already
    /// `Running` so that it can seed the scheduler at initialization.
    pub fn idle() -> (p: Process)
        ensures
            p@.structural_wf(),
            p@.pid == 0,
            p@.status is Running,
            p@.priority == LEAST_PRIORITY,
            p@.msg_ptr is None,
            p@.send_to is None,
            p@.receive_from is None,
            p@.pending_senders.len() == 0,
            p@.stack[0] == STACK_GUARD,
    {
        let mut p = Process::new(0, "idle", LEAST_PRIORITY, 16, 0);
        p.status = Status::Running;
        p
    }

    /// This process's identifier.
    pub fn id(&self) -> (r: Pid)
        ensures
            r == self@.pid,
    {
        self.pid
    }

    /// Virtual address one past the high end of the kernel stack; this is
    /// where the hardware's privileged-stack pointer is pointed before the
    /// process is resumed.
    pub fn kernel_stack_bottom_addr(&self) -> (r: u64)
        requires
            self@.structural_wf(),
        ensures
            r == self@.stack_base + 8 * self@.stack.len(),
    {
        self.stack_base + 8 * (self.kernel_stack.len() as u64)
    }

    /// Whether the guard word at the low end of the kernel stack is still
    /// intact. A `false` answer means the stack overflowed; resuming the
    /// process would run on corrupted memory.
    pub fn kernel_stack_is_intact(&self) -> (r: bool)
        requires
            self@.stack.len() >= 1,
        ensures
            r == (self@.stack[0] == STACK_GUARD),
    {
        self.kernel_stack[0] == STACK_GUARD
    }
}

} // verus!
