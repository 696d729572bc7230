//! Core of a small multitasking kernel: a priority scheduler and a
//! synchronous (rendezvous) message-passing layer between processes,
//! together with the small device-facing data structures the kernel
//! builds its register and descriptor images from.
//!
//! The scheduler owns a table of processes keyed by PID and an array of
//! FIFO ready queues, one per priority level. Processes communicate only
//! by sending and receiving fixed-size messages; a send blocks until the
//! destination receives (or completes at once when the destination is
//! already waiting), and symmetrically for receive. Every state change is
//! specified against the scheduler's global invariant: one running
//! process, consistent blocking bookkeeping, and ready queues that hold
//! exactly the runnable processes.

pub mod bits;
pub mod fs;
pub mod gdt;
pub mod graphics;
pub mod ipc;
pub mod laws;
pub mod memory;
pub mod pci;
pub mod port;
pub mod process;
pub mod ready_queue;
pub mod scheduler;
pub mod xhci;

pub use process::Pid;
