//! The per-process record and the message type.

use ramen::process::{Body, Message, Process, Status, LEAST_PRIORITY, STACK_GUARD};

#[test]
fn new_process_is_fresh_and_guarded() {
    let p = Process::new(4, "worker", 2, 32, 0x40_0000);
    assert_eq!(p.pid, 4);
    assert_eq!(p.id(), 4);
    assert_eq!(p.name, "worker");
    assert_eq!(p.priority, 2);
    assert_eq!(p.status, Status::Runnable);
    assert_eq!(p.msg_ptr, None);
    assert_eq!(p.send_to, None);
    assert_eq!(p.receive_from, None);
    assert!(p.pids_try_to_send_this_process.is_empty());
    assert_eq!(p.kernel_stack.len(), 32);
    assert_eq!(p.kernel_stack[0], STACK_GUARD);
    assert!(p.kernel_stack_is_intact());
    assert_eq!(p.kernel_stack_bottom_addr(), 0x40_0000 + 32 * 8);
}

#[test]
fn idle_process_is_running_pid_zero() {
    let p = Process::idle();
    assert_eq!(p.pid, 0);
    assert_eq!(p.status, Status::Running);
    assert_eq!(p.priority, LEAST_PRIORITY);
}

#[test]
fn overwritten_guard_is_detected() {
    let mut p = Process::new(4, "worker", 2, 32, 0x40_0000);
    p.kernel_stack[0] = 0x1234;
    assert!(!p.kernel_stack_is_intact());
}

#[test]
fn message_carries_sender_and_body() {
    let m = Message::new(3, Body(9, 8, 7, 6, 5));
    assert_eq!(m.header.sender, 3);
    assert_eq!(m.body, Body(9, 8, 7, 6, 5));
    assert_eq!(m, Message::new(3, Body(9, 8, 7, 6, 5)));
    assert_ne!(m, Message::new(4, Body(9, 8, 7, 6, 5)));
}
