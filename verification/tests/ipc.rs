//! The rendezvous protocol end to end: delivery to a waiting receiver,
//! blocking senders queueing up in order, and the full round trip.

use ramen::memory::{AddressSpace, MsgMemory};
use ramen::process::{Body, Message, Process, ReceiveFrom, Status};
use ramen::scheduler::{Fatal, Scheduler};

const A: u64 = 1;
const B: u64 = 2;
const C: u64 = 3;

// virtual and physical addresses of the per-process message records
const MSG_V: [u64; 4] = [0, 0x1000, 0x2000, 0x3000];
const MSG_P: [u64; 4] = [0, 0x8100, 0x8200, 0x8300];
const BUF_V: [u64; 4] = [0, 0x5000, 0x6000, 0x7000];
const BUF_P: [u64; 4] = [0, 0x9100, 0x9200, 0x9300];

struct World {
    s: Scheduler,
    aspace: AddressSpace,
    mem: MsgMemory,
}

/// A scheduler with processes A, B, C registered (A most urgent), and a
/// message record and a receive buffer mapped for each.
fn world() -> World {
    let mut s = Scheduler::new();
    s.init();
    s.add_process_as_runnable(Process::new(A, "a", 1, 16, 0x10_0000)).unwrap();
    s.add_process_as_runnable(Process::new(B, "b", 2, 16, 0x20_0000)).unwrap();
    s.add_process_as_runnable(Process::new(C, "c", 3, 16, 0x30_0000)).unwrap();
    let mut aspace = AddressSpace::new();
    let mut mem = MsgMemory::new();
    for pid in 1..4usize {
        aspace.map_page(MSG_V[pid], MSG_P[pid]);
        aspace.map_page(BUF_V[pid], BUF_P[pid]);
        mem.write(MSG_P[pid], Message::new(0, Body(0, 0, 0, 0, 0)));
        mem.write(BUF_P[pid], Message::new(0, Body(0, 0, 0, 0, 0)));
    }
    World { s, aspace, mem }
}

#[test]
fn send_to_self_is_fatal() {
    let mut w = world();
    w.s.switch().unwrap().unwrap();
    assert_eq!(w.s.running(), A);
    let r = w.s.send(&w.aspace, &mut w.mem, MSG_V[1], A);
    assert_eq!(r, Err(Fatal::SelfSend));
}

#[test]
fn receive_from_self_is_fatal() {
    let mut w = world();
    w.s.switch().unwrap().unwrap();
    let r = w.s.receive_from(&w.aspace, &mut w.mem, BUF_V[1], A);
    assert_eq!(r, Err(Fatal::SelfReceive));
}

#[test]
fn unmapped_address_is_fatal() {
    let mut w = world();
    w.s.switch().unwrap().unwrap();
    let r = w.s.send(&w.aspace, &mut w.mem, 0xdead_0000, B);
    assert_eq!(r, Err(Fatal::TranslationFailed));
}

#[test]
fn send_to_missing_process_is_fatal() {
    let mut w = world();
    w.s.switch().unwrap().unwrap();
    let r = w.s.send(&w.aspace, &mut w.mem, MSG_V[1], 77);
    assert_eq!(r, Err(Fatal::NoSuchProcess));
}

#[test]
fn receive_from_missing_process_is_fatal() {
    let mut w = world();
    w.s.switch().unwrap().unwrap();
    let r = w.s.receive_from(&w.aspace, &mut w.mem, BUF_V[1], 77);
    assert_eq!(r, Err(Fatal::NoSuchProcess));
}

#[test]
fn send_to_waiting_receiver_delivers_at_once() {
    let mut w = world();
    // B runs first here: A is reached later, so make B block receiving
    // from anyone before A sends
    w.s.switch().unwrap().unwrap();
    assert_eq!(w.s.running(), A);
    // A blocks receiving; the switch moves on to B
    w.s.receive_from_any(&w.aspace, &mut w.mem, BUF_V[1]).unwrap();
    assert_eq!(w.s.running(), B);
    // B sends to the waiting A: B must not block, A becomes runnable,
    // and A's buffer holds B's body with B stamped as sender
    w.mem.write(MSG_P[2], Message::new(42, Body(3, 1, 4, 1, 5)));
    w.s.send(&w.aspace, &mut w.mem, MSG_V[2], A).unwrap();
    let delivered = w.mem.read(BUF_P[1]);
    assert_eq!(delivered.header.sender, B);
    assert_eq!(delivered.body, Body(3, 1, 4, 1, 5));
    assert_eq!(w.s.process_as_ref(1).unwrap().msg_ptr, None);
    assert_eq!(w.s.process_as_ref(1).unwrap().receive_from, None);
}

#[test]
fn sender_blocks_and_queues_in_arrival_order() {
    let mut w = world();
    w.s.switch().unwrap().unwrap();
    assert_eq!(w.s.running(), A);
    // A sends to C, which is not waiting: A blocks as Sending
    w.mem.write(MSG_P[1], Message::new(0, Body(10, 0, 0, 0, 0)));
    w.s.send(&w.aspace, &mut w.mem, MSG_V[1], C).unwrap();
    assert_eq!(
        w.s.process_as_ref(1).unwrap().status,
        Status::Sending { to: C, message: MSG_P[1] }
    );
    assert_eq!(w.s.process_as_ref(1).unwrap().send_to, Some(C));
    // B sends to C as well and blocks behind A
    assert_eq!(w.s.running(), B);
    w.mem.write(MSG_P[2], Message::new(0, Body(20, 0, 0, 0, 0)));
    w.s.send(&w.aspace, &mut w.mem, MSG_V[2], C).unwrap();
    let pending: Vec<u64> = w
        .s
        .process_as_ref(3)
        .unwrap()
        .pids_try_to_send_this_process
        .iter()
        .copied()
        .collect();
    assert_eq!(pending, vec![A, B]);
    // C's receive-from-any is satisfied by the earliest sender, A
    assert_eq!(w.s.running(), C);
    w.s.receive_from_any(&w.aspace, &mut w.mem, BUF_V[3]).unwrap();
    let got = w.mem.read(BUF_P[3]);
    assert_eq!(got.header.sender, A);
    assert_eq!(got.body, Body(10, 0, 0, 0, 0));
    let pending: Vec<u64> = w
        .s
        .process_as_ref(3)
        .unwrap()
        .pids_try_to_send_this_process
        .iter()
        .copied()
        .collect();
    assert_eq!(pending, vec![B]);
    // the switch after the delivery hands the CPU to the woken A, the
    // most urgent runnable process
    assert_eq!(w.s.process_as_ref(1).unwrap().status, Status::Running);
    assert_eq!(w.s.running(), A);
}

#[test]
fn receive_from_specific_sender_consumes_its_pending_entry() {
    let mut w = world();
    w.s.switch().unwrap().unwrap();
    // A sends to C and blocks; C receives from A by PID
    w.mem.write(MSG_P[1], Message::new(0, Body(7, 7, 7, 7, 7)));
    w.s.send(&w.aspace, &mut w.mem, MSG_V[1], C).unwrap();
    assert_eq!(w.s.running(), B);
    w.s.send(&w.aspace, &mut w.mem, MSG_V[2], C).unwrap();
    assert_eq!(w.s.running(), C);
    w.s.receive_from(&w.aspace, &mut w.mem, BUF_V[3], A).unwrap();
    let got = w.mem.read(BUF_P[3]);
    assert_eq!(got.header.sender, A);
    assert_eq!(got.body, Body(7, 7, 7, 7, 7));
    // A's entry left C's pending queue; B's stayed
    let pending: Vec<u64> = w
        .s
        .process_as_ref(3)
        .unwrap()
        .pids_try_to_send_this_process
        .iter()
        .copied()
        .collect();
    assert_eq!(pending, vec![B]);
    // the woken A was switched to straight away
    assert_eq!(w.s.process_as_ref(1).unwrap().status, Status::Running);
    assert_eq!(w.s.process_as_ref(1).unwrap().send_to, None);
}

#[test]
fn receive_from_sender_aimed_elsewhere_blocks() {
    let mut w = world();
    w.s.switch().unwrap().unwrap();
    // A sends to B; C receiving specifically from A must not take it
    w.s.send(&w.aspace, &mut w.mem, MSG_V[1], B).unwrap();
    assert_eq!(w.s.running(), B);
    w.s.send(&w.aspace, &mut w.mem, MSG_V[2], C).unwrap();
    assert_eq!(w.s.running(), C);
    w.s.receive_from(&w.aspace, &mut w.mem, BUF_V[3], A).unwrap();
    assert_eq!(
        w.s.process_as_ref(3).unwrap().status,
        Status::Receiving(ReceiveFrom::Id(A))
    );
}

#[test]
fn message_round_trip() {
    let mut w = world();
    // A runs first and blocks receiving from anyone
    w.s.switch().unwrap().unwrap();
    assert_eq!(w.s.running(), A);
    w.s.receive_from_any(&w.aspace, &mut w.mem, BUF_V[1]).unwrap();
    assert_eq!(w.s.running(), B);
    // B sends its message; B does not block and A becomes runnable
    w.mem.write(MSG_P[2], Message::new(99, Body(3, 1, 4, 1, 5)));
    w.s.send(&w.aspace, &mut w.mem, MSG_V[2], A).unwrap();
    // the switch after delivery brings A back (FIFO within the level)
    assert_eq!(w.s.running(), A);
    let got = w.mem.read(BUF_P[1]);
    assert_eq!(got.header.sender, B);
    assert_eq!(got.body, Body(3, 1, 4, 1, 5));
    // A replies; B is not waiting yet, so A blocks and B runs
    w.mem.write(MSG_P[1], Message::new(0, Body(4, 2, 1, 9, 5)));
    w.s.send(&w.aspace, &mut w.mem, MSG_V[1], B).unwrap();
    assert_eq!(w.s.running(), B);
    // B now receives from anyone and observes A's reply
    w.s.receive_from_any(&w.aspace, &mut w.mem, BUF_V[2]).unwrap();
    let reply = w.mem.read(BUF_P[2]);
    assert_eq!(reply.header.sender, A);
    assert_eq!(reply.body, Body(4, 2, 1, 9, 5));
}

#[test]
fn delivery_stamps_true_sender_over_forged_header() {
    let mut w = world();
    w.s.switch().unwrap().unwrap();
    w.s.receive_from_any(&w.aspace, &mut w.mem, BUF_V[1]).unwrap();
    assert_eq!(w.s.running(), B);
    // the sender forged PID 55 into its own header; delivery overwrites it
    w.mem.write(MSG_P[2], Message::new(55, Body(1, 2, 3, 4, 5)));
    w.s.send(&w.aspace, &mut w.mem, MSG_V[2], A).unwrap();
    assert_eq!(w.mem.read(BUF_P[1]).header.sender, B);
    // the in-place stamp also lands in the sender's own record
    assert_eq!(w.mem.read(MSG_P[2]).header.sender, B);
}
