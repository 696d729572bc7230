//! Scheduler behaviour: initialization, registration, waking, and the
//! switch decision.

use ramen::memory::{AddressSpace, MsgMemory};
use ramen::process::{Process, Status, LEAST_PRIORITY};
use ramen::scheduler::{Fatal, Scheduler};

fn stack_base(pid: u64) -> u64 {
    0x10_0000 + pid * 0x1000
}

fn proc_with(pid: u64, name: &'static str, priority: usize) -> Process {
    Process::new(pid, name, priority, 16, stack_base(pid))
}

#[test]
fn init_installs_running_idle_process() {
    let mut s = Scheduler::new();
    s.init();
    assert_eq!(s.running(), 0);
    let idle = s.process_as_ref(0).unwrap();
    assert_eq!(idle.pid, 0);
    assert_eq!(idle.status, Status::Running);
    assert_eq!(idle.priority, LEAST_PRIORITY);
    assert_eq!(s.current_process_name(), "idle");
}

#[test]
fn add_process_registers_it_as_runnable() {
    let mut s = Scheduler::new();
    s.init();
    s.add_process_as_runnable(proc_with(1, "a", 3)).unwrap();
    let p = s.process_as_ref(1).unwrap();
    assert_eq!(p.status, Status::Runnable);
    assert_eq!(p.priority, 3);
}

#[test]
fn duplicate_pid_is_fatal() {
    let mut s = Scheduler::new();
    s.init();
    s.add_process_as_runnable(proc_with(1, "a", 3)).unwrap();
    let r = s.add_process_as_runnable(proc_with(1, "b", 4));
    assert_eq!(r, Err(Fatal::DuplicatePid));
}

#[test]
fn wake_of_missing_process_is_fatal() {
    let mut s = Scheduler::new();
    s.init();
    assert_eq!(s.wake(9), Err(Fatal::NoSuchProcess));
}

#[test]
fn wake_of_running_process_is_fatal() {
    let mut s = Scheduler::new();
    s.init();
    // the idle process is Running
    assert_eq!(s.wake(0), Err(Fatal::AlreadyAwake));
}

#[test]
fn wake_of_runnable_process_is_fatal() {
    let mut s = Scheduler::new();
    s.init();
    s.add_process_as_runnable(proc_with(1, "a", 3)).unwrap();
    assert_eq!(s.wake(1), Err(Fatal::AlreadyAwake));
}

#[test]
fn wake_moves_blocked_process_to_runnable() {
    let mut s = Scheduler::new();
    s.init();
    s.add_process_as_runnable(proc_with(1, "a", 0)).unwrap();
    s.add_process_as_runnable(proc_with(2, "b", 1)).unwrap();
    let aspace = AddressSpace::new();
    let mut mem = MsgMemory::new();
    // run process 1, then block it waiting for a message
    s.switch().unwrap();
    assert_eq!(s.running(), 1);
    let mut aspace2 = aspace;
    aspace2.map_page(0x4000, 0x9000);
    mem.write(0x9000, ramen::process::Message::new(0, ramen::process::Body(0, 0, 0, 0, 0)));
    s.receive_from_any(&aspace2, &mut mem, 0x4000).unwrap();
    assert_eq!(s.process_as_ref(1).unwrap().status, Status::Receiving(ramen::process::ReceiveFrom::Any));
    // a blocked process may be woken exactly once
    s.wake(1).unwrap();
    assert_eq!(s.process_as_ref(1).unwrap().status, Status::Runnable);
    assert_eq!(s.wake(1), Err(Fatal::AlreadyAwake));
}

#[test]
fn switch_selects_numerically_smallest_priority() {
    // two runnable processes: priority 5 and priority 2; the next switch
    // must select the priority-2 one
    let mut s = Scheduler::new();
    s.init();
    s.add_process_as_runnable(proc_with(1, "p1", 5)).unwrap();
    s.add_process_as_runnable(proc_with(2, "p2", 2)).unwrap();
    let pair = s.switch().unwrap().unwrap();
    assert_eq!(pair.previous, 0);
    assert_eq!(pair.next, 2);
    assert_eq!(s.running(), 2);
    assert_eq!(s.process_as_ref(2).unwrap().status, Status::Running);
    assert_eq!(s.process_as_ref(0).unwrap().status, Status::Runnable);
}

#[test]
fn switch_with_no_other_candidate_is_a_noop() {
    // only the idle process exists: the popped next PID equals the
    // running one, and no switch pair is returned
    let mut s = Scheduler::new();
    s.init();
    let r = s.switch().unwrap();
    assert!(r.is_none());
    assert_eq!(s.running(), 0);
    assert_eq!(s.process_as_ref(0).unwrap().status, Status::Running);
}

#[test]
fn switch_rotates_equal_priorities_fifo() {
    let mut s = Scheduler::new();
    s.init();
    s.add_process_as_runnable(proc_with(1, "a", 3)).unwrap();
    s.add_process_as_runnable(proc_with(2, "b", 3)).unwrap();
    let p1 = s.switch().unwrap().unwrap();
    assert_eq!(p1.next, 1);
    let p2 = s.switch().unwrap().unwrap();
    assert_eq!(p2.previous, 1);
    assert_eq!(p2.next, 2);
    let p3 = s.switch().unwrap().unwrap();
    assert_eq!(p3.next, 1);
}

#[test]
fn switch_to_smashed_stack_is_fatal() {
    let mut s = Scheduler::new();
    s.init();
    let mut p = proc_with(1, "a", 0);
    // overwrite the guard word at the low end of the kernel stack
    p.kernel_stack[0] = 0;
    s.add_process_as_runnable(p).unwrap();
    assert_eq!(s.switch(), Err(Fatal::KernelStackSmashed));
}

#[test]
fn empty_ready_queues_after_blocking_are_fatal() {
    let mut s = Scheduler::new();
    s.init();
    // the idle process itself blocks: nothing is left to run
    let mut aspace = AddressSpace::new();
    let mut mem = MsgMemory::new();
    aspace.map_page(0x4000, 0x9000);
    mem.write(0x9000, ramen::process::Message::new(0, ramen::process::Body(0, 0, 0, 0, 0)));
    let r = s.receive_from_any(&aspace, &mut mem, 0x4000);
    assert_eq!(r, Err(Fatal::NoRunnablePids));
}

#[test]
fn switch_pair_reports_incoming_kernel_stack_bottom() {
    let mut s = Scheduler::new();
    s.init();
    s.add_process_as_runnable(proc_with(1, "a", 0)).unwrap();
    let pair = s.switch().unwrap().unwrap();
    assert_eq!(pair.next, 1);
    // 16 stack words of 8 bytes above the base
    assert_eq!(pair.next_kernel_stack_bottom, stack_base(1) + 16 * 8);
    assert_eq!(s.current_kernel_stack_bottom(), stack_base(1) + 16 * 8);
}

#[test]
fn current_process_name_follows_the_switch() {
    let mut s = Scheduler::new();
    s.init();
    s.add_process_as_runnable(proc_with(7, "shell", 1)).unwrap();
    assert_eq!(s.current_process_name(), "idle");
    s.switch().unwrap().unwrap();
    assert_eq!(s.current_process_name(), "shell");
}

#[test]
fn at_most_one_process_is_running_at_any_point() {
    let mut s = Scheduler::new();
    s.init();
    s.add_process_as_runnable(proc_with(1, "a", 1)).unwrap();
    s.add_process_as_runnable(proc_with(2, "b", 2)).unwrap();
    for _ in 0..5 {
        s.switch().unwrap();
        let mut running = Vec::new();
        for pid in 0..3u64 {
            if s.process_as_ref(pid).unwrap().status == Status::Running {
                running.push(pid);
            }
        }
        assert_eq!(running, vec![s.running()]);
    }
}
