//! The ready-queue structure: strict priority order with FIFO tie-break,
//! and no aging.

use ramen::ready_queue::RunnablePids;

#[test]
fn pop_on_empty_returns_none() {
    let mut q = RunnablePids::new();
    assert_eq!(q.pop(), None);
}

#[test]
fn fifo_within_one_level() {
    let mut q = RunnablePids::new();
    q.push(10, 3);
    q.push(11, 3);
    q.push(12, 3);
    assert_eq!(q.pop(), Some(10));
    assert_eq!(q.pop(), Some(11));
    assert_eq!(q.pop(), Some(12));
    assert_eq!(q.pop(), None);
}

#[test]
fn lower_priority_value_is_served_first() {
    let mut q = RunnablePids::new();
    q.push(1, 5);
    q.push(2, 2);
    q.push(3, 7);
    q.push(4, 2);
    assert_eq!(q.pop(), Some(2));
    assert_eq!(q.pop(), Some(4));
    assert_eq!(q.pop(), Some(1));
    assert_eq!(q.pop(), Some(3));
}

#[test]
fn starvation_of_lower_priorities_is_by_design() {
    // a continuously re-pushed urgent PID starves a less urgent one
    let mut q = RunnablePids::new();
    q.push(9, 6);
    q.push(1, 0);
    for _ in 0..100 {
        let got = q.pop().unwrap();
        assert_eq!(got, 1);
        q.push(1, 0);
    }
}
