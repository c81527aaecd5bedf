use unicycle::{Shared, Step, Unordered};

/// A task that completes with `out` on its `left`-th advance, waking itself after
/// each earlier advance when `wakes` is set.
struct Countdown {
    left: u32,
    out: u32,
    wakes: bool,
}

fn task(left: u32, out: u32) -> Countdown {
    Countdown { left, out, wakes: true }
}

#[derive(Debug, PartialEq)]
enum Polled {
    Ready(u32),
    Pending,
    End,
}

/// One poll call: the caller's side of the cycle, advancing each listed task once.
fn poll(u: &mut Unordered<Countdown, u32>, sh: &mut Shared<u32>, key: u64) -> Polled {
    match u.begin_poll(sh, key, &0u32) {
        Step::Ready(v) => Polled::Ready(v),
        Step::End => Polled::End,
        Step::Work(list) => {
            for index in list {
                let done = match u.task_mut(index) {
                    Some(t) => {
                        if t.left <= 1 {
                            Some(t.out)
                        } else {
                            t.left -= 1;
                            if t.wakes {
                                sh.wake(index);
                            }
                            None
                        }
                    }
                    None => None,
                };
                if let Some(out) = done {
                    u.complete(index, out);
                }
            }
            match u.finish_poll() {
                Some(v) => Polled::Ready(v),
                None => Polled::Pending,
            }
        }
    }
}

#[test]
fn empty_engine_ends_on_first_poll() {
    let mut u: Unordered<Countdown, u32> = Unordered::new();
    let mut sh: Shared<u32> = Shared::new();
    assert!(u.is_empty());
    assert_eq!(poll(&mut u, &mut sh, 1), Polled::End);
    assert_eq!(poll(&mut u, &mut sh, 1), Polled::End);
}

#[test]
fn single_immediate_task_then_end() {
    let mut u: Unordered<Countdown, u32> = Unordered::new();
    let mut sh: Shared<u32> = Shared::new();
    u.push(Countdown { left: 1, out: 7, wakes: false });
    assert!(!u.is_empty());
    assert_eq!(poll(&mut u, &mut sh, 1), Polled::Ready(7));
    assert!(u.is_empty());
    assert_eq!(poll(&mut u, &mut sh, 1), Polled::End);
    assert_eq!(poll(&mut u, &mut sh, 1), Polled::End);
}

#[test]
fn two_complete_one_outstanding() {
    let mut u: Unordered<Countdown, u32> = Unordered::new();
    let mut sh: Shared<u32> = Shared::new();
    u.push(task(1, 10));
    u.push(task(3, 20));
    u.push(Countdown { left: u32::MAX, out: 30, wakes: false });
    let mut got = Vec::new();
    for _ in 0..20 {
        assert!(!u.is_empty());
        match poll(&mut u, &mut sh, 1) {
            Polled::Ready(v) => got.push(v),
            Polled::Pending => {}
            Polled::End => panic!("ended with a task outstanding"),
        }
        assert!(!u.is_empty());
    }
    got.sort();
    assert_eq!(got, vec![10, 20]);
    for _ in 0..5 {
        assert_eq!(poll(&mut u, &mut sh, 1), Polled::Pending);
        assert!(!u.is_empty());
    }
}

#[test]
fn every_output_delivered_once() {
    let mut u: Unordered<Countdown, u32> = Unordered::new();
    let mut sh: Shared<u32> = Shared::new();
    let mut got = Vec::new();
    for round in 0..4u32 {
        for k in 0..5u32 {
            u.push(task(k % 3 + 1, round * 10 + k));
        }
        if let Polled::Ready(v) = poll(&mut u, &mut sh, 1) {
            got.push(v);
        }
    }
    loop {
        match poll(&mut u, &mut sh, 1) {
            Polled::Ready(v) => got.push(v),
            Polled::Pending => {}
            Polled::End => break,
        }
    }
    got.sort();
    let mut want: Vec<u32> = Vec::new();
    for round in 0..4u32 {
        for k in 0..5u32 {
            want.push(round * 10 + k);
        }
    }
    assert_eq!(got, want);
}

#[test]
fn queued_outputs_come_out_one_per_poll() {
    let mut u: Unordered<Countdown, u32> = Unordered::new();
    let mut sh: Shared<u32> = Shared::new();
    u.push(Countdown { left: 1, out: 1, wakes: false });
    u.push(Countdown { left: 1, out: 2, wakes: false });
    u.push(Countdown { left: 1, out: 3, wakes: false });
    assert_eq!(poll(&mut u, &mut sh, 1), Polled::Ready(1));
    assert!(u.is_empty());
    assert_eq!(poll(&mut u, &mut sh, 1), Polled::Ready(2));
    assert_eq!(poll(&mut u, &mut sh, 1), Polled::Ready(3));
    assert_eq!(poll(&mut u, &mut sh, 1), Polled::End);
}

#[test]
fn immediate_task_needs_no_wakeup() {
    let mut u: Unordered<Countdown, u32> = Unordered::new();
    let mut sh: Shared<u32> = Shared::new();
    u.push(Countdown { left: 1, out: 5, wakes: false });
    match u.begin_poll(&mut sh, 1, &0u32) {
        Step::Work(list) => assert_eq!(list, vec![0]),
        _ => panic!("expected a work list"),
    }
    assert!(u.task_mut(0).is_some());
    u.complete(0, 5);
    assert!(u.task_mut(0).is_none());
    assert_eq!(u.finish_poll(), Some(5));
    assert_eq!(u.finish_poll(), None);
}

#[test]
fn wakeup_during_cycle_reaches_next_cycle() {
    let mut u: Unordered<Countdown, u32> = Unordered::new();
    let mut sh: Shared<u32> = Shared::new();
    u.push(Countdown { left: u32::MAX, out: 0, wakes: false });
    u.push(Countdown { left: u32::MAX, out: 1, wakes: false });
    match u.begin_poll(&mut sh, 1, &0u32) {
        Step::Work(list) => assert_eq!(list, vec![0, 1]),
        _ => panic!("expected a work list"),
    }
    // A wakeup of slot 1 lands while the cycle is under way.
    assert!(sh.wake(1));
    assert_eq!(u.finish_poll(), None);
    match u.begin_poll(&mut sh, 1, &0u32) {
        Step::Work(list) => assert_eq!(list, vec![1]),
        _ => panic!("expected a work list"),
    }
    assert_eq!(u.finish_poll(), None);
    match u.begin_poll(&mut sh, 1, &0u32) {
        Step::Work(list) => assert!(list.is_empty()),
        _ => panic!("expected a work list"),
    }
}

#[test]
fn repeated_wakeups_give_one_entry() {
    let mut u: Unordered<Countdown, u32> = Unordered::new();
    let mut sh: Shared<u32> = Shared::new();
    for k in 0..3u32 {
        u.push(Countdown { left: u32::MAX, out: k, wakes: false });
    }
    assert_eq!(poll(&mut u, &mut sh, 1), Polled::Pending);
    assert!(sh.wake(2));
    assert!(sh.wake(0));
    assert!(sh.wake(2));
    match u.begin_poll(&mut sh, 1, &0u32) {
        Step::Work(list) => assert_eq!(list, vec![0, 2]),
        _ => panic!("expected a work list"),
    }
}

#[test]
fn wakeup_of_unknown_slot_is_not_recorded() {
    let mut sh: Shared<u32> = Shared::new();
    assert!(!sh.wake(0));
    assert!(!sh.wake(1000));
}

#[test]
fn same_waker_is_not_replaced() {
    let mut u: Unordered<Countdown, u32> = Unordered::new();
    let mut sh: Shared<u32> = Shared::new();
    u.push(Countdown { left: u32::MAX, out: 0, wakes: false });
    assert_eq!(sh.waker.replacements(), 0);
    assert_eq!(poll(&mut u, &mut sh, 9), Polled::Pending);
    assert_eq!(sh.waker.replacements(), 1);
    assert_eq!(poll(&mut u, &mut sh, 9), Polled::Pending);
    assert_eq!(poll(&mut u, &mut sh, 9), Polled::Pending);
    assert_eq!(sh.waker.replacements(), 1);
    assert_eq!(poll(&mut u, &mut sh, 4), Polled::Pending);
    assert_eq!(sh.waker.replacements(), 2);
    assert!(sh.waker.is_woken_by(4));
    assert!(!sh.waker.is_woken_by(9));
}

#[test]
fn waker_not_registered_without_tasks() {
    let mut u: Unordered<Countdown, u32> = Unordered::new();
    let mut sh: Shared<u32> = Shared::new();
    assert_eq!(poll(&mut u, &mut sh, 3), Polled::End);
    assert_eq!(sh.waker.replacements(), 0);
    assert!(sh.waker.get().is_none());
}

#[test]
fn freed_slot_is_reused() {
    let mut u: Unordered<Countdown, u32> = Unordered::new();
    let mut sh: Shared<u32> = Shared::new();
    u.push(Countdown { left: 1, out: 1, wakes: false });
    u.push(Countdown { left: u32::MAX, out: 2, wakes: false });
    assert_eq!(poll(&mut u, &mut sh, 1), Polled::Ready(1));
    u.push(Countdown { left: 1, out: 3, wakes: false });
    match u.begin_poll(&mut sh, 1, &0u32) {
        Step::Work(list) => assert_eq!(list, vec![0]),
        _ => panic!("expected a work list"),
    }
}
