use unicycle::pin_slab::PinSlab;
use unicycle::wake_set::{Access, SharedWakeSet, WakeSet};
use unicycle::waker::SharedWaker;
use unicycle::BitSet;

#[test]
fn bit_set_set_test_drain() {
    let mut s = BitSet::with_capacity(100);
    assert_eq!(s.capacity(), 128);
    s.set(3);
    s.set(64);
    s.set(99);
    s.set(3);
    assert!(s.test(3));
    assert!(s.test(64));
    assert!(!s.test(4));
    assert!(!s.test(1000));
    assert_eq!(s.drain(), vec![3, 64, 99]);
    assert!(!s.test(3));
    assert_eq!(s.drain(), Vec::<usize>::new());
    assert_eq!(s.capacity(), 128);
}

#[test]
fn bit_set_reserve_keeps_members() {
    let mut s = BitSet::new();
    assert_eq!(s.capacity(), 0);
    s.reserve(1);
    assert_eq!(s.capacity(), 64);
    s.set(63);
    s.reserve(65);
    assert_eq!(s.capacity(), 128);
    assert!(s.test(63));
    assert!(!s.test(64));
    s.reserve(10);
    assert_eq!(s.capacity(), 128);
    s.clear();
    assert!(!s.test(63));
    assert_eq!(s.capacity(), 128);
}

#[test]
fn slab_insert_remove_reuse() {
    let mut s: PinSlab<&str> = PinSlab::new();
    assert!(s.is_empty());
    assert_eq!(s.insert("a"), 0);
    assert_eq!(s.insert("b"), 1);
    assert!(!s.is_empty());
    assert!(s.remove(0));
    assert!(!s.remove(0));
    assert!(!s.remove(7));
    assert!(s.get_mut(0).is_none());
    assert_eq!(s.get_mut(1).map(|v| *v), Some("b"));
    assert_eq!(s.insert("c"), 0);
    if let Some(v) = s.get_mut(0) {
        *v = "d";
    }
    assert_eq!(s.get_mut(0).map(|v| *v), Some("d"));
    assert!(s.remove(0));
    assert!(s.remove(1));
    assert!(s.is_empty());
}

#[test]
fn wake_set_access_states() {
    let mut w = WakeSet::new();
    w.lock_write();
    w.reserve(10);
    assert_eq!(w.capacity(), 64);
    w.unlock_write();
    w.set(5);
    w.lock_write();
    assert_eq!(w.drain(), vec![5]);
    let _ = Access::Exclusive;
}

#[test]
fn shared_wake_set_cycle() {
    let mut s = SharedWakeSet::new();
    assert!(!s.notify(0));
    assert_eq!(s.cycle(3), Vec::<usize>::new());
    assert!(s.notify(3));
    assert!(s.notify(1));
    assert_eq!(s.cycle(70), vec![1, 3]);
    assert!(s.notify(70));
    assert_eq!(s.cycle(70), vec![70]);
    assert_eq!(s.cycle(70), Vec::<usize>::new());
}

#[test]
fn shared_waker_swap_counts() {
    let mut w: SharedWaker<&str> = SharedWaker::new();
    assert!(w.get().is_none());
    assert!(!w.is_woken_by(1));
    w.swap(1, "x");
    assert!(w.is_woken_by(1));
    assert_eq!(w.get(), Some(&"x"));
    w.swap(2, "y");
    assert_eq!(w.replacements(), 2);
    assert_eq!(w.get(), Some(&"y"));
}

#[test]
fn slab_grows_across_blocks() {
    let mut s: PinSlab<usize> = PinSlab::new();
    for k in 0..70usize {
        assert_eq!(s.insert(k * 10), k);
    }
    assert_eq!(s.get_mut(69).map(|v| *v), Some(690));
    assert_eq!(s.get_mut(32).map(|v| *v), Some(320));
    assert!(s.get_mut(70).is_none());
    assert!(s.remove(40));
    assert!(s.get_mut(40).is_none());
    assert_eq!(s.insert(7), 40);
    assert_eq!(s.get_mut(40).map(|v| *v), Some(7));
    assert_eq!(s.insert(8), 70);
    for k in 0..71usize {
        assert!(s.remove(k));
    }
    assert!(s.is_empty());
}
