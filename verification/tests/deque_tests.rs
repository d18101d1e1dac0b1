use riscv::fixed_size_deque::FixedSizeDeque;

#[test]
fn deque_starts_empty() {
    let d: FixedSizeDeque<u32> = FixedSizeDeque::new();
    assert_eq!(d.len(), 0);
    assert_eq!(d.capacity(), 5);
    assert_eq!(d.back(), None);
}

#[test]
fn deque_push_back_pop_front_is_fifo() {
    let mut d: FixedSizeDeque<u32> = FixedSizeDeque::new();
    for v in 1..=5u32 {
        assert!(d.push_back(v * 10));
        assert_eq!(d.back(), Some(v * 10));
    }
    assert_eq!(d.len(), 5);
    assert!(!d.push_back(60), "a full ring refuses a push");
    assert_eq!(d.pop_front(), Some(10));
    assert_eq!(d.pop_front(), Some(20));
    assert!(d.push_back(60), "room again after pops");
    assert_eq!(d.pop_front(), Some(30));
    assert_eq!(d.pop_front(), Some(40));
    assert_eq!(d.pop_front(), Some(50));
    assert_eq!(d.pop_front(), Some(60));
    assert_eq!(d.pop_front(), None);
}

#[test]
fn deque_push_front_prepends() {
    let mut d: FixedSizeDeque<u32> = FixedSizeDeque::new();
    assert!(d.push_back(2));
    assert!(d.push_front(1));
    assert!(d.push_back(3));
    assert_eq!(d.len(), 3);
    assert_eq!(d.pop_front(), Some(1));
    assert_eq!(d.pop_front(), Some(2));
    assert_eq!(d.pop_front(), Some(3));
    let mut full: FixedSizeDeque<u32> = FixedSizeDeque::new();
    for v in 0..5u32 {
        assert!(full.push_front(v));
    }
    assert!(!full.push_front(9), "a full ring refuses a front push too");
}

#[test]
fn deque_truncate_keeps_the_oldest() {
    let mut d: FixedSizeDeque<u32> = FixedSizeDeque::new();
    for v in 1..=4u32 {
        d.push_back(v);
    }
    d.truncate(9);
    assert_eq!(d.len(), 4, "truncating beyond the length changes nothing");
    d.truncate(2);
    assert_eq!(d.len(), 2);
    assert_eq!(d.back(), Some(2));
    assert_eq!(d.pop_front(), Some(1));
    assert_eq!(d.pop_front(), Some(2));
    assert_eq!(d.pop_front(), None);
}

#[test]
fn deque_clear_empties() {
    let mut d: FixedSizeDeque<u32> = FixedSizeDeque::new();
    d.push_back(7);
    d.push_back(8);
    d.clear();
    assert_eq!(d.len(), 0);
    assert_eq!(d.pop_front(), None);
    assert!(d.push_back(9));
    assert_eq!(d.pop_front(), Some(9));
}

#[test]
fn deque_wraps_around_the_ring() {
    let mut d: FixedSizeDeque<u32> = FixedSizeDeque::new();
    for round in 0..7u32 {
        assert!(d.push_back(round));
        assert_eq!(d.pop_front(), Some(round));
    }
    assert_eq!(d.len(), 0);
}
