use eigenplayer::ring::RingBuffer;

#[test]
fn ring_push_then_pop_is_first_in_first_out() {
    let mut ring = RingBuffer::new(4);
    assert_eq!(ring.capacity(), 4);
    assert!(ring.is_empty());
    assert_eq!(ring.push(10), Ok(()));
    assert_eq!(ring.push(20), Ok(()));
    assert_eq!(ring.push(30), Ok(()));
    assert_eq!(ring.len(), 3);
    assert_eq!(ring.pop(), Some(10));
    assert_eq!(ring.pop(), Some(20));
    assert_eq!(ring.pop(), Some(30));
    assert_eq!(ring.pop(), None);
    assert_eq!(ring.len(), 0);
}

#[test]
fn ring_push_on_full_returns_the_sample_and_keeps_contents() {
    let mut ring = RingBuffer::new(2);
    assert_eq!(ring.push(1), Ok(()));
    assert_eq!(ring.push(2), Ok(()));
    assert!(ring.is_full());
    assert_eq!(ring.push(3), Err(3));
    assert_eq!(ring.len(), 2);
    assert_eq!(ring.pop(), Some(1));
    assert_eq!(ring.pop(), Some(2));
    assert_eq!(ring.pop(), None);
}

#[test]
fn ring_never_reports_more_than_capacity() {
    let mut ring = RingBuffer::new(3);
    for round in 0..50u32 {
        let _ = ring.push(round);
        let _ = ring.push(round + 100);
        assert!(ring.len() <= ring.capacity());
        if round % 3 == 0 {
            let _ = ring.pop();
        }
        assert!(ring.len() <= 3);
    }
}

#[test]
fn ring_wraps_around_its_storage() {
    let mut ring = RingBuffer::new(3);
    for i in 0..10u32 {
        assert_eq!(ring.push(i), Ok(()));
        assert_eq!(ring.push(i + 1000), Ok(()));
        assert_eq!(ring.pop(), Some(i));
        assert_eq!(ring.pop(), Some(i + 1000));
        assert!(ring.is_empty());
    }
}

#[test]
fn ring_capacity_validity() {
    assert!(!RingBuffer::capacity_is_valid(0));
    assert!(RingBuffer::capacity_is_valid(1));
    assert!(RingBuffer::capacity_is_valid(4096));
    assert!(RingBuffer::capacity_is_valid(isize::MAX as usize / 4));
    assert!(!RingBuffer::capacity_is_valid(isize::MAX as usize / 4 + 1));
}
