use sundry::ring_buffer::{make_box, RingBuffer};

#[test]
fn fill_queue() {
    let mut q = RingBuffer::new(2);
    assert!(q.write(1));
    assert!(!q.write(2));
}

#[test]
fn reading_empty_queue_returns_none() {
    let mut q = RingBuffer::new(4);
    assert_eq!(q.read(), None);
}

#[test]
fn read_one_value_from_queue() {
    let mut q = RingBuffer::new(4);
    q.write(1);
    assert_eq!(q.read(), Some(1));
    assert_eq!(q.read(), None);
}

#[test]
fn read_five_writes() {
    let mut q = RingBuffer::new(8);
    for n in 1..=5 {
        assert!(q.write(n));
    }

    for n in 1..=5 {
        assert_eq!(q.read(), Some(n));
    }
    assert_eq!(q.read(), None);
}

#[test]
fn read_write_modulo() {
    let mut q = RingBuffer::new(6);
    for n in 1..=5 {
        assert!(q.write(n));
    }

    for n in 1..=5 {
        assert_eq!(q.read(), Some(n));
    }
    assert_eq!(q.read(), None);

    assert!(q.write(6));
    assert!(q.write(7));
    assert!(q.write(8));
    assert_eq!(q.read(), Some(6));
    assert_eq!(q.read(), Some(7));
    assert_eq!(q.read(), Some(8));
}

#[test]
fn check_room_empty_queue() {
    let mut q = RingBuffer::new(2);
    assert!(q.has_room());
}

#[test]
fn check_room_half_full_queue() {
    let mut q = RingBuffer::new(3);
    assert!(q.write(1));
    assert!(q.has_room());
}

#[test]
fn check_room_full_queue() {
    let mut q = RingBuffer::new(2);
    assert!(q.write(1));
    assert!(!q.write(2));
    assert!(!q.has_room());
}

#[test]
fn peek_queue_between_writes() {
    let mut q = RingBuffer::new(4);
    assert!(q.write(1));
    assert_eq!(q.peek(), Some(1));
    assert!(q.write(2));
    assert!(q.write(3));
    assert_eq!(q.peek(), Some(1));
    assert_eq!(q.peek(), Some(1));
}

#[test]
fn make_box_gives_zeroes() {
    let b = make_box(5);
    assert_eq!(&*b, &[0u8, 0, 0, 0, 0]);
    assert_eq!(make_box(0).len(), 0);
}

#[test]
fn queue_of_n_slots_holds_n_minus_one() {
    let mut q = RingBuffer::new(5);
    for n in 0..4 {
        assert!(q.write(n));
        assert_eq!(q.len(), n as usize + 1);
    }
    assert!(!q.write(9));
    assert_eq!(q.len(), 4);
    assert_eq!(q.next(), Some(0));
    assert_eq!(q.len(), 3);
}

#[test]
fn queue_without_slots_is_empty() {
    let mut q = RingBuffer::new(0);
    assert_eq!(q.read(), None);
    assert_eq!(q.peek(), None);
    assert_eq!(q.len(), 0);
}

#[test]
fn queue_wraps_around_many_times() {
    let mut q = RingBuffer::new(3);
    for n in 0..50u8 {
        assert!(q.write(n));
        assert_eq!(q.peek(), Some(n));
        assert_eq!(q.read(), Some(n));
        assert_eq!(q.read(), None);
    }
}
