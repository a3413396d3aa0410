//! The fixed-capacity ring buffer: pushes, pops, overwrite-on-full and the
//! length bookkeeping.

use rv64_emu::RingBuffer;
use rv64_emu::RingBufferError;

#[test]
fn test_new() {
    let rb: RingBuffer<u8> = RingBuffer::new(10);
    assert_eq!(rb.capacity(), 10);
    assert!(rb.is_empty());
    assert!(!rb.is_full());
}

#[test]
fn test_push_and_pop() {
    let mut rb = RingBuffer::new(3);
    assert!(rb.push(1).is_ok());
    assert!(rb.push(2).is_ok());
    assert!(rb.push(3).is_ok());
    assert!(rb.is_full());

    match rb.push(4) {
        Err(RingBufferError::Full) => (),
        _ => panic!("Expected Full error"),
    }

    assert_eq!(rb.pop().unwrap(), 1);
    assert_eq!(rb.pop().unwrap(), 2);
    assert_eq!(rb.pop().unwrap(), 3);
    assert!(rb.is_empty());

    match rb.pop() {
        Err(RingBufferError::Empty) => (),
        _ => panic!("Expected Empty error"),
    }
}

#[test]
fn test_overwrite() {
    let mut rb = RingBuffer::new(2);
    assert!(rb.push(1).is_ok());
    assert!(rb.push(2).is_ok());
    assert!(rb.is_full());

    assert_eq!(rb.pop().unwrap(), 1);
    assert!(!rb.is_full());
    assert!(rb.push(3).is_ok());
    assert!(rb.is_full());

    assert_eq!(rb.pop().unwrap(), 2);
    assert_eq!(rb.pop().unwrap(), 3);
    assert!(rb.is_empty());
}

#[test]
fn test_push_overwrite() {
    let mut rb = RingBuffer::new(3);
    rb.push_overwrite(1);
    rb.push_overwrite(2);
    rb.push_overwrite(3);
    assert!(rb.is_full());
    rb.push_overwrite(4);
    assert!(rb.is_full());
    assert_eq!(rb.pop().unwrap(), 2);
    assert_eq!(rb.pop().unwrap(), 3);
    assert_eq!(rb.pop().unwrap(), 4);
    assert!(rb.is_empty());
}

#[test]
fn test_len() {
    let mut rb = RingBuffer::new(5);
    assert_eq!(rb.len(), 0);
    rb.push(1).unwrap();
    assert_eq!(rb.len(), 1);
    rb.push(2).unwrap();
    assert_eq!(rb.len(), 2);
    rb.pop().unwrap();
    assert_eq!(rb.len(), 1);
    rb.push(3).unwrap();
    rb.push(4).unwrap();
    rb.push(5).unwrap();
    rb.push(6).unwrap();
    assert_eq!(rb.len(), 5);
    assert!(rb.is_full());
    rb.pop().unwrap();
    assert_eq!(rb.len(), 4);
}

#[test]
fn test_overwrite_keeps_most_recent_in_order() {
    let mut rb = RingBuffer::new(4);
    for v in 0..10u32 {
        rb.push_overwrite(v);
    }
    assert_eq!(rb.len(), 4);
    assert_eq!(rb.pop().unwrap(), 6);
    assert_eq!(rb.pop().unwrap(), 7);
    assert_eq!(rb.pop().unwrap(), 8);
    assert_eq!(rb.pop().unwrap(), 9);
    assert!(rb.is_empty());
}

#[test]
fn test_capacity_one_overwrite() {
    let mut rb = RingBuffer::new(1);
    rb.push_overwrite(5u8);
    rb.push_overwrite(6u8);
    assert_eq!(rb.len(), 1);
    assert_eq!(rb.pop().unwrap(), 6);
}
