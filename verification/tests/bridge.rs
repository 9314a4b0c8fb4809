use async_trait_poc::asynch::{settle, Poll};
use async_trait_poc::fifo::{Fifo, FIFO_DEPTH};

#[test]
fn success_completes_the_operation() {
    let attempt: nb::Result<u8, u16> = Ok(7);
    assert!(matches!(settle(attempt), Poll::Ready(Ok(7))));
}

#[test]
fn would_block_suspends_the_operation() {
    let attempt: nb::Result<u8, u16> = Err(nb::Error::WouldBlock);
    assert!(matches!(settle(attempt), Poll::Pending));
}

#[test]
fn peripheral_error_completes_the_operation() {
    let attempt: nb::Result<u8, u16> = Err(nb::Error::Other(404));
    assert!(matches!(settle(attempt), Poll::Ready(Err(404))));
}

#[test]
fn new_fifo_is_empty() {
    let fifo = Fifo::new();
    assert!(fifo.is_empty());
    assert!(!fifo.is_full());
    assert_eq!(fifo.len(), 0);
}

#[test]
fn fifo_hands_bytes_out_in_the_order_they_came() {
    let mut fifo = Fifo::new();
    for b in [9u8, 8, 7, 6] {
        fifo.push(b);
    }
    assert!(fifo.is_full());
    assert_eq!(fifo.len(), FIFO_DEPTH);
    assert_eq!(fifo.pop(), 9);
    assert_eq!(fifo.len(), 3);
    assert_eq!(fifo.pop(), 8);
    fifo.push(5);
    assert_eq!(fifo.pop(), 7);
    assert_eq!(fifo.pop(), 6);
    assert_eq!(fifo.pop(), 5);
    assert!(fifo.is_empty());
}

#[test]
fn fifo_slots_are_used_again() {
    let mut fifo = Fifo::new();
    for round in 0..20u8 {
        fifo.push(round);
        fifo.push(round.wrapping_add(100));
        assert_eq!(fifo.pop(), round);
        assert_eq!(fifo.pop(), round.wrapping_add(100));
        assert!(fifo.is_empty());
    }
}
