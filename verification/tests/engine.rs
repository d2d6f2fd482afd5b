use rb::{RbError, RbInspector, Ring};

#[test]
fn new_ring_is_empty_with_full_capacity() {
    let ring: Ring<u32> = Ring::new(5, 0);
    assert_eq!(ring.capacity(), 5);
    assert_eq!(ring.count(), 0);
    assert_eq!(ring.slots_free(), 5);
    assert!(ring.is_empty());
    assert!(!ring.is_full());
}

#[test]
fn ring_of_no_capacity_is_empty_and_full() {
    let mut ring: Ring<u8> = Ring::new(0, 0);
    assert_eq!(ring.capacity(), 0);
    assert!(ring.is_empty());
    assert!(ring.is_full());
    assert_eq!(ring.write(&[1]), Err(RbError::Full));
    let mut out = [7u8];
    assert_eq!(ring.read(&mut out), Err(RbError::Empty));
    assert_eq!(out, [7]);
}

#[test]
fn slots_free_when_write_cursor_is_ahead() {
    // cursors: read 2, write 4, of 8 slots: free = 7 - 4 + 2
    let mut ring: Ring<u8> = Ring::new(7, 0);
    assert_eq!(ring.write(&[1, 2, 3, 4]), Ok(4));
    assert_eq!(ring.skip(2), Ok(2));
    assert_eq!(ring.slots_free(), 5);
    assert_eq!(ring.count(), 2);
}

#[test]
fn slots_free_when_write_cursor_has_wrapped() {
    // cursors: read 6, write 2, of 8 slots: free = 6 - 2 - 1
    let mut ring: Ring<u8> = Ring::new(7, 0);
    assert_eq!(ring.write(&[0; 7]), Ok(7));
    assert_eq!(ring.skip(6), Ok(6));
    assert_eq!(ring.write(&[1, 2, 3]), Ok(3));
    assert_eq!(ring.slots_free(), 3);
    assert_eq!(ring.count(), 4);
}

#[test]
fn count_and_free_add_up_to_capacity_at_every_step() {
    let mut ring: Ring<u16> = Ring::new(5, 0);
    let mut out = [0u16; 3];
    for round in 0..20u16 {
        let _ = ring.write(&[round, round + 1, round + 2, round + 3]);
        assert_eq!(ring.count() + ring.slots_free(), ring.capacity());
        let _ = ring.read(&mut out);
        assert_eq!(ring.count() + ring.slots_free(), ring.capacity());
        assert_eq!(ring.capacity(), 5);
    }
}

#[test]
fn write_stores_no_more_than_is_free() {
    let mut ring: Ring<u8> = Ring::new(4, 0);
    assert_eq!(ring.write(&[1, 2, 3]), Ok(3));
    assert_eq!(ring.write(&[4, 5, 6, 7, 8]), Ok(1));
    assert!(ring.is_full());
    let mut out = [0u8; 8];
    assert_eq!(ring.read(&mut out), Ok(4));
    assert_eq!(out, [1, 2, 3, 4, 0, 0, 0, 0]);
}

#[test]
fn read_and_get_yield_no_more_than_is_pending() {
    let mut ring: Ring<u8> = Ring::new(4, 0);
    assert_eq!(ring.write(&[1, 2]), Ok(2));
    let mut out = [9u8; 6];
    assert_eq!(ring.get(&mut out), Ok(2));
    assert_eq!(out, [1, 2, 9, 9, 9, 9]);
    let mut out = [8u8; 6];
    assert_eq!(ring.read(&mut out), Ok(2));
    assert_eq!(out, [1, 2, 8, 8, 8, 8]);
    assert!(ring.is_empty());
}

#[test]
fn get_twice_yields_the_same() {
    let mut ring: Ring<u8> = Ring::new(3, 0);
    assert_eq!(ring.write(&[1, 2, 3]), Ok(3));
    assert_eq!(ring.skip(2), Ok(2));
    assert_eq!(ring.write(&[4, 5]), Ok(2));
    let mut first = [0u8; 2];
    let mut second = [0u8; 2];
    assert_eq!(ring.get(&mut first), Ok(2));
    assert_eq!(ring.get(&mut second), Ok(2));
    assert_eq!(first, [3, 4]);
    assert_eq!(second, first);
    assert_eq!(ring.get(&mut first), Ok(2));
    assert_eq!(first, [3, 4]);
    assert_eq!(ring.count(), 3);
}

#[test]
fn read_is_get_then_skip() {
    let mut by_read: Ring<u8> = Ring::new(4, 0);
    let mut by_get: Ring<u8> = Ring::new(4, 0);
    for ring in [&mut by_read, &mut by_get] {
        assert_eq!(ring.write(&[1, 2, 3]), Ok(3));
        assert_eq!(ring.skip(2), Ok(2));
        assert_eq!(ring.write(&[4, 5, 6]), Ok(3));
    }
    let mut a = [0u8; 3];
    let mut b = [0u8; 3];
    let read = by_read.read(&mut a);
    let got = by_get.get(&mut b);
    assert_eq!(read, Ok(3));
    assert_eq!(got, read);
    assert_eq!(a, [3, 4, 5]);
    assert_eq!(b, a);
    assert_eq!(by_get.skip(3), Ok(3));
    assert_eq!(by_get.count(), by_read.count());
    assert_eq!(by_get.slots_free(), by_read.slots_free());
    let mut rest_a = [0u8; 4];
    let mut rest_b = [0u8; 4];
    assert_eq!(by_read.read(&mut rest_a), Ok(1));
    assert_eq!(by_get.read(&mut rest_b), Ok(1));
    assert_eq!(rest_a, [6, 0, 0, 0]);
    assert_eq!(rest_b, rest_a);
}

#[test]
fn data_crosses_the_end_of_the_store_in_order() {
    let mut ring: Ring<u8> = Ring::new(2, 0);
    assert_eq!(ring.write(&[10, 11]), Ok(2));
    let mut one = [0u8; 1];
    assert_eq!(ring.read(&mut one), Ok(1));
    assert_eq!(one, [10]);
    assert_eq!(ring.write(&[12, 13]), Ok(1));
    let mut three = [0u8; 3];
    assert_eq!(ring.read(&mut three), Ok(2));
    assert_eq!(three, [11, 12, 0]);
    assert!(ring.is_empty());
}

#[test]
fn long_history_loses_and_doubles_nothing() {
    let mut ring: Ring<u32> = Ring::new(7, 0);
    let mut written: Vec<u32> = Vec::new();
    let mut read: Vec<u32> = Vec::new();
    let mut next = 0u32;
    for round in 0..200usize {
        let want = round % 5 + 1;
        let chunk: Vec<u32> = (0..want as u32).map(|i| next + i).collect();
        if let Ok(n) = ring.write(&chunk) {
            written.extend_from_slice(&chunk[..n]);
            next += n as u32;
        }
        let mut out = vec![0u32; round % 4 + 1];
        if let Ok(n) = ring.read(&mut out) {
            read.extend_from_slice(&out[..n]);
        }
    }
    let mut rest = vec![0u32; 7];
    let n = ring.read(&mut rest).unwrap_or(0);
    read.extend_from_slice(&rest[..n]);
    assert_eq!(read, written);
    assert!(ring.is_empty());
}

#[test]
fn zero_length_transfers_change_nothing() {
    let mut ring: Ring<u8> = Ring::new(1, 0);
    let nothing: [u8; 0] = [];
    let mut nowhere: [u8; 0] = [];
    assert_eq!(ring.write(&nothing), Ok(0));
    assert_eq!(ring.read(&mut nowhere), Ok(0));
    assert_eq!(ring.get(&mut nowhere), Ok(0));
    assert_eq!(ring.push(&nothing), 0);
    assert_eq!(ring.pull(&mut nowhere), 0);
    assert!(ring.is_empty());
    assert_eq!(ring.write(&[5]), Ok(1));
    assert_eq!(ring.write(&nothing), Ok(0));
    assert_eq!(ring.read(&mut nowhere), Ok(0));
    assert_eq!(ring.count(), 1);
}

#[test]
fn full_and_empty_are_signalled() {
    let mut ring: Ring<u8> = Ring::new(1, 0);
    let mut out = [42u8];
    assert_eq!(ring.read(&mut out), Err(RbError::Empty));
    assert_eq!(ring.get(&mut out), Err(RbError::Empty));
    assert_eq!(ring.skip(1), Err(RbError::Empty));
    assert_eq!(ring.skip_pending(), Err(RbError::Empty));
    assert_eq!(out, [42]);
    assert_eq!(ring.write(&[1]), Ok(1));
    assert_eq!(ring.write(&[2]), Err(RbError::Full));
    assert_eq!(ring.read(&mut out), Ok(1));
    assert_eq!(out, [1]);
}

#[test]
fn skip_takes_at_most_what_is_pending() {
    let mut ring: Ring<u8> = Ring::new(4, 0);
    assert_eq!(ring.write(&[1, 2, 3]), Ok(3));
    assert_eq!(ring.skip(0), Ok(0));
    assert_eq!(ring.count(), 3);
    assert_eq!(ring.skip(1), Ok(1));
    assert_eq!(ring.skip(10), Ok(2));
    assert!(ring.is_empty());
}

#[test]
fn skip_of_a_full_ring_empties_it() {
    let mut ring: Ring<u8> = Ring::new(4, 0);
    assert_eq!(ring.write(&[1, 2, 3, 4]), Ok(4));
    assert_eq!(ring.skip(4), Ok(4));
    assert!(ring.is_empty());
    assert_eq!(ring.slots_free(), 4);
}

#[test]
fn skip_pending_returns_what_was_pending() {
    let mut ring: Ring<u8> = Ring::new(4, 0);
    assert_eq!(ring.write(&[1, 2, 3]), Ok(3));
    assert_eq!(ring.skip_pending(), Ok(3));
    assert!(ring.is_empty());
    assert_eq!(ring.write(&[4, 5, 6, 7]), Ok(4));
    assert_eq!(ring.skip_pending(), Ok(4));
    assert_eq!(ring.skip_pending(), Err(RbError::Empty));
}

#[test]
fn clear_empties_the_ring() {
    let mut ring: Ring<u8> = Ring::new(3, 0);
    assert_eq!(ring.write(&[1, 2]), Ok(2));
    ring.clear(0);
    assert!(ring.is_empty());
    assert_eq!(ring.capacity(), 3);
    assert_eq!(ring.write(&[7, 8, 9]), Ok(3));
    let mut out = [0u8; 3];
    assert_eq!(ring.read(&mut out), Ok(3));
    assert_eq!(out, [7, 8, 9]);
}

#[test]
fn push_stores_what_fits_and_nothing_when_full() {
    let mut ring: Ring<u8> = Ring::new(2, 0);
    assert_eq!(ring.push(&[1, 2, 3]), 2);
    assert_eq!(ring.push(&[4]), 0);
    let mut out = [0u8; 2];
    assert_eq!(ring.peek(&mut out), 2);
    assert_eq!(out, [1, 2]);
    assert_eq!(ring.pull(&mut out), 2);
    assert_eq!(ring.pull(&mut out), 0);
    assert_eq!(out, [1, 2]);
}

#[test]
fn after_a_wait_for_space() {
    let mut ring: Ring<u8> = Ring::new(2, 0);
    assert_eq!(ring.push_after_wait(&[1, 2], true), Ok(Some(2)));
    assert_eq!(ring.push_after_wait(&[3], true), Err(RbError::TimedOut));
    assert_eq!(ring.push_after_wait(&[3], false), Ok(Some(0)));
    assert_eq!(ring.count(), 2);
}

#[test]
fn after_a_wait_for_data() {
    let mut ring: Ring<u8> = Ring::new(2, 0);
    let mut out = [9u8; 2];
    assert_eq!(ring.pull_after_wait(&mut out, true), Err(RbError::TimedOut));
    assert_eq!(ring.pull_after_wait(&mut out, false), Ok(Some(0)));
    assert_eq!(out, [9, 9]);
    assert_eq!(ring.write(&[1]), Ok(1));
    assert_eq!(ring.pull_after_wait(&mut out, true), Ok(Some(1)));
    assert_eq!(out, [1, 9]);
}

#[test]
fn error_messages() {
    assert_eq!(RbError::Full.message(), "No free slots in the buffer");
    assert_eq!(RbError::Empty.message(), "Buffer is empty");
    assert_eq!(RbError::TimedOut.message(), "Timed out");
}

#[test]
fn answers_within_the_capacity_are_the_ring_s_own() {
    let mut ring: Ring<u8> = Ring::new(4, 0);
    assert!(ring.is_empty_within(4));
    assert!(!ring.is_full_within(4));
    assert_eq!(ring.slots_free_within(4), 4);
    assert_eq!(ring.count_within(4), 0);
    assert_eq!(ring.write(&[1, 2, 3]), Ok(3));
    assert_eq!(ring.slots_free_within(4), ring.slots_free());
    assert_eq!(ring.count_within(4), ring.count());
    assert_eq!(ring.count_within(4), 3);
    assert!(!ring.is_empty_within(4));
    assert!(!ring.is_full_within(4));
    assert_eq!(ring.write(&[4]), Ok(1));
    assert!(ring.is_full_within(4));
    assert_eq!(ring.count_within(4), 4);
    let mut out = [0u8; 4];
    assert_eq!(ring.read(&mut out), Ok(4));
    assert!(ring.is_empty_within(4));
}

#[test]
fn answers_within_a_smaller_limit_are_held_to_it() {
    // 5 of 7 slots are free
    let mut ring: Ring<u8> = Ring::new(7, 0);
    assert_eq!(ring.write(&[1, 2]), Ok(2));
    assert_eq!(ring.slots_free_within(3), 3);
    assert_eq!(ring.count_within(3), 0);
    assert!(ring.is_empty_within(3));
    assert!(!ring.is_full_within(3));
    assert_eq!(ring.slots_free_within(6), 5);
    assert_eq!(ring.count_within(6), 1);
    assert!(!ring.is_empty_within(6));
    assert_eq!(ring.slots_free_within(0), 0);
    assert_eq!(ring.count_within(0), 0);
    assert!(ring.is_empty_within(0));
    assert!(ring.is_full_within(0));
}
