//! One ring shared by an owner, a producer and a consumer.
//!
//! The ring lives behind a lock, and every call of the owner or of a handle
//! that looks at the ring or changes it takes that lock for as long as it
//! works. What a call finds there depends on what the other side did in the
//! meantime, so the contracts of the handles state what holds of every
//! outcome; what a call does to the ring it found is stated by the function
//! of [`Ring`] that it calls while it holds the lock.

use vstd::prelude::*;
use std::sync::{Arc, Condvar, Mutex};
use std::time::Duration;
use crate::error::RbError;
use crate::ring::Ring;
use crate::sync::{guarded, guarded_mut, lock, share, wait, wait_timeout};
use crate::traits::{RbConsumer, RbInspector, RbProducer, RB};

verus! {

/// What the owner and the handles of one buffer have in common: the ring
/// behind its lock, and the two conditions that the blocking calls wait on.
#[verifier::reject_recursive_types(T)]
pub struct Shared<T> {
    ring: Mutex<Ring<T>>,
    /// Notified when a read has made room.
    slots_free: Condvar,
    /// Notified when a write has stored data.
    data_available: Condvar,
    capacity: usize,
}

/// A ring buffer for one producing and one consuming thread: the owner of the
/// shared state, which hands out the handles.
#[verifier::reject_recursive_types(T)]
pub struct SpscRb<T> {
    shared: Arc<Shared<T>>,
}

/// The writing side of an [`SpscRb`].
#[verifier::reject_recursive_types(T)]
pub struct Producer<T> {
    shared: Arc<Shared<T>>,
}

/// The reading side of an [`SpscRb`].
#[verifier::reject_recursive_types(T)]
pub struct Consumer<T> {
    shared: Arc<Shared<T>>,
}

impl<T> Shared<T> {
    /// The number of elements that the buffer was made for.
    pub closed spec fn capacity(&self) -> usize {
        self.capacity
    }
}

impl<T: Copy> Shared<T> {
    /// Number of elements that can be written before the ring is full, as
    /// the ring behind the lock has it at the moment of the call.
    ///
    /// The ring keeps the capacity that it was made with, which is the one
    /// stored beside the lock. Nothing that is known of a lock says what it
    /// holds, so the ring is asked for its answer within that capacity.
    fn slots_free(&self) -> (n: usize)
        ensures
            n <= self.capacity(),
    {
        let guard = lock(&self.ring);
        guarded(&guard).slots_free_within(self.capacity)
    }

    /// Number of elements that are pending at the moment of the call.
    fn count(&self) -> (n: usize)
        ensures
            n <= self.capacity(),
    {
        let guard = lock(&self.ring);
        guarded(&guard).count_within(self.capacity)
    }

    /// True if every slot is free at the moment of the call.
    fn is_empty(&self) -> (b: bool)
        ensures
            self.capacity() == 0 ==> b,
    {
        let guard = lock(&self.ring);
        guarded(&guard).is_empty_within(self.capacity)
    }

    /// True if no slot is free at the moment of the call.
    fn is_full(&self) -> (b: bool)
        ensures
            self.capacity() == 0 ==> b,
    {
        let guard = lock(&self.ring);
        guarded(&guard).is_full_within(self.capacity)
    }
}

impl<T> SpscRb<T> {
    /// The state that this owner shares with its handles.
    pub closed spec fn shared(&self) -> Shared<T> {
        *self.shared
    }
}

impl<T> Producer<T> {
    /// The state that this handle shares with its owner.
    pub closed spec fn shared(&self) -> Shared<T> {
        *self.shared
    }
}

impl<T> Consumer<T> {
    /// The state that this handle shares with its owner.
    pub closed spec fn shared(&self) -> Shared<T> {
        *self.shared
    }
}

impl<T: Clone + Copy + Default> SpscRb<T> {
    /// An empty buffer for `size` elements, its backing store filled with
    /// default values.
    pub fn new(size: usize) -> (rb: Self)
        requires
            size < usize::MAX,
        ensures
            rb.shared().capacity() == size,
    {
        SpscRb {
            shared: Arc::new(
                Shared {
                    ring: Mutex::new(Ring::new(size, T::default())),
                    slots_free: Condvar::new(),
                    data_available: Condvar::new(),
                    capacity: size,
                },
            ),
        }
    }
}

impl<T: Clone + Copy + Default> RB<T> for SpscRb<T> {
    fn clear(&self) {
        let fill = T::default();
        let mut guard = lock(&self.shared.ring);
        guarded_mut(&mut guard).clear(fill);
    }

    fn producer(&self) -> (p: Producer<T>)
        ensures
            p.shared() == self.shared(),
    {
        Producer { shared: share(&self.shared) }
    }

    fn consumer(&self) -> (c: Consumer<T>)
        ensures
            c.shared() == self.shared(),
    {
        Consumer { shared: share(&self.shared) }
    }
}

impl<T: Clone + Copy + Default> RbInspector for SpscRb<T> {
    fn is_empty(&self) -> (b: bool)
        ensures
            self.shared().capacity() == 0 ==> b,
    {
        self.shared.is_empty()
    }

    fn is_full(&self) -> (b: bool)
        ensures
            self.shared().capacity() == 0 ==> b,
    {
        self.shared.is_full()
    }

    fn capacity(&self) -> (n: usize)
        ensures
            n == self.shared().capacity(),
    {
        self.shared.capacity
    }

    fn slots_free(&self) -> (n: usize)
        ensures
            n <= self.shared().capacity(),
    {
        self.shared.slots_free()
    }

    fn count(&self) -> (n: usize)
        ensures
            n <= self.shared().capacity(),
    {
        self.shared.count()
    }
}

impl<T: Clone + Copy> RbInspector for Producer<T> {
    fn is_empty(&self) -> (b: bool)
        ensures
            self.shared().capacity() == 0 ==> b,
    {
        self.shared.is_empty()
    }

    fn is_full(&self) -> (b: bool)
        ensures
            self.shared().capacity() == 0 ==> b,
    {
        self.shared.is_full()
    }

    fn capacity(&self) -> (n: usize)
        ensures
            n == self.shared().capacity(),
    {
        self.shared.capacity
    }

    fn slots_free(&self) -> (n: usize)
        ensures
            n <= self.shared().capacity(),
    {
        self.shared.slots_free()
    }

    fn count(&self) -> (n: usize)
        ensures
            n <= self.shared().capacity(),
    {
        self.shared.count()
    }
}

impl<T: Clone + Copy> RbInspector for Consumer<T> {
    fn is_empty(&self) -> (b: bool)
        ensures
            self.shared().capacity() == 0 ==> b,
    {
        self.shared.is_empty()
    }

    fn is_full(&self) -> (b: bool)
        ensures
            self.shared().capacity() == 0 ==> b,
    {
        self.shared.is_full()
    }

    fn capacity(&self) -> (n: usize)
        ensures
            n == self.shared().capacity(),
    {
        self.shared.capacity
    }

    fn slots_free(&self) -> (n: usize)
        ensures
            n <= self.shared().capacity(),
    {
        self.shared.slots_free()
    }

    fn count(&self) -> (n: usize)
        ensures
            n <= self.shared().capacity(),
    {
        self.shared.count()
    }
}

impl<T: Clone + Copy> RbProducer<T> for Producer<T> {
    fn write(&self, data: &[T]) -> (res: Result<usize, RbError>) {
        if data.len() == 0 {
            return Ok(0);
        }
        let mut guard = lock(&self.shared.ring);
        let res = guarded_mut(&mut guard).write(data);
        if res.is_ok() {
            self.shared.data_available.notify_one();
        }
        res
    }

    fn write_blocking(&self, data: &[T]) -> (res: Option<usize>) {
        if data.len() == 0 {
            return None;
        }
        let mut guard = lock(&self.shared.ring);
        if guarded(&guard).is_full() {
            guard = wait(&self.shared.slots_free, guard);
        }
        let cnt = guarded_mut(&mut guard).push(data);
        self.shared.data_available.notify_one();
        Some(cnt)
    }

    fn write_blocking_timeout(&self, data: &[T], timeout: Duration) -> (res: Result<
        Option<usize>,
        RbError,
    >) {
        if data.len() == 0 {
            return Ok(None);
        }
        let mut guard = lock(&self.shared.ring);
        let mut timed_out = false;
        if guarded(&guard).is_full() {
            let (woken, outcome) = wait_timeout(&self.shared.slots_free, guard, timeout);
            guard = woken;
            timed_out = outcome.timed_out();
        }
        let res = guarded_mut(&mut guard).push_after_wait(data, timed_out);
        if res.is_ok() {
            self.shared.data_available.notify_one();
        }
        res
    }
}

impl<T: Clone + Copy> RbConsumer<T> for Consumer<T> {
    fn skip_pending(&self) -> (res: Result<usize, RbError>) {
        let mut guard = lock(&self.shared.ring);
        guarded_mut(&mut guard).skip_pending()
    }

    fn skip(&self, cnt: usize) -> (res: Result<usize, RbError>) {
        let mut guard = lock(&self.shared.ring);
        guarded_mut(&mut guard).skip(cnt)
    }

    fn get(&self, data: &mut [T]) -> (res: Result<usize, RbError>) {
        if data.len() == 0 {
            return Ok(0);
        }
        let guard = lock(&self.shared.ring);
        guarded(&guard).get(data)
    }

    fn read(&self, data: &mut [T]) -> (res: Result<usize, RbError>) {
        if data.len() == 0 {
            return Ok(0);
        }
        let mut guard = lock(&self.shared.ring);
        let res = guarded_mut(&mut guard).read(data);
        if res.is_ok() {
            self.shared.slots_free.notify_one();
        }
        res
    }

    fn read_blocking(&self, data: &mut [T]) -> (res: Option<usize>) {
        if data.len() == 0 {
            return None;
        }
        let mut guard = lock(&self.shared.ring);
        if guarded(&guard).is_empty() {
            guard = wait(&self.shared.data_available, guard);
        }
        let cnt = guarded_mut(&mut guard).pull(data);
        self.shared.slots_free.notify_one();
        Some(cnt)
    }

    fn read_blocking_timeout(&self, data: &mut [T], timeout: Duration) -> (res: Result<
        Option<usize>,
        RbError,
    >) {
        if data.len() == 0 {
            return Ok(None);
        }
        let mut guard = lock(&self.shared.ring);
        let mut timed_out = false;
        if guarded(&guard).is_empty() {
            let (woken, outcome) = wait_timeout(&self.shared.data_available, guard, timeout);
            guard = woken;
            timed_out = outcome.timed_out();
        }
        let res = guarded_mut(&mut guard).pull_after_wait(data, timed_out);
        if res.is_ok() {
            self.shared.slots_free.notify_one();
        }
        res
    }
}

} // verus!
