//! The operations of a ring, grouped by who may call them.

use vstd::prelude::*;
use std::time::Duration;
use crate::error::RbError;
use crate::spsc::{Consumer, Producer};

verus! {

/// Operations that look at a ring without changing it.
///
/// On the owner and the handles of a shared ring each of them but `capacity`
/// takes the lock of the ring for the moment of the call, so that it may
/// have to wait while the other side copies, and answers for that moment
/// only: by the time the caller looks at the answer, the other side may have
/// moved on.
pub trait RbInspector {
    /// True if nothing is pending.
    fn is_empty(&self) -> (b: bool);

    /// True if no slot is free.
    fn is_full(&self) -> (b: bool);

    /// Number of elements the ring can hold at once: the size it was made
    /// with.
    fn capacity(&self) -> (n: usize);

    /// Number of elements that can be written before the ring is full.
    fn slots_free(&self) -> (n: usize);

    /// Number of elements that are available to read.
    fn count(&self) -> (n: usize);
}

/// The writing side of a ring.
pub trait RbProducer<T> {
    /// Stores as many leading elements of `data` as fit and returns their
    /// number, without ever waiting for space. An empty `data` gives `Ok(0)`;
    /// otherwise a ring without a free slot gives `Full`, and any other ring
    /// takes at least one element.
    fn write(&self, data: &[T]) -> (res: Result<usize, RbError>)
        ensures
            data@.len() == 0 ==> res == Ok::<usize, RbError>(0),
            res matches Ok(n) ==> n <= data@.len() && (data@.len() > 0 ==> n >= 1),
            res matches Err(e) ==> e == RbError::Full && data@.len() > 0,
    ;

    /// As `write`, but where no slot is free it waits, once, until a read
    /// has made room or the thread wakes for another reason, and then stores
    /// what fits, which may be nothing. Returns `None`, at once, exactly if
    /// `data` is empty.
    fn write_blocking(&self, data: &[T]) -> (res: Option<usize>)
        ensures
            res is None <==> data@.len() == 0,
            res matches Some(n) ==> n <= data@.len(),
    ;

    /// As `write_blocking`, but waits no longer than `timeout`. Gives
    /// `TimedOut`, and stores nothing, where the time ran out and there still
    /// is no space.
    fn write_blocking_timeout(&self, data: &[T], timeout: Duration) -> (res: Result<
        Option<usize>,
        RbError,
    >)
        ensures
            res == Ok::<Option<usize>, RbError>(None) <==> data@.len() == 0,
            res matches Ok(Some(n)) ==> n <= data@.len(),
            res matches Err(e) ==> e == RbError::TimedOut,
    ;
}

/// The reading side of a ring.
pub trait RbConsumer<T> {
    /// Gives up everything that is pending and returns how much that was, at
    /// least one element; gives `Empty` where nothing is pending. It copies
    /// nothing, and takes the lock of the ring while it moves the cursor.
    fn skip_pending(&self) -> (res: Result<usize, RbError>)
        ensures
            res matches Ok(n) ==> n >= 1,
            res matches Err(e) ==> e == RbError::Empty,
    ;

    /// Gives up the `cnt` oldest pending elements, or all where fewer are
    /// pending, and returns their number; gives `Empty` where nothing is
    /// pending. It copies nothing, and takes the lock of the ring while it
    /// moves the cursor.
    fn skip(&self, cnt: usize) -> (res: Result<usize, RbError>)
        ensures
            res matches Ok(n) ==> n <= cnt && (cnt > 0 ==> n >= 1),
            res matches Err(e) ==> e == RbError::Empty,
    ;

    /// Copies the oldest pending elements to the front of `data`, as many as
    /// it can take, and returns their number. The elements stay pending, so
    /// that the next `get` yields them again. An empty `data` gives `Ok(0)`;
    /// otherwise a ring with nothing pending gives `Empty`. What lies behind
    /// the copied elements in `data` is left alone, and so is all of `data`
    /// on `Empty`.
    fn get(&self, data: &mut [T]) -> (res: Result<usize, RbError>)
        ensures
            final(data)@.len() == old(data)@.len(),
            old(data)@.len() == 0 ==> res == Ok::<usize, RbError>(0),
            res matches Ok(n) ==> {
                &&& n <= old(data)@.len()
                &&& old(data)@.len() > 0 ==> n >= 1
                &&& final(data)@.skip(n as int) == old(data)@.skip(n as int)
            },
            res matches Err(e) ==> {
                &&& e == RbError::Empty
                &&& old(data)@.len() > 0
                &&& final(data)@ == old(data)@
            },
    ;

    /// As `get`, and the elements copied are no longer pending.
    fn read(&self, data: &mut [T]) -> (res: Result<usize, RbError>)
        ensures
            final(data)@.len() == old(data)@.len(),
            old(data)@.len() == 0 ==> res == Ok::<usize, RbError>(0),
            res matches Ok(n) ==> {
                &&& n <= old(data)@.len()
                &&& old(data)@.len() > 0 ==> n >= 1
                &&& final(data)@.skip(n as int) == old(data)@.skip(n as int)
            },
            res matches Err(e) ==> {
                &&& e == RbError::Empty
                &&& old(data)@.len() > 0
                &&& final(data)@ == old(data)@
            },
    ;

    /// As `read`, but where nothing is pending it waits, once, until a write
    /// has stored data or the thread wakes for another reason, and then
    /// moves what is pending, which may be nothing. Returns `None`, at once,
    /// exactly if `data` is empty.
    fn read_blocking(&self, data: &mut [T]) -> (res: Option<usize>)
        ensures
            final(data)@.len() == old(data)@.len(),
            res is None <==> old(data)@.len() == 0,
            res matches Some(n) ==> {
                &&& n <= old(data)@.len()
                &&& final(data)@.skip(n as int) == old(data)@.skip(n as int)
            },
    ;

    /// As `read_blocking`, but waits no longer than `timeout`. Gives
    /// `TimedOut`, and leaves `data` alone, where the time ran out and still
    /// nothing is pending.
    fn read_blocking_timeout(&self, data: &mut [T], timeout: Duration) -> (res: Result<
        Option<usize>,
        RbError,
    >)
        ensures
            final(data)@.len() == old(data)@.len(),
            res == Ok::<Option<usize>, RbError>(None) <==> old(data)@.len() == 0,
            res matches Ok(Some(n)) ==> {
                &&& n <= old(data)@.len()
                &&& final(data)@.skip(n as int) == old(data)@.skip(n as int)
            },
            res matches Err(e) ==> e == RbError::TimedOut && final(data)@ == old(data)@,
    ;
}

/// What the owner of a ring can do with it.
pub trait RB<T: Clone + Copy + Default> {
    /// Empties the ring and resets its backing store to default values.
    /// What was pending is lost: the caller sees to it that no producer and
    /// no consumer is at work.
    fn clear(&self);

    /// A handle for the writing side of this ring.
    fn producer(&self) -> (p: Producer<T>);

    /// A handle for the reading side of this ring.
    fn consumer(&self) -> (c: Consumer<T>);
}

} // verus!
