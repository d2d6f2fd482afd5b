//! The mathematical model of a ring: a sequence of slots and two cursors.
//!
//! One slot is never occupied, so that equal cursors always mean an empty
//! ring and never a full one. Everything the executable code promises is
//! stated over the functions of this module; what holds of them is proved in
//! [`crate::laws`].

use vstd::prelude::*;
use vstd::math::min;
use crate::error::RbError;

verus! {

/// What a ring is, mathematically: its slots and the two cursors into them.
pub struct RingView<T> {
    /// The backing store; one slot more than the capacity.
    pub slots: Seq<T>,
    /// Index of the oldest pending element.
    pub read_pos: int,
    /// Index of the slot the next written element goes to.
    pub write_pos: int,
}

impl<T> RingView<T> {
    /// Number of slots of the backing store.
    pub open spec fn size(self) -> int {
        self.slots.len() as int
    }

    /// Both cursors point into the backing store, whose length a machine
    /// word can hold.
    pub open spec fn wf(self) -> bool {
        &&& 0 <= self.read_pos < self.size()
        &&& 0 <= self.write_pos < self.size()
        &&& self.size() <= usize::MAX
    }

    /// Number of elements the ring can hold at once.
    pub open spec fn capacity(self) -> int {
        self.size() - 1
    }

    /// Number of elements that can be written before the ring is full.
    pub open spec fn slots_free(self) -> int {
        if self.write_pos < self.read_pos {
            self.read_pos - self.write_pos - 1
        } else {
            self.capacity() - self.write_pos + self.read_pos
        }
    }

    /// Number of elements that are pending, that is written and not yet read.
    pub open spec fn count(self) -> int {
        self.capacity() - self.slots_free()
    }

    /// Nothing is pending.
    pub open spec fn is_empty(self) -> bool {
        self.slots_free() == self.capacity()
    }

    /// No slot is free.
    pub open spec fn is_full(self) -> bool {
        self.slots_free() == 0
    }

    /// Index of the slot that holds the pending element number `i`, counted
    /// from the oldest.
    pub open spec fn slot_of(self, i: int) -> int {
        (self.read_pos + i) % self.size()
    }

    /// Number of steps from the write cursor forward to slot `j`, wrapping at
    /// the end of the backing store.
    pub open spec fn write_offset(self, j: int) -> int {
        (j - self.write_pos) % self.size()
    }

    /// The pending elements, oldest first.
    pub open spec fn pending(self) -> Seq<T> {
        Seq::new(self.count() as nat, |i: int| self.slots[self.slot_of(i)])
    }

    /// The ring after `data` was stored behind the pending elements: the
    /// slots from the write cursor on, wrapping at the end of the store,
    /// hold `data`, and the write cursor has moved past them.
    pub open spec fn put(self, data: Seq<T>) -> Self {
        RingView {
            slots: Seq::new(
                self.slots.len(),
                |j: int|
                    if self.write_offset(j) < data.len() {
                        data[self.write_offset(j)]
                    } else {
                        self.slots[j]
                    },
            ),
            read_pos: self.read_pos,
            write_pos: (self.write_pos + data.len()) % self.size(),
        }
    }

    /// The ring after its `n` oldest pending elements were given up: only the
    /// read cursor moves.
    pub open spec fn drop_front(self, n: int) -> Self {
        RingView {
            slots: self.slots,
            read_pos: (self.read_pos + n) % self.size(),
            write_pos: self.write_pos,
        }
    }

    /// Number of elements that a write of `len` elements stores: as many as
    /// fit.
    pub open spec fn write_len(self, len: int) -> int {
        min(len, self.slots_free())
    }

    /// What a non-blocking write of `len` elements answers.
    pub open spec fn write_result(self, len: int) -> Result<usize, RbError> {
        if len == 0 {
            Ok(0)
        } else if self.is_full() {
            Err(RbError::Full)
        } else {
            Ok(self.write_len(len) as usize)
        }
    }

    /// The ring after a write was offered `data`: the leading elements that
    /// fit are stored.
    pub open spec fn after_write(self, data: Seq<T>) -> Self {
        self.put(data.take(self.write_len(data.len() as int)))
    }

    /// Number of elements that a read or a peek into a buffer of `len`
    /// elements yields: as many as are pending and fit.
    pub open spec fn read_len(self, len: int) -> int {
        min(len, self.count())
    }

    /// What a non-blocking read or peek into a buffer of `len` elements
    /// answers.
    pub open spec fn read_result(self, len: int) -> Result<usize, RbError> {
        if len == 0 {
            Ok(0)
        } else if self.is_empty() {
            Err(RbError::Empty)
        } else {
            Ok(self.read_len(len) as usize)
        }
    }

    /// The buffer `out` after a read or a peek: the oldest pending elements in
    /// front, the rest of `out` as it was.
    pub open spec fn read_output(self, out: Seq<T>) -> Seq<T> {
        self.pending().take(self.read_len(out.len() as int)) + out.skip(
            self.read_len(out.len() as int),
        )
    }

    /// The ring after a read into a buffer of `len` elements.
    pub open spec fn after_read(self, len: int) -> Self {
        self.drop_front(self.read_len(len))
    }

    /// What a skip of `n` elements answers.
    pub open spec fn skip_result(self, n: int) -> Result<usize, RbError> {
        if self.is_empty() {
            Err(RbError::Empty)
        } else {
            Ok(min(n, self.count()) as usize)
        }
    }

    /// The ring after a skip of `n` elements.
    pub open spec fn after_skip(self, n: int) -> Self {
        self.drop_front(min(n, self.count()))
    }

    /// What a skip of everything pending answers.
    pub open spec fn skip_pending_result(self) -> Result<usize, RbError> {
        if self.is_empty() {
            Err(RbError::Empty)
        } else {
            Ok(self.count() as usize)
        }
    }
}

} // verus!
