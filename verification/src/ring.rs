//! The ring-buffer engine: a backing store and two cursors, owned by one
//! caller at a time.

use vstd::prelude::*;
use vstd::math::min;
use crate::error::RbError;
use crate::traits::RbInspector;
use crate::laws::{
    lemma_capacity_accounting, lemma_drop_front_skips, lemma_put_appends, lemma_wrap,
};
use crate::model::RingView;

verus! {

/// A ring of `capacity` usable slots over a backing store of one slot more.
pub struct Ring<T> {
    buf: Vec<T>,
    read_pos: usize,
    write_pos: usize,
}

impl<T> View for Ring<T> {
    type V = RingView<T>;

    closed spec fn view(&self) -> RingView<T> {
        RingView { slots: self.buf@, read_pos: self.read_pos as int, write_pos: self.write_pos as int }
    }
}

impl<T> Ring<T> {
    /// Every ring that executable code can hold is well formed.
    #[verifier::type_invariant]
    pub open spec fn inv(&self) -> bool {
        self@.wf()
    }
}

impl<T: Copy> Ring<T> {
    /// An empty ring of `size` usable slots, each slot of its backing store
    /// holding `fill`.
    pub fn new(size: usize, fill: T) -> (ring: Self)
        requires
            size < usize::MAX,
        ensures
            ring@.wf(),
            ring@.capacity() == size,
            ring@.read_pos == 0,
            ring@.write_pos == 0,
            ring@.is_empty(),
            ring@.pending() == Seq::<T>::empty(),
            ring@.slots == Seq::new((size + 1) as nat, |j: int| fill),
    {
        let mut buf: Vec<T> = Vec::new();
        let mut i: usize = 0;
        while i <= size
            invariant
                size < usize::MAX,
                i <= size + 1,
                buf@.len() == i,
                forall|j: int| 0 <= j < i ==> buf@[j] == fill,
            decreases size + 1 - i,
        {
            buf.push(fill);
            i = i + 1;
        }
        let ring = Ring { buf, read_pos: 0, write_pos: 0 };
        assert(ring@.pending() =~= Seq::<T>::empty());
        assert(ring@.slots =~= Seq::new((size + 1) as nat, |j: int| fill));
        ring
    }

    /// Stores the first `cnt` elements of `data` behind the pending ones: in
    /// one run where they fit before the end of the backing store, else in
    /// two, the second from its beginning.
    fn copy_in(&mut self, data: &[T], cnt: usize)
        requires
            cnt <= data@.len(),
            cnt <= old(self)@.slots_free(),
        ensures
            final(self)@ == old(self)@.put(data@.take(cnt as int)),
    {
        proof {
            use_type_invariant(&*self);
        }
        let ghost before = self@;
        let size = self.buf.len();
        let wr = self.write_pos;
        let tail = size - wr;
        if cnt < tail {
            store_run(&mut self.buf, wr, data, 0, cnt);
            self.write_pos = wr + cnt;
        } else {
            store_run(&mut self.buf, wr, data, 0, tail);
            store_run(&mut self.buf, 0, data, tail, cnt - tail);
            self.write_pos = cnt - tail;
        }
        proof {
            lemma_wrap(wr + cnt, size as int);
            assert forall|j: int| 0 <= j < size implies #[trigger] before.write_offset(j) == (if j
                < wr {
                j - wr + size
            } else {
                j - wr
            }) by {
                lemma_wrap(j - wr, size as int);
            }
            assert(self@.slots =~= before.put(data@.take(cnt as int)).slots);
        }
    }

    /// Stores as many leading elements of `data` as fit behind the pending
    /// ones, none where the ring is full, and returns their number.
    pub fn push(&mut self, data: &[T]) -> (n: usize)
        ensures
            n == old(self)@.write_len(data@.len() as int),
            n <= old(self)@.slots_free(),
            final(self)@ == old(self)@.after_write(data@),
            final(self)@.wf(),
            final(self)@.capacity() == old(self)@.capacity(),
            final(self)@.read_pos == old(self)@.read_pos,
            final(self)@.write_pos == (old(self)@.write_pos + n) % old(self)@.size(),
            final(self)@.count() == old(self)@.count() + n,
            final(self)@.pending() == old(self)@.pending() + data@.take(n as int),
    {
        proof {
            use_type_invariant(&*self);
        }
        let free = self.slots_free();
        let cnt = if data.len() < free {
            data.len()
        } else {
            free
        };
        proof {
            lemma_put_appends(self@, data@.take(cnt as int));
        }
        self.copy_in(data, cnt);
        cnt
    }

    /// Stores as many leading elements of `data` as fit and returns their
    /// number; fails with `Full`, and stores nothing, where `data` is not
    /// empty and no slot is free.
    pub fn write(&mut self, data: &[T]) -> (res: Result<usize, RbError>)
        ensures
            res == old(self)@.write_result(data@.len() as int),
            res matches Ok(n) ==> n <= old(self)@.slots_free() && n <= data@.len(),
            final(self)@ == old(self)@.after_write(data@),
            final(self)@.wf(),
            final(self)@.capacity() == old(self)@.capacity(),
            final(self)@.read_pos == old(self)@.read_pos,
            final(self)@.write_pos == (old(self)@.write_pos + old(self)@.write_len(
                data@.len() as int,
            )) % old(self)@.size(),
            final(self)@.pending() == old(self)@.pending() + data@.take(
                old(self)@.write_len(data@.len() as int),
            ),
            res is Err ==> final(self)@ == old(self)@,
    {
        proof {
            use_type_invariant(&*self);
            lemma_capacity_accounting(self@);
            lemma_put_appends(self@, data@.take(self@.write_len(data@.len() as int)));
        }
        if data.len() == 0 {
            proof {
                lemma_wrap(self@.write_pos, self@.size());
            }
            return Ok(0);
        }
        if self.is_full() {
            proof {
                lemma_wrap(self@.write_pos, self@.size());
            }
            return Err(RbError::Full);
        }
        let cnt = self.push(data);
        Ok(cnt)
    }

    /// What a write does once a bounded wait for space is over: it gives
    /// `TimedOut`, and stores nothing, where the time ran out and the ring is
    /// still full, and stores what fits otherwise.
    pub fn push_after_wait(&mut self, data: &[T], timed_out: bool) -> (res: Result<
        Option<usize>,
        RbError,
    >)
        ensures
            timed_out && old(self)@.is_full() ==> res == Err::<Option<usize>, RbError>(
                RbError::TimedOut,
            ) && final(self)@ == old(self)@,
            !(timed_out && old(self)@.is_full()) ==> {
                &&& res == Ok::<Option<usize>, RbError>(
                    Some(old(self)@.write_len(data@.len() as int) as usize),
                )
                &&& final(self)@ == old(self)@.after_write(data@)
                &&& final(self)@.pending() == old(self)@.pending() + data@.take(
                    old(self)@.write_len(data@.len() as int),
                )
            },
            res matches Ok(Some(n)) ==> n <= data@.len() && n <= old(self)@.slots_free(),
            final(self)@.wf(),
            final(self)@.capacity() == old(self)@.capacity(),
    {
        proof {
            use_type_invariant(&*self);
            lemma_capacity_accounting(self@);
        }
        if timed_out && self.is_full() {
            return Err(RbError::TimedOut);
        }
        let cnt = self.push(data);
        Ok(Some(cnt))
    }

    /// Copies the `cnt` oldest pending elements to the front of `data`: in
    /// one run where they lie before the end of the backing store, else in
    /// two, the second from its beginning.
    fn copy_out(&self, data: &mut [T], cnt: usize)
        requires
            cnt <= old(data)@.len(),
            cnt <= self@.count(),
        ensures
            final(data)@ == self@.pending().take(cnt as int) + old(data)@.skip(cnt as int),
    {
        proof {
            use_type_invariant(self);
            lemma_capacity_accounting(self@);
        }
        let ghost before = data@;
        let size = self.buf.len();
        let rd = self.read_pos;
        let tail = size - rd;
        if cnt < tail {
            load_run(data, 0, &self.buf, rd, cnt);
        } else {
            load_run(data, 0, &self.buf, rd, tail);
            load_run(data, tail, &self.buf, 0, cnt - tail);
        }
        proof {
            assert forall|i: int| 0 <= i < cnt implies #[trigger] self@.slot_of(i) == (if i < tail {
                rd + i
            } else {
                i - tail
            }) by {
                lemma_wrap(rd + i, size as int);
            }
            assert(data@ =~= self@.pending().take(cnt as int) + before.skip(cnt as int));
        }
    }

    /// Copies as many of the oldest pending elements as `data` can take to
    /// its front, leaves them pending, and returns their number.
    pub fn peek(&self, data: &mut [T]) -> (n: usize)
        ensures
            n == self@.read_len(old(data)@.len() as int),
            n <= self@.count(),
            final(data)@ == self@.read_output(old(data)@),
    {
        let pending = self.count();
        let cnt = if data.len() < pending {
            data.len()
        } else {
            pending
        };
        self.copy_out(data, cnt);
        cnt
    }

    /// Moves as many of the oldest pending elements as `data` can take to its
    /// front and returns their number.
    pub fn pull(&mut self, data: &mut [T]) -> (n: usize)
        ensures
            n == old(self)@.read_len(old(data)@.len() as int),
            n <= old(self)@.count(),
            final(data)@ == old(self)@.read_output(old(data)@),
            final(self)@ == old(self)@.after_read(old(data)@.len() as int),
            final(self)@.wf(),
            final(self)@.capacity() == old(self)@.capacity(),
            final(self)@.write_pos == old(self)@.write_pos,
            final(self)@.count() == old(self)@.count() - n,
            final(self)@.pending() == old(self)@.pending().skip(n as int),
    {
        let cnt = self.peek(data);
        self.advance_read(cnt);
        cnt
    }

    /// What a read does once a bounded wait for data is over: it gives
    /// `TimedOut`, and leaves `data` and the ring alone, where the time ran
    /// out and still nothing is pending, and moves what `data` can take
    /// otherwise.
    pub fn pull_after_wait(&mut self, data: &mut [T], timed_out: bool) -> (res: Result<
        Option<usize>,
        RbError,
    >)
        ensures
            timed_out && old(self)@.is_empty() ==> {
                &&& res == Err::<Option<usize>, RbError>(RbError::TimedOut)
                &&& final(self)@ == old(self)@
                &&& final(data)@ == old(data)@
            },
            !(timed_out && old(self)@.is_empty()) ==> {
                &&& res == Ok::<Option<usize>, RbError>(
                    Some(old(self)@.read_len(old(data)@.len() as int) as usize),
                )
                &&& final(data)@ == old(self)@.read_output(old(data)@)
                &&& final(self)@ == old(self)@.after_read(old(data)@.len() as int)
                &&& final(self)@.pending() == old(self)@.pending().skip(
                    old(self)@.read_len(old(data)@.len() as int),
                )
            },
            res matches Ok(Some(n)) ==> n <= old(data)@.len() && n <= old(self)@.count(),
            final(self)@.wf(),
            final(self)@.capacity() == old(self)@.capacity(),
    {
        proof {
            use_type_invariant(&*self);
            lemma_capacity_accounting(self@);
        }
        if timed_out && self.is_empty() {
            return Err(RbError::TimedOut);
        }
        let cnt = self.pull(data);
        Ok(Some(cnt))
    }

    /// Moves the read cursor past the `cnt` oldest pending elements.
    fn advance_read(&mut self, cnt: usize)
        requires
            cnt <= old(self)@.count(),
        ensures
            final(self)@ == old(self)@.drop_front(cnt as int),
            final(self)@.wf(),
            final(self)@.capacity() == old(self)@.capacity(),
            final(self)@.write_pos == old(self)@.write_pos,
            final(self)@.count() == old(self)@.count() - cnt,
            final(self)@.pending() == old(self)@.pending().skip(cnt as int),
    {
        proof {
            use_type_invariant(&*self);
            lemma_capacity_accounting(self@);
            lemma_drop_front_skips(self@, cnt as int);
            lemma_wrap(self@.read_pos + cnt, self@.size());
        }
        let tail = self.buf.len() - self.read_pos;
        self.read_pos = if cnt < tail {
            self.read_pos + cnt
        } else {
            cnt - tail
        };
    }

    /// Copies as many of the oldest pending elements as `data` can take to
    /// its front and returns their number; they stay pending. Fails with
    /// `Empty`, and leaves `data` alone, where `data` is not empty and nothing
    /// is pending.
    pub fn get(&self, data: &mut [T]) -> (res: Result<usize, RbError>)
        ensures
            res == self@.read_result(old(data)@.len() as int),
            res matches Ok(n) ==> n <= self@.count() && n <= old(data)@.len(),
            final(data)@ == self@.read_output(old(data)@),
            res is Err ==> final(data)@ == old(data)@,
    {
        proof {
            use_type_invariant(self);
            lemma_capacity_accounting(self@);
            assert(self@.read_len(data@.len() as int) == 0 ==> self@.read_output(data@) =~= data@);
        }
        if data.len() == 0 {
            return Ok(0);
        }
        if self.is_empty() {
            return Err(RbError::Empty);
        }
        let cnt = self.peek(data);
        Ok(cnt)
    }

    /// As `get`, and the elements copied are no longer pending.
    pub fn read(&mut self, data: &mut [T]) -> (res: Result<usize, RbError>)
        ensures
            res == old(self)@.read_result(old(data)@.len() as int),
            res matches Ok(n) ==> n <= old(self)@.count() && n <= old(data)@.len(),
            final(data)@ == old(self)@.read_output(old(data)@),
            final(self)@ == old(self)@.after_read(old(data)@.len() as int),
            final(self)@.wf(),
            final(self)@.capacity() == old(self)@.capacity(),
            final(self)@.write_pos == old(self)@.write_pos,
            final(self)@.read_pos == (old(self)@.read_pos + old(self)@.read_len(
                old(data)@.len() as int,
            )) % old(self)@.size(),
            final(self)@.pending() == old(self)@.pending().skip(
                old(self)@.read_len(old(data)@.len() as int),
            ),
            res is Err ==> final(data)@ == old(data)@ && final(self)@ == old(self)@,
    {
        proof {
            use_type_invariant(&*self);
            lemma_capacity_accounting(self@);
            lemma_drop_front_skips(self@, self@.read_len(data@.len() as int));
            assert(self@.read_len(data@.len() as int) == 0 ==> self@.read_output(data@) =~= data@);
        }
        if data.len() == 0 {
            return Ok(0);
        }
        if self.is_empty() {
            return Err(RbError::Empty);
        }
        let cnt = self.pull(data);
        Ok(cnt)
    }

    /// Gives up the `cnt` oldest pending elements, or all of them where fewer
    /// are pending, and returns their number. Fails with `Empty` where nothing
    /// is pending.
    pub fn skip(&mut self, cnt: usize) -> (res: Result<usize, RbError>)
        ensures
            res == old(self)@.skip_result(cnt as int),
            res matches Ok(n) ==> n <= old(self)@.count() && n <= cnt && (cnt > 0 ==> n >= 1),
            final(self)@ == old(self)@.after_skip(cnt as int),
            final(self)@.wf(),
            final(self)@.capacity() == old(self)@.capacity(),
            final(self)@.write_pos == old(self)@.write_pos,
            final(self)@.pending() == old(self)@.pending().skip(min(cnt as int, old(self)@.count())),
            res is Err ==> final(self)@ == old(self)@,
    {
        proof {
            use_type_invariant(&*self);
            lemma_capacity_accounting(self@);
            lemma_drop_front_skips(self@, min(cnt as int, self@.count()));
        }
        if self.is_empty() {
            return Err(RbError::Empty);
        }
        let pending = self.count();
        let n = if cnt < pending {
            cnt
        } else {
            pending
        };
        self.advance_read(n);
        Ok(n)
    }

    /// Gives up everything that is pending and returns how much that was.
    /// Fails with `Empty` where nothing is pending.
    pub fn skip_pending(&mut self) -> (res: Result<usize, RbError>)
        ensures
            res == old(self)@.skip_pending_result(),
            res matches Ok(n) ==> 1 <= n <= old(self)@.capacity(),
            res is Err ==> final(self)@ == old(self)@,
            final(self)@ == old(self)@.drop_front(old(self)@.count()),
            final(self)@.wf(),
            final(self)@.capacity() == old(self)@.capacity(),
            final(self)@.slots == old(self)@.slots,
            final(self)@.write_pos == old(self)@.write_pos,
            final(self)@.read_pos == old(self)@.write_pos,
            final(self)@.is_empty(),
            final(self)@.pending() == Seq::<T>::empty(),
    {
        proof {
            use_type_invariant(&*self);
            lemma_capacity_accounting(self@);
            lemma_drop_front_skips(self@, self@.count());
        }
        if self.is_empty() {
            assert(self@.pending() =~= Seq::<T>::empty());
            return Err(RbError::Empty);
        }
        let pending = self.count();
        self.read_pos = self.write_pos;
        proof {
            lemma_capacity_accounting(self@);
            assert(self@.pending() =~= Seq::<T>::empty());
        }
        Ok(pending)
    }

    /// Empties the ring and overwrites every slot of its backing store with
    /// `fill`.
    pub fn clear(&mut self, fill: T)
        ensures
            final(self)@.wf(),
            final(self)@.capacity() == old(self)@.capacity(),
            final(self)@.read_pos == 0,
            final(self)@.write_pos == 0,
            final(self)@.is_empty(),
            final(self)@.pending() == Seq::<T>::empty(),
            final(self)@.slots == Seq::new(old(self)@.slots.len(), |j: int| fill),
    {
        proof {
            use_type_invariant(&*self);
        }
        let size = self.buf.len();
        let mut i: usize = 0;
        while i < size
            invariant
                i <= size,
                size == self@.size(),
                self@.wf(),
                forall|j: int| 0 <= j < i ==> #[trigger] self@.slots[j] == fill,
            decreases size - i,
        {
            self.buf[i] = fill;
            i = i + 1;
        }
        self.read_pos = 0;
        self.write_pos = 0;
        proof {
            lemma_capacity_accounting(self@);
            assert(self@.pending() =~= Seq::<T>::empty());
            assert(self@.slots =~= Seq::new(old(self)@.slots.len(), |j: int| fill));
        }
    }
}

impl<T: Copy> Ring<T> {
    /// The free slots as a holder counts them who knows the ring to have been
    /// made for `limit` elements: the number of free slots, and `limit` where
    /// that is less. With the capacity of the ring for `limit` it is
    /// `slots_free`.
    pub fn slots_free_within(&self, limit: usize) -> (n: usize)
        ensures
            n == min(self@.slots_free(), limit as int),
            n <= limit,
            limit == self@.capacity() ==> n == self@.slots_free(),
    {
        proof {
            use_type_invariant(self);
            lemma_capacity_accounting(self@);
        }
        let free = self.slots_free();
        if free <= limit {
            free
        } else {
            limit
        }
    }

    /// The pending elements as such a holder counts them: what the free slots
    /// within `limit` leave of `limit`. With the capacity of the ring for
    /// `limit` it is `count`.
    pub fn count_within(&self, limit: usize) -> (n: usize)
        ensures
            n == limit - min(self@.slots_free(), limit as int),
            n <= limit,
            limit == self@.capacity() ==> n == self@.count(),
    {
        limit - self.slots_free_within(limit)
    }

    /// True if such a holder finds every one of the `limit` slots free. With
    /// the capacity of the ring for `limit` it is `is_empty`.
    pub fn is_empty_within(&self, limit: usize) -> (b: bool)
        ensures
            b == (min(self@.slots_free(), limit as int) == limit),
            limit == 0 ==> b,
            limit == self@.capacity() ==> b == self@.is_empty(),
    {
        proof {
            use_type_invariant(self);
            lemma_capacity_accounting(self@);
        }
        self.slots_free_within(limit) == limit
    }

    /// True if such a holder finds no slot free. With the capacity of the
    /// ring for `limit` it is `is_full`.
    pub fn is_full_within(&self, limit: usize) -> (b: bool)
        ensures
            b == (min(self@.slots_free(), limit as int) == 0),
            limit == 0 ==> b,
            limit == self@.capacity() ==> b == self@.is_full(),
    {
        proof {
            use_type_invariant(self);
            lemma_capacity_accounting(self@);
        }
        self.slots_free_within(limit) == 0
    }
}

impl<T: Copy> RbInspector for Ring<T> {
    fn is_empty(&self) -> (b: bool)
        ensures
            b == self@.is_empty(),
    {
        self.slots_free() == self.capacity()
    }

    fn is_full(&self) -> (b: bool)
        ensures
            b == self@.is_full(),
    {
        self.slots_free() == 0
    }

    fn capacity(&self) -> (n: usize)
        ensures
            n == self@.capacity(),
    {
        proof {
            use_type_invariant(self);
        }
        self.buf.len() - 1
    }

    fn slots_free(&self) -> (n: usize)
        ensures
            n == self@.slots_free(),
            n <= self@.capacity(),
    {
        proof {
            use_type_invariant(self);
        }
        if self.write_pos < self.read_pos {
            self.read_pos - self.write_pos - 1
        } else {
            self.capacity() - self.write_pos + self.read_pos
        }
    }

    fn count(&self) -> (n: usize)
        ensures
            n == self@.count(),
            n + self@.slots_free() == self@.capacity(),
    {
        self.capacity() - self.slots_free()
    }
}

/// Copies `n` elements of `src`, from index `from` on, over the slots of
/// `dst` from index `at` on.
fn store_run<T: Copy>(dst: &mut Vec<T>, at: usize, src: &[T], from: usize, n: usize)
    requires
        at + n <= old(dst)@.len(),
        from + n <= src@.len(),
    ensures
        final(dst)@.len() == old(dst)@.len(),
        forall|j: int|
            0 <= j < old(dst)@.len() ==> #[trigger] final(dst)@[j] == if at <= j < at + n {
                src@[from + j - at]
            } else {
                old(dst)@[j]
            },
    no_unwind
{
    let ghost before = dst@;
    let mut i: usize = 0;
    while i < n
        invariant
            i <= n,
            at + n <= before.len() == dst.len(),
            from + n <= src@.len() == src.len(),
            dst@.len() == before.len(),
            forall|j: int|
                0 <= j < before.len() ==> #[trigger] dst@[j] == if at <= j < at + i {
                    src@[from + j - at]
                } else {
                    before[j]
                },
        decreases n - i,
    {
        dst[at + i] = src[from + i];
        i = i + 1;
    }
}

/// Copies `n` slots of `src`, from index `from` on, over the elements of
/// `dst` from index `at` on.
fn load_run<T: Copy>(dst: &mut [T], at: usize, src: &Vec<T>, from: usize, n: usize)
    requires
        at + n <= old(dst)@.len(),
        from + n <= src@.len(),
    ensures
        final(dst)@.len() == old(dst)@.len(),
        forall|j: int|
            0 <= j < old(dst)@.len() ==> #[trigger] final(dst)@[j] == if at <= j < at + n {
                src@[from + j - at]
            } else {
                old(dst)@[j]
            },
{
    let ghost before = dst@;
    let mut i: usize = 0;
    while i < n
        invariant
            i <= n,
            at + n <= before.len() == dst.len(),
            from + n <= src@.len() == src.len(),
            dst@.len() == before.len(),
            forall|j: int|
                0 <= j < before.len() ==> #[trigger] dst@[j] == if at <= j < at + i {
                    src@[from + j - at]
                } else {
                    before[j]
                },
        decreases n - i,
    {
        dst[at + i] = src[from + i];
        i = i + 1;
    }
}

} // verus!
