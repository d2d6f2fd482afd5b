//! What holds of every well-formed ring, proved over the model.

use vstd::prelude::*;
use vstd::arithmetic::div_mod::lemma_fundamental_div_mod_converse;
use vstd::math::min;
use crate::error::RbError;
use crate::model::RingView;

verus! {

/// The remainder `x mod size` coincides with one subtraction or addition of
/// `size` as long as `x` is at most one lap away from the range `0..size`.
pub proof fn lemma_wrap(x: int, size: int)
    requires
        0 < size,
        -size <= x < 2 * size,
    ensures
        x % size == if x < 0 {
            x + size
        } else if x < size {
            x
        } else {
            x - size
        },
{
    if x < 0 {
        lemma_fundamental_div_mod_converse(x, size, -1, x + size);
    } else if x < size {
        lemma_fundamental_div_mod_converse(x, size, 0, x);
    } else {
        lemma_fundamental_div_mod_converse(x, size, 1, x - size);
    }
}

/// Capacity accounting: in every well-formed ring the pending and the free
/// elements together make up the capacity, the pending sequence is as long as
/// the count says, and the ring is empty exactly when the cursors meet.
pub proof fn lemma_capacity_accounting<T>(v: RingView<T>)
    requires
        v.wf(),
    ensures
        v.count() + v.slots_free() == v.capacity(),
        0 <= v.count() <= v.capacity(),
        0 <= v.slots_free() <= v.capacity(),
        v.pending().len() == v.count(),
        v.count() == (v.write_pos - v.read_pos) % v.size(),
        v.is_empty() <==> v.count() == 0,
        v.is_empty() <==> v.read_pos == v.write_pos,
        v.is_full() <==> v.count() == v.capacity(),
        v.capacity() > 0 ==> !(v.is_empty() && v.is_full()),
{
    lemma_wrap(v.write_pos - v.read_pos, v.size());
}

/// First in, first out, on the writing side: storing `data` that fits leaves
/// what was pending in place and appends `data` to it, wherever the write
/// cursor stands relative to the end of the backing store.
pub proof fn lemma_put_appends<T>(v: RingView<T>, data: Seq<T>)
    requires
        v.wf(),
        data.len() <= v.slots_free(),
    ensures
        v.put(data).wf(),
        v.put(data).size() == v.size(),
        v.put(data).read_pos == v.read_pos,
        v.put(data).count() == v.count() + data.len(),
        v.put(data).slots_free() == v.slots_free() - data.len(),
        v.put(data).pending() == v.pending() + data,
        data.len() == 0 ==> v.put(data) == v,
{
    let w = v.put(data);
    let size = v.size();
    lemma_wrap(v.write_pos + data.len(), size);
    assert forall|j: int| 0 <= j < size implies 0 <= #[trigger] v.write_offset(j) by {
        lemma_wrap(j - v.write_pos, size);
    }
    if data.len() == 0 {
        assert(w.slots =~= v.slots);
    }
    assert forall|i: int| 0 <= i < w.count() implies #[trigger] w.pending()[i] == (v.pending()
        + data)[i] by {
        lemma_wrap(v.read_pos + i, size);
        lemma_wrap(v.slot_of(i) - v.write_pos, size);
    }
    assert(w.pending() =~= v.pending() + data);
}

/// First in, first out, on the reading side: giving up `n` pending elements
/// removes the `n` oldest and touches neither the slots nor the write cursor.
pub proof fn lemma_drop_front_skips<T>(v: RingView<T>, n: int)
    requires
        v.wf(),
        0 <= n <= v.count(),
    ensures
        v.drop_front(n).wf(),
        v.drop_front(n).slots == v.slots,
        v.drop_front(n).write_pos == v.write_pos,
        v.drop_front(n).count() == v.count() - n,
        v.drop_front(n).slots_free() == v.slots_free() + n,
        v.drop_front(n).pending() == v.pending().skip(n),
        n == 0 ==> v.drop_front(n) == v,
        n == v.count() ==> v.drop_front(n).read_pos == v.write_pos,
{
    let w = v.drop_front(n);
    let size = v.size();
    lemma_wrap(v.read_pos + n, size);
    assert forall|i: int| 0 <= i < w.count() implies #[trigger] w.pending()[i] == v.pending().skip(
        n,
    )[i] by {
        lemma_wrap(w.read_pos + i, size);
        lemma_wrap(v.read_pos + n + i, size);
    }
    assert(w.pending() =~= v.pending().skip(n));
}

/// A write never stores more than is free, a read or a peek never yields
/// more than is pending, whatever length was asked for; and what fits goes in
/// whole, as what is pending and asked for comes out whole.
pub proof fn lemma_transfer_bounds<T>(v: RingView<T>, len: int)
    requires
        v.wf(),
        0 <= len,
    ensures
        0 <= v.write_len(len) <= v.slots_free(),
        v.write_len(len) <= len,
        0 <= v.read_len(len) <= v.count(),
        v.read_len(len) <= len,
        v.write_result(len) is Err <==> len > 0 && v.is_full(),
        v.read_result(len) is Err <==> len > 0 && v.is_empty(),
        v.write_result(len) is Ok && len > 0 ==> v.write_len(len) >= 1,
        v.read_result(len) is Ok && len > 0 ==> v.read_len(len) >= 1,
        len <= v.slots_free() ==> v.write_len(len) == len,
        len <= v.count() ==> v.read_len(len) == len,
{
    lemma_capacity_accounting(v);
}

/// A transfer of no elements changes nothing: not the ring, not the buffer.
pub proof fn lemma_zero_length_is_noop<T>(v: RingView<T>, out: Seq<T>)
    requires
        v.wf(),
    ensures
        v.write_result(0) == Ok::<usize, RbError>(0),
        v.after_write(Seq::<T>::empty()) == v,
        v.read_result(0) == Ok::<usize, RbError>(0),
        v.after_read(0) == v,
        out.len() == 0 ==> v.read_output(out) == out,
{
    lemma_capacity_accounting(v);
    lemma_put_appends(v, Seq::<T>::empty().take(0));
    lemma_drop_front_skips(v, 0);
    if out.len() == 0 {
        assert(v.read_output(out) =~= out);
    }
}

/// Peek idempotence: a peek leaves the ring as it is, so a second peek into
/// the buffer that the first one filled changes nothing, and two peeks into
/// buffers of one length answer alike and yield the same elements.
pub proof fn lemma_peek_idempotent<T>(v: RingView<T>, out: Seq<T>, other: Seq<T>)
    requires
        v.wf(),
        other.len() == out.len(),
    ensures
        v.read_output(out).len() == out.len(),
        v.read_output(v.read_output(out)) == v.read_output(out),
        v.read_result(other.len() as int) == v.read_result(out.len() as int),
        v.read_output(other).take(v.read_len(out.len() as int)) == v.read_output(out).take(
            v.read_len(out.len() as int),
        ),
{
    lemma_capacity_accounting(v);
    let n = v.read_len(out.len() as int);
    let once = v.read_output(out);
    assert(once.len() == out.len());
    assert(v.read_output(once) =~= once);
    assert(v.read_output(other).take(n) =~= once.take(n));
}

/// Read is peek followed by skip: a read answers as a peek into the same
/// buffer does and fills it alike, and it leaves the ring as a skip of the
/// number that the peek answered would.
pub proof fn lemma_read_is_get_then_skip<T>(v: RingView<T>, out: Seq<T>)
    requires
        v.wf(),
    ensures
        v.read_result(out.len() as int) matches Ok(n) ==> {
            &&& v.after_skip(n as int) == v.after_read(out.len() as int)
            &&& n > 0 ==> v.skip_result(n as int) == Ok::<usize, RbError>(n)
            &&& v.after_read(out.len() as int).pending() == v.pending().skip(n as int)
            &&& v.read_output(out).take(n as int) == v.pending().take(n as int)
        },
        v.read_result(out.len() as int) is Err ==> {
            &&& v.after_read(out.len() as int) == v
            &&& v.read_output(out) == out
        },
{
    lemma_capacity_accounting(v);
    let n = v.read_len(out.len() as int);
    lemma_drop_front_skips(v, n);
    assert(v.read_output(out).take(n) =~= v.pending().take(n));
    if n == 0 {
        assert(v.read_output(out) =~= out);
    }
}

/// What was written comes out again, in order: after `data` that fits was
/// stored in an empty ring, a read into a buffer of the same length yields
/// exactly `data` and leaves the ring empty.
pub proof fn lemma_write_then_read_roundtrip<T>(v: RingView<T>, data: Seq<T>, out: Seq<T>)
    requires
        v.wf(),
        v.is_empty(),
        data.len() <= v.capacity(),
        out.len() == data.len(),
    ensures
        v.after_write(data).pending() == data,
        v.after_write(data).read_output(out) == data,
        v.after_write(data).after_read(out.len() as int).is_empty(),
{
    lemma_capacity_accounting(v);
    assert(data.take(data.len() as int) =~= data);
    lemma_put_appends(v, data);
    let w = v.after_write(data);
    assert(w.pending() =~= data);
    lemma_capacity_accounting(w);
    assert(w.read_output(out) =~= data);
    lemma_drop_front_skips(w, data.len() as int);
    lemma_capacity_accounting(w.after_read(out.len() as int));
}

/// One step in the history of a ring.
pub enum Step<T> {
    /// A write, blocking or not, that was offered these elements.
    Write(Seq<T>),
    /// A read, blocking or not, into a buffer of this many elements.
    Read(nat),
    /// A skip of this many elements.
    Skip(nat),
}

impl<T> RingView<T> {
    /// The elements that `step` stores in this ring.
    pub open spec fn stored_by(self, step: Step<T>) -> Seq<T> {
        match step {
            Step::Write(data) => data.take(self.write_len(data.len() as int)),
            _ => Seq::empty(),
        }
    }

    /// The elements that `step` takes out of this ring, to hand them to the
    /// reader or to drop them.
    pub open spec fn taken_by(self, step: Step<T>) -> Seq<T> {
        match step {
            Step::Write(_) => Seq::empty(),
            Step::Read(len) => self.pending().take(self.read_len(len as int)),
            Step::Skip(n) => self.pending().take(min(n as int, self.count())),
        }
    }

    /// The ring after `step`.
    pub open spec fn after_step(self, step: Step<T>) -> Self {
        match step {
            Step::Write(data) => self.after_write(data),
            Step::Read(len) => self.after_read(len as int),
            Step::Skip(n) => self.after_skip(n as int),
        }
    }

    /// The ring after the steps of `history`, first to last.
    pub open spec fn after_all(self, history: Seq<Step<T>>) -> Self
        decreases history.len(),
    {
        if history.len() == 0 {
            self
        } else {
            self.after_all(history.drop_last()).after_step(history.last())
        }
    }

    /// All that the steps of `history` stored, in the order of storing.
    pub open spec fn stored(self, history: Seq<Step<T>>) -> Seq<T>
        decreases history.len(),
    {
        if history.len() == 0 {
            Seq::empty()
        } else {
            self.stored(history.drop_last()) + self.after_all(history.drop_last()).stored_by(
                history.last(),
            )
        }
    }

    /// All that the steps of `history` took out, in the order of taking.
    pub open spec fn taken(self, history: Seq<Step<T>>) -> Seq<T>
        decreases history.len(),
    {
        if history.len() == 0 {
            Seq::empty()
        } else {
            self.taken(history.drop_last()) + self.after_all(history.drop_last()).taken_by(
                history.last(),
            )
        }
    }
}

/// Nothing is lost, doubled or reordered, however writes, reads and skips of
/// whatever lengths follow one another: what was pending at first, followed
/// by all that was stored since, is what was taken out since, followed by what
/// is pending now. The ring stays well formed and keeps its capacity
/// throughout, so the capacity accounting holds after every step.
pub proof fn lemma_history_is_fifo<T>(v: RingView<T>, history: Seq<Step<T>>)
    requires
        v.wf(),
    ensures
        v.after_all(history).wf(),
        v.after_all(history).capacity() == v.capacity(),
        v.after_all(history).count() + v.after_all(history).slots_free() == v.capacity(),
        v.pending() + v.stored(history) == v.taken(history) + v.after_all(history).pending(),
    decreases history.len(),
{
    lemma_capacity_accounting(v);
    if history.len() == 0 {
        assert(v.pending() + v.stored(history) =~= v.taken(history) + v.pending());
    } else {
        let earlier = history.drop_last();
        let w = v.after_all(earlier);
        lemma_history_is_fifo(v, earlier);
        lemma_capacity_accounting(w);
        match history.last() {
            Step::Write(data) => {
                let chunk = data.take(w.write_len(data.len() as int));
                lemma_put_appends(w, chunk);
                assert(v.pending() + (v.stored(earlier) + chunk) =~= (v.pending() + v.stored(
                    earlier,
                )) + chunk);
                assert(v.taken(earlier) + Seq::<T>::empty() =~= v.taken(earlier));
                assert((v.taken(earlier) + w.pending()) + chunk =~= v.taken(earlier) + (w.pending()
                    + chunk));
            },
            Step::Read(len) => {
                lemma_take_and_drop(v, earlier, w.read_len(len as int));
            },
            Step::Skip(n) => {
                lemma_take_and_drop(v, earlier, min(n as int, w.count()));
            },
        }
        lemma_capacity_accounting(v.after_all(history));
    }
}

/// The step of `lemma_history_is_fifo` for a read or a skip that takes `n`
/// elements out after the steps of `earlier`.
proof fn lemma_take_and_drop<T>(v: RingView<T>, earlier: Seq<Step<T>>, n: int)
    requires
        v.wf(),
        v.after_all(earlier).wf(),
        0 <= n <= v.after_all(earlier).count(),
        v.pending() + v.stored(earlier) == v.taken(earlier) + v.after_all(earlier).pending(),
    ensures
        v.after_all(earlier).drop_front(n).wf(),
        v.after_all(earlier).drop_front(n).capacity() == v.after_all(earlier).capacity(),
        v.pending() + (v.stored(earlier) + Seq::<T>::empty()) == (v.taken(earlier) + v.after_all(
            earlier,
        ).pending().take(n)) + v.after_all(earlier).drop_front(n).pending(),
{
    let w = v.after_all(earlier);
    lemma_capacity_accounting(w);
    lemma_drop_front_skips(w, n);
    assert(v.stored(earlier) + Seq::<T>::empty() =~= v.stored(earlier));
    assert(w.pending() =~= w.pending().take(n) + w.pending().skip(n));
    assert(v.taken(earlier) + (w.pending().take(n) + w.pending().skip(n)) =~= (v.taken(earlier)
        + w.pending().take(n)) + w.pending().skip(n));
}

} // verus!
