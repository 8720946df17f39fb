//! Recorders: where the collection phase puts each delta.
//!
//! The hot path reads the tick counter, takes a delta and makes one
//! [`Recorder::record`] call; analysis happens after the run.
//! [`ArrayRecorder`] keeps the raw deltas in preallocated storage and
//! drops (and counts) what does not fit.

use vstd::prelude::*;

verus! {

/// Sink for measured tick deltas.
///
/// Recording is infallible: each implementor picks its own overflow
/// policy (drop-and-count, overwrite, saturate) and never panics.
pub trait Recorder: Sized {
    /// `after` is a state that recording `delta` into `self` may leave.
    spec fn records(self, delta: u64, after: Self) -> bool;

    /// Record one tick delta.
    fn record(&mut self, delta: u64)
        ensures
            Self::records(*old(self), delta, *final(self)),
    ;
}

/// Fixed-size `u64` storage that an [`ArrayRecorder`] writes into.
pub trait DeltaStorage: Sized {
    /// The storage's slots, in order.
    spec fn slots(&self) -> Seq<u64>;

    /// All slots as a slice.
    fn as_slice(&self) -> (s: &[u64])
        ensures
            s@ == self.slots(),
    ;

    /// Overwrite slot `i` with `v`.
    fn store(&mut self, i: usize, v: u64)
        requires
            i < old(self).slots().len(),
        ensures
            final(self).slots() == old(self).slots().update(i as int, v),
    ;
}

impl DeltaStorage for Vec<u64> {
    open spec fn slots(&self) -> Seq<u64> {
        self@
    }

    fn as_slice(&self) -> (s: &[u64]) {
        self.as_slice()
    }

    fn store(&mut self, i: usize, v: u64) {
        self[i] = v;
    }
}

impl<const N: usize> DeltaStorage for [u64; N] {
    open spec fn slots(&self) -> Seq<u64> {
        self@
    }

    fn as_slice(&self) -> (s: &[u64]) {
        self.as_slice()
    }

    fn store(&mut self, i: usize, v: u64) {
        self[i] = v;
    }
}

impl DeltaStorage for Box<[u64]> {
    open spec fn slots(&self) -> Seq<u64> {
        (**self)@
    }

    fn as_slice(&self) -> (s: &[u64]) {
        &**self
    }

    fn store(&mut self, i: usize, v: u64) {
        (**self)[i] = v;
    }
}

impl<'a> DeltaStorage for &'a mut [u64] {
    open spec fn slots(&self) -> Seq<u64> {
        (**self)@
    }

    fn as_slice(&self) -> (s: &[u64]) {
        &**self
    }

    fn store(&mut self, i: usize, v: u64) {
        (**self)[i] = v;
    }
}


/// What an [`ArrayRecorder`] holds, as mathematical values.
pub struct ArrayRecorderView {
    /// The recorded deltas, in record order.
    pub deltas: Seq<u64>,
    /// How many deltas the storage can hold.
    pub capacity: nat,
    /// How many deltas were dropped because the storage was full.
    pub dropped: nat,
    /// Every slot of the storage: the recorded deltas, then whatever the
    /// storage held before in the slots not yet written.
    pub storage: Seq<u64>,
}

/// `n + 1`, held at `u64::MAX` once it gets there.
pub open spec fn saturating_inc(n: nat) -> nat {
    if n < u64::MAX {
        n + 1
    } else {
        u64::MAX as nat
    }
}

impl ArrayRecorderView {
    /// The deltas fill the front of the storage, the capacity is the
    /// storage's length, and the drop count fits a `u64`.
    pub open spec fn wf(self) -> bool {
        &&& self.deltas.len() <= self.capacity
        &&& self.capacity == self.storage.len()
        &&& self.deltas == self.storage.take(self.deltas.len() as int)
        &&& self.dropped <= u64::MAX
    }

    /// A fresh recorder over storage whose slots are `storage`.
    pub open spec fn empty(storage: Seq<u64>) -> ArrayRecorderView {
        ArrayRecorderView { deltas: Seq::empty(), capacity: storage.len(), dropped: 0, storage }
    }

    /// Recording one delta: stored in the first free slot while there is
    /// room, otherwise dropped and counted. No other slot is written.
    pub open spec fn after_record(self, delta: u64) -> ArrayRecorderView {
        if self.deltas.len() < self.capacity {
            ArrayRecorderView {
                deltas: self.deltas.push(delta),
                capacity: self.capacity,
                dropped: self.dropped,
                storage: self.storage.update(self.deltas.len() as int, delta),
            }
        } else {
            ArrayRecorderView {
                deltas: self.deltas,
                capacity: self.capacity,
                dropped: saturating_inc(self.dropped),
                storage: self.storage,
            }
        }
    }

    /// Recording each of `ds` in turn.
    pub open spec fn after_records(self, ds: Seq<u64>) -> ArrayRecorderView
        decreases ds.len(),
    {
        if ds.len() == 0 {
            self
        } else {
            self.after_records(ds.drop_last()).after_record(ds.last())
        }
    }
}

/// How many of `ds` a recorder keeps when it has room for `room` more.
pub open spec fn kept_count(len: nat, room: nat) -> nat {
    if len <= room {
        len
    } else {
        room
    }
}

/// `n`, held at `u64::MAX`.
pub open spec fn saturate(n: nat) -> nat {
    if n <= u64::MAX {
        n
    } else {
        u64::MAX as nat
    }
}

/// Recording a run of deltas into an array recorder keeps them in record
/// order up to capacity, drops and counts the rest, and never overwrites
/// what was already recorded: the kept deltas are the first `room` of the
/// run appended after the old ones, and the drop count grows by the number
/// left over (held at `u64::MAX`).
pub proof fn lemma_records_in_order_then_drops(v: ArrayRecorderView, ds: Seq<u64>)
    requires
        v.wf(),
    ensures
        ({
            let room = (v.capacity - v.deltas.len()) as nat;
            let kept = kept_count(ds.len(), room);
            let after = v.after_records(ds);
            &&& after.wf()
            &&& after.capacity == v.capacity
            &&& after.deltas == v.deltas + ds.take(kept as int)
            &&& after.dropped == saturate((v.dropped + ds.len() - kept) as nat)
            &&& after.storage.skip(after.deltas.len() as int) == v.storage.skip(
                after.deltas.len() as int,
            )
        }),
    decreases ds.len(),
{
    if ds.len() > 0 {
        let init = ds.drop_last();
        lemma_records_in_order_then_drops(v, init);
        let room = (v.capacity - v.deltas.len()) as nat;
        let kept = kept_count(init.len(), room);
        let mid = v.after_records(init);
        if init.len() < room {
            assert(ds.take((kept + 1) as int) =~= init.take(kept as int).push(ds.last()));
            let after = mid.after_record(ds.last());
            let l = mid.deltas.len() as int;
            assert forall|i: int| 0 <= i < after.storage.len() - (l + 1) implies #[trigger]
                after.storage.skip(l + 1)[i] == v.storage.skip(l + 1)[i] by {
                assert(mid.storage.skip(l)[i + 1] == v.storage.skip(l)[i + 1]);
            }
            assert(after.storage.skip(after.deltas.len() as int) =~= v.storage.skip(
                after.deltas.len() as int,
            ));
            assert(after.deltas =~= after.storage.take(after.deltas.len() as int));
        } else {
            assert(ds.take(room as int) =~= init.take(room as int));
        }
    } else {
        assert(ds.take(0) =~= Seq::<u64>::empty());
        assert(v.deltas + Seq::<u64>::empty() =~= v.deltas);
        assert(v.storage.skip(v.deltas.len() as int) =~= v.storage.skip(v.deltas.len() as int));
    }
}

/// How many of `capacity` slots hold recorded deltas after `len` stores.
spec fn held(len: nat, capacity: nat) -> nat {
    if len <= capacity {
        len
    } else {
        capacity
    }
}

/// Preallocated raw-delta recorder: one sequential store per event,
/// drop-and-count when full.
///
/// `B` is the storage (`Vec<u64>`, `Box<[u64]>`, `[u64; N]` or `&mut [u64]`); its length
/// is the capacity. A full buffer drops the delta and counts it, and never
/// overwrites what was recorded.
pub struct ArrayRecorder<B: DeltaStorage> {
    buf: B,
    len: usize,
    dropped: u64,
}

impl<B: DeltaStorage> View for ArrayRecorder<B> {
    type V = ArrayRecorderView;

    closed spec fn view(&self) -> ArrayRecorderView {
        ArrayRecorderView {
            deltas: self.buf.slots().take(held(self.len as nat, self.buf.slots().len()) as int),
            capacity: self.buf.slots().len(),
            dropped: self.dropped as nat,
            storage: self.buf.slots(),
        }
    }
}

impl<B: DeltaStorage> ArrayRecorder<B> {
    /// Wrap preallocated storage; the capacity is the storage's length.
    pub fn new(buf: B) -> (r: Self)
        ensures
            r@ == ArrayRecorderView::empty(buf.slots()),
            r@.wf(),
    {
        let r = ArrayRecorder { buf, len: 0, dropped: 0 };
        assert(r@.deltas =~= Seq::<u64>::empty());
        r
    }

    /// The recorded deltas never outnumber the capacity and fill the
    /// front of the storage.
    pub proof fn lemma_wf(&self)
        ensures
            self@.wf(),
    {
        let s = self.buf.slots();
        let h = held(self.len as nat, s.len());
        assert(s.take(h as int) =~= s.take(h as int).take(h as int));
    }

    /// The recorded deltas, in record order.
    pub fn deltas(&self) -> (d: &[u64])
        ensures
            d@ == self@.deltas,
    {
        let all = self.buf.as_slice();
        let n = if self.len <= all.len() {
            self.len
        } else {
            all.len()
        };
        vstd::slice::slice_subrange(all, 0, n)
    }

    /// Storage capacity, in deltas.
    pub fn capacity(&self) -> (c: usize)
        ensures
            c == self@.capacity,
    {
        self.buf.as_slice().len()
    }

    /// Number of deltas dropped because the buffer was full.
    pub fn dropped(&self) -> (n: u64)
        ensures
            n == self@.dropped,
    {
        self.dropped
    }
}

impl<B: DeltaStorage> Recorder for ArrayRecorder<B> {
    open spec fn records(self, delta: u64, after: Self) -> bool {
        after@ == self@.after_record(delta)
    }

    fn record(&mut self, delta: u64) {
        let cap = self.buf.as_slice().len();
        if self.len < cap {
            let ghost before = self.buf.slots();
            self.buf.store(self.len, delta);
            self.len = self.len + 1;
            assert(self.buf.slots().take(self.len as int) =~= before.take(
                (self.len - 1) as int,
            ).push(delta));
            assert(self.buf.slots() =~= before.update((self.len - 1) as int, delta));
        } else {
            self.dropped = self.dropped.saturating_add(1);
        }
    }
}

/// Recording into an array recorder: while there is room, the delta is
/// stored exactly as given in the first free slot, after the deltas already
/// there, and nothing else changes; once full, the deltas and the storage
/// stay as they were and the drop count goes up by one (held at
/// `u64::MAX`). The capacity never changes.
pub proof fn lemma_record_stores_delta<B: DeltaStorage>(
    before: ArrayRecorder<B>,
    delta: u64,
    after: ArrayRecorder<B>,
)
    requires
        ArrayRecorder::<B>::records(before, delta, after),
    ensures
        after@.capacity == before@.capacity,
        before@.deltas.len() < before@.capacity ==> {
            &&& after@.deltas == before@.deltas.push(delta)
            &&& after@.deltas.len() == before@.deltas.len() + 1
            &&& after@.deltas[before@.deltas.len() as int] == delta
            &&& after@.storage == before@.storage.update(before@.deltas.len() as int, delta)
            &&& after@.dropped == before@.dropped
        },
        before@.deltas.len() >= before@.capacity ==> {
            &&& after@.deltas == before@.deltas
            &&& after@.storage == before@.storage
            &&& after@.dropped == if before@.dropped < u64::MAX {
                before@.dropped + 1
            } else {
                before@.dropped
            }
        },
{
}

/// A `Vec` offers all of its elements as slots, so its length is the
/// recorder's capacity.
pub proof fn lemma_vec_slots_are_contents(v: Vec<u64>)
    ensures
        v.slots() == v@,
        v.slots().len() == v.len(),
{
}

/// An array offers all `N` of its elements as slots.
pub proof fn lemma_array_slots_are_contents<const N: usize>(a: [u64; N])
    ensures
        a.slots() == a@,
        a.slots().len() == N,
{
}

/// A boxed slice offers all of its elements as slots.
pub proof fn lemma_boxed_slots_are_contents(b: Box<[u64]>)
    ensures
        b.slots() == (*b)@,
{
}

/// A borrowed slice offers all of its elements as slots.
pub proof fn lemma_borrowed_slots_are_contents<'a>(s: &'a mut [u64])
    ensures
        old(s).slots() == (*old(s))@,
{
}

} // verus!
