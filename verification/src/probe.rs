//! The probe: collection-phase front end over a pluggable [`Recorder`].
//!
//! A [`TProbe`] pairs a name with a recorder and owns the start-tick
//! state, so a measured scope is `probe.start(t0)` … `probe.record(t1)`
//! with no delta math at the call site. The tick values are the counter
//! readings taken at the two ends of the scope:
//!
//! - `start` stores its tick in the probe; a second `start` overwrites
//!   the first (one outstanding scope per probe).
//! - `record` hands `end.wrapping_sub(start)` to the recorder.

use vstd::prelude::*;

use crate::recorder::{ArrayRecorderView, Recorder};

verus! {

/// The number of ticks from `start` to `end` on a 64-bit counter that may
/// have wrapped once in between: `end - start` modulo 2^64.
pub open spec fn elapsed_ticks(start: u64, end: u64) -> u64 {
    if start <= end {
        (end - start) as u64
    } else {
        (end + 0x1_0000_0000_0000_0000 - start) as u64
    }
}

/// A named probe: start-tick state plus the [`Recorder`] the measured
/// deltas go to. The name is a `&'static str`, so the probe needs no
/// allocator.
pub struct TProbe<R> {
    name: &'static str,
    start_tick: u64,
    recorder: R,
}

impl<R: Recorder> TProbe<R> {
    /// The probe's name.
    pub closed spec fn spec_name(self) -> &'static str {
        self.name
    }

    /// The tick stored by the last `start` (0 before any).
    pub closed spec fn spec_start_tick(self) -> u64 {
        self.start_tick
    }

    /// The recorder the deltas go to.
    pub closed spec fn spec_recorder(self) -> R {
        self.recorder
    }

    /// Pair a name with a recorder.
    pub fn new(name: &'static str, recorder: R) -> (p: Self)
        ensures
            p.spec_name() == name,
            p.spec_start_tick() == 0,
            p.spec_recorder() == recorder,
    {
        TProbe { name, start_tick: 0, recorder }
    }

    /// Begin a measured scope at tick `now`: store it in the probe,
    /// overwriting any unfinished scope.
    pub fn start(&mut self, now: u64)
        ensures
            final(self).spec_start_tick() == now,
            final(self).spec_name() == old(self).spec_name(),
            final(self).spec_recorder() == old(self).spec_recorder(),
    {
        self.start_tick = now;
    }

    /// End the scope begun by [`Self::start`] at tick `now`: record
    /// `now.wrapping_sub(start)`. The start tick stays, so a further
    /// `record` measures from the same start.
    pub fn record(&mut self, now: u64)
        ensures
            R::records(
                old(self).spec_recorder(),
                elapsed_ticks(old(self).spec_start_tick(), now),
                final(self).spec_recorder(),
            ),
            final(self).spec_start_tick() == old(self).spec_start_tick(),
            final(self).spec_name() == old(self).spec_name(),
    {
        let delta = now.wrapping_sub(self.start_tick);
        assert(delta == elapsed_ticks(self.start_tick, now));
        self.recorder.record(delta);
    }

    /// The probe's name.
    pub fn name(&self) -> (n: &'static str)
        ensures
            n == self.spec_name(),
    {
        self.name
    }

    /// Borrow the recorder (e.g. to read results in place).
    pub fn recorder(&self) -> (r: &R)
        ensures
            *r == self.spec_recorder(),
    {
        &self.recorder
    }
}

/// When the counter did not wrap, the delta a scope records is the plain
/// difference of its end and start ticks.
pub proof fn lemma_elapsed_is_difference(start: u64, end: u64)
    requires
        start <= end,
    ensures
        elapsed_ticks(start, end) == end - start,
{
}

/// Measured across one wrap of the counter, the delta is still the number
/// of ticks in between: adding it to the start tick gives the end tick
/// modulo 2^64.
pub proof fn lemma_elapsed_wraps(start: u64, end: u64)
    ensures
        (start + elapsed_ticks(start, end)) % 0x1_0000_0000_0000_0000 == end,
{
}

/// A scope from tick `t0` to tick `t1 >= t0`, recorded into an array
/// recorder with room left, appends exactly `t1 - t0` after the deltas
/// already there.
pub proof fn lemma_scope_appends_elapsed(before: ArrayRecorderView, t0: u64, t1: u64)
    requires
        before.wf(),
        before.deltas.len() < before.capacity,
        t0 <= t1,
    ensures
        before.after_record(elapsed_ticks(t0, t1)).deltas == before.deltas.push(
            (t1 - t0) as u64,
        ),
        before.after_record(elapsed_ticks(t0, t1)).dropped == before.dropped,
{
}

} // verus!
