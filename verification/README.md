# tprobe

A hardware tick-counter measurement probe, verified with Verus.

- `src/recorder.rs`: the `Recorder` trait and `ArrayRecorder`, a
  preallocated raw-delta store that keeps deltas in record order up to its
  capacity and then drops and counts. Its contracts are stated over
  `ArrayRecorderView` (recorded deltas, capacity, drop count).
- `src/probe.rs`: `TProbe`, which pairs a name with a recorder and records
  `end - start` (modulo 2^64) for each measured scope, given the tick
  readings at the two ends.
- `src/ticks.rs`: the decision whether the x86_64 TSC is usable (CPU
  invariant-TSC flag, kernel clocksource choice).
- `app/`: the unverified host side: the `rdtsc` read, ticks-per-ns
  calibration, the sysfs read, and `start_now` / `record_now` helpers.
