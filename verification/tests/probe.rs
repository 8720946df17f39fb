use tprobe::{ArrayRecorder, TProbe};

#[test]
fn start_record_appends_one_delta() {
    let mut p = TProbe::new("t", ArrayRecorder::new([0u64; 4]));
    p.start(1_000);
    p.record(1_250);
    assert_eq!(p.recorder().deltas().len(), 1);
}

#[test]
fn repeated_scopes_accumulate() {
    let mut p = TProbe::new("t", ArrayRecorder::new([0u64; 4]));
    p.start(100);
    p.record(140);
    p.start(200);
    p.record(290);
    assert_eq!(p.recorder().deltas().len(), 2);
    assert_eq!(p.recorder().dropped(), 0);
    assert_eq!(p.name(), "t");
}

#[test]
fn record_hands_elapsed_ticks() {
    let mut p = TProbe::new("scope", ArrayRecorder::new(vec![0u64; 4]));
    p.start(1_000);
    p.record(1_250);
    p.start(7);
    p.record(7);
    assert_eq!(p.recorder().deltas(), &[250, 0]);
}

#[test]
fn record_across_counter_wrap() {
    let mut p = TProbe::new("wrap", ArrayRecorder::new([0u64; 2]));
    p.start(u64::MAX - 1);
    p.record(3);
    assert_eq!(p.recorder().deltas(), &[5]);
}

#[test]
fn start_overwrites_unfinished_scope() {
    let mut p = TProbe::new("t", ArrayRecorder::new([0u64; 2]));
    p.start(10);
    p.start(50);
    p.record(60);
    assert_eq!(p.recorder().deltas(), &[10]);
}

#[test]
fn record_without_new_start_measures_from_same_start() {
    let mut p = TProbe::new("t", ArrayRecorder::new([0u64; 3]));
    p.start(10);
    p.record(15);
    p.record(30);
    assert_eq!(p.recorder().deltas(), &[5, 20]);
}

#[test]
fn new_probe_starts_at_zero() {
    let mut p = TProbe::new("t", ArrayRecorder::new([0u64; 1]));
    p.record(42);
    assert_eq!(p.recorder().deltas(), &[42]);
}

#[test]
fn probe_over_full_recorder_counts_drops() {
    let mut p = TProbe::new("t", ArrayRecorder::new([0u64; 1]));
    p.start(0);
    p.record(1);
    p.start(0);
    p.record(2);
    assert_eq!(p.recorder().deltas(), &[1]);
    assert_eq!(p.recorder().dropped(), 1);
}
