use tprobe::recorder::Recorder;
use tprobe::ArrayRecorder;

#[test]
fn records_in_order_up_to_capacity() {
    let mut r = ArrayRecorder::new([0u64; 3]);
    r.record(10);
    r.record(20);
    assert_eq!(r.deltas(), &[10, 20]);
    assert_eq!(r.capacity(), 3);
    assert_eq!(r.dropped(), 0);
}

#[test]
fn full_buffer_drops_and_counts() {
    let mut r = ArrayRecorder::new([0u64; 2]);
    r.record(1);
    r.record(2);
    r.record(3);
    r.record(4);
    assert_eq!(r.deltas(), &[1, 2]);
    assert_eq!(r.dropped(), 2);
}

#[test]
fn borrowed_slice_storage_works() {
    let mut buf = [0u64; 4];
    let mut r = ArrayRecorder::new(&mut buf[..]);
    r.record(7);
    assert_eq!(r.deltas(), &[7]);
}

#[test]
fn vec_storage_works() {
    let mut r = ArrayRecorder::new(vec![0u64; 4]);
    r.record(5);
    r.record(6);
    assert_eq!(r.deltas(), &[5, 6]);
}

#[test]
fn fresh_recorder_is_empty() {
    let r = ArrayRecorder::new(vec![9u64; 5]);
    assert!(r.deltas().is_empty());
    assert_eq!(r.capacity(), 5);
    assert_eq!(r.dropped(), 0);
}

#[test]
fn zero_capacity_drops_everything() {
    let mut r = ArrayRecorder::new(Vec::<u64>::new());
    r.record(1);
    r.record(2);
    assert!(r.deltas().is_empty());
    assert_eq!(r.capacity(), 0);
    assert_eq!(r.dropped(), 2);
}

#[test]
fn run_longer_than_capacity_keeps_head_in_order() {
    let mut r = ArrayRecorder::new([0u64; 3]);
    for d in [5u64, 4, 3, 2, 1, 0, 9] {
        r.record(d);
    }
    assert_eq!(r.deltas(), &[5, 4, 3]);
    assert_eq!(r.dropped(), 4);
    assert_eq!(r.capacity(), 3);
}

#[test]
fn slice_storage_sees_the_stores() {
    let mut buf = [0u64; 3];
    {
        let mut r = ArrayRecorder::new(&mut buf[..]);
        r.record(11);
        r.record(12);
        assert_eq!(r.deltas(), &[11, 12]);
    }
    assert_eq!(buf, [11, 12, 0]);
}

#[test]
fn boxed_slice_storage_works() {
    let buf: Box<[u64]> = vec![0u64; 2].into_boxed_slice();
    let mut r = ArrayRecorder::new(buf);
    r.record(8);
    r.record(9);
    r.record(10);
    assert_eq!(r.deltas(), &[8, 9]);
    assert_eq!(r.capacity(), 2);
    assert_eq!(r.dropped(), 1);
}

#[test]
fn record_writes_only_the_next_free_slot() {
    let mut buf = [7u64; 4];
    {
        let mut r = ArrayRecorder::new(&mut buf[..]);
        r.record(1);
    }
    assert_eq!(buf, [1, 7, 7, 7]);
    let mut full = [3u64, 4];
    {
        let mut r = ArrayRecorder::new(&mut full[..]);
        r.record(1);
        r.record(2);
        r.record(9);
        assert_eq!(r.dropped(), 1);
    }
    assert_eq!(full, [1, 2]);
}
