use condenser::Store;

#[test]
fn ring_write_read() {
    let mut s: Store<f32> = Store::new(20, 0.0);
    s.write(&[1.0, 2.0, 3.0]);
    assert_eq!(s.read(3), vec![1.0, 2.0, 3.0]);
}

#[test]
fn ring_wraparound() {
    let mut s: Store<f32> = Store::new(4, 0.0);
    s.write(&[1.0, 2.0, 3.0, 4.0]);
    assert_eq!(s.read(2), vec![1.0, 2.0]);
    s.write(&[5.0, 6.0]);
    assert_eq!(s.read(4), vec![3.0, 4.0, 5.0, 6.0]);
}

#[test]
fn read_before_recording_is_silence() {
    let mut s: Store<f32> = Store::new(8, 0.0);
    assert_eq!(s.read(3), vec![0.0, 0.0, 0.0]);
    assert_eq!(s.recorded_frames(), 0);
    assert_eq!(s.get_recorded(), Vec::<f32>::new());
}

#[test]
fn zero_capacity_records_nothing() {
    let mut s: Store<i32> = Store::new(0, 0);
    s.write(&[1, 2, 3]);
    assert_eq!(s.max_frames(), 0);
    assert_eq!(s.recorded_frames(), 0);
    assert_eq!(s.read(2), vec![0, 0]);
}

#[test]
fn playback_loops_over_recorded_span_only() {
    let mut s: Store<i32> = Store::new(10, 0);
    s.write(&[1, 2, 3]);
    assert_eq!(s.recorded_frames(), 3);
    assert_eq!(s.read(7), vec![1, 2, 3, 1, 2, 3, 1]);
    assert_eq!(s.read(2), vec![2, 3]);
}

#[test]
fn write_split_at_physical_end_reads_in_order() {
    let mut s: Store<i32> = Store::new(5, 0);
    s.write(&[1, 2, 3]);
    s.write(&[4, 5, 6, 7]);
    assert_eq!(s.recorded_frames(), 5);
    assert_eq!(s.get_recorded(), vec![6, 7, 3, 4, 5]);
    assert_eq!(s.read(5), vec![6, 7, 3, 4, 5]);
}

#[test]
fn write_longer_than_capacity_keeps_latest() {
    let mut s: Store<i32> = Store::new(3, 0);
    s.write(&[1, 2, 3, 4, 5, 6, 7]);
    assert_eq!(s.get_recorded(), vec![7, 5, 6]);
    assert_eq!(s.recorded_frames(), 3);
    assert_eq!(s.read(3), vec![7, 5, 6]);
}

#[test]
fn recorded_length_saturates_at_capacity() {
    let mut s: Store<i32> = Store::new(4, 0);
    s.write(&[1, 2, 3]);
    s.write(&[4, 5, 6]);
    assert_eq!(s.recorded_frames(), 4);
    s.write(&[7]);
    assert_eq!(s.recorded_frames(), 4);
    assert_eq!(s.get_recorded(), vec![5, 6, 7, 4]);
}

#[test]
fn preload_seeds_playback() {
    let mut s: Store<f32> = Store::new(20, 0.0);
    s.preload(&[1.0, 2.0, 3.0]);
    assert_eq!(s.recorded_frames(), 3);
    assert_eq!(s.read(4), vec![1.0, 2.0, 3.0, 1.0]);
    s.write(&[4.0]);
    assert_eq!(s.get_recorded(), vec![1.0, 2.0, 3.0, 4.0]);
}

#[test]
fn preload_drops_what_does_not_fit() {
    let mut s: Store<i32> = Store::new(2, 0);
    s.preload(&[1, 2, 3]);
    assert_eq!(s.get_recorded(), vec![1, 2]);
    s.write(&[9]);
    assert_eq!(s.get_recorded(), vec![9, 2]);
}

#[test]
fn resize_discards_recording() {
    let mut s: Store<i32> = Store::new(4, 0);
    s.write(&[1, 2]);
    s.resize(4);
    assert_eq!(s.get_recorded(), vec![1, 2]);
    s.resize(6);
    assert_eq!(s.max_frames(), 6);
    assert_eq!(s.recorded_frames(), 0);
    assert_eq!(s.read(2), vec![0, 0]);
}

#[test]
fn capacity_in_frames() {
    assert_eq!(condenser::capacity_frames(10, 2), Some(20));
    assert_eq!(condenser::capacity_frames(48000, 0), Some(0));
    assert_eq!(condenser::capacity_frames(usize::MAX, 2), None);
}

#[test]
fn reset_forgets_recording() {
    let mut s: Store<i32> = Store::new(4, 0);
    s.write(&[1, 2, 3]);
    s.read(2);
    s.reset();
    assert_eq!(s.recorded_frames(), 0);
    assert_eq!(s.read(2), vec![0, 0]);
    s.write(&[7]);
    assert_eq!(s.get_recorded(), vec![7]);
    assert_eq!(s.read(3), vec![7, 7, 7]);
}

#[test]
fn one_read_equals_two_consecutive_reads() {
    let mut a: Store<i32> = Store::new(10, 0);
    let mut b: Store<i32> = Store::new(10, 0);
    a.write(&[1, 2, 3]);
    b.write(&[1, 2, 3]);
    let whole = a.read(5);
    let mut parts = b.read(2);
    parts.extend(b.read(3));
    assert_eq!(whole, parts);
    assert_eq!(whole, vec![1, 2, 3, 1, 2]);
}
