//! Guest storage reads and writes through the boundary, and the profiler.
use gooseboy_core::profiler::{
    begin_profiler, end_profiler, get_profile_averages, rebegin_profiler, Profiler,
};
use gooseboy_core::storage::{Storage, STORAGE_SIZE};

#[test]
fn storage_starts_zeroed_and_reports_its_size() {
    let s = Storage::new();
    assert!(!s.dirty);
    assert_eq!(s.data.len(), STORAGE_SIZE);
    assert_eq!(Storage::size(), STORAGE_SIZE as u32);
}

#[test]
fn storage_write_then_read_round_trips() {
    let mut s = Storage::new();
    let guest = vec![9u8, 8, 7, 6];
    assert_eq!(s.write(&guest, 100, 1, 3), 3);
    assert!(s.dirty);
    let mut out = vec![0u8; 5];
    assert_eq!(s.read(&mut out, 100, 1, 3), 3);
    assert_eq!(out, vec![0, 8, 7, 6, 0]);
}

#[test]
fn storage_access_is_clamped_to_its_end() {
    let mut s = Storage::new();
    let guest = vec![1u8; 16];
    // two bytes before the end: only two are written
    assert_eq!(s.write(&guest, STORAGE_SIZE - 2, 0, 10), 2);
    let mut out = vec![0u8; 16];
    assert_eq!(s.read(&mut out, STORAGE_SIZE - 2, 0, 10), 2);
    assert_eq!(&out[..3], &[1, 1, 0]);
    // starting past the end touches nothing
    assert_eq!(s.write(&guest, STORAGE_SIZE, 0, 4), 0);
    assert_eq!(s.read(&mut out, STORAGE_SIZE, 0, 4), 0);
}

#[test]
fn storage_refuses_guest_ranges_out_of_bounds() {
    let mut s = Storage::new();
    let guest = vec![1u8; 4];
    assert_eq!(s.write(&guest, 0, 2, 4), 0);
    assert!(!s.dirty);
    let mut out = vec![0u8; 4];
    assert_eq!(s.read(&mut out, 0, 2, 4), 0);
    assert_eq!(out, vec![0, 0, 0, 0]);
}

#[test]
fn storage_clear_zeroes_and_marks_dirty() {
    let mut s = Storage::new();
    let guest = vec![5u8; 4];
    s.write(&guest, 0, 0, 4);
    s.clear();
    assert!(s.dirty);
    let mut out = vec![9u8; 4];
    assert_eq!(s.read(&mut out, 0, 0, 4), 4);
    assert_eq!(out, vec![0, 0, 0, 0]);
}

#[test]
fn storage_load_replaces_the_image() {
    let mut s = Storage::new();
    let mut image = vec![0u8; STORAGE_SIZE];
    image[3] = 42;
    s.load(image);
    let mut out = vec![0u8; 4];
    assert_eq!(s.read(&mut out, 0, 0, 4), 4);
    assert_eq!(out, vec![0, 0, 0, 42]);
}

#[test]
fn profiler_spans_return_their_label() {
    let mut p = Profiler::new();
    begin_profiler(&mut p, "frame");
    let (label, _elapsed) = end_profiler(&mut p).expect("one span was open");
    assert_eq!(label, "frame");
    assert!(end_profiler(&mut p).is_none());
}

#[test]
fn profiler_averages_accumulate_per_label() {
    let mut p = Profiler::new();
    for _ in 0..3 {
        begin_profiler(&mut p, "update");
        end_profiler(&mut p);
    }
    begin_profiler(&mut p, "draw");
    end_profiler(&mut p);
    let avgs = get_profile_averages(&p);
    assert_eq!(avgs.len(), 2);
    assert_eq!(avgs[0].0, "update");
    assert_eq!(avgs[1].0, "draw");
}

#[test]
fn profiler_rebegin_closes_and_opens() {
    let mut p = Profiler::new();
    assert!(rebegin_profiler(&mut p, "first").is_none());
    let closed = rebegin_profiler(&mut p, "second").expect("a span was open");
    assert_eq!(closed.0, "first");
    let closed = end_profiler(&mut p).expect("a span was open");
    assert_eq!(closed.0, "second");
}
