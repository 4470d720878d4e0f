//! The guest-memory boundary: valid ranges get exactly the requested
//! effect, out-of-range accesses are refused whole with the documented
//! zero result.
use gooseboy_core::boundary::{
    check_range, clear_surface, mem_copy, mem_fill, read_bytes, write_bytes, WASMHostState,
};

#[test]
fn check_range_covers_the_edges() {
    assert!(check_range(10, 0, 10));
    assert!(check_range(10, 10, 0));
    assert!(!check_range(10, 10, 1));
    assert!(!check_range(10, 0xFFFF_FFFF, 2));
    assert!(check_range(0, 0, 0));
}

#[test]
fn read_bytes_returns_exactly_the_range() {
    let mem = vec![10u8, 11, 12, 13, 14];
    assert_eq!(read_bytes(&mem, 1, 3), Some(vec![11, 12, 13]));
    assert_eq!(read_bytes(&mem, 0, 0), Some(vec![]));
    assert_eq!(read_bytes(&mem, 3, 3), None);
    assert_eq!(read_bytes(&mem, 5, 1), None);
}

#[test]
fn write_bytes_touches_only_the_range() {
    let mut mem = vec![0u8; 6];
    assert!(write_bytes(&mut mem, 2, &[7, 8]));
    assert_eq!(mem, vec![0, 0, 7, 8, 0, 0]);
    // one byte past the end: refused, memory untouched
    assert!(!write_bytes(&mut mem, 5, &[1, 2]));
    assert_eq!(mem, vec![0, 0, 7, 8, 0, 0]);
}

#[test]
fn mem_fill_uses_the_low_byte() {
    let mut mem = vec![0u8; 4];
    assert!(mem_fill(&mut mem, 1, 2, 0x0001_02FF));
    assert_eq!(mem, vec![0, 0xFF, 0xFF, 0]);
    assert!(!mem_fill(&mut mem, 3, 2, 0));
    assert_eq!(mem, vec![0, 0xFF, 0xFF, 0]);
}

#[test]
fn mem_copy_handles_overlap() {
    let mut mem = vec![1u8, 2, 3, 4, 5];
    // overlapping forward copy: the source is captured first
    assert!(mem_copy(&mut mem, 1, 0, 4));
    assert_eq!(mem, vec![1, 1, 2, 3, 4]);
    assert!(!mem_copy(&mut mem, 2, 0, 4));
    assert_eq!(mem, vec![1, 1, 2, 3, 4]);
}

#[test]
fn clear_surface_lays_the_color_down_little_endian() {
    let mut mem = vec![0u8; 10];
    assert!(clear_surface(&mut mem, 1, 6, 0xAABBCCDD));
    assert_eq!(mem, vec![0, 0xDD, 0xCC, 0xBB, 0xAA, 0xDD, 0xCC, 0, 0, 0]);
    assert!(!clear_surface(&mut mem, 8, 3, 0));
}

#[test]
fn host_state_starts_with_cursor_released() {
    let s = WASMHostState::new();
    assert!(!s.cursor_grabbed);
}
