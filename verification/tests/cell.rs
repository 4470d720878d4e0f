//! The exclusive-access cell: mutation through scopes, direct access, and
//! unwrapping.
use gooseboy_core::cell::FastCell;

#[test]
fn basic_mutation() {
    let mut cell = FastCell::new(10);
    let mut v = cell.begin_access().unwrap();
    v += 5;
    cell.end_access(v);
    assert_eq!(cell.get_mut(), &15);
}

#[test]
fn multiple_with_calls() {
    let mut cell = FastCell::new(0);
    for i in 0..5 {
        let mut v = cell.begin_access().unwrap();
        v += i;
        cell.end_access(v);
    }
    assert_eq!(cell.get_mut(), &10);
}

#[test]
fn sequential_with_calls() {
    let mut cell = FastCell::new(1);
    let mut v = cell.begin_access().unwrap();
    v *= 2;
    cell.end_access(v);
    let mut v = cell.begin_access().unwrap();
    v += 3;
    cell.end_access(v);
    assert_eq!(cell.get_mut(), &5);
}

#[test]
fn get_mut_usage() {
    let mut cell = FastCell::new(100);
    let v = cell.get_mut();
    *v -= 50;
    assert_eq!(cell.get_mut(), &50);
}

#[test]
fn into_inner_returns_value() {
    let cell = FastCell::new(String::from("hello"));
    let s = cell.into_inner().expect("failed to get inner");
    assert_eq!(s, "hello");
}

#[test]
fn large_data_mutation() {
    let size = 1024 * 1024;
    let mut cell = FastCell::new(vec![0u8; size]);
    let mut v = cell.begin_access().unwrap();
    v[0] = 1;
    cell.end_access(v);
    let mut v = cell.begin_access().unwrap();
    v[size - 1] = 255;
    cell.end_access(v);
    let v = cell.get_mut();
    assert_eq!(v[0], 1);
    assert_eq!(v[size - 1], 255);
    assert_eq!(v.len(), size);
}

#[test]
fn multiple_types() {
    let mut cell_int = FastCell::new(42);
    let mut cell_vec = FastCell::new(vec![1, 2, 3]);
    let mut v = cell_int.begin_access().unwrap();
    v += 1;
    cell_int.end_access(v);
    let mut v = cell_vec.begin_access().unwrap();
    v.push(4);
    cell_vec.end_access(v);
    assert_eq!(cell_int.get_mut(), &43);
    assert_eq!(cell_vec.get_mut(), &[1, 2, 3, 4]);
}

#[test]
fn chained_with_calls() {
    let mut cell = FastCell::new(0);
    let mut sum = 0;
    for _ in 0..10 {
        let mut v = cell.begin_access().unwrap();
        v += 1;
        sum += v;
        cell.end_access(v);
    }
    assert_eq!(*cell.get_mut(), 10);
    assert_eq!(sum, 55);
}

#[test]
fn reuse_after_into_inner() {
    let cell = FastCell::new(99);
    let val = cell.into_inner().expect("failed to get inner");
    assert_eq!(val, 99);
}

#[test]
fn sequential_with_is_ok() {
    let mut cell = FastCell::new(1);
    let mut v = cell.begin_access().unwrap();
    v *= 2;
    cell.end_access(v);
    let mut v = cell.begin_access().unwrap();
    v += 3;
    cell.end_access(v);
    assert_eq!(cell.get_mut(), &5);
}

#[test]
fn second_scope_fails_fast_while_open() {
    let mut cell = FastCell::new(7);
    let v = cell.begin_access().unwrap();
    assert!(cell.begin_access().is_none());
    cell.end_access(v);
}

#[test]
fn scope_succeeds_after_close() {
    let mut cell = FastCell::new(7);
    let v = cell.begin_access().unwrap();
    cell.end_access(v + 1);
    let v = cell.begin_access().unwrap();
    assert_eq!(v, 8);
    cell.end_access(v);
}

#[test]
fn into_inner_while_open_returns_cell() {
    let mut cell = FastCell::new(3);
    let v = cell.begin_access().unwrap();
    assert_eq!(v, 3);
    let back = cell.into_inner();
    assert!(back.is_err());
}
