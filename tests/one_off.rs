use ropes::naive;
use ropes::nawa;
use ropes::{Rope, RopeError};

fn to_vec<T: Clone>(r: &Rope<T>) -> Vec<T> {
    r.to_vec().into_iter().cloned().collect()
}

fn nawa_to_vec<T: Clone>(r: &nawa::Rope<T>) -> Vec<T> {
    r.to_vec().into_iter().cloned().collect()
}

fn naive_to_vec<T: Clone>(r: &naive::Rope<T>) -> Vec<T> {
    r.to_vec().into_iter().cloned().collect()
}

#[test]
fn test_rope_good() {
    let r = Rope::from(b"break".to_vec());

    assert_eq!(r.len(), 5);
    assert!(!r.is_empty());
    assert_eq!(to_vec(&r), b"break");

    let r = r.insert(5, b"fast".to_vec()).unwrap();

    assert_eq!(r.len(), 9);
    assert!(!r.is_empty());
    assert_eq!(to_vec(&r), b"breakfast");

    let r = r.delete(3..8).unwrap();

    assert_eq!(to_vec(&r), b"bret");
    assert_eq!(r.len(), 4);
    assert!(!r.is_empty());

    let r = r.delete(1..2).unwrap();

    assert_eq!(to_vec(&r), b"bet");
    assert_eq!(r.len(), 3);
    assert!(!r.is_empty());

    let r = r.insert(3, b"".to_vec()).unwrap();

    assert_eq!(to_vec(&r), b"bet");
    assert_eq!(r.len(), 3);
    assert!(!r.is_empty());

    let r = r.insert(3, b"ter".to_vec()).unwrap();

    assert_eq!(to_vec(&r), b"better");
    assert_eq!(r.len(), 6);
    assert!(!r.is_empty());

    let r = r.delete(0..6).unwrap();

    assert_eq!(to_vec(&r), b"");
    assert_eq!(r.len(), 0);
    assert!(r.is_empty());
}

#[test]
fn test_nawa_good() {
    let r: nawa::Rope<u8> = b"break".to_vec().into();

    assert_eq!(r.len(), 5);
    assert!(!r.is_empty());
    assert_eq!(nawa_to_vec(&r), b"break");

    let r = r.insert(5, b"fast".to_vec()).unwrap();

    assert_eq!(r.len(), 9);
    assert!(!r.is_empty());
    assert_eq!(nawa_to_vec(&r), b"breakfast");

    let r = r.remove(3..8).unwrap();

    assert_eq!(nawa_to_vec(&r), b"bret");
    assert_eq!(r.len(), 4);
    assert!(!r.is_empty());

    let r = r.remove(1..2).unwrap();

    assert_eq!(nawa_to_vec(&r), b"bet");
    assert_eq!(r.len(), 3);
    assert!(!r.is_empty());

    let r = r.insert(3, b"".to_vec()).unwrap();

    assert_eq!(nawa_to_vec(&r), b"bet");
    assert_eq!(r.len(), 3);
    assert!(!r.is_empty());

    let r = r.insert(3, b"ter".to_vec()).unwrap();

    assert_eq!(nawa_to_vec(&r), b"better");
    assert_eq!(r.len(), 6);
    assert!(!r.is_empty());

    let r = r.remove(0..6).unwrap();

    assert_eq!(nawa_to_vec(&r), b"");
    assert_eq!(r.len(), 0);
    assert!(r.is_empty());
}

#[test]
fn test_naive_good() {
    let r: naive::Rope<u8> = b"break".to_vec().into();

    assert_eq!(r.len(), 5);
    assert!(!r.is_empty());
    assert_eq!(naive_to_vec(&r), b"break");

    let r = r.insert(5, b"fast".to_vec()).unwrap();

    assert_eq!(r.len(), 9);
    assert!(!r.is_empty());
    assert_eq!(naive_to_vec(&r), b"breakfast");

    let r = r.remove(3..8).unwrap();

    assert_eq!(naive_to_vec(&r), b"bret");
    assert_eq!(r.len(), 4);
    assert!(!r.is_empty());

    let r = r.remove(1..2).unwrap();

    assert_eq!(naive_to_vec(&r), b"bet");
    assert_eq!(r.len(), 3);
    assert!(!r.is_empty());

    let r = r.insert(3, b"".to_vec()).unwrap();

    assert_eq!(naive_to_vec(&r), b"bet");
    assert_eq!(r.len(), 3);
    assert!(!r.is_empty());

    let r = r.insert(3, b"ter".to_vec()).unwrap();

    assert_eq!(naive_to_vec(&r), b"better");
    assert_eq!(r.len(), 6);
    assert!(!r.is_empty());

    let r = r.remove(0..6).unwrap();

    assert_eq!(naive_to_vec(&r), b"");
    assert_eq!(r.len(), 0);
    assert!(r.is_empty());
}

#[test]
fn test_rope_bad() {
    let r = Rope::from(b"hey".to_vec());
    let e = r.insert(123, b"nope".to_vec()).err();
    assert_eq!(e, Some(RopeError::IndexOutOfBounds { len: 3, index: 123 }));
}

#[test]
fn test_nawa_bad() {
    let r: nawa::Rope<u8> = b"hey".to_vec().into();
    let e = r.insert(123, b"nope".to_vec()).err();
    assert_eq!(e, Some(RopeError::IndexOutOfBounds { len: 3, index: 123 }));
}

#[test]
fn test_naive_bad() {
    let r: naive::Rope<u8> = b"hey".to_vec().into();
    let e = r.insert(123, b"nope".to_vec()).err();
    assert_eq!(e, Some(RopeError::IndexOutOfBounds { len: 3, index: 123 }));
}
