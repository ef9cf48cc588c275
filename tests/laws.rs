use ropes::naive;
use ropes::nawa;
use ropes::{Rope, RopeError};

fn contents<T: Clone>(r: &Rope<T>) -> Vec<T> {
    r.to_vec().into_iter().cloned().collect()
}

#[test]
fn new_is_empty() {
    let r: Rope<u32> = Rope::new();
    assert_eq!(r.len(), 0);
    assert!(r.is_empty());
    assert!(r.to_vec().is_empty());
    let n: nawa::Rope<u32> = nawa::Rope::new();
    assert!(n.is_empty());
    let f: naive::Rope<u32> = naive::Rope::new();
    assert_eq!(f.len(), 0);
    assert!(f.is_empty());
}

#[test]
fn insert_into_middle() {
    let r = Rope::from(vec![2, 4]);
    let r = r.insert(1, vec![3, 5]).unwrap();
    assert_eq!(contents(&r), vec![2, 3, 5, 4]);
    assert_eq!(r.len(), 4);
    let r = r.insert(0, vec![1]).unwrap();
    assert_eq!(contents(&r), vec![1, 2, 3, 5, 4]);
}

#[test]
fn delete_from_middle() {
    let r = Rope::from(vec![2, 4, 6, 8]);
    let r = r.delete(1..3).unwrap();
    assert_eq!(contents(&r), vec![2, 8]);
    assert_eq!(r.len(), 2);
}

#[test]
fn delete_across_leaves() {
    let r = Rope::from(vec![1, 2, 3]);
    let r = r.insert(3, vec![4, 5, 6]).unwrap();
    let r = r.insert(0, vec![0]).unwrap();
    let r = r.insert(7, vec![7, 8]).unwrap();
    assert_eq!(contents(&r), vec![0, 1, 2, 3, 4, 5, 6, 7, 8]);
    let r = r.delete(2..8).unwrap();
    assert_eq!(contents(&r), vec![0, 1, 8]);
    assert_eq!(r.len(), 3);
}

#[test]
fn identity_edits() {
    let r = Rope::from(vec![1, 2, 3]);
    let r = r.insert(1, vec![9]).unwrap();
    for i in 0..=4 {
        let r2 = Rope::from(contents(&r));
        let r2 = r2.insert(i, Vec::new()).unwrap();
        assert_eq!(contents(&r2), vec![1, 9, 2, 3]);
        let r2 = r2.delete(i..i).unwrap();
        assert_eq!(contents(&r2), vec![1, 9, 2, 3]);
        assert_eq!(r2.len(), 4);
    }
}

#[test]
fn empty_range_at_end_is_accepted() {
    let r = Rope::from(vec![1, 2, 3]);
    let r = r.delete(3..3).unwrap();
    assert_eq!(contents(&r), vec![1, 2, 3]);
}

#[test]
fn insert_then_delete_round_trip() {
    let base = vec![10, 20, 30, 40];
    for i in 0..=4 {
        let r = Rope::from(base.clone());
        let r = r.insert(1, vec![7, 7]).unwrap();
        let r = r.delete(1..3).unwrap();
        let r = r.insert(i, vec![1, 2, 3]).unwrap();
        let r = r.delete(i..i + 3).unwrap();
        assert_eq!(contents(&r), base);
    }
}

#[test]
fn delete_reversed_range() {
    let r = Rope::from(vec![1, 2, 3]);
    #[allow(clippy::reversed_empty_ranges)]
    let e = r.delete(2..1).err();
    assert_eq!(e, Some(RopeError::InvalidRange { start: 2, end: 1 }));
}

#[test]
fn delete_end_past_len() {
    let r = Rope::from(vec![1, 2, 3]);
    let e = r.delete(1..4).err();
    assert_eq!(e, Some(RopeError::IndexOutOfBounds { len: 3, index: 4 }));
}

#[test]
fn delete_start_past_len() {
    let r = Rope::from(vec![1, 2, 3]);
    let e = r.delete(5..6).err();
    assert_eq!(e, Some(RopeError::IndexOutOfBounds { len: 3, index: 5 }));
    let f: naive::Rope<i32> = vec![1, 2, 3].into();
    let e = f.remove(4..4).err();
    assert_eq!(e, Some(RopeError::IndexOutOfBounds { len: 3, index: 4 }));
}

#[test]
fn insert_past_len_after_edits() {
    let r = Rope::from(vec![1, 2, 3]);
    let r = r.insert(1, vec![4, 5]).unwrap();
    let e = r.insert(6, vec![0]).err();
    assert_eq!(e, Some(RopeError::IndexOutOfBounds { len: 5, index: 6 }));
}

struct Lcg(u64);

impl Lcg {
    fn below(&mut self, n: usize) -> usize {
        self.0 = self.0.wrapping_mul(6364136223846793005).wrapping_add(1442695040888963407);
        ((self.0 >> 33) % (n as u64)) as usize
    }
}

#[test]
fn random() {
    for seed in 0..4u64 {
        let mut rand = Lcg(seed);
        let mut flat = naive::Rope::<u32>::new();
        let mut tree = Rope::<u32>::new();
        let mut other = nawa::Rope::<u32>::new();
        for _ in 0..3000 {
            if rand.below(2) == 0 {
                let n = rand.below(50);
                let xs: Vec<u32> = (0..n).map(|_| 100 + rand.below(900) as u32).collect();
                let i = rand.below(flat.len() + 1);
                flat = flat.insert(i, xs.clone()).unwrap();
                tree = tree.insert(i, xs.clone()).unwrap();
                other = other.insert(i, xs).unwrap();
            } else {
                if flat.is_empty() {
                    continue;
                }
                let start = rand.below(flat.len());
                let end = start + 1 + rand.below(flat.len() - start);
                flat = flat.remove(start..end).unwrap();
                tree = tree.delete(start..end).unwrap();
                other = other.remove(start..end).unwrap();
            }
            assert_eq!(flat.len(), tree.len());
            assert_eq!(flat.is_empty(), tree.is_empty());
            assert_eq!(flat.to_vec(), tree.to_vec());
            assert_eq!(flat.len(), other.len());
            assert_eq!(flat.to_vec(), other.to_vec());
        }
    }
}

#[test]
fn equality_ignores_shape() {
    let a = Rope::from(vec![1, 2, 3, 4]);
    let b = Rope::from(vec![3]);
    let b = b.insert(0, vec![1, 2]).unwrap();
    let b = b.insert(3, vec![4]).unwrap();
    assert!(a == b);
    let c = Rope::from(vec![1, 2, 3, 5]);
    assert!(a != c);
    let d = Rope::from(vec![1, 2, 3]);
    assert!(a != d);
    let e: nawa::Rope<i32> = vec![1, 2].into();
    let f: nawa::Rope<i32> = nawa::Rope::new().insert(0, vec![2]).unwrap().insert(0, vec![1]).unwrap();
    assert!(e == f);
}

#[test]
fn ordering_is_lexicographic() {
    let a = Rope::from(vec![1, 2, 3]);
    let b = Rope::from(vec![1, 3]);
    assert!(a < b);
    assert_eq!(a.partial_cmp(&b), Some(std::cmp::Ordering::Less));
    let c = Rope::from(vec![1, 2]);
    assert!(c < a);
    assert!(b > c);
    let d = Rope::from(vec![2]).insert(0, vec![1]).unwrap();
    assert_eq!(c.partial_cmp(&d), Some(std::cmp::Ordering::Equal));
    let e: Rope<i32> = Rope::new();
    assert!(e < c);
    let f: nawa::Rope<i32> = vec![5].into();
    let g: nawa::Rope<i32> = vec![4, 9].into();
    assert!(g < f);
}
