use cellarena::cell_set::CellSet;
use cellarena::clone_map::CloneMap;
use cellarena::clone_vec::CloneVec;
use cellarena::fixed_cell_set::FixedCellSet;
use cellarena::vec_cell::VecCell;
use cellarena::vec_cell_trait::VecCellTrait;
use cellarena::vec_ref_cell::VecRefCell;

#[test]
fn cell_set_insert_remove() {
    let mut s: CellSet<u64> = CellSet::new_vec(3);
    assert_eq!(s.capacity(), 3);
    assert!(s.is_empty());
    assert_eq!(s.insert(1), Some(0));
    assert_eq!(s.insert(2), Some(0));
    assert_eq!(s.insert(3), Some(0));
    assert_eq!(s.len(), 3);
    // full: a fourth insertion is refused
    assert_eq!(s.insert(4), None);
    // elements sit front-first: the most recent insertion is position 0
    assert_eq!(s.get(0), Some(3));
    assert_eq!(s.get(1), Some(2));
    assert_eq!(s.get(2), Some(1));
    assert_eq!(s.get(3), None);
    // removing position 1 moves the front element into the hole
    assert_eq!(s.remove(1), 2);
    assert_eq!(s.len(), 2);
    assert_eq!(s.get(0), Some(3));
    assert_eq!(s.get(1), Some(1));
    assert_eq!(s.iter(), vec![3, 1]);
    s.clear();
    assert!(s.is_empty());
    assert_eq!(s.capacity(), 3);
}

#[test]
fn cell_set_remove_front() {
    let mut s: CellSet<u64> = CellSet::new_vec(2);
    s.insert(10);
    s.insert(20);
    assert_eq!(s.remove(0), 20);
    assert_eq!(s.iter(), vec![10]);
}

#[test]
fn cell_set_clones() {
    let mut s: CellSet<String> = CellSet::new_vec(2);
    s.insert(String::from("a"));
    s.insert(String::from("b"));
    assert_eq!(s.get_clone(0), Some(String::from("b")));
    assert_eq!(s.get_clone(1), Some(String::from("a")));
    assert_eq!(s.get_clone(2), None);
    assert_eq!(s.iter_clone(), vec![String::from("b"), String::from("a")]);
}

#[test]
fn fixed_cell_set_basics() {
    let mut s: FixedCellSet<u64, 3> = Default::default();
    assert_eq!(s.capacity(), 3);
    assert!(s.is_empty());
    assert_eq!(s.insert(5), Some(0));
    assert_eq!(s.insert(6), Some(0));
    assert_eq!(s.insert(7), Some(0));
    assert_eq!(s.insert(8), None);
    assert_eq!(s.len(), 3);
    assert_eq!(s.get(0), Some(7));
    assert_eq!(s.remove(2), 5);
    assert_eq!(s.iter(), vec![6, 7]);
    s.clear();
    assert!(s.is_empty());
}

#[test]
fn fixed_cell_set_clones() {
    let mut s: FixedCellSet<String, 2> = Default::default();
    s.insert(String::from("x"));
    s.insert(String::from("y"));
    assert_eq!(s.get_clone(0), Some(String::from("y")));
    assert_eq!(s.iter_clone(), vec![String::from("y"), String::from("x")]);
    let t = s.clone();
    assert_eq!(t.get_clone(1), Some(String::from("x")));
}

#[test]
fn clone_vec_editing() {
    let mut v: CloneVec<u64> = CloneVec::new();
    assert!(v.is_empty());
    v.push(1);
    v.push(2);
    v.push(3);
    assert_eq!(v.len(), 3);
    v.insert(1, 10);
    assert_eq!(v.get(1), Some(10));
    assert_eq!(v.remove(1), 10);
    assert_eq!(v.swap_remove(0), 1);
    assert_eq!(v.get(0), Some(3));
    assert_eq!(v.pop(), Some(2));
    assert_eq!(v.pop(), Some(3));
    assert_eq!(v.pop(), None);
}

#[test]
fn clone_vec_bulk_ops() {
    let mut v: CloneVec<u8> = CloneVec::with_capacity(8);
    v.extend_from_slice(&[1, 2, 3]);
    assert_eq!(v.len(), 3);
    v.resize(5, 9);
    assert_eq!(v.get(4), Some(9));
    v.truncate(2);
    assert_eq!(v.len(), 2);
    v.set(0, 7);
    assert_eq!(v.get(0), Some(7));
    v.reserve(10);
    assert!(v.try_reserve(4).is_ok());
    assert_eq!(v.len(), 2);
    v.clear();
    assert!(v.is_empty());
}

#[test]
fn clone_vec_cursor() {
    let mut v: CloneVec<u64> = CloneVec::new();
    v.push(4);
    v.push(5);
    let mut it = v.iter();
    assert_eq!(it.next(), Some(4));
    assert_eq!(it.next(), Some(5));
    assert_eq!(it.next(), None);
    // the cursor is restartable: a fresh one walks from the front again
    let mut it2 = v.iter();
    assert_eq!(it2.next(), Some(4));
}

#[test]
fn vec_cell_through_trait() {
    let mut v: VecCell<u64> = VecCellTrait::new();
    v.push(1);
    v.push(2);
    v.insert(0, 0);
    assert_eq!(v.len(), 3);
    assert_eq!(v.get(0), Some(0));
    assert_eq!(v.remove(0), 0);
    assert_eq!(v.swap_remove(0), 1);
    assert_eq!(v.pop(), Some(2));
    assert_eq!(v.pop(), None);
    let mut w: VecCell<u8> = VecCellTrait::with_capacity(4);
    w.extend_from_slice(&[3, 4]);
    w.resize(4, 0);
    w.truncate(3);
    w.set(2, 9);
    assert_eq!(w.get(2), Some(9));
    let mut it = w.iter();
    assert_eq!(it.next(), Some(3));
    assert_eq!(it.next(), Some(4));
    assert_eq!(it.next(), Some(9));
    assert_eq!(it.next(), None);
    w.clear();
    assert!(w.is_empty());
}

#[test]
fn vec_ref_cell_through_trait() {
    let mut v: VecRefCell<u64> = VecCellTrait::new();
    v.push(8);
    v.push(9);
    assert_eq!(v.len(), 2);
    assert_eq!(v.get(1), Some(9));
    assert_eq!(v.remove(0), 8);
    assert_eq!(v.get(0), Some(9));
    v.reserve(2);
    assert!(v.try_reserve(2).is_ok());
    let mut it = v.iter();
    assert_eq!(it.next(), Some(9));
    assert_eq!(it.next(), None);
}

#[test]
fn clone_map_basics() {
    let mut m: CloneMap<u64, String> = CloneMap::new();
    assert!(m.is_empty());
    assert_eq!(m.insert(1, String::from("one")), None);
    assert_eq!(m.insert(2, String::from("two")), None);
    assert_eq!(m.len(), 2);
    assert_eq!(m.insert(1, String::from("uno")), Some(String::from("one")));
    assert_eq!(m.get(&1), Some(String::from("uno")));
    assert_eq!(m.get(&3), None);
    assert!(m.contains_key(&2));
    assert!(!m.contains_key(&3));
    assert_eq!(m.remove(&2), Some(String::from("two")));
    assert_eq!(m.remove(&2), None);
    assert_eq!(m.len(), 1);
    m.reserve(4);
    assert_eq!(m.len(), 1);
    m.clear();
    assert!(m.is_empty());
    let w: CloneMap<u64, u64> = CloneMap::with_capacity(8);
    assert!(w.is_empty());
    let d: CloneMap<u64, u64> = Default::default();
    assert!(d.is_empty());
}

#[test]
fn clone_map_from_hash_map() {
    let mut h = std::collections::HashMap::new();
    h.insert(5u64, 50u64);
    let m: CloneMap<u64, u64> = CloneMap::from(h);
    assert_eq!(m.get(&5), Some(50));
    assert_eq!(m.len(), 1);
}

#[test]
fn cell_set_empty_transitions() {
    let mut s: CellSet<u64> = CellSet::new_vec(1);
    assert!(s.is_empty());
    s.insert(4);
    assert!(!s.is_empty());
    assert_eq!(s.remove(0), 4);
    assert!(s.is_empty());
    assert_eq!(s.get(0), None);
}

#[test]
fn clone_vec_get_out_of_range() {
    let mut v: CloneVec<u64> = CloneVec::new();
    assert_eq!(v.get(0), None);
    v.push(1);
    assert_eq!(v.get(0), Some(1));
    assert_eq!(v.get(1), None);
}
