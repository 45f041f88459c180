use cellarena::clear::Clear;
use cellarena::clear::ClearMut;
use cellarena::clone_cell::CloneCell;
use cellarena::default_cell::DefaultCell;
use cellarena::index::Index;
use cellarena::mcell::MCell;
use cellarena::ptr::Ptr;
use cellarena::ptr_cell::PtrCell;
use cellarena::string_cell::StringCell;
use cellarena::var::Var;

#[test]
fn test_rcell() {
    struct A {
        x: i32,
    }

    let a = A { x: 10 };
    let c = PtrCell::new(&a);
    assert_eq!(c.get().x, 10);
}

#[test]
fn mcell_basics() {
    let mut c = MCell::new(5u64);
    assert_eq!(c.get(), 5);
    assert_eq!(c.replace(8), 5);
    assert_eq!(c.get(), 8);
    c.set(11);
    assert_eq!(c.get(), 11);
    assert_eq!(c.take(), 11);
    assert_eq!(c.get(), 0);
}

#[test]
fn mcell_arithmetic() {
    let mut c = MCell::new(10u64);
    c.add(5);
    assert_eq!(c.get(), 15);
    c.sub(3);
    assert_eq!(c.get(), 12);
    c.mul(4);
    assert_eq!(c.get(), 48);
    c.div(5);
    assert_eq!(c.get(), 9);
    c.rem(4);
    assert_eq!(c.get(), 1);
    let mut s = MCell::new(7i64);
    s.neg();
    assert_eq!(s.get(), -7);
    s.neg();
    assert_eq!(s.get(), 7);
}

#[test]
fn default_cell_basics() {
    let mut c = DefaultCell::new(3u32);
    assert_eq!(c.get(), 3);
    assert_eq!(c.replace(9), 3);
    c.set(12);
    assert_eq!(c.get(), 12);
    assert_eq!(c.take(), 12);
    assert_eq!(c.get(), 0);
    let mut d = DefaultCell::new(77u32);
    d.clear();
    assert_eq!(d.get(), 0);
    let e: DefaultCell<u32> = Default::default();
    assert_eq!(e.get(), 0);
}

#[test]
fn string_cell_basics() {
    let mut c = StringCell::new("hello");
    assert_eq!(c.get(), "hello");
    assert_eq!(c.replace("world"), "hello");
    assert_eq!(c.get(), "world");
    c.set("again");
    assert_eq!(c.get(), "again");
    assert_eq!(c.take(), "again");
    assert_eq!(c.get(), "");
    let d = StringCell::from_string(String::from("owned"));
    assert_eq!(d.get(), "owned");
    let mut e = StringCell::new("full");
    e.clear();
    assert_eq!(e.get(), "");
}

#[test]
fn ptr_basics() {
    let mut p = Ptr::new(4u8);
    assert_eq!(p.get(), 4);
    p.set(6);
    assert_eq!(p.get(), 6);
    let q: Ptr<u8> = Ptr::from(9);
    assert_eq!(q.get(), 9);
}

#[test]
fn ptr_cell_reseating() {
    let x = 1u64;
    let y = 2u64;
    let mut c = PtrCell::new(&x);
    assert_eq!(*c.get(), 1);
    c.set(&y);
    assert_eq!(*c.get(), 2);
}

#[test]
fn clone_cell_basics() {
    let c = CloneCell::from(vec![1u8, 2, 3]);
    assert_eq!(c.get_ref().len(), 3);
    let v = c.into_inner();
    assert_eq!(v, vec![1, 2, 3]);
}

#[test]
fn var_on_cells() {
    let mut p = Ptr::new(5u64);
    assert_eq!(Var::get(&p), 5);
    Var::set(&mut p, 8);
    assert_eq!(Var::get(&p), 8);
    let mut m = MCell::new(String::from("a"));
    Var::set(&mut m, String::from("b"));
    assert_eq!(Var::get(&m), "b");
    let mut c = PtrCell::new(3u32);
    Var::set(&mut c, 4);
    assert_eq!(Var::get(&c), 4);
}

#[test]
fn index_conversions() {
    assert_eq!(Index::to_usize(7u8), 7usize);
    assert_eq!(Index::to_usize(300u16), 300usize);
    assert_eq!(Index::to_usize(70000u32), 70000usize);
    assert_eq!(Index::to_usize(5usize), 5usize);
    let b: u8 = Index::from_usize(255);
    assert_eq!(b, 255u8);
    let w: u16 = Index::from_usize(40000);
    assert_eq!(w, 40000u16);
    let d: u32 = Index::from_usize(100000);
    assert_eq!(d, 100000u32);
    let u: usize = Index::from_usize(12);
    assert_eq!(u, 12usize);
}

#[test]
fn clear_mut_on_collections() {
    let mut s = String::from("abc");
    s.clear_mut();
    assert_eq!(s, "");
    let mut v = vec![1u8, 2];
    v.clear_mut();
    assert!(v.is_empty());
    let mut m = std::collections::HashMap::new();
    m.insert(1u64, 2u64);
    m.clear_mut();
    assert!(m.is_empty());
    // a Clear type is a ClearMut type through the blanket implementation
    let mut c = StringCell::new("xy");
    c.clear_mut();
    assert_eq!(c.get(), "");
}
