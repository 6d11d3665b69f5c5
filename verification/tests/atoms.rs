use paravita::{atoms_count, AtomStore};

#[test]
pub fn insert_get() {
    let mut store = AtomStore::new();
    let foo_atom = store.insert("foo");
    let bar_atom = store.insert("bar");

    assert_eq!("foo", store.read(foo_atom));
    let baz_atom = store.insert("baz");
    assert_eq!("bar", store.read(bar_atom));
    assert_eq!("baz", store.read(baz_atom));
    assert_eq!(atoms_count(&store), 3);
}

#[test]
fn intern_idempotent() {
    let mut store = AtomStore::new();
    let a1 = store.insert("alpha");
    let a2 = store.insert("alpha");
    assert_eq!(a1, a2);
    assert_eq!(atoms_count(&store), 1);
}

#[test]
fn intern_injective() {
    let mut store = AtomStore::new();
    let a = store.insert("alpha");
    let b = store.insert("beta");
    assert_ne!(a, b);
    assert_ne!(a.handle(), b.handle());
}

#[test]
fn intern_resolves_back() {
    let mut store = AtomStore::new();
    let a = store.insert("spawn");
    assert_eq!(store.read(a), "spawn");
}

#[test]
fn handles_stable_after_more_inserts() {
    let mut store = AtomStore::new();
    let first = store.insert("first");
    for i in 0..100u32 {
        store.insert(&format!("extra-{i}"));
    }
    assert_eq!(store.read(first), "first");
    assert_eq!(atoms_count(&store), 101);
}

#[test]
fn handles_are_nonzero_and_dense() {
    let mut store = AtomStore::new();
    let a = store.insert("one");
    let b = store.insert("two");
    let c = store.insert("three");
    assert_eq!(a.handle(), 1);
    assert_eq!(b.handle(), 2);
    assert_eq!(c.handle(), 3);
}

#[test]
fn empty_store_counts_zero() {
    let store = AtomStore::new();
    assert_eq!(atoms_count(&store), 0);
}

#[test]
fn empty_string_interns() {
    let mut store = AtomStore::new();
    let e = store.insert("");
    assert_eq!(store.read(e), "");
    let e2 = store.insert("");
    assert_eq!(e, e2);
}
