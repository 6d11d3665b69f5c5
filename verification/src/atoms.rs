//! The intern table mapping short immutable strings to compact handles.

use vstd::prelude::*;

verus! {

/// A handle to an interned string.
///
/// Handles are nonzero so that one can sit in a nullable one-word
/// field; handle `i + 1` names the string interned `i`-th. Once
/// assigned, a handle keeps resolving to the same bytes for the life
/// of the store.
#[derive(Clone, Copy, Debug, PartialEq, Eq, PartialOrd, Ord, Hash, Structural)]
pub struct Atom {
    handle: u32,
}

impl Atom {
    /// The raw nonzero identifier.
    pub closed spec fn spec_handle(self) -> u32 {
        self.handle
    }

    /// A handle is valid when it is nonzero.
    pub open spec fn wf(self) -> bool {
        self.spec_handle() >= 1
    }

    /// The raw identifier, for encoders.
    pub fn handle(&self) -> (r: u32)
        ensures
            r == self.spec_handle(),
    {
        self.handle
    }
}

#[verifier::external_type_specification]
#[verifier::external_body]
#[verifier::reject_recursive_types(T)]
#[verifier::reject_recursive_types(S)]
pub struct ExIndexSet<T, S>(indexmap::IndexSet<T, S>);

#[verifier::external_type_specification]
#[verifier::external_body]
pub struct ExFnvHasher(fnv::FnvHasher);

#[verifier::external_type_specification]
#[verifier::external_body]
#[verifier::reject_recursive_types(H)]
pub struct ExBuildHasherDefault<H>(core::hash::BuildHasherDefault<H>);

/// The elements an interned-string set holds, in insertion order.
pub uninterp spec fn atom_set_elems(s: indexmap::IndexSet<&'static str, fnv::FnvBuildHasher>) -> Seq<
    Seq<char>,
>;

/// Relies on indexmap's `IndexSet::with_hasher`: builds an empty set.
#[verifier::external_body]
fn atom_set_new() -> (r: indexmap::IndexSet<&'static str, fnv::FnvBuildHasher>)
    ensures
        atom_set_elems(r) == Seq::<Seq<char>>::empty(),
{
    indexmap::IndexSet::with_hasher(fnv::FnvBuildHasher::default())
}

/// Relies on indexmap's `IndexSet::len`: the number of elements.
#[verifier::external_body]
fn atom_set_len(set: &indexmap::IndexSet<&'static str, fnv::FnvBuildHasher>) -> (r: usize)
    ensures
        r == atom_set_elems(*set).len(),
{
    set.len()
}

/// Relies on indexmap's `IndexSet::get_index_of`: the insertion-order
/// index of the element equal to `s`, if the set holds one.
#[verifier::external_body]
fn atom_set_find(set: &indexmap::IndexSet<&'static str, fnv::FnvBuildHasher>, s: &str) -> (r:
    Option<usize>)
    ensures
        match r {
            Some(i) => i < atom_set_elems(*set).len() && atom_set_elems(*set)[i as int] == s@,
            None => forall|i: int|
                0 <= i < atom_set_elems(*set).len() ==> atom_set_elems(*set)[i] != s@,
        },
{
    set.get_index_of(s)
}

/// Relies on indexmap's `IndexSet::insert_full`: appends a new element
/// at the end of the insertion order, or returns the index of the
/// equal existing element leaving the set unchanged. The stored
/// element is a leaked copy of `s`, equal to it byte for byte.
#[verifier::external_body]
fn atom_set_append(set: &mut indexmap::IndexSet<&'static str, fnv::FnvBuildHasher>, s: &str) -> (r:
    usize)
    ensures
        ({
            let prev = atom_set_elems(*old(set));
            let cur = atom_set_elems(*final(set));
            if exists|i: int| 0 <= i < prev.len() && prev[i] == s@ {
                cur == prev && r < prev.len() && prev[r as int] == s@
            } else {
                cur == prev.push(s@) && r == prev.len()
            }
        }),
{
    let (i, _) = set.insert_full(s.to_string().leak());
    i
}

/// Relies on indexmap's `IndexSet::get_index`: the element at an
/// insertion-order index, present exactly when the index is in range.
#[verifier::external_body]
fn atom_set_get(set: &indexmap::IndexSet<&'static str, fnv::FnvBuildHasher>, i: usize) -> (r:
    Option<&'static str>)
    ensures
        match r {
            Some(t) => i < atom_set_elems(*set).len() && t@ == atom_set_elems(*set)[i as int],
            None => i >= atom_set_elems(*set).len(),
        },
{
    match set.get_index(i) {
        Some(t) => Some(*t),
        None => None,
    }
}

/// The intern table: an insertion-ordered set of strings, each
/// identified by its position. The table only grows, and the stored
/// strings are never freed or moved, so resolved references stay valid
/// for the life of the store.
pub struct AtomStore {
    atoms: indexmap::IndexSet<&'static str, fnv::FnvBuildHasher>,
}

impl View for AtomStore {
    type V = Seq<Seq<char>>;

    closed spec fn view(&self) -> Seq<Seq<char>> {
        atom_set_elems(self.atoms)
    }
}

impl AtomStore {
    /// The interned strings are pairwise distinct, so a string names
    /// exactly one handle.
    pub open spec fn wf(&self) -> bool {
        forall|i: int, j: int| 0 <= i < j < self@.len() ==> self@[i] != self@[j]
    }

    /// An empty intern table.
    pub fn new() -> (r: AtomStore)
        ensures
            r@ == Seq::<Seq<char>>::empty(),
            r.wf(),
    {
        AtomStore { atoms: atom_set_new() }
    }

    /// The table after interning `s`: unchanged when `s` is already
    /// present, extended at the end otherwise.
    pub open spec fn spec_insert_tbl(tbl: Seq<Seq<char>>, s: Seq<char>) -> Seq<Seq<char>> {
        if tbl.contains(s) {
            tbl
        } else {
            tbl.push(s)
        }
    }

    /// The handle interning `s` yields: one past the position of `s`.
    pub open spec fn spec_insert_handle(tbl: Seq<Seq<char>>, s: Seq<char>) -> int {
        if tbl.contains(s) {
            tbl.index_of(s) + 1
        } else {
            tbl.len() + 1int
        }
    }

    /// Intern `s`: return the existing handle when the table already
    /// holds an equal string, else record `s` and assign the next
    /// handle.
    pub fn insert(&mut self, s: &str) -> (r: Atom)
        requires
            old(self).wf(),
            old(self)@.len() < 0xFFFF_FFFFusize,
        ensures
            final(self).wf(),
            final(self)@ == Self::spec_insert_tbl(old(self)@, s@),
            r.spec_handle() == Self::spec_insert_handle(old(self)@, s@),
            r.wf(),
    {
        proof {
            lemma_unique_positions(self@, s@);
        }
        match atom_set_find(&self.atoms, s) {
            Some(i) => Atom { handle: (i + 1) as u32 },
            None => {
                let i = atom_set_append(&mut self.atoms, s);
                Atom { handle: (i + 1) as u32 }
            },
        }
    }

    /// Resolve a handle to the interned string it was assigned for.
    /// The reference is stable: the bytes never move and never change.
    pub fn read(&self, h: Atom) -> (r: &'static str)
        requires
            h.wf(),
            h.spec_handle() <= self@.len(),
        ensures
            r@ == self@[h.spec_handle() - 1],
    {
        let i = h.handle() - 1;
        atom_set_get(&self.atoms, i as usize).unwrap()
    }

    /// The number of interned strings.
    pub fn count(&self) -> (r: usize)
        ensures
            r == self@.len(),
    {
        atom_set_len(&self.atoms)
    }
}

/// The number of atoms the store has in cache.
pub fn atoms_count(store: &AtomStore) -> (r: usize)
    ensures
        r == store@.len(),
{
    store.count()
}

/// In a table of pairwise distinct strings, a string sits at one
/// position only, and `index_of` names it.
proof fn lemma_unique_positions(tbl: Seq<Seq<char>>, s: Seq<char>)
    requires
        forall|i: int, j: int| 0 <= i < j < tbl.len() ==> tbl[i] != tbl[j],
    ensures
        forall|i: int| 0 <= i < tbl.len() && tbl[i] == s ==> tbl.index_of(s) == i,
{
    assert forall|i: int| 0 <= i < tbl.len() && tbl[i] == s implies tbl.index_of(s) == i by {
        assert(tbl.contains(s));
        let k = tbl.index_of(s);
        assert(0 <= k < tbl.len() && tbl[k] == s);
        if k != i {
            if k < i {
                assert(tbl[k] != tbl[i]);
            } else {
                assert(tbl[i] != tbl[k]);
            }
            assert(false);
        }
    }
}

/// Law: interning is idempotent. Interning a string a second time
/// changes nothing and yields the same handle.
pub proof fn lemma_intern_idempotent(tbl: Seq<Seq<char>>, s: Seq<char>)
    ensures
        AtomStore::spec_insert_tbl(AtomStore::spec_insert_tbl(tbl, s), s) == AtomStore::spec_insert_tbl(
            tbl,
            s,
        ),
        AtomStore::spec_insert_handle(AtomStore::spec_insert_tbl(tbl, s), s)
            == AtomStore::spec_insert_handle(tbl, s),
{
    let t1 = AtomStore::spec_insert_tbl(tbl, s);
    assert(t1.contains(s)) by {
        if tbl.contains(s) {
        } else {
            assert(t1[tbl.len() as int] == s);
        }
    }
    if tbl.contains(s) {
    } else {
        lemma_push_index_of(tbl, s);
    }
}

/// Pushing a fresh string onto a table puts it at the end, and
/// `index_of` finds it there.
proof fn lemma_push_index_of(tbl: Seq<Seq<char>>, s: Seq<char>)
    requires
        !tbl.contains(s),
    ensures
        tbl.push(s).contains(s),
        tbl.push(s).index_of(s) == tbl.len(),
{
    let t1 = tbl.push(s);
    assert(t1[tbl.len() as int] == s);
    assert(t1.contains(s));
    let k = t1.index_of(s);
    assert(0 <= k < t1.len() && t1[k] == s);
    if k < tbl.len() {
        assert(tbl[k] == s);
        assert(false);
    }
}

/// Law: interning is injective. Two distinct strings interned one
/// after the other receive distinct handles.
pub proof fn lemma_intern_injective(tbl: Seq<Seq<char>>, s: Seq<char>, t: Seq<char>)
    requires
        forall|i: int, j: int| 0 <= i < j < tbl.len() ==> tbl[i] != tbl[j],
        s != t,
    ensures
        AtomStore::spec_insert_handle(tbl, s) != AtomStore::spec_insert_handle(
            AtomStore::spec_insert_tbl(tbl, s),
            t,
        ),
{
    let t1 = AtomStore::spec_insert_tbl(tbl, s);
    let hs = AtomStore::spec_insert_handle(tbl, s);
    let ht = AtomStore::spec_insert_handle(t1, t);
    lemma_unique_positions(tbl, s);
    lemma_unique_positions(tbl, t);
    if tbl.contains(s) {
        let i = tbl.index_of(s);
        if t1.contains(t) {
            let j = t1.index_of(t);
            assert(t1[j] == t && t1[i] == s);
            assert(i != j);
        }
    } else {
        lemma_push_index_of(tbl, s);
        if t1.contains(t) {
            let j = t1.index_of(t);
            assert(t1[j] == t);
            assert(t1[tbl.len() as int] == s);
            assert(j != tbl.len());
        }
    }
}

/// Law: interning resolves back to the interned string. After
/// interning `s`, the handle's position holds exactly `s`.
pub proof fn lemma_intern_resolve(tbl: Seq<Seq<char>>, s: Seq<char>)
    ensures
        1 <= AtomStore::spec_insert_handle(tbl, s) <= AtomStore::spec_insert_tbl(tbl, s).len(),
        AtomStore::spec_insert_tbl(tbl, s)[AtomStore::spec_insert_handle(tbl, s) - 1] == s,
{
    if tbl.contains(s) {
        let i = tbl.index_of(s);
        assert(0 <= i < tbl.len() && tbl[i] == s);
    } else {
        lemma_push_index_of(tbl, s);
    }
}

/// The table after interning each string of `ss` in turn.
pub open spec fn spec_insert_all(tbl: Seq<Seq<char>>, ss: Seq<Seq<char>>) -> Seq<Seq<char>>
    decreases ss.len(),
{
    if ss.len() == 0 {
        tbl
    } else {
        spec_insert_all(AtomStore::spec_insert_tbl(tbl, ss[0]), ss.skip(1))
    }
}

/// Law: handles are stable. However many further strings are interned,
/// an already assigned position keeps resolving to the same string.
pub proof fn lemma_atom_stability(tbl: Seq<Seq<char>>, ss: Seq<Seq<char>>, i: int)
    requires
        0 <= i < tbl.len(),
    ensures
        spec_insert_all(tbl, ss).len() >= tbl.len(),
        spec_insert_all(tbl, ss)[i] == tbl[i],
    decreases ss.len(),
{
    if ss.len() == 0 {
    } else {
        let t1 = AtomStore::spec_insert_tbl(tbl, ss[0]);
        assert(t1.len() >= tbl.len() && t1[i] == tbl[i]);
        lemma_atom_stability(t1, ss.skip(1), i);
    }
}

} // verus!
