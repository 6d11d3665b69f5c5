//! The heap of shared, mutable object cells that `Object` values
//! reference.

use vstd::prelude::*;

use crate::atoms::Atom;
use crate::error::{VmError, VmResult};
use crate::value::Value;

verus! {

/// A string payload of a cell: an interned atom or an owned string.
#[derive(Debug)]
pub enum PVString {
    Atom(Atom),
    Str(String),
}

impl Clone for PVString {
    /// A clone carries the same atom or the same characters.
    fn clone(&self) -> (r: Self)
        ensures
            r@ == self@,
    {
        match self {
            PVString::Atom(a) => PVString::Atom(*a),
            PVString::Str(s) => PVString::Str(s.clone()),
        }
    }
}

/// The mathematical shape of a string payload.
#[verifier::ext_equal]
pub enum PVStringView {
    Atom(Atom),
    Str(Seq<char>),
}

impl View for PVString {
    type V = PVStringView;

    open spec fn view(&self) -> PVStringView {
        match self {
            PVString::Atom(a) => PVStringView::Atom(*a),
            PVString::Str(s) => PVStringView::Str(s@),
        }
    }
}

/// The capability a host-supplied object must offer to sit in a
/// `UserData` cell. Hosts implement it outside the machine and hand
/// cells a token that names the object; no two user data compare
/// equal, not even a token to itself.
pub trait PVUserData {
}

/// A handle to one heap cell. Copying the handle shares the cell:
/// both copies reach the same contents.
#[derive(Debug, Clone, Copy, PartialEq, Eq, Structural)]
pub struct PVObject {
    /// The index of the cell this handle references.
    pub handle: usize,
}

impl PVObject {
    /// The index of the cell this handle references.
    pub open spec fn spec_handle(self) -> usize {
        self.handle
    }

    /// The index of the cell this handle references.
    pub fn handle(&self) -> (r: usize)
        ensures
            r == self.spec_handle(),
    {
        self.handle
    }
}

/// The contents of one heap cell.
#[derive(Debug)]
pub enum PVObjectType {
    /// An insertion-ordered mapping from string keys to values.
    Dict(Vec<(PVString, Value)>),
    /// A dense ordered sequence of values.
    Array(Vec<Value>),
    /// A string payload.
    String(PVString),
    /// An opaque host object, named by a token the host assigned.
    UserData(u64),
}

/// The mathematical shape of one heap cell.
#[verifier::ext_equal]
pub enum CellView {
    Dict(Seq<(PVStringView, Value)>),
    Array(Seq<Value>),
    String(PVStringView),
    UserData(u64),
}

impl Clone for PVObjectType {
    /// A one-level clone: the values a map or array holds are copied
    /// as they stand, so object handles inside stay shared.
    fn clone(&self) -> (r: Self)
        ensures
            r@ == self@,
    {
        match self {
            PVObjectType::Dict(ps) => {
                let mut out: Vec<(PVString, Value)> = Vec::new();
                let mut i: usize = 0;
                while i < ps.len()
                    invariant
                        i <= ps.len(),
                        out@.len() == i,
                        forall|j: int|
                            0 <= j < i ==> (#[trigger] out@[j]).0@ == ps@[j].0@ && out@[j].1
                                == ps@[j].1,
                    decreases ps.len() - i,
                {
                    let p = &ps[i];
                    out.push((p.0.clone(), p.1));
                    i = i + 1;
                }
                let r = PVObjectType::Dict(out);
                proof {
                    let a = out@.map_values(|p: (PVString, Value)| (p.0@, p.1));
                    let b = ps@.map_values(|p: (PVString, Value)| (p.0@, p.1));
                    assert(a =~= b);
                }
                r
            },
            PVObjectType::Array(vs) => {
                let mut out: Vec<Value> = Vec::new();
                let mut i: usize = 0;
                while i < vs.len()
                    invariant
                        i <= vs.len(),
                        out@ == vs@.take(i as int),
                    decreases vs.len() - i,
                {
                    out.push(vs[i]);
                    i = i + 1;
                }
                proof {
                    assert(out@ =~= vs@);
                }
                PVObjectType::Array(out)
            },
            PVObjectType::String(s) => PVObjectType::String(s.clone()),
            PVObjectType::UserData(t) => PVObjectType::UserData(*t),
        }
    }
}

impl View for PVObjectType {
    type V = CellView;

    open spec fn view(&self) -> CellView {
        match self {
            PVObjectType::Dict(ps) => CellView::Dict(
                ps@.map_values(|p: (PVString, Value)| (p.0@, p.1)),
            ),
            PVObjectType::Array(vs) => CellView::Array(vs@),
            PVObjectType::String(s) => CellView::String(s@),
            PVObjectType::UserData(t) => CellView::UserData(*t),
        }
    }
}

/// What reading index `idx` of a cell yields: a clone of the element
/// when the cell is an array and the index is in range, absent
/// otherwise.
pub open spec fn spec_load(c: CellView, idx: int) -> Option<Value> {
    match c {
        CellView::Array(vs) => if 0 <= idx < vs.len() {
            Some(vs[idx])
        } else {
            None
        },
        _ => None,
    }
}

/// What storing `v` at index `idx` leaves of a cell: an array grows
/// with `Null`s up to the index and takes `v` there; growing past the
/// address space fails and changes nothing; every other cell is left
/// untouched.
pub open spec fn spec_store(c: CellView, idx: int, v: Value) -> Result<CellView, VmError> {
    match c {
        CellView::Array(vs) => if idx < vs.len() {
            Ok(CellView::Array(vs.update(idx, v)))
        } else if idx == usize::MAX as int {
            Err(VmError::MemoryReserveFailed())
        } else {
            Ok(
                CellView::Array(
                    Seq::new(
                        (idx + 1) as nat,
                        |j: int|
                            if j < vs.len() {
                                vs[j]
                            } else if j == idx {
                                v
                            } else {
                                Value::Null
                            },
                    ),
                ),
            )
        },
        _ => Ok(c),
    }
}

impl PVObjectType {
    /// Read index `idx`: a clone of the element of an array cell in
    /// range, else absent.
    pub fn load(&self, idx: usize) -> (r: Option<Value>)
        ensures
            r == spec_load(self@, idx as int),
    {
        match self {
            PVObjectType::Array(v) => {
                if idx < v.len() {
                    Some(v[idx])
                } else {
                    None
                }
            },
            _ => None,
        }
    }

    /// Store `v` at index `idx` of an array cell, growing it with
    /// `Null`s when the index is past the end; on any other cell the
    /// call changes nothing.
    pub fn store(&mut self, idx: usize, value: Value) -> (r: VmResult<()>)
        ensures
            match spec_store(old(self)@, idx as int, value) {
                Ok(c) => r is Ok && final(self)@ == c,
                Err(e) => r == Err::<(), VmError>(e) && final(self)@ == old(self)@,
            },
    {
        match self {
            PVObjectType::Array(v) => {
                if idx < v.len() {
                    v[idx] = value;
                    Ok(())
                } else if idx == usize::MAX {
                    Err(VmError::MemoryReserveFailed())
                } else {
                    let ghost orig = v@;
                    let mut j: usize = v.len();
                    while j < idx
                        invariant
                            orig.len() <= j <= idx,
                            idx < usize::MAX,
                            v@.len() == j,
                            v@ == orig + Seq::new((j - orig.len()) as nat, |q: int| Value::Null),
                        decreases idx - j,
                    {
                        v.push(Value::Null);
                        proof {
                            assert(v@ =~= orig + Seq::new(
                                (j + 1 - orig.len()) as nat,
                                |q: int| Value::Null,
                            ));
                        }
                        j = j + 1;
                    }
                    v.push(value);
                    proof {
                        let target = spec_store(
                            CellView::Array(orig),
                            idx as int,
                            value,
                        )->Ok_0->Array_0;
                        assert(v@ =~= target);
                    }
                    Ok(())
                }
            },
            _ => Ok(()),
        }
    }
}

/// A value is sound for a heap of `n` cells: its payload is in range
/// for its kind and an object handle points at an existing cell.
pub open spec fn value_ok(v: Value, n: nat) -> bool {
    &&& v.canonical()
    &&& (v matches Value::Object(o) ==> o.spec_handle() < n)
}

/// Every value a cell holds is sound for a heap of `n` cells.
pub open spec fn cell_ok(c: CellView, n: nat) -> bool {
    match c {
        CellView::Dict(ps) => forall|i: int| 0 <= i < ps.len() ==> value_ok(ps[i].1, n),
        CellView::Array(vs) => forall|i: int| 0 <= i < vs.len() ==> value_ok(vs[i], n),
        _ => true,
    }
}

/// Law: after storing `v` at index `i` of an array cell, index `i`
/// reads back as `v`; the grown gap between the old length and `i`
/// reads back as `Null`; every index below the old length other than
/// `i` is unchanged.
pub proof fn lemma_array_grow_and_store(c: CellView, i: int, v: Value, j: int)
    requires
        c is Array,
        0 <= i,
        spec_store(c, i, v) is Ok,
    ensures
        spec_load(spec_store(c, i, v)->Ok_0, i) == Some(v),
        c->Array_0.len() <= j < i ==> spec_load(spec_store(c, i, v)->Ok_0, j) == Some(Value::Null),
        0 <= j < c->Array_0.len() && j != i ==> spec_load(spec_store(c, i, v)->Ok_0, j)
            == spec_load(c, j),
{
}

/// Soundness of a value is monotone in the heap size: a heap only
/// grows, so handles never dangle.
pub proof fn lemma_value_ok_mono(v: Value, n1: nat, n2: nat)
    requires
        value_ok(v, n1),
        n1 <= n2,
    ensures
        value_ok(v, n2),
{
}

/// Soundness of a cell's contents is monotone in the heap size.
pub proof fn lemma_cell_ok_mono(c: CellView, n1: nat, n2: nat)
    requires
        cell_ok(c, n1),
        n1 <= n2,
    ensures
        cell_ok(c, n2),
{
    match c {
        CellView::Dict(ps) => {
            assert forall|i: int| 0 <= i < ps.len() implies value_ok(ps[i].1, n2) by {
                lemma_value_ok_mono(ps[i].1, n1, n2);
            }
        },
        CellView::Array(vs) => {
            assert forall|i: int| 0 <= i < vs.len() implies value_ok(vs[i], n2) by {
                lemma_value_ok_mono(vs[i], n1, n2);
            }
        },
        _ => {},
    }
}

/// A successful store leaves a cell whose contents are still sound:
/// it holds old values, the stored value, or `Null` padding.
pub proof fn lemma_store_cell_ok(c: CellView, idx: int, v: Value, n: nat)
    requires
        0 <= idx,
        cell_ok(c, n),
        value_ok(v, n),
    ensures
        spec_store(c, idx, v) matches Ok(c2) ==> cell_ok(c2, n),
{
    if spec_store(c, idx, v) is Ok {
        let c2 = spec_store(c, idx, v)->Ok_0;
        match c {
            CellView::Array(vs) => {
                assert(cell_ok(c2, n)) by {
                    if let CellView::Array(ws) = c2 {
                        assert forall|i: int| 0 <= i < ws.len() implies value_ok(ws[i], n) by {
                            assert(ws[i] == v || ws[i] is Null || (0 <= i < vs.len() && ws[i]
                                == vs[i]));
                        }
                    }
                }
            },
            _ => {},
        }
    }
}

/// Mapping a function over a sequence commutes with updating one
/// element.
pub broadcast proof fn lemma_map_values_update<A, B>(s: Seq<A>, i: int, a: A, f: spec_fn(A) -> B)
    requires
        0 <= i < s.len(),
    ensures
        #[trigger] s.update(i, a).map_values(f) == s.map_values(f).update(i, f(a)),
{
    assert(s.update(i, a).map_values(f) =~= s.map_values(f).update(i, f(a)));
}

/// The object heap: cells are created, shared through handles, and
/// mutated in place; they are reclaimed only with the heap itself, so
/// reference cycles leak deliberately.
pub struct Heap {
    cells: Vec<PVObjectType>,
}

impl View for Heap {
    type V = Seq<CellView>;

    closed spec fn view(&self) -> Seq<CellView> {
        self.cells@.map_values(|c: PVObjectType| c@)
    }
}

impl Heap {
    /// Every cell's contents point only at existing cells.
    pub open spec fn wf(&self) -> bool {
        forall|j: int| 0 <= j < self@.len() ==> cell_ok(self@[j], self@.len())
    }

    /// An empty heap.
    pub fn new() -> (r: Heap)
        ensures
            r@ == Seq::<CellView>::empty(),
            r.wf(),
    {
        let r = Heap { cells: Vec::new() };
        proof {
            assert(r@ =~= Seq::<CellView>::empty());
        }
        r
    }

    /// A heap is a vector of cells, so its length fits an index.
    pub proof fn lemma_len_bound(&self)
        ensures
            self@.len() <= usize::MAX,
    {
        vstd::std_specs::vec::axiom_spec_len(&self.cells);
        assert(self@.len() == self.cells@.len());
    }

    /// The number of cells.
    pub fn len(&self) -> (r: usize)
        ensures
            r == self@.len(),
    {
        self.cells.len()
    }

    /// Append a fresh cell and hand back its handle.
    fn push_cell(&mut self, c: PVObjectType) -> (r: PVObject)
        ensures
            final(self)@ == old(self)@.push(c@),
            r.spec_handle() == old(self)@.len(),
            old(self).wf() && cell_ok(c@, old(self)@.len() + 1) ==> final(self).wf(),
    {
        proof {
            if self.wf() && cell_ok(c@, (self@.len() + 1) as nat) {
                let grown = self@.push(c@);
                assert forall|j: int| 0 <= j < grown.len() implies cell_ok(
                    grown[j],
                    grown.len(),
                ) by {
                    if j < self@.len() {
                        lemma_cell_ok_mono(self@[j], self@.len(), grown.len());
                    }
                }
            }
        }
        let h = self.cells.len();
        self.cells.push(c);
        proof {
            assert(final(self)@ =~= old(self)@.push(c@));
        }
        PVObject { handle: h }
    }

    /// Allocate a cell with the given contents and hand back its
    /// handle. The contents may reference existing cells or the new
    /// one itself.
    pub fn new_cell(&mut self, c: PVObjectType) -> (r: PVObject)
        requires
            cell_ok(c@, old(self)@.len() + 1),
        ensures
            final(self)@ == old(self)@.push(c@),
            r.spec_handle() == old(self)@.len(),
            old(self).wf() ==> final(self).wf(),
    {
        self.push_cell(c)
    }

    /// A shared view of the cell a handle references.
    pub fn get(&self, o: &PVObject) -> (r: &PVObjectType)
        requires
            o.spec_handle() < self@.len(),
        ensures
            r@ == self@[o.spec_handle() as int],
    {
        &self.cells[o.handle()]
    }

    /// An exclusive view of the cell a handle references. The heap
    /// afterwards holds whatever the caller leaves behind the
    /// reference.
    pub fn get_mut(&mut self, o: &PVObject) -> (r: &mut PVObjectType)
        requires
            o.spec_handle() < old(self)@.len(),
        ensures
            r@ == old(self)@[o.spec_handle() as int],
            final(self)@ == old(self)@.update(o.spec_handle() as int, final(r)@),
    {
        broadcast use lemma_map_values_update;

        let h = o.handle();
        &mut self.cells[h]
    }

    /// Store `value` at index `idx` of the array cell a handle
    /// references, growing it with `Null`s as needed; a handle to any
    /// other cell leaves the heap unchanged.
    pub fn store_at(&mut self, o: &PVObject, idx: usize, value: Value) -> (r: VmResult<()>)
        requires
            o.spec_handle() < old(self)@.len(),
        ensures
            match spec_store(old(self)@[o.spec_handle() as int], idx as int, value) {
                Ok(c) => r is Ok && final(self)@ == old(self)@.update(o.spec_handle() as int, c),
                Err(e) => r == Err::<(), VmError>(e) && final(self)@ == old(self)@,
            },
            old(self).wf() && value_ok(value, old(self)@.len()) ==> final(self).wf(),
    {
        proof {
            if self.wf() && value_ok(value, self@.len()) {
                let h = o.spec_handle() as int;
                lemma_store_cell_ok(self@[h], idx as int, value, self@.len());
                if spec_store(self@[h], idx as int, value) is Ok {
                    let c = spec_store(self@[h], idx as int, value)->Ok_0;
                    let updated = self@.update(h, c);
                    assert forall|j: int| 0 <= j < updated.len() implies cell_ok(
                        updated[j],
                        updated.len(),
                    ) by {
                        assert(updated[j] == c || updated[j] == self@[j]);
                    }
                }
            }
        }
        let cell = self.get_mut(o);
        let r = cell.store(idx, value);
        proof {
            if spec_store(old(self)@[o.spec_handle() as int], idx as int, value) matches Err(e) {
                assert(self@ =~= old(self)@);
            }
        }
        r
    }

    /// Structural equality of two values of this heap, as the data
    /// model defines it: `Null` equals `Null`, integers by kind and
    /// in-range payload, objects by the referenced cells' contents,
    /// recursively; user data equals nothing, itself included.
    /// `fuel` bounds how many object links the comparison follows, so
    /// that a cyclic graph cannot make it run forever; past the bound
    /// values compare unequal.
    #[verifier::loop_isolation(false)]
    pub fn value_eq(&self, a: &Value, b: &Value, fuel: u64) -> (r: bool)
        ensures
            r == spec_value_eq(self@, *a, *b, fuel as nat),
        decreases fuel,
    {
        match (a, b) {
            (Value::Null, Value::Null) => true,
            (Value::Int(k1, a1), Value::Int(k2, a2)) => k1 == k2 && a1.0 == a2.0,
            (Value::Object(o1), Value::Object(o2)) => {
                if fuel == 0 {
                    return false;
                }
                let n = self.cells.len();
                if o1.handle() >= n || o2.handle() >= n {
                    return false;
                }
                let c1 = &self.cells[o1.handle()];
                let c2 = &self.cells[o2.handle()];
                proof {
                    assert(c1@ == self@[o1.spec_handle() as int]);
                    assert(c2@ == self@[o2.spec_handle() as int]);
                    assert(spec_value_eq(self@, *a, *b, fuel as nat) == spec_cell_eq(
                        self@,
                        c1@,
                        c2@,
                        (fuel - 1) as nat,
                    ));
                }
                match (c1, c2) {
                    (PVObjectType::Dict(p1), PVObjectType::Dict(p2)) => {
                        if p1.len() != p2.len() {
                            return false;
                        }
                        let ghost q1 = c1@->Dict_0;
                        let ghost q2 = c2@->Dict_0;
                        let mut i: usize = 0;
                        while i < p1.len()
                            invariant
                                fuel >= 1,
                                i <= p1.len(),
                                p1.len() == p2.len(),
                                q1 == c1@->Dict_0,
                                q2 == c2@->Dict_0,
                                q1 =~= p1@.map_values(|p: (PVString, Value)| (p.0@, p.1)),
                                q2 =~= p2@.map_values(|p: (PVString, Value)| (p.0@, p.1)),
                                forall|j: int|
                                    0 <= j < i ==> spec_pvstring_eq(
                                        (#[trigger] q1[j]).0,
                                        q2[j].0,
                                    ) && spec_value_eq(
                                        self@,
                                        q1[j].1,
                                        q2[j].1,
                                        (fuel - 1) as nat,
                                    ),
                            decreases p1.len() - i,
                        {
                            let e1 = &p1[i];
                            let e2 = &p2[i];
                            proof {
                                assert(q1[i as int] == (e1.0@, e1.1));
                                assert(q2[i as int] == (e2.0@, e2.1));
                            }
                            if !pvstring_eq(&e1.0, &e2.0) {
                                proof {
                                    assert(!spec_cell_eq(self@, c1@, c2@, (fuel - 1) as nat));
                                }
                                return false;
                            }
                            if !self.value_eq(&e1.1, &e2.1, fuel - 1) {
                                proof {
                                    assert(!spec_cell_eq(self@, c1@, c2@, (fuel - 1) as nat));
                                }
                                return false;
                            }
                            i = i + 1;
                        }
                        true
                    },
                    (PVObjectType::Array(v1), PVObjectType::Array(v2)) => {
                        if v1.len() != v2.len() {
                            return false;
                        }
                        let mut i: usize = 0;
                        while i < v1.len()
                            invariant
                                fuel >= 1,
                                i <= v1.len(),
                                v1.len() == v2.len(),
                                c1@ == CellView::Array(v1@),
                                c2@ == CellView::Array(v2@),
                                forall|j: int|
                                    0 <= j < i ==> spec_value_eq(
                                        self@,
                                        v1@[j],
                                        v2@[j],
                                        (fuel - 1) as nat,
                                    ),
                            decreases v1.len() - i,
                        {
                            if !self.value_eq(&v1[i], &v2[i], fuel - 1) {
                                proof {
                                    assert(!spec_value_eq(
                                        self@,
                                        c1@->Array_0[i as int],
                                        c2@->Array_0[i as int],
                                        (fuel - 1) as nat,
                                    ));
                                    assert(!spec_cell_eq(self@, c1@, c2@, (fuel - 1) as nat));
                                }
                                return false;
                            }
                            i = i + 1;
                        }
                        true
                    },
                    (PVObjectType::String(s1), PVObjectType::String(s2)) => pvstring_eq(s1, s2),
                    _ => false,
                }
            },
            _ => false,
        }
    }
}

/// Whether two string payloads are equal: atoms by handle, owned
/// strings by their characters, and an atom never equals an owned
/// string even when it resolves to the same characters.
pub open spec fn spec_pvstring_eq(a: PVStringView, b: PVStringView) -> bool {
    match (a, b) {
        (PVStringView::Atom(x), PVStringView::Atom(y)) => x == y,
        (PVStringView::Str(s1), PVStringView::Str(s2)) => s1 == s2,
        _ => false,
    }
}

/// Whether two string payloads are equal, as `spec_pvstring_eq` says.
pub fn pvstring_eq(a: &PVString, b: &PVString) -> (r: bool)
    ensures
        r == spec_pvstring_eq(a@, b@),
{
    match (a, b) {
        (PVString::Atom(x), PVString::Atom(y)) => x == y,
        (PVString::Str(s1), PVString::Str(s2)) => s1.eq(s2),
        _ => false,
    }
}

/// Structural equality of two values, following object handles into
/// the heap to a depth of `fuel` links; deeper pairs compare unequal.
pub open spec fn spec_value_eq(heap: Seq<CellView>, a: Value, b: Value, fuel: nat) -> bool
    decreases fuel, 0int,
{
    match (a, b) {
        (Value::Null, Value::Null) => true,
        (Value::Int(k1, a1), Value::Int(k2, a2)) => k1 == k2 && a1 == a2,
        (Value::Object(o1), Value::Object(o2)) => fuel > 0 && o1.spec_handle() < heap.len()
            && o2.spec_handle() < heap.len() && spec_cell_eq(
            heap,
            heap[o1.spec_handle() as int],
            heap[o2.spec_handle() as int],
            (fuel - 1) as nat,
        ),
        _ => false,
    }
}

/// Structural equality of two cells: maps and arrays elementwise and
/// recursively, strings structurally, user data never.
pub open spec fn spec_cell_eq(heap: Seq<CellView>, c1: CellView, c2: CellView, fuel: nat) -> bool
    decreases fuel, 1int,
{
    match (c1, c2) {
        (CellView::Dict(p1), CellView::Dict(p2)) => p1.len() == p2.len() && forall|j: int|
            0 <= j < p1.len() ==> spec_pvstring_eq((#[trigger] p1[j]).0, p2[j].0) && spec_value_eq(
                heap,
                p1[j].1,
                p2[j].1,
                fuel,
            ),
        (CellView::Array(v1), CellView::Array(v2)) => v1.len() == v2.len() && forall|j: int|
            0 <= j < v1.len() ==> spec_value_eq(heap, v1[j], v2[j], fuel),
        (CellView::String(s1), CellView::String(s2)) => spec_pvstring_eq(s1, s2),
        _ => false,
    }
}

impl PVObject {
    /// Allocate a fresh empty map cell.
    pub fn make_map(heap: &mut Heap) -> (r: VmResult<PVObject>)
        ensures
            r is Ok,
            final(heap)@ == old(heap)@.push(CellView::Dict(Seq::empty())),
            r->Ok_0.spec_handle() == old(heap)@.len(),
            old(heap).wf() ==> final(heap).wf(),
    {
        let c = PVObjectType::Dict(Vec::new());
        proof {
            assert(c@ =~= CellView::Dict(Seq::empty()));
        }
        Ok(heap.push_cell(c))
    }

    /// Allocate a fresh empty array cell.
    pub fn make_array(heap: &mut Heap) -> (r: VmResult<PVObject>)
        ensures
            r is Ok,
            final(heap)@ == old(heap)@.push(CellView::Array(Seq::empty())),
            r->Ok_0.spec_handle() == old(heap)@.len(),
            old(heap).wf() ==> final(heap).wf(),
    {
        let c = PVObjectType::Array(Vec::new());
        Ok(heap.push_cell(c))
    }

    /// Allocate a cell holding the string the atom names.
    pub fn from_atom(heap: &mut Heap, a: Atom) -> (r: PVObject)
        ensures
            final(heap)@ == old(heap)@.push(CellView::String(PVStringView::Atom(a))),
            r.spec_handle() == old(heap)@.len(),
            old(heap).wf() ==> final(heap).wf(),
    {
        let c = PVObjectType::String(PVString::Atom(a));
        heap.push_cell(c)
    }

    /// Allocate a fresh independent cell holding a one-level clone of
    /// the cell this handle references.
    pub fn duplicate(&self, heap: &mut Heap) -> (r: VmResult<PVObject>)
        requires
            self.spec_handle() < old(heap)@.len(),
        ensures
            r is Ok,
            final(heap)@ == old(heap)@.push(old(heap)@[self.spec_handle() as int]),
            r->Ok_0.spec_handle() == old(heap)@.len(),
            old(heap).wf() ==> final(heap).wf(),
    {
        proof {
            if heap.wf() {
                lemma_cell_ok_mono(
                    heap@[self.spec_handle() as int],
                    heap@.len(),
                    (heap@.len() + 1) as nat,
                );
            }
        }
        let c = heap.get(self).clone();
        Ok(heap.push_cell(c))
    }
}

} // verus!
