//! The single-threaded executor: an operand stack, a heap, and the
//! operation dispatcher.

use vstd::prelude::*;

use crate::arith::{spec_wrap_add, spec_wrap_mul, spec_wrap_sub, wrap_add, wrap_mul, wrap_sub};
use crate::error::{VmError, VmResult};
use crate::object::{
    cell_ok, spec_load, spec_store, value_ok, CellView, Heap, PVObject, PVObjectType, PVStringView,
};
use crate::opcodes::{Operation, PrimOpKind};
use crate::value::{Aligned, Value};

verus! {

/// One more than the largest value of the low 64 pid bits.
pub open spec fn pid_low_bound() -> int {
    0x1_0000_0000_0000_0000
}

/// The pid a process gets: the caller's 128-bit prefix with the
/// spawn counter overlaid on the low 64 bits.
pub open spec fn spec_make_pid(prefix: u128, count: u64) -> u128 {
    (prefix - (prefix as int % pid_low_bound()) + count) as u128
}

/// A single-threaded virtual machine instance: a unique 128-bit pid,
/// an operand stack, and the heap of object cells its values may
/// reference.
pub struct Process {
    /// The process identifier.
    pub pid: u128,
    /// The operand stack; the last element is the top.
    pub stack: Vec<Value>,
    /// The object cells live values can reference.
    pub heap: Heap,
}

impl Process {
    /// Every stack value is sound for the heap, and so is every value
    /// a cell holds.
    pub open spec fn wf(&self) -> bool {
        &&& self.heap.wf()
        &&& forall|i: int|
            0 <= i < self.stack@.len() ==> value_ok(self.stack@[i], self.heap@.len())
    }

    /// The process identifier.
    pub fn pid(&self) -> (r: u128)
        ensures
            r == self.pid,
    {
        self.pid
    }

    /// Build a process whose pid overlays `count` on the low 64 bits
    /// of `prefix`, with an empty stack and heap.
    pub fn new(prefix: u128, count: u64) -> (r: VmResult<Process>)
        ensures
            r is Ok,
            r->Ok_0.pid == spec_make_pid(prefix, count),
            r->Ok_0.stack@ == Seq::<Value>::empty(),
            r->Ok_0.heap@ == Seq::<crate::object::CellView>::empty(),
            r->Ok_0.wf(),
    {
        let low: u128 = prefix % 0x1_0000_0000_0000_0000u128;
        let pid: u128 = prefix - low + (count as u128);
        Ok(Process { pid, stack: Vec::new(), heap: Heap::new() })
    }

    /// Push one value onto the operand stack.
    pub fn push(&mut self, v: Value)
        ensures
            final(self).stack@ == old(self).stack@.push(v),
            final(self).heap@ == old(self).heap@,
            final(self).pid == old(self).pid,
    {
        self.stack.push(v)
    }

    /// Pop the top of the stack into a slot that must be `Null`, so
    /// that nothing is dropped by the overwrite.
    pub fn pop_into(&mut self, into: &mut Value) -> (r: VmResult<()>)
        requires
            *old(into) is Null,
        ensures
            final(self).heap@ == old(self).heap@,
            final(self).pid == old(self).pid,
            match r {
                Ok(_) => old(self).stack@.len() >= 1 && *final(into) == old(self).stack@.last()
                    && final(self).stack@ == old(self).stack@.drop_last(),
                Err(e) => e == VmError::StackUnderflow() && old(self).stack@.len() == 0 && final(self).stack@ == old(self).stack@ && *final(into) == *old(into),
            },
    {
        match self.stack.pop() {
            Some(v) => {
                *into = v;
                Ok(())
            },
            None => Err(VmError::StackUnderflow()),
        }
    }

    /// Pop the top two values: `x` receives the top, `y` the one
    /// below it. On underflow nothing is popped.
    pub fn pop2_into(&mut self, x: &mut Value, y: &mut Value) -> (r: VmResult<()>)
        requires
            *old(x) is Null,
            *old(y) is Null,
        ensures
            final(self).heap@ == old(self).heap@,
            final(self).pid == old(self).pid,
            match r {
                Ok(_) => old(self).stack@.len() >= 2 && *final(x) == old(self).stack@.last()
                    && *final(y) == old(self).stack@[old(self).stack@.len() - 2] && final(self).stack@ == old(self).stack@.drop_last().drop_last(),
                Err(e) => e == VmError::StackUnderflow() && old(self).stack@.len() < 2 && final(self).stack@ == old(self).stack@ && *final(x) == *old(x) && *final(y) == *old(y),
            },
    {
        if self.stack.len() < 2 {
            return Err(VmError::StackUnderflow());
        }
        *x = self.stack.pop().unwrap();
        *y = self.stack.pop().unwrap();
        Ok(())
    }

    /// Pop the top three values: `x` receives the top, then `y`, then
    /// `z`. On underflow nothing is popped.
    pub fn pop3_into(&mut self, x: &mut Value, y: &mut Value, z: &mut Value) -> (r: VmResult<()>)
        requires
            *old(x) is Null,
            *old(y) is Null,
            *old(z) is Null,
        ensures
            final(self).heap@ == old(self).heap@,
            final(self).pid == old(self).pid,
            match r {
                Ok(_) => old(self).stack@.len() >= 3 && *final(x) == old(self).stack@.last()
                    && *final(y) == old(self).stack@[old(self).stack@.len() - 2] && *final(z) == old(self).stack@[old(self).stack@.len() - 3] && final(self).stack@ == old(self).stack@.drop_last().drop_last().drop_last(),
                Err(e) => e == VmError::StackUnderflow() && old(self).stack@.len() < 3 && final(self).stack@ == old(self).stack@ && *final(x) == *old(x) && *final(y) == *old(y)
                    && *final(z) == *old(z),
            },
    {
        if self.stack.len() < 3 {
            return Err(VmError::StackUnderflow());
        }
        *x = self.stack.pop().unwrap();
        *y = self.stack.pop().unwrap();
        *z = self.stack.pop().unwrap();
        Ok(())
    }

    /// The raw numeric payload of an integer value; any other tag is a
    /// type mismatch.
    pub fn as_num(v: &Value) -> (r: VmResult<u64>)
        ensures
            match r {
                Ok(b) => *v is Int && b == v.payload_bits(),
                Err(e) => !(*v is Int) && e == VmError::PopExpectedType(),
            },
    {
        match v {
            Value::Int(_, a) => Ok(a.0),
            _ => Err(VmError::PopExpectedType()),
        }
    }

    /// Execute one operation against the stack and heap.
    ///
    /// The whole step is `spec_step`: on success the stack and heap
    /// are exactly what it names; on an error both are exactly as
    /// they were.
    #[verifier::rlimit(100)]
    pub fn run_op(&mut self, o: Operation) -> (r: VmResult<()>)
        requires
            old(self).wf(),
        ensures
            final(self).wf(),
            final(self).pid == old(self).pid,
            match spec_step(old(self).stack@, old(self).heap@, o) {
                Ok(sh) => r is Ok && final(self).stack@ == sh.0 && final(self).heap@ == sh.1,
                Err(e) => r == Err::<(), VmError>(e) && final(self).stack@ == old(self).stack@
                    && final(self).heap@ == old(self).heap@,
            },
    {
        proof {
            self.heap.lemma_len_bound();
            lemma_step_preserves_wf(self.stack@, self.heap@, o);
        }
        match o {
            Operation::Trap => Err(VmError::Unimplemented()),
            Operation::Add(k) => {
                let n = self.stack.len();
                if n < 2 {
                    return Err(VmError::StackUnderflow());
                }
                let x = self.stack[n - 1];
                let y = self.stack[n - 2];
                let xb = match Self::as_num(&x) {
                    Ok(b) => b,
                    Err(e) => {
                        return Err(e);
                    },
                };
                let yb = match Self::as_num(&y) {
                    Ok(b) => b,
                    Err(e) => {
                        return Err(e);
                    },
                };
                let rb = wrap_add(k, k.truncate(xb), k.truncate(yb));
                self.stack.pop();
                self.stack.pop();
                self.stack.push(Value::Int(k, Aligned(rb)));
                proof {
                    assert(self.stack@ =~= old(self).stack@.drop_last().drop_last().push(Value::Int(k, Aligned(rb))));
                }
                Ok(())
            },
            Operation::AddImm(k, imm) => {
                let n = self.stack.len();
                if n < 1 {
                    return Err(VmError::StackUnderflow());
                }
                let x = self.stack[n - 1];
                let xb = match Self::as_num(&x) {
                    Ok(b) => b,
                    Err(e) => {
                        return Err(e);
                    },
                };
                let rb = wrap_add(k, k.truncate(xb), k.truncate(imm.as_aligned().0));
                self.stack.pop();
                self.stack.push(Value::Int(k, Aligned(rb)));
                proof {
                    assert(self.stack@ =~= old(self).stack@.drop_last().push(
                        Value::Int(k, Aligned(rb)),
                    ));
                }
                Ok(())
            },
            Operation::Sub(k) => {
                let n = self.stack.len();
                if n < 2 {
                    return Err(VmError::StackUnderflow());
                }
                let x = self.stack[n - 1];
                let y = self.stack[n - 2];
                let xb = match Self::as_num(&x) {
                    Ok(b) => b,
                    Err(e) => {
                        return Err(e);
                    },
                };
                let yb = match Self::as_num(&y) {
                    Ok(b) => b,
                    Err(e) => {
                        return Err(e);
                    },
                };
                let rb = wrap_sub(k, k.truncate(xb), k.truncate(yb));
                self.stack.pop();
                self.stack.pop();
                self.stack.push(Value::Int(k, Aligned(rb)));
                proof {
                    assert(self.stack@ =~= old(self).stack@.drop_last().drop_last().push(Value::Int(k, Aligned(rb))));
                }
                Ok(())
            },
            Operation::SubImm(k, imm) => {
                let n = self.stack.len();
                if n < 1 {
                    return Err(VmError::StackUnderflow());
                }
                let x = self.stack[n - 1];
                let xb = match Self::as_num(&x) {
                    Ok(b) => b,
                    Err(e) => {
                        return Err(e);
                    },
                };
                let rb = wrap_sub(k, k.truncate(xb), k.truncate(imm.as_aligned().0));
                self.stack.pop();
                self.stack.push(Value::Int(k, Aligned(rb)));
                proof {
                    assert(self.stack@ =~= old(self).stack@.drop_last().push(
                        Value::Int(k, Aligned(rb)),
                    ));
                }
                Ok(())
            },
            Operation::Mul(k) => {
                let n = self.stack.len();
                if n < 2 {
                    return Err(VmError::StackUnderflow());
                }
                let x = self.stack[n - 1];
                let y = self.stack[n - 2];
                let xb = match Self::as_num(&x) {
                    Ok(b) => b,
                    Err(e) => {
                        return Err(e);
                    },
                };
                let yb = match Self::as_num(&y) {
                    Ok(b) => b,
                    Err(e) => {
                        return Err(e);
                    },
                };
                let rb = wrap_mul(k, k.truncate(xb), k.truncate(yb));
                self.stack.pop();
                self.stack.pop();
                self.stack.push(Value::Int(k, Aligned(rb)));
                proof {
                    assert(self.stack@ =~= old(self).stack@.drop_last().drop_last().push(Value::Int(k, Aligned(rb))));
                }
                Ok(())
            },
            Operation::MulImm(k, imm) => {
                let n = self.stack.len();
                if n < 1 {
                    return Err(VmError::StackUnderflow());
                }
                let x = self.stack[n - 1];
                let xb = match Self::as_num(&x) {
                    Ok(b) => b,
                    Err(e) => {
                        return Err(e);
                    },
                };
                let rb = wrap_mul(k, k.truncate(xb), k.truncate(imm.as_aligned().0));
                self.stack.pop();
                self.stack.push(Value::Int(k, Aligned(rb)));
                proof {
                    assert(self.stack@ =~= old(self).stack@.drop_last().push(
                        Value::Int(k, Aligned(rb)),
                    ));
                }
                Ok(())
            },
            Operation::Div(_) => Err(VmError::Unimplemented()),
            Operation::DivImm(_, _) => Err(VmError::Unimplemented()),
            Operation::PushImm(k, imm) => {
                self.stack.push(Value::from(imm.as_aligned().0, k));
                Ok(())
            },
            Operation::PushAtom(a) => {
                let obj = PVObject::from_atom(&mut self.heap, a);
                self.stack.push(Value::Object(obj));
                Ok(())
            },
            Operation::MakeObject(_) => {
                let obj = match PVObject::make_map(&mut self.heap) {
                    Ok(obj) => obj,
                    Err(e) => {
                        return Err(e);
                    },
                };
                self.stack.push(Value::Object(obj));
                Ok(())
            },
            Operation::MakeArray => {
                let obj = match PVObject::make_array(&mut self.heap) {
                    Ok(obj) => obj,
                    Err(e) => {
                        return Err(e);
                    },
                };
                self.stack.push(Value::Object(obj));
                Ok(())
            },
            Operation::IndexArray => {
                let n = self.stack.len();
                if n < 2 {
                    return Err(VmError::StackUnderflow());
                }
                let arr = self.stack[n - 1];
                let idxv = self.stack[n - 2];
                let idx_bits = match Self::as_num(&idxv) {
                    Ok(b) => b,
                    Err(e) => {
                        return Err(e);
                    },
                };
                let obj = match arr {
                    Value::Object(obj) => obj,
                    _ => {
                        return Err(VmError::PopExpectedArray());
                    },
                };
                let cell = self.heap.get(&obj);
                let loaded = match cell {
                    PVObjectType::Array(_) => cell.load(
                        #[verifier::truncate] (idx_bits as usize),
                    ),
                    _ => {
                        return Err(VmError::PopExpectedArray());
                    },
                };
                let v = match loaded {
                    Some(v) => v,
                    None => Value::Null,
                };
                self.stack.pop();
                self.stack.pop();
                self.stack.push(v);
                proof {
                    assert(self.stack@ =~= old(self).stack@.drop_last().drop_last().push(v));
                }
                Ok(())
            },
            Operation::SetArray => {
                let n = self.stack.len();
                if n < 3 {
                    return Err(VmError::StackUnderflow());
                }
                let arr = self.stack[n - 1];
                let idxv = self.stack[n - 2];
                let value = self.stack[n - 3];
                let idx_bits = match Self::as_num(&idxv) {
                    Ok(b) => b,
                    Err(e) => {
                        return Err(e);
                    },
                };
                let obj = match arr {
                    Value::Object(obj) => obj,
                    _ => {
                        return Err(VmError::PopExpectedArray());
                    },
                };
                let is_arr = match self.heap.get(&obj) {
                    PVObjectType::Array(_) => true,
                    _ => false,
                };
                if !is_arr {
                    return Err(VmError::PopExpectedArray());
                }
                match self.heap.store_at(&obj, #[verifier::truncate] (idx_bits as usize), value) {
                    Ok(_) => {},
                    Err(e) => {
                        return Err(e);
                    },
                }
                self.stack.pop();
                self.stack.pop();
                self.stack.pop();
                proof {
                    assert(self.stack@ =~= old(self).stack@.drop_last().drop_last().drop_last());
                }
                Ok(())
            },
            Operation::Drop => {
                let n = self.stack.len();
                if n < 1 {
                    return Err(VmError::StackUnderflow());
                }
                self.stack.pop();
                Ok(())
            },
            Operation::Dup => {
                let n = self.stack.len();
                if n < 1 {
                    return Err(VmError::StackUnderflow());
                }
                let x = self.stack[n - 1];
                self.stack.push(x);
                Ok(())
            },
            Operation::Swap => {
                let n = self.stack.len();
                if n < 2 {
                    return Err(VmError::StackUnderflow());
                }
                let x = self.stack[n - 1];
                let y = self.stack[n - 2];
                self.stack.pop();
                self.stack.pop();
                self.stack.push(x);
                self.stack.push(y);
                proof {
                    assert(self.stack@ =~= old(self).stack@.drop_last().drop_last().push(x).push(
                        y,
                    ));
                }
                Ok(())
            },
            Operation::DebugOut => {
                let n = self.stack.len();
                if n < 1 {
                    return Err(VmError::StackUnderflow());
                }
                self.stack.pop();
                Ok(())
            },
            Operation::__Final => Err(VmError::Unimplemented()),
        }
    }
}

/// Whether a value is a handle to an array cell of this heap.
pub open spec fn spec_is_array(heap: Seq<CellView>, v: Value) -> bool {
    &&& v is Object
    &&& v->Object_0.spec_handle() < heap.len()
    &&& heap[v->Object_0.spec_handle() as int] is Array
}

/// The operand an arithmetic operation of kind `k` reads from a
/// value: the payload reduced to the kind's width.
pub open spec fn spec_operand(k: PrimOpKind, v: Value) -> u64 {
    k.spec_truncate(v.payload_bits())
}

/// The full meaning of one operation: either the stack and heap after
/// a successful step, or the error it reports, in which case the
/// machine is unchanged.
pub open spec fn spec_step(stack: Seq<Value>, heap: Seq<CellView>, o: Operation) -> Result<
    (Seq<Value>, Seq<CellView>),
    VmError,
> {
    match o {
        Operation::Trap => Err(VmError::Unimplemented()),
        Operation::Add(k) => if stack.len() < 2 {
            Err(VmError::StackUnderflow())
        } else if !(stack.last() is Int) || !(stack[stack.len() - 2] is Int) {
            Err(VmError::PopExpectedType())
        } else {
            let x = spec_operand(k, stack.last());
            let y = spec_operand(k, stack[stack.len() - 2]);
            Ok(
                (
                    stack.drop_last().drop_last().push(
                        Value::Int(k, Aligned(spec_wrap_add(k, x, y))),
                    ),
                    heap,
                ),
            )
        },
        Operation::AddImm(k, imm) => if stack.len() < 1 {
            Err(VmError::StackUnderflow())
        } else if !(stack.last() is Int) {
            Err(VmError::PopExpectedType())
        } else {
            let x = spec_operand(k, stack.last());
            let y = k.spec_truncate(imm@);
            Ok((stack.drop_last().push(Value::Int(k, Aligned(spec_wrap_add(k, x, y)))), heap))
        },
        Operation::Sub(k) => if stack.len() < 2 {
            Err(VmError::StackUnderflow())
        } else if !(stack.last() is Int) || !(stack[stack.len() - 2] is Int) {
            Err(VmError::PopExpectedType())
        } else {
            let x = spec_operand(k, stack.last());
            let y = spec_operand(k, stack[stack.len() - 2]);
            Ok(
                (
                    stack.drop_last().drop_last().push(
                        Value::Int(k, Aligned(spec_wrap_sub(k, x, y))),
                    ),
                    heap,
                ),
            )
        },
        Operation::SubImm(k, imm) => if stack.len() < 1 {
            Err(VmError::StackUnderflow())
        } else if !(stack.last() is Int) {
            Err(VmError::PopExpectedType())
        } else {
            let x = spec_operand(k, stack.last());
            let y = k.spec_truncate(imm@);
            Ok((stack.drop_last().push(Value::Int(k, Aligned(spec_wrap_sub(k, x, y)))), heap))
        },
        Operation::Mul(k) => if stack.len() < 2 {
            Err(VmError::StackUnderflow())
        } else if !(stack.last() is Int) || !(stack[stack.len() - 2] is Int) {
            Err(VmError::PopExpectedType())
        } else {
            let x = spec_operand(k, stack.last());
            let y = spec_operand(k, stack[stack.len() - 2]);
            Ok(
                (
                    stack.drop_last().drop_last().push(
                        Value::Int(k, Aligned(spec_wrap_mul(k, x, y))),
                    ),
                    heap,
                ),
            )
        },
        Operation::MulImm(k, imm) => if stack.len() < 1 {
            Err(VmError::StackUnderflow())
        } else if !(stack.last() is Int) {
            Err(VmError::PopExpectedType())
        } else {
            let x = spec_operand(k, stack.last());
            let y = k.spec_truncate(imm@);
            Ok((stack.drop_last().push(Value::Int(k, Aligned(spec_wrap_mul(k, x, y)))), heap))
        },
        Operation::Div(_) => Err(VmError::Unimplemented()),
        Operation::DivImm(_, _) => Err(VmError::Unimplemented()),
        Operation::PushImm(k, imm) => Ok(
            (stack.push(Value::Int(k, Aligned(k.spec_truncate(imm@)))), heap),
        ),
        Operation::PushAtom(a) => Ok(
            (
                stack.push(Value::Object(PVObject { handle: heap.len() as usize })),
                heap.push(CellView::String(PVStringView::Atom(a))),
            ),
        ),
        Operation::MakeObject(_) => Ok(
            (
                stack.push(Value::Object(PVObject { handle: heap.len() as usize })),
                heap.push(CellView::Dict(Seq::empty())),
            ),
        ),
        Operation::MakeArray => Ok(
            (
                stack.push(Value::Object(PVObject { handle: heap.len() as usize })),
                heap.push(CellView::Array(Seq::empty())),
            ),
        ),
        Operation::IndexArray => if stack.len() < 2 {
            Err(VmError::StackUnderflow())
        } else if !(stack[stack.len() - 2] is Int) {
            Err(VmError::PopExpectedType())
        } else if !spec_is_array(heap, stack.last()) {
            Err(VmError::PopExpectedArray())
        } else {
            let h = stack.last()->Object_0.spec_handle() as int;
            let idx = stack[stack.len() - 2].payload_bits() as usize;
            let v = match spec_load(heap[h], idx as int) {
                Some(v) => v,
                None => Value::Null,
            };
            Ok((stack.drop_last().drop_last().push(v), heap))
        },
        Operation::SetArray => if stack.len() < 3 {
            Err(VmError::StackUnderflow())
        } else if !(stack[stack.len() - 2] is Int) {
            Err(VmError::PopExpectedType())
        } else if !spec_is_array(heap, stack.last()) {
            Err(VmError::PopExpectedArray())
        } else {
            let h = stack.last()->Object_0.spec_handle() as int;
            let idx = stack[stack.len() - 2].payload_bits() as usize;
            let value = stack[stack.len() - 3];
            match spec_store(heap[h], idx as int, value) {
                Ok(c) => Ok((stack.drop_last().drop_last().drop_last(), heap.update(h, c))),
                Err(e) => Err(e),
            }
        },
        Operation::Drop => if stack.len() < 1 {
            Err(VmError::StackUnderflow())
        } else {
            Ok((stack.drop_last(), heap))
        },
        Operation::Dup => if stack.len() < 1 {
            Err(VmError::StackUnderflow())
        } else {
            Ok((stack.push(stack.last()), heap))
        },
        Operation::Swap => if stack.len() < 2 {
            Err(VmError::StackUnderflow())
        } else {
            Ok(
                (
                    stack.drop_last().drop_last().push(stack.last()).push(
                        stack[stack.len() - 2],
                    ),
                    heap,
                ),
            )
        },
        Operation::DebugOut => if stack.len() < 1 {
            Err(VmError::StackUnderflow())
        } else {
            Ok((stack.drop_last(), heap))
        },
        Operation::__Final => Err(VmError::Unimplemented()),
    }
}

/// The declared stack effect of an operation: how many values a
/// successful step leaves on the stack, net. Operations that never
/// succeed have no effect.
pub open spec fn stack_effect(o: Operation) -> int {
    match o {
        Operation::Trap | Operation::Div(_) | Operation::DivImm(_, _) | Operation::__Final => 0,
        Operation::Add(_) | Operation::Sub(_) | Operation::Mul(_) => -1,
        Operation::AddImm(_, _) | Operation::SubImm(_, _) | Operation::MulImm(_, _) => 0,
        Operation::PushImm(_, _) | Operation::PushAtom(_) | Operation::MakeObject(_)
            | Operation::MakeArray => 1,
        Operation::IndexArray => -1,
        Operation::SetArray => -3,
        Operation::Drop => -1,
        Operation::Dup => 1,
        Operation::Swap => 0,
        Operation::DebugOut => -1,
    }
}

/// Law (stack discipline): a successful step changes the stack length
/// by exactly the operation's declared effect. A failing step leaves
/// the stack unchanged, which `run_op`'s contract states directly.
pub proof fn lemma_stack_discipline(stack: Seq<Value>, heap: Seq<CellView>, o: Operation)
    ensures
        spec_step(stack, heap, o) matches Ok(sh) ==> sh.0.len() == stack.len() + stack_effect(o),
{
}

/// Law (sharing): `Dup` copies the handle, not the cell. The two top
/// values afterwards are identical, so when they are object handles a
/// store through one is read back through the other.
pub proof fn lemma_dup_sharing(stack: Seq<Value>, heap: Seq<CellView>, i: int, v: Value)
    requires
        stack.len() >= 1,
        0 <= i,
    ensures
        spec_step(stack, heap, Operation::Dup) is Ok,
        ({
            let s2 = spec_step(stack, heap, Operation::Dup)->Ok_0.0;
            s2[s2.len() - 1] == s2[s2.len() - 2]
        }),
        ({
            let s2 = spec_step(stack, heap, Operation::Dup)->Ok_0.0;
            let a = s2[s2.len() - 1];
            let b = s2[s2.len() - 2];
            (spec_is_array(heap, a) && spec_store(
                heap[a->Object_0.spec_handle() as int],
                i,
                v,
            ) is Ok) ==> {
                let h2 = heap.update(
                    a->Object_0.spec_handle() as int,
                    spec_store(heap[a->Object_0.spec_handle() as int], i, v)->Ok_0,
                );
                spec_load(h2[b->Object_0.spec_handle() as int], i) == Some(v)
            }
        }),
{
    let s2 = spec_step(stack, heap, Operation::Dup)->Ok_0.0;
    let a = s2[s2.len() - 1];
    if spec_is_array(heap, a) && spec_store(heap[a->Object_0.spec_handle() as int], i, v) is Ok {
        crate::object::lemma_array_grow_and_store(
            heap[a->Object_0.spec_handle() as int],
            i,
            v,
            0,
        );
    }
}

/// A successful step leaves a sound machine: every stack value and
/// every cell of the result points only at existing cells and keeps
/// its payload in range.
pub proof fn lemma_step_preserves_wf(stack: Seq<Value>, heap: Seq<CellView>, o: Operation)
    requires
        forall|j: int| 0 <= j < heap.len() ==> cell_ok(heap[j], heap.len()),
        forall|i: int| 0 <= i < stack.len() ==> value_ok(stack[i], heap.len()),
        heap.len() <= usize::MAX,
    ensures
        spec_step(stack, heap, o) matches Ok(sh) ==> {
            &&& forall|j: int| 0 <= j < sh.1.len() ==> cell_ok(sh.1[j], sh.1.len())
            &&& forall|i: int| 0 <= i < sh.0.len() ==> value_ok(sh.0[i], sh.1.len())
        },
{
    if spec_step(stack, heap, o) is Ok {
        let sh = spec_step(stack, heap, o)->Ok_0;
        let s2 = sh.0;
        let h2 = sh.1;
        match o {
            Operation::Add(k) | Operation::Sub(k) | Operation::Mul(k) => {
                assert forall|i: int| 0 <= i < s2.len() implies value_ok(s2[i], h2.len()) by {
                    if i < s2.len() - 1 {
                        assert(s2[i] == stack[i]);
                    }
                }
            },
            Operation::AddImm(k, _) | Operation::SubImm(k, _) | Operation::MulImm(k, _) => {
                assert forall|i: int| 0 <= i < s2.len() implies value_ok(s2[i], h2.len()) by {
                    if i < s2.len() - 1 {
                        assert(s2[i] == stack[i]);
                    }
                }
            },
            Operation::PushImm(_, _) => {},
            Operation::PushAtom(_) | Operation::MakeObject(_) | Operation::MakeArray => {
                assert forall|j: int| 0 <= j < h2.len() implies cell_ok(h2[j], h2.len()) by {
                    if j < heap.len() {
                        crate::object::lemma_cell_ok_mono(heap[j], heap.len(), h2.len());
                    }
                }
                assert forall|i: int| 0 <= i < s2.len() implies value_ok(s2[i], h2.len()) by {
                    if i < s2.len() - 1 {
                        crate::object::lemma_value_ok_mono(stack[i], heap.len(), h2.len());
                    }
                }
            },
            Operation::IndexArray => {
                let h = stack.last()->Object_0.spec_handle() as int;
                let idx = stack[stack.len() - 2].payload_bits() as usize;
                assert(cell_ok(heap[h], heap.len()));
                assert forall|i: int| 0 <= i < s2.len() implies value_ok(s2[i], h2.len()) by {
                    if i < s2.len() - 1 {
                        assert(s2[i] == stack[i]);
                    } else {
                        if spec_load(heap[h], idx as int) is Some {
                            assert(heap[h] matches CellView::Array(vs) ==> value_ok(
                                vs[idx as int],
                                heap.len(),
                            ));
                        }
                    }
                }
            },
            Operation::SetArray => {
                let h = stack.last()->Object_0.spec_handle() as int;
                let idx = stack[stack.len() - 2].payload_bits() as usize;
                let value = stack[stack.len() - 3];
                crate::object::lemma_store_cell_ok(heap[h], idx as int, value, heap.len());
                assert forall|j: int| 0 <= j < h2.len() implies cell_ok(h2[j], h2.len()) by {
                    assert(h2[j] == heap.update(h, spec_store(heap[h], idx as int, value)->Ok_0)[j]);
                }
                assert forall|i: int| 0 <= i < s2.len() implies value_ok(s2[i], h2.len()) by {
                    assert(s2[i] == stack[i]);
                }
            },
            Operation::Drop | Operation::DebugOut => {
                assert forall|i: int| 0 <= i < s2.len() implies value_ok(s2[i], h2.len()) by {
                    assert(s2[i] == stack[i]);
                }
            },
            Operation::Dup => {},
            Operation::Swap => {
                assert forall|i: int| 0 <= i < s2.len() implies value_ok(s2[i], h2.len()) by {
                    if i < s2.len() - 2 {
                        assert(s2[i] == stack[i]);
                    }
                }
            },
            _ => {},
        }
    }
}

/// Hands out process pids: a caller-held counter whose every value is
/// used for at most one process.
pub struct ProcessSpawner {
    counter: u64,
}

impl ProcessSpawner {
    /// The next counter value to be assigned.
    pub closed spec fn spec_counter(&self) -> u64 {
        self.counter
    }

    /// A fresh spawner starting at zero.
    pub fn new() -> (r: ProcessSpawner)
        ensures
            r.spec_counter() == 0,
    {
        ProcessSpawner { counter: 0 }
    }

    /// Build a process with the next counter value overlaid on the low
    /// 64 bits of `prefix`, and advance the counter.
    pub fn spawn(&mut self, prefix: u128) -> (r: VmResult<Process>)
        ensures
            r is Ok,
            r->Ok_0.pid == spec_make_pid(prefix, old(self).spec_counter()),
            r->Ok_0.stack@ == Seq::<Value>::empty(),
            r->Ok_0.heap@ == Seq::<crate::object::CellView>::empty(),
            r->Ok_0.wf(),
            final(self).spec_counter() == vstd::wrapping::u64_specs::wrapping_add(
                old(self).spec_counter(),
                1,
            ),
    {
        let c = self.counter;
        self.counter = c.wrapping_add(1);
        Process::new(prefix, c)
    }
}

/// Law: a pid keeps the high 64 bits of its prefix and carries the
/// spawn counter in its low 64 bits.
pub proof fn lemma_pid_layout(prefix: u128, count: u64)
    ensures
        spec_make_pid(prefix, count) as int % pid_low_bound() == count,
        spec_make_pid(prefix, count) as int / pid_low_bound() == prefix as int / pid_low_bound(),
{
    let b = pid_low_bound();
    let base = prefix - (prefix as int % b);
    vstd::arithmetic::div_mod::lemma_fundamental_div_mod(prefix as int, b);
    assert(base == b * (prefix as int / b));
    vstd::arithmetic::div_mod::lemma_mod_bound(prefix as int, b);
    let p = spec_make_pid(prefix, count) as int;
    assert(p == base + count);
    vstd::arithmetic::div_mod::lemma_fundamental_div_mod_converse(
        p,
        b,
        prefix as int / b,
        count as int,
    );
}

/// Law: two processes built from the same prefix with distinct
/// counter values get distinct pids, and the difference lies in the
/// low 64 bits.
pub proof fn lemma_pid_uniqueness(prefix: u128, c1: u64, c2: u64)
    requires
        c1 != c2,
    ensures
        spec_make_pid(prefix, c1) != spec_make_pid(prefix, c2),
        spec_make_pid(prefix, c1) as int / pid_low_bound() == spec_make_pid(prefix, c2) as int
            / pid_low_bound(),
{
    lemma_pid_layout(prefix, c1);
    lemma_pid_layout(prefix, c2);
}

} // verus!
