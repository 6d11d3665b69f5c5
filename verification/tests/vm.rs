use paravita::{
    AtomStore, Heap, IntOpImmediate, Operation, PVObjectType, PVString, PrimOpKind, Process,
    ProcessSpawner, Value, VmError, VmResult,
};

fn fresh() -> Process {
    Process::new(0, 0).unwrap()
}

fn run(process: &mut Process, prog: Vec<Operation>) {
    for op in prog {
        process.run_op(op).unwrap();
    }
}

#[test]
pub fn add() -> VmResult<()> {
    let prog = vec![
        Operation::PushImm(PrimOpKind::I32, IntOpImmediate::from_i64(1)),
        Operation::PushImm(PrimOpKind::I32, IntOpImmediate::from_i64(1)),
        Operation::Add(PrimOpKind::I32),
    ];

    let mut process = Process::new(0, 0).unwrap();

    for i in prog {
        process.run_op(i).unwrap();
    }

    assert_eq!(process.stack.len(), 1);
    let mut v = Value::Null;
    process.pop_into(&mut v)?;
    assert_eq!(Process::as_num(&v)?, 2);
    Ok(())
}

#[test]
fn add_u8_wraps() {
    let mut p = fresh();
    run(
        &mut p,
        vec![
            Operation::PushImm(PrimOpKind::U8, IntOpImmediate::from_u8(250)),
            Operation::PushImm(PrimOpKind::U8, IntOpImmediate::from_u8(10)),
            Operation::Add(PrimOpKind::U8),
        ],
    );
    assert_eq!(p.stack.len(), 1);
    let v = p.stack[0];
    assert!(matches!(v, Value::Int(PrimOpKind::U8, _)));
    assert_eq!(v.reinterpret_u8(), 4);
}

#[test]
fn mul_i16_negatives() {
    let mut p = fresh();
    run(
        &mut p,
        vec![
            Operation::PushImm(PrimOpKind::I16, IntOpImmediate::from_i16(-3)),
            Operation::PushImm(PrimOpKind::I16, IntOpImmediate::from_i16(-4)),
            Operation::Mul(PrimOpKind::I16),
        ],
    );
    assert_eq!(p.stack.len(), 1);
    let v = p.stack[0];
    assert!(matches!(v, Value::Int(PrimOpKind::I16, _)));
    assert_eq!(v.reinterpret_i16(), 12);
}

#[test]
fn sub_pops_top_minus_second() {
    // stack ( y x -- x - y ): push 2 then 10; top is 10; result 10 - 2.
    let mut p = fresh();
    run(
        &mut p,
        vec![
            Operation::PushImm(PrimOpKind::I32, IntOpImmediate::from_i32(2)),
            Operation::PushImm(PrimOpKind::I32, IntOpImmediate::from_i32(10)),
            Operation::Sub(PrimOpKind::I32),
        ],
    );
    assert_eq!(p.stack[0].reinterpret_i32(), 8);
}

#[test]
fn imm_variants_match_stack_variants() {
    let mut p = fresh();
    run(
        &mut p,
        vec![
            Operation::PushImm(PrimOpKind::U16, IntOpImmediate::from_u16(7)),
            Operation::AddImm(PrimOpKind::U16, IntOpImmediate::from_u16(5)),
            Operation::SubImm(PrimOpKind::U16, IntOpImmediate::from_u16(2)),
            Operation::MulImm(PrimOpKind::U16, IntOpImmediate::from_u16(3)),
        ],
    );
    assert_eq!(p.stack.len(), 1);
    assert_eq!(p.stack[0].reinterpret_u16(), 30);
}

#[test]
fn add_wraps_at_max_edges() {
    let mut p = fresh();
    run(
        &mut p,
        vec![
            Operation::PushImm(PrimOpKind::U8, IntOpImmediate::from_u8(255)),
            Operation::AddImm(PrimOpKind::U8, IntOpImmediate::from_u8(1)),
        ],
    );
    assert_eq!(p.stack[0].reinterpret_u8(), 0);

    let mut q = fresh();
    run(
        &mut q,
        vec![
            Operation::PushImm(PrimOpKind::I16, IntOpImmediate::from_i16(i16::MAX)),
            Operation::AddImm(PrimOpKind::I16, IntOpImmediate::from_i16(1)),
        ],
    );
    assert_eq!(q.stack[0].reinterpret_i16(), i16::MIN);
}

#[test]
fn sub_wraps_at_min_edges() {
    let mut p = fresh();
    run(
        &mut p,
        vec![
            Operation::PushImm(PrimOpKind::I8, IntOpImmediate::from_i8(i8::MIN)),
            Operation::SubImm(PrimOpKind::I8, IntOpImmediate::from_i8(1)),
        ],
    );
    assert_eq!(p.stack[0].reinterpret_i8(), i8::MAX);

    let mut q = fresh();
    run(
        &mut q,
        vec![
            Operation::PushImm(PrimOpKind::U32, IntOpImmediate::from_u32(0)),
            Operation::SubImm(PrimOpKind::U32, IntOpImmediate::from_u32(1)),
        ],
    );
    assert_eq!(q.stack[0].reinterpret_u32(), u32::MAX);
}

#[test]
fn mul_wraps_at_max_edges() {
    let mut p = fresh();
    run(
        &mut p,
        vec![
            Operation::PushImm(PrimOpKind::U64, IntOpImmediate::from_u64(u64::MAX)),
            Operation::MulImm(PrimOpKind::U64, IntOpImmediate::from_u64(2)),
        ],
    );
    assert_eq!(p.stack[0].reinterpret_u64(), u64::MAX - 1);
}

#[test]
fn array_set_then_index() {
    // Store 7 at index 2 of a fresh array, then read indices 2 and 0.
    let mut p = fresh();
    run(
        &mut p,
        vec![
            Operation::PushImm(PrimOpKind::U32, IntOpImmediate::from_u32(7)),
            Operation::PushImm(PrimOpKind::U32, IntOpImmediate::from_u32(2)),
            Operation::MakeArray,
        ],
    );
    // Keep a copy of the handle so the array can be recovered after
    // SetArray consumes its three operands.
    let arr = p.stack[2];
    run(&mut p, vec![Operation::SetArray]);
    assert_eq!(p.stack.len(), 0);

    run(
        &mut p,
        vec![Operation::PushImm(PrimOpKind::U32, IntOpImmediate::from_u32(2))],
    );
    p.push(arr);
    run(&mut p, vec![Operation::IndexArray]);
    assert_eq!(p.stack.len(), 1);
    let v = p.stack[0];
    assert!(matches!(v, Value::Int(PrimOpKind::U32, _)));
    assert_eq!(v.reinterpret_u32(), 7);

    run(
        &mut p,
        vec![
            Operation::Drop,
            Operation::PushImm(PrimOpKind::U32, IntOpImmediate::from_u32(0)),
        ],
    );
    p.push(arr);
    run(&mut p, vec![Operation::IndexArray]);
    assert_eq!(p.stack.len(), 1);
    assert!(p.stack[0].is_null());
}

#[test]
fn index_array_out_of_range_yields_null() {
    let mut p = fresh();
    run(
        &mut p,
        vec![
            Operation::PushImm(PrimOpKind::U32, IntOpImmediate::from_u32(9)),
            Operation::MakeArray,
            Operation::IndexArray,
        ],
    );
    assert_eq!(p.stack.len(), 1);
    assert!(p.stack[0].is_null());
}

#[test]
fn atoms_compare_equal_through_objects() {
    let mut store = AtomStore::new();
    let a1 = store.insert("x");
    let a2 = store.insert("x");
    assert_eq!(a1, a2);

    let mut p = fresh();
    run(&mut p, vec![Operation::PushAtom(a1), Operation::PushAtom(a2)]);
    assert_eq!(p.stack.len(), 2);
    let v1 = p.stack[0];
    let v2 = p.stack[1];
    assert!(p.heap.value_eq(&v1, &v2, 8));

    let other = store.insert("y");
    run(&mut p, vec![Operation::PushAtom(other)]);
    let v3 = p.stack[2];
    assert!(!p.heap.value_eq(&v1, &v3, 8));
}

#[test]
fn add_on_empty_stack_underflows() {
    let mut p = fresh();
    let r = p.run_op(Operation::Add(PrimOpKind::I32));
    assert_eq!(r, Err(VmError::StackUnderflow()));
    assert_eq!(p.stack.len(), 0);
}

#[test]
fn add_on_object_is_type_mismatch() {
    let mut p = fresh();
    run(&mut p, vec![Operation::MakeArray, Operation::MakeArray]);
    let r = p.run_op(Operation::Add(PrimOpKind::I32));
    assert_eq!(r, Err(VmError::PopExpectedType()));
    assert_eq!(p.stack.len(), 2);
}

#[test]
fn index_on_non_array_is_array_mismatch() {
    let mut p = fresh();
    run(
        &mut p,
        vec![
            Operation::PushImm(PrimOpKind::U32, IntOpImmediate::from_u32(0)),
            Operation::PushImm(PrimOpKind::U32, IntOpImmediate::from_u32(1)),
        ],
    );
    let r = p.run_op(Operation::IndexArray);
    assert_eq!(r, Err(VmError::PopExpectedArray()));
    assert_eq!(p.stack.len(), 2);

    // A map cell is an object but not an array.
    let mut q = fresh();
    run(
        &mut q,
        vec![
            Operation::PushImm(PrimOpKind::U32, IntOpImmediate::from_u32(0)),
            Operation::MakeObject(0),
        ],
    );
    let r = q.run_op(Operation::IndexArray);
    assert_eq!(r, Err(VmError::PopExpectedArray()));
    assert_eq!(q.stack.len(), 2);
}

#[test]
fn set_array_at_address_limit_fails_reserve() {
    let mut p = fresh();
    run(
        &mut p,
        vec![
            Operation::PushImm(PrimOpKind::U32, IntOpImmediate::from_u32(7)),
            Operation::PushImm(PrimOpKind::U64, IntOpImmediate::from_u64(u64::MAX)),
            Operation::MakeArray,
        ],
    );
    let r = p.run_op(Operation::SetArray);
    assert_eq!(r, Err(VmError::MemoryReserveFailed()));
    assert_eq!(p.stack.len(), 3);
}

#[test]
fn trap_and_reserved_ops_are_unimplemented() {
    let mut p = fresh();
    assert_eq!(p.run_op(Operation::Trap), Err(VmError::Unimplemented()));
    assert_eq!(
        p.run_op(Operation::Div(PrimOpKind::U8)),
        Err(VmError::Unimplemented())
    );
    assert_eq!(
        p.run_op(Operation::DivImm(PrimOpKind::U8, IntOpImmediate::from_u8(1))),
        Err(VmError::Unimplemented())
    );
    assert_eq!(p.stack.len(), 0);
}

#[test]
fn swap_exchanges_top_two() {
    let mut p = fresh();
    run(
        &mut p,
        vec![
            Operation::PushImm(PrimOpKind::U8, IntOpImmediate::from_u8(1)),
            Operation::PushImm(PrimOpKind::U8, IntOpImmediate::from_u8(2)),
            Operation::Swap,
        ],
    );
    assert_eq!(p.stack[0].reinterpret_u8(), 2);
    assert_eq!(p.stack[1].reinterpret_u8(), 1);
}

#[test]
fn drop_and_debug_out_discard_top() {
    let mut p = fresh();
    run(
        &mut p,
        vec![
            Operation::PushImm(PrimOpKind::U8, IntOpImmediate::from_u8(1)),
            Operation::PushImm(PrimOpKind::U8, IntOpImmediate::from_u8(2)),
            Operation::Drop,
        ],
    );
    assert_eq!(p.stack.len(), 1);
    assert_eq!(p.stack[0].reinterpret_u8(), 1);
    run(&mut p, vec![Operation::DebugOut]);
    assert_eq!(p.stack.len(), 0);
    assert_eq!(
        p.run_op(Operation::DebugOut),
        Err(VmError::StackUnderflow())
    );
}

#[test]
fn dup_shares_the_object() {
    // After Dup, a store through one handle is read through the other.
    let mut p = fresh();
    run(&mut p, vec![Operation::MakeArray, Operation::Dup]);
    assert_eq!(p.stack[0], p.stack[1]);
    // Keep the lower copy; store through the upper one.
    run(
        &mut p,
        vec![
            Operation::PushImm(PrimOpKind::U32, IntOpImmediate::from_u32(9)),
            Operation::PushImm(PrimOpKind::U32, IntOpImmediate::from_u32(0)),
        ],
    );
    // Stack: [arr, arr, 9, 0]; bring one arr to the top.
    let mut arr = Value::Null;
    let mut idx = Value::Null;
    let mut val = Value::Null;
    p.pop_into(&mut idx).unwrap();
    p.pop_into(&mut val).unwrap();
    p.pop_into(&mut arr).unwrap();
    p.push(val);
    p.push(idx);
    p.push(arr);
    p.run_op(Operation::SetArray).unwrap();
    // Read through the remaining (other) handle.
    run(
        &mut p,
        vec![
            Operation::PushImm(PrimOpKind::U32, IntOpImmediate::from_u32(0)),
            Operation::Swap,
            Operation::IndexArray,
        ],
    );
    assert_eq!(p.stack.len(), 1);
    assert_eq!(p.stack[0].reinterpret_u32(), 9);
}

#[test]
fn duplicate_makes_an_independent_cell() {
    let mut heap = Heap::new();
    let a = heap.new_cell(PVObjectType::Array(Vec::new()));
    heap.store_at(&a, 0, Value::from_u32(5)).unwrap();
    let b = a.duplicate(&mut heap).unwrap();
    assert_ne!(a.handle(), b.handle());
    // Equal contents at first...
    let va = Value::Object(a);
    let vb = Value::Object(b);
    assert!(heap.value_eq(&va, &vb, 8));
    // ...but a store through one is not seen through the other.
    heap.store_at(&a, 0, Value::from_u32(6)).unwrap();
    assert!(!heap.value_eq(&va, &vb, 8));
}

#[test]
fn dict_cells_compare_by_entries() {
    let mut heap = Heap::new();
    let entries = || {
        vec![
            (PVString::Str("k".to_string()), Value::from_u8(1)),
            (PVString::Str("l".to_string()), Value::from_u8(2)),
        ]
    };
    let a = heap.new_cell(PVObjectType::Dict(entries()));
    let b = heap.new_cell(PVObjectType::Dict(entries()));
    assert!(heap.value_eq(&Value::Object(a), &Value::Object(b), 8));

    let c = heap.new_cell(PVObjectType::Dict(vec![(
        PVString::Str("k".to_string()),
        Value::from_u8(9),
    )]));
    assert!(!heap.value_eq(&Value::Object(a), &Value::Object(c), 8));
}

#[test]
fn atom_string_never_equals_owned_string() {
    let mut store = AtomStore::new();
    let a = store.insert("same");
    let mut heap = Heap::new();
    let lhs = heap.new_cell(PVObjectType::String(PVString::Atom(a)));
    let rhs = heap.new_cell(PVObjectType::String(PVString::Str("same".to_string())));
    assert!(!heap.value_eq(&Value::Object(lhs), &Value::Object(rhs), 8));

    let rhs2 = heap.new_cell(PVObjectType::String(PVString::Str("same".to_string())));
    assert!(heap.value_eq(&Value::Object(rhs), &Value::Object(rhs2), 8));
}

#[test]
fn user_data_never_compares_equal() {
    let mut heap = Heap::new();
    let a = heap.new_cell(PVObjectType::UserData(7));
    let va = Value::Object(a);
    assert!(!heap.value_eq(&va, &va, 8));
}

#[test]
fn pids_differ_in_low_bits_only() {
    let prefix: u128 = 0xfd00_0000_0000_0001_0000_0000_0000_0000;
    let mut spawner = ProcessSpawner::new();
    let p1 = spawner.spawn(prefix).unwrap();
    let p2 = spawner.spawn(prefix).unwrap();
    assert_ne!(p1.pid(), p2.pid());
    assert_eq!(p1.pid() >> 64, p2.pid() >> 64);
    assert_eq!(p1.pid() >> 64, prefix >> 64);
    assert_eq!(p1.pid() as u64, 0);
    assert_eq!(p2.pid() as u64, 1);
}

#[test]
fn make_object_pushes_an_empty_map() {
    let mut p = fresh();
    run(&mut p, vec![Operation::MakeObject(16)]);
    assert_eq!(p.stack.len(), 1);
    let v = p.stack[0];
    let obj = match v {
        Value::Object(o) => o,
        _ => panic!("expected an object"),
    };
    assert!(matches!(p.heap.get(&obj), PVObjectType::Dict(d) if d.is_empty()));
}

#[test]
fn push_atom_builds_a_string_cell() {
    let mut store = AtomStore::new();
    let a = store.insert("name");
    let mut p = fresh();
    run(&mut p, vec![Operation::PushAtom(a)]);
    let obj = match p.stack[0] {
        Value::Object(o) => o,
        _ => panic!("expected an object"),
    };
    match p.heap.get(&obj) {
        PVObjectType::String(PVString::Atom(got)) => assert_eq!(*got, a),
        _ => panic!("expected an atom string cell"),
    }
}

#[test]
fn discriminants_are_dense_and_in_range() {
    let ops = [
        Operation::Trap,
        Operation::Add(PrimOpKind::U8),
        Operation::AddImm(PrimOpKind::U8, IntOpImmediate::from_u8(0)),
        Operation::Sub(PrimOpKind::U8),
        Operation::SubImm(PrimOpKind::U8, IntOpImmediate::from_u8(0)),
        Operation::Mul(PrimOpKind::U8),
        Operation::MulImm(PrimOpKind::U8, IntOpImmediate::from_u8(0)),
        Operation::Div(PrimOpKind::U8),
        Operation::DivImm(PrimOpKind::U8, IntOpImmediate::from_u8(0)),
        Operation::PushImm(PrimOpKind::U8, IntOpImmediate::from_u8(0)),
        Operation::MakeObject(0),
        Operation::MakeArray,
        Operation::IndexArray,
        Operation::SetArray,
        Operation::Drop,
        Operation::Dup,
        Operation::Swap,
        Operation::DebugOut,
    ];
    let mut seen = std::collections::BTreeSet::new();
    for op in ops {
        let d = op.discriminant();
        assert!(d < op.kinds());
        assert!(seen.insert(d));
    }
    assert_eq!(Operation::Trap.discriminant(), 0);
}

#[test]
fn immediate_readers_take_low_bytes() {
    let imm = IntOpImmediate::from_u64(0x0102_0304_0506_0708);
    assert_eq!(imm.read_u64(PrimOpKind::U64), 0x0102_0304_0506_0708);
    let imm8 = IntOpImmediate::from_u8(0xfe);
    assert_eq!(imm8.read_u8(PrimOpKind::U8), 0xfe);
    let immi16 = IntOpImmediate::from_i16(-2);
    assert_eq!(immi16.read_i16(PrimOpKind::I16), -2);
    assert_eq!(imm.as_aligned().0, 0x0102_0304_0506_0708);
}

#[test]
fn slice_as_array_copies_exactly() {
    let s: &[u8] = &[1, 2, 3, 4];
    let a: [u8; 4] = IntOpImmediate::slice_as_array(s);
    assert_eq!(a, [1, 2, 3, 4]);
}

#[test]
fn error_messages_name_each_kind() {
    assert_eq!(
        VmError::StackUnderflow().message(),
        "Process stack underflow."
    );
    assert_eq!(
        VmError::PopExpectedType().message(),
        "VM expected value on pop."
    );
    assert_eq!(
        VmError::PopExpectedArray().message(),
        "VM expected array on pop."
    );
}

#[test]
fn pop_helpers_follow_stack_order() {
    let mut p = fresh();
    run(
        &mut p,
        vec![
            Operation::PushImm(PrimOpKind::U8, IntOpImmediate::from_u8(1)),
            Operation::PushImm(PrimOpKind::U8, IntOpImmediate::from_u8(2)),
            Operation::PushImm(PrimOpKind::U8, IntOpImmediate::from_u8(3)),
        ],
    );
    let mut x = Value::Null;
    let mut y = Value::Null;
    let mut z = Value::Null;
    p.pop3_into(&mut x, &mut y, &mut z).unwrap();
    assert_eq!(x.reinterpret_u8(), 3);
    assert_eq!(y.reinterpret_u8(), 2);
    assert_eq!(z.reinterpret_u8(), 1);
    assert_eq!(p.stack.len(), 0);
    assert_eq!(
        p.pop_into(&mut Value::Null),
        Err(VmError::StackUnderflow())
    );
}
