use paravita::{PrimOpKind, Value};

#[test]
fn round_trip_u8() {
    for v in [0u8, 1, 0x7f, 0x80, 0xff] {
        assert_eq!(Value::from_u8(v).reinterpret_u8(), v);
    }
}

#[test]
fn round_trip_i8() {
    for v in [i8::MIN, -1, 0, 1, i8::MAX] {
        assert_eq!(Value::from_i8(v).reinterpret_i8(), v);
    }
}

#[test]
fn round_trip_u16() {
    for v in [0u16, 1, 0x7fff, 0x8000, 0xffff] {
        assert_eq!(Value::from_u16(v).reinterpret_u16(), v);
    }
}

#[test]
fn round_trip_i16() {
    for v in [i16::MIN, -1, 0, 1, i16::MAX] {
        assert_eq!(Value::from_i16(v).reinterpret_i16(), v);
    }
}

#[test]
fn round_trip_u32() {
    for v in [0u32, 1, u32::MAX / 2, u32::MAX] {
        assert_eq!(Value::from_u32(v).reinterpret_u32(), v);
    }
}

#[test]
fn round_trip_i32() {
    for v in [i32::MIN, -1, 0, 1, i32::MAX] {
        assert_eq!(Value::from_i32(v).reinterpret_i32(), v);
    }
}

#[test]
fn round_trip_u64() {
    for v in [0u64, 1, u64::MAX / 2, u64::MAX] {
        assert_eq!(Value::from_u64(v).reinterpret_u64(), v);
    }
}

#[test]
fn round_trip_i64() {
    for v in [i64::MIN, -1, 0, 1, i64::MAX] {
        assert_eq!(Value::from_i64(v).reinterpret_i64(), v);
    }
}

#[test]
fn null_is_default_and_reads_zero() {
    let v = Value::default();
    assert!(v.is_null());
    assert_eq!(v.reinterpret_u64(), 0);
    assert_eq!(v.reinterpret_i32(), 0);
}

#[test]
fn from_truncates_to_kind() {
    let v = Value::from(0x1234_5678_9abc_deffu64, PrimOpKind::U8);
    assert_eq!(v.reinterpret_u8(), 0xff);
    assert_eq!(v.reinterpret_u64(), 0xff);
    let w = Value::from(0x1234_5678_9abc_deffu64, PrimOpKind::U16);
    assert_eq!(w.reinterpret_u16(), 0xdeff);
}

#[test]
fn int_is_not_null() {
    assert!(!Value::from_u8(0).is_null());
}
