//! Round-trip behaviour of the packed value encoding, and the argument
//! package's inline-to-heap transition.

use rubyrt::globals::Globals;
use rubyrt::ident::IdentId;
use rubyrt::idmap::IdMap;
use rubyrt::object::{ClassRef, ObjKind, ObjectInfo, RangeInfo};
use rubyrt::value::{PackedValue, Value, VecArray};

fn roundtrip(globals: &mut Globals, expect: Value) {
    let got = expect.clone().pack(globals).unpack(globals);
    if expect != got {
        panic!("Expect:{:?} Got:{:?}", expect, got)
    }
}

#[test]
fn pack_bool1() {
    let mut globals = Globals::new();
    roundtrip(&mut globals, Value::Bool(true));
}

#[test]
fn pack_bool2() {
    let mut globals = Globals::new();
    roundtrip(&mut globals, Value::Bool(false));
}

#[test]
fn pack_nil() {
    let mut globals = Globals::new();
    roundtrip(&mut globals, Value::Nil);
}

#[test]
fn pack_uninit() {
    let mut globals = Globals::new();
    roundtrip(&mut globals, Value::Uninitialized);
}

#[test]
fn pack_integer1() {
    let mut globals = Globals::new();
    roundtrip(&mut globals, Value::FixNum(12054));
}

#[test]
fn pack_integer11() {
    let mut globals = Globals::new();
    let expect_ary = [
        12054,
        -58993,
        0x8000_0000_0000_0000u64 as i64,
        0x4000_0000_0000_0000u64 as i64,
        0x7fff_ffff_ffff_ffffu64 as i64,
    ];
    for expect in expect_ary.iter() {
        let got = match Value::FixNum(*expect).pack(&mut globals).as_fixnum(&globals) {
            Some(int) => int,
            None => panic!("Expect:{:?} Got:Invalid Value", *expect),
        };
        if *expect != got {
            panic!("Expect:{:?} Got:{:?}", *expect, got)
        };
    }
}

#[test]
fn pack_integer2() {
    let mut globals = Globals::new();
    roundtrip(&mut globals, Value::FixNum(-58993));
}

#[test]
fn pack_integer3() {
    let mut globals = Globals::new();
    roundtrip(&mut globals, Value::FixNum(0x8000_0000_0000_0000u64 as i64));
}

#[test]
fn pack_integer4() {
    let mut globals = Globals::new();
    roundtrip(&mut globals, Value::FixNum(0x4000_0000_0000_0000u64 as i64));
}

#[test]
fn pack_integer5() {
    let mut globals = Globals::new();
    roundtrip(&mut globals, Value::FixNum(0x7fff_ffff_ffff_ffffu64 as i64));
}

#[test]
fn pack_float0() {
    let mut globals = Globals::new();
    roundtrip(&mut globals, Value::FloatNum(0.0f64.to_bits()));
}

#[test]
fn pack_float0_is_positive_zero() {
    // the zero float pattern decodes to exactly the bits of positive zero
    let mut globals = Globals::new();
    let packed = Value::FloatNum(0.0f64.to_bits()).pack(&mut globals);
    match packed.unpack(&globals) {
        Value::FloatNum(bits) => assert_eq!(f64::from_bits(bits).to_bits(), 0.0f64.to_bits()),
        other => panic!("Expect float Got:{:?}", other),
    }
}

#[test]
fn pack_float_negative_zero() {
    // negative zero has no inline form; it round-trips bit-identically
    // through the boxed fallback
    let mut globals = Globals::new();
    let bits = (-0.0f64).to_bits();
    let packed = Value::FloatNum(bits).pack(&mut globals);
    assert!(!packed.is_packed_value());
    match packed.unpack(&globals) {
        Value::FloatNum(got) => assert_eq!(got, bits),
        other => panic!("Expect float Got:{:?}", other),
    }
}

#[test]
fn pack_float1() {
    let mut globals = Globals::new();
    roundtrip(&mut globals, Value::FloatNum(100.0f64.to_bits()));
}

#[test]
fn pack_float2() {
    let mut globals = Globals::new();
    roundtrip(&mut globals, Value::FloatNum(13859.628547f64.to_bits()));
}

#[test]
fn pack_float3() {
    let mut globals = Globals::new();
    roundtrip(&mut globals, Value::FloatNum((-5282.2541156f64).to_bits()));
}

#[test]
fn pack_char() {
    let mut globals = Globals::new();
    roundtrip(&mut globals, Value::Char(123));
}

#[test]
fn pack_string() {
    let mut globals = Globals::new();
    roundtrip(&mut globals, Value::String("Ruby".to_string()));
}

#[test]
fn pack_range() {
    let mut globals = Globals::new();
    let from = PackedValue::fixnum(&mut globals, 7);
    let to = PackedValue::fixnum(&mut globals, 36);
    let cls = globals.object;
    let expect = Value::Object(ObjectInfo {
        class: cls,
        var_table: IdMap::new(),
        kind: ObjKind::Range(RangeInfo::new(from, to, false)),
    });
    roundtrip(&mut globals, expect);
}

#[test]
fn pack_class() {
    let mut globals = Globals::new();
    let cref = ClassRef::from(&mut globals, IdentId::from(1), None);
    let cls = globals.class_class;
    let expect = Value::Object(ObjectInfo {
        class: cls,
        var_table: IdMap::new(),
        kind: ObjKind::Class(cref),
    });
    roundtrip(&mut globals, expect);
}

#[test]
fn pack_instance() {
    let mut globals = Globals::new();
    let class_ref = ClassRef::from(&mut globals, IdentId::from(1), None);
    let class = PackedValue::class(&mut globals, class_ref);
    let expect = Value::Object(ObjectInfo::new_ordinary(class));
    roundtrip(&mut globals, expect);
}

#[test]
fn pack_symbol() {
    let mut globals = Globals::new();
    roundtrip(&mut globals, Value::Symbol(IdentId::from(12345)));
}

#[test]
fn fixnum_inline_boundary() {
    // values whose top two bits agree stay inline; the others are boxed
    let mut globals = Globals::new();
    let inline = PackedValue::fixnum(&mut globals, 0x3fff_ffff_ffff_ffff);
    assert!(inline.is_packed_fixnum());
    assert_eq!(inline.as_packed_fixnum(), 0x3fff_ffff_ffff_ffff);
    let boxed = PackedValue::fixnum(&mut globals, 0x4000_0000_0000_0000);
    assert!(!boxed.is_packed_value());
    assert_eq!(boxed.as_fixnum(&globals), Some(0x4000_0000_0000_0000));
}

#[test]
fn zero_alias_pattern_is_boxed() {
    // the one nonzero float pattern whose rotation would collide with the
    // zero encoding goes to the heap and still round-trips exactly
    let mut globals = Globals::new();
    let bits = 0x3000_0000_0000_0000u64;
    let packed = Value::FloatNum(bits).pack(&mut globals);
    assert!(!packed.is_packed_value());
    match packed.unpack(&globals) {
        Value::FloatNum(got) => assert_eq!(got, bits),
        other => panic!("Expect float Got:{:?}", other),
    }
}

#[test]
fn vecarray_small_large_transition() {
    // a package of 7 values and one of 20 behave identically: same length
    // and indexing semantics, nothing dropped or duplicated at the
    // boundary of 8
    let mut globals = Globals::new();
    let mut small = VecArray::new0();
    for i in 0..7i64 {
        small.push(PackedValue::fixnum(&mut globals, i * 11));
    }
    assert_eq!(small.len(), 7);
    for i in 0..7usize {
        assert_eq!(small.get(i).as_packed_fixnum(), (i as i64) * 11);
    }
    let mut large = VecArray::new0();
    for i in 0..20i64 {
        large.push(PackedValue::fixnum(&mut globals, i * 11));
    }
    assert_eq!(large.len(), 20);
    for i in 0..20usize {
        assert_eq!(large.get(i).as_packed_fixnum(), (i as i64) * 11);
    }
    let slice = large.get_slice(6, 10);
    assert_eq!(slice.len(), 4);
    for (k, v) in slice.iter().enumerate() {
        assert_eq!(v.as_packed_fixnum(), ((k + 6) as i64) * 11);
    }
}

#[test]
fn packed_value_identity_vs_equality() {
    // two boxed strings with the same text are logically equal but have
    // distinct identities
    let mut globals = Globals::new();
    let a = PackedValue::string(&mut globals, "same".to_string());
    let b = PackedValue::string(&mut globals, "same".to_string());
    assert_ne!(a.id(), b.id());
    assert!(a.equal(&globals, b));
    let c = PackedValue::string(&mut globals, "other".to_string());
    assert!(!a.equal(&globals, c));
}
