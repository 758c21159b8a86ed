use ani_rs::env::{AniEnv, AniRef, ManagedValue, STATUS_INCORRECT_REF, STATUS_INVALID_TYPE, STATUS_NOT_FOUND, STATUS_OUT_OF_RANGE};
use ani_rs::ser::{Primitive, PrimitiveArray, PrimitiveKind};

#[test]
fn primitive_round_trip_every_width() {
    let mut env = AniEnv::new();
    let values = [
        (Primitive::Bool(true), PrimitiveKind::Bool),
        (Primitive::Byte(-8), PrimitiveKind::Byte),
        (Primitive::Short(-300), PrimitiveKind::Short),
        (Primitive::Int(-7), PrimitiveKind::Int),
        (Primitive::Long(1 << 40), PrimitiveKind::Long),
    ];
    for (p, k) in values {
        let h = env.serialize_primitive(p).unwrap();
        assert_eq!(env.deserialize_primitive(&h, k).unwrap(), p);
    }
}

#[test]
fn primitive_read_at_wrong_width_fails() {
    let mut env = AniEnv::new();
    let h = env.serialize_primitive(Primitive::Int(5)).unwrap();
    let e = env.deserialize_primitive(&h, PrimitiveKind::Long).unwrap_err();
    assert_eq!(e.status, STATUS_INVALID_TYPE);
}

#[test]
fn option_none_and_false_are_distinct() {
    let mut env = AniEnv::new();
    let none = env.serialize_option(None).unwrap();
    let some_false = env.serialize_option(Some(Primitive::Bool(false))).unwrap();
    assert_eq!(env.deserialize_option(&none, PrimitiveKind::Bool).unwrap(), None);
    assert_eq!(
        env.deserialize_option(&some_false, PrimitiveKind::Bool).unwrap(),
        Some(Primitive::Bool(false))
    );
    let zero = env.serialize_option(Some(Primitive::Int(0))).unwrap();
    assert_eq!(env.deserialize_option(&zero, PrimitiveKind::Int).unwrap(), Some(Primitive::Int(0)));
}

#[test]
fn option_string_empty_is_present() {
    let mut env = AniEnv::new();
    let empty = env.serialize_option_string(Some(String::new())).unwrap();
    let none = env.serialize_option_string(None).unwrap();
    assert_eq!(env.deserialize_option_string(&empty).unwrap(), Some(String::new()));
    assert_eq!(env.deserialize_option_string(&none).unwrap(), None);
}

#[test]
fn string_round_trip() {
    let mut env = AniEnv::new();
    let h = env.serialize_string("hello world".to_string()).unwrap();
    assert_eq!(env.deserialize_string(&h).unwrap(), "hello world");
}

#[test]
fn arrays_round_trip_every_width_and_empty() {
    let mut env = AniEnv::new();
    let h = env.serialize_array(PrimitiveArray::Bool(vec![true, false, true])).unwrap();
    match env.deserialize_array(&h, PrimitiveKind::Bool).unwrap() {
        PrimitiveArray::Bool(v) => assert_eq!(v, vec![true, false, true]),
        _ => panic!("wrong width"),
    }
    let h = env.serialize_array(PrimitiveArray::Byte(vec![-1, 0, 1])).unwrap();
    match env.deserialize_array(&h, PrimitiveKind::Byte).unwrap() {
        PrimitiveArray::Byte(v) => assert_eq!(v, vec![-1, 0, 1]),
        _ => panic!("wrong width"),
    }
    let h = env.serialize_array(PrimitiveArray::Short(vec![i16::MIN, i16::MAX])).unwrap();
    match env.deserialize_array(&h, PrimitiveKind::Short).unwrap() {
        PrimitiveArray::Short(v) => assert_eq!(v, vec![i16::MIN, i16::MAX]),
        _ => panic!("wrong width"),
    }
    let h = env.serialize_array(PrimitiveArray::Int(vec![])).unwrap();
    match env.deserialize_array(&h, PrimitiveKind::Int).unwrap() {
        PrimitiveArray::Int(v) => assert!(v.is_empty()),
        _ => panic!("wrong width"),
    }
    let h = env.serialize_array(PrimitiveArray::Long(vec![7, -7])).unwrap();
    match env.deserialize_array(&h, PrimitiveKind::Long).unwrap() {
        PrimitiveArray::Long(v) => assert_eq!(v, vec![7, -7]),
        _ => panic!("wrong width"),
    }
    assert!(env.deserialize_array(&h, PrimitiveKind::Int).is_err());
}

#[test]
fn ref_array_round_trip_and_range() {
    let mut env = AniEnv::new();
    let a = env.serialize_string("a".to_string()).unwrap();
    let b = env.serialize_string("b".to_string()).unwrap();
    let h = env.serialize_ref_array(vec![a, b]).unwrap();
    assert_eq!(env.deserialize_ref_array(&h).unwrap(), vec![a, b]);
    assert_eq!(env.array_get_ref(&h, 1).unwrap(), b);
    assert_eq!(env.array_get_ref(&h, 2).unwrap_err().status, STATUS_OUT_OF_RANGE);
}

#[test]
fn string_array_round_trip() {
    let mut env = AniEnv::new();
    let v = vec!["x".to_string(), String::new(), "zz".to_string()];
    let h = env.serialize_string_array(&v).unwrap();
    assert_eq!(env.deserialize_string_array(&h).unwrap(), v);
    let empty: Vec<String> = Vec::new();
    let h = env.serialize_string_array(&empty).unwrap();
    assert!(env.deserialize_string_array(&h).unwrap().is_empty());
}

#[test]
fn string_record_round_trip() {
    let mut env = AniEnv::new();
    let kv = vec![("k1".to_string(), "v1".to_string()), ("k2".to_string(), "v2".to_string())];
    let h = env.serialize_string_record(&kv).unwrap();
    assert_eq!(env.deserialize_string_record(&h).unwrap(), kv);
}

#[test]
fn array_buffer_round_trip() {
    let mut env = AniEnv::new();
    let h = env.serialize_array_buffer(vec![48, 49, 50]).unwrap();
    assert_eq!(env.deserialize_array_buffer(&h).unwrap(), vec![48, 49, 50]);
}

#[test]
fn struct_scenario_field_for_field() {
    let mut env = AniEnv::new();
    let b = env.serialize_primitive(Primitive::Bool(true)).unwrap();
    let i = env.serialize_primitive(Primitive::Int(-7)).unwrap();
    let obj = env
        .new_object("anirs.test.ani_test.PrimitiveTest".to_string(), vec![b, i])
        .unwrap();
    let f0 = env.get_field(&obj, 0).unwrap();
    let f1 = env.get_field(&obj, 1).unwrap();
    assert_eq!(env.deserialize_primitive(&f0, PrimitiveKind::Bool).unwrap(), Primitive::Bool(true));
    assert_eq!(env.deserialize_primitive(&f1, PrimitiveKind::Int).unwrap(), Primitive::Int(-7));
    assert_eq!(env.get_field(&obj, 2).unwrap_err().status, STATUS_OUT_OF_RANGE);
}

#[test]
fn enum_item_round_trip() {
    let mut env = AniEnv::new();
    let name = "anirs.test.ani_test.Action".to_string();
    let h = env.new_enum_item_by_index(name.clone(), 1).unwrap();
    assert_eq!(env.get_enum_index(&h, &name).unwrap(), 1);
    assert_eq!(env.get_enum_index(&h, &"Other".to_string()).unwrap_err().status, STATUS_INVALID_TYPE);
}

#[test]
fn union_selects_first_matching_class() {
    let mut env = AniEnv::new();
    let candidates = vec![
        "std.core.String".to_string(),
        "escompat.ArrayBuffer".to_string(),
        "anirs.test.ani_test.ResponseCode".to_string(),
    ];
    let s = env.serialize_string("text".to_string()).unwrap();
    let buf = env.serialize_array_buffer(vec![1]).unwrap();
    let obj = env.new_object("anirs.test.ani_test.ResponseCode".to_string(), vec![]).unwrap();
    let n = env.serialize_primitive(Primitive::Int(3)).unwrap();
    assert_eq!(env.select_variant(&s, &candidates).unwrap(), 0);
    assert_eq!(env.select_variant(&buf, &candidates).unwrap(), 1);
    assert_eq!(env.select_variant(&obj, &candidates).unwrap(), 2);
    assert_eq!(env.select_variant(&n, &candidates).unwrap_err().status, STATUS_NOT_FOUND);
    let repeated = vec!["std.core.String".to_string(), "std.core.String".to_string()];
    assert_eq!(env.select_variant(&s, &repeated).unwrap(), 0);
}

#[test]
fn null_and_unknown_handles_are_refused() {
    let env = AniEnv::new();
    assert_eq!(env.value_of(&AniRef::null()).unwrap_err().status, STATUS_INCORRECT_REF);
    assert!(env.value_of(&AniRef::from_raw(42)).is_err());
}

#[test]
fn raw_handles_pass_through() {
    let r = AniRef::from_raw(17);
    assert_eq!(r.as_raw(), 17);
    assert_eq!(r.into_raw(), 17);
    assert_eq!(AniRef::null().as_raw(), 0);
}

#[test]
fn undefined_is_recognised() {
    let mut env = AniEnv::new();
    let u = env.serialize_option(None).unwrap();
    let z = env.serialize_primitive(Primitive::Int(0)).unwrap();
    assert!(env.is_undefined(&u).unwrap());
    assert!(!env.is_undefined(&z).unwrap());
    assert!(matches!(env.value_of(&u).unwrap(), ManagedValue::Undefined));
}
