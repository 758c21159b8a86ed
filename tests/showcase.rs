use ani_rs::character::char_from_unit;
use ani_rs::env::{AniEnv, AniRef};
use ani_rs::layout::{ClassCache, ClassLayout};
use ani_rs::objects::AniObject;
use ani_rs::ser::{Primitive, PrimitiveKind};
use ani_rs::showcase::{
    array_bool, array_i64, aniref_array_de_test, aniref_deserialize_test, aniref_struct_de_test,
    change_array_buffer, change_int8_array, change_uint32_array, create_array_buffer,
    create_int16_array, json_request_test, option_bool, option_i32, request_body_text,
    return_ani_ref_test,
    AniRefStruct, HttpDataType, HttpRequestOptions, RequestBody,
};
use ani_rs::typed_array::{ArrayBuffer, Int16Array, Int8Array, TypedArray, Uint32Array};

#[test]
fn arrays_and_options_pass_through() {
    assert_eq!(array_bool(vec![true, false]).unwrap(), vec![true, false]);
    assert_eq!(array_i64(vec![]).unwrap(), Vec::<i64>::new());
    assert_eq!(option_bool(Some(false)).unwrap(), Some(false));
    assert_eq!(option_bool(None).unwrap(), None);
    assert_eq!(option_i32(Some(0)).unwrap(), Some(0));
}

#[test]
fn change_adds_one_to_each_element() {
    let b = change_array_buffer(ArrayBuffer::new_with_vec(vec![0, 1, 254])).unwrap();
    assert_eq!(b.to_vec(), vec![1, 2, 255]);
    let a = change_int8_array(Int8Array::new_with_vec(vec![-128, 0, 126])).unwrap();
    assert_eq!(a.to_vec(), vec![-127, 1, 127]);
    let u = change_uint32_array(Uint32Array::new_with_vec(vec![10, 20, 30])).unwrap();
    assert_eq!(u.to_vec(), vec![11, 21, 31]);
}

#[test]
fn create_copies_elements() {
    assert_eq!(create_array_buffer().unwrap().to_vec(), vec![1, 2, 3, 4]);
    let c = create_int16_array(Int16Array::new_with_vec(vec![-5, 5])).unwrap();
    assert_eq!(c.to_vec(), vec![-5, 5]);
    assert_eq!(c.len(), 2);
}

#[test]
fn typed_array_classes() {
    assert_eq!(TypedArray::Uint8.ani_class(), "escompat.Uint8Array");
    assert_eq!(TypedArray::Int32.ani_class(), "escompat.Int32Array");
}

#[test]
fn object_reference_reads_as_string() {
    let mut env = AniEnv::new();
    let h = env.serialize_string("same".to_string()).unwrap();
    let yes = AniRefStruct { ani_obj_string: AniObject(h), ani_string: "same".to_string() };
    assert!(aniref_struct_de_test(&env, yes).unwrap());
    let no = AniRefStruct { ani_obj_string: AniObject(h), ani_string: "other".to_string() };
    assert!(!aniref_struct_de_test(&env, no).unwrap());
    let n = env.serialize_primitive(Primitive::Int(1)).unwrap();
    let bad = AniRefStruct { ani_obj_string: AniObject(n), ani_string: "1".to_string() };
    assert!(aniref_struct_de_test(&env, bad).is_err());
    assert!(aniref_deserialize_test(&env, h).unwrap());
}

#[test]
fn object_array_reads_as_strings() {
    let mut env = AniEnv::new();
    let a = env.serialize_string("a".to_string()).unwrap();
    let b = env.serialize_string("b".to_string()).unwrap();
    let out = aniref_array_de_test(&env, vec![AniObject(a), AniObject(b)]).unwrap();
    assert_eq!(out, vec!["a".to_string(), "b".to_string()]);
}

#[test]
fn returned_reference_holds_hello_world() {
    let mut env = AniEnv::new();
    let h = return_ani_ref_test(&mut env).unwrap();
    assert_eq!(env.deserialize_string(&h).unwrap(), "hello world");
}

#[test]
fn weak_reference_resolves_until_target_released() {
    let mut env = AniEnv::new();
    let f = env.new_function(1).unwrap();
    let g = f.into_global(&mut env).unwrap();
    let w = env.create_weak_ref(&AniRef::from_raw(g.as_raw())).unwrap();
    assert!(env.value_of(&w).is_err());
    let strong = env.resolve_weak_ref(&w).unwrap().unwrap();
    assert!(env.value_of(&strong).is_ok());

    let mut env = AniEnv::new();
    let s = env.serialize_string("x".to_string()).unwrap();
    let g = env.create_global_ref(&s).unwrap();
    let w = env.create_weak_ref(&g).unwrap();
    assert!(env.resolve_weak_ref(&w).unwrap().is_some());
    assert!(env.resolve_weak_ref(&s).is_err());
}

#[test]
fn weak_reference_to_released_target_is_gone() {
    let mut env = AniEnv::new();
    let f = env.new_function(1).unwrap();
    let g = f.into_global(&mut env).unwrap();
    let w = env.create_weak_ref(&AniRef::from_raw(g.as_raw())).unwrap();
    // the local that created the function still keeps it
    assert!(env.resolve_weak_ref(&w).unwrap().is_some());
    let mut env2 = AniEnv::new();
    let f2 = env2.new_function(2).unwrap();
    let g2 = f2.into_global(&mut env2).unwrap();
    let w2 = env2.create_weak_ref(&AniRef::from_raw(g2.as_raw())).unwrap();
    env2.delete_local_ref(&f2.0 .0).unwrap();
    assert!(env2.delete_local_ref(&f2.0 .0).is_err());
    g2.release(&mut env2).unwrap();
    assert!(env2.resolve_weak_ref(&w2).unwrap().is_none());
}

#[test]
fn request_payload_by_runtime_type() {
    let mut env = AniEnv::new();
    let s = env.serialize_string("hello".to_string()).unwrap();
    let b = env.serialize_array_buffer(vec![48, 49, 50]).unwrap();
    let o = env.new_object("anirs.test.ani_test.Json".to_string(), vec![]).unwrap();
    let opts = |h| HttpRequestOptions {
        extra_data: Some(AniObject(h)),
        expect_data_type: Some(HttpDataType::String),
    };
    match json_request_test(&env, &opts(s)).unwrap() {
        RequestBody::Text(t) => assert_eq!(t, "hello"),
        _ => panic!("expected text"),
    }
    match json_request_test(&env, &opts(b)).unwrap() {
        RequestBody::Bytes(v) => assert_eq!(v, vec![48, 49, 50]),
        _ => panic!("expected bytes"),
    }
    match json_request_test(&env, &opts(o)).unwrap() {
        RequestBody::Object(h) => assert_eq!(h, o),
        _ => panic!("expected object"),
    }
    let missing = HttpRequestOptions { extra_data: None, expect_data_type: Some(HttpDataType::Object) };
    assert_eq!(json_request_test(&env, &missing).err().unwrap().code, 401);
    assert!(json_request_test(&env, &opts(AniRef::from_raw(99))).is_err());
}

#[test]
fn char_units() {
    assert_eq!(char_from_unit(0, 0x41).unwrap(), 'A');
    assert_eq!(char_from_unit(0, 0x4E2D).unwrap(), '\u{4E2D}');
    assert!(char_from_unit(0, 0xD800).is_err());
    assert_eq!(char_from_unit(7, 0x41).unwrap_err().status, 7);
    let mut env = AniEnv::new();
    let h = env.box_char('z').unwrap();
    assert_eq!(env.unbox_char(&h).unwrap(), 'z');
    assert!(env.box_char('\u{1F600}').is_err());
}

#[test]
fn struct_with_bool_and_int_round_trips() {
    let mut env = AniEnv::new();
    let class = "anirs.test.ani_test.PrimitiveTest".to_string();
    let fields = vec![Primitive::Bool(true), Primitive::Int(-7)];
    let h = env.serialize_struct(class.clone(), &fields).unwrap();
    let back = env.deserialize_struct(&h, &class, &vec![PrimitiveKind::Bool, PrimitiveKind::Int]).unwrap();
    assert_eq!(back, fields);
    assert!(env.deserialize_struct(&h, &class, &vec![PrimitiveKind::Bool, PrimitiveKind::Long]).is_err());
    assert!(env.deserialize_struct(&h, &"Other".to_string(), &vec![PrimitiveKind::Bool, PrimitiveKind::Int]).is_err());
}

#[test]
fn properties_by_name() {
    let mut env = AniEnv::new();
    let class = "anirs.test.ani_test.Config".to_string();
    let layout = ClassLayout { class: class.clone(), field_names: vec!["action".to_string(), "url".to_string()] };
    let a = env.serialize_primitive(Primitive::Int(0)).unwrap();
    let u = env.serialize_string("x".to_string()).unwrap();
    let obj = env.new_object(class.clone(), vec![a, u]).unwrap();
    assert_eq!(env.get_property(&obj, &layout, &"url".to_string()).unwrap(), u);
    assert!(env.get_property(&obj, &layout, &"missing".to_string()).is_err());
    let u2 = env.serialize_string("y".to_string()).unwrap();
    env.set_property(&obj, &layout, &"url".to_string(), u2).unwrap();
    let got = env.get_property(&obj, &layout, &"url".to_string()).unwrap();
    assert_eq!(env.deserialize_string(&got).unwrap(), "y");
    assert_eq!(env.get_property(&obj, &layout, &"action".to_string()).unwrap(), a);
}

#[test]
fn class_cache_keeps_first_layout() {
    let mut cache = ClassCache::new();
    let first = ClassLayout { class: "C".to_string(), field_names: vec!["a".to_string()] };
    let second = ClassLayout { class: "C".to_string(), field_names: vec!["b".to_string()] };
    let other = ClassLayout { class: "D".to_string(), field_names: vec![] };
    assert_eq!(cache.get_or_init(first), 0);
    assert_eq!(cache.get_or_init(second), 0);
    assert_eq!(cache.get_or_init(other), 1);
    assert_eq!(cache.layouts[0].field_names, vec!["a".to_string()]);
    assert_eq!(cache.lookup(&"D".to_string()), Some(1));
    assert_eq!(cache.lookup(&"E".to_string()), None);
}

#[test]
fn primitive_array_element_and_range() {
    let mut env = AniEnv::new();
    let h = env.serialize_array(ani_rs::ser::PrimitiveArray::Int(vec![4, 5, 6])).unwrap();
    assert_eq!(env.array_get(&h, 2, PrimitiveKind::Int).unwrap(), Primitive::Int(6));
    assert_eq!(env.array_get(&h, 3, PrimitiveKind::Int).unwrap_err().status, 11);
    assert!(env.array_get(&h, 0, PrimitiveKind::Long).is_err());
}

#[test]
fn char_and_string_properties_round_trip() {
    let mut env = AniEnv::new();
    let class = "anirs.test.ani_test.Letters".to_string();
    let layout = ClassLayout { class: class.clone(), field_names: vec!["c".to_string(), "s".to_string()] };
    let a = env.box_char('a').unwrap();
    let b = env.serialize_string(String::new()).unwrap();
    let obj = env.new_object(class, vec![a, b]).unwrap();
    env.set_char_property(&obj, &layout, &"c".to_string(), '\u{4E2D}').unwrap();
    assert_eq!(env.get_char_property(&obj, &layout, &"c".to_string()).unwrap(), '\u{4E2D}');
    assert!(env.set_char_property(&obj, &layout, &"c".to_string(), '\u{1F600}').is_err());
    assert_eq!(env.get_char_property(&obj, &layout, &"c".to_string()).unwrap(), '\u{4E2D}');
    env.set_string_property(&obj, &layout, &"s".to_string(), "text".to_string()).unwrap();
    let s = env.get_property(&obj, &layout, &"s".to_string()).unwrap();
    assert_eq!(env.deserialize_string(&s).unwrap(), "text");
    assert!(env.get_char_property(&obj, &layout, &"s".to_string()).is_err());
}

#[test]
fn request_text_of_each_payload() {
    assert_eq!(request_body_text(&RequestBody::Text("t".to_string())), Some("t".to_string()));
    assert_eq!(request_body_text(&RequestBody::Bytes(vec![48, 49, 50])), Some("012".to_string()));
    assert_eq!(request_body_text(&RequestBody::Bytes(vec![0xff])), Some("\u{FFFD}".to_string()));
    assert_eq!(request_body_text(&RequestBody::Object(AniRef::from_raw(1))), None);
}

#[test]
fn well_formed_environment() {
    let mut env = AniEnv::new();
    assert!(env.is_well_formed());
    env.serialize_string("x".to_string()).unwrap();
    assert!(env.is_well_formed());
    env.refs[0].object = 7;
    assert!(!env.is_well_formed());
}
