//! Tests of the value model, the downcast engine, and the format-flexible
//! adapters, driving the library from YAML documents parsed by an outside
//! parser.

use salad_core::any::SaladAny;
use salad_core::common::{ArrayName, EnumName, PrimitiveType, RecordName};
use salad_core::bridge::{SaladAnyListSeqAccess, SaladObjectMapAccess};
use salad_core::de::{IntoDeserializeSeed, MapToListSeed, SeedData, SingleOrManySeed};
use salad_core::doc::Doc;
use salad_core::error::DecodeError;
use salad_core::object::SaladObject;
use salad_core::primitive::{
    SaladBool, SaladDouble, SaladFloat, SaladInt, SaladLong, SaladPrimitive, SaladString,
};
use salad_core::SaladType;

fn value_to_doc(v: &serde_yaml_ng::Value) -> Doc {
    match v {
        serde_yaml_ng::Value::Null => Doc::Null,
        serde_yaml_ng::Value::Bool(b) => Doc::Bool(*b),
        serde_yaml_ng::Value::Number(n) => {
            if let Some(i) = n.as_i64() {
                Doc::Int(i)
            } else if let Some(u) = n.as_u64() {
                Doc::UInt(u)
            } else {
                Doc::Double(n.as_f64().unwrap().to_bits())
            }
        }
        serde_yaml_ng::Value::String(s) => Doc::Str(s.clone()),
        serde_yaml_ng::Value::Sequence(xs) => {
            Doc::Sequence(xs.iter().map(value_to_doc).collect())
        }
        serde_yaml_ng::Value::Mapping(m) => Doc::Mapping(
            m.iter()
                .map(|(k, v)| (value_to_doc(k), value_to_doc(v)))
                .collect(),
        ),
        serde_yaml_ng::Value::Tagged(t) => value_to_doc(&t.value),
    }
}

fn yaml_doc(input: &str) -> Doc {
    let v: serde_yaml_ng::Value = serde_yaml_ng::from_str(input).unwrap();
    value_to_doc(&v)
}

fn prim_display(p: &SaladPrimitive) -> String {
    match p {
        SaladPrimitive::Bool(b) => format!("{b}"),
        SaladPrimitive::Int(i) => format!("{i}"),
        SaladPrimitive::Long(l) => format!("{l}"),
        SaladPrimitive::Float(f) => format!("{}", f32::from_bits(f.bits)),
        SaladPrimitive::Double(d) => format!("{}", f64::from_bits(d.bits)),
        SaladPrimitive::String(s) => s.as_str().to_string(),
    }
}

#[test]
fn single_object_entry() {
    let input = r#"
            type: object
            key: value
        "#;
    let doc = yaml_doc(input);
    let object = <Vec<SaladAny>>::deserialize_seed(&doc, &SeedData);
    assert!(object.is_ok_and(|r| matches!(r[0], SaladAny::Object(_))))
}

#[test]
fn single_primitive_entry() {
    let input = r#"Hello, World!"#;
    let doc = yaml_doc(input);
    let string = <Vec<SaladAny>>::deserialize_seed(&doc, &SeedData);
    assert!(string.is_ok_and(|r| matches!(r[0], SaladAny::String(_))))
}

#[test]
fn multiple_entries() {
    let input = r#"
            - 1
            - 2.0
            - true
            - Hello, World!
            - type: object
              key: value
        "#;
    let doc = yaml_doc(input);
    let string = <Vec<SaladAny>>::deserialize_seed(&doc, &SeedData);
    assert!(string.is_ok_and(
        |r| matches!(r[1], SaladAny::Float(_)) && matches!(r[3], SaladAny::String(_))
    ))
}

fn entry_key_is(entry: &SaladObject, field: &str, expected: &str) -> bool {
    matches!(entry.get(field), Some(SaladAny::String(s)) if s.as_str() == expected)
}

#[test]
fn list_entries() {
    let input = r#"
            - class: class_1
              key: value_1
            - class: class_2
              key: value_2
            - class: class_3
              key: value_3
        "#;
    let doc = yaml_doc(input);
    let object_list = MapToListSeed::<SaladObject>::new("class", &SeedData).deserialize(&doc);
    assert!(object_list.is_ok_and(|r| entry_key_is(&r[1], "key", "value_2")))
}

#[test]
fn map_entries() {
    let input = r#"
            class_1:
                key: value_1
            class_2:
                key: value_2
            class_3:
                key: value_3
        "#;
    let doc = yaml_doc(input);
    let object_list = MapToListSeed::<SaladObject>::new("class", &SeedData).deserialize(&doc);
    assert!(object_list.is_ok_and(|r| entry_key_is(&r[1], "key", "value_2")))
}

#[test]
fn map_entries_with_predicate() {
    let input = r#"
            class_1: value_1
            class_2: value_2
            class_3:
                key: value_3
        "#;
    let doc = yaml_doc(input);
    let object_list =
        MapToListSeed::<SaladObject>::with_predicate("class", "key", &SeedData).deserialize(&doc);
    assert!(object_list.is_ok_and(|r| entry_key_is(&r[1], "key", "value_2")))
}

#[test]
fn test_deserialize_bool() {
    let yaml = "true";
    let any = SaladAny::from_doc(&yaml_doc(yaml)).unwrap();
    let b = any.downcast::<SaladBool>().unwrap();
    assert!(b);
}

#[test]
fn test_deserialize_int() {
    let yaml = "42";
    let any = SaladAny::from_doc(&yaml_doc(yaml)).unwrap();
    let i = any.downcast::<SaladLong>().unwrap();
    assert_eq!(i, 42);
}

#[test]
fn test_deserialize_float() {
    let yaml = "3.14";
    let any = SaladAny::from_doc(&yaml_doc(yaml)).unwrap();
    let f = any.downcast::<SaladDouble>().unwrap();
    let f = f64::from_bits(f.bits);
    assert_eq!((f * 100.0).round(), 314.0);
}

#[test]
fn test_deserialize_string() {
    let yaml = "hello world";
    let any = SaladAny::from_doc(&yaml_doc(yaml)).unwrap();
    let s = any.downcast::<SaladString>().unwrap();
    assert_eq!(s.as_str(), "hello world");
}

#[test]
fn test_deserialize_primitive() {
    let yaml = "42";
    let any = SaladAny::from_doc(&yaml_doc(yaml)).unwrap();
    let primitive = any.downcast::<SaladPrimitive>().unwrap();
    assert_eq!(prim_display(&primitive), "42");

    let yaml = "true";
    let any = SaladAny::from_doc(&yaml_doc(yaml)).unwrap();
    let primitive = any.downcast::<SaladPrimitive>().unwrap();
    assert_eq!(prim_display(&primitive), "true");

    let yaml = "3.14";
    let any = SaladAny::from_doc(&yaml_doc(yaml)).unwrap();
    let primitive = any.downcast::<SaladPrimitive>().unwrap();
    assert_eq!(prim_display(&primitive), "3.14");

    let yaml = "hello";
    let any = SaladAny::from_doc(&yaml_doc(yaml)).unwrap();
    let primitive = any.downcast::<SaladPrimitive>().unwrap();
    assert_eq!(prim_display(&primitive), "hello");
}

#[test]
fn test_deserialize_object() {
    let yaml = r#"
            name: John
            age: 30
            likes_pizza: true
        "#;
    let any = SaladAny::from_doc(&yaml_doc(yaml)).unwrap();
    let obj: SaladObject = any.downcast().unwrap();

    assert_eq!(
        obj.get("name")
            .unwrap()
            .downcast::<SaladString>()
            .unwrap()
            .as_str(),
        "John"
    );
    assert_eq!(
        obj.get("age").unwrap().downcast::<SaladInt>().unwrap(),
        30
    );
    assert!(obj
        .get("likes_pizza")
        .unwrap()
        .downcast::<SaladBool>()
        .unwrap());
}

#[test]
fn test_failed_downcast() {
    let yaml = "42";
    let any = SaladAny::from_doc(&yaml_doc(yaml)).unwrap();
    assert!(any.downcast::<SaladString>().is_err());
}

#[test]
fn narrowing_yields_int_within_range() {
    let any = SaladAny::from_doc(&Doc::Int(0)).unwrap();
    assert!(matches!(any, SaladAny::Int(0)));
    let any = SaladAny::from_doc(&Doc::Int(i32::MAX as i64)).unwrap();
    assert!(matches!(any, SaladAny::Int(i32::MAX)));
    let any = SaladAny::from_doc(&Doc::Int(i32::MIN as i64)).unwrap();
    assert!(matches!(any, SaladAny::Int(i32::MIN)));
}

#[test]
fn narrowing_yields_long_out_of_range() {
    let any = SaladAny::from_doc(&Doc::Int(i64::MAX)).unwrap();
    assert!(matches!(any, SaladAny::Long(i64::MAX)));
    let any = SaladAny::from_doc(&Doc::Int(i32::MAX as i64 + 1)).unwrap();
    assert!(matches!(any, SaladAny::Long(v) if v == i32::MAX as i64 + 1));
    let any = SaladAny::from_doc(&Doc::Int(i32::MIN as i64 - 1)).unwrap();
    assert!(matches!(any, SaladAny::Long(v) if v == i32::MIN as i64 - 1));
}

#[test]
fn unsigned_above_long_range_is_invalid_value() {
    let r = SaladAny::from_doc(&Doc::UInt(u64::MAX));
    assert!(matches!(r, Err(DecodeError::InvalidValue { .. })));
    let any = SaladAny::from_doc(&Doc::UInt(i64::MAX as u64)).unwrap();
    assert!(matches!(any, SaladAny::Long(i64::MAX)));
}

#[test]
fn object_distinct_keys_decode() {
    let doc = Doc::Mapping(vec![
        (Doc::Str("a".to_string()), Doc::Int(1)),
        (Doc::Str("b".to_string()), Doc::Int(2)),
    ]);
    let obj = SaladObject::from_doc(&doc).unwrap();
    assert_eq!(obj.len(), 2);
    assert!(matches!(obj.get("a"), Some(SaladAny::Int(1))));
    assert!(matches!(obj.get("b"), Some(SaladAny::Int(2))));
    assert!(obj.get("c").is_none());
}

#[test]
fn object_duplicate_key_fails() {
    let doc = Doc::Mapping(vec![
        (Doc::Str("a".to_string()), Doc::Int(1)),
        (Doc::Str("a".to_string()), Doc::Int(2)),
    ]);
    let r = SaladObject::from_doc(&doc);
    assert!(matches!(r, Err(DecodeError::DuplicateKey { key }) if key == "a"));
}

#[test]
fn scalar_or_list_wraps_scalar() {
    let doc = yaml_doc("7");
    let r = SingleOrManySeed::<SaladInt>::new(&SeedData)
        .deserialize(&doc)
        .unwrap();
    assert_eq!(r, vec![7]);
}

#[test]
fn scalar_or_list_keeps_order() {
    let doc = yaml_doc("[4, 5, 6]");
    let r: Vec<SaladInt> = <Vec<SaladInt>>::deserialize_seed(&doc, &SeedData).unwrap();
    assert_eq!(r, vec![4, 5, 6]);
}

#[test]
fn scalar_or_list_empty_sequence() {
    let doc = yaml_doc("[]");
    let r: Vec<SaladInt> = <Vec<SaladInt>>::deserialize_seed(&doc, &SeedData).unwrap();
    assert!(r.is_empty());
}

#[test]
fn scalar_or_list_rejects_null() {
    let r = <Vec<SaladInt>>::deserialize_seed(&Doc::Null, &SeedData);
    assert!(matches!(r, Err(DecodeError::InvalidType { .. })));
}

#[test]
fn map_to_list_injects_map_key() {
    let input = r#"
            class_1:
                key: value_1
            class_2:
                key: value_2
        "#;
    let doc = yaml_doc(input);
    let r = MapToListSeed::<SaladObject>::new("class", &SeedData)
        .deserialize(&doc)
        .unwrap();
    assert_eq!(r.len(), 2);
    assert!(entry_key_is(&r[0], "class", "class_1"));
    assert!(entry_key_is(&r[0], "key", "value_1"));
    assert!(entry_key_is(&r[1], "class", "class_2"));
    assert!(entry_key_is(&r[1], "key", "value_2"));
}

#[test]
fn map_to_list_predicate_synthesizes_entries() {
    let input = r#"
            class_1: value_1
            class_2: value_2
        "#;
    let doc = yaml_doc(input);
    let r = MapToListSeed::<SaladObject>::with_predicate("class", "key", &SeedData)
        .deserialize(&doc)
        .unwrap();
    assert_eq!(r.len(), 2);
    assert!(entry_key_is(&r[0], "class", "class_1"));
    assert!(entry_key_is(&r[0], "key", "value_1"));
    assert!(entry_key_is(&r[1], "class", "class_2"));
    assert!(entry_key_is(&r[1], "key", "value_2"));
}

#[test]
fn map_to_list_scalar_without_predicate_fails() {
    let input = "class_1: value_1";
    let doc = yaml_doc(input);
    let r = MapToListSeed::<SaladObject>::new("class", &SeedData).deserialize(&doc);
    assert!(matches!(r, Err(DecodeError::MissingPredicate { key }) if key == "class"));
}

#[test]
fn map_to_list_injected_duplicate_fails_downstream() {
    // The entry's object already contains the key field: the adapter
    // appends a duplicate, and the object decode rejects it.
    let input = r#"
            class_1:
                class: already_here
        "#;
    let doc = yaml_doc(input);
    let r = MapToListSeed::<SaladObject>::new("class", &SeedData).deserialize(&doc);
    assert!(matches!(r, Err(DecodeError::DuplicateKey { key }) if key == "class"));
}

#[test]
fn downcast_failure_returns_original() {
    let any = SaladAny::from_doc(&yaml_doc("42")).unwrap();
    let r: Result<SaladString, SaladAny> = any.downcast_into();
    assert!(matches!(r, Err(SaladAny::Int(42))));
}

#[test]
fn downcast_int_succeeds() {
    let any = SaladAny::from_doc(&yaml_doc("42")).unwrap();
    assert_eq!(any.downcast::<SaladInt>().unwrap(), 42);
    assert_eq!(any.downcast::<SaladLong>().unwrap(), 42);
}

#[test]
fn downcast_bool_coerces_zero_and_one() {
    let any = SaladAny::Int(1);
    assert!(any.downcast::<SaladBool>().unwrap());
    let any = SaladAny::Int(0);
    assert!(!any.downcast::<SaladBool>().unwrap());
    let any = SaladAny::Long(2);
    assert!(any.downcast::<SaladBool>().is_err());
}

#[test]
fn end_to_end_kinds_in_order() {
    let input = r#"
            - 1
            - 2.0
            - true
            - Hello, World!
            - type: object
              key: value
        "#;
    let doc = yaml_doc(input);
    let any = SaladAny::from_doc(&doc).unwrap();
    let list = any.downcast::<Vec<SaladAny>>().unwrap();
    assert_eq!(list.len(), 5);
    assert!(list[0].is_integer());
    assert!(list[1].is_float());
    assert!(list[2].is_bool());
    assert!(list[3].is_string());
    assert!(list[4].is_object());
}

#[test]
fn primitive_display_forms() {
    let any = SaladAny::from_doc(&yaml_doc("true")).unwrap();
    let p = any.downcast::<SaladPrimitive>().unwrap();
    assert!(matches!(p, SaladPrimitive::Bool(true)));
    assert_eq!(prim_display(&p), "true");

    let any = SaladAny::from_doc(&yaml_doc("3.14")).unwrap();
    let p = any.downcast::<SaladPrimitive>().unwrap();
    assert!(matches!(p, SaladPrimitive::Float(_)));
    assert_eq!(prim_display(&p), "3.14");
}

#[test]
fn double_narrowing_matches_hardware_cast() {
    let samples: Vec<f64> = vec![
        3.14,
        0.0,
        -0.0,
        1.5,
        -2.75e-3,
        1.0e-40,
        -1.0e-42,
        6.0e-321,
        f32::MAX as f64,
        -(f32::MAX as f64),
        3.0e38,
        1.17549435e-38,
        0.1,
        12345.6789,
    ];
    for d in samples {
        let doc = Doc::Double(d.to_bits());
        match SaladAny::from_doc(&doc).unwrap() {
            SaladAny::Float(f) => assert_eq!(f.bits, (d as f32).to_bits(), "for {d}"),
            other => panic!("expected a narrowed float for {d}, got {other:?}"),
        }
    }
}

#[test]
fn double_out_of_range_stays_double() {
    let samples: Vec<f64> = vec![1.0e39, -1.0e39, f64::MAX, f64::INFINITY, f64::NAN];
    for d in samples {
        let doc = Doc::Double(d.to_bits());
        match SaladAny::from_doc(&doc).unwrap() {
            SaladAny::Double(b) => assert_eq!(b.bits, d.to_bits()),
            other => panic!("expected a double for {d}, got {other:?}"),
        }
    }
}

#[test]
fn float_widening_is_exact() {
    let samples: Vec<f32> = vec![3.14, 0.0, -0.0, 1.5e-44, f32::MAX, f32::MIN_POSITIVE, -7.25];
    for f in samples {
        let any = SaladAny::from_doc(&Doc::Float(f.to_bits())).unwrap();
        let d = any.downcast::<SaladDouble>().unwrap();
        assert_eq!(d.bits, (f as f64).to_bits());
    }
}

#[test]
fn downcast_object_renormalizes_numbers() {
    let doc = Doc::Mapping(vec![(Doc::Str("n".to_string()), Doc::Int(5))]);
    let obj = SaladObject::from_doc(&doc).unwrap();
    // A value decoded once is already normalized; re-reading it through the
    // bridge keeps it unchanged.
    let again: SaladObject = obj.downcast().unwrap();
    assert!(matches!(again.get("n"), Some(SaladAny::Int(5))));
}

#[test]
fn primitive_type_names_round_trip() {
    for (name, pt) in [
        ("null", PrimitiveType::Null),
        ("boolean", PrimitiveType::Boolean),
        ("int", PrimitiveType::Int),
        ("long", PrimitiveType::Long),
        ("float", PrimitiveType::Float),
        ("double", PrimitiveType::Double),
        ("string", PrimitiveType::String),
    ] {
        let doc = Doc::Str(name.to_string());
        let got = PrimitiveType::from_doc(&doc).unwrap();
        assert_eq!(got, pt);
        assert_eq!(got.as_str(), name);
    }
    let r = PrimitiveType::from_doc(&Doc::Str("void".to_string()));
    assert!(matches!(r, Err(DecodeError::InvalidValue { .. })));
}

#[test]
fn name_literals_match_exactly() {
    assert!(ArrayName::from_doc(&Doc::Str("array".to_string())).is_ok());
    assert!(EnumName::from_doc(&Doc::Str("enum".to_string())).is_ok());
    assert!(RecordName::from_doc(&Doc::Str("record".to_string())).is_ok());
    let r = ArrayName::from_doc(&Doc::Str("enum".to_string()));
    assert!(matches!(r, Err(DecodeError::InvalidValue { .. })));
    let r = RecordName::from_doc(&Doc::Bool(true));
    assert!(matches!(r, Err(DecodeError::InvalidType { .. })));
}

#[test]
fn null_is_rejected() {
    let r = SaladAny::from_doc(&Doc::Null);
    assert!(matches!(r, Err(DecodeError::InvalidType { .. })));
}

#[test]
fn bytes_decode_as_utf8_string() {
    let doc = Doc::Bytes("héllo".as_bytes().to_vec());
    let any = SaladAny::from_doc(&doc).unwrap();
    assert!(matches!(any, SaladAny::String(s) if s.as_str() == "héllo"));
    let r = SaladAny::from_doc(&Doc::Bytes(vec![0xFF, 0xFE]));
    assert!(matches!(r, Err(DecodeError::InvalidValue { .. })));
}

#[test]
fn encode_emits_entries_in_order() {
    let input = r#"
            b: 1
            a: 2
        "#;
    let any = SaladAny::from_doc(&yaml_doc(input)).unwrap();
    let doc = any.to_doc();
    match doc {
        Doc::Mapping(ps) => {
            assert_eq!(ps.len(), 2);
            assert!(matches!(&ps[0].0, Doc::Str(s) if s == "b"));
            assert!(matches!(&ps[0].1, Doc::Int(1)));
            assert!(matches!(&ps[1].0, Doc::Str(s) if s == "a"));
            assert!(matches!(&ps[1].1, Doc::Int(2)));
        }
        other => panic!("expected a mapping, got {other:?}"),
    }
}

#[test]
fn map_access_walks_entries_in_order() {
    let doc = Doc::Mapping(vec![
        (Doc::Str("x".to_string()), Doc::Int(1)),
        (Doc::Str("y".to_string()), Doc::Bool(true)),
    ]);
    let obj = SaladObject::from_doc(&doc).unwrap();
    let mut walk = SaladObjectMapAccess::new(&obj);
    assert_eq!(walk.next_key(), Some("x"));
    assert_eq!(walk.next_value::<SaladInt>().unwrap(), 1);
    assert_eq!(walk.next_key(), Some("y"));
    assert!(walk.next_value::<SaladBool>().unwrap());
    assert_eq!(walk.next_key(), None);
}

#[test]
fn map_access_value_before_key_is_missing_value() {
    let obj = SaladObject::empty();
    let walk = SaladObjectMapAccess::new(&obj);
    let r = walk.next_value::<SaladInt>();
    assert!(matches!(r, Err(DecodeError::MissingValue)));
}

#[test]
fn seq_access_walks_elements_in_order() {
    let any = SaladAny::from_doc(&yaml_doc("[10, 20]")).unwrap();
    match &any {
        SaladAny::List(l) => {
            let mut walk = SaladAnyListSeqAccess::new(l);
            assert_eq!(walk.next_element::<SaladInt>().unwrap().unwrap(), 10);
            assert_eq!(walk.next_element::<SaladInt>().unwrap().unwrap(), 20);
            assert!(walk.next_element::<SaladInt>().is_none());
        }
        other => panic!("expected a list, got {other:?}"),
    }
}

#[test]
fn string_length_and_emptiness() {
    let s = SaladString::new("héllo");
    assert_eq!(s.len(), "héllo".len());
    assert!(!s.is_empty());
    assert!(SaladString::new("").is_empty());
}

#[test]
fn object_entry_access_in_order() {
    let doc = Doc::Mapping(vec![
        (Doc::Str("first".to_string()), Doc::Int(1)),
        (Doc::Str("second".to_string()), Doc::Int(2)),
    ]);
    let obj = SaladObject::from_doc(&doc).unwrap();
    assert_eq!(obj.len(), 2);
    assert!(!obj.is_empty());
    let (k0, v0) = obj.entry_at(0);
    assert_eq!(k0, "first");
    assert!(matches!(v0, SaladAny::Int(1)));
    let (k1, v1) = obj.entry_at(1);
    assert_eq!(k1, "second");
    assert!(matches!(v1, SaladAny::Int(2)));
}

#[test]
fn downcast_primitive_type_from_value() {
    let any = SaladAny::from_doc(&yaml_doc("long")).unwrap();
    assert_eq!(any.downcast::<PrimitiveType>().unwrap(), PrimitiveType::Long);
    let any = SaladAny::from_doc(&yaml_doc("7")).unwrap();
    assert!(any.downcast::<PrimitiveType>().is_err());
}

#[test]
fn downcast_name_literals_from_value() {
    let any = SaladAny::from_doc(&yaml_doc("record")).unwrap();
    assert!(any.downcast::<RecordName>().is_ok());
    assert!(any.downcast::<ArrayName>().is_err());
    assert!(any.downcast::<EnumName>().is_err());
}

#[test]
fn downcast_list_of_longs() {
    let any = SaladAny::from_doc(&yaml_doc("[1, 2, 3]")).unwrap();
    let longs: Vec<SaladLong> = any.downcast().unwrap();
    assert_eq!(longs, vec![1, 2, 3]);
}

#[test]
fn float_events_pass_through() {
    let any = SaladAny::from_doc(&Doc::Float(2.5f32.to_bits())).unwrap();
    match any {
        SaladAny::Float(f) => assert_eq!(f32::from_bits(f.bits), 2.5),
        other => panic!("expected a float, got {other:?}"),
    }
}

#[test]
fn error_names_expected_shape() {
    let any = SaladAny::from_doc(&yaml_doc("hello")).unwrap();
    match <SaladBool as SaladType>::from_any(&any) {
        Err(e) => assert_eq!(e.expected(), Some("boolean")),
        Ok(_) => panic!("a string must not downcast as a boolean"),
    }
}

#[test]
fn variant_wrap_and_unwrap() {
    let any = SaladAny::from(42i32);
    assert!(matches!(any, SaladAny::Int(42)));
    let back: Result<i32, SaladAny> = any.try_into();
    assert_eq!(back.unwrap(), 42);

    let any = SaladAny::from(SaladString::new("abc"));
    let wrong: Result<bool, SaladAny> = any.try_into();
    match wrong {
        Err(SaladAny::String(s)) => assert_eq!(s.as_str(), "abc"),
        other => panic!("expected the original string back, got {other:?}"),
    }

    let p = SaladPrimitive::from(7i64);
    assert!(matches!(p, SaladPrimitive::Long(7)));
    let back: Result<i64, SaladPrimitive> = p.try_into();
    assert_eq!(back.unwrap(), 7);
}

#[test]
fn string_wrapping_and_equality() {
    let a = SaladString::from("abc".to_string());
    let b = SaladString::new("abc");
    let c = SaladString::new("abd");
    assert!(a == b);
    assert!(a != c);
    assert!(SaladString::default().is_empty());
    assert!(SaladObject::default().is_empty());
}
