use protoreflect::exercise::exercise_all_fields;
use protoreflect::message::default_value;
use protoreflect::types::{
    DynamicMessage, EnumDescriptor, FieldDescriptor, MessageDescriptor, ReflectValueBox,
    RuntimeFieldType, RuntimeValueType,
};

fn inner_descriptor() -> MessageDescriptor {
    MessageDescriptor::new(
        "detail.Inner".to_string(),
        vec![FieldDescriptor::new(
            "n".to_string(),
            RuntimeFieldType::Singular(RuntimeValueType::I32),
        )],
    )
}

fn mixed_descriptor() -> MessageDescriptor {
    MessageDescriptor::new(
        "detail.Mixed".to_string(),
        vec![
            FieldDescriptor::new(
                "flag".to_string(),
                RuntimeFieldType::Singular(RuntimeValueType::Bool),
            ),
            FieldDescriptor::new(
                "name".to_string(),
                RuntimeFieldType::Singular(RuntimeValueType::Str),
            ),
            FieldDescriptor::new(
                "data".to_string(),
                RuntimeFieldType::Singular(RuntimeValueType::Bytes),
            ),
            FieldDescriptor::new(
                "numbers".to_string(),
                RuntimeFieldType::Repeated(RuntimeValueType::I32),
            ),
            FieldDescriptor::new(
                "table".to_string(),
                RuntimeFieldType::Mapping(RuntimeValueType::Str, RuntimeValueType::I64),
            ),
            FieldDescriptor::new(
                "inner".to_string(),
                RuntimeFieldType::Singular(RuntimeValueType::Message(Box::new(
                    inner_descriptor(),
                ))),
            ),
        ],
    )
}

#[test]
fn test_presence_after_zero_write() {
    let mut m = DynamicMessage::new(mixed_descriptor());
    let fd = m.descriptor().field_by_name("flag").unwrap();
    assert!(!fd.has_field(&m));
    fd.set_singular_field(&mut m, ReflectValueBox::Bool(false));
    assert!(fd.has_field(&m));
    assert_eq!(false, fd.get_bool(&m));
}

#[test]
fn test_default_reads_match_declared_types() {
    let m = DynamicMessage::new(mixed_descriptor());
    for i in 0..m.descriptor().field_count() {
        let fd = m.descriptor().field(i);
        if let RuntimeFieldType::Singular(t) = fd.runtime_field_type() {
            let read = fd.get_singular_field_or_default(&m);
            let expected = default_value(&t);
            assert!(read.value_eq(&expected));
        }
    }
}

#[test]
fn test_repeated_indexing() {
    let mut m = DynamicMessage::new(mixed_descriptor());
    let fd = m.descriptor().field_by_name("numbers").unwrap();
    assert_eq!(0, fd.len_field(&m));

    let mut expected = Vec::new();
    let mut rep = fd.take_repeated(&mut m);
    for x in [7i32, 0, -3] {
        expected.push(ReflectValueBox::I32(x));
        rep.push(ReflectValueBox::I32(x));
    }
    assert_eq!(3, rep.len());
    for i in 0..3 {
        assert!(rep.get(i).value_eq(&expected[i]));
    }
    assert!(rep.eq_values(&expected));
    fd.put_repeated(&mut m, rep);

    assert_eq!(3, fd.len_field(&m));
    let view = fd.get_repeated(&m);
    assert_eq!(3, view.len());
    assert!(view.eq_values(&expected));
    assert!(view.get(1).value_eq(&ReflectValueBox::I32(0)));
}

#[test]
fn test_eq_values_detects_difference() {
    let mut m = DynamicMessage::new(mixed_descriptor());
    let fd = m.descriptor().field_by_name("numbers").unwrap();
    let mut rep = fd.take_repeated(&mut m);
    rep.push(ReflectValueBox::I32(1));
    rep.push(ReflectValueBox::I32(2));
    assert!(!rep.eq_values(&vec![ReflectValueBox::I32(1), ReflectValueBox::I32(3)]));
    assert!(!rep.eq_values(&vec![ReflectValueBox::I32(1)]));
    assert!(rep.eq_values(&vec![ReflectValueBox::I32(1), ReflectValueBox::I32(2)]));
}

#[test]
fn test_map_missing_key_and_overwrite() {
    let mut m = DynamicMessage::new(mixed_descriptor());
    let fd = m.descriptor().field_by_name("table").unwrap();

    let view = fd.get_map(&m);
    assert!(view.is_empty());
    assert!(view
        .get(&ReflectValueBox::Str("k".to_string()))
        .is_none());

    let mut map = fd.take_map(&mut m);
    map.insert(
        ReflectValueBox::Str("k".to_string()),
        ReflectValueBox::I64(1),
    );
    map.insert(
        ReflectValueBox::Str("k".to_string()),
        ReflectValueBox::I64(2),
    );
    map.insert(
        ReflectValueBox::Str("other".to_string()),
        ReflectValueBox::I64(9),
    );
    assert_eq!(2, map.len());
    let got = map.get(&ReflectValueBox::Str("k".to_string())).unwrap();
    assert!(got.value_eq(&ReflectValueBox::I64(2)));
    fd.put_map(&mut m, map);

    assert_eq!(2, fd.len_field(&m));
    let read = fd.get_map(&m);
    let got2 = read.get(&ReflectValueBox::Str("other".to_string())).unwrap();
    assert!(got2.value_eq(&ReflectValueBox::I64(9)));
    assert!(read
        .get(&ReflectValueBox::Str("absent".to_string()))
        .is_none());
}

#[test]
fn test_field_by_name_missing() {
    let m = DynamicMessage::new(mixed_descriptor());
    assert!(m.descriptor().field_by_name("no_such_field").is_none());
}

#[test]
fn test_render_numbers() {
    assert_eq!("0", ReflectValueBox::I32(0).render().as_str());
    assert_eq!("-5", ReflectValueBox::I32(-5).render().as_str());
    assert_eq!(
        "-2147483648",
        ReflectValueBox::I32(i32::MIN).render().as_str()
    );
    assert_eq!(
        "9223372036854775807",
        ReflectValueBox::I64(i64::MAX).render().as_str()
    );
    assert_eq!(
        "-9223372036854775808",
        ReflectValueBox::I64(i64::MIN).render().as_str()
    );
    assert_eq!(
        "18446744073709551615",
        ReflectValueBox::U64(u64::MAX).render().as_str()
    );
    assert_eq!("10", ReflectValueBox::U32(10).render().as_str());
}

#[test]
fn test_render_other_values() {
    assert_eq!("true", ReflectValueBox::Bool(true).render().as_str());
    assert_eq!("false", ReflectValueBox::Bool(false).render().as_str());
    assert_eq!(
        "\"hi\"",
        ReflectValueBox::Str("hi".to_string()).render().as_str()
    );
    assert_eq!(
        "[1, 2, 3]",
        ReflectValueBox::Bytes(vec![1, 2, 3]).render().as_str()
    );
    assert_eq!("[]", ReflectValueBox::Bytes(vec![]).render().as_str());
    let e = EnumDescriptor::new("detail.Color".to_string(), 0);
    assert_eq!("7", ReflectValueBox::Enum(e, 7).render().as_str());
    let msg = DynamicMessage::new(inner_descriptor());
    assert_eq!(
        "detail.Inner",
        ReflectValueBox::Message(Box::new(msg)).render().as_str()
    );
}

#[test]
fn test_value_eq_deep() {
    let mut a = DynamicMessage::new(inner_descriptor());
    let mut b = DynamicMessage::new(inner_descriptor());
    let fd = a.descriptor().field_by_name("n").unwrap();

    let va = ReflectValueBox::Message(Box::new(a.deep_clone()));
    let vb = ReflectValueBox::Message(Box::new(b.deep_clone()));
    assert!(va.value_eq(&vb));

    fd.set_singular_field(&mut a, ReflectValueBox::I32(5));
    let va2 = ReflectValueBox::Message(Box::new(a.deep_clone()));
    assert!(!va2.value_eq(&vb));

    fd.set_singular_field(&mut b, ReflectValueBox::I32(5));
    let vb2 = ReflectValueBox::Message(Box::new(b.deep_clone()));
    assert!(va2.value_eq(&vb2));
}

#[test]
fn test_take_message_default() {
    let mut m = DynamicMessage::new(mixed_descriptor());
    let fd = m.descriptor().field_by_name("inner").unwrap();
    assert!(!fd.has_field(&m));
    let sub = fd.take_message(&mut m);
    assert_eq!("detail.Inner", sub.descriptor().full_name().as_str());
    assert!(!fd.has_field(&m));
    fd.set_singular_field(&mut m, ReflectValueBox::Message(Box::new(sub)));
    assert!(fd.has_field(&m));
}

#[test]
fn test_exercise_all_fields() {
    let mut m = DynamicMessage::new(mixed_descriptor());
    exercise_all_fields(&mut m);
    let flag = m.descriptor().field_by_name("flag").unwrap();
    assert!(flag.has_field(&m));
    assert_eq!(true, flag.get_bool(&m));
    let numbers = m.descriptor().field_by_name("numbers").unwrap();
    assert_eq!(3, numbers.len_field(&m));
    let table = m.descriptor().field_by_name("table").unwrap();
    assert_eq!(1, table.len_field(&m));
}

#[test]
fn test_descriptor_same_as() {
    let a = mixed_descriptor();
    let b = mixed_descriptor();
    assert!(a.same_as(&b));
    assert!(!a.same_as(&inner_descriptor()));
    let t1 = RuntimeValueType::Message(Box::new(inner_descriptor()));
    let t2 = RuntimeValueType::Message(Box::new(inner_descriptor()));
    assert!(t1.same_as(&t2));
    assert!(!t1.same_as(&RuntimeValueType::Str));
}

#[test]
fn test_runtime_field_type_dispatch() {
    let m = DynamicMessage::new(mixed_descriptor());
    let fd = m.descriptor().field_by_name("table").unwrap();
    match fd.runtime_field_type() {
        RuntimeFieldType::Mapping(k, v) => {
            assert!(k.same_as(&RuntimeValueType::Str));
            assert!(v.same_as(&RuntimeValueType::I64));
        }
        _ => panic!("not a map"),
    }
    let fd2 = m.descriptor().field_by_name("numbers").unwrap();
    assert!(matches!(
        fd2.runtime_field_type(),
        RuntimeFieldType::Repeated(_)
    ));
    assert!(fd2
        .singular_runtime_type()
        .same_as(&RuntimeValueType::I32));
}

#[test]
fn test_value_refs() {
    let v = ReflectValueBox::I64(5);
    let w = ReflectValueBox::I64(5);
    let x = ReflectValueBox::I64(6);
    assert!(v.as_value_ref().value_eq(&w.as_value_ref()));
    assert!(!v.as_value_ref().value_eq(&x.as_value_ref()));
    assert!(v.as_value_ref().to_box().value_eq(&w));
}

#[test]
fn test_borrowed_lookups() {
    let mut m = DynamicMessage::new(mixed_descriptor());

    let numbers = m.descriptor().field_by_name("numbers").unwrap();
    let mut rep = numbers.take_repeated(&mut m);
    rep.push(ReflectValueBox::I32(4));
    rep.push(ReflectValueBox::I32(8));
    numbers.put_repeated(&mut m, rep);
    let view = numbers.get_repeated(&m);
    assert!(view
        .get_ref(1)
        .value_eq(&ReflectValueBox::I32(8).as_value_ref()));

    let table = m.descriptor().field_by_name("table").unwrap();
    let mut map = table.take_map(&mut m);
    map.insert(
        ReflectValueBox::Str("a".to_string()),
        ReflectValueBox::I64(1),
    );
    table.put_map(&mut m, map);
    let read = table.get_map(&m);
    let key = ReflectValueBox::Str("a".to_string());
    let found = read.get_ref(&key).unwrap();
    assert!(found.value_eq(&ReflectValueBox::I64(1).as_value_ref()));
    let absent = ReflectValueBox::Str("z".to_string());
    assert!(read.get_ref(&absent).is_none());
}
