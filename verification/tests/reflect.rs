use protoreflect::exercise::{exercise_map_field, exercise_repeated_field, exercise_singular_field};
use protoreflect::types::{
    DynamicMessage, EnumDescriptor, FieldDescriptor, MessageDescriptor, ReflectValueBox,
    RuntimeFieldType, RuntimeValueType,
};

fn sub_m_descriptor() -> MessageDescriptor {
    MessageDescriptor::new(
        "test_reflect.SubM".to_string(),
        vec![FieldDescriptor::new(
            "n".to_string(),
            RuntimeFieldType::Singular(RuntimeValueType::I32),
        )],
    )
}

fn m_descriptor() -> MessageDescriptor {
    MessageDescriptor::new(
        "test_reflect.M".to_string(),
        vec![FieldDescriptor::new(
            "sub_m".to_string(),
            RuntimeFieldType::Singular(RuntimeValueType::Message(Box::new(sub_m_descriptor()))),
        )],
    )
}

fn test_enum_descriptor() -> EnumDescriptor {
    EnumDescriptor::new("test_reflect.TestEnum".to_string(), 0)
}

fn singular_descriptor() -> MessageDescriptor {
    let fields = vec![
        ("bool_field", RuntimeValueType::Bool),
        ("int32_field", RuntimeValueType::I32),
        ("int64_field", RuntimeValueType::I64),
        ("uint32_field", RuntimeValueType::U32),
        ("uint64_field", RuntimeValueType::U64),
        ("float_field", RuntimeValueType::F32),
        ("double_field", RuntimeValueType::F64),
        ("string_field", RuntimeValueType::Str),
        ("bytes_field", RuntimeValueType::Bytes),
        ("enum_field", RuntimeValueType::Enum(test_enum_descriptor())),
        (
            "message_field",
            RuntimeValueType::Message(Box::new(sub_m_descriptor())),
        ),
    ]
    .into_iter()
    .map(|(name, t)| FieldDescriptor::new(name.to_string(), RuntimeFieldType::Singular(t)))
    .collect();
    MessageDescriptor::new("test_reflect.TestTypesSingular".to_string(), fields)
}

fn repeated_descriptor() -> MessageDescriptor {
    let fields = vec![
        ("bool_field", RuntimeValueType::Bool),
        ("int32_field", RuntimeValueType::I32),
        ("int64_field", RuntimeValueType::I64),
        ("uint32_field", RuntimeValueType::U32),
        ("uint64_field", RuntimeValueType::U64),
        ("float_field", RuntimeValueType::F32),
        ("double_field", RuntimeValueType::F64),
        ("string_field", RuntimeValueType::Str),
        ("bytes_field", RuntimeValueType::Bytes),
        ("enum_field", RuntimeValueType::Enum(test_enum_descriptor())),
        (
            "message_field",
            RuntimeValueType::Message(Box::new(sub_m_descriptor())),
        ),
    ]
    .into_iter()
    .map(|(name, t)| FieldDescriptor::new(name.to_string(), RuntimeFieldType::Repeated(t)))
    .collect();
    MessageDescriptor::new("test_reflect.TestTypesRepeated".to_string(), fields)
}

fn map_descriptor() -> MessageDescriptor {
    let fields = vec![
        (
            "int32_int32_field",
            RuntimeValueType::I32,
            RuntimeValueType::I32,
        ),
        (
            "int64_string_field",
            RuntimeValueType::I64,
            RuntimeValueType::Str,
        ),
        (
            "uint32_bytes_field",
            RuntimeValueType::U32,
            RuntimeValueType::Bytes,
        ),
        (
            "string_message_field",
            RuntimeValueType::Str,
            RuntimeValueType::Message(Box::new(sub_m_descriptor())),
        ),
    ]
    .into_iter()
    .map(|(name, k, v)| FieldDescriptor::new(name.to_string(), RuntimeFieldType::Mapping(k, v)))
    .collect();
    MessageDescriptor::new("test_reflect.TestTypesMap".to_string(), fields)
}

#[test]
fn test_get_sub_message_via_reflection() {
    let mut m = DynamicMessage::new(m_descriptor());

    let sub_fd = m.descriptor().field_by_name("sub_m").unwrap();
    let mut sub = sub_fd.take_message(&mut m);
    let n_fd = sub.descriptor().field_by_name("n").unwrap();
    n_fd.set_singular_field(&mut sub, ReflectValueBox::I32(42));
    sub_fd.set_singular_field(&mut m, ReflectValueBox::Message(Box::new(sub)));
    assert!(sub_fd.has_field(&m));

    let descriptor = m.descriptor().field_by_name("sub_m").unwrap();
    assert_eq!("sub_m", descriptor.name().as_str());

    let sub_m = descriptor.get_message(&m);
    assert_eq!("test_reflect.SubM", sub_m.descriptor().full_name().as_str());
    assert_eq!(
        42,
        sub_m
            .descriptor()
            .field_by_name("n")
            .unwrap()
            .get_i32(&sub_m)
    );
}

#[test]
fn test_singular_basic() {
    let mut message = DynamicMessage::new(singular_descriptor());

    let bool_field = message.descriptor().field_by_name("bool_field").unwrap();
    assert!(!bool_field.has_field(&message));

    bool_field.set_singular_field(&mut message, ReflectValueBox::Bool(true));
    assert!(bool_field.has_field(&message));
    assert_eq!(true, bool_field.get_bool(&message));
}

#[test]
fn test_singular() {
    let mut message = DynamicMessage::new(singular_descriptor());
    let fields = message.descriptor().fields();

    for field in fields {
        exercise_singular_field(&mut message, &field);
    }
}

#[test]
fn test_repeated_debug() {
    let mut message = DynamicMessage::new(repeated_descriptor());
    let fd = message.descriptor().field_by_name("int32_field").unwrap();
    let mut rep = fd.take_repeated(&mut message);
    rep.push(ReflectValueBox::I32(10));
    rep.push(ReflectValueBox::I32(20));
    rep.push(ReflectValueBox::I32(30));
    fd.put_repeated(&mut message, rep);
    let field = fd.get_repeated(&message);
    assert_eq!("[10, 20, 30]", field.render().as_str());
}

#[test]
fn test_repeated() {
    let mut message = DynamicMessage::new(repeated_descriptor());
    let fields = message.descriptor().fields();

    for field in fields {
        exercise_repeated_field(&mut message, &field);
    }
}

#[test]
fn test_map() {
    let mut message = DynamicMessage::new(map_descriptor());
    let fields = message.descriptor().fields();

    for field in fields {
        exercise_map_field(&mut message, &field);
    }
}
