use specta_swift::model::{Literal, Primitive};
use specta_swift::primitives::{literal_to_swift, primitive_to_swift};

#[test]
fn test_signed_integers() {
    assert_eq!(primitive_to_swift(&Primitive::I8).unwrap(), "Int8");
    assert_eq!(primitive_to_swift(&Primitive::I16).unwrap(), "Int16");
    assert_eq!(primitive_to_swift(&Primitive::I32).unwrap(), "Int32");
    assert_eq!(primitive_to_swift(&Primitive::I64).unwrap(), "Int64");
    assert_eq!(primitive_to_swift(&Primitive::Isize).unwrap(), "Int");
}

#[test]
fn test_unsigned_integers() {
    assert_eq!(primitive_to_swift(&Primitive::U8).unwrap(), "UInt8");
    assert_eq!(primitive_to_swift(&Primitive::U16).unwrap(), "UInt16");
    assert_eq!(primitive_to_swift(&Primitive::U32).unwrap(), "UInt32");
    assert_eq!(primitive_to_swift(&Primitive::U64).unwrap(), "UInt64");
    assert_eq!(primitive_to_swift(&Primitive::Usize).unwrap(), "UInt");
}

#[test]
fn test_floats() {
    assert_eq!(primitive_to_swift(&Primitive::F32).unwrap(), "Float");
    assert_eq!(primitive_to_swift(&Primitive::F64).unwrap(), "Double");
}

#[test]
fn test_other_primitives() {
    assert_eq!(primitive_to_swift(&Primitive::Bool).unwrap(), "Bool");
    assert_eq!(primitive_to_swift(&Primitive::Char).unwrap(), "Character");
    assert_eq!(primitive_to_swift(&Primitive::Str).unwrap(), "String");
}

#[test]
fn test_unsupported_128bit() {
    assert!(primitive_to_swift(&Primitive::I128).is_err());
    assert!(primitive_to_swift(&Primitive::U128).is_err());
}

#[test]
fn test_unsupported_f16() {
    assert!(primitive_to_swift(&Primitive::F16).is_err());
    let message = primitive_to_swift(&Primitive::F16).unwrap_err().message();
    assert!(message.contains("f16"));
}

#[test]
fn test_integer_literals() {
    assert_eq!(literal_to_swift(&Literal::I32(42)).unwrap(), "42");
    assert_eq!(literal_to_swift(&Literal::U32(100)).unwrap(), "100");
    assert_eq!(literal_to_swift(&Literal::I8(-5)).unwrap(), "-5");
}

#[test]
fn test_float_literals() {
    let f64_text = Literal::F64("3.14".to_string());
    let f32_text = Literal::F32("2.5".to_string());
    assert_eq!(literal_to_swift(&f64_text).unwrap(), "3.14");
    assert_eq!(literal_to_swift(&f32_text).unwrap(), "2.5");
}

#[test]
fn test_bool_literals() {
    assert_eq!(literal_to_swift(&Literal::Bool(true)).unwrap(), "true");
    assert_eq!(literal_to_swift(&Literal::Bool(false)).unwrap(), "false");
}

#[test]
fn test_string_literals() {
    assert_eq!(
        literal_to_swift(&Literal::Str("hello".to_string())).unwrap(),
        "\"hello\""
    );
    assert_eq!(
        literal_to_swift(&Literal::Str("world".to_string())).unwrap(),
        "\"world\""
    );
}

#[test]
fn test_string_literal_escaping() {
    assert_eq!(
        literal_to_swift(&Literal::Str("say \"hello\"".to_string())).unwrap(),
        "\"say \\\"hello\\\"\""
    );
}

#[test]
fn test_char_literal() {
    assert_eq!(literal_to_swift(&Literal::Char('a')).unwrap(), "\"a\"");
    assert_eq!(literal_to_swift(&Literal::Char('Z')).unwrap(), "\"Z\"");
}

#[test]
fn test_none_literal() {
    assert_eq!(literal_to_swift(&Literal::Nil).unwrap(), "nil");
}

#[test]
fn test_unsupported_literal_kind() {
    let err = literal_to_swift(&Literal::Other).unwrap_err();
    assert_eq!(err.message(), "Unsupported type: Unsupported literal type");
}
