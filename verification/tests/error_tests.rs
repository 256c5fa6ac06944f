use specta_swift::model::{DataType, Field, Fields, NamedDataType, Primitive, StructType,
    TypeCollection};
use specta_swift::{Error, Swift};

fn holder(sid: u64, name: &str, field_ty: DataType) -> NamedDataType {
    NamedDataType {
        sid,
        name: name.to_string(),
        module: "demo".to_string(),
        generics: Vec::new(),
        docs: String::new(),
        deprecated: None,
        ty: DataType::Struct(StructType {
            fields: Fields::Named(vec![(
                "value".to_string(),
                Field { optional: false, ty: Some(field_ty) },
            )]),
        }),
    }
}

#[test]
fn test_unsupported_primitive_fails_export() {
    let types = TypeCollection::new().register(holder(
        1,
        "Wide",
        DataType::Primitive(Primitive::I128),
    ));
    let err = Swift::default().export(&types).unwrap_err();
    match &err {
        Error::UnsupportedType(m) => {
            assert_eq!(m, "Swift does not support 128-bit integers");
        }
        other => panic!("unexpected error: {:?}", other),
    }
}

#[test]
fn test_dangling_reference_fails_export() {
    let types = TypeCollection::new().register(holder(
        1,
        "Broken",
        DataType::Reference { sid: 99, generics: Vec::new() },
    ));
    let err = Swift::default().export(&types).unwrap_err();
    match &err {
        Error::InvalidIdentifier(m) => {
            assert_eq!(m, "Reference to unknown type");
        }
        other => panic!("unexpected error: {:?}", other),
    }
    assert_eq!(
        Swift::default().export(&types).unwrap_err().message(),
        "Invalid identifier: Reference to unknown type"
    );
}

#[test]
fn test_collection_register_replaces_by_identity() {
    let first = holder(1, "A", DataType::Primitive(Primitive::I32));
    let replacement = holder(1, "B", DataType::Primitive(Primitive::Bool));
    let types = TypeCollection::new().register(first).register(replacement);

    assert_eq!(types.len(), 1);
    assert_eq!(types.get(1).unwrap().name, "B");
    assert!(types.get(2).is_none());
}

#[test]
fn test_generic_parameters_render_in_declaration() {
    let mut ndt = holder(1, "Boxy", DataType::Generic("T".to_string()));
    ndt.generics = vec!["T".to_string()];
    let types = TypeCollection::new().register(ndt);
    let output = Swift::default().export(&types).unwrap();

    assert!(output.contains("public struct Boxy<T>: Codable"));
    assert!(output.contains("public let value: T"));
}

#[test]
fn test_collection_types_render() {
    let list = DataType::List(Box::new(DataType::Primitive(Primitive::Str)));
    let dict = DataType::Dict(
        Box::new(DataType::Primitive(Primitive::Str)),
        Box::new(DataType::Primitive(Primitive::I32)),
    );
    let tuple = DataType::Tuple(vec![
        DataType::Primitive(Primitive::Str),
        DataType::Primitive(Primitive::Bool),
    ]);
    let types = TypeCollection::new().register(NamedDataType {
        sid: 1,
        name: "Container".to_string(),
        module: "demo".to_string(),
        generics: Vec::new(),
        docs: String::new(),
        deprecated: None,
        ty: DataType::Struct(StructType {
            fields: Fields::Named(vec![
                ("items".to_string(), Field { optional: false, ty: Some(list) }),
                ("lookup".to_string(), Field { optional: false, ty: Some(dict) }),
                ("pair".to_string(), Field { optional: false, ty: Some(tuple) }),
            ]),
        }),
    });
    let output = Swift::default().export(&types).unwrap();

    assert!(output.contains("public let items: [String]"));
    assert!(output.contains("public let lookup: [String: Int32]"));
    assert!(output.contains("public let pair: (String, Bool)"));
}
