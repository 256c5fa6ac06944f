use specta_swift::model::{DataType, Field, Fields, Primitive, StructType, Variant};
use specta_swift::validation::is_recursive_type_reference;

fn named_field(name: &str, ty: DataType) -> (String, Field) {
    (name.to_string(), Field { optional: false, ty: Some(ty) })
}

fn reference(sid: u64) -> DataType {
    DataType::Reference { sid, generics: Vec::new() }
}

#[test]
fn test_detects_direct_reference() {
    let tree = DataType::Struct(StructType {
        fields: Fields::Named(vec![
            named_field("value", DataType::Primitive(Primitive::I32)),
            named_field("next", DataType::Nullable(Box::new(reference(7)))),
        ]),
    });
    assert!(is_recursive_type_reference(&tree, 7));
    assert!(is_recursive_type_reference(&reference(7), 7));
}

#[test]
fn test_detects_nested_reference() {
    let deep = DataType::Struct(StructType {
        fields: Fields::Named(vec![named_field(
            "children",
            DataType::List(Box::new(DataType::Dict(
                Box::new(DataType::Primitive(Primitive::Str)),
                Box::new(DataType::Nullable(Box::new(reference(42)))),
            ))),
        )]),
    });
    assert!(is_recursive_type_reference(&deep, 42));

    let in_variant = DataType::Enum(specta_swift::model::EnumType {
        variants: vec![(
            "Branch".to_string(),
            Variant {
                skip: false,
                fields: Fields::Unnamed(vec![Field {
                    optional: false,
                    ty: Some(reference(42)),
                }]),
            },
        )],
        repr: specta_swift::model::Repr::External,
        string_enum: false,
        rename_all: None,
    });
    assert!(is_recursive_type_reference(&in_variant, 42));
}

#[test]
fn test_no_false_positives() {
    let plain = DataType::Struct(StructType {
        fields: Fields::Named(vec![
            named_field("value", DataType::Primitive(Primitive::I32)),
            named_field("other", reference(8)),
        ]),
    });
    assert!(!is_recursive_type_reference(&plain, 7));
    assert!(!is_recursive_type_reference(&DataType::Primitive(Primitive::Str), 7));

    // tuples are rendered positionally and not searched
    let in_tuple = DataType::Tuple(vec![DataType::Primitive(Primitive::Bool), reference(7)]);
    assert!(!is_recursive_type_reference(&in_tuple, 7));
}
