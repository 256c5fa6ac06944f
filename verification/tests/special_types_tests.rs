use specta_swift::model::{DataType, EnumType, Field, Fields, NamedDataType, Primitive, Repr,
    StructType, TypeCollection, Variant};
use specta_swift::special_types::{is_duration_struct, is_serde_json_number_enum};
use specta_swift::Swift;

fn named_field(name: &str, ty: DataType) -> (String, Field) {
    (name.to_string(), Field { optional: false, ty: Some(ty) })
}

fn duration_struct() -> StructType {
    StructType {
        fields: Fields::Named(vec![
            named_field("secs", DataType::Primitive(Primitive::U64)),
            named_field("nanos", DataType::Primitive(Primitive::U32)),
        ]),
    }
}

fn number_enum() -> EnumType {
    let prim_variant = |name: &str, p: Primitive| {
        (
            name.to_string(),
            Variant {
                skip: false,
                fields: Fields::Unnamed(vec![Field {
                    optional: false,
                    ty: Some(DataType::Primitive(p)),
                }]),
            },
        )
    };
    EnumType {
        variants: vec![
            prim_variant("f64", Primitive::F64),
            prim_variant("i64", Primitive::I64),
            prim_variant("u64", Primitive::U64),
        ],
        repr: Repr::Untagged,
        string_enum: false,
        rename_all: None,
    }
}

#[test]
fn test_duration_struct_detection() {
    assert!(is_duration_struct(&duration_struct()));

    let other = StructType {
        fields: Fields::Named(vec![
            named_field("secs", DataType::Primitive(Primitive::U64)),
            named_field("millis", DataType::Primitive(Primitive::U32)),
        ]),
    };
    assert!(!is_duration_struct(&other));
}

#[test]
fn test_number_enum_detection() {
    assert!(is_serde_json_number_enum(&number_enum()));

    let mut tagged = number_enum();
    tagged.repr = Repr::External;
    assert!(!is_serde_json_number_enum(&tagged));

    let mut renamed = number_enum();
    renamed.variants[0].0 = "f32".to_string();
    assert!(!is_serde_json_number_enum(&renamed));
}

#[test]
fn test_special_names_map_to_fixed_swift_types() {
    let duration = NamedDataType {
        sid: 1,
        name: "Duration".to_string(),
        module: "std::time".to_string(),
        generics: Vec::new(),
        docs: String::new(),
        deprecated: None,
        ty: DataType::Struct(duration_struct()),
    };
    let holder = NamedDataType {
        sid: 2,
        name: "Holder".to_string(),
        module: "demo".to_string(),
        generics: Vec::new(),
        docs: String::new(),
        deprecated: None,
        ty: DataType::Struct(StructType {
            fields: Fields::Named(vec![named_field(
                "elapsed",
                DataType::Struct(duration_struct()),
            )]),
        }),
    };
    let types = TypeCollection::new().register(duration).register(holder);
    let output = Swift::default().export(&types).unwrap();

    // a structurally duration-like field maps to the fixed name
    assert!(output.contains("public let elapsed: RustDuration"));
}

#[test]
fn test_number_reference_maps_to_double() {
    let number = NamedDataType {
        sid: 1,
        name: "Number".to_string(),
        module: "serde_json::number".to_string(),
        generics: Vec::new(),
        docs: String::new(),
        deprecated: None,
        ty: DataType::Enum(number_enum()),
    };
    let holder = NamedDataType {
        sid: 2,
        name: "Wrapper".to_string(),
        module: "demo".to_string(),
        generics: Vec::new(),
        docs: String::new(),
        deprecated: None,
        ty: DataType::Struct(StructType {
            fields: Fields::Named(vec![named_field(
                "value",
                DataType::List(Box::new(DataType::Enum(number_enum()))),
            )]),
        }),
    };
    let types = TypeCollection::new().register(number).register(holder);
    let output = Swift::default().export(&types).unwrap();

    // the canonical numeric union collapses to a scalar double
    assert!(output.contains("public let value: [Double]"));
}
