use specta_swift::model::{DataType, EnumType, Field, Fields, NamedDataType, Primitive, Repr,
    StructType, TypeCollection, Variant};
use specta_swift::{StructNamingStrategy, Swift};

fn field(ty: DataType) -> Field {
    Field { optional: false, ty: Some(ty) }
}

fn named_fields(fields: Vec<(&str, DataType)>) -> Fields {
    Fields::Named(
        fields
            .into_iter()
            .map(|(n, t)| (n.to_string(), field(t)))
            .collect(),
    )
}

fn struct_type(sid: u64, name: &str, fields: Fields) -> NamedDataType {
    NamedDataType {
        sid,
        name: name.to_string(),
        module: "demo::types".to_string(),
        generics: Vec::new(),
        docs: String::new(),
        deprecated: None,
        ty: DataType::Struct(StructType { fields }),
    }
}

fn enum_type(sid: u64, name: &str, variants: Vec<(&str, Fields)>, repr: Repr) -> NamedDataType {
    NamedDataType {
        sid,
        name: name.to_string(),
        module: "demo::types".to_string(),
        generics: Vec::new(),
        docs: String::new(),
        deprecated: None,
        ty: DataType::Enum(EnumType {
            variants: variants
                .into_iter()
                .map(|(n, f)| (n.to_string(), Variant { skip: false, fields: f }))
                .collect(),
            repr,
            string_enum: false,
            rename_all: None,
        }),
    }
}

fn string_field() -> DataType {
    DataType::Primitive(Primitive::Str)
}

#[test]
fn test_types_exported_in_alphabetical_order() {
    let swift = Swift::new();
    let types = TypeCollection::new()
        .register(struct_type(1, "Zebra", named_fields(vec![("field", string_field())])))
        .register(struct_type(2, "Apple", named_fields(vec![("field", string_field())])))
        .register(struct_type(3, "Mango", named_fields(vec![("field", string_field())])))
        .register(struct_type(4, "Banana", named_fields(vec![("field", string_field())])));

    let result = swift.export(&types).unwrap();

    let apple_pos = result.find("public struct Apple").expect("Apple not found");
    let banana_pos = result.find("public struct Banana").expect("Banana not found");
    let mango_pos = result.find("public struct Mango").expect("Mango not found");
    let zebra_pos = result.find("public struct Zebra").expect("Zebra not found");

    assert!(apple_pos < banana_pos, "Apple should come before Banana");
    assert!(banana_pos < mango_pos, "Banana should come before Mango");
    assert!(mango_pos < zebra_pos, "Mango should come before Zebra");
}

#[test]
fn test_deterministic_output_across_runs() {
    let swift = Swift::new();
    let types = TypeCollection::new()
        .register(struct_type(1, "Zebra", named_fields(vec![("field", string_field())])))
        .register(struct_type(2, "Apple", named_fields(vec![("field", string_field())])))
        .register(struct_type(3, "Mango", named_fields(vec![("field", string_field())])))
        .register(struct_type(4, "Banana", named_fields(vec![("field", string_field())])));

    let output1 = swift.export(&types).unwrap();
    let output2 = swift.export(&types).unwrap();
    let output3 = swift.export(&types).unwrap();

    assert_eq!(output1, output2, "Output 1 and 2 should be identical");
    assert_eq!(output2, output3, "Output 2 and 3 should be identical");
}

#[test]
fn test_coding_keys_generation() {
    let swift = Swift::new().naming(specta_swift::NamingConvention::PascalCase);
    let types = TypeCollection::new().register(struct_type(
        1,
        "TestStruct",
        named_fields(vec![
            ("job_id", string_field()),
            ("job_type", string_field()),
            ("created_at", string_field()),
        ]),
    ));

    let result = swift.export(&types).expect("Failed to generate Swift types");

    assert!(result.contains("public let jobId: String"));
    assert!(result.contains("public let jobType: String"));
    assert!(result.contains("case jobId = \"job_id\""));
    assert!(result.contains("case jobType = \"job_type\""));
    assert!(result.contains("private enum CodingKeys: String, CodingKey"));
}

#[test]
fn test_optional_field_generates_custom_codable() {
    let swift = Swift::new();
    let types = TypeCollection::new().register(struct_type(
        1,
        "JobListInput",
        named_fields(vec![(
            "status",
            DataType::Nullable(Box::new(string_field())),
        )]),
    ));

    let result = swift.export(&types).expect("Failed to generate Swift types");

    assert!(result.contains("public struct JobListInput: Codable"));
    assert!(result.contains("public let status: String?"));

    let has_custom_encode = result.contains("public func encode(to encoder: Encoder)");
    let has_custom_decode = result.contains("public init(from decoder: Decoder)");
    assert!(has_custom_encode);
    assert!(has_custom_decode);
    // nil must be preserved as explicit null, never omitted
    assert!(result.contains("try container.encode(status, forKey: .status)"));
    assert!(!result.contains("encodeIfPresent"));
}

#[test]
fn test_multiple_optional_fields() {
    let swift = Swift::new();
    let opt = |t: DataType| DataType::Nullable(Box::new(t));
    let types = TypeCollection::new().register(struct_type(
        1,
        "MultiOptionalFields",
        named_fields(vec![
            ("name", opt(string_field())),
            ("age", opt(DataType::Primitive(Primitive::U32))),
            ("email", opt(string_field())),
            ("is_active", opt(DataType::Primitive(Primitive::Bool))),
        ]),
    ));

    let result = swift.export(&types).expect("Failed to generate Swift types");

    assert!(result.contains("public let name: String?"));
    assert!(result.contains("public let age: UInt32?"));
    assert!(result.contains("public let email: String?"));
    assert!(result.contains("public let isActive: Bool?"));
    assert!(result.contains("public func encode(to encoder: Encoder)"));
}

#[test]
fn test_mixed_required_and_optional_fields() {
    let swift = Swift::new();
    let opt = |t: DataType| DataType::Nullable(Box::new(t));
    let types = TypeCollection::new().register(struct_type(
        1,
        "MixedFields",
        named_fields(vec![
            ("required_field", string_field()),
            ("optional_field", opt(string_field())),
            ("another_required", DataType::Primitive(Primitive::U32)),
            ("another_optional", opt(DataType::Primitive(Primitive::Bool))),
        ]),
    ));

    let result = swift.export(&types).expect("Failed to generate Swift types");

    assert!(result.contains("public let requiredField: String"));
    assert!(result.contains("public let optionalField: String?"));
    assert!(result.contains("public let anotherRequired: UInt32"));
    assert!(result.contains("public let anotherOptional: Bool?"));

    assert!(result.contains("public func encode(to encoder: Encoder)"));
    assert!(result.contains("try container.encode("));
    assert!(!result.contains("encodeIfPresent(optionalField"));
}

#[test]
fn test_documents_expected_behavior() {
    println!("\n=== EXPECTED BEHAVIOR ===");
    println!("\nFor a struct with one optional field:");
    println!("When encoded with the value absent:");
    println!("  wrong:   {{}}");
    println!("  correct: {{\"status\": null}}");
    println!("\nGenerated Swift should include:");
    println!("  public func encode(to encoder: Encoder) throws {{");
    println!("      var container = encoder.container(keyedBy: CodingKeys.self)");
    println!("      try container.encode(status, forKey: .status)  // preserves nil as null");
    println!("  }}");
}

#[test]
fn test_initializer_generation() {
    let make = || {
        TypeCollection::new().register(struct_type(
            1,
            "TestStruct",
            named_fields(vec![
                ("job_id", string_field()),
                ("include_stats", DataType::Primitive(Primitive::Bool)),
                ("status", DataType::Nullable(Box::new(string_field()))),
            ]),
        ))
    };

    let mut swift_with_init = Swift::new();
    swift_with_init.generate_initializers = true;
    let result_with_init = swift_with_init.export(&make()).unwrap();

    assert!(result_with_init.contains("public init("));
    assert!(result_with_init.contains("jobId: String"));
    assert!(result_with_init.contains("includeStats: Bool"));
    assert!(result_with_init.contains("status: String?"));
    assert!(result_with_init.contains("self.jobId = jobId"));

    let mut swift_without_init = Swift::new();
    swift_without_init.generate_initializers = false;
    let result_without_init = swift_without_init.export(&make()).unwrap();

    // no memberwise initializer; the decoding initializer of the
    // nullable-field Codable extension is still present
    assert!(!result_without_init.contains("public init(jobId"));
    assert!(!result_without_init.contains("self.jobId = jobId"));
}

#[test]
fn test_string_enum_with_raw_values() {
    let swift = Swift::new();
    let variants: Vec<(&str, Fields)> = vec![
        ("Unknown", Fields::Unit),
        ("Image", Fields::Unit),
        ("Video", Fields::Unit),
        ("Audio", Fields::Unit),
        ("Document", Fields::Unit),
        ("Archive", Fields::Unit),
        ("Code", Fields::Unit),
        ("Text", Fields::Unit),
        ("Database", Fields::Unit),
        ("Book", Fields::Unit),
        ("Font", Fields::Unit),
        ("Mesh", Fields::Unit),
        ("Config", Fields::Unit),
        ("Encrypted", Fields::Unit),
        ("Key", Fields::Unit),
        ("Executable", Fields::Unit),
        ("Binary", Fields::Unit),
    ];
    let mut ndt = enum_type(1, "ContentKind", variants, Repr::External);
    if let DataType::Enum(e) = &mut ndt.ty {
        e.string_enum = true;
        e.rename_all = Some("lowercase".to_string());
    }
    let types = TypeCollection::new().register(ndt);

    let result = swift.export(&types).expect("Failed to generate Swift types");

    assert!(
        result.contains("public enum ContentKind: String, Codable")
            || result.contains("public enum ContentKind")
    );
    assert!(result.contains("case unknown = \"unknown\""));
    assert!(result.contains("case image = \"image\""));
    assert!(result.contains("case key = \"key\""));
}

#[test]
fn test_enum_struct_variants_auto_rename() {
    let swift = Swift::new().struct_naming(StructNamingStrategy::AutoRename);
    let types = TypeCollection::new().register(task_status(1));

    let result = swift.export(&types).expect("Failed to generate Swift types");

    assert!(result.contains("public struct TaskStatusInProgressData: Codable"));
    assert!(result.contains("public struct TaskStatusCompletedData: Codable"));
    assert!(result.contains("public struct TaskStatusFailedData: Codable"));

    assert!(result.contains("case inProgress(TaskStatusInProgressData)"));
    assert!(result.contains("case completed(TaskStatusCompletedData)"));
    assert!(result.contains("case failed(TaskStatusFailedData)"));
}

#[test]
fn test_enum_struct_variants_keep_original() {
    let swift = Swift::new().struct_naming(StructNamingStrategy::KeepOriginal);
    let types = TypeCollection::new().register(task_status(1));

    let result = swift.export(&types).expect("Failed to generate Swift types");

    assert!(result.contains("public struct InProgressData: Codable"));
    assert!(result.contains("public struct CompletedData: Codable"));
    assert!(result.contains("public struct FailedData: Codable"));

    assert!(result.contains("case inProgress(InProgressData)"));
    assert!(result.contains("case completed(CompletedData)"));
    assert!(result.contains("case failed(FailedData)"));
}

fn task_status(sid: u64) -> NamedDataType {
    enum_type(
        sid,
        "TaskStatus",
        vec![
            ("Pending", Fields::Unit),
            (
                "InProgress",
                named_fields(vec![
                    ("started_at", string_field()),
                    (
                        "estimated_completion",
                        DataType::Nullable(Box::new(string_field())),
                    ),
                ]),
            ),
            (
                "Completed",
                named_fields(vec![
                    ("completed_at", string_field()),
                    ("duration_minutes", DataType::Primitive(Primitive::U32)),
                ]),
            ),
            (
                "Failed",
                named_fields(vec![
                    ("error_message", string_field()),
                    ("retry_count", DataType::Primitive(Primitive::U32)),
                ]),
            ),
        ],
        Repr::External,
    )
}

#[test]
fn test_enum_variant_struct_coding_keys() {
    let swift = Swift::new()
        .struct_naming(StructNamingStrategy::AutoRename)
        .naming(specta_swift::NamingConvention::PascalCase);
    let types = TypeCollection::new().register(enum_type(
        1,
        "JobEvent",
        vec![
            (
                "Started",
                named_fields(vec![
                    ("job_id", string_field()),
                    ("job_type", string_field()),
                    ("started_at", string_field()),
                ]),
            ),
            (
                "Progress",
                named_fields(vec![
                    ("job_id", string_field()),
                    ("progress_percent", DataType::Primitive(Primitive::F64)),
                ]),
            ),
        ],
        Repr::External,
    ));

    let result = swift.export(&types).expect("Failed to generate Swift types");

    assert!(result.contains("public struct JobEventStartedData: Codable"));
    assert!(result.contains("public let jobId: String"));
    assert!(result.contains("case jobId = \"job_id\""));
    assert!(result.contains("case jobType = \"job_type\""));
    assert!(result.contains("case startedAt = \"started_at\""));
    assert!(result.contains("private enum CodingKeys: String, CodingKey"));
}

#[test]
fn test_adjacently_tagged_enum_with_empty_tuple() {
    let swift = Swift::new();
    let types = TypeCollection::new().register(enum_type(
        1,
        "JobOutput",
        vec![
            ("Success", Fields::Unit),
            (
                "FileCopy",
                named_fields(vec![
                    ("copied_count", DataType::Primitive(Primitive::U32)),
                    ("total_bytes", DataType::Primitive(Primitive::U64)),
                ]),
            ),
            (
                "Indexed",
                named_fields(vec![
                    ("files", DataType::Primitive(Primitive::U32)),
                    ("size", DataType::Primitive(Primitive::U64)),
                ]),
            ),
            ("Custom", Fields::Unnamed(Vec::new())),
        ],
        Repr::Adjacent { tag: "type".to_string(), content: "data".to_string() },
    ));

    let result = swift.export(&types).expect("Failed to generate Swift types");

    assert!(result.contains("private enum JobOutputTypeKeys: String, CodingKey"));
    assert!(result.contains("case tag = \"type\""));
    assert!(result.contains("case content = \"data\""));

    assert!(result.contains("case custom"));
    assert!(result.contains("case .custom:"));

    assert!(!result.contains("fatalError"));
    // the tag is a closed set of variant names
    assert!(result.contains("private enum VariantType: String, Codable"));
    assert!(result.contains("case success = \"Success\""));
    assert!(result.contains("case fileCopy = \"FileCopy\""));
    // payload-less variants still write both keys: explicit null content
    assert!(result.contains("try container.encodeNil(forKey: .content)"));
}

#[test]
fn test_adjacent_unit_enum_conforms_once_with_two_keys() {
    let types = TypeCollection::new().register(enum_type(
        1,
        "Signal",
        vec![("Start", Fields::Unit), ("Stop", Fields::Unit)],
        Repr::Adjacent { tag: "kind".to_string(), content: "payload".to_string() },
    ));
    let output = Swift::default().export(&types).unwrap();

    // conformance comes from the synthesized extension alone
    assert!(output.contains("public enum Signal {\n"));
    assert!(!output.contains("public enum Signal: Codable"));
    assert_eq!(output.matches("extension Signal: Codable").count(), 1);

    // every encode arm writes both the tag and the content key
    assert!(output.contains("try container.encode(VariantType.start, forKey: .tag)"));
    assert!(output.contains("try container.encodeNil(forKey: .content)"));
}

#[test]
fn test_recursive_enum_declared_indirect() {
    let recursive = enum_type(
        1,
        "Tree",
        vec![
            ("Leaf", Fields::Unnamed(vec![field(DataType::Primitive(Primitive::I32))])),
            (
                "Branch",
                named_fields(vec![
                    ("left", DataType::Reference { sid: 1, generics: Vec::new() }),
                    ("right", DataType::Reference { sid: 1, generics: Vec::new() }),
                ]),
            ),
        ],
        Repr::External,
    );
    let sibling = enum_type(
        2,
        "Flat",
        vec![("One", Fields::Unit), ("Two", Fields::Unit)],
        Repr::External,
    );
    let types = TypeCollection::new().register(recursive).register(sibling);
    let output = Swift::default().export(&types).unwrap();

    assert!(output.contains("public indirect enum Tree"));
    assert!(output.contains("public enum Flat: Codable"));
    assert!(!output.contains("indirect enum Flat"));
}

#[test]
fn test_tuple_variant_codable_generation() {
    let types = TypeCollection::new().register(enum_type(
        1,
        "Status",
        vec![
            ("Active", Fields::Unit),
            ("Pending", Fields::Unnamed(vec![field(string_field())])),
            (
                "Error",
                Fields::Unnamed(vec![
                    field(string_field()),
                    field(DataType::Primitive(Primitive::U32)),
                ]),
            ),
            (
                "Loading",
                Fields::Unnamed(vec![
                    field(DataType::Primitive(Primitive::F64)),
                    field(string_field()),
                    field(DataType::Primitive(Primitive::Bool)),
                ]),
            ),
        ],
        Repr::External,
    ));

    let output = Swift::default().export(&types).unwrap();

    assert!(output.contains("case active"));
    assert!(output.contains("case pending(String)"));
    assert!(output.contains("case error(String, UInt32)"));
    assert!(output.contains("case loading(Double, String, Bool)"));

    assert!(output.contains("extension Status: Codable"));
    assert!(!output.contains("fatalError(\"Tuple variant decoding not implemented\")"));
    assert!(!output.contains("fatalError(\"Tuple variant encoding not implemented\")"));
    assert!(output.contains("arrayContainer"));
    assert!(output.contains("nestedUnkeyedContainer"));
}

#[test]
fn test_externally_tagged_shapes_have_decode_and_encode_arms() {
    let types = TypeCollection::new().register(enum_type(
        1,
        "Status",
        vec![
            ("Active", Fields::Unit),
            ("Pending", Fields::Unnamed(vec![field(string_field())])),
            ("Detail", named_fields(vec![("message", string_field())])),
        ],
        Repr::External,
    ));
    let output = Swift::default().export(&types).unwrap();

    // decode: keyed single-key dispatch, then bare-string fallback for
    // unit variants, then a corruption error
    assert!(output.contains("if container.allKeys.count == 1"));
    assert!(output.contains("case \"Active\":"));
    assert!(output.contains("DecodingError.dataCorrupted"));
    // encode: exactly one key per value, explicit null for unit payloads
    assert!(output.contains("try container.encodeNil(forKey: .active)"));
    assert!(output.contains("case .pending(let value0):"));
    assert!(output.contains("try container.encode(data, forKey: .detail)"));
    // matching decode arms
    assert!(output.contains("let value0 = try arrayContainer.decode(String.self)"));
    assert!(output.contains("let data = try container.decode(StatusDetailData.self, forKey: .detail)"));
}

#[test]
fn test_adjacent_tuple_payload_uses_array_content() {
    let types = TypeCollection::new().register(enum_type(
        1,
        "Message",
        vec![
            ("Ping", Fields::Unit),
            (
                "Pair",
                Fields::Unnamed(vec![
                    field(string_field()),
                    field(DataType::Primitive(Primitive::U32)),
                ]),
            ),
        ],
        Repr::Adjacent { tag: "t".to_string(), content: "c".to_string() },
    ));
    let output = Swift::default().export(&types).unwrap();

    assert!(output.contains("case tag = \"t\""));
    assert!(output.contains("case content = \"c\""));
    assert!(output.contains("case .pair(let value0, let value1):"));
    assert!(output.contains("try container.encode(VariantType.pair, forKey: .tag)"));
    assert!(output.contains("var arrayContainer = container.nestedUnkeyedContainer(forKey: .content)"));
    assert!(!output.contains("fatalError"));
}

#[test]
fn test_export_empty_collection() {
    let types = TypeCollection::new();
    let output = Swift::default().export(&types).unwrap();
    assert_eq!(output, "");
}

#[test]
fn test_docs_and_deprecated_header() {
    let mut ndt = struct_type(1, "Shown", named_fields(vec![("field", string_field())]));
    ndt.docs = "A demo type.\nSecond line.".to_string();
    ndt.deprecated = Some("Use NewShown instead".to_string());
    let types = TypeCollection::new().register(ndt);
    let output = Swift::default().export(&types).unwrap();

    assert!(output.contains("/// A demo type.\n/// Second line.\n"));
    assert!(output.contains("@available(*, deprecated, message: \"Use NewShown instead\")\n"));
}

#[test]
fn test_skipped_variants_are_excluded_everywhere() {
    let mut ndt = enum_type(
        1,
        "Partial",
        vec![
            ("Kept", named_fields(vec![("value", string_field())])),
            ("Hidden", Fields::Unit),
        ],
        Repr::External,
    );
    if let DataType::Enum(e) = &mut ndt.ty {
        e.variants[1].1.skip = true;
    }
    let types = TypeCollection::new().register(ndt);
    let output = Swift::default().export(&types).unwrap();

    assert!(output.contains("case kept(PartialKeptData)"));
    assert!(!output.contains("case hidden"));
    assert!(!output.contains("\"Hidden\""));
}
