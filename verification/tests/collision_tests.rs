use specta_swift::model::{DataType, EnumType, Field, Fields, NamedDataType, Primitive, Repr,
    StructType, TypeCollection, Variant};
use specta_swift::{DuplicateNameStrategy, DuplicateNamer, Swift};

fn field(ty: DataType) -> Field {
    Field { optional: false, ty: Some(ty) }
}

fn named_fields(fields: Vec<(&str, DataType)>) -> Fields {
    Fields::Named(
        fields
            .into_iter()
            .map(|(n, t)| (n.to_string(), field(t)))
            .collect(),
    )
}

fn struct_in_module(sid: u64, name: &str, module: &str, fields: Fields) -> NamedDataType {
    NamedDataType {
        sid,
        name: name.to_string(),
        module: module.to_string(),
        generics: Vec::new(),
        docs: String::new(),
        deprecated: None,
        ty: DataType::Struct(StructType { fields }),
    }
}

fn s() -> DataType {
    DataType::Primitive(Primitive::Str)
}

fn u32t() -> DataType {
    DataType::Primitive(Primitive::U32)
}

fn boolt() -> DataType {
    DataType::Primitive(Primitive::Bool)
}

fn collection() -> TypeCollection {
    TypeCollection::new()
        .register(struct_in_module(
            1,
            "LibraryInfo",
            "duplicate_names::libraries",
            named_fields(vec![
                ("id", u32t()),
                ("name", s()),
                ("path", s()),
                ("stats", u32t()),
            ]),
        ))
        .register(struct_in_module(
            2,
            "LibraryInfo",
            "duplicate_names::core::status",
            named_fields(vec![
                ("id", u32t()),
                ("name", s()),
                ("is_active", boolt()),
                ("location_count", u32t()),
                ("total_entries", u32t()),
                ("last_sync", s()),
            ]),
        ))
        .register(struct_in_module(
            3,
            "UserInfo",
            "duplicate_names::api",
            named_fields(vec![("id", u32t()), ("username", s()), ("email", s())]),
        ))
        .register(struct_in_module(
            4,
            "UserInfo",
            "duplicate_names::database",
            named_fields(vec![
                ("id", u32t()),
                ("name", s()),
                ("created_at", s()),
                ("is_verified", boolt()),
            ]),
        ))
}

#[test]
fn test_duplicate_names_warn_strategy() {
    let types = collection();
    let swift = Swift::new().duplicate_name_strategy(DuplicateNameStrategy::Warn);

    let output = swift.export(&types).unwrap();

    let library_info_count = output.matches("public struct LibraryInfo: Codable").count();
    assert_eq!(
        library_info_count, 1,
        "Should have only one LibraryInfo definition"
    );

    let user_info_count = output.matches("public struct UserInfo: Codable").count();
    assert_eq!(user_info_count, 1, "Should have only one UserInfo definition");

    // the last LibraryInfo registration wins
    assert!(output.contains("let isActive: Bool"));
    assert!(output.contains("let locationCount: UInt32"));
    assert!(output.contains("let totalEntries: UInt32"));
    assert!(output.contains("let lastSync: String"));

    assert!(!output.contains("let path: String"));
    assert!(!output.contains("let stats: UInt32"));
}

#[test]
fn test_duplicate_names_warn_diagnostics() {
    let types = collection();
    let swift = Swift::new().duplicate_name_strategy(DuplicateNameStrategy::Warn);
    let warnings = swift.duplicate_diagnostics(&types);
    assert_eq!(warnings, vec!["LibraryInfo".to_string(), "UserInfo".to_string()]);
}

#[test]
fn test_duplicate_names_error_strategy() {
    let types = TypeCollection::new()
        .register(struct_in_module(
            1,
            "LibraryInfo",
            "duplicate_names::libraries",
            named_fields(vec![("id", u32t())]),
        ))
        .register(struct_in_module(
            2,
            "LibraryInfo",
            "duplicate_names::core::status",
            named_fields(vec![("id", u32t())]),
        ));

    let swift = Swift::new().duplicate_name_strategy(DuplicateNameStrategy::Error);

    let result = swift.export(&types);
    assert!(result.is_err(), "Should fail with duplicate names error");

    if let Err(e) = result {
        let error_msg = e.message();
        assert!(
            error_msg.contains("Duplicate type names found"),
            "Error should mention duplicate names"
        );
        assert!(
            error_msg.contains("LibraryInfo"),
            "Error should mention LibraryInfo"
        );
    }
}

#[test]
fn test_duplicate_names_qualify_strategy() {
    let types = collection();
    let swift = Swift::new().duplicate_name_strategy(DuplicateNameStrategy::Qualify);

    let output = swift.export(&types).unwrap();

    assert!(output.contains("public struct LibrariesLibraryInfo: Codable"));
    assert!(output.contains("public struct CoreStatusLibraryInfo: Codable"));

    assert!(output.contains("public struct ApiUserInfo: Codable"));
    assert!(output.contains("public struct DatabaseUserInfo: Codable"));

    let libraries_section = output.find("struct LibrariesLibraryInfo").unwrap();
    let libraries_end = output[libraries_section..].find("}").unwrap() + libraries_section;
    let libraries_content = &output[libraries_section..libraries_end];
    assert!(libraries_content.contains("let path: String"));
    assert!(libraries_content.contains("let stats: UInt32"));

    let core_section = output.find("struct CoreStatusLibraryInfo").unwrap();
    let core_end = output[core_section..].find("}").unwrap() + core_section;
    let core_content = &output[core_section..core_end];
    assert!(core_content.contains("let isActive: Bool"));
    assert!(core_content.contains("let locationCount: UInt32"));
}

struct ModuleNamer;

impl DuplicateNamer for ModuleNamer {
    fn rename(&self, ndt: &NamedDataType) -> String {
        if ndt.module.contains("libraries") {
            "LibrariesListLibraryInfo".to_string()
        } else if ndt.module.contains("core::status") {
            "CoreStatusLibraryInfo".to_string()
        } else {
            ndt.name.clone()
        }
    }
}

#[test]
fn test_duplicate_names_custom_strategy() {
    let types = TypeCollection::new()
        .register(struct_in_module(
            1,
            "LibraryInfo",
            "duplicate_names::libraries",
            named_fields(vec![
                ("id", u32t()),
                ("name", s()),
                ("path", s()),
                ("stats", u32t()),
            ]),
        ))
        .register(struct_in_module(
            2,
            "LibraryInfo",
            "duplicate_names::core::status",
            named_fields(vec![
                ("id", u32t()),
                ("name", s()),
                ("is_active", boolt()),
                ("location_count", u32t()),
            ]),
        ));

    let swift = Swift::new().duplicate_name_strategy(DuplicateNameStrategy::Custom);

    let output = swift.export_with_namer(&types, &ModuleNamer).unwrap();

    assert!(output.contains("public struct LibrariesListLibraryInfo: Codable"));
    assert!(output.contains("public struct CoreStatusLibraryInfo: Codable"));

    let libraries_section = output.find("struct LibrariesListLibraryInfo").unwrap();
    let libraries_end = output[libraries_section..].find("}").unwrap() + libraries_section;
    let libraries_content = &output[libraries_section..libraries_end];
    assert!(libraries_content.contains("let path: String"));
    assert!(libraries_content.contains("let stats: UInt32"));

    let core_section = output.find("struct CoreStatusLibraryInfo").unwrap();
    let core_end = output[core_section..].find("}").unwrap() + core_section;
    let core_content = &output[core_section..core_end];
    assert!(core_content.contains("let isActive: Bool"));
    assert!(core_content.contains("let locationCount: UInt32"));
}

#[test]
fn test_no_duplicates_default_behavior() {
    let types = TypeCollection::new().register(struct_in_module(
        1,
        "UniqueStruct",
        "demo",
        named_fields(vec![("id", u32t()), ("name", s())]),
    ));

    let swift = Swift::default();
    let output = swift.export(&types).unwrap();

    assert!(output.contains("public struct UniqueStruct: Codable"));
    assert!(output.contains("let id: UInt32"));
    assert!(output.contains("let name: String"));
}

#[test]
fn test_duplicate_names_with_enums() {
    let unit_enum = |sid: u64, module: &str, variants: Vec<&str>| NamedDataType {
        sid,
        name: "Status".to_string(),
        module: module.to_string(),
        generics: Vec::new(),
        docs: String::new(),
        deprecated: None,
        ty: DataType::Enum(EnumType {
            variants: variants
                .into_iter()
                .map(|n| (n.to_string(), Variant { skip: false, fields: Fields::Unit }))
                .collect(),
            repr: Repr::External,
            string_enum: false,
            rename_all: None,
        }),
    };

    let types = TypeCollection::new()
        .register(unit_enum(1, "duplicate_names::first", vec!["Active", "Inactive"]))
        .register(unit_enum(
            2,
            "duplicate_names::second",
            vec!["Online", "Offline", "Away"],
        ));

    let swift = Swift::new().duplicate_name_strategy(DuplicateNameStrategy::Qualify);

    let output = swift.export(&types).unwrap();

    assert!(output.contains("public enum FirstStatus: Codable"));
    assert!(output.contains("public enum SecondStatus: Codable"));

    assert!(output.contains("case active"));
    assert!(output.contains("case inactive"));
    assert!(output.contains("case online"));
    assert!(output.contains("case offline"));
    assert!(output.contains("case away"));
}
