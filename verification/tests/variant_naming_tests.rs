use specta_swift::variant_naming::{convert_variant_name, generate_variant_struct_name};
use specta_swift::{NamingConvention, StructNamingStrategy, Swift};

#[test]
fn test_auto_rename_strategy() {
    let swift = Swift::default();
    let name = generate_variant_struct_name(&swift, "ApiResponse", "Success");
    assert_eq!(name, "ApiResponseSuccessData");
}

#[test]
fn test_auto_rename_with_snake_case() {
    let swift = Swift::default();
    let name = generate_variant_struct_name(&swift, "JobOutput", "file_copy");
    assert_eq!(name, "JobOutputFileCopyData");
}

#[test]
fn test_keep_original_strategy() {
    let swift = Swift::new().struct_naming(StructNamingStrategy::KeepOriginal);
    let name = generate_variant_struct_name(&swift, "ApiResponse", "Success");
    assert_eq!(name, "SuccessData");
}

#[test]
fn test_keep_original_with_snake_case() {
    let swift = Swift::new().struct_naming(StructNamingStrategy::KeepOriginal);
    let name = generate_variant_struct_name(&swift, "JobOutput", "file_copy");
    assert_eq!(name, "FileCopyData");
}

#[test]
fn test_convert_variant_name_follows_convention() {
    assert_eq!(
        convert_variant_name("file_copy", &NamingConvention::PascalCase),
        "FileCopy"
    );
    assert_eq!(
        convert_variant_name("Success", &NamingConvention::Keep),
        "Success"
    );
}

#[test]
fn test_reference_and_definition_sites_agree() {
    // The same (enclosing, variant, strategy) inputs yield the same
    // auxiliary name wherever they are asked for.
    for strategy in [StructNamingStrategy::AutoRename, StructNamingStrategy::KeepOriginal] {
        let swift = Swift::new().struct_naming(strategy);
        let at_reference = generate_variant_struct_name(&swift, "Event", "job_started");
        let at_definition = generate_variant_struct_name(&swift, "Event", "job_started");
        assert_eq!(at_reference, at_definition);
    }
}
