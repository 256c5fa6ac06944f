use specta_swift::rename_rules::{generate_raw_value, generate_string_enum_raw_value};
use specta_swift::NamingConvention;

#[test]
fn test_lowercase() {
    assert_eq!(generate_raw_value("MyVariant", Some("lowercase")), "myvariant");
}

#[test]
fn test_uppercase() {
    assert_eq!(generate_raw_value("MyVariant", Some("UPPERCASE")), "MYVARIANT");
}

#[test]
fn test_camel_case() {
    assert_eq!(generate_raw_value("MyVariant", Some("camelCase")), "myVariant");
}

#[test]
fn test_pascal_case() {
    assert_eq!(generate_raw_value("MyVariant", Some("PascalCase")), "MyVariant");
}

#[test]
fn test_snake_case() {
    assert_eq!(generate_raw_value("MyVariant", Some("snake_case")), "my_variant");
    assert_eq!(generate_raw_value("APIResponse", Some("snake_case")), "api_response");
}

#[test]
fn test_screaming_snake_case() {
    assert_eq!(
        generate_raw_value("MyVariant", Some("SCREAMING_SNAKE_CASE")),
        "MY_VARIANT"
    );
}

#[test]
fn test_kebab_case() {
    assert_eq!(generate_raw_value("MyVariant", Some("kebab-case")), "my-variant");
}

#[test]
fn test_screaming_kebab_case() {
    assert_eq!(
        generate_raw_value("MyVariant", Some("SCREAMING-KEBAB-CASE")),
        "MY-VARIANT"
    );
}

#[test]
fn test_default_none() {
    assert_eq!(generate_raw_value("MyVariant", None), "myvariant");
}

#[test]
fn test_unknown_rule_falls_back_to_lowercase() {
    assert_eq!(generate_raw_value("MyVariant", Some("unknown-rule")), "myvariant");
}

#[test]
fn test_string_enum_raw_value_snake() {
    assert_eq!(
        generate_string_enum_raw_value("MyVariant", NamingConvention::SnakeCase),
        "my_variant"
    );
    assert_eq!(
        generate_string_enum_raw_value("MyVariant", NamingConvention::PascalCase),
        "myvariant"
    );
}
