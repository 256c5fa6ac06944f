use specta_swift::case_conversion::{is_camel_case, is_pascal_case, is_snake_case, lower_first,
    snake_to_camel, snake_to_kebab, snake_to_pascal, snake_to_screaming_snake, to_pascal_case,
    to_snake_case, upper_first};

#[test]
fn test_snake_to_camel_basic() {
    assert_eq!(snake_to_camel("hello_world"), "helloWorld");
    assert_eq!(snake_to_camel("user_id"), "userId");
    assert_eq!(snake_to_camel("is_active"), "isActive");
}

#[test]
fn test_snake_to_camel_single_word() {
    assert_eq!(snake_to_camel("hello"), "hello");
    assert_eq!(snake_to_camel("world"), "world");
}

#[test]
fn test_snake_to_camel_multiple_underscores() {
    assert_eq!(snake_to_camel("hello_world_foo_bar"), "helloWorldFooBar");
}

#[test]
fn test_snake_to_pascal_basic() {
    assert_eq!(snake_to_pascal("hello_world"), "HelloWorld");
    assert_eq!(snake_to_pascal("user_type"), "UserType");
    assert_eq!(snake_to_pascal("api_response"), "ApiResponse");
}

#[test]
fn test_snake_to_pascal_single_word() {
    assert_eq!(snake_to_pascal("hello"), "Hello");
    assert_eq!(snake_to_pascal("world"), "World");
}

#[test]
fn test_to_snake_case_camel() {
    assert_eq!(to_snake_case("helloWorld"), "hello_world");
    assert_eq!(to_snake_case("userId"), "user_id");
    assert_eq!(to_snake_case("isActive"), "is_active");
}

#[test]
fn test_to_snake_case_pascal() {
    assert_eq!(to_snake_case("HelloWorld"), "hello_world");
    assert_eq!(to_snake_case("UserType"), "user_type");
    assert_eq!(to_snake_case("ApiResponse"), "api_response");
}

#[test]
fn test_to_snake_case_acronyms() {
    assert_eq!(to_snake_case("APIResponse"), "api_response");
    assert_eq!(to_snake_case("HTTPServer"), "http_server");
    assert_eq!(to_snake_case("XMLParser"), "xml_parser");
}

#[test]
fn test_to_snake_case_single_word() {
    assert_eq!(to_snake_case("hello"), "hello");
    assert_eq!(to_snake_case("World"), "world");
}

#[test]
fn test_snake_to_kebab() {
    assert_eq!(snake_to_kebab("hello_world"), "hello-world");
    assert_eq!(snake_to_kebab("user_type"), "user-type");
    assert_eq!(snake_to_kebab("api_response"), "api-response");
}

#[test]
fn test_snake_to_screaming_snake() {
    assert_eq!(snake_to_screaming_snake("hello_world"), "HELLO_WORLD");
    assert_eq!(snake_to_screaming_snake("user_type"), "USER_TYPE");
    assert_eq!(snake_to_screaming_snake("api"), "API");
}

#[test]
fn test_is_snake_case() {
    assert!(is_snake_case("hello_world"));
    assert!(is_snake_case("user_id"));
    assert!(is_snake_case("is_active"));
    assert!(is_snake_case("hello"));

    assert!(!is_snake_case("helloWorld"));
    assert!(!is_snake_case("HelloWorld"));
    assert!(!is_snake_case("hello-world"));
    assert!(!is_snake_case(""));
}

#[test]
fn test_is_camel_case() {
    assert!(is_camel_case("helloWorld"));
    assert!(is_camel_case("userId"));
    assert!(is_camel_case("isActive"));

    assert!(!is_camel_case("hello_world"));
    assert!(!is_camel_case("HelloWorld"));
    assert!(!is_camel_case("hello"));
    assert!(!is_camel_case(""));
}

#[test]
fn test_is_pascal_case() {
    assert!(is_pascal_case("HelloWorld"));
    assert!(is_pascal_case("UserType"));
    assert!(is_pascal_case("ApiResponse"));
    assert!(is_pascal_case("H"));

    assert!(!is_pascal_case("helloWorld"));
    assert!(!is_pascal_case("hello_world"));
    assert!(!is_pascal_case("hello"));
    assert!(!is_pascal_case(""));
}

#[test]
fn test_roundtrip_conversions() {
    let original = "hello_world_foo_bar";
    assert_eq!(to_snake_case(&snake_to_camel(original)), original);
    assert_eq!(to_snake_case(&snake_to_pascal(original)), original);
}

#[test]
fn test_to_pascal_case_keeps_pascal() {
    assert_eq!(to_pascal_case("hello_world"), "HelloWorld");
    assert_eq!(to_pascal_case("HelloWorld"), "HelloWorld");
    assert_eq!(to_pascal_case("user_type"), "UserType");
    assert_eq!(to_pascal_case("kebab-case-name"), "KebabCaseName");
}

#[test]
fn test_first_letter_casing() {
    assert_eq!(lower_first("Hello"), "hello");
    assert_eq!(lower_first(""), "");
    assert_eq!(upper_first("hello"), "Hello");
    assert_eq!(upper_first(""), "");
}
