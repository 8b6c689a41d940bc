use microsandbox::names::{is_valid_name, validate_namespace, validate_sandbox_name};

#[test]
fn name_of_exactly_63_chars_is_accepted() {
    let name: String = "a".repeat(63);
    assert!(is_valid_name(&name));
    assert!(validate_sandbox_name(&name).is_ok());
}

#[test]
fn name_of_64_chars_is_rejected() {
    let name: String = "a".repeat(64);
    assert!(!is_valid_name(&name));
    assert!(validate_sandbox_name(&name).is_err());
}

#[test]
fn name_starting_with_digit_is_accepted() {
    assert!(is_valid_name("7sandbox"));
    assert!(validate_sandbox_name("7sandbox").is_ok());
}

#[test]
fn name_containing_underscore_is_accepted() {
    assert!(is_valid_name("my_sandbox"));
    assert!(validate_sandbox_name("my_sandbox").is_ok());
}

#[test]
fn wildcard_is_rejected_for_creation() {
    assert!(!is_valid_name("*"));
    assert!(validate_sandbox_name("*").is_err());
    assert!(validate_namespace("*").is_err());
}

#[test]
fn empty_name_is_rejected() {
    assert!(validate_sandbox_name("").is_err());
    assert!(validate_namespace("").is_err());
}

#[test]
fn name_starting_with_separator_is_rejected() {
    assert!(!is_valid_name("-lead"));
    assert!(!is_valid_name("_lead"));
}

#[test]
fn name_with_slash_is_rejected() {
    assert!(!is_valid_name("ns/sb"));
}
