use prompted_input::validation::ValidationMethods;

#[test]
fn test_validate_name() {
    assert!(ValidationMethods::validate_name("John"));
    assert!(!ValidationMethods::validate_name("John123"));
}

#[test]
fn test_validate_email() {
    assert!(ValidationMethods::validate_email("test@example.com"));
    assert!(!ValidationMethods::validate_email("invalid-email"));
}

#[test]
fn test_not_empty() {
    assert!(ValidationMethods::not_empty("not empty"));
    assert!(!ValidationMethods::not_empty(""));
}

#[test]
fn validate_name_accepts_empty_and_digit_free() {
    assert!(ValidationMethods::validate_name(""));
    assert!(ValidationMethods::validate_name("Anne-Marie O'Neil"));
}

#[test]
fn validate_name_rejects_any_digit_position() {
    assert!(!ValidationMethods::validate_name("1John"));
    assert!(!ValidationMethods::validate_name("Jo3hn"));
    assert!(!ValidationMethods::validate_name("John9"));
    assert!(!ValidationMethods::validate_name("0"));
}

#[test]
fn validate_name_rejects_unicode_numerics() {
    assert!(!ValidationMethods::validate_name("\u{0663}"));
    assert!(!ValidationMethods::validate_name("Jean\u{00b2}"));
}

#[test]
fn validate_email_accepts_word_dot_hyphen_segments() {
    assert!(ValidationMethods::validate_email("first.last@sub-domain.example.com"));
    assert!(ValidationMethods::validate_email("a_b-c@x.y"));
    assert!(ValidationMethods::validate_email("1@2.3"));
}

#[test]
fn validate_email_rejects_missing_parts() {
    assert!(!ValidationMethods::validate_email(""));
    assert!(!ValidationMethods::validate_email("no-at-sign.example.com"));
    assert!(!ValidationMethods::validate_email("@example.com"));
    assert!(!ValidationMethods::validate_email("user@"));
    assert!(!ValidationMethods::validate_email("user@example"));
    assert!(!ValidationMethods::validate_email("user@example."));
    assert!(!ValidationMethods::validate_email("user@.com"));
}

#[test]
fn validate_email_rejects_forbidden_characters() {
    assert!(!ValidationMethods::validate_email("two words@example.com"));
    assert!(!ValidationMethods::validate_email("user@exa mple.com"));
    assert!(!ValidationMethods::validate_email("user@example.c-m"));
    assert!(!ValidationMethods::validate_email("a@b@c.com"));
}

#[test]
fn not_empty_on_whitespace_only() {
    assert!(ValidationMethods::not_empty(" "));
    assert!(ValidationMethods::not_empty("\t"));
}
