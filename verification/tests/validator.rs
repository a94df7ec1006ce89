use prompted_input::validator::{Predicate, Validator};

#[test]
fn test_validator() {
    let validator = Validator::new(vec![Predicate::NotEmpty, Predicate::ValidateName]);
    assert!(validator.validate("John"));
    assert!(!validator.validate("John123"));
    assert!(!validator.validate(""));
}

#[test]
fn empty_validator_is_vacuously_true() {
    let validator = Validator::new(vec![]);
    assert!(validator.validate(""));
    assert!(validator.validate("anything at all 123"));
}

#[test]
fn validator_is_idempotent() {
    let validator = Validator::new(vec![Predicate::NotEmpty, Predicate::ValidateName]);
    for input in ["John", "John123", "", " ", "a@b.c"] {
        let first = validator.validate(input);
        let second = validator.validate(input);
        assert_eq!(first, second);
    }
}

#[test]
fn validator_order_does_not_change_the_verdict() {
    let forward = Validator::new(vec![Predicate::NotEmpty, Predicate::ValidateName]);
    let backward = Validator::new(vec![Predicate::ValidateName, Predicate::NotEmpty]);
    for input in ["John", "John123", ""] {
        assert_eq!(forward.validate(input), backward.validate(input));
    }
}

#[test]
fn email_validator_composes() {
    let validator = Validator::new(vec![Predicate::NotEmpty, Predicate::ValidateEmail]);
    assert!(validator.validate("test@example.com"));
    assert!(!validator.validate("invalid-email"));
    assert!(!validator.validate(""));
}
