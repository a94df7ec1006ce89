use prompted_input::prompt::{
    process_line_string, process_line_u32, read_input_string, read_input_u32, LineSource,
    LoopEvent, Verdict,
};
use prompted_input::validator::{Predicate, Validator};

fn name_validator() -> Validator {
    Validator::new(vec![Predicate::NotEmpty, Predicate::ValidateName])
}

#[test]
fn test_read_input() {
    let validator = name_validator();
    let mut source = LineSource::new(vec!["John\n".to_string()]);
    let mut events: Vec<LoopEvent> = Vec::new();
    let result: String =
        read_input_string("Enter name:", &validator, &mut source, &mut events).unwrap();
    assert_eq!(result, "John");
}

#[test]
fn one_good_line_takes_one_iteration() {
    let validator = name_validator();
    let mut source = LineSource::new(vec!["John\n".to_string()]);
    let mut events: Vec<LoopEvent> = Vec::new();
    let result = read_input_string("Enter name:", &validator, &mut source, &mut events);
    assert_eq!(result.unwrap(), "John");
    assert_eq!(events, vec![LoopEvent::Prompt]);
}

#[test]
fn rejected_line_draws_one_diagnostic() {
    let validator = name_validator();
    let mut source = LineSource::new(vec!["John123\n".to_string(), "John\n".to_string()]);
    let mut events: Vec<LoopEvent> = Vec::new();
    let result = read_input_string("Enter name:", &validator, &mut source, &mut events);
    assert_eq!(result.unwrap(), "John");
    assert_eq!(
        events,
        vec![LoopEvent::Prompt, LoopEvent::InvalidInput, LoopEvent::Prompt]
    );
}

#[test]
fn unparsable_number_draws_convert_diagnostic() {
    let validator = Validator::new(vec![Predicate::NotEmpty]);
    let mut source = LineSource::new(vec!["abc\n".to_string(), "42\n".to_string()]);
    let mut events: Vec<LoopEvent> = Vec::new();
    let result = read_input_u32("Enter age:", &validator, &mut source, &mut events);
    assert_eq!(result.unwrap(), 42);
    assert_eq!(
        events,
        vec![LoopEvent::Prompt, LoopEvent::ParseFailed, LoopEvent::Prompt]
    );
}

#[test]
fn exhausted_source_ends_with_a_final_prompt() {
    let validator = name_validator();
    let mut source = LineSource::new(vec!["John123\n".to_string()]);
    let mut events: Vec<LoopEvent> = Vec::new();
    let result = read_input_string("Enter name:", &validator, &mut source, &mut events);
    assert!(result.is_none());
    assert_eq!(
        events,
        vec![LoopEvent::Prompt, LoopEvent::InvalidInput, LoopEvent::Prompt]
    );
}

#[test]
fn lines_are_trimmed_before_validation() {
    let validator = name_validator();
    let mut source = LineSource::new(vec!["  John \t\r\n".to_string()]);
    let mut events: Vec<LoopEvent> = Vec::new();
    let result = read_input_string("Enter name:", &validator, &mut source, &mut events);
    assert_eq!(result.unwrap(), "John");
}

#[test]
fn whitespace_only_line_is_rejected_as_empty() {
    let validator = name_validator();
    let mut source = LineSource::new(vec!["   \n".to_string(), "John\n".to_string()]);
    let mut events: Vec<LoopEvent> = Vec::new();
    let result = read_input_string("Enter name:", &validator, &mut source, &mut events);
    assert_eq!(result.unwrap(), "John");
    assert_eq!(
        events,
        vec![LoopEvent::Prompt, LoopEvent::InvalidInput, LoopEvent::Prompt]
    );
}

#[test]
fn source_keeps_lines_after_the_accepted_one() {
    let validator = name_validator();
    let mut source = LineSource::new(vec!["John\n".to_string(), "jane@example.com\n".to_string()]);
    let mut events: Vec<LoopEvent> = Vec::new();
    let name = read_input_string("Enter name:", &validator, &mut source, &mut events);
    assert_eq!(name.unwrap(), "John");
    let email_validator = Validator::new(vec![Predicate::NotEmpty, Predicate::ValidateEmail]);
    let email = read_input_string("Enter email:", &email_validator, &mut source, &mut events);
    assert_eq!(email.unwrap(), "jane@example.com");
}

#[test]
fn process_line_accepts_trimmed_text() {
    let validator = name_validator();
    match process_line_string(" John \n", &validator) {
        Verdict::Accepted(value) => assert_eq!(value, "John"),
        _ => panic!("line should be accepted"),
    }
    assert!(matches!(
        process_line_string("John123\n", &validator),
        Verdict::Invalid
    ));
}

#[test]
fn process_line_u32_parses_decimal_numbers() {
    let validator = Validator::new(vec![Predicate::NotEmpty]);
    match process_line_u32(" 42 \n", &validator) {
        Verdict::Accepted(value) => assert_eq!(value, 42),
        _ => panic!("line should be accepted"),
    }
    match process_line_u32("+17\n", &validator) {
        Verdict::Accepted(value) => assert_eq!(value, 17),
        _ => panic!("a leading plus sign is part of a number"),
    }
    match process_line_u32("4294967295\n", &validator) {
        Verdict::Accepted(value) => assert_eq!(value, u32::MAX),
        _ => panic!("the largest u32 should parse"),
    }
}

#[test]
fn process_line_u32_rejects_malformed_numbers() {
    let validator = Validator::new(vec![Predicate::NotEmpty]);
    assert!(matches!(
        process_line_u32("abc\n", &validator),
        Verdict::ParseFailed
    ));
    assert!(matches!(
        process_line_u32("\n", &validator),
        Verdict::ParseFailed
    ));
    assert!(matches!(
        process_line_u32("-1\n", &validator),
        Verdict::ParseFailed
    ));
    assert!(matches!(
        process_line_u32("+\n", &validator),
        Verdict::ParseFailed
    ));
    assert!(matches!(
        process_line_u32("12 34\n", &validator),
        Verdict::ParseFailed
    ));
    assert!(matches!(
        process_line_u32("4294967296\n", &validator),
        Verdict::ParseFailed
    ));
}
