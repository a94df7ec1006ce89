use prompted_input::user::User;

#[test]
fn user_new_keeps_the_fields() {
    let user = User::new("John".to_string(), "john@example.com".to_string(), 30);
    assert_eq!(user.name, "John");
    assert_eq!(user.email, "john@example.com");
    assert_eq!(user.age, 30);
}

#[test]
fn summary_line_has_the_fixed_shape() {
    let user = User::new("John".to_string(), "john@example.com".to_string(), 30);
    assert_eq!(
        user.summary_line(),
        "Name: John, Email: john@example.com, Age: 30"
    );
}

#[test]
fn summary_line_prints_small_and_large_ages() {
    let zero = User::new("A".to_string(), "a@b.c".to_string(), 0);
    assert_eq!(zero.summary_line(), "Name: A, Email: a@b.c, Age: 0");
    let top = User::new("B".to_string(), "b@c.d".to_string(), u32::MAX);
    assert_eq!(top.summary_line(), "Name: B, Email: b@c.d, Age: 4294967295");
}
