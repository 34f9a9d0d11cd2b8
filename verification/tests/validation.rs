use boston_drone_school::utils::validation::{
    email_outcome, validate_course_description, validate_course_title, validate_email,
    validate_password,
};

#[test]
fn email_must_match_the_pattern() {
    for good in ["a@b.co", "ada.lovelace@example.com", "a-b_c@d-e.f.org", "x@y.z", "\u{e9}@\u{e9}.fr"] {
        assert_eq!(validate_email(good), Ok(()), "{}", good);
    }
    for bad in [
        "",
        "a",
        "a@b",
        "@b.co",
        "a@.co",
        "a@b.",
        "a b@c.de",
        "a@b.co ",
        " a@b.co",
        "a@b@c.de",
        "a@b.c-d",
        "^[\\w\\.-]+@[\\w\\.-]+\\.\\w+$",
    ] {
        assert_eq!(validate_email(bad), Err("Invalid email format".to_string()), "{:?}", bad);
    }
}

#[test]
fn email_outcome_accepts_a_match_only() {
    assert_eq!(email_outcome(Some(true)), Ok(()));
    assert_eq!(email_outcome(Some(false)), Err("Invalid email format".to_string()));
    assert_eq!(email_outcome(None), Err("Invalid email format".to_string()));
}

#[test]
fn password_needs_eight_characters() {
    assert_eq!(validate_password("12345678"), Ok(()));
    assert_eq!(validate_password("123456789"), Ok(()));
    assert_eq!(
        validate_password("1234567"),
        Err("Password must be at least 8 characters long".to_string())
    );
    assert_eq!(
        validate_password(""),
        Err("Password must be at least 8 characters long".to_string())
    );
    assert_eq!(
        validate_password("\u{e9}\u{e9}\u{e9}\u{e9}"),
        Err("Password must be at least 8 characters long".to_string())
    );
    assert!(validate_password("\u{e9}\u{e9}\u{e9}\u{e9}\u{e9}\u{e9}\u{e9}").is_err());
    assert_eq!(validate_password("\u{e9}\u{e9}\u{e9}\u{e9}\u{e9}\u{e9}\u{e9}\u{e9}"), Ok(()));
    assert_eq!(validate_password("1234567\u{1F600}"), Ok(()));
}

#[test]
fn course_title_must_not_be_empty() {
    assert_eq!(validate_course_title("x"), Ok(()));
    assert_eq!(validate_course_title(" "), Ok(()));
    assert_eq!(validate_course_title(""), Err("Course title cannot be empty".to_string()));
}

#[test]
fn course_description_has_at_most_500_bytes() {
    assert_eq!(validate_course_description(""), Ok(()));
    assert_eq!(validate_course_description(&"d".repeat(500)), Ok(()));
    assert_eq!(
        validate_course_description(&"d".repeat(501)),
        Err("Course description cannot exceed 500 characters".to_string())
    );
    assert!(validate_course_description(&"\u{e9}".repeat(250)).is_ok());
    assert!(validate_course_description(&"\u{e9}".repeat(251)).is_err());
}
