//! Checks on what callers supply.

use crate::providers::{regex_is_match, regex_verdict};
use vstd::prelude::*;
use vstd::string::StringExecFns;
use vstd::utf8::encode_utf8;

verus! {

/// The least number of characters that a password must have.
pub const MIN_PASSWORD_CHARS: usize = 8;

/// The most bytes that a course description may have.
pub const MAX_DESCRIPTION_BYTES: usize = 500;

/// The pattern that an email address must match from its first character to
/// its last: a name, `@`, a domain, a dot and an ending.
pub open spec fn email_pattern() -> Seq<char> {
    "^[\\w\\.-]+@[\\w\\.-]+\\.\\w+$"@
}

/// An email address is accepted when the pattern matches it.
pub open spec fn email_ok(email: Seq<char>) -> bool {
    regex_verdict(email_pattern(), email) == Some(true)
}

/// What the answer of the pattern matcher means for an email address: it is
/// accepted where the matcher ran and found a match, and rejected otherwise.
pub fn email_outcome(matched: Option<bool>) -> (r: Result<(), String>)
    ensures
        r.is_ok() == (matched == Some(true)),
        r is Err ==> r->Err_0@ == "Invalid email format"@,
{
    match matched {
        Some(true) => Ok(()),
        _ => Err(String::from_str("Invalid email format")),
    }
}

/// Accepts an email address that the pattern matches and rejects any other.
pub fn validate_email(email: &str) -> (r: Result<(), String>)
    ensures
        r.is_ok() == email_ok(email@),
        r is Err ==> r->Err_0@ == "Invalid email format"@,
{
    email_outcome(regex_is_match("^[\\w\\.-]+@[\\w\\.-]+\\.\\w+$", email))
}

/// A password is accepted when it has at least eight characters.
pub open spec fn password_ok(password: Seq<char>) -> bool {
    password.len() >= MIN_PASSWORD_CHARS
}

/// Accepts a password of at least eight characters and rejects any other.
pub fn validate_password(password: &str) -> (r: Result<(), String>)
    ensures
        r.is_ok() == password_ok(password@),
        r is Err ==> r->Err_0@ == "Password must be at least 8 characters long"@,
{
    if password.unicode_len() >= MIN_PASSWORD_CHARS {
        Ok(())
    } else {
        Err(String::from_str("Password must be at least 8 characters long"))
    }
}

/// Accepts every course title but the empty one.
pub fn validate_course_title(title: &str) -> (r: Result<(), String>)
    ensures
        r.is_ok() == (title@.len() != 0),
        r is Err ==> r->Err_0@ == "Course title cannot be empty"@,
{
    if title.is_empty() {
        Err(String::from_str("Course title cannot be empty"))
    } else {
        Ok(())
    }
}

/// Accepts a course description of at most 500 bytes.
pub fn validate_course_description(description: &str) -> (r: Result<(), String>)
    ensures
        r.is_ok() == (encode_utf8(description@).len() <= MAX_DESCRIPTION_BYTES),
        r is Err ==> r->Err_0@ == "Course description cannot exceed 500 characters"@,
{
    if description.as_bytes().len() <= MAX_DESCRIPTION_BYTES {
        Ok(())
    } else {
        Err(String::from_str("Course description cannot exceed 500 characters"))
    }
}

} // verus!
