//! Checks of the syntactic credential validators.

use microblog_auth::validation::validate_email;
use microblog_auth::validation::validate_password;

#[test]
fn simple_email_accepted() {
    assert!(validate_email("a@b.co"));
}

#[test]
fn non_email_rejected() {
    assert!(!validate_email("not-an-email"));
}

#[test]
fn email_shapes() {
    assert!(validate_email("first.last@mail.example.com"));
    assert!(validate_email("user_name-1@sub-domain.org"));
    assert!(validate_email("a@b.corp"));
    assert!(!validate_email(""));
    assert!(!validate_email("@b.co"));
    assert!(!validate_email("a@"));
    assert!(!validate_email("a@b"));
    assert!(!validate_email("a@b.c"));
    assert!(!validate_email("a@b.corpx"));
    assert!(!validate_email("a@b.co."));
    assert!(!validate_email(".a@b.co"));
    assert!(!validate_email("a.@b.co"));
    assert!(!validate_email("a..b@c.de"));
    assert!(!validate_email("a@b@c.de"));
    assert!(!validate_email("a b@c.de"));
    assert!(!validate_email("a@c..de"));
}

#[test]
fn short_password_rejected() {
    assert!(!validate_password("short"));
}

#[test]
fn long_password_accepted() {
    assert!(validate_password("longenough1"));
}

#[test]
fn password_length_boundary() {
    assert!(!validate_password("1234567"));
    assert!(validate_password("12345678"));
    // Length counts characters, not bytes.
    assert!(validate_password("\u{e9}\u{e9}\u{e9}\u{e9}\u{e8}\u{e8}\u{e8}\u{e8}"));
    assert!(!validate_password("\u{e9}\u{e9}\u{e9}\u{e9}\u{e8}\u{e8}\u{e8}"));
}
