//! The validated field types.

use clipstash::field::{Content, Expires, Hits, Password, Posted, Time, Title};
use clipstash::{ClipError, ShortCode};

#[test]
fn content_accepts_visible_text() {
    let c = Content::new("hello world").unwrap();
    assert_eq!(c.as_str(), "hello world");
    assert_eq!(c.into_inner(), "hello world");
}

#[test]
fn content_rejects_empty_text() {
    assert_eq!(Content::new("").unwrap_err(), ClipError::EmptyContent);
}

#[test]
fn content_rejects_whitespace_only_text() {
    assert_eq!(Content::new(" \t\n  ").unwrap_err(), ClipError::EmptyContent);
    assert!(Content::new("  x  ").is_ok());
}

#[test]
fn password_normalizes_the_empty_string() {
    let none = Password::new(String::new()).unwrap();
    assert!(!none.has_password());
    assert_eq!(none.into_inner(), None);

    let some = Password::new("123".to_owned()).unwrap();
    assert!(some.has_password());
    assert_eq!(some.into_inner(), Some("123".to_string()));
}

#[test]
fn password_equality_is_by_contents() {
    let a = Password::new("abc".to_owned()).unwrap();
    let b = Password::new("abc".to_owned()).unwrap();
    let c = Password::new("xyz".to_owned()).unwrap();
    let none = Password::default();
    assert!(a == b);
    assert!(a != c);
    assert!(a != none);
    assert!(none == Password::new(String::new()).unwrap());
}

#[test]
fn title_normalizes_blank_to_absent() {
    assert_eq!(Title::new(None).into_inner(), None);
    assert_eq!(Title::new(Some(String::new())).into_inner(), None);
    assert_eq!(
        Title::new(Some("a title".to_string())).into_inner(),
        Some("a title".to_string())
    );
    assert_eq!(Title::default().into_inner(), None);
}

#[test]
fn hits_and_posted_and_expires_carry_their_values() {
    assert_eq!(Hits::new(17).into_inner(), 17);
    assert_eq!(Posted::new(Time::from_seconds(44)).into_inner().seconds(), 44);
    assert_eq!(
        Expires::new(Some(Time::from_seconds(9))).into_inner().map(|t| t.seconds()),
        Some(9)
    );
    assert_eq!(Expires::default().into_inner().map(|t| t.seconds()), None);
}

#[test]
fn generated_shortcodes_use_the_fixed_alphabet() {
    for _ in 0..32 {
        let sc = ShortCode::new();
        let text = sc.as_str().to_string();
        assert_eq!(text.len(), 10);
        assert!(text.chars().all(|c| "abcd1234".contains(c)));
    }
}

#[test]
fn shortcode_round_trips_raw_text() {
    let sc = ShortCode::from_raw("abcd123456");
    assert_eq!(sc.as_str(), "abcd123456");
    assert_eq!(sc.into_inner(), "abcd123456");
    assert!(ShortCode::from_raw("x") == ShortCode::from_raw("x"));
    assert!(ShortCode::from_raw("x") != ShortCode::from_raw("y"));
}

#[test]
fn default_shortcode_is_freshly_drawn() {
    let sc = ShortCode::default();
    assert_eq!(sc.as_str().len(), 10);
}
