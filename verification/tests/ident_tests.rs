use myhelper_core::error::AppError;
use myhelper_core::ident::{resolve_plugin_dir, validate_window_id};

#[test]
fn accepts_simple_identifiers() {
    assert!(validate_window_id("abc123").is_ok());
    assert!(validate_window_id("a-b_c").is_ok());
    assert!(validate_window_id("A").is_ok());
    assert!(validate_window_id("0").is_ok());
}

#[test]
fn rejects_empty_identifier() {
    let e = validate_window_id("").unwrap_err();
    assert!(matches!(e, AppError::InvalidIdentifier(_)));
}

#[test]
fn rejects_identifier_with_forbidden_characters() {
    assert!(validate_window_id("a b").is_err());
    assert!(validate_window_id("a/b").is_err());
    assert!(validate_window_id("a.b").is_err());
    assert!(validate_window_id("..").is_err());
    assert!(validate_window_id("a\\b").is_err());
}

#[test]
fn resolve_joins_root_and_identifier() {
    let p = resolve_plugin_dir("/data/Plugin", "abc123").unwrap();
    assert_eq!(p, "/data/Plugin/abc123");
}

#[test]
fn resolve_rejects_bad_identifier() {
    let e = resolve_plugin_dir("/data/Plugin", "../evil").unwrap_err();
    assert!(matches!(e, AppError::InvalidIdentifier(_)));
}
