use myhelper_core::error::AppError;
use myhelper_core::json::{get_field, JsonValue};
use myhelper_core::self_config::{delete_value, get_value, set_value, SelfConfigStore};

fn keys(parts: &[&str]) -> Vec<String> {
    parts.iter().map(|p| p.to_string()).collect()
}

fn as_str(v: &JsonValue) -> &str {
    match v {
        JsonValue::Str(x) => x.as_str(),
        _ => panic!("expected a string value"),
    }
}

#[test]
fn config_path_is_under_the_plugin_directory() {
    let mut store = SelfConfigStore::new("/data/Plugin".to_string());
    let p = store.config_path("p1").unwrap();
    assert_eq!(p, "/data/Plugin/p1/selfConfig.json");
}

#[test]
fn config_path_is_cached_and_stable() {
    let mut store = SelfConfigStore::new("/data/Plugin".to_string());
    let a = store.config_path("p1").unwrap();
    let b = store.config_path("p1").unwrap();
    assert_eq!(a, b);
}

#[test]
fn config_path_rejects_bad_identifier() {
    let mut store = SelfConfigStore::new("/data/Plugin".to_string());
    let e = store.config_path("../p1").unwrap_err();
    assert!(matches!(e, AppError::InvalidIdentifier(_)));
}

#[test]
fn get_value_with_empty_keys_returns_whole_document() {
    let doc = JsonValue::Object(vec![(
        "a".to_string(),
        JsonValue::Str("1".to_string()),
    )]);
    let whole = get_value(&doc, &keys(&[])).unwrap();
    assert_eq!(as_str(&get_field(&whole, "a").unwrap()), "1");
}

#[test]
fn set_value_with_empty_keys_leaves_document_unchanged() {
    let doc = JsonValue::Object(vec![(
        "a".to_string(),
        JsonValue::Str("1".to_string()),
    )]);
    let new = set_value(&doc, &keys(&[]), JsonValue::Null).unwrap();
    assert_eq!(as_str(&get_field(&new, "a").unwrap()), "1");
}

#[test]
fn set_value_autovivifies_intermediates() {
    let doc = JsonValue::Object(vec![]);
    let new = set_value(&doc, &keys(&["ui", "theme"]), JsonValue::Str("dark".to_string()))
        .unwrap();
    let ui = get_field(&new, "ui").unwrap();
    assert_eq!(as_str(&get_field(&ui, "theme").unwrap()), "dark");
}

#[test]
fn delete_value_with_empty_keys_removes_the_file() {
    let doc = JsonValue::Object(vec![(
        "a".to_string(),
        JsonValue::Str("1".to_string()),
    )]);
    let r = delete_value(&doc, &keys(&[])).unwrap();
    assert!(r.is_none());
}

#[test]
fn delete_value_removes_one_key() {
    let doc = JsonValue::Object(vec![
        ("a".to_string(), JsonValue::Str("1".to_string())),
        ("b".to_string(), JsonValue::Str("2".to_string())),
    ]);
    let new = delete_value(&doc, &keys(&["a"])).unwrap().unwrap();
    assert!(get_field(&new, "a").is_none());
    assert!(get_field(&new, "b").is_some());
}

#[test]
fn delete_value_fails_on_absent_intermediate() {
    let doc = JsonValue::Object(vec![]);
    let e = delete_value(&doc, &keys(&["missing", "x"])).unwrap_err();
    assert!(matches!(e, AppError::NotFound(_)));
}
