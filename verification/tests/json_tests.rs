use myhelper_core::error::AppError;
use myhelper_core::json::{delete_path, get_field, get_path, set_path, JsonValue};

fn obj(fields: Vec<(&str, JsonValue)>) -> JsonValue {
    JsonValue::Object(fields.into_iter().map(|(k, v)| (k.to_string(), v)).collect())
}

fn s(text: &str) -> JsonValue {
    JsonValue::Str(text.to_string())
}

fn keys(parts: &[&str]) -> Vec<String> {
    parts.iter().map(|p| p.to_string()).collect()
}

fn as_str(v: &JsonValue) -> &str {
    match v {
        JsonValue::Str(x) => x.as_str(),
        _ => panic!("expected a string value"),
    }
}

#[test]
fn get_empty_path_returns_whole_document() {
    let doc = obj(vec![("a", s("1"))]);
    let got = get_path(&doc, &keys(&[])).unwrap();
    assert_eq!(as_str(&get_field(&got, "a").unwrap()), "1");
}

#[test]
fn get_walks_nested_objects() {
    let doc = obj(vec![("a", obj(vec![("b", s("deep"))]))]);
    let got = get_path(&doc, &keys(&["a", "b"])).unwrap();
    assert_eq!(as_str(&got), "deep");
}

#[test]
fn get_missing_key_is_not_found() {
    let doc = obj(vec![("a", s("1"))]);
    let e = get_path(&doc, &keys(&["missing"])).unwrap_err();
    match e {
        AppError::NotFound(m) => assert_eq!(m, "key not found: missing"),
        other => panic!("expected NotFound, got {:?}", other),
    }
}

#[test]
fn get_error_names_the_first_missing_key() {
    let doc = obj(vec![("a", obj(vec![]))]);
    let e = get_path(&doc, &keys(&["a", "b", "c"])).unwrap_err();
    match e {
        AppError::NotFound(m) => assert_eq!(m, "key not found: b"),
        other => panic!("expected NotFound, got {:?}", other),
    }
}

#[test]
fn get_through_non_object_is_not_found() {
    let doc = obj(vec![("a", s("1"))]);
    let e = get_path(&doc, &keys(&["a", "b"])).unwrap_err();
    assert!(matches!(e, AppError::NotFound(_)));
}

#[test]
fn set_replaces_existing_value() {
    let doc = obj(vec![("a", s("old"))]);
    let new = set_path(&doc, &keys(&["a"]), s("new")).unwrap();
    assert_eq!(as_str(&get_field(&new, "a").unwrap()), "new");
}

#[test]
fn set_creates_missing_intermediate_objects() {
    let doc = obj(vec![]);
    let new = set_path(&doc, &keys(&["a", "b", "c"]), s("v")).unwrap();
    let a = get_field(&new, "a").unwrap();
    let b = get_field(&a, "b").unwrap();
    assert_eq!(as_str(&get_field(&b, "c").unwrap()), "v");
}

#[test]
fn set_through_non_object_intermediate_fails() {
    let doc = obj(vec![("a", s("leaf"))]);
    let e = set_path(&doc, &keys(&["a", "b"]), s("v")).unwrap_err();
    assert!(matches!(e, AppError::Validation(_)));
}

#[test]
fn set_empty_path_fails() {
    let doc = obj(vec![]);
    let e = set_path(&doc, &keys(&[]), s("v")).unwrap_err();
    assert!(matches!(e, AppError::Validation(_)));
}

#[test]
fn set_preserves_sibling_fields() {
    let doc = obj(vec![("keep", s("k")), ("a", obj(vec![("old", s("o"))]))]);
    let new = set_path(&doc, &keys(&["a", "fresh"]), s("f")).unwrap();
    assert_eq!(as_str(&get_field(&new, "keep").unwrap()), "k");
    let a = get_field(&new, "a").unwrap();
    assert_eq!(as_str(&get_field(&a, "old").unwrap()), "o");
    assert_eq!(as_str(&get_field(&a, "fresh").unwrap()), "f");
}

#[test]
fn delete_removes_final_key() {
    let doc = obj(vec![("a", s("1")), ("b", s("2"))]);
    let new = delete_path(&doc, &keys(&["a"])).unwrap();
    assert!(get_field(&new, "a").is_none());
    assert_eq!(as_str(&get_field(&new, "b").unwrap()), "2");
}

#[test]
fn delete_absent_final_key_is_a_no_op() {
    let doc = obj(vec![("a", s("1"))]);
    let new = delete_path(&doc, &keys(&["zzz"])).unwrap();
    assert_eq!(as_str(&get_field(&new, "a").unwrap()), "1");
}

#[test]
fn delete_absent_intermediate_fails_naming_the_key() {
    let doc = obj(vec![("a", obj(vec![]))]);
    let e = delete_path(&doc, &keys(&["missing", "x"])).unwrap_err();
    match e {
        AppError::NotFound(m) => assert_eq!(m, "key not found: missing"),
        other => panic!("expected NotFound, got {:?}", other),
    }
}

#[test]
fn delete_nested_key_keeps_parent() {
    let doc = obj(vec![("a", obj(vec![("x", s("1")), ("y", s("2"))]))]);
    let new = delete_path(&doc, &keys(&["a", "x"])).unwrap();
    let a = get_field(&new, "a").unwrap();
    assert!(get_field(&a, "x").is_none());
    assert_eq!(as_str(&get_field(&a, "y").unwrap()), "2");
}

#[test]
fn clone_is_deep() {
    let doc = obj(vec![("a", obj(vec![("b", s("v"))]))]);
    let copy = doc.clone();
    let a = get_field(&copy, "a").unwrap();
    assert_eq!(as_str(&get_field(&a, "b").unwrap()), "v");
}
