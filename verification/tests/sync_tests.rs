use myhelper_core::json::{get_field, JsonValue};
use myhelper_core::sync::{plan_sync, process_candidate, Candidate, Registry, RegistryRow};

fn manifest_for(window_id: &str) -> JsonValue {
    JsonValue::Object(vec![
        ("windowId".to_string(), JsonValue::Str(window_id.to_string())),
        ("title".to_string(), JsonValue::Str("A plugin".to_string())),
    ])
}

fn candidate(name: &str, manifest_id: &str) -> Candidate {
    Candidate {
        name: name.to_string(),
        is_dir: true,
        has_index: true,
        manifest: Some(manifest_for(manifest_id)),
        init: None,
    }
}

fn row(window_id: &str) -> RegistryRow {
    RegistryRow {
        window_id: window_id.to_string(),
        info: JsonValue::Object(vec![]),
        config: JsonValue::Object(vec![]),
        data: JsonValue::Object(vec![]),
    }
}

fn names(v: &[&str]) -> Vec<String> {
    v.iter().map(|s| s.to_string()).collect()
}

fn as_str(v: &JsonValue) -> &str {
    match v {
        JsonValue::Str(x) => x.as_str(),
        _ => panic!("expected a string value"),
    }
}

#[test]
fn valid_new_candidate_is_inserted_with_url() {
    let plan = plan_sync(&names(&[]), &vec![candidate("abc123", "abc123")], "/data/Plugin");
    assert_eq!(plan.inserts.len(), 1);
    assert_eq!(plan.deletes.len(), 0);
    let row = &plan.inserts[0];
    assert_eq!(row.window_id, "abc123");
    let url = get_field(&row.data, "url").unwrap();
    assert_eq!(as_str(&url), "/data/Plugin/abc123/index.html");
    let window_id = get_field(&row.data, "windowId").unwrap();
    assert_eq!(as_str(&window_id), "abc123");
}

#[test]
fn url_separators_are_normalized() {
    let plan = plan_sync(&names(&[]), &vec![candidate("p1", "p1")], "C:\\data\\Plugin");
    let url = get_field(&plan.inserts[0].data, "url").unwrap();
    assert_eq!(as_str(&url), "C:/data/Plugin/p1/index.html");
}

#[test]
fn identity_spoofing_is_excluded() {
    // directory pluginA whose manifest claims windowId pluginB
    let c = candidate("pluginA", "pluginB");
    assert!(process_candidate(&c, false, "/data/Plugin").is_none());
    let plan = plan_sync(&names(&[]), &vec![c], "/data/Plugin");
    assert_eq!(plan.inserts.len(), 0);
}

#[test]
fn candidate_without_index_is_excluded() {
    let mut c = candidate("p1", "p1");
    c.has_index = false;
    assert!(process_candidate(&c, false, "/data/Plugin").is_none());
}

#[test]
fn candidate_with_unparseable_manifest_is_excluded() {
    let mut c = candidate("p1", "p1");
    c.manifest = None;
    assert!(process_candidate(&c, false, "/data/Plugin").is_none());
}

#[test]
fn candidate_with_invalid_name_is_excluded() {
    let c = candidate("bad name", "bad name");
    assert!(process_candidate(&c, false, "/data/Plugin").is_none());
}

#[test]
fn init_json_seeds_info_and_config_for_new_plugins_only() {
    let init = JsonValue::Object(vec![
        (
            "info".to_string(),
            JsonValue::Object(vec![("k".to_string(), JsonValue::Str("v".to_string()))]),
        ),
        (
            "config".to_string(),
            JsonValue::Object(vec![("c".to_string(), JsonValue::Bool(true))]),
        ),
    ]);
    let mut c = candidate("p1", "p1");
    c.init = Some(init);
    let new_row = process_candidate(&c, false, "/r").unwrap();
    assert_eq!(as_str(&get_field(&new_row.info, "k").unwrap()), "v");
    assert!(get_field(&new_row.config, "c").is_some());
    let known_row = process_candidate(&c, true, "/r").unwrap();
    assert!(get_field(&known_row.info, "k").is_none());
    assert!(get_field(&known_row.config, "c").is_none());
}

#[test]
fn orphan_rows_are_deleted() {
    // the registered plugin's directory is gone
    let plan = plan_sync(&names(&["gone"]), &vec![], "/data/Plugin");
    assert_eq!(plan.inserts.len(), 0);
    assert_eq!(plan.deletes, names(&["gone"]));
}

#[test]
fn recreated_directory_is_reinserted() {
    let mut reg = Registry::new();
    // first pass: directory deleted, row removed
    let plan = plan_sync(&names(&["p1"]), &vec![], "/r");
    reg.rows.push(row("p1"));
    reg.apply_plan(&plan);
    assert_eq!(reg.ids().len(), 0);
    // directory recreated with the same identifier: next pass re-inserts it
    let plan2 = plan_sync(&reg.ids(), &vec![candidate("p1", "p1")], "/r");
    reg.apply_plan(&plan2);
    assert_eq!(reg.ids(), names(&["p1"]));
}

#[test]
fn sync_is_idempotent_without_filesystem_change() {
    let candidates = vec![candidate("p1", "p1"), candidate("p2", "p2")];
    let mut reg = Registry::new();
    let plan = plan_sync(&reg.ids(), &candidates, "/r");
    assert_eq!(plan.inserts.len(), 2);
    reg.apply_plan(&plan);
    // second pass over an unchanged filesystem: zero database writes
    let plan2 = plan_sync(&reg.ids(), &candidates, "/r");
    assert_eq!(plan2.inserts.len(), 0);
    assert_eq!(plan2.deletes.len(), 0);
}

#[test]
fn scenario_registry_converges_to_valid_directories() {
    // root holds {p1, p2}; registry holds {p1, p3}; p3's directory is gone
    let mut reg = Registry::new();
    reg.rows.push(row("p1"));
    reg.rows.push(row("p3"));
    let candidates = vec![candidate("p1", "p1"), candidate("p2", "p2")];
    let plan = plan_sync(&reg.ids(), &candidates, "/r");
    reg.apply_plan(&plan);
    assert_eq!(reg.ids(), names(&["p1", "p2"]));
}

#[test]
fn known_candidates_skip_init_and_are_not_reinserted() {
    let plan = plan_sync(&names(&["p1"]), &vec![candidate("p1", "p1")], "/r");
    assert_eq!(plan.inserts.len(), 0);
    assert_eq!(plan.deletes.len(), 0);
}
