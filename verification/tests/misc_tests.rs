use std::io::{Cursor, Write};
use zip::write::SimpleFileOptions;

use myhelper_core::analyze::summarize_package;
use myhelper_core::archive::FsOp;
use myhelper_core::install::{plan_install, plan_uninstall};
use myhelper_core::sync::{plan_sync, Candidate, Registry};
use myhelper_core::error::AppError;
use myhelper_core::hotkey::{HotkeyConfig, HotkeyItem};
use myhelper_core::json::{get_field, JsonValue};
use myhelper_core::logger::{LogEntry, Logger};
use myhelper_core::models::{
    detect_model_version, is_model_file, is_zip_file, should_extract_file, should_skip_file,
    validate_model_name,
};
use myhelper_core::response::{ApiResponse, ApiStatusCode};
use myhelper_core::search::{FdSearch, SearchOptions};
use myhelper_core::window_ops::WindowOperation;

fn as_str(v: &JsonValue) -> &str {
    match v {
        JsonValue::Str(x) => x.as_str(),
        _ => panic!("expected a string value"),
    }
}

#[test]
fn status_codes_have_their_documented_values() {
    assert_eq!(ApiStatusCode::Success.code(), 0);
    assert_eq!(ApiStatusCode::ErrSystem.code(), 1000);
    assert_eq!(ApiStatusCode::ErrConfig.code(), 1001);
    assert_eq!(ApiStatusCode::ErrDatabase.code(), 1002);
    assert_eq!(ApiStatusCode::ErrParams.code(), 1100);
    assert_eq!(ApiStatusCode::ErrParamsInvalid.code(), 1102);
    assert_eq!(ApiStatusCode::ErrUserNotFound.code(), 1200);
    assert_eq!(ApiStatusCode::ErrFileNotFound.code(), 1300);
    assert_eq!(ApiStatusCode::ErrNetwork.code(), 1400);
    assert_eq!(ApiStatusCode::ErrNetworkUnreachable.code(), 1402);
    assert!(ApiStatusCode::Success.is_success());
    assert!(!ApiStatusCode::ErrSystem.is_success());
}

#[test]
fn responses_carry_code_data_and_message() {
    let ok: ApiResponse<i32> = ApiResponse::success(7);
    assert_eq!(ok.code, 0);
    assert_eq!(ok.data, Some(7));
    assert_eq!(ok.message, "操作成功");
    let err: ApiResponse<i32> =
        ApiResponse::error(ApiStatusCode::ErrDatabase, "boom".to_string());
    assert_eq!(err.code, 1002);
    assert_eq!(err.data, None);
    assert_eq!(err.message, "boom");
}

#[test]
fn from_app_result_maps_errors_to_system_code() {
    let r: ApiResponse<i32> =
        ApiResponse::from_app_result(Err(AppError::Storage("db down".to_string())));
    assert_eq!(r.code, 1000);
    assert_eq!(r.message, "db down");
    let ok: ApiResponse<i32> = ApiResponse::from_app_result(Ok(1));
    assert_eq!(ok.code, 0);
    assert_eq!(ok.data, Some(1));
    assert_eq!(ok.message, "操作成功");
}

#[test]
fn window_operations_round_trip_their_codes() {
    for code in 0..5 {
        let op = WindowOperation::try_from(code).unwrap();
        assert_eq!(op.code(), code);
    }
    assert!(WindowOperation::try_from(5).is_err());
    assert!(WindowOperation::try_from(-1).is_err());
}

#[test]
fn active_keys_respects_master_and_item_switches() {
    let config = HotkeyConfig {
        enabled: true,
        items: vec![
            (
                "open".to_string(),
                HotkeyItem { enabled: true, key: "Ctrl+O".to_string() },
            ),
            (
                "close".to_string(),
                HotkeyItem { enabled: false, key: "Ctrl+W".to_string() },
            ),
        ],
    };
    assert_eq!(config.active_keys(), vec!["Ctrl+O".to_string()]);
    let off = HotkeyConfig { enabled: false, ..config };
    assert!(off.active_keys().is_empty());
}

#[test]
fn log_lines_have_the_documented_shape() {
    let entry = LogEntry {
        level: "info".to_string(),
        message: "plugin installed".to_string(),
        timestamp: "2020-01-01 00:00:00".to_string(),
        details: None,
    };
    assert_eq!(
        Logger::format_line(&entry),
        "[2020-01-01 00:00:00] [INFO] plugin installed\n"
    );
    let with_details = LogEntry {
        level: "warn".to_string(),
        message: "m".to_string(),
        timestamp: "t".to_string(),
        details: Some("d".to_string()),
    };
    assert_eq!(Logger::format_line(&with_details), "[t] [WARN] m\nDetails: d\n");
}

#[test]
fn model_name_validation() {
    assert!(validate_model_name("haru").is_ok());
    assert!(validate_model_name("").is_err());
    assert!(validate_model_name("a/../b").is_err());
    assert!(validate_model_name("a/b").is_err());
    assert!(validate_model_name("a\\b").is_err());
}

#[test]
fn model_file_detection() {
    assert!(is_model_file("haru.model3.json"));
    assert!(is_model_file("x/haru.model.json"));
    assert!(!is_model_file("haru.physics.json"));
    assert!(should_extract_file("texture.PNG"));
    assert!(should_extract_file("motion.motion3.json"));
    assert!(!should_extract_file("readme.txt"));
    assert!(should_skip_file("dir/"));
    assert!(should_skip_file(".hidden"));
    assert!(should_skip_file("__MACOSX/resource"));
    assert!(!should_skip_file("model.moc3"));
}

#[test]
fn model_version_detection() {
    assert_eq!(detect_model_version("a.model4.json"), "4.x");
    assert_eq!(detect_model_version("a.model3.json"), "3.x");
    assert_eq!(detect_model_version("a.model.json"), "2.1");
    assert_eq!(detect_model_version("a.json"), "unknown");
}

#[test]
fn zip_file_name_detection() {
    assert!(is_zip_file("a/b/plugin.Zip"));
    assert!(!is_zip_file("a/b/plugin.rar"));
}

#[test]
fn default_search_options() {
    let o = SearchOptions::default();
    assert_eq!(o.paths, vec![".".to_string()]);
    assert_eq!(o.pattern, None);
    assert_eq!(o.is_glob, Some(false));
    assert!(!o.hidden && !o.no_ignore && !o.case_sensitive);
    assert!(o.file_type.is_none() && o.extension.is_none());
    assert!(o.max_depth.is_none() && o.exclude.is_none());
}

#[test]
fn extension_filter_matches_ignoring_case() {
    let exts = vec!["rs".to_string(), "TOML".to_string()];
    assert!(FdSearch::check_extension("src/main.RS", &exts));
    assert!(FdSearch::check_extension("Cargo.toml", &exts));
    assert!(!FdSearch::check_extension("a.txt", &exts));
    assert!(!FdSearch::check_extension("no_extension", &exts));
    assert!(!FdSearch::check_extension("dir.rs/file", &exts));
}

#[test]
fn glob_conversion_escapes_and_anchors() {
    assert_eq!(FdSearch::glob_to_regex("*.rs"), "^.*\\.rs$");
    assert_eq!(FdSearch::glob_to_regex("a?c"), "^a.c$");
    assert_eq!(FdSearch::glob_to_regex("x[1]"), "^x\\[1\\]$");
    assert_eq!(FdSearch::glob_to_regex("a+b|c"), "^a\\+b\\|c$");
}

#[test]
fn package_summary_extracts_declared_fields() {
    let manifest = JsonValue::Object(vec![
        ("windowId".to_string(), JsonValue::Str("p1".to_string())),
        ("title".to_string(), JsonValue::Str("My Plugin".to_string())),
        ("version".to_string(), JsonValue::Str("1.2.3".to_string())),
        (
            "tags".to_string(),
            JsonValue::Array(vec![
                JsonValue::Str("tool".to_string()),
                JsonValue::Int(5),
                JsonValue::Str("misc".to_string()),
            ]),
        ),
        (
            "size".to_string(),
            JsonValue::Array(vec![JsonValue::Int(1024), JsonValue::Int(-3)]),
        ),
        ("position".to_string(), JsonValue::Array(vec![JsonValue::Int(10)])),
        ("alwaysOnTop".to_string(), JsonValue::Bool(true)),
    ]);
    let summary = summarize_package(&manifest, 4096);
    assert!(matches!(get_field(&summary, "success"), Some(JsonValue::Bool(true))));
    assert!(matches!(get_field(&summary, "size"), Some(JsonValue::Int(4096))));
    let info = get_field(&summary, "pluginInfo").unwrap();
    assert_eq!(as_str(&get_field(&info, "windowId").unwrap()), "p1");
    assert_eq!(as_str(&get_field(&info, "name").unwrap()), "My Plugin");
    assert_eq!(as_str(&get_field(&info, "description").unwrap()), "");
    assert_eq!(as_str(&get_field(&info, "version").unwrap()), "1.2.3");
    assert!(matches!(get_field(&info, "author"), Some(JsonValue::Null)));
    match get_field(&info, "tags").unwrap() {
        JsonValue::Array(tags) => {
            assert_eq!(tags.len(), 2);
            assert_eq!(as_str(&tags[0]), "tool");
            assert_eq!(as_str(&tags[1]), "misc");
        }
        other => panic!("expected an array of tags, got {:?}", other),
    }
    match get_field(&info, "size").unwrap() {
        JsonValue::Array(wh) => {
            assert!(matches!(wh[0], JsonValue::Int(1024)));
            assert!(matches!(wh[1], JsonValue::Int(600)));
        }
        other => panic!("expected a size array, got {:?}", other),
    }
    match get_field(&info, "position").unwrap() {
        JsonValue::Array(xy) => {
            assert!(matches!(xy[0], JsonValue::Int(-1)));
            assert!(matches!(xy[1], JsonValue::Int(-1)));
        }
        other => panic!("expected a position array, got {:?}", other),
    }
    assert!(matches!(get_field(&info, "alwaysOnTop"), Some(JsonValue::Bool(true))));
    assert!(matches!(get_field(&info, "resizable"), Some(JsonValue::Null)));
}

#[test]
fn scenario_install_then_sync_registers_the_plugin() {
    // a valid package downloaded for window id abc123
    let mut w = zip::write::ZipWriter::new(Cursor::new(Vec::new()));
    let opts = SimpleFileOptions::default();
    w.start_file("index.html", opts).unwrap();
    w.write_all(b"<html></html>").unwrap();
    w.start_file("mhPlugin.json", opts).unwrap();
    w.write_all(b"{\"windowId\":\"abc123\"}").unwrap();
    let bytes = w.finish().unwrap().into_inner();

    let plan = plan_install("/data/Plugin", "abc123", bytes).unwrap();
    assert_eq!(plan.target_dir, "/data/Plugin/abc123");
    let written: Vec<&String> = plan
        .ops
        .iter()
        .map(|op| match op {
            FsOp::WriteFile { path, .. } => path,
            FsOp::MakeDir { path } => path,
        })
        .collect();
    assert_eq!(
        written,
        vec!["/data/Plugin/abc123/index.html", "/data/Plugin/abc123/mhPlugin.json"]
    );

    // the next synchronization pass sees the extracted directory
    let manifest = JsonValue::Object(vec![(
        "windowId".to_string(),
        JsonValue::Str("abc123".to_string()),
    )]);
    let c = Candidate {
        name: "abc123".to_string(),
        is_dir: true,
        has_index: true,
        manifest: Some(manifest),
        init: None,
    };
    let mut reg = Registry::new();
    let sync_plan = plan_sync(&reg.ids(), &vec![c], "/data/Plugin");
    reg.apply_plan(&sync_plan);
    assert_eq!(reg.ids(), vec!["abc123".to_string()]);
    let url = get_field(&reg.rows[0].data, "url").unwrap();
    assert_eq!(as_str(&url), "/data/Plugin/abc123/index.html");
}

#[test]
fn network_error_carries_status_and_body() {
    let e = myhelper_core::package::network_error("404 Not Found", "gone");
    match e {
        AppError::Network(m) => {
            assert_eq!(m, "download failed with status 404 Not Found: gone")
        }
        other => panic!("expected Network, got {:?}", other),
    }
}

#[test]
fn uninstall_requires_existing_directory() {
    let e = plan_uninstall("/data/Plugin", "p1", false).unwrap_err();
    assert!(matches!(e, AppError::NotFound(_)));
    let p = plan_uninstall("/data/Plugin", "p1", true).unwrap();
    assert_eq!(p, "/data/Plugin/p1");
    let e2 = plan_uninstall("/data/Plugin", "bad id", true).unwrap_err();
    assert!(matches!(e2, AppError::InvalidIdentifier(_)));
}
