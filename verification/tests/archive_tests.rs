use std::io::{Cursor, Write};
use zip::write::SimpleFileOptions;

use myhelper_core::archive::{find_manifest_data, install_archive, FsOp};
use myhelper_core::error::AppError;
use myhelper_core::install::plan_install;
use myhelper_core::package::{check_package_bytes, path_has_zip_extension, MAX_PACKAGE_SIZE};

fn make_zip(entries: &[(&str, &[u8])]) -> Vec<u8> {
    let mut w = zip::write::ZipWriter::new(Cursor::new(Vec::new()));
    let opts = SimpleFileOptions::default();
    for (name, data) in entries {
        w.start_file(*name, opts).unwrap();
        w.write_all(data).unwrap();
    }
    w.finish().unwrap().into_inner()
}

#[test]
fn zip_slip_entry_is_rejected_with_integrity() {
    let bytes = make_zip(&[
        ("index.html", b"<html></html>"),
        ("mhPlugin.json", b"{}"),
        ("../../evil.txt", b"evil"),
    ]);
    let e = install_archive(bytes, "/data/Plugin/p1").unwrap_err();
    match e {
        AppError::Integrity(m) => assert_eq!(m, "archive contains illegal path"),
        other => panic!("expected Integrity, got {:?}", other),
    }
}

#[test]
fn absolute_entry_path_is_rejected() {
    let bytes = make_zip(&[
        ("index.html", b"x"),
        ("mhPlugin.json", b"{}"),
        ("/etc/evil", b"evil"),
    ]);
    let e = install_archive(bytes, "/data/Plugin/p1").unwrap_err();
    assert!(matches!(e, AppError::Integrity(_)));
}

#[test]
fn missing_manifest_is_rejected_before_extraction() {
    let bytes = make_zip(&[("index.html", b"x")]);
    let e = install_archive(bytes, "/data/Plugin/p1").unwrap_err();
    match e {
        AppError::Validation(m) => assert_eq!(m, "missing required files: mhPlugin.json"),
        other => panic!("expected Validation, got {:?}", other),
    }
}

#[test]
fn missing_index_is_rejected_naming_it() {
    let bytes = make_zip(&[("mhPlugin.json", b"{}")]);
    let e = install_archive(bytes, "/data/Plugin/p1").unwrap_err();
    match e {
        AppError::Validation(m) => assert_eq!(m, "missing required files: index.html"),
        other => panic!("expected Validation, got {:?}", other),
    }
}

#[test]
fn missing_both_required_files_names_both() {
    let bytes = make_zip(&[("other.txt", b"x")]);
    let e = install_archive(bytes, "/data/Plugin/p1").unwrap_err();
    match e {
        AppError::Validation(m) => {
            assert_eq!(m, "missing required files: index.html, mhPlugin.json")
        }
        other => panic!("expected Validation, got {:?}", other),
    }
}

#[test]
fn valid_archive_extracts_exactly_its_entries() {
    let bytes = make_zip(&[
        ("index.html", b"<html>hello</html>"),
        ("mhPlugin.json", b"{\"windowId\":\"p1\"}"),
        ("assets/app.js", b"console.log(1)"),
    ]);
    let ops = install_archive(bytes, "/data/Plugin/p1").unwrap();
    assert_eq!(ops.len(), 3);
    match &ops[0] {
        FsOp::WriteFile { path, data } => {
            assert_eq!(path, "/data/Plugin/p1/index.html");
            assert_eq!(data.as_slice(), b"<html>hello</html>");
        }
        other => panic!("expected a file write, got {:?}", other),
    }
    match &ops[2] {
        FsOp::WriteFile { path, data } => {
            assert_eq!(path, "/data/Plugin/p1/assets/app.js");
            assert_eq!(data.as_slice(), b"console.log(1)");
        }
        other => panic!("expected a file write, got {:?}", other),
    }
}

#[test]
fn garbage_bytes_are_an_invalid_archive() {
    let e = install_archive(b"PK\x03\x04garbage".to_vec(), "/t").unwrap_err();
    assert!(matches!(e, AppError::Integrity(_)));
}

#[test]
fn package_guard_rejects_oversized_payload() {
    let bytes = vec![0u8; MAX_PACKAGE_SIZE + 1];
    let e = check_package_bytes(&bytes).unwrap_err();
    match e {
        AppError::Integrity(m) => assert_eq!(m, "plugin package is too large"),
        other => panic!("expected Integrity, got {:?}", other),
    }
}

#[test]
fn package_guard_rejects_non_zip_signature() {
    let e = check_package_bytes(&b"<html>error page</html>".to_vec()).unwrap_err();
    match e {
        AppError::Integrity(m) => assert_eq!(m, "payload is not a valid zip archive"),
        other => panic!("expected Integrity, got {:?}", other),
    }
}

#[test]
fn package_guard_accepts_real_zip_bytes() {
    let bytes = make_zip(&[("a.txt", b"x")]);
    assert!(check_package_bytes(&bytes).is_ok());
}

#[test]
fn zip_extension_check_is_case_insensitive() {
    assert!(path_has_zip_extension("plugin.zip"));
    assert!(path_has_zip_extension("/a/b/plugin.ZIP"));
    assert!(path_has_zip_extension("C:\\a\\plugin.Zip"));
    assert!(!path_has_zip_extension("plugin.tar.gz"));
    assert!(!path_has_zip_extension("plugin"));
    assert!(!path_has_zip_extension(".zip"));
    assert!(!path_has_zip_extension("a/.zip"));
}

#[test]
fn manifest_data_is_found_by_suffix() {
    let bytes = make_zip(&[
        ("index.html", b"x"),
        ("sub/mhPlugin.json", b"{\"windowId\":\"p\"}"),
    ]);
    let ops = install_archive(bytes, "/t").unwrap();
    let entries: Vec<myhelper_core::archive::ArchiveEntry> = ops
        .into_iter()
        .map(|op| match op {
            FsOp::WriteFile { path, data } => myhelper_core::archive::ArchiveEntry {
                name: path,
                is_dir: false,
                data,
            },
            FsOp::MakeDir { path } => myhelper_core::archive::ArchiveEntry {
                name: path,
                is_dir: true,
                data: Vec::new(),
            },
        })
        .collect();
    let data = find_manifest_data(&entries).unwrap();
    assert_eq!(data.as_slice(), b"{\"windowId\":\"p\"}");
}

#[test]
fn plan_install_happy_path() {
    let bytes = make_zip(&[
        ("index.html", b"<html></html>"),
        ("mhPlugin.json", b"{\"windowId\":\"abc123\"}"),
    ]);
    let plan = plan_install("/data/Plugin", "abc123", bytes).unwrap();
    assert_eq!(plan.target_dir, "/data/Plugin/abc123");
    assert_eq!(plan.ops.len(), 2);
}

#[test]
fn plan_install_rejects_bad_identifier_first() {
    let bytes = make_zip(&[("index.html", b"x"), ("mhPlugin.json", b"{}")]);
    let e = plan_install("/data/Plugin", "../evil", bytes).unwrap_err();
    assert!(matches!(e, AppError::InvalidIdentifier(_)));
}

#[test]
fn plan_install_rejects_oversized_package() {
    let bytes = vec![0u8; MAX_PACKAGE_SIZE + 1];
    let e = plan_install("/data/Plugin", "p1", bytes).unwrap_err();
    assert!(matches!(e, AppError::Integrity(_)));
}

#[test]
fn reinstall_fully_replaces_prior_contents() {
    // model the documented plan semantics: the target directory is cleared,
    // then the plan's writes are performed; no file of the previous
    // version may survive
    let old_install = make_zip(&[
        ("index.html", b"v1"),
        ("mhPlugin.json", b"{\"windowId\":\"p1\"}"),
        ("legacy.txt", b"old"),
    ]);
    let new_install = make_zip(&[
        ("index.html", b"v2"),
        ("mhPlugin.json", b"{\"windowId\":\"p1\"}"),
    ]);
    let target = "/data/Plugin/p1";
    let mut files: std::collections::BTreeMap<String, Vec<u8>> =
        std::collections::BTreeMap::new();
    files.insert("/data/other.txt".to_string(), b"keep".to_vec());
    for op in install_archive(old_install, target).unwrap() {
        if let FsOp::WriteFile { path, data } = op {
            files.insert(path, data);
        }
    }
    assert!(files.contains_key("/data/Plugin/p1/legacy.txt"));
    // second install into the same window id: clear the target, then write
    let prefix = format!("{target}/");
    files.retain(|path, _| !path.starts_with(&prefix));
    for op in install_archive(new_install, target).unwrap() {
        if let FsOp::WriteFile { path, data } = op {
            files.insert(path, data);
        }
    }
    assert!(!files.contains_key("/data/Plugin/p1/legacy.txt"));
    assert_eq!(files["/data/Plugin/p1/index.html"], b"v2".to_vec());
    assert_eq!(files["/data/other.txt"], b"keep".to_vec());
    assert_eq!(files.keys().filter(|k| k.starts_with(&prefix)).count(), 2);
}
