//! The Go build-info extractors and the Go backend's decision functions,
//! on concrete texts.

use updater_core::error::CoreError;
use updater_core::go::GoManager;
use updater_core::{CmdOutput, PackageManagerType};

#[test]
fn test_extract_module_path() {
    let info = "/path/to/binary: go1.21.0\n\tpath\tgithub.com/user/myapp\n\tmod\tgithub.com/user/myapp\tv1.2.3\n";
    let module = GoManager::extract_module_path(info);
    assert_eq!(module, Some("github.com/user/myapp".to_string()));
}

#[test]
fn test_extract_version() {
    let info = "/path/to/binary: go1.21.0\n\tpath\tgithub.com/user/myapp\n\tmod\tgithub.com/user/myapp\tv1.2.3\n";
    let version = GoManager::extract_version(info);
    assert_eq!(version, Some("v1.2.3".to_string()));
}

#[test]
fn test_extract_version_with_suffix() {
    let info = "/path/to/binary: go1.21.0\n\tpath\tgithub.com/cli/cli/v2\n\tmod\tgithub.com/cli/cli/v2\tv2.40.1-pre.0\n";
    let version = GoManager::extract_version(info);
    assert_eq!(version, Some("v2.40.1-pre.0".to_string()));
}

#[test]
fn test_extract_module_path_none() {
    let info = "some random text without module path";
    let module = GoManager::extract_module_path(info);
    assert_eq!(module, None);
}

#[test]
fn test_extract_version_none() {
    let info = "some random text without version";
    let version = GoManager::extract_version(info);
    assert_eq!(version, None);
}

#[test]
fn package_from_build_info_excludes_pathless_binaries() {
    let info = "/path/to/binary: go1.21.0\n\tmod\texample.com/x\tv0.1.0\n";
    assert!(GoManager::package_from_build_info("x", info).is_none());

    let full = "bin: go1.21.0\n\tpath\texample.com/x\n\tmod\texample.com/x\tv0.1.0\n";
    let p = GoManager::package_from_build_info("x", full).unwrap();
    assert_eq!(p.name, "x");
    assert_eq!(p.version, "v0.1.0");
    assert_eq!(p.source, PackageManagerType::Go);

    let no_version = "bin: go1.21.0\n\tpath\texample.com/x\n\tmod\texample.com/x\t(devel)\n";
    let q = GoManager::package_from_build_info("x", no_version).unwrap();
    assert_eq!(q.version, "unknown");
}

#[test]
fn version_query_matches_module_or_binary() {
    let info = "bin: go1.21.0\n\tpath\texample.com/tool\n\tmod\texample.com/tool\tv2.0.0\n";
    assert_eq!(
        GoManager::version_if_matches("example.com/tool", "tool", info),
        Some("v2.0.0".to_string())
    );
    assert_eq!(
        GoManager::version_if_matches("tool", "tool", info),
        Some("v2.0.0".to_string())
    );
    assert_eq!(GoManager::version_if_matches("other", "tool", info), None);
}

#[test]
fn latest_version_is_last_listed() {
    let out = CmdOutput {
        ok: true,
        stdout: String::from("example.com/tool v1.0.0 v1.1.0 v2.0.0\n"),
        stderr: String::new(),
    };
    assert_eq!(GoManager::latest_version_from("example.com/tool", &out).unwrap(), "v2.0.0");

    let empty = CmdOutput { ok: true, stdout: String::new(), stderr: String::new() };
    assert_eq!(GoManager::latest_version_from("example.com/tool", &empty).unwrap(), "");

    let bad = CmdOutput { ok: false, stdout: String::new(), stderr: String::new() };
    match GoManager::latest_version_from("example.com/tool", &bad) {
        Err(CoreError::UnknownError(m)) => {
            assert_eq!(m, "Failed to get versions for package: example.com/tool")
        }
        _ => panic!("a failed listing must be reported"),
    }
}

#[test]
fn update_requires_differing_nonempty_latest() {
    assert!(GoManager::update_for_binary("tool", "v1.0.0", "v1.0.0").is_none());
    assert!(GoManager::update_for_binary("tool", "v1.0.0", "").is_none());
    let u = GoManager::update_for_binary("tool", "v1.0.0", "v1.1.0").unwrap();
    assert_eq!(u.name, "tool");
    assert_eq!(u.current_version, "v1.0.0");
    assert_eq!(u.new_version, "v1.1.0");
}

#[test]
fn install_target_and_binary_name() {
    assert_eq!(GoManager::install_target("example.com/tool"), "example.com/tool@latest");
    assert_eq!(GoManager::install_target("example.com/tool@v1.2.3"), "example.com/tool@v1.2.3");
    assert_eq!(GoManager::binary_name_of("example.com/user/tool"), "tool");
    assert_eq!(GoManager::binary_name_of("tool"), "tool");
}

#[test]
fn search_results_take_first_and_last_tokens() {
    let out = "example.com/tool v1.0.0 v1.1.0\nexample.com/other\n\n";
    let r = GoManager::search_results(out);
    assert_eq!(r.len(), 2);
    assert_eq!(r[0].name, "example.com/tool");
    assert_eq!(r[0].version, "v1.1.0");
    assert_eq!(r[1].name, "example.com/other");
    assert_eq!(r[1].version, "unknown");
    assert!(GoManager::search_results("").is_empty());
}

#[test]
fn failing_go_search_yields_empty_set() {
    let failed = CmdOutput {
        ok: false,
        stdout: "example.com/tool v1.0.0\n".to_string(),
        stderr: String::new(),
    };
    assert!(GoManager::search_from(&failed).is_empty());
    let ok = CmdOutput {
        ok: true,
        stdout: "example.com/tool v1.0.0\n".to_string(),
        stderr: String::new(),
    };
    assert_eq!(GoManager::search_from(&ok).len(), 1);
}

#[test]
fn remove_failure_message() {
    match GoManager::remove_failure("tool", "permission denied") {
        CoreError::UnknownError(m) => {
            assert_eq!(m, "Failed to remove Go binary tool: permission denied")
        }
        _ => panic!("unexpected error kind"),
    }
    match GoManager::install_step("tool", &CmdOutput {
        ok: false,
        stdout: String::new(),
        stderr: String::from("boom"),
    }) {
        Err(CoreError::UnknownError(m)) => assert_eq!(m, "go install failed for tool: boom"),
        _ => panic!("a failed step must be reported"),
    }
}
