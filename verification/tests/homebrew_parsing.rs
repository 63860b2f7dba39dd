//! The Homebrew parsers, on concrete outputs: the outdated report, the
//! plain versions listing, the structured JSON listing, the count and the
//! search output.

use updater_core::error::CoreError;
use updater_core::homebrew::HomebrewManager;
use updater_core::{CmdOutput, PackageManagerType};

#[test]
fn test_parse_name_and_version() {
    assert_eq!(
        HomebrewManager::parse_name_and_version("git (2.43.0)"),
        Some(("git".to_string(), "2.43.0".to_string()))
    );

    assert_eq!(
        HomebrewManager::parse_name_and_version("node (20.11.0)"),
        Some(("node".to_string(), "20.11.0".to_string()))
    );

    assert_eq!(
        HomebrewManager::parse_name_and_version("python@3.12 (3.12.1)"),
        Some(("python@3.12".to_string(), "3.12.1".to_string()))
    );

    assert_eq!(
        HomebrewManager::parse_name_and_version("my package (1.0.0)"),
        Some(("my package".to_string(), "1.0.0".to_string()))
    );

    assert_eq!(HomebrewManager::parse_name_and_version("invalid"), None);
    assert_eq!(HomebrewManager::parse_name_and_version("git 2.43.0"), None);
}

#[test]
fn outdated_lines_become_updates() {
    let out = "git (2.43.0) < 2.44.0\nnode (20.11.0) < 20.11.1\ngit 2.43.0\n\n";
    let updates = HomebrewManager::parse_outdated_output(out);
    assert_eq!(updates.len(), 2);
    assert_eq!(updates[0].name, "git");
    assert_eq!(updates[0].current_version, "2.43.0");
    assert_eq!(updates[0].new_version, "2.44.0");
    assert_eq!(updates[1].name, "node");
    assert!(HomebrewManager::parse_outdated_output("").is_empty());
}

#[test]
fn version_query_takes_last_token() {
    let ok = CmdOutput {
        ok: true,
        stdout: String::from("git 2.42.0 2.43.0\n"),
        stderr: String::new(),
    };
    assert_eq!(HomebrewManager::current_version_from("git", &ok).unwrap(), "2.43.0");

    let failed = CmdOutput { ok: false, stdout: String::new(), stderr: String::new() };
    match HomebrewManager::current_version_from("git", &failed) {
        Err(CoreError::UnknownError(m)) => assert_eq!(m, "brew list --versions git failed"),
        _ => panic!("a failed invocation must be reported"),
    }

    let empty = CmdOutput { ok: true, stdout: String::from("  \n"), stderr: String::new() };
    match HomebrewManager::current_version_from("git", &empty) {
        Err(CoreError::UnknownError(m)) => assert_eq!(m, "Package git not found"),
        _ => panic!("an empty answer must be reported"),
    }

    let single = CmdOutput { ok: true, stdout: String::from("git\n"), stderr: String::new() };
    match HomebrewManager::current_version_from("git", &single) {
        Err(CoreError::UnknownError(m)) => assert_eq!(m, "Failed to parse version"),
        _ => panic!("a one-token answer must be reported"),
    }
}

#[test]
fn versions_listing_and_fallback_records() {
    let out = "git 2.42.0 2.43.0\nnode 20.11.0\nodd\n";
    let entries = HomebrewManager::parse_versions_listing(out);
    assert_eq!(entries.len(), 2);
    assert_eq!(entries[0], ("git".to_string(), "2.43.0".to_string()));
    assert_eq!(entries[1], ("node".to_string(), "20.11.0".to_string()));
    assert!(HomebrewManager::parse_versions_listing("").is_empty());

    let records = HomebrewManager::installed_from_versions(&entries);
    assert_eq!(records.len(), 2);
    assert_eq!(records[0].name, "git");
    assert_eq!(records[0].version, "2.43.0");
    assert_eq!(records[0].source, PackageManagerType::Homebrew);
}

#[test]
fn json_listing_covers_formulae_and_casks() {
    let json = "{\"formulae\": [ {\"name\": \"git\", \"versions\": {\"stable\": \"2.43.0\"}, \"desc\": \"vcs\", \"homepage\": \"https://example.invalid/git\"} ], \"casks\": [ {\"token\": \"firefox\", \"version\": \"120.0\"} ]}";
    let packages = HomebrewManager::packages_from_json_str(json).unwrap();
    assert_eq!(packages.len(), 2);
    assert_eq!(packages[0].name, "git");
    assert_eq!(packages[0].version, "2.43.0");
    assert_eq!(packages[0].description.as_deref(), Some("vcs"));
    assert_eq!(packages[0].homepage.as_deref(), Some("https://example.invalid/git"));
    assert_eq!(packages[1].name, "firefox");
    assert_eq!(packages[1].version, "120.0");

    match HomebrewManager::packages_from_json_str("not json") {
        Err(CoreError::SerializationError(_)) => {}
        _ => panic!("an undecodable document must be reported"),
    }
}

#[test]
fn count_is_nonblank_lines() {
    let out = CmdOutput {
        ok: true,
        stdout: String::from("git\nnode\n\n  \npython\n"),
        stderr: String::new(),
    };
    assert_eq!(HomebrewManager::count_from_list_output(&out), 3);
    let failed = CmdOutput { ok: false, stdout: String::from("git\n"), stderr: String::new() };
    assert_eq!(HomebrewManager::count_from_list_output(&failed), 0);
}

#[test]
fn search_lines_become_uninstalled_records() {
    let out = "==> Formulae\ngit\ngit-lfs\n\n";
    let r = HomebrewManager::search_results(out);
    assert_eq!(r.len(), 2);
    assert_eq!(r[0].name, "git");
    assert_eq!(r[0].version, "Not Installed");
    assert_eq!(r[1].name, "git-lfs");
    assert!(HomebrewManager::search_results("").is_empty());
}

#[test]
fn brew_updates_listing_failure_is_reported() {
    let failed = CmdOutput { ok: false, stdout: String::new(), stderr: String::new() };
    match HomebrewManager::updates_from_output(&failed) {
        Err(CoreError::UnknownError(m)) => assert_eq!(m, "brew outdated --verbose failed"),
        _ => panic!("a failed updates listing must be reported"),
    }
    let ok = CmdOutput {
        ok: true,
        stdout: "git (2.43.0) < 2.44.0\n".to_string(),
        stderr: String::new(),
    };
    assert_eq!(HomebrewManager::updates_from_output(&ok).unwrap().len(), 1);
}

#[test]
fn failing_brew_search_yields_empty_set() {
    let failed = CmdOutput { ok: false, stdout: "git\n".to_string(), stderr: String::new() };
    assert!(HomebrewManager::search_from(&failed).is_empty());
    let ok = CmdOutput { ok: true, stdout: "git\n".to_string(), stderr: String::new() };
    assert_eq!(HomebrewManager::search_from(&ok).len(), 1);
}

#[test]
fn brew_batch_steps_report_stderr() {
    let bad = CmdOutput { ok: false, stdout: String::new(), stderr: String::from("nope") };
    match HomebrewManager::uninstall_step("git", &bad) {
        Err(CoreError::UnknownError(m)) => assert_eq!(m, "brew uninstall failed for git: nope"),
        _ => panic!("a failed step must be reported"),
    }
    match HomebrewManager::upgrade_step("git", &bad) {
        Err(CoreError::UnknownError(m)) => assert_eq!(m, "brew upgrade failed for git: nope"),
        _ => panic!("a failed step must be reported"),
    }
    match HomebrewManager::install_step("git", &bad) {
        Err(CoreError::UnknownError(m)) => assert_eq!(m, "brew install failed for git: nope"),
        _ => panic!("a failed step must be reported"),
    }
}
