//! The `cargo install --list` parser and the Cargo backend's decision
//! functions, on concrete listings.

use updater_core::cargo::{CargoManager, InstalledCrate};
use updater_core::error::CoreError;
use updater_core::{CmdOutput, PackageManagerType};

#[test]
fn test_parse_cargo_install_list() {
    let input = r#"
bluetui v0.8.0:
    bluetui
cargo-chef v0.1.73:
    cargo-chef
cargo-deb v3.6.2:
    cargo-deb
cargo-generate-rpm v0.20.0:
    cargo-generate-rpm
cargo-update v18.0.0:
    cargo-install-update
    cargo-install-update-config
fnm v1.38.1:
    fnm
hyprshell v4.8.1 (/home/ayi/Downloads/hyprshell):
    hyprshell
sea-orm-cli v1.1.19:
    sea
    sea-orm-cli
starship v1.24.2:
    starship
"#;

    let crates = CargoManager::parse_cargo_install_list(input);
    assert_eq!(crates.len(), 8);
    assert_eq!(crates[0].name, "bluetui");
    assert_eq!(crates[0].version, "0.8.0");
    assert_eq!(crates[0].bins, vec!["bluetui"]);

    assert_eq!(crates[4].name, "cargo-update");
    assert_eq!(crates[4].version, "18.0.0");
    assert_eq!(
        crates[4].bins,
        vec!["cargo-install-update", "cargo-install-update-config"]
    );

    assert_eq!(crates[6].name, "sea-orm-cli");
    assert_eq!(crates[6].version, "1.1.19");
    assert_eq!(crates[6].bins, vec!["sea", "sea-orm-cli"]);
}

#[test]
fn test_parse_empty_list() {
    let input = "";
    let crates = CargoManager::parse_cargo_install_list(input);
    assert_eq!(crates.len(), 0);
}

#[test]
fn test_parse_single_crate() {
    let input = "cargo-watch v8.5.2:\n    cargo-watch\n";
    let crates = CargoManager::parse_cargo_install_list(input);
    assert_eq!(crates.len(), 1);
    assert_eq!(crates[0].name, "cargo-watch");
    assert_eq!(crates[0].version, "8.5.2");
    assert_eq!(crates[0].bins, vec!["cargo-watch"]);
}

#[test]
fn test_parse_crate_with_multiple_bins() {
    let input = r#"tokio-console v0.1.12:
    tokio-console
    tokio-console-subscriber
    tokio-console-recorder
"#;
    let crates = CargoManager::parse_cargo_install_list(input);
    assert_eq!(crates.len(), 1);
    assert_eq!(crates[0].name, "tokio-console");
    assert_eq!(crates[0].version, "0.1.12");
    assert_eq!(
        crates[0].bins,
        vec![
            "tokio-console",
            "tokio-console-subscriber",
            "tokio-console-recorder"
        ]
    );
}

#[test]
fn test_parse_local_path_crate_ignored() {
    let input = "my-tool v1.0.0 (/home/user/projects/my-tool):\n    my-tool\n";
    let crates = CargoManager::parse_cargo_install_list(input);
    assert_eq!(crates.len(), 0, "a crate installed from a local path is excluded");
}

#[test]
fn test_parse_mixed_crates() {
    let input = r#"cargo-watch v8.5.2:
    cargo-watch
local-tool v1.0.0 (/home/user/local-tool):
    local-tool
ripgrep v14.1.0:
    rg
"#;
    let crates = CargoManager::parse_cargo_install_list(input);
    assert_eq!(crates.len(), 2, "only crates that do not come from a local path are kept");
    assert_eq!(crates[0].name, "cargo-watch");
    assert_eq!(crates[1].name, "ripgrep");
}

#[test]
fn list_parsing_is_idempotent() {
    let input = "cargo-watch v8.5.2:\n    cargo-watch\nripgrep v14.1.0:\n    rg\n";
    let a = CargoManager::parse_cargo_install_list(input);
    let b = CargoManager::parse_cargo_install_list(input);
    assert_eq!(a.len(), b.len());
    for (x, y) in a.iter().zip(b.iter()) {
        assert_eq!(x.name, y.name);
        assert_eq!(x.version, y.version);
        assert_eq!(x.bins, y.bins);
    }
}

#[test]
fn installed_from_output_reports_failure() {
    let out = CmdOutput { ok: false, stdout: String::new(), stderr: String::new() };
    match CargoManager::installed_from_output(&out) {
        Err(CoreError::UnknownError(m)) => assert_eq!(m, "cargo install --list failed"),
        _ => panic!("a failed invocation must be reported"),
    }
    let ok = CmdOutput {
        ok: true,
        stdout: String::from("fnm v1.38.1:\n    fnm\n"),
        stderr: String::new(),
    };
    let crates = CargoManager::installed_from_output(&ok).unwrap();
    assert_eq!(crates.len(), 1);
    assert_eq!(crates[0].name, "fnm");
}

#[test]
fn current_version_found_and_missing() {
    let list = vec![
        InstalledCrate {
            name: String::from("fnm"),
            version: String::from("1.38.1"),
            bins: vec![String::from("fnm")],
        },
    ];
    assert_eq!(
        CargoManager::current_version_from_list(&list, "fnm").unwrap(),
        "1.38.1"
    );
    match CargoManager::current_version_from_list(&list, "absent") {
        Err(CoreError::UnknownError(m)) => assert_eq!(m, "Package absent not installed"),
        _ => panic!("a missing crate must be reported"),
    }
}

#[test]
fn update_for_crate_filters_equal_versions() {
    let c = InstalledCrate {
        name: String::from("fnm"),
        version: String::from("1.38.1"),
        bins: vec![String::from("fnm")],
    };
    assert!(CargoManager::update_for_crate(&c, None).is_none());
    assert!(CargoManager::update_for_crate(&c, Some(String::from("1.38.1"))).is_none());
    let u = CargoManager::update_for_crate(&c, Some(String::from("1.39.0"))).unwrap();
    assert_eq!(u.name, "fnm");
    assert_eq!(u.current_version, "1.38.1");
    assert_eq!(u.new_version, "1.39.0");
}

#[test]
fn search_url_escapes_spaces() {
    assert_eq!(
        CargoManager::search_url("two words"),
        "https://crates.io/api/v1/crates?page=1&per_page=10&q=two%20words"
    );
    assert_eq!(
        CargoManager::crate_info_url("serde"),
        "https://crates.io/api/v1/crates/serde"
    );
}

#[test]
fn registry_json_extraction() {
    let body = "{\"crate\": {\"max_version\": \"1.0.219\", \"description\": \"serialization\", \"repository\": \"https://example.invalid/serde\"}}";
    assert_eq!(
        CargoManager::latest_version_from_json(body, "serde").unwrap(),
        "1.0.219"
    );
    let (desc, home) = CargoManager::crate_info_from_json(body);
    assert_eq!(desc.unwrap(), "serialization");
    assert_eq!(home.unwrap(), "https://example.invalid/serde");

    match CargoManager::latest_version_from_json("{}", "serde") {
        Err(CoreError::UnknownError(m)) => {
            assert_eq!(m, "Version info not found for crate serde")
        }
        _ => panic!("a missing max_version must be reported"),
    }
    assert!(matches!(
        CargoManager::latest_version_from_json("not json", "serde"),
        Err(CoreError::SerializationError(_))
    ));
    assert_eq!(CargoManager::crate_info_from_json("not json"), (None, None));
}

#[test]
fn registry_response_decisions() {
    match CargoManager::latest_version_from_response("serde", false, "") {
        Err(CoreError::UnknownError(m)) => {
            assert_eq!(m, "Failed to fetch crate info for serde")
        }
        _ => panic!("a failed fetch must be reported"),
    }
    assert_eq!(CargoManager::crate_info_from_response(false, ""), (None, None));
    let empty = CargoManager::search_results_from_response(false, "").unwrap();
    assert!(empty.is_empty(), "a failed search yields an empty result set");
}

#[test]
fn search_results_json_extraction() {
    let body =
        "{\"crates\": [ {\"name\": \"eza\", \"max_version\": \"0.20.0\"}, {\"name\": \"incomplete\"} ]}";
    let r = CargoManager::search_results_from_json(body).unwrap();
    assert_eq!(r.len(), 1);
    assert_eq!(r[0].name, "eza");
    assert_eq!(r[0].version, "0.20.0");
    assert_eq!(r[0].source, PackageManagerType::Cargo);
    assert!(matches!(
        CargoManager::search_results_from_json("not json"),
        Err(CoreError::SerializationError(_))
    ));
}

#[test]
fn batch_steps_report_stderr() {
    let bad = CmdOutput {
        ok: false,
        stdout: String::new(),
        stderr: String::from("no such crate"),
    };
    match CargoManager::install_step("xyz", &bad) {
        Err(CoreError::UnknownError(m)) => {
            assert_eq!(m, "cargo install failed for xyz: no such crate")
        }
        _ => panic!("a failed step must be reported"),
    }
    match CargoManager::update_step("xyz", &bad) {
        Err(CoreError::UnknownError(m)) => {
            assert_eq!(m, "cargo install --force failed for xyz: no such crate")
        }
        _ => panic!("a failed step must be reported"),
    }
    match CargoManager::uninstall_step("xyz", &bad) {
        Err(CoreError::UnknownError(m)) => {
            assert_eq!(m, "cargo uninstall failed for xyz: no such crate")
        }
        _ => panic!("a failed step must be reported"),
    }
    let good = CmdOutput { ok: true, stdout: String::new(), stderr: String::new() };
    assert!(CargoManager::install_step("xyz", &good).is_ok());
}
