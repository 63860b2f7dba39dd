//! The Flatpak parsers, on concrete outputs: the two column listings, the
//! update join, the size table and the search heuristic.

use updater_core::error::CoreError;
use updater_core::flatpak::{AppVersion, FlatpakManager};
use updater_core::{CmdOutput, PackageManagerType};

#[test]
fn test_extract_version_and_branch() {
    let (v, b) = FlatpakManager::extract_version_and_branch(&[
        "5.2.9".to_string(),
        "stable".to_string(),
        "x86_64".to_string(),
        "fedora".to_string(),
    ]);
    assert_eq!(v, "5.2.9");
    assert_eq!(b, "stable");

    let (v, b) = FlatpakManager::extract_version_and_branch(&[
        "freedesktop-sdk-24.08.28".to_string(),
        "24.08".to_string(),
        "x86_64".to_string(),
        "flathub".to_string(),
    ]);
    assert_eq!(v, "freedesktop-sdk-24.08.28");
    assert_eq!(b, "24.08");

    let (v, b) = FlatpakManager::extract_version_and_branch(&[
        "24.08".to_string(),
        "x86_64".to_string(),
        "flathub".to_string(),
    ]);
    assert_eq!(v, "");
    assert_eq!(b, "24.08");

    let (v, b) = FlatpakManager::extract_version_and_branch(&[
        "f43".to_string(),
        "x86_64".to_string(),
        "fedora".to_string(),
    ]);
    assert_eq!(v, "");
    assert_eq!(b, "f43");

    let (v, b) = FlatpakManager::extract_version_and_branch(&[
        "stable".to_string(),
        "x86_64".to_string(),
        "flathub".to_string(),
    ]);
    assert_eq!(v, "");
    assert_eq!(b, "stable");
}

#[test]
fn size_table_reads_binary_multiples() {
    assert_eq!(FlatpakManager::parse_flatpak_size("1 B"), Some(1));
    assert_eq!(FlatpakManager::parse_flatpak_size("2 KB"), Some(2048));
    assert_eq!(FlatpakManager::parse_flatpak_size("2 kib"), Some(2048));
    assert_eq!(FlatpakManager::parse_flatpak_size("123.4 MB"), Some(129394278));
    assert_eq!(FlatpakManager::parse_flatpak_size("1.5 GiB"), Some(1610612736));
    assert_eq!(FlatpakManager::parse_flatpak_size("3 XB"), None);
    assert_eq!(FlatpakManager::parse_flatpak_size("big MB"), None);
    assert_eq!(FlatpakManager::parse_flatpak_size("12"), None);
    assert_eq!(FlatpakManager::parse_flatpak_size("1 2 MB"), None);
}

#[test]
fn installed_info_skips_heading_and_handles_column_counts() {
    let out = "Application ID\tVersion\tBranch\norg.example.App 5.2.9 stable\norg.example.Two 24.08\norg.example.Bare\n\n";
    let infos = FlatpakManager::parse_installed_info(out);
    assert_eq!(infos.len(), 3);
    assert_eq!(infos[0].app_id, "org.example.App");
    assert_eq!(infos[0].version, "5.2.9");
    assert_eq!(infos[0].branch, "stable");
    assert_eq!(infos[1].version, "");
    assert_eq!(infos[1].branch, "24.08");
    assert_eq!(infos[2].branch, "unknown");
    assert!(FlatpakManager::parse_installed_info("").is_empty());
}

#[test]
fn updates_join_installed_versions() {
    let installed = vec![
        AppVersion {
            app_id: "org.example.App".to_string(),
            version: "5.2.9".to_string(),
            branch: "stable".to_string(),
        },
        AppVersion {
            app_id: "org.example.Bare".to_string(),
            version: "".to_string(),
            branch: "24.08".to_string(),
        },
    ];
    let updates_out = "org.example.App\t5.3.0\tstable\norg.example.Bare\norg.example.New\t1.0\tbeta\norg.example.App\t5.2.9\tstable\n";
    let updates = FlatpakManager::list_updates_from(updates_out, &installed);
    assert_eq!(
        updates.len(),
        3,
        "a line offering the already-installed version is a false positive and is dropped"
    );
    assert_eq!(updates[0].name, "org.example.App");
    assert_eq!(updates[0].current_version, "5.2.9 (stable)");
    assert_eq!(updates[0].new_version, "5.3.0 (stable)");
    assert_eq!(updates[1].current_version, "branch: 24.08");
    assert_eq!(updates[1].new_version, "branch: unknown");
    assert_eq!(updates[2].current_version, "unknown");
    assert_eq!(updates[2].new_version, "1.0 (beta)");
    assert!(FlatpakManager::list_updates_from("", &installed).is_empty());
}

#[test]
fn rich_listing_parses_columns_and_sizes() {
    let out = "ID\tName\tVersion\tBranch\tSize\tOrigin\norg.example.App\tExample\t5.2.9\tstable\t123.4 MB\tflathub\norg.example.Bare\t\t\tbeta\n";
    let packages = FlatpakManager::parse_list_output(out);
    assert_eq!(packages.len(), 2);
    assert_eq!(packages[0].name, "org.example.App");
    assert_eq!(packages[0].version, "5.2.9 (stable)");
    assert_eq!(packages[0].description.as_deref(), Some("Example"));
    assert_eq!(packages[0].size, Some(129394278));
    assert_eq!(packages[0].source, PackageManagerType::Flatpak);
    assert_eq!(packages[1].version, "branch: beta");
    assert_eq!(packages[1].description, None);
    assert_eq!(packages[1].size, None);
    assert!(FlatpakManager::parse_list_output("").is_empty());
}

#[test]
fn fallback_records_from_plain_infos() {
    let infos = vec![AppVersion {
        app_id: "org.example.App".to_string(),
        version: "".to_string(),
        branch: "stable".to_string(),
    }];
    let records = FlatpakManager::installed_from_info(&infos);
    assert_eq!(records.len(), 1);
    assert_eq!(records[0].name, "org.example.App");
    assert_eq!(records[0].version, "branch: stable");
}

#[test]
fn version_query_combines_probes() {
    let version_ok = CmdOutput { ok: true, stdout: "5.2.9\n".to_string(), stderr: String::new() };
    let branch_ok = CmdOutput { ok: true, stdout: "stable\n".to_string(), stderr: String::new() };
    assert_eq!(
        FlatpakManager::current_version_from("org.example.App", &version_ok, &branch_ok).unwrap(),
        "5.2.9 (stable)"
    );

    let version_bad = CmdOutput { ok: false, stdout: String::new(), stderr: String::new() };
    assert_eq!(
        FlatpakManager::current_version_from("org.example.App", &version_bad, &branch_ok).unwrap(),
        "branch: stable"
    );

    let branch_bad = CmdOutput { ok: false, stdout: String::new(), stderr: String::new() };
    match FlatpakManager::current_version_from("org.example.App", &version_ok, &branch_bad) {
        Err(CoreError::UnknownError(m)) => assert_eq!(m, "Package org.example.App not found"),
        _ => panic!("a failed branch probe must be reported"),
    }
}

#[test]
fn search_heuristic_finds_dotted_token() {
    let out = "Name\tDescription\tApplication ID\tVersion\tBranch\tRemotes\nExample App  neat tool  org.example.App  5.2.9  stable  flathub\nOdd  row  org.x.Y  1.0  unknown  flathub\nshort row here\n";
    let r = FlatpakManager::search_results(out);
    assert_eq!(r.len(), 2);
    assert_eq!(r[0].name, "org.example.App");
    assert_eq!(r[0].version, "stable", "the second-to-last column is taken");
    assert_eq!(r[1].name, "org.x.Y");
    assert_eq!(r[1].version, "", "the literal unknown is normalized to empty");
    assert!(FlatpakManager::search_results("").is_empty());
}

#[test]
fn updates_listing_failure_is_reported() {
    let failed = CmdOutput { ok: false, stdout: String::new(), stderr: String::new() };
    match FlatpakManager::updates_from_output(&failed, &Vec::new()) {
        Err(CoreError::UnknownError(m)) => assert_eq!(m, "flatpak list --updates failed"),
        _ => panic!("a failed updates listing must be reported"),
    }
    let ok = CmdOutput {
        ok: true,
        stdout: "org.example.App\t9.9\tstable\n".to_string(),
        stderr: String::new(),
    };
    let updates = FlatpakManager::updates_from_output(&ok, &Vec::new()).unwrap();
    assert_eq!(updates.len(), 1);
    assert_eq!(updates[0].current_version, "unknown");
}

#[test]
fn failing_flatpak_search_yields_empty_set() {
    let failed = CmdOutput { ok: false, stdout: String::new(), stderr: String::new() };
    assert!(FlatpakManager::search_from(&failed).is_empty());
    let ok = CmdOutput {
        ok: true,
        stdout: "ID\tVersion\nApp  tool  org.example.App  5.2.9  stable  flathub\n".to_string(),
        stderr: String::new(),
    };
    assert_eq!(FlatpakManager::search_from(&ok).len(), 1);
}

#[test]
fn flatpak_batch_args_carry_every_name() {
    let names = vec!["org.example.App".to_string()];
    assert_eq!(
        FlatpakManager::batch_args("uninstall", &names),
        vec!["uninstall", "-y", "org.example.App"]
    );
}

#[test]
fn flatpak_batch_results_report_stderr() {
    let bad = CmdOutput { ok: false, stdout: String::new(), stderr: "denied".to_string() };
    match FlatpakManager::uninstall_result(&bad) {
        Err(CoreError::UnknownError(m)) => assert_eq!(m, "flatpak uninstall failed: denied"),
        _ => panic!("a failed batch must be reported"),
    }
    match FlatpakManager::update_result(&bad) {
        Err(CoreError::UnknownError(m)) => assert_eq!(m, "flatpak update failed: denied"),
        _ => panic!("a failed batch must be reported"),
    }
    match FlatpakManager::install_result(&bad) {
        Err(CoreError::UnknownError(m)) => assert_eq!(m, "flatpak install failed: denied"),
        _ => panic!("a failed batch must be reported"),
    }
    let good = CmdOutput { ok: true, stdout: String::new(), stderr: String::new() };
    assert!(FlatpakManager::install_result(&good).is_ok());
}
