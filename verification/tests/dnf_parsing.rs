//! The DNF parsers, on concrete outputs: the upgrade-check report with
//! duplicate suppression, the installed listing with its optional fields,
//! the count pipeline and the catalog search.

use updater_core::dnf::{CountStep, DnfManager, UpdateCandidate};
use updater_core::error::CoreError;
use updater_core::{count_from_listing, CmdOutput, PackageManagerType};

#[test]
fn update_report_strips_arch_and_suppresses_duplicates() {
    let out = "Updating and loading repositories:\nRepositories loaded.\n\
cosmic-app-library.x86_64  1.0.6-1.fc43  copr:library\n\
cosmic-app-library.i686  1.0.6-1.fc43  fedora\n\
bash.x86_64  5.2.26-3.fc43  updates\n\n";
    let candidates = DnfManager::parse_update_report(out);
    assert_eq!(candidates.len(), 2, "the same name from two repositories yields one candidate");
    assert_eq!(candidates[0].name, "cosmic-app-library");
    assert_eq!(candidates[0].new_version, "1.0.6-1.fc43");
    assert_eq!(candidates[1].name, "bash");
    assert!(DnfManager::parse_update_report("").is_empty());
}

#[test]
fn update_resolution_degrades_to_unknown() {
    let c = UpdateCandidate {
        name: "bash".to_string(),
        new_version: "5.2.26-3.fc43".to_string(),
    };
    let u = DnfManager::resolve_update(&c, Some("5.2.26-2.fc43".to_string())).unwrap();
    assert_eq!(u.name, "bash");
    assert_eq!(u.current_version, "5.2.26-2.fc43");
    assert_eq!(u.new_version, "5.2.26-3.fc43");
    let v = DnfManager::resolve_update(&c, None).unwrap();
    assert_eq!(v.current_version, "unknown");
}

#[test]
fn update_resolution_drops_false_positives() {
    let c = UpdateCandidate {
        name: "bash".to_string(),
        new_version: "5.2.26-3.fc43".to_string(),
    };
    assert!(
        DnfManager::resolve_update(&c, Some("5.2.26-3.fc43".to_string())).is_none(),
        "an offered version equal to the installed one is no update"
    );
}

#[test]
fn version_query_trims_or_reports_not_found() {
    let ok = CmdOutput { ok: true, stdout: "5.2.26-3.fc43\n".to_string(), stderr: String::new() };
    assert_eq!(DnfManager::current_version_from("bash", &ok).unwrap(), "5.2.26-3.fc43");
    let bad = CmdOutput { ok: false, stdout: String::new(), stderr: String::new() };
    match DnfManager::current_version_from("bash", &bad) {
        Err(CoreError::ParseError(m)) => assert_eq!(m, "Package bash not found"),
        _ => panic!("a missing package must be reported as a parse error"),
    }
}

#[test]
fn installed_rows_read_optional_fields() {
    let out = "bash\t5.2.26-3.fc43\tThe shell\t1234567\t0\thttps://example.invalid/bash\n\
stub\t1.0\t(none)\t(none)\t(none)\t(none)\nshort\n";
    let listing = CmdOutput { ok: true, stdout: out.to_string(), stderr: String::new() };
    let packages = DnfManager::list_installed_from(&listing).unwrap();
    assert_eq!(packages.len(), 2);
    assert_eq!(packages[0].name, "bash");
    assert_eq!(packages[0].version, "5.2.26-3.fc43");
    assert_eq!(packages[0].description.as_deref(), Some("The shell"));
    assert_eq!(packages[0].size, Some(1234567));
    assert_eq!(
        packages[0].install_date.as_deref(),
        Some("1970-01-01 00:00:00"),
        "epoch zero renders to the epoch instant"
    );
    assert_eq!(packages[0].homepage.as_deref(), Some("https://example.invalid/bash"));
    assert_eq!(packages[0].source, PackageManagerType::Dnf);
    assert_eq!(packages[1].description, None);
    assert_eq!(packages[1].size, None);
    assert_eq!(packages[1].install_date, None);
    assert_eq!(packages[1].homepage, None);

    let empty = CmdOutput { ok: true, stdout: String::new(), stderr: String::new() };
    assert!(DnfManager::list_installed_from(&empty).unwrap().is_empty());

    let failed = CmdOutput { ok: false, stdout: String::new(), stderr: String::new() };
    match DnfManager::list_installed_from(&failed) {
        Err(CoreError::UnknownError(m)) => assert_eq!(m, "rpm -qa failed"),
        _ => panic!("a failed query must be reported"),
    }
}

#[test]
fn listing_twice_gives_equal_collections() {
    let out = "bash\t5.2\nzsh\t5.9\n";
    let a = CmdOutput { ok: true, stdout: out.to_string(), stderr: String::new() };
    let first = DnfManager::list_installed_from(&a).unwrap();
    let second = DnfManager::list_installed_from(&a).unwrap();
    assert_eq!(first.len(), second.len());
    for (x, y) in first.iter().zip(second.iter()) {
        assert_eq!(x.name, y.name);
        assert_eq!(x.version, y.version);
    }
}

#[test]
fn fast_count_falls_back_to_listing_length() {
    assert_eq!(DnfManager::parse_count_output(" 2891 \n").unwrap(), 2891);
    match DnfManager::parse_count_output("garbage") {
        Err(CoreError::ParseError(m)) => assert_eq!(m, "Failed to parse count"),
        _ => panic!("an unreadable count must be reported"),
    }

    let fast = CmdOutput { ok: true, stdout: " 42 \n".to_string(), stderr: String::new() };
    match DnfManager::count_step(&fast) {
        CountStep::Counted(n) => assert_eq!(n, 42),
        _ => panic!("a parsed count must be returned"),
    }
    let broken = CmdOutput { ok: true, stdout: "nope".to_string(), stderr: String::new() };
    assert!(matches!(DnfManager::count_step(&broken), CountStep::Failed(_)));
    let failed = CmdOutput { ok: false, stdout: String::new(), stderr: String::new() };
    assert!(
        matches!(DnfManager::count_step(&failed), CountStep::ListAndCount),
        "a failed pipeline sends the caller to the listing"
    );

    // The fast pipeline exited non-zero, so the caller lists and counts.
    let listing = CmdOutput {
        ok: true,
        stdout: "bash\t5.2\nzsh\t5.9\ncoreutils\t9.4\n".to_string(),
        stderr: String::new(),
    };
    let packages = DnfManager::list_installed_from(&listing).unwrap();
    assert_eq!(count_from_listing(&packages), packages.len());
    assert_eq!(count_from_listing(&packages), 3);
}

#[test]
fn search_names_skip_continuations_and_sections() {
    let out = "bash.x86_64 : The GNU Bourne Again shell\n\
= Name matches =\n\
continuation text : with spaces before the colon\n\
bash-completion.noarch : Programmable completion\nno colon line\n";
    let names = DnfManager::parse_search_output(out);
    assert_eq!(names, vec!["bash", "bash-completion"]);
    assert!(DnfManager::parse_search_output("").is_empty());
}

#[test]
fn search_records_normalize_unknown_versions() {
    let a = DnfManager::search_info("bash".to_string(), Some("5.2.26".to_string()));
    assert_eq!(a.version, "5.2.26");
    let b = DnfManager::search_info("bash".to_string(), Some("unknown".to_string()));
    assert_eq!(b.version, "");
    let c = DnfManager::search_info("bash".to_string(), None);
    assert_eq!(c.version, "");
    assert_eq!(c.source, PackageManagerType::Dnf);
}

#[test]
fn failing_search_yields_empty_set() {
    let failed = CmdOutput { ok: false, stdout: "bash.x86_64 : shell\n".to_string(), stderr: String::new() };
    assert!(DnfManager::search_names_from(&failed).is_empty());
    let ok = CmdOutput { ok: true, stdout: "bash.x86_64 : shell\n".to_string(), stderr: String::new() };
    assert_eq!(DnfManager::search_names_from(&ok), vec!["bash"]);
}

#[test]
fn batch_args_carry_every_name() {
    let names = vec!["bash".to_string(), "zsh".to_string()];
    assert_eq!(
        DnfManager::batch_args("/usr/bin/dnf5", "remove", &names),
        vec!["/usr/bin/dnf5", "remove", "-y", "bash", "zsh"]
    );
    assert_eq!(DnfManager::batch_args("dnf", "install", &[]), vec!["dnf", "install", "-y"]);
}

#[test]
fn dnf_batch_results_report_stderr() {
    let bad = CmdOutput { ok: false, stdout: String::new(), stderr: "denied".to_string() };
    match DnfManager::remove_result(&bad) {
        Err(CoreError::UnknownError(m)) => assert_eq!(m, "pkexec dnf remove failed: denied"),
        _ => panic!("a failed batch must be reported"),
    }
    match DnfManager::upgrade_result(&bad) {
        Err(CoreError::UnknownError(m)) => assert_eq!(m, "pkexec dnf upgrade failed: denied"),
        _ => panic!("a failed batch must be reported"),
    }
    match DnfManager::install_result(&bad) {
        Err(CoreError::UnknownError(m)) => assert_eq!(m, "pkexec dnf install failed: denied"),
        _ => panic!("a failed batch must be reported"),
    }
    let good = CmdOutput { ok: true, stdout: String::new(), stderr: String::new() };
    assert!(DnfManager::remove_result(&good).is_ok());
}
