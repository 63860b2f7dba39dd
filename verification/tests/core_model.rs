//! The shared data model: backend identities, the error surface, the
//! configuration lookups and the capability defaults.

use updater_core::config::{Config, PackageManagerConfig};
use updater_core::error::CoreError;
use updater_core::homebrew::HomebrewManager;
use updater_core::{count_from_listing, PackageManager, PackageManagerType, SortOption};

#[test]
fn backend_identity_labels() {
    assert_eq!(PackageManagerType::Dnf.name(), "DNF");
    assert_eq!(PackageManagerType::Flatpak.name(), "Flatpak");
    assert_eq!(PackageManagerType::Homebrew.name(), "Homebrew");
    assert_eq!(PackageManagerType::Cargo.name(), "Cargo");
    assert_eq!(PackageManagerType::Go.name(), "Go");
    assert!(PackageManagerType::Dnf.is_system_manager());
    assert!(!PackageManagerType::Cargo.is_system_manager());
    assert_eq!(PackageManagerType::Dnf.default_command(), "dnf");
    assert_eq!(PackageManagerType::Homebrew.default_command(), "brew");
    assert!(!PackageManagerType::Cargo.description().is_empty());
}

#[test]
fn error_messages_carry_their_kind() {
    assert_eq!(
        CoreError::CommandError("boom".to_string()).message(),
        "Failed to execute command: boom"
    );
    assert_eq!(CoreError::Utf8Error("bad".to_string()).message(), "Invalid UTF-8 output: bad");
    assert_eq!(CoreError::ParseError("odd".to_string()).message(), "Parse error: odd");
    assert_eq!(CoreError::UnknownError("why".to_string()).message(), "Unknown error: why");
    assert_eq!(
        CoreError::SerializationError("eof".to_string()).message(),
        "Serialization error: eof"
    );
    assert_eq!(CoreError::RequestError("net".to_string()).message(), "request error: net");
}

#[test]
fn package_path_prefers_system_then_first_app_entry() {
    let config = Config {
        system_manager: Some(PackageManagerConfig {
            manager_type: PackageManagerType::Dnf,
            custom_path: Some("/usr/bin/dnf5".to_string()),
        }),
        app_managers: vec![
            PackageManagerConfig {
                manager_type: PackageManagerType::Cargo,
                custom_path: None,
            },
            PackageManagerConfig {
                manager_type: PackageManagerType::Go,
                custom_path: Some("/opt/go/bin/go".to_string()),
            },
            PackageManagerConfig {
                manager_type: PackageManagerType::Go,
                custom_path: Some("/ignored/later/entry".to_string()),
            },
        ],
        go_bin_dir: None,
    };
    assert_eq!(
        config.get_package_path(PackageManagerType::Dnf).as_deref(),
        Some("/usr/bin/dnf5")
    );
    assert_eq!(config.get_package_path(PackageManagerType::Cargo), None);
    assert_eq!(
        config.get_package_path(PackageManagerType::Go).as_deref(),
        Some("/opt/go/bin/go"),
        "the first matching application entry wins"
    );
    assert_eq!(config.get_package_path(PackageManagerType::Flatpak), None);
}

#[test]
fn go_bin_dir_resolution_order() {
    let mut config = Config::default();
    assert_eq!(config.get_go_bin_dir(Some("/gobin"), Some("/gopath"), Some("/home/u")), "/gobin");
    assert_eq!(config.get_go_bin_dir(None, Some("/gopath"), Some("/home/u")), "/gopath/bin");
    assert_eq!(config.get_go_bin_dir(None, None, Some("/home/u")), "/home/u/go/bin");
    assert_eq!(config.get_go_bin_dir(None, None, None), "go/bin");
    config.go_bin_dir = Some("/custom".to_string());
    assert_eq!(config.get_go_bin_dir(Some("/gobin"), None, None), "/custom");
}

#[test]
fn detection_derives_from_availability() {
    let c = Config::detect_package_managers(true, false, true, true, false);
    assert_eq!(
        c.system_manager.as_ref().map(|m| m.manager_type),
        Some(PackageManagerType::Dnf)
    );
    let kinds: Vec<PackageManagerType> =
        c.app_managers.iter().map(|m| m.manager_type).collect();
    assert_eq!(kinds, vec![PackageManagerType::Homebrew, PackageManagerType::Cargo]);
    assert!(c.app_managers.iter().all(|m| m.custom_path.is_none()));
    assert!(c.go_bin_dir.is_none());

    let none = Config::detect_package_managers(false, false, false, false, false);
    assert!(none.system_manager.is_none());
    assert!(none.app_managers.is_empty());
}

#[test]
fn default_config_is_empty() {
    let config = Config::default();
    assert!(config.system_manager.is_none());
    assert!(config.app_managers.is_empty());
    assert!(config.go_bin_dir.is_none());
}

#[test]
fn capability_defaults_are_not_implemented_errors() {
    let config = Config::default();
    let manager = HomebrewManager;
    assert_eq!(manager.manager_type(), PackageManagerType::Homebrew);
    match manager.uninstall_package(&config, "git") {
        Err(CoreError::UnknownError(m)) => assert_eq!(m, "uninstall_package not implemented"),
        _ => panic!("the default must refuse"),
    }
    let names = vec!["git".to_string()];
    match manager.uninstall_packages(&config, &names) {
        Err(CoreError::UnknownError(m)) => assert_eq!(m, "uninstall_packages not implemented"),
        _ => panic!("the default must refuse"),
    }
    match manager.update_packages(&config, &names) {
        Err(CoreError::UnknownError(m)) => assert_eq!(m, "update_packages not implemented"),
        _ => panic!("the default must refuse"),
    }
    match manager.install_packages(&config, &names) {
        Err(CoreError::UnknownError(m)) => assert_eq!(m, "install_packages not implemented"),
        _ => panic!("the default must refuse"),
    }
    match manager.search_package(&config, "git") {
        Err(CoreError::UnknownError(m)) => assert_eq!(m, "search_package not implemented"),
        _ => panic!("the default must refuse"),
    }
}

#[test]
fn count_default_is_listing_length() {
    let config_free_listing = Vec::new();
    assert_eq!(count_from_listing(&config_free_listing), 0);
    let manager = HomebrewManager;
    assert_eq!(manager.count_installed_from(&config_free_listing), 0);
}

#[test]
fn sort_option_labels() {
    assert_eq!(SortOption::Name.name(), "Name");
    assert_eq!(SortOption::Version.name(), "Version");
    assert_eq!(SortOption::InstallDate.name(), "Install Date");
    assert_eq!(SortOption::Name.description(), "Sort by package name");
    assert_eq!(SortOption::Version.description(), "Sort by version number");
    assert_eq!(SortOption::InstallDate.description(), "Sort by installation date");
    assert_eq!(SortOption::default(), SortOption::Name);
}

#[test]
fn text_primitives_read_integers() {
    assert_eq!(updater_core::text::parse_u64("123"), Some(123));
    assert_eq!(updater_core::text::parse_u64("+7"), Some(7));
    assert_eq!(updater_core::text::parse_u64(""), None);
    assert_eq!(updater_core::text::parse_u64("12a"), None);
    assert_eq!(updater_core::text::parse_u64("18446744073709551615"), Some(u64::MAX));
    assert_eq!(updater_core::text::parse_u64("18446744073709551616"), None);
    assert_eq!(updater_core::text::parse_i64("-42"), Some(-42));
    assert_eq!(updater_core::text::parse_i64("-9223372036854775808"), Some(i64::MIN));
    assert_eq!(updater_core::text::parse_i64("-9223372036854775809"), None);
    assert_eq!(updater_core::text::parse_usize("0"), Some(0));
    assert_eq!(updater_core::text::parse_usize("-1"), None);
}
