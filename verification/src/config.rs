//! The configuration store: which backends are active and, per backend, an
//! optional custom executable path, plus an optional override for the Go
//! binary directory. Loading and saving the JSON document, and probing the
//! search path for available backends, are the embedding application's
//! side; this module holds the value type and the path-resolution rules.

use vstd::prelude::*;
use crate::PackageManagerType;
use crate::text::concat2;

verus! {

/// One backend's entry: its identity and an optional custom executable
/// path. When the path is absent, the backend's default command name is
/// resolved through the process environment's search path.
#[derive(Debug, Clone)]
pub struct PackageManagerConfig {
    pub manager_type: PackageManagerType,
    pub custom_path: Option<String>,
}

/// The aggregate configuration: at most one system manager, an ordered list
/// of application managers, and the optional Go binary-directory override.
/// Backend operations only ever borrow this value; nothing here mutates it.
#[derive(Debug, Clone)]
pub struct Config {
    pub system_manager: Option<PackageManagerConfig>,
    pub app_managers: Vec<PackageManagerConfig>,
    pub go_bin_dir: Option<String>,
}

/// The custom path of the first entry in `mgrs` for backend `t`: `None`
/// when no entry matches, `Some(path)` for the first that does (where the
/// entry's own path may itself be absent).
pub open spec fn spec_app_path(mgrs: Seq<PackageManagerConfig>, t: PackageManagerType) -> Option<
    Option<Seq<char>>,
>
    decreases mgrs.len(),
{
    if mgrs.len() == 0 {
        None
    } else if mgrs[0].manager_type == t {
        Some(mgrs[0].custom_path.deep_view())
    } else {
        spec_app_path(mgrs.drop_first(), t)
    }
}

/// The configured custom executable path for backend `t`: the system
/// entry's path when the system entry is for `t`, else the first matching
/// application entry's path, else nothing.
pub open spec fn spec_package_path(c: &Config, t: PackageManagerType) -> Option<Seq<char>> {
    if c.system_manager matches Some(sys) && c.system_manager->0.manager_type == t {
        c.system_manager->0.custom_path.deep_view()
    } else {
        match spec_app_path(c.app_managers@, t) {
            Some(p) => p,
            None => None,
        }
    }
}

impl Config {
    /// Resolve the custom executable path configured for `manager_type`,
    /// if any; callers fall back to the backend's default command name.
    #[verifier::loop_isolation(false)]
    pub fn get_package_path(&self, manager_type: PackageManagerType) -> (r: Option<String>)
        ensures
            r.deep_view() == spec_package_path(self, manager_type),
    {
        if let Some(sys_mgr) = &self.system_manager {
            if sys_mgr.manager_type == manager_type {
                return match &sys_mgr.custom_path {
                    Some(p) => Some(p.clone()),
                    None => None,
                };
            }
        }
        let mut i: usize = 0;
        proof {
            assert(self.app_managers@.skip(0) =~= self.app_managers@);
        }
        while i < self.app_managers.len()
            invariant
                0 <= i <= self.app_managers.len(),
                spec_app_path(self.app_managers@, manager_type) == spec_app_path(
                    self.app_managers@.skip(i as int),
                    manager_type,
                ),
            decreases self.app_managers.len() - i,
        {
            proof {
                assert(self.app_managers@.skip(i as int).drop_first() =~= self.app_managers@.skip(
                    i + 1,
                ));
            }
            let mgr = &self.app_managers[i];
            if mgr.manager_type == manager_type {
                return match &mgr.custom_path {
                    Some(p) => Some(p.clone()),
                    None => None,
                };
            }
            i = i + 1;
        }
        None
    }

    /// The directory whose regular files the Go backend treats as its
    /// installed binaries. The explicit override wins; after it the caller's
    /// `GOBIN`, then `GOPATH` with `/bin` appended, then the home directory
    /// with `/go/bin` appended, then the bare relative fallback. The three
    /// environment values are read by the embedding application and handed
    /// in here.
    pub fn get_go_bin_dir(&self, gobin: Option<&str>, gopath: Option<&str>, home: Option<&str>)
        -> (r: String)
        ensures
            self.go_bin_dir is Some ==> r@ == self.go_bin_dir->0@,
            self.go_bin_dir is None && gobin is Some ==> r@ == gobin->0@,
            self.go_bin_dir is None && gobin is None && gopath is Some ==> r@ == gopath->0@
                + "/bin"@,
            self.go_bin_dir is None && gobin is None && gopath is None && home is Some ==> r@
                == home->0@ + "/go/bin"@,
            self.go_bin_dir is None && gobin is None && gopath is None && home is None ==> r@
                == "go/bin"@,
    {
        if let Some(d) = &self.go_bin_dir {
            return d.clone();
        }
        if let Some(g) = gobin {
            return String::from_str(g);
        }
        if let Some(p) = gopath {
            return concat2(p, "/bin");
        }
        if let Some(h) = home {
            return concat2(h, "/go/bin");
        }
        String::from_str("go/bin")
    }
}

/// The application-backend identities a detection over the four probes
/// yields, in the fixed order Flatpak, Homebrew, Cargo, Go.
pub open spec fn spec_detected_kinds(flatpak: bool, homebrew: bool, cargo: bool, go: bool) -> Seq<
    PackageManagerType,
> {
    (if flatpak {
        seq![PackageManagerType::Flatpak]
    } else {
        seq![]
    }) + (if homebrew {
        seq![PackageManagerType::Homebrew]
    } else {
        seq![]
    }) + (if cargo {
        seq![PackageManagerType::Cargo]
    } else {
        seq![]
    }) + (if go {
        seq![PackageManagerType::Go]
    } else {
        seq![]
    })
}

/// The backend identities of a list of entries, in order.
pub open spec fn spec_manager_kinds(mgrs: Seq<PackageManagerConfig>) -> Seq<PackageManagerType> {
    mgrs.map_values(|m: PackageManagerConfig| m.manager_type)
}

impl Config {
    /// The configuration a detection run derives from the five
    /// availability probes: a system entry exactly when the system
    /// backend's command resolves, one application entry per available
    /// application backend in the fixed order, no custom paths and no
    /// override directory. The embedding application probes the search path
    /// and hands the five answers in here.
    pub fn detect_package_managers(dnf: bool, flatpak: bool, homebrew: bool, cargo: bool, go: bool)
        -> (c: Config)
        ensures
            dnf ==> (c.system_manager matches Some(m) && m.manager_type == PackageManagerType::Dnf
                && m.custom_path is None),
            !dnf ==> c.system_manager is None,
            spec_manager_kinds(c.app_managers@) == spec_detected_kinds(
                flatpak,
                homebrew,
                cargo,
                go,
            ),
            forall|i: int|
                0 <= i < c.app_managers@.len() ==> (#[trigger] c.app_managers@[i]).custom_path
                    is None,
            c.go_bin_dir is None,
    {
        let system_manager = if dnf {
            Some(PackageManagerConfig { manager_type: PackageManagerType::Dnf, custom_path: None })
        } else {
            None
        };
        let mut app_managers: Vec<PackageManagerConfig> = Vec::new();
        if flatpak {
            app_managers.push(
                PackageManagerConfig {
                    manager_type: PackageManagerType::Flatpak,
                    custom_path: None,
                },
            );
        }
        if homebrew {
            app_managers.push(
                PackageManagerConfig {
                    manager_type: PackageManagerType::Homebrew,
                    custom_path: None,
                },
            );
        }
        if cargo {
            app_managers.push(
                PackageManagerConfig { manager_type: PackageManagerType::Cargo, custom_path: None },
            );
        }
        if go {
            app_managers.push(
                PackageManagerConfig { manager_type: PackageManagerType::Go, custom_path: None },
            );
        }
        proof {
            assert(spec_manager_kinds(app_managers@) =~= spec_detected_kinds(
                flatpak,
                homebrew,
                cargo,
                go,
            ));
        }
        Config { system_manager, app_managers, go_bin_dir: None }
    }
}


impl Default for Config {
    /// The empty configuration: no backend entries and no override.
    fn default() -> (c: Config)
        ensures
            c.system_manager is None,
            c.app_managers@.len() == 0,
            c.go_bin_dir is None,
    {
        Config { system_manager: None, app_managers: Vec::new(), go_bin_dir: None }
    }
}

} // verus!
