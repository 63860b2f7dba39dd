//! A package-manager abstraction core: one data model and one capability
//! surface over several command-line package managers (the system RPM/DNF
//! manager and the Flatpak, Homebrew, Cargo and Go application managers).
//!
//! The crate holds the logic that can be checked: the parsers for each
//! tool's textual output, the rules that normalize versions and names, and
//! the configuration lookup that picks an executable per backend. Spawning
//! the external tools and talking to remote registries is left to the
//! embedding application, which feeds each captured invocation back to
//! these functions as plain values.

use vstd::prelude::*;

pub mod cargo;
pub mod config;
pub mod dnf;
pub mod error;
pub mod flatpak;
pub mod go;
pub mod homebrew;
pub mod jsonval;
pub mod text;
pub mod timefmt;

pub use config::Config;
pub use config::PackageManagerConfig;
pub use error::CoreError;

verus! {

/// The closed set of supported package-manager backends.
///
/// Exactly one backend (`Dnf`) manages operating-system packages; the
/// others manage per-ecosystem or desktop applications.
#[derive(Debug, Clone, Copy, PartialEq, Eq, Hash, Structural)]
pub enum PackageManagerType {
    Dnf,
    Flatpak,
    Homebrew,
    Cargo,
    Go,
}

impl PackageManagerType {
    /// Human-readable backend name.
    pub fn name(&self) -> (r: &'static str)
        ensures
            self is Dnf ==> r@ == "DNF"@,
            self is Flatpak ==> r@ == "Flatpak"@,
            self is Homebrew ==> r@ == "Homebrew"@,
            self is Cargo ==> r@ == "Cargo"@,
            self is Go ==> r@ == "Go"@,
    {
        match self {
            Self::Dnf => "DNF",
            Self::Flatpak => "Flatpak",
            Self::Homebrew => "Homebrew",
            Self::Cargo => "Cargo",
            Self::Go => "Go",
        }
    }

    /// One-line description of the backend.
    pub fn description(&self) -> (r: &'static str)
        ensures
            self is Dnf ==> r@ == "Fedora/RHEL 系统包管理器"@,
            self is Flatpak ==> r@ == "跨平台应用沙箱管理器"@,
            self is Homebrew ==> r@ == "macOS/Linux 包管理器"@,
            self is Cargo ==> r@ == "Rust 编程语言的包管理器"@,
            self is Go ==> r@ == "Go 编程语言的包管理器"@,
    {
        match self {
            Self::Dnf => "Fedora/RHEL 系统包管理器",
            Self::Flatpak => "跨平台应用沙箱管理器",
            Self::Homebrew => "macOS/Linux 包管理器",
            Self::Cargo => "Rust 编程语言的包管理器",
            Self::Go => "Go 编程语言的包管理器",
        }
    }

    /// True exactly for the backend that manages operating-system packages.
    pub fn is_system_manager(&self) -> (r: bool)
        ensures
            r == (self is Dnf),
    {
        matches!(self, Self::Dnf)
    }

    /// The command name looked up on the search path when no custom
    /// executable path is configured for the backend.
    pub fn default_command(&self) -> (r: &'static str)
        ensures
            self is Dnf ==> r@ == "dnf"@,
            self is Flatpak ==> r@ == "flatpak"@,
            self is Homebrew ==> r@ == "brew"@,
            self is Cargo ==> r@ == "cargo"@,
            self is Go ==> r@ == "go"@,
    {
        match self {
            Self::Dnf => "dnf",
            Self::Flatpak => "flatpak",
            Self::Homebrew => "brew",
            Self::Cargo => "cargo",
            Self::Go => "go",
        }
    }
}

/// A pending version transition for one package under one backend.
#[derive(Debug, Clone)]
pub struct PackageUpdate {
    pub name: String,
    pub current_version: String,
    pub new_version: String,
}

/// The mathematical value of a `PackageUpdate`.
pub struct PackageUpdateV {
    pub name: Seq<char>,
    pub current_version: Seq<char>,
    pub new_version: Seq<char>,
}

impl View for PackageUpdate {
    type V = PackageUpdateV;

    open spec fn view(&self) -> PackageUpdateV {
        PackageUpdateV {
            name: self.name@,
            current_version: self.current_version@,
            new_version: self.new_version@,
        }
    }
}

impl DeepView for PackageUpdate {
    type V = PackageUpdateV;

    open spec fn deep_view(&self) -> PackageUpdateV {
        self.view()
    }
}

/// One unit of installed or discoverable software, constructed fresh on
/// every query. Fields beyond the name and version are best-effort and
/// absent when a tool does not report them.
#[derive(Debug, Clone)]
pub struct PackageInfo {
    pub name: String,
    pub version: String,
    pub source: PackageManagerType,
    pub description: Option<String>,
    pub size: Option<u64>,
    pub install_date: Option<String>,
    pub homepage: Option<String>,
}

/// The mathematical value of a `PackageInfo`.
pub struct PackageInfoV {
    pub name: Seq<char>,
    pub version: Seq<char>,
    pub source: PackageManagerType,
    pub description: Option<Seq<char>>,
    pub size: Option<u64>,
    pub install_date: Option<Seq<char>>,
    pub homepage: Option<Seq<char>>,
}

impl View for PackageInfo {
    type V = PackageInfoV;

    open spec fn view(&self) -> PackageInfoV {
        PackageInfoV {
            name: self.name@,
            version: self.version@,
            source: self.source,
            description: self.description.deep_view(),
            size: self.size,
            install_date: self.install_date.deep_view(),
            homepage: self.homepage.deep_view(),
        }
    }
}

impl DeepView for PackageInfo {
    type V = PackageInfoV;

    open spec fn deep_view(&self) -> PackageInfoV {
        self.view()
    }
}

/// The captured outcome of one external tool invocation: whether the exit
/// status was success, and the decoded standard output and error texts.
/// The embedding application runs the process and hands this value in.
#[derive(Debug, Clone)]
pub struct CmdOutput {
    pub ok: bool,
    pub stdout: String,
    pub stderr: String,
}

/// The installed-package count derived from a listing: its length. This is
/// the default every backend falls back to when it has no cheaper count.
pub fn count_from_listing(listing: &Vec<PackageInfo>) -> (n: usize)
    ensures
        n == listing@.len(),
{
    listing.len()
}

/// The capability interface shared by the five backends.
///
/// The operations that spawn external tools or reach remote registries are
/// assembled by the embedding application from this crate's verified
/// parsers; this trait fixes each backend's identity and the uniform
/// default answers for the operations a backend does not specialize,
/// exactly one "not implemented" error per unsupported operation.
pub trait PackageManager {
    /// The backend this implementation serves.
    fn manager_type(&self) -> PackageManagerType;

    /// Remote catalog search; by default unsupported.
    fn search_package(&self, _config: &Config, _package_name: &str) -> (r: Result<
        Vec<PackageInfo>,
        CoreError,
    >)
        ensures
            (r matches Err(e) && e matches CoreError::UnknownError(m) && m@
                == "search_package not implemented"@),
    {
        Err(CoreError::UnknownError(String::from_str("search_package not implemented")))
    }

    /// Removal of a single package; by default unsupported.
    fn uninstall_package(&self, _config: &Config, _package_name: &str) -> (r: Result<
        (),
        CoreError,
    >)
        ensures
            (r matches Err(e) && e matches CoreError::UnknownError(m) && m@
                == "uninstall_package not implemented"@),
    {
        Err(CoreError::UnknownError(String::from_str("uninstall_package not implemented")))
    }

    /// Batch removal; by default unsupported.
    fn uninstall_packages(&self, _config: &Config, _package_names: &[String]) -> (r: Result<
        (),
        CoreError,
    >)
        ensures
            (r matches Err(e) && e matches CoreError::UnknownError(m) && m@
                == "uninstall_packages not implemented"@),
    {
        Err(CoreError::UnknownError(String::from_str("uninstall_packages not implemented")))
    }

    /// Batch upgrade; by default unsupported.
    fn update_packages(&self, _config: &Config, _package_names: &[String]) -> (r: Result<
        (),
        CoreError,
    >)
        ensures
            (r matches Err(e) && e matches CoreError::UnknownError(m) && m@
                == "update_packages not implemented"@),
    {
        Err(CoreError::UnknownError(String::from_str("update_packages not implemented")))
    }

    /// Batch installation; by default unsupported.
    fn install_packages(&self, _config: &Config, _package_names: &[String]) -> (r: Result<
        (),
        CoreError,
    >)
        ensures
            (r matches Err(e) && e matches CoreError::UnknownError(m) && m@
                == "install_packages not implemented"@),
    {
        Err(CoreError::UnknownError(String::from_str("install_packages not implemented")))
    }

    /// Installed-package count derived from a listing the caller already
    /// obtained; the uniform default for backends without a direct count.
    fn count_installed_from(&self, listing: &Vec<PackageInfo>) -> (n: usize)
        ensures
            n == listing@.len(),
    {
        listing.len()
    }
}

/// The orderings a caller can present an installed-package listing in,
/// keyed by the record fields this crate produces.
#[derive(Debug, Clone, Copy, Default, PartialEq, Eq, Structural)]
pub enum SortOption {
    #[default]
    Name,
    Version,
    InstallDate,
}

impl SortOption {
    /// The ordering's display label.
    pub fn name(&self) -> (r: &'static str)
        ensures
            self is Name ==> r@ == "Name"@,
            self is Version ==> r@ == "Version"@,
            self is InstallDate ==> r@ == "Install Date"@,
    {
        match self {
            SortOption::Name => "Name",
            SortOption::Version => "Version",
            SortOption::InstallDate => "Install Date",
        }
    }

    /// The ordering's one-line description.
    pub fn description(&self) -> (r: &'static str)
        ensures
            self is Name ==> r@ == "Sort by package name"@,
            self is Version ==> r@ == "Sort by version number"@,
            self is InstallDate ==> r@ == "Sort by installation date"@,
    {
        match self {
            SortOption::Name => "Sort by package name",
            SortOption::Version => "Sort by version number",
            SortOption::InstallDate => "Sort by installation date",
        }
    }
}

} // verus!
