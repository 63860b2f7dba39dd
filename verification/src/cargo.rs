//! The Cargo backend: installed crates come from `cargo install --list`,
//! whose two-state line format is parsed here; descriptions, homepages and
//! latest versions come from the crates.io registry, whose JSON answers are
//! picked apart here.

use vstd::prelude::*;
use vstd::string::*;

use crate::error::CoreError;
use crate::jsonval::{
    doc_arr_field, doc_model, doc_str_field, json_get, json_model_of, parse_json,
    spec_json_arr_field, spec_json_str_field, spec_obj_get, JsonV,
};
use crate::text::{
    concat2, concat4, eq_str, is_digit_char, is_space, is_space_char, skip_spaces, spec_lines,
    spec_skip_spaces, spec_token_end, split_lines, token_end,
};
use crate::{CmdOutput, PackageInfo, PackageInfoV, PackageManager, PackageManagerType,
    PackageUpdate};

verus! {

/// The Cargo backend.
#[derive(Debug, Clone, Copy)]
pub struct CargoManager;

impl PackageManager for CargoManager {
    /// This implementation serves the Cargo backend; the operations that
    /// invoke `cargo` or reach crates.io are assembled by the embedding
    /// application from the parsers below.
    fn manager_type(&self) -> (t: PackageManagerType)
        ensures
            t == PackageManagerType::Cargo,
    {
        PackageManagerType::Cargo
    }
}

/// One crate record from `cargo install --list`: the crate, its installed
/// version (without the leading `v`), and its binaries in listing order.
#[derive(Debug, Clone)]
pub struct InstalledCrate {
    pub name: String,
    pub version: String,
    pub bins: Vec<String>,
}

/// The mathematical value of an `InstalledCrate`.
pub struct InstalledCrateV {
    pub name: Seq<char>,
    pub version: Seq<char>,
    pub bins: Seq<Seq<char>>,
}

impl View for InstalledCrate {
    type V = InstalledCrateV;

    open spec fn view(&self) -> InstalledCrateV {
        InstalledCrateV { name: self.name@, version: self.version@, bins: self.bins.deep_view() }
    }
}

impl DeepView for InstalledCrate {
    type V = InstalledCrateV;

    open spec fn deep_view(&self) -> InstalledCrateV {
        self.view()
    }
}

/// How one listing line opens: a registry crate's header, the header of a
/// crate installed from a local path, or neither.
pub enum CargoHeaderV {
    Registry(Seq<char>, Seq<char>),
    Local,
    Plain,
}

/// First index `i >= from` that holds neither a decimal digit nor a dot:
/// the exclusive end of a version numeral.
pub open spec fn spec_version_end(l: Seq<char>, from: int) -> int
    decreases l.len() - from,
{
    if from < 0 || from >= l.len() {
        l.len() as int
    } else if is_digit_char(l[from]) || l[from] == '.' {
        spec_version_end(l, from + 1)
    } else {
        from
    }
}

pub proof fn lemma_version_end_props(l: Seq<char>, from: int)
    requires
        0 <= from <= l.len(),
    ensures
        from <= spec_version_end(l, from) <= l.len(),
    decreases l.len() - from,
{
    if from < l.len() && (is_digit_char(l[from]) || l[from] == '.') {
        lemma_version_end_props(l, from + 1);
    }
}

/// True when, after the version numeral ending at `c`, the line carries a
/// parenthesized local path and closes with `):` — the shape `cargo` prints
/// for a crate installed from a local directory.
pub open spec fn spec_local_tail(l: Seq<char>, c: int) -> bool {
    let d = spec_skip_spaces(l, c);
    &&& d < l.len()
    &&& l[d] == '('
    &&& l.len() >= 2
    &&& l[l.len() - 2] == ')'
    &&& l[l.len() - 1] == ':'
    &&& d < l.len() - 2
}

/// Classify a listing line as a crate header. A header line starts in
/// column one with the crate name, then whitespace, then `v` and a numeral
/// of digits and dots; a plain `:` ends a registry crate's header, while a
/// trailing parenthesized path marks a locally installed crate.
pub open spec fn spec_cargo_header(l: Seq<char>) -> CargoHeaderV {
    if l.len() == 0 || is_space_char(l[0]) {
        CargoHeaderV::Plain
    } else {
        let a = spec_token_end(l, 0);
        if a >= l.len() {
            CargoHeaderV::Plain
        } else {
            let b = spec_skip_spaces(l, a);
            if b >= l.len() || l[b] != 'v' {
                CargoHeaderV::Plain
            } else {
                let c = spec_version_end(l, b + 1);
                if c == b + 1 {
                    CargoHeaderV::Plain
                } else if c < l.len() && l[c] == ':' && c + 1 == l.len() {
                    CargoHeaderV::Registry(l.subrange(0, a), l.subrange(b + 1, c))
                } else if c < l.len() && is_space_char(l[c]) && spec_local_tail(l, c) {
                    CargoHeaderV::Local
                } else {
                    CargoHeaderV::Plain
                }
            }
        }
    }
}

/// The binary name carried by an indented listing line: its first
/// whitespace-separated token, when the line is indented and non-blank.
pub open spec fn spec_cargo_bin(l: Seq<char>) -> Option<Seq<char>> {
    if l.len() > 0 && is_space_char(l[0]) {
        let b = spec_skip_spaces(l, 0);
        if b < l.len() {
            Some(l.subrange(b, spec_token_end(l, b)))
        } else {
            None
        }
    } else {
        None
    }
}

/// The records a partially scanned listing still owes: the open record, if
/// one is open.
pub open spec fn spec_flush(cur: Option<InstalledCrateV>) -> Seq<InstalledCrateV> {
    match cur {
        None => seq![],
        Some(c) => seq![c],
    }
}

/// The two-state line scan over a listing: a registry header closes the
/// open record and opens a new one, a local header closes the open record
/// and discards its own, an indented line adds a binary to the open record,
/// and anything else changes nothing. The final open record is flushed.
pub open spec fn spec_cargo_scan(lines: Seq<Seq<char>>, cur: Option<InstalledCrateV>) -> Seq<
    InstalledCrateV,
>
    decreases lines.len(),
{
    if lines.len() == 0 {
        spec_flush(cur)
    } else {
        let l = lines[0];
        let rest = lines.drop_first();
        match spec_cargo_header(l) {
            CargoHeaderV::Registry(n, v) => spec_flush(cur) + spec_cargo_scan(
                rest,
                Some(InstalledCrateV { name: n, version: v, bins: Seq::empty() }),
            ),
            CargoHeaderV::Local => spec_flush(cur) + spec_cargo_scan(rest, None),
            CargoHeaderV::Plain => match (spec_cargo_bin(l), cur) {
                (Some(b), Some(c)) => spec_cargo_scan(
                    rest,
                    Some(InstalledCrateV { name: c.name, version: c.version, bins: c.bins.push(b) }),
                ),
                _ => spec_cargo_scan(rest, cur),
            },
        }
    }
}

/// The crate records of a full `cargo install --list` output.
pub open spec fn spec_cargo_install_list(s: Seq<char>) -> Seq<InstalledCrateV> {
    spec_cargo_scan(spec_lines(s), None)
}

/// Executable header classification, mirrored on `spec_cargo_header`.
enum CargoHeader {
    Registry(String, String),
    Local,
    Plain,
}

/// First index `i >= from` past the digits and dots of a version numeral.
#[verifier::loop_isolation(false)]
fn version_end(l: &str, from: usize) -> (r: usize)
    requires
        from <= l@.len(),
    ensures
        r == spec_version_end(l@, from as int),
        from <= r <= l@.len(),
{
    proof {
        lemma_version_end_props(l@, from as int);
    }
    let n = l.unicode_len();
    let mut i: usize = from;
    while i < n
        invariant
            from <= i <= n,
            spec_version_end(l@, from as int) == spec_version_end(l@, i as int),
        decreases n - i,
    {
        let c = l.get_char(i);
        let u = c as u32;
        if !((48 <= u && u <= 57) || c == '.') {
            return i;
        }
        assert(spec_version_end(l@, i as int) == spec_version_end(l@, i + 1));
        i = i + 1;
    }
    n
}

#[verifier::loop_isolation(false)]
fn parse_header(line: &str) -> (h: CargoHeader)
    ensures
        match h {
            CargoHeader::Registry(n, v) => spec_cargo_header(line@) == CargoHeaderV::Registry(
                n@,
                v@,
            ),
            CargoHeader::Local => spec_cargo_header(line@) == CargoHeaderV::Local,
            CargoHeader::Plain => spec_cargo_header(line@) == CargoHeaderV::Plain,
        },
{
    let n = line.unicode_len();
    if n == 0 || is_space(line.get_char(0)) {
        return CargoHeader::Plain;
    }
    let a = token_end(line, 0);
    if a >= n {
        return CargoHeader::Plain;
    }
    let b = skip_spaces(line, a);
    if b >= n || line.get_char(b) != 'v' {
        return CargoHeader::Plain;
    }
    let c = version_end(line, b + 1);
    if c == b + 1 {
        return CargoHeader::Plain;
    }
    if c < n && line.get_char(c) == ':' && c + 1 == n {
        return CargoHeader::Registry(
            String::from_str(line.substring_char(0, a)),
            String::from_str(line.substring_char(b + 1, c)),
        );
    }
    if c < n && is_space(line.get_char(c)) {
        let d = skip_spaces(line, c);
        if d < n && line.get_char(d) == '(' && n >= 2 && line.get_char(n - 2) == ')'
            && line.get_char(n - 1) == ':' && d < n - 2 {
            return CargoHeader::Local;
        }
    }
    CargoHeader::Plain
}

fn parse_bin(line: &str) -> (r: Option<String>)
    ensures
        r.deep_view() == spec_cargo_bin(line@),
{
    let n = line.unicode_len();
    if n == 0 || !is_space(line.get_char(0)) {
        return None;
    }
    let b = skip_spaces(line, 0);
    if b >= n {
        return None;
    }
    let e = token_end(line, b);
    Some(String::from_str(line.substring_char(b, e)))
}

impl CargoManager {
    /// Parse a `cargo install --list` output into crate records: one record
    /// per registry header line, its version stripped of the leading `v`,
    /// its binaries the indented lines that follow; records of locally
    /// installed crates are excluded entirely. The final record needs no
    /// trailing blank line to be flushed, and empty output yields no
    /// records.
    #[verifier::loop_isolation(false)]
    pub fn parse_cargo_install_list(input: &str) -> (r: Vec<InstalledCrate>)
        ensures
            r.deep_view() == spec_cargo_install_list(input@),
            input@.len() == 0 ==> r@.len() == 0,
    {
        let lines = split_lines(input);
        let ghost lv = lines.deep_view();
        let mut out: Vec<InstalledCrate> = Vec::new();
        let mut cur: Option<InstalledCrate> = None;
        let mut i: usize = 0;
        proof {
            assert(lv.skip(0) =~= lv);
        }
        while i < lines.len()
            invariant
                0 <= i <= lines.len(),
                lv.len() == lines.len(),
                spec_cargo_scan(lv, None) == out.deep_view() + spec_cargo_scan(
                    lv.skip(i as int),
                    cur.deep_view(),
                ),
            decreases lines.len() - i,
        {
            proof {
                assert(lv.skip(i as int).drop_first() =~= lv.skip(i + 1));
                assert(lv.skip(i as int)[0] == lv[i as int]);
                assert(lines@[i as int]@ == lv[i as int]);
            }
            let line = lines[i].as_str();
            match parse_header(line) {
                CargoHeader::Registry(name, version) => {
                    let ghost prev_out = out.deep_view();
                    let ghost prev_cur = cur.deep_view();
                    let prev = cur;
                    cur = Some(InstalledCrate { name, version, bins: Vec::new() });
                    if let Some(c) = prev {
                        out.push(c);
                    }
                    proof {
                        assert(out.deep_view() =~= prev_out + spec_flush(prev_cur));
                        assert(cur.deep_view()->0.bins =~= Seq::<Seq<char>>::empty());
                        assert(out.deep_view() + spec_cargo_scan(lv.skip(i + 1), cur.deep_view())
                            =~= prev_out + spec_cargo_scan(lv.skip(i as int), prev_cur));
                    }
                },
                CargoHeader::Local => {
                    let ghost prev_out = out.deep_view();
                    let ghost prev_cur = cur.deep_view();
                    let prev = cur;
                    cur = None;
                    if let Some(c) = prev {
                        out.push(c);
                    }
                    proof {
                        assert(out.deep_view() =~= prev_out + spec_flush(prev_cur));
                        assert(out.deep_view() + spec_cargo_scan(lv.skip(i + 1), cur.deep_view())
                            =~= prev_out + spec_cargo_scan(lv.skip(i as int), prev_cur));
                    }
                },
                CargoHeader::Plain => {
                    let ghost prev_cur = cur.deep_view();
                    let b = parse_bin(line);
                    cur = match (cur, b) {
                        (Some(mut c), Some(bin)) => {
                            let ghost pb = c.bins.deep_view();
                            c.bins.push(bin);
                            proof {
                                assert(c.bins.deep_view() =~= pb.push(bin@));
                            }
                            Some(c)
                        },
                        (c0, _) => c0,
                    };
                    proof {
                        assert(spec_cargo_scan(lv.skip(i as int), prev_cur) == spec_cargo_scan(
                            lv.skip(i + 1),
                            cur.deep_view(),
                        ));
                    }
                },
            }
            i = i + 1;
        }
        proof {
            assert(lv.skip(lines.len() as int) =~= Seq::<Seq<char>>::empty());
            assert(out.deep_view() + spec_flush(cur.deep_view()) =~= spec_cargo_scan(lv, None));
        }
        if let Some(c) = cur {
            out.push(c);
        }
        proof {
            assert(out.deep_view() =~= spec_cargo_scan(lv, None));
            if input@.len() == 0 {
                assert(spec_lines(input@) =~= Seq::<Seq<char>>::empty());
            }
        }
        out
    }

    /// The crate records behind a captured `cargo install --list`
    /// invocation: a non-zero exit is the documented failure, a successful
    /// one is parsed.
    pub fn installed_from_output(out: &CmdOutput) -> (r: Result<Vec<InstalledCrate>, CoreError>)
        ensures
            !out.ok ==> (r matches Err(e) && e matches CoreError::UnknownError(m) && m@
                == "cargo install --list failed"@),
            out.ok ==> (r matches Ok(v) && v.deep_view() == spec_cargo_install_list(
                out.stdout@,
            )),
    {
        if !out.ok {
            return Err(CoreError::UnknownError(String::from_str("cargo install --list failed")));
        }
        Ok(Self::parse_cargo_install_list(out.stdout.as_str()))
    }

    /// The version of the first record named `package_name` in a crate
    /// listing; a missing crate is the documented "not installed" error.
    #[verifier::loop_isolation(false)]
    pub fn current_version_from_list(list: &Vec<InstalledCrate>, package_name: &str) -> (r: Result<
        String,
        CoreError,
    >)
        ensures
            match spec_find_crate_version(list.deep_view(), package_name@) {
                Some(v) => r matches Ok(s) && s@ == v,
                None => (r matches Err(e) && e matches CoreError::UnknownError(m) && m@
                    == "Package "@ + package_name@ + " not installed"@),
            },
    {
        let mut i: usize = 0;
        let ghost lv = list.deep_view();
        proof {
            assert(lv.skip(0) =~= lv);
        }
        while i < list.len()
            invariant
                0 <= i <= list.len(),
                lv.len() == list.len(),
                spec_find_crate_version(lv, package_name@) == spec_find_crate_version(
                    lv.skip(i as int),
                    package_name@,
                ),
            decreases list.len() - i,
        {
            proof {
                assert(lv.skip(i as int).drop_first() =~= lv.skip(i + 1));
                assert(lv.skip(i as int)[0] == lv[i as int]);
            }
            if eq_str(list[i].name.as_str(), package_name) {
                return Ok(list[i].version.clone());
            }
            i = i + 1;
        }
        Err(CoreError::UnknownError(concat3_not_installed(package_name)))
    }

    /// A pending update for one installed crate, given the registry's
    /// latest version when the lookup succeeded: an update exists exactly
    /// when a latest version is known and differs from the installed one.
    pub fn update_for_crate(c: &InstalledCrate, latest: Option<String>) -> (r: Option<
        PackageUpdate,
    >)
        ensures
            match latest {
                None => r is None,
                Some(lv) => if lv@ == c.version@ {
                    r is None
                } else {
                    (r matches Some(u) && u.name@ == c.name@ && u.current_version@ == c.version@
                        && u.new_version@ == lv@)
                },
            },
    {
        match latest {
            None => None,
            Some(lv) => {
                if eq_str(lv.as_str(), c.version.as_str()) {
                    None
                } else {
                    Some(
                        PackageUpdate {
                            name: c.name.clone(),
                            current_version: c.version.clone(),
                            new_version: lv,
                        },
                    )
                }
            },
        }
    }

    /// The normalized record for one installed crate, with the registry's
    /// best-effort description and homepage.
    pub fn package_from_crate(
        c: &InstalledCrate,
        description: Option<String>,
        homepage: Option<String>,
    ) -> (r: PackageInfo)
        ensures
            r.name@ == c.name@,
            r.version@ == c.version@,
            r.source == PackageManagerType::Cargo,
            r.description.deep_view() == description.deep_view(),
            r.homepage.deep_view() == homepage.deep_view(),
            r.size is None,
            r.install_date is None,
    {
        PackageInfo {
            name: c.name.clone(),
            version: c.version.clone(),
            source: PackageManagerType::Cargo,
            description,
            size: None,
            install_date: None,
            homepage,
        }
    }

    /// The crates.io search URL for a query, with spaces escaped.
    pub fn search_url(query: &str) -> (r: String)
        ensures
            r@ == "https://crates.io/api/v1/crates?page=1&per_page=10&q="@ + spec_encode_query(
                query@,
                0,
            ),
    {
        concat2(
            "https://crates.io/api/v1/crates?page=1&per_page=10&q=",
            encode_query_from(query, 0).as_str(),
        )
    }

    /// The crates.io metadata URL for one crate.
    pub fn crate_info_url(package_name: &str) -> (r: String)
        ensures
            r@ == "https://crates.io/api/v1/crates/"@ + package_name@,
    {
        concat2("https://crates.io/api/v1/crates/", package_name)
    }

    /// The description the registry's metadata document carries for a
    /// crate: the `crate` object's `description` string.
    pub fn crate_info_from_json(body: &str) -> (r: (Option<String>, Option<String>))
        ensures
            spec_crate_info_post(body@, r.0.deep_view(), r.1.deep_view()),
    {
        let json = match parse_json(body) {
            Ok(v) => v,
            Err(_) => {
                return (None, None);
            },
        };
        let description = crate_field(&json, "description");
        let homepage = match crate_field(&json, "homepage") {
            Some(h) => Some(h),
            None => crate_field(&json, "repository"),
        };
        (description, homepage)
    }

    /// The metadata outcome of one registry fetch: a non-success status
    /// degrades both fields to absent, never an error.
    pub fn crate_info_from_response(ok: bool, body: &str) -> (r: (Option<String>, Option<String>))
        ensures
            !ok ==> r.0 is None && r.1 is None,
            ok ==> spec_crate_info_post(body@, r.0.deep_view(), r.1.deep_view()),
    {
        if !ok {
            return (None, None);
        }
        Self::crate_info_from_json(body)
    }

    /// The `crate.max_version` string of the registry's metadata document:
    /// a document that does not decode is the documented serialization
    /// error, and one without that string is the documented lookup failure
    /// for the named crate.
    pub fn latest_version_from_json(body: &str, package_name: &str) -> (r: Result<
        String,
        CoreError,
    >)
        ensures
            spec_latest_version_post(body@, package_name@, r),
    {
        let json = match parse_json(body) {
            Ok(v) => v,
            Err(m) => {
                return Err(CoreError::SerializationError(m));
            },
        };
        match crate_field(&json, "max_version") {
            Some(s) => Ok(s),
            None => Err(
                CoreError::UnknownError(
                    concat2("Version info not found for crate ", package_name),
                ),
            ),
        }
    }

    /// The latest-version outcome of one registry fetch: a non-success
    /// status is the documented fetch failure for the named crate.
    pub fn latest_version_from_response(package_name: &str, ok: bool, body: &str) -> (r: Result<
        String,
        CoreError,
    >)
        ensures
            !ok ==> (r matches Err(e) && e matches CoreError::UnknownError(msg) && msg@
                == "Failed to fetch crate info for "@ + package_name@),
            ok ==> spec_latest_version_post(body@, package_name@, r),
    {
        if !ok {
            return Err(
                CoreError::UnknownError(concat2("Failed to fetch crate info for ", package_name)),
            );
        }
        Self::latest_version_from_json(body, package_name)
    }

    /// The result records of the registry's search document: one per
    /// element of its `crates` array that carries both a `name` and a
    /// `max_version` string, with the best-effort description and the
    /// homepage falling back to the repository. A document that does not
    /// decode is the documented serialization error.
    #[verifier::loop_isolation(false)]
    pub fn search_results_from_json(body: &str) -> (r: Result<Vec<PackageInfo>, CoreError>)
        ensures
            spec_search_post(body@, r),
    {
        let json = match parse_json(body) {
            Ok(v) => v,
            Err(m) => {
                return Err(CoreError::SerializationError(m));
            },
        };
        let ghost dm = doc_model(json);
        let ghost ms = spec_json_arr_field(dm, "crates"@);
        let items = doc_arr_field(&json, "crates");
        let mut out: Vec<PackageInfo> = Vec::new();
        let mut i: usize = 0;
        proof {
            assert(ms.skip(0) =~= ms);
            assert(out.deep_view() =~= Seq::<PackageInfoV>::empty());
            assert(out.deep_view() + spec_search_records(ms) =~= spec_search_records(ms));
        }
        while i < items.len()
            invariant
                0 <= i <= items.len(),
                items@.len() == ms.len(),
                forall|k: int| 0 <= k < ms.len() ==> doc_model(*(#[trigger] items@[k])) == ms[k],
                spec_search_records(ms) == out.deep_view() + spec_search_records(
                    ms.skip(i as int),
                ),
            decreases items.len() - i,
        {
            proof {
                assert(ms.skip(i as int).drop_first() =~= ms.skip(i + 1));
                assert(ms.skip(i as int)[0] == ms[i as int]);
            }
            match search_record(items[i]) {
                None => {},
                Some(rec) => {
                    let ghost prev_out = out.deep_view();
                    out.push(rec);
                    proof {
                        assert(out.deep_view() + spec_search_records(ms.skip(i + 1)) =~= prev_out
                            + spec_search_records(ms.skip(i as int)));
                    }
                },
            }
            i = i + 1;
        }
        proof {
            assert(ms.skip(items.len() as int) =~= Seq::<JsonV>::empty());
            assert(out.deep_view() =~= spec_search_records(ms));
        }
        Ok(out)
    }

    /// The search outcome of one registry fetch: a non-success status
    /// yields an empty result set rather than an error.
    pub fn search_results_from_response(ok: bool, body: &str) -> (r: Result<
        Vec<PackageInfo>,
        CoreError,
    >)
        ensures
            !ok ==> (r matches Ok(v) && v@.len() == 0),
            ok ==> spec_search_post(body@, r),
    {
        if !ok {
            return Ok(Vec::new());
        }
        Self::search_results_from_json(body)
    }

    /// The outcome of one `cargo uninstall <name>` invocation in a batch.
    pub fn uninstall_step(name: &str, out: &CmdOutput) -> (r: Result<(), CoreError>)
        ensures
            out.ok ==> r is Ok,
            !out.ok ==> (r matches Err(e) && e matches CoreError::UnknownError(m) && m@
                == "cargo uninstall failed for "@ + name@ + ": "@ + out.stderr@),
    {
        if out.ok {
            Ok(())
        } else {
            Err(
                CoreError::UnknownError(
                    concat4("cargo uninstall failed for ", name, ": ", out.stderr.as_str()),
                ),
            )
        }
    }

    /// The outcome of one `cargo install --force <name>` invocation in a
    /// batch update.
    pub fn update_step(name: &str, out: &CmdOutput) -> (r: Result<(), CoreError>)
        ensures
            out.ok ==> r is Ok,
            !out.ok ==> (r matches Err(e) && e matches CoreError::UnknownError(m) && m@
                == "cargo install --force failed for "@ + name@ + ": "@ + out.stderr@),
    {
        if out.ok {
            Ok(())
        } else {
            Err(
                CoreError::UnknownError(
                    concat4("cargo install --force failed for ", name, ": ", out.stderr.as_str()),
                ),
            )
        }
    }

    /// The outcome of one `cargo install <name>` invocation in a batch.
    pub fn install_step(name: &str, out: &CmdOutput) -> (r: Result<(), CoreError>)
        ensures
            out.ok ==> r is Ok,
            !out.ok ==> (r matches Err(e) && e matches CoreError::UnknownError(m) && m@
                == "cargo install failed for "@ + name@ + ": "@ + out.stderr@),
    {
        if out.ok {
            Ok(())
        } else {
            Err(
                CoreError::UnknownError(
                    concat4("cargo install failed for ", name, ": ", out.stderr.as_str()),
                ),
            )
        }
    }
}

/// The version of the first record in `list` named `n`.
pub open spec fn spec_find_crate_version(list: Seq<InstalledCrateV>, n: Seq<char>) -> Option<
    Seq<char>,
>
    decreases list.len(),
{
    if list.len() == 0 {
        None
    } else if list[0].name == n {
        Some(list[0].version)
    } else {
        spec_find_crate_version(list.drop_first(), n)
    }
}

/// The query text with each space written as `%20`, from `from` on.
pub open spec fn spec_encode_query(s: Seq<char>, from: int) -> Seq<char>
    decreases s.len() - from,
{
    if from < 0 || from >= s.len() {
        Seq::empty()
    } else {
        (if s[from] == ' ' {
            "%20"@
        } else {
            seq![s[from]]
        }) + spec_encode_query(s, from + 1)
    }
}

fn encode_query_from(s: &str, from: usize) -> (r: String)
    requires
        from <= s@.len(),
    ensures
        r@ == spec_encode_query(s@, from as int),
    decreases s@.len() - from,
{
    let n = s.unicode_len();
    if from >= n {
        let r = String::new();
        proof {
            assert(r@ =~= spec_encode_query(s@, from as int));
        }
        return r;
    }
    let head: String = if s.get_char(from) == ' ' {
        String::from_str("%20")
    } else {
        let h = String::from_str(s.substring_char(from, from + 1));
        proof {
            assert(h@ =~= seq![s@[from as int]]);
        }
        h
    };
    let rest = encode_query_from(s, from + 1);
    concat2(head.as_str(), rest.as_str())
}

/// The string under `key` inside the metadata document's `crate` object.
pub open spec fn spec_crate_field(m: JsonV, key: Seq<char>) -> Option<Seq<char>> {
    match spec_obj_get(m, "crate"@) {
        Some(c) => spec_json_str_field(c, key),
        None => None,
    }
}

/// The crate description a metadata document carries.
pub open spec fn spec_crate_description(m: JsonV) -> Option<Seq<char>> {
    spec_crate_field(m, "description"@)
}

/// The crate homepage a metadata document carries, falling back to its
/// repository.
pub open spec fn spec_crate_homepage(m: JsonV) -> Option<Seq<char>> {
    match spec_crate_field(m, "homepage"@) {
        Some(h) => Some(h),
        None => spec_crate_field(m, "repository"@),
    }
}

/// The latest version a metadata document carries: `crate.max_version`.
pub open spec fn spec_crate_max_version(m: JsonV) -> Option<Seq<char>> {
    spec_crate_field(m, "max_version"@)
}

/// The result record one element of a search document's `crates` array
/// denotes, when it carries both a `name` and a `max_version` string.
pub open spec fn spec_search_record(c: JsonV) -> Option<PackageInfoV> {
    match (spec_json_str_field(c, "name"@), spec_json_str_field(c, "max_version"@)) {
        (Some(n), Some(ver)) => Some(
            PackageInfoV {
                name: n,
                version: ver,
                source: PackageManagerType::Cargo,
                description: spec_json_str_field(c, "description"@),
                size: None,
                install_date: None,
                homepage: match spec_json_str_field(c, "homepage"@) {
                    Some(h) => Some(h),
                    None => spec_json_str_field(c, "repository"@),
                },
            },
        ),
        _ => None,
    }
}

/// The result records of a sequence of search-document elements, in order,
/// keeping only the complete ones.
pub open spec fn spec_search_records(items: Seq<JsonV>) -> Seq<PackageInfoV>
    decreases items.len(),
{
    if items.len() == 0 {
        seq![]
    } else {
        match spec_search_record(items[0]) {
            None => spec_search_records(items.drop_first()),
            Some(p) => seq![p] + spec_search_records(items.drop_first()),
        }
    }
}

/// The result records of a search-document text: nothing when the text
/// does not decode.
pub open spec fn spec_cargo_search_listing(s: Seq<char>) -> Option<Seq<PackageInfoV>> {
    match json_model_of(s) {
        Some(m) => Some(spec_search_records(spec_json_arr_field(m, "crates"@))),
        None => None,
    }
}

/// What the metadata extraction owes for a document text: absent fields on
/// a text that does not decode, else the decoded document's description and
/// homepage-else-repository.
pub open spec fn spec_crate_info_post(
    body: Seq<char>,
    d: Option<Seq<char>>,
    h: Option<Seq<char>>,
) -> bool {
    match json_model_of(body) {
        None => d is None && h is None,
        Some(m) => d == spec_crate_description(m) && h == spec_crate_homepage(m),
    }
}

/// What the latest-version extraction owes for a document text: the
/// serialization error on a text that does not decode; the decoded
/// document's `crate.max_version` string when it carries one; else the
/// documented lookup failure naming the crate.
pub open spec fn spec_latest_version_post(
    body: Seq<char>,
    package_name: Seq<char>,
    r: Result<String, CoreError>,
) -> bool {
    match json_model_of(body) {
        None => r matches Err(e) && e is SerializationError,
        Some(m) => match spec_crate_max_version(m) {
            Some(ver) => r matches Ok(s) && s@ == ver,
            None => r matches Err(e) && e matches CoreError::UnknownError(msg) && msg@
                == "Version info not found for crate "@ + package_name,
        },
    }
}

/// What the search extraction owes for a document text: success exactly
/// when the text decodes, the serialization error otherwise, and on
/// success the decoded document's result records.
pub open spec fn spec_search_post(body: Seq<char>, r: Result<Vec<PackageInfo>, CoreError>) -> bool {
    &&& (r is Ok <==> json_model_of(body) is Some)
    &&& (r matches Err(e) ==> e is SerializationError)
    &&& (r matches Ok(v) ==> Some(v.deep_view()) == spec_cargo_search_listing(body))
}

fn crate_field(v: &serde_json::Value, key: &str) -> (r: Option<String>)
    ensures
        r.deep_view() == spec_crate_field(doc_model(*v), key@),
{
    match json_get(v, "crate") {
        Some(c) => doc_str_field(c, key),
        None => None,
    }
}

fn search_record(c: &serde_json::Value) -> (r: Option<PackageInfo>)
    ensures
        r.deep_view() == spec_search_record(doc_model(*c)),
{
    let name = match doc_str_field(c, "name") {
        Some(n) => n,
        None => {
            return None;
        },
    };
    let version = match doc_str_field(c, "max_version") {
        Some(v) => v,
        None => {
            return None;
        },
    };
    let description = doc_str_field(c, "description");
    let homepage = match doc_str_field(c, "homepage") {
        Some(h) => Some(h),
        None => doc_str_field(c, "repository"),
    };
    Some(
        PackageInfo {
            name,
            version,
            source: PackageManagerType::Cargo,
            description,
            size: None,
            install_date: None,
            homepage,
        },
    )
}

fn concat3_not_installed(package_name: &str) -> (r: String)
    ensures
        r@ == "Package "@ + package_name@ + " not installed"@,
{
    crate::text::concat3("Package ", package_name, " not installed")
}


/// Listing is read-only: two parses of the same captured `cargo install
/// --list` output yield the same records, and so the same collection up to
/// ordering.
pub proof fn lemma_list_installed_idempotent(a: Seq<char>, b: Seq<char>)
    requires
        a == b,
    ensures
        spec_cargo_install_list(a) == spec_cargo_install_list(b),
        spec_cargo_install_list(a).to_multiset() == spec_cargo_install_list(b).to_multiset(),
{
}

} // verus!
