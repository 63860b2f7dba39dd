//! The system RPM/DNF backend: the upgrade-check report, the installed
//! database listing, the single-package version query, the fast package
//! count and the catalog search are all line-oriented text parsed here; the
//! batch mutations report the elevation helper's failures.

use vstd::prelude::*;
use vstd::string::*;

use crate::error::CoreError;
use crate::text::{
    clone_opt, concat2, concat3, eq_str, lemma_rfind_char_props, lemma_seq_push_contains,
    contains_view, parse_i64, parse_u64, parse_usize, rfind_char,
    spec_find_char, spec_lines, spec_parse_i64, spec_parse_u64, spec_parse_usize, spec_rfind_char,
    spec_split_char, spec_split_ws, spec_starts_with, spec_trim, split_char, split_ws,
    split_lines, starts_with, trim,
};
use crate::timefmt::{epoch_display_of, format_epoch_seconds};
use crate::{CmdOutput, PackageInfo, PackageInfoV, PackageManager, PackageManagerType, PackageUpdate};

verus! {

/// The system RPM/DNF backend.
#[derive(Debug, Clone, Copy)]
pub struct DnfManager;

impl PackageManager for DnfManager {
    /// This implementation serves the DNF backend; the operations that
    /// invoke `dnf`, `rpm` and the elevation helper are assembled by the
    /// embedding application from the parsers below.
    fn manager_type(&self) -> (t: PackageManagerType)
        ensures
            t == PackageManagerType::Dnf,
    {
        PackageManagerType::Dnf
    }
}

/// What follows the fast count pipeline: a parsed count, a count that did
/// not parse, or — after a failed pipeline — the documented fallback of
/// listing the packages and counting them.
#[derive(Debug)]
pub enum CountStep {
    Counted(usize),
    Failed(CoreError),
    ListAndCount,
}

/// One update candidate from the upgrade-check report: the package name
/// with its architecture suffix stripped, and the version offered.
#[derive(Debug, Clone)]
pub struct UpdateCandidate {
    pub name: String,
    pub new_version: String,
}

/// The mathematical value of an `UpdateCandidate`.
pub struct UpdateCandidateV {
    pub name: Seq<char>,
    pub new_version: Seq<char>,
}

impl View for UpdateCandidate {
    type V = UpdateCandidateV;

    open spec fn view(&self) -> UpdateCandidateV {
        UpdateCandidateV { name: self.name@, new_version: self.new_version@ }
    }
}

impl DeepView for UpdateCandidate {
    type V = UpdateCandidateV;

    open spec fn deep_view(&self) -> UpdateCandidateV {
        self.view()
    }
}

/// A package token with its trailing `.arch` suffix removed: everything
/// before the last dot, or the whole token when it has no dot.
pub open spec fn spec_strip_arch(t: Seq<char>) -> Seq<char> {
    match spec_rfind_char(t, '.', t.len() as int) {
        None => t,
        Some(i) => t.subrange(0, i),
    }
}

/// The update candidate carried by one report line: the line is trimmed;
/// blank lines and the two repository banners are skipped; a line with
/// fewer than two whitespace-separated tokens is skipped; otherwise the
/// first token loses its architecture suffix and the second is the offered
/// version.
pub open spec fn spec_dnf_update_line(raw: Seq<char>) -> Option<UpdateCandidateV> {
    let l = spec_trim(raw);
    if l.len() == 0 || spec_starts_with(l, "Updating and loading repositories:"@)
        || spec_starts_with(l, "Repositories loaded."@) {
        None
    } else {
        let toks = spec_split_ws(l, 0);
        if toks.len() < 2 {
            None
        } else {
            Some(UpdateCandidateV { name: spec_strip_arch(toks[0]), new_version: toks[1] })
        }
    }
}

/// The candidate scan over the report lines, suppressing every name that
/// already appeared: the first occurrence wins.
pub open spec fn spec_dnf_scan(lines: Seq<Seq<char>>, seen: Seq<Seq<char>>) -> Seq<
    UpdateCandidateV,
>
    decreases lines.len(),
{
    if lines.len() == 0 {
        seq![]
    } else {
        let rest = lines.drop_first();
        match spec_dnf_update_line(lines[0]) {
            None => spec_dnf_scan(rest, seen),
            Some(c) => if seen.contains(c.name) {
                spec_dnf_scan(rest, seen)
            } else {
                seq![c] + spec_dnf_scan(rest, seen.push(c.name))
            },
        }
    }
}

/// The deduplicated update candidates of a full upgrade-check report.
pub open spec fn spec_dnf_update_report(s: Seq<char>) -> Seq<UpdateCandidateV> {
    spec_dnf_scan(spec_lines(s), Seq::empty())
}

/// No candidate the scan yields bears a name from `seen`, and no two
/// candidates it yields share a name.
pub proof fn lemma_dnf_scan_names(lines: Seq<Seq<char>>, seen: Seq<Seq<char>>)
    ensures
        forall|a: int|
            0 <= a < spec_dnf_scan(lines, seen).len() ==> !seen.contains(
                #[trigger] spec_dnf_scan(lines, seen)[a].name,
            ),
        forall|a: int, b: int|
            0 <= a < b < spec_dnf_scan(lines, seen).len() ==> spec_dnf_scan(lines, seen)[a].name
                != spec_dnf_scan(lines, seen)[b].name,
    decreases lines.len(),
{
    if lines.len() > 0 {
        let rest = lines.drop_first();
        let res = spec_dnf_scan(lines, seen);
        match spec_dnf_update_line(lines[0]) {
            None => {
                lemma_dnf_scan_names(rest, seen);
                let tail = spec_dnf_scan(rest, seen);
                assert forall|a: int| 0 <= a < res.len() implies !seen.contains(res[a].name) by {
                    assert(res[a] == tail[a]);
                }
                assert forall|a: int, b: int| 0 <= a < b < res.len() implies res[a].name
                    != res[b].name by {
                    assert(res[a] == tail[a]);
                    assert(res[b] == tail[b]);
                }
            },
            Some(c) => {
                if seen.contains(c.name) {
                    lemma_dnf_scan_names(rest, seen);
                    let tail = spec_dnf_scan(rest, seen);
                    assert forall|a: int| 0 <= a < res.len() implies !seen.contains(
                        res[a].name,
                    ) by {
                        assert(res[a] == tail[a]);
                    }
                    assert forall|a: int, b: int| 0 <= a < b < res.len() implies res[a].name
                        != res[b].name by {
                        assert(res[a] == tail[a]);
                        assert(res[b] == tail[b]);
                    }
                } else {
                    lemma_dnf_scan_names(rest, seen.push(c.name));
                    let tail = spec_dnf_scan(rest, seen.push(c.name));
                    assert(res =~= seq![c] + tail);
                    assert forall|a: int| 0 <= a < res.len() implies !seen.contains(
                        res[a].name,
                    ) by {
                        if a > 0 {
                            assert(res[a] == tail[a - 1]);
                            lemma_seq_push_contains(seen, c.name, tail[a - 1].name);
                        }
                    }
                    assert forall|a: int, b: int| 0 <= a < b < res.len() implies res[a].name
                        != res[b].name by {
                        if a == 0 {
                            assert(res[b] == tail[b - 1]);
                            lemma_seq_push_contains(seen, c.name, tail[b - 1].name);
                            assert(seen.push(c.name).contains(c.name)) by {
                                lemma_seq_push_contains(seen, c.name, c.name);
                            }
                        } else {
                            assert(res[a] == tail[a - 1]);
                            assert(res[b] == tail[b - 1]);
                        }
                    }
                }
            },
        }
    }
}

/// Duplicate suppression: a report with two lines for the same package
/// name, as multi-architecture repositories produce, yields exactly one
/// candidate per name — all names in the report's candidate list differ.
pub proof fn lemma_update_report_names_unique(output: Seq<char>)
    ensures
        forall|a: int, b: int|
            0 <= a < b < spec_dnf_update_report(output).len() ==> spec_dnf_update_report(
                output,
            )[a].name != spec_dnf_update_report(output)[b].name,
{
    lemma_dnf_scan_names(spec_lines(output), Seq::empty());
}

/// A token with its `.arch` suffix stripped.
pub fn strip_arch(t: &str) -> (r: String)
    ensures
        r@ == spec_strip_arch(t@),
{
    proof {
        lemma_rfind_char_props(t@, '.', t@.len() as int);
    }
    match rfind_char(t, '.') {
        None => String::from_str(t),
        Some(i) => String::from_str(t.substring_char(0, i)),
    }
}

fn parse_update_line(raw: &str) -> (r: Option<UpdateCandidate>)
    ensures
        r.deep_view() == spec_dnf_update_line(raw@),
{
    let l = trim(raw);
    let ls = l.as_str();
    if ls.unicode_len() == 0 || starts_with(ls, "Updating and loading repositories:")
        || starts_with(ls, "Repositories loaded.") {
        return None;
    }
    let toks = split_ws(ls);
    if toks.len() < 2 {
        return None;
    }
    let name = strip_arch(toks[0].as_str());
    Some(UpdateCandidate { name, new_version: toks[1].clone() })
}

impl DnfManager {
    /// Parse the upgrade-check report into update candidates: one per
    /// update line, names stripped of their architecture suffix, duplicate
    /// names suppressed with the first occurrence winning. Empty output
    /// yields no candidates.
    #[verifier::loop_isolation(false)]
    pub fn parse_update_report(output: &str) -> (r: Vec<UpdateCandidate>)
        ensures
            r.deep_view() == spec_dnf_update_report(output@),
            output@.len() == 0 ==> r@.len() == 0,
    {
        let lines = split_lines(output);
        let ghost lv = lines.deep_view();
        let mut out: Vec<UpdateCandidate> = Vec::new();
        let mut seen: Vec<String> = Vec::new();
        let mut i: usize = 0;
        proof {
            assert(lv.skip(0) =~= lv);
            assert(out.deep_view() =~= Seq::<UpdateCandidateV>::empty());
            assert(seen.deep_view() =~= Seq::<Seq<char>>::empty());
            assert(out.deep_view() + spec_dnf_scan(lv, seen.deep_view()) =~= spec_dnf_scan(
                lv,
                Seq::empty(),
            ));
        }
        while i < lines.len()
            invariant
                0 <= i <= lines.len(),
                lv.len() == lines.len(),
                spec_dnf_scan(lv, Seq::empty()) == out.deep_view() + spec_dnf_scan(
                    lv.skip(i as int),
                    seen.deep_view(),
                ),
            decreases lines.len() - i,
        {
            proof {
                assert(lv.skip(i as int).drop_first() =~= lv.skip(i + 1));
                assert(lv.skip(i as int)[0] == lv[i as int]);
                assert(lines@[i as int]@ == lv[i as int]);
            }
            match parse_update_line(lines[i].as_str()) {
                None => {},
                Some(c) => {
                    if !contains_view(&seen, c.name.as_str()) {
                        let ghost prev_seen = seen.deep_view();
                        let ghost prev_out = out.deep_view();
                        seen.push(c.name.clone());
                        out.push(c);
                        proof {
                            assert(seen.deep_view() =~= prev_seen.push(
                                out.deep_view()[prev_out.len() as int].name,
                            ));
                            assert(out.deep_view() + spec_dnf_scan(lv.skip(i + 1), seen.deep_view())
                                =~= prev_out + spec_dnf_scan(lv.skip(i as int), prev_seen));
                        }
                    }
                },
            }
            i = i + 1;
        }
        proof {
            assert(lv.skip(lines.len() as int) =~= Seq::<Seq<char>>::empty());
            assert(out.deep_view() =~= spec_dnf_scan(lv, Seq::empty()));
            if output@.len() == 0 {
                assert(spec_lines(output@) =~= Seq::<Seq<char>>::empty());
            }
        }
        out
    }

    /// The pending update for one candidate once its installed version was
    /// looked up: a failed lookup degrades the current version to the
    /// literal `unknown` rather than aborting the listing, and a candidate
    /// whose looked-up version equals the offered one is a false positive
    /// and yields no update.
    pub fn resolve_update(candidate: &UpdateCandidate, current: Option<String>) -> (r: Option<
        PackageUpdate,
    >)
        ensures
            ({
                let cur = match current {
                    Some(v) => v@,
                    None => "unknown"@,
                };
                if cur == candidate.new_version@ {
                    r is None
                } else {
                    r matches Some(u) && u.name@ == candidate.name@ && u.current_version@ == cur
                        && u.new_version@ == candidate.new_version@
                }
            }),
    {
        let current_version = match current {
            Some(v) => v,
            None => String::from_str("unknown"),
        };
        if eq_str(current_version.as_str(), candidate.new_version.as_str()) {
            None
        } else {
            Some(
                PackageUpdate {
                    name: candidate.name.clone(),
                    current_version,
                    new_version: candidate.new_version.clone(),
                },
            )
        }
    }

    /// The next move after the fast count pipeline ran: its parsed count,
    /// its parse failure, or — when the pipeline itself failed — the
    /// instruction to list the packages and count them instead.
    pub fn count_step(out: &CmdOutput) -> (r: CountStep)
        ensures
            !out.ok ==> r is ListAndCount,
            out.ok ==> match spec_parse_usize(spec_trim(out.stdout@)) {
                Some(n) => r matches CountStep::Counted(v) && v == n,
                None => (r matches CountStep::Failed(e) && e matches CoreError::ParseError(m)
                    && m@ == "Failed to parse count"@),
            },
    {
        if !out.ok {
            return CountStep::ListAndCount;
        }
        match Self::parse_count_output(out.stdout.as_str()) {
            Ok(n) => CountStep::Counted(n),
            Err(e) => CountStep::Failed(e),
        }
    }

    /// The found names behind a captured search invocation: a failing
    /// search yields an empty result set rather than an error.
    pub fn search_names_from(out: &CmdOutput) -> (r: Vec<String>)
        ensures
            !out.ok ==> r@.len() == 0,
            out.ok ==> r.deep_view() == spec_dnf_search_names(spec_lines(out.stdout@)),
    {
        if !out.ok {
            return Vec::new();
        }
        Self::parse_search_output(out.stdout.as_str())
    }

    /// The argument list of one elevated batch invocation: the
    /// package-manager path, the verb, `-y`, then every requested name.
    #[verifier::loop_isolation(false)]
    pub fn batch_args(path: &str, verb: &str, package_names: &[String]) -> (r: Vec<String>)
        ensures
            r.deep_view() == seq![path@, verb@, "-y"@] + package_names.deep_view(),
    {
        let mut args: Vec<String> = Vec::new();
        args.push(String::from_str(path));
        args.push(String::from_str(verb));
        args.push(String::from_str("-y"));
        let mut i: usize = 0;
        while i < package_names.len()
            invariant
                0 <= i <= package_names.len(),
                args@.len() == 3 + i,
                args@[0]@ == path@,
                args@[1]@ == verb@,
                args@[2]@ == "-y"@,
                forall|k: int| 0 <= k < i ==> #[trigger] args@[3 + k]@ == package_names.deep_view()[k],
            decreases package_names.len() - i,
        {
            args.push(package_names[i].clone());
            i = i + 1;
        }
        proof {
            let full = seq![path@, verb@, "-y"@] + package_names.deep_view();
            assert forall|k: int| 0 <= k < args@.len() implies #[trigger] args.deep_view()[k]
                == full[k] by {
                assert(args.deep_view()[k] == args@[k]@);
                if k >= 3 {
                    assert(args@[3 + (k - 3)]@ == package_names.deep_view()[k - 3]);
                }
            }
            assert(args.deep_view() =~= full);
        }
        args
    }

    /// The answer of the single-package version query: the trimmed output
    /// on success, the documented "not found" parse error otherwise.
    pub fn current_version_from(package_name: &str, out: &CmdOutput) -> (r: Result<
        String,
        CoreError,
    >)
        ensures
            out.ok ==> (r matches Ok(v) && v@ == spec_trim(out.stdout@)),
            !out.ok ==> (r matches Err(e) && e matches CoreError::ParseError(m) && m@
                == "Package "@ + package_name@ + " not found"@),
    {
        if out.ok {
            Ok(trim(out.stdout.as_str()))
        } else {
            Err(CoreError::ParseError(concat3("Package ", package_name, " not found")))
        }
    }

    /// The installed count from the fast line-count pipeline's output.
    pub fn parse_count_output(s: &str) -> (r: Result<usize, CoreError>)
        ensures
            match spec_parse_usize(spec_trim(s@)) {
                Some(n) => r matches Ok(v) && v == n,
                None => (r matches Err(e) && e matches CoreError::ParseError(m) && m@
                    == "Failed to parse count"@),
            },
    {
        let t = trim(s);
        match parse_usize(t.as_str()) {
            Some(n) => Ok(n),
            None => Err(CoreError::ParseError(String::from_str("Failed to parse count"))),
        }
    }

    /// The batch removal outcome: non-zero exit reports the captured
    /// standard-error text.
    pub fn remove_result(out: &CmdOutput) -> (r: Result<(), CoreError>)
        ensures
            out.ok ==> r is Ok,
            !out.ok ==> (r matches Err(e) && e matches CoreError::UnknownError(m) && m@
                == "pkexec dnf remove failed: "@ + out.stderr@),
    {
        if out.ok {
            Ok(())
        } else {
            Err(
                CoreError::UnknownError(
                    concat2("pkexec dnf remove failed: ", out.stderr.as_str()),
                ),
            )
        }
    }

    /// The batch upgrade outcome.
    pub fn upgrade_result(out: &CmdOutput) -> (r: Result<(), CoreError>)
        ensures
            out.ok ==> r is Ok,
            !out.ok ==> (r matches Err(e) && e matches CoreError::UnknownError(m) && m@
                == "pkexec dnf upgrade failed: "@ + out.stderr@),
    {
        if out.ok {
            Ok(())
        } else {
            Err(
                CoreError::UnknownError(
                    concat2("pkexec dnf upgrade failed: ", out.stderr.as_str()),
                ),
            )
        }
    }

    /// The batch installation outcome.
    pub fn install_result(out: &CmdOutput) -> (r: Result<(), CoreError>)
        ensures
            out.ok ==> r is Ok,
            !out.ok ==> (r matches Err(e) && e matches CoreError::UnknownError(m) && m@
                == "pkexec dnf install failed: "@ + out.stderr@),
    {
        if out.ok {
            Ok(())
        } else {
            Err(
                CoreError::UnknownError(
                    concat2("pkexec dnf install failed: ", out.stderr.as_str()),
                ),
            )
        }
    }
}


/// One parsed row of the installed-database listing: the six tab-separated
/// fields of the fixed query format, with the optional ones normalized. The
/// literal `(none)` and an empty field both mean "absent".
#[derive(Debug, Clone)]
pub struct DnfRow {
    pub name: String,
    pub version: String,
    pub description: Option<String>,
    pub size: Option<u64>,
    pub install_epoch: Option<i64>,
    pub homepage: Option<String>,
}

/// The mathematical value of a `DnfRow`.
pub struct DnfRowV {
    pub name: Seq<char>,
    pub version: Seq<char>,
    pub description: Option<Seq<char>>,
    pub size: Option<u64>,
    pub install_epoch: Option<i64>,
    pub homepage: Option<Seq<char>>,
}

impl View for DnfRow {
    type V = DnfRowV;

    open spec fn view(&self) -> DnfRowV {
        DnfRowV {
            name: self.name@,
            version: self.version@,
            description: self.description.deep_view(),
            size: self.size,
            install_epoch: self.install_epoch,
            homepage: self.homepage.deep_view(),
        }
    }
}

impl DeepView for DnfRow {
    type V = DnfRowV;

    open spec fn deep_view(&self) -> DnfRowV {
        self.view()
    }
}

/// Field `i` of a listing row when it is present, non-empty and not the
/// literal placeholder `(none)`.
pub open spec fn spec_opt_field(parts: Seq<Seq<char>>, i: int) -> Option<Seq<char>> {
    if i < parts.len() && parts[i].len() > 0 && parts[i] != "(none)"@ {
        Some(parts[i])
    } else {
        None
    }
}

/// The row carried by one listing line: tab-separated fields, at least a
/// name and a version; the description, size, install time and homepage are
/// best-effort.
pub open spec fn spec_dnf_row(l: Seq<char>) -> Option<DnfRowV> {
    let parts = spec_split_char(l, '\t');
    if parts.len() < 2 {
        None
    } else {
        Some(
            DnfRowV {
                name: parts[0],
                version: parts[1],
                description: spec_opt_field(parts, 2),
                size: if parts.len() > 3 {
                    spec_parse_u64(parts[3])
                } else {
                    None
                },
                install_epoch: match spec_opt_field(parts, 4) {
                    Some(t) => spec_parse_i64(t),
                    None => None,
                },
                homepage: spec_opt_field(parts, 5),
            },
        )
    }
}

/// The rows of a full installed-database listing, in line order.
pub open spec fn spec_dnf_rows_of(lines: Seq<Seq<char>>) -> Seq<DnfRowV>
    decreases lines.len(),
{
    if lines.len() == 0 {
        seq![]
    } else {
        match spec_dnf_row(lines[0]) {
            None => spec_dnf_rows_of(lines.drop_first()),
            Some(x) => seq![x] + spec_dnf_rows_of(lines.drop_first()),
        }
    }
}

/// The rows of a full installed-database listing output.
pub open spec fn spec_dnf_installed_rows(s: Seq<char>) -> Seq<DnfRowV> {
    spec_dnf_rows_of(spec_lines(s))
}

/// How an emitted install date relates to the parsed epoch field: no epoch
/// means no date; an epoch between the Unix epoch and the end of year 9999
/// renders to its display text; one outside that range renders or degrades
/// to absent — never to an error.
pub open spec fn spec_install_date_matches(epoch: Option<i64>, d: Option<Seq<char>>) -> bool {
    match epoch {
        None => d is None,
        Some(ts) => if 0 <= ts <= 253402300799 {
            d == Some(epoch_display_of(ts as int))
        } else {
            d is None || d == Some(epoch_display_of(ts as int))
        },
    }
}

/// How an emitted record relates to its listing row: every field carried
/// over, the source fixed, and the install date rendered from the epoch.
pub open spec fn spec_row_to_info(row: DnfRowV, p: PackageInfoV) -> bool {
    &&& p.name == row.name
    &&& p.version == row.version
    &&& p.source == PackageManagerType::Dnf
    &&& p.description == row.description
    &&& p.size == row.size
    &&& p.homepage == row.homepage
    &&& spec_install_date_matches(row.install_epoch, p.install_date)
}

fn opt_field(parts: &Vec<String>, i: usize) -> (r: Option<String>)
    ensures
        r.deep_view() == spec_opt_field(parts.deep_view(), i as int),
{
    if i < parts.len() {
        let t = parts[i].as_str();
        if t.unicode_len() > 0 && !eq_str(t, "(none)") {
            return Some(parts[i].clone());
        }
    }
    None
}

fn parse_installed_line(l: &str) -> (r: Option<DnfRow>)
    ensures
        r.deep_view() == spec_dnf_row(l@),
{
    let parts = split_char(l, '\t');
    if parts.len() < 2 {
        return None;
    }
    let size = if parts.len() > 3 {
        parse_u64(parts[3].as_str())
    } else {
        None
    };
    let install_epoch = match opt_field(&parts, 4) {
        Some(t) => parse_i64(t.as_str()),
        None => None,
    };
    Some(
        DnfRow {
            name: parts[0].clone(),
            version: parts[1].clone(),
            description: opt_field(&parts, 2),
            size,
            install_epoch,
            homepage: opt_field(&parts, 5),
        },
    )
}

impl DnfManager {
    /// Parse the installed-database listing into rows: one per line with at
    /// least a name and version field. Empty output yields no rows.
    #[verifier::loop_isolation(false)]
    pub fn parse_installed_rows(output: &str) -> (r: Vec<DnfRow>)
        ensures
            r.deep_view() == spec_dnf_installed_rows(output@),
            output@.len() == 0 ==> r@.len() == 0,
    {
        let lines = split_lines(output);
        let ghost lv = lines.deep_view();
        let mut out: Vec<DnfRow> = Vec::new();
        let mut i: usize = 0;
        proof {
            assert(lv.skip(0) =~= lv);
            assert(out.deep_view() =~= Seq::<DnfRowV>::empty());
            assert(out.deep_view() + spec_dnf_rows_of(lv) =~= spec_dnf_rows_of(lv));
        }
        while i < lines.len()
            invariant
                0 <= i <= lines.len(),
                lv.len() == lines.len(),
                spec_dnf_rows_of(lv) == out.deep_view() + spec_dnf_rows_of(lv.skip(i as int)),
            decreases lines.len() - i,
        {
            proof {
                assert(lv.skip(i as int).drop_first() =~= lv.skip(i + 1));
                assert(lv.skip(i as int)[0] == lv[i as int]);
                assert(lines@[i as int]@ == lv[i as int]);
            }
            match parse_installed_line(lines[i].as_str()) {
                None => {},
                Some(row) => {
                    let ghost prev_out = out.deep_view();
                    out.push(row);
                    proof {
                        assert(out.deep_view() + spec_dnf_rows_of(lv.skip(i + 1)) =~= prev_out
                            + spec_dnf_rows_of(lv.skip(i as int)));
                    }
                },
            }
            i = i + 1;
        }
        proof {
            assert(lv.skip(lines.len() as int) =~= Seq::<Seq<char>>::empty());
            assert(out.deep_view() =~= spec_dnf_rows_of(lv));
            if output@.len() == 0 {
                assert(spec_lines(output@) =~= Seq::<Seq<char>>::empty());
            }
        }
        out
    }

    /// The installed listing behind a captured database query: a non-zero
    /// exit is the documented failure; a successful one yields one record
    /// per row, the install time rendered from its epoch field and degrading
    /// to absent when out of range.
    #[verifier::loop_isolation(false)]
    pub fn list_installed_from(out: &CmdOutput) -> (r: Result<Vec<PackageInfo>, CoreError>)
        ensures
            !out.ok ==> (r matches Err(e) && e matches CoreError::UnknownError(m) && m@
                == "rpm -qa failed"@),
            out.ok ==> (r matches Ok(v) && v.deep_view().len() == spec_dnf_installed_rows(
                out.stdout@,
            ).len() && (forall|i: int|
                0 <= i < v.deep_view().len() ==> spec_row_to_info(
                    spec_dnf_installed_rows(out.stdout@)[i],
                    #[trigger] v.deep_view()[i],
                ))),
            out.ok && out.stdout@.len() == 0 ==> (r matches Ok(v) && v@.len() == 0),
    {
        if !out.ok {
            return Err(CoreError::UnknownError(String::from_str("rpm -qa failed")));
        }
        let rows = Self::parse_installed_rows(out.stdout.as_str());
        let ghost rv = rows.deep_view();
        let mut packages: Vec<PackageInfo> = Vec::new();
        let mut i: usize = 0;
        while i < rows.len()
            invariant
                0 <= i <= rows.len(),
                rv.len() == rows.len(),
                packages.len() == i,
                forall|k: int| 0 <= k < i ==> spec_row_to_info(rv[k], #[trigger] packages@[k]@),
            decreases rows.len() - i,
        {
            let row = &rows[i];
            let install_date = match row.install_epoch {
                Some(ts) => format_epoch_seconds(ts),
                None => None,
            };
            packages.push(
                PackageInfo {
                    name: row.name.clone(),
                    version: row.version.clone(),
                    source: PackageManagerType::Dnf,
                    description: clone_opt(&row.description),
                    size: row.size,
                    install_date,
                    homepage: clone_opt(&row.homepage),
                },
            );
            proof {
                assert(spec_row_to_info(rv[i as int], packages@[i as int]@));
            }
            i = i + 1;
        }
        proof {
            assert forall|k: int| 0 <= k < packages.deep_view().len() implies spec_row_to_info(
                rv[k],
                #[trigger] packages.deep_view()[k],
            ) by {
                assert(packages.deep_view()[k] == packages@[k]@);
            }
        }
        Ok(packages)
    }

    /// The record the catalog search emits for one found name, with the
    /// best-effort installed version: a failed or `unknown` lookup leaves
    /// the version empty, since search hits need not be installed.
    pub fn search_info(name: String, current: Option<String>) -> (r: PackageInfo)
        ensures
            r.name@ == name@,
            r.source == PackageManagerType::Dnf,
            current is Some && current->0@ != "unknown"@ ==> r.version@ == current->0@,
            current is Some && current->0@ == "unknown"@ ==> r.version@.len() == 0,
            current is None ==> r.version@.len() == 0,
            r.description is None,
            r.size is None,
            r.install_date is None,
            r.homepage is None,
    {
        let version = match current {
            Some(v) => {
                if eq_str(v.as_str(), "unknown") {
                    String::new()
                } else {
                    v
                }
            },
            None => String::new(),
        };
        PackageInfo {
            name,
            version,
            source: PackageManagerType::Dnf,
            description: None,
            size: None,
            install_date: None,
            homepage: None,
        }
    }
}

/// The package name carried by one search-output line of the form
/// `name.arch : summary`: the line is trimmed; blank lines, lines without a
/// colon, continuation lines (whose head holds a space) and section
/// markers (beginning with `=`) are skipped; the name loses its
/// architecture suffix.
pub open spec fn spec_dnf_search_name(raw: Seq<char>) -> Option<Seq<char>> {
    let l = spec_trim(raw);
    if l.len() == 0 {
        None
    } else {
        match spec_find_char(l, ':', 0) {
            None => None,
            Some(i) => {
                let name_part = spec_trim(l.subrange(0, i));
                if spec_find_char(name_part, ' ', 0) is Some || (name_part.len() > 0
                    && name_part[0] == '=') {
                    None
                } else {
                    Some(spec_strip_arch(name_part))
                }
            },
        }
    }
}

/// The found names of a search output, in line order.
pub open spec fn spec_dnf_search_names(lines: Seq<Seq<char>>) -> Seq<Seq<char>>
    decreases lines.len(),
{
    if lines.len() == 0 {
        seq![]
    } else {
        match spec_dnf_search_name(lines[0]) {
            None => spec_dnf_search_names(lines.drop_first()),
            Some(x) => seq![x] + spec_dnf_search_names(lines.drop_first()),
        }
    }
}

fn parse_search_line(raw: &str) -> (r: Option<String>)
    ensures
        r.deep_view() == spec_dnf_search_name(raw@),
{
    let l = trim(raw);
    let ls = l.as_str();
    let n = ls.unicode_len();
    if n == 0 {
        return None;
    }
    match crate::text::find_char(ls, ':') {
        None => None,
        Some(i) => {
            proof {
                crate::text::lemma_find_char_props(ls@, ':', 0);
            }
            let name_part = trim(ls.substring_char(0, i));
            let np = name_part.as_str();
            if crate::text::contains_char(np, ' ') || (np.unicode_len() > 0 && np.get_char(0)
                == '=') {
                None
            } else {
                Some(strip_arch(np))
            }
        },
    }
}

impl DnfManager {
    /// Parse the catalog-search output into found package names, in order.
    /// Empty output yields no names.
    #[verifier::loop_isolation(false)]
    pub fn parse_search_output(output: &str) -> (r: Vec<String>)
        ensures
            r.deep_view() == spec_dnf_search_names(spec_lines(output@)),
            output@.len() == 0 ==> r@.len() == 0,
    {
        let lines = split_lines(output);
        let ghost lv = lines.deep_view();
        let mut out: Vec<String> = Vec::new();
        let mut i: usize = 0;
        proof {
            assert(lv.skip(0) =~= lv);
            assert(out.deep_view() =~= Seq::<Seq<char>>::empty());
            assert(out.deep_view() + spec_dnf_search_names(lv) =~= spec_dnf_search_names(lv));
        }
        while i < lines.len()
            invariant
                0 <= i <= lines.len(),
                lv.len() == lines.len(),
                spec_dnf_search_names(lv) == out.deep_view() + spec_dnf_search_names(
                    lv.skip(i as int),
                ),
            decreases lines.len() - i,
        {
            proof {
                assert(lv.skip(i as int).drop_first() =~= lv.skip(i + 1));
                assert(lv.skip(i as int)[0] == lv[i as int]);
                assert(lines@[i as int]@ == lv[i as int]);
            }
            match parse_search_line(lines[i].as_str()) {
                None => {},
                Some(name) => {
                    let ghost prev_out = out.deep_view();
                    out.push(name);
                    proof {
                        assert(out.deep_view() + spec_dnf_search_names(lv.skip(i + 1)) =~= prev_out
                            + spec_dnf_search_names(lv.skip(i as int)));
                    }
                },
            }
            i = i + 1;
        }
        proof {
            assert(lv.skip(lines.len() as int) =~= Seq::<Seq<char>>::empty());
            assert(out.deep_view() =~= spec_dnf_search_names(lv));
            if output@.len() == 0 {
                assert(spec_lines(output@) =~= Seq::<Seq<char>>::empty());
            }
        }
        out
    }
}



/// Listing is read-only: two parses of the same captured installed listing
/// yield the same rows, and so the same collection up to ordering.
pub proof fn lemma_list_installed_idempotent(a: Seq<char>, b: Seq<char>)
    requires
        a == b,
    ensures
        spec_dnf_installed_rows(a) == spec_dnf_installed_rows(b),
        spec_dnf_installed_rows(a).to_multiset() == spec_dnf_installed_rows(b).to_multiset(),
{
}

} // verus!
