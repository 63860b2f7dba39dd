//! The Homebrew backend: pending updates come from `outdated --verbose`
//! lines of the shape `name (current) < new`; the installed listing prefers
//! the structured JSON of `info --json=v2 --installed` and falls back to
//! the plain `list --versions` text; search output is one name per line.

use vstd::prelude::*;
use vstd::string::*;

use crate::error::CoreError;
use crate::jsonval::{
    doc_arr_field, doc_model, doc_str_field, json_get, json_model_of, parse_json,
    spec_json_arr_field, spec_json_str_field, spec_obj_get, JsonV,
};
use crate::text::{
    concat3, concat4, lemma_find_char_props, lemma_rfind_char_props, spec_find_char, spec_lines,
    spec_rfind_char, spec_split_ws, spec_trim, split_lines, split_ws, trim,
};
use crate::{CmdOutput, PackageInfo, PackageInfoV, PackageManager, PackageManagerType,
    PackageUpdate, PackageUpdateV};

verus! {

/// The Homebrew backend.
#[derive(Debug, Clone, Copy)]
pub struct HomebrewManager;

impl PackageManager for HomebrewManager {
    /// This implementation serves the Homebrew backend; the operations that
    /// invoke `brew` are assembled by the embedding application from the
    /// parsers below.
    fn manager_type(&self) -> (t: PackageManagerType)
        ensures
            t == PackageManagerType::Homebrew,
    {
        PackageManagerType::Homebrew
    }
}

/// The name and parenthesized version inside the left half of an outdated
/// line: the text before the last `(`, trimmed, and the text between that
/// `(` and the last `)`, trimmed — provided the `(` comes first. Package
/// names may contain spaces, so the parentheses are located from the right.
pub open spec fn spec_name_and_version(s: Seq<char>) -> Option<(Seq<char>, Seq<char>)> {
    match spec_rfind_char(s, '(', s.len() as int) {
        None => None,
        Some(i) => match spec_rfind_char(s, ')', s.len() as int) {
            None => None,
            Some(j) => if i >= j {
                None
            } else {
                Some((spec_trim(s.subrange(0, i)), spec_trim(s.subrange(i + 1, j))))
            },
        },
    }
}

/// The update carried by one `outdated --verbose` line: the line is
/// trimmed; an empty line or one without `<` yields nothing; otherwise the
/// left half must carry a parenthesized current version, and the right half
/// is the offered version. A line with no parenthesized version yields no
/// update.
pub open spec fn spec_brew_outdated_line(raw: Seq<char>) -> Option<PackageUpdateV> {
    let l = spec_trim(raw);
    if l.len() == 0 {
        None
    } else {
        match spec_find_char(l, '<', 0) {
            None => None,
            Some(i) => {
                let left = spec_trim(l.subrange(0, i));
                let right = spec_trim(l.subrange(i + 1, l.len() as int));
                match spec_name_and_version(left) {
                    None => None,
                    Some(nv) => Some(
                        PackageUpdateV {
                            name: nv.0,
                            current_version: nv.1,
                            new_version: right,
                        },
                    ),
                }
            },
        }
    }
}

/// The updates of a full `outdated --verbose` output, in line order.
pub open spec fn spec_brew_updates_of(lines: Seq<Seq<char>>) -> Seq<PackageUpdateV>
    decreases lines.len(),
{
    if lines.len() == 0 {
        seq![]
    } else {
        match spec_brew_outdated_line(lines[0]) {
            None => spec_brew_updates_of(lines.drop_first()),
            Some(u) => seq![u] + spec_brew_updates_of(lines.drop_first()),
        }
    }
}

/// One line of a `list --versions` output: a package name followed by one
/// or more version tokens, of which the last — the most recently installed
/// version — counts.
pub open spec fn spec_brew_versions_line(raw: Seq<char>) -> Option<(Seq<char>, Seq<char>)> {
    let l = spec_trim(raw);
    if l.len() == 0 {
        None
    } else {
        let toks = spec_split_ws(l, 0);
        if toks.len() >= 2 {
            Some((toks[0], toks.last()))
        } else {
            None
        }
    }
}

/// The name/version pairs of a full `list --versions` output, in line
/// order.
pub open spec fn spec_brew_versions_of(lines: Seq<Seq<char>>) -> Seq<(Seq<char>, Seq<char>)>
    decreases lines.len(),
{
    if lines.len() == 0 {
        seq![]
    } else {
        match spec_brew_versions_line(lines[0]) {
            None => spec_brew_versions_of(lines.drop_first()),
            Some(e) => seq![e] + spec_brew_versions_of(lines.drop_first()),
        }
    }
}

/// The found name on one search-output line: the trimmed line itself,
/// unless blank or a `=` section marker.
pub open spec fn spec_brew_search_line(raw: Seq<char>) -> Option<Seq<char>> {
    let l = spec_trim(raw);
    if l.len() == 0 || l[0] == '=' {
        None
    } else {
        Some(l)
    }
}

/// The found names of a full search output, in line order.
pub open spec fn spec_brew_search_names(lines: Seq<Seq<char>>) -> Seq<Seq<char>>
    decreases lines.len(),
{
    if lines.len() == 0 {
        seq![]
    } else {
        match spec_brew_search_line(lines[0]) {
            None => spec_brew_search_names(lines.drop_first()),
            Some(x) => seq![x] + spec_brew_search_names(lines.drop_first()),
        }
    }
}

/// Count of the lines that hold any non-whitespace character.
pub open spec fn spec_count_nonempty_lines(lines: Seq<Seq<char>>) -> int
    decreases lines.len(),
{
    if lines.len() == 0 {
        0
    } else {
        (if spec_trim(lines[0]).len() > 0 {
            1int
        } else {
            0int
        }) + spec_count_nonempty_lines(lines.drop_first())
    }
}


/// The version a formula entry reports: its `versions.stable` string, else
/// its plain `version` string, else the literal `unknown`.
pub open spec fn spec_formula_version(f: JsonV) -> Seq<char> {
    let stable = match spec_obj_get(f, "versions"@) {
        Some(vs) => spec_json_str_field(vs, "stable"@),
        None => None,
    };
    match stable {
        Some(s) => s,
        None => match spec_json_str_field(f, "version"@) {
            Some(s) => s,
            None => "unknown"@,
        },
    }
}

/// The installed record one formula entry of the structured listing
/// denotes: its `name` (empty when missing), its stable-else-plain version,
/// and its best-effort description and homepage.
pub open spec fn spec_formula_record(f: JsonV) -> PackageInfoV {
    PackageInfoV {
        name: match spec_json_str_field(f, "name"@) {
            Some(s) => s,
            None => Seq::empty(),
        },
        version: spec_formula_version(f),
        source: PackageManagerType::Homebrew,
        description: spec_json_str_field(f, "desc"@),
        size: None,
        install_date: None,
        homepage: spec_json_str_field(f, "homepage"@),
    }
}

/// The installed record one cask entry denotes: its `token` (empty when
/// missing), its `version` string or the literal `unknown`, and its
/// best-effort description and homepage.
pub open spec fn spec_cask_record(c: JsonV) -> PackageInfoV {
    PackageInfoV {
        name: match spec_json_str_field(c, "token"@) {
            Some(s) => s,
            None => Seq::empty(),
        },
        version: match spec_json_str_field(c, "version"@) {
            Some(s) => s,
            None => "unknown"@,
        },
        source: PackageManagerType::Homebrew,
        description: spec_json_str_field(c, "desc"@),
        size: None,
        install_date: None,
        homepage: spec_json_str_field(c, "homepage"@),
    }
}

/// The installed records a decoded structured listing denotes: one per
/// element of its `formulae` array, then one per element of its `casks`
/// array; a missing or non-array section contributes nothing.
pub open spec fn spec_brew_packages(m: JsonV) -> Seq<PackageInfoV> {
    spec_json_arr_field(m, "formulae"@).map_values(|f: JsonV| spec_formula_record(f))
        + spec_json_arr_field(m, "casks"@).map_values(|c: JsonV| spec_cask_record(c))
}

/// The installed records of a structured-listing document text: nothing
/// when the text does not decode.
pub open spec fn spec_brew_json_listing(s: Seq<char>) -> Option<Seq<PackageInfoV>> {
    match json_model_of(s) {
        Some(m) => Some(spec_brew_packages(m)),
        None => None,
    }
}

fn formula_record(f: &serde_json::Value) -> (r: PackageInfo)
    ensures
        r@ == spec_formula_record(doc_model(*f)),
{
    let name = match doc_str_field(f, "name") {
        Some(s) => s,
        None => String::new(),
    };
    let stable = match json_get(f, "versions") {
        Some(vs) => doc_str_field(vs, "stable"),
        None => None,
    };
    let version = match stable {
        Some(s) => s,
        None => match doc_str_field(f, "version") {
            Some(s) => s,
            None => String::from_str("unknown"),
        },
    };
    let description = doc_str_field(f, "desc");
    let homepage = doc_str_field(f, "homepage");
    PackageInfo {
        name,
        version,
        source: PackageManagerType::Homebrew,
        description,
        size: None,
        install_date: None,
        homepage,
    }
}

fn cask_record(c: &serde_json::Value) -> (r: PackageInfo)
    ensures
        r@ == spec_cask_record(doc_model(*c)),
{
    let name = match doc_str_field(c, "token") {
        Some(s) => s,
        None => String::new(),
    };
    let version = match doc_str_field(c, "version") {
        Some(s) => s,
        None => String::from_str("unknown"),
    };
    let description = doc_str_field(c, "desc");
    let homepage = doc_str_field(c, "homepage");
    PackageInfo {
        name,
        version,
        source: PackageManagerType::Homebrew,
        description,
        size: None,
        install_date: None,
        homepage,
    }
}

impl HomebrewManager {
    /// Split an outdated line's left half into name and current version.
    pub fn parse_name_and_version(s: &str) -> (r: Option<(String, String)>)
        ensures
            r.deep_view() == spec_name_and_version(s@),
    {
        proof {
            lemma_rfind_char_props(s@, '(', s@.len() as int);
            lemma_rfind_char_props(s@, ')', s@.len() as int);
        }
        let open_paren = match crate::text::rfind_char(s, '(') {
            None => {
                return None;
            },
            Some(i) => i,
        };
        let close_paren = match crate::text::rfind_char(s, ')') {
            None => {
                return None;
            },
            Some(j) => j,
        };
        if open_paren >= close_paren {
            return None;
        }
        let name = trim(s.substring_char(0, open_paren));
        let version = trim(s.substring_char(open_paren + 1, close_paren));
        Some((name, version))
    }

    fn parse_outdated_line(raw: &str) -> (r: Option<PackageUpdate>)
        ensures
            r.deep_view() == spec_brew_outdated_line(raw@),
    {
        let l = trim(raw);
        let ls = l.as_str();
        let n = ls.unicode_len();
        if n == 0 {
            return None;
        }
        match crate::text::find_char(ls, '<') {
            None => None,
            Some(i) => {
                proof {
                    lemma_find_char_props(ls@, '<', 0);
                }
                let left = trim(ls.substring_char(0, i));
                let right = trim(ls.substring_char(i + 1, n));
                match Self::parse_name_and_version(left.as_str()) {
                    None => None,
                    Some((name, current_version)) => Some(
                        PackageUpdate { name, current_version, new_version: right },
                    ),
                }
            },
        }
    }

    /// Parse a full `outdated --verbose` output into pending updates: one
    /// per line of the shape `name (current) < new`. Empty output yields no
    /// updates.
    #[verifier::loop_isolation(false)]
    pub fn parse_outdated_output(output: &str) -> (r: Vec<PackageUpdate>)
        ensures
            r.deep_view() == spec_brew_updates_of(spec_lines(output@)),
            output@.len() == 0 ==> r@.len() == 0,
    {
        let lines = split_lines(output);
        let ghost lv = lines.deep_view();
        let mut out: Vec<PackageUpdate> = Vec::new();
        let mut i: usize = 0;
        proof {
            assert(lv.skip(0) =~= lv);
            assert(out.deep_view() =~= Seq::<PackageUpdateV>::empty());
            assert(out.deep_view() + spec_brew_updates_of(lv) =~= spec_brew_updates_of(lv));
        }
        while i < lines.len()
            invariant
                0 <= i <= lines.len(),
                lv.len() == lines.len(),
                spec_brew_updates_of(lv) == out.deep_view() + spec_brew_updates_of(
                    lv.skip(i as int),
                ),
            decreases lines.len() - i,
        {
            proof {
                assert(lv.skip(i as int).drop_first() =~= lv.skip(i + 1));
                assert(lv.skip(i as int)[0] == lv[i as int]);
                assert(lines@[i as int]@ == lv[i as int]);
            }
            match Self::parse_outdated_line(lines[i].as_str()) {
                None => {},
                Some(u) => {
                    let ghost prev_out = out.deep_view();
                    out.push(u);
                    proof {
                        assert(out.deep_view() + spec_brew_updates_of(lv.skip(i + 1)) =~= prev_out
                            + spec_brew_updates_of(lv.skip(i as int)));
                    }
                },
            }
            i = i + 1;
        }
        proof {
            assert(lv.skip(lines.len() as int) =~= Seq::<Seq<char>>::empty());
            assert(out.deep_view() =~= spec_brew_updates_of(lv));
            if output@.len() == 0 {
                assert(spec_lines(output@) =~= Seq::<Seq<char>>::empty());
            }
        }
        out
    }

    /// The pending updates behind a captured `outdated --verbose`
    /// invocation: a non-zero exit is the documented failure, a successful
    /// one is parsed.
    pub fn updates_from_output(out: &CmdOutput) -> (r: Result<Vec<PackageUpdate>, CoreError>)
        ensures
            !out.ok ==> (r matches Err(e) && e matches CoreError::UnknownError(m) && m@
                == "brew outdated --verbose failed"@),
            out.ok ==> (r matches Ok(v) && v.deep_view() == spec_brew_updates_of(
                spec_lines(out.stdout@),
            )),
    {
        if !out.ok {
            return Err(
                CoreError::UnknownError(String::from_str("brew outdated --verbose failed")),
            );
        }
        Ok(Self::parse_outdated_output(out.stdout.as_str()))
    }

    /// The search records behind a captured search invocation: a failing
    /// search yields an empty result set rather than an error.
    pub fn search_from(out: &CmdOutput) -> (r: Vec<PackageInfo>)
        ensures
            !out.ok ==> r@.len() == 0,
            out.ok ==> r@.len() == spec_brew_search_names(spec_lines(out.stdout@)).len(),
            out.ok ==> (forall|i: int|
                0 <= i < r@.len() ==> {
                    &&& (#[trigger] r@[i]@).name == spec_brew_search_names(
                        spec_lines(out.stdout@),
                    )[i]
                    &&& r@[i]@.version == "Not Installed"@
                    &&& r@[i]@.source == PackageManagerType::Homebrew
                    &&& r@[i]@.description is None
                    &&& r@[i]@.size is None
                    &&& r@[i]@.install_date is None
                    &&& r@[i]@.homepage is None
                }),
    {
        if !out.ok {
            return Vec::new();
        }
        Self::search_results(out.stdout.as_str())
    }

    /// The answer of the single-package version query over `list
    /// --versions <name>`: the last whitespace token of the single output
    /// line. A failed invocation, an empty answer and a one-token answer
    /// are the three documented failures.
    pub fn current_version_from(package_name: &str, out: &CmdOutput) -> (r: Result<
        String,
        CoreError,
    >)
        ensures
            !out.ok ==> (r matches Err(e) && e matches CoreError::UnknownError(m) && m@
                == "brew list --versions "@ + package_name@ + " failed"@),
            out.ok && spec_trim(out.stdout@).len() == 0 ==> (r matches Err(e) && e
                matches CoreError::UnknownError(m) && m@ == "Package "@ + package_name@
                + " not found"@),
            out.ok && spec_trim(out.stdout@).len() > 0 && spec_split_ws(
                spec_trim(out.stdout@),
                0,
            ).len() >= 2 ==> (r matches Ok(v) && v@ == spec_split_ws(
                spec_trim(out.stdout@),
                0,
            ).last()),
            out.ok && spec_trim(out.stdout@).len() > 0 && spec_split_ws(
                spec_trim(out.stdout@),
                0,
            ).len() < 2 ==> (r matches Err(e) && e matches CoreError::UnknownError(m) && m@
                == "Failed to parse version"@),
    {
        if !out.ok {
            return Err(
                CoreError::UnknownError(
                    concat3("brew list --versions ", package_name, " failed"),
                ),
            );
        }
        let line = trim(out.stdout.as_str());
        if line.as_str().unicode_len() == 0 {
            return Err(
                CoreError::UnknownError(concat3("Package ", package_name, " not found")),
            );
        }
        let parts = split_ws(line.as_str());
        if parts.len() >= 2 {
            let v = parts[parts.len() - 1].clone();
            proof {
                assert(parts.deep_view()[parts@.len() - 1] == spec_split_ws(
                    spec_trim(out.stdout@),
                    0,
                ).last());
            }
            Ok(v)
        } else {
            Err(CoreError::UnknownError(String::from_str("Failed to parse version")))
        }
    }

    /// Parse a full `list --versions` output into name/version pairs, one
    /// per line carrying at least two tokens, the last token being the
    /// installed version. Empty output yields no pairs.
    #[verifier::loop_isolation(false)]
    pub fn parse_versions_listing(output: &str) -> (r: Vec<(String, String)>)
        ensures
            r.deep_view() == spec_brew_versions_of(spec_lines(output@)),
            output@.len() == 0 ==> r@.len() == 0,
    {
        let lines = split_lines(output);
        let ghost lv = lines.deep_view();
        let mut out: Vec<(String, String)> = Vec::new();
        let mut i: usize = 0;
        proof {
            assert(lv.skip(0) =~= lv);
            assert(out.deep_view() =~= Seq::<(Seq<char>, Seq<char>)>::empty());
            assert(out.deep_view() + spec_brew_versions_of(lv) =~= spec_brew_versions_of(lv));
        }
        while i < lines.len()
            invariant
                0 <= i <= lines.len(),
                lv.len() == lines.len(),
                spec_brew_versions_of(lv) == out.deep_view() + spec_brew_versions_of(
                    lv.skip(i as int),
                ),
            decreases lines.len() - i,
        {
            proof {
                assert(lv.skip(i as int).drop_first() =~= lv.skip(i + 1));
                assert(lv.skip(i as int)[0] == lv[i as int]);
                assert(lines@[i as int]@ == lv[i as int]);
            }
            let l = trim(lines[i].as_str());
            if l.as_str().unicode_len() > 0 {
                let parts = split_ws(l.as_str());
                if parts.len() >= 2 {
                    let ghost prev_out = out.deep_view();
                    let name = parts[0].clone();
                    let version = parts[parts.len() - 1].clone();
                    out.push((name, version));
                    proof {
                        assert(parts.deep_view()[parts@.len() - 1] == spec_split_ws(
                            spec_trim(lv[i as int]),
                            0,
                        ).last());
                        assert(out.deep_view() + spec_brew_versions_of(lv.skip(i + 1)) =~= prev_out
                            + spec_brew_versions_of(lv.skip(i as int)));
                    }
                }
            }
            i = i + 1;
        }
        proof {
            assert(lv.skip(lines.len() as int) =~= Seq::<Seq<char>>::empty());
            assert(out.deep_view() =~= spec_brew_versions_of(lv));
            if output@.len() == 0 {
                assert(spec_lines(output@) =~= Seq::<Seq<char>>::empty());
            }
        }
        out
    }

    /// The fallback installed listing, built from the plain name/version
    /// pairs when the structured JSON listing is unavailable: one record
    /// per pair, nothing else known.
    #[verifier::loop_isolation(false)]
    pub fn installed_from_versions(entries: &Vec<(String, String)>) -> (r: Vec<PackageInfo>)
        ensures
            r@.len() == entries@.len(),
            forall|i: int|
                0 <= i < entries@.len() ==> {
                    &&& (#[trigger] r@[i]@).name == entries.deep_view()[i].0
                    &&& r@[i]@.version == entries.deep_view()[i].1
                    &&& r@[i]@.source == PackageManagerType::Homebrew
                    &&& r@[i]@.description is None
                    &&& r@[i]@.size is None
                    &&& r@[i]@.install_date is None
                    &&& r@[i]@.homepage is None
                },
    {
        let mut out: Vec<PackageInfo> = Vec::new();
        let mut i: usize = 0;
        while i < entries.len()
            invariant
                0 <= i <= entries.len(),
                out.len() == i,
                forall|k: int|
                    0 <= k < i ==> {
                        &&& (#[trigger] out@[k]@).name == entries.deep_view()[k].0
                        &&& out@[k]@.version == entries.deep_view()[k].1
                        &&& out@[k]@.source == PackageManagerType::Homebrew
                        &&& out@[k]@.description is None
                        &&& out@[k]@.size is None
                        &&& out@[k]@.install_date is None
                        &&& out@[k]@.homepage is None
                    },
            decreases entries.len() - i,
        {
            let (name, version) = (&entries[i].0, &entries[i].1);
            out.push(
                PackageInfo {
                    name: name.clone(),
                    version: version.clone(),
                    source: PackageManagerType::Homebrew,
                    description: None,
                    size: None,
                    install_date: None,
                    homepage: None,
                },
            );
            i = i + 1;
        }
        out
    }

    /// The installed listing from the structured JSON answer of `info
    /// --json=v2 --installed`: one record per formula (name, stable-else-
    /// plain version, description, homepage), then one per cask (token,
    /// version, description, homepage). A document that does not decode is
    /// the documented serialization error.
    #[verifier::loop_isolation(false)]
    pub fn packages_from_json_str(s: &str) -> (r: Result<Vec<PackageInfo>, CoreError>)
        ensures
            r is Ok <==> json_model_of(s@) is Some,
            (r matches Err(e) ==> e is SerializationError),
            (r matches Ok(v) ==> Some(v.deep_view()) == spec_brew_json_listing(s@)),
    {
        let json = match parse_json(s) {
            Ok(v) => v,
            Err(m) => {
                return Err(CoreError::SerializationError(m));
            },
        };
        let ghost m = doc_model(json);
        let ghost fms = spec_json_arr_field(m, "formulae"@);
        let ghost cms = spec_json_arr_field(m, "casks"@);
        let formulae = doc_arr_field(&json, "formulae");
        let casks = doc_arr_field(&json, "casks");
        let mut out: Vec<PackageInfo> = Vec::new();
        let mut i: usize = 0;
        while i < formulae.len()
            invariant
                out.len() == i,
                0 <= i <= formulae.len(),
                formulae@.len() == fms.len(),
                forall|k: int|
                    0 <= k < fms.len() ==> doc_model(*(#[trigger] formulae@[k])) == fms[k],
                forall|k: int| 0 <= k < i ==> #[trigger] out@[k]@ == spec_formula_record(fms[k]),
            decreases formulae.len() - i,
        {
            let rec = formula_record(formulae[i]);
            out.push(rec);
            i = i + 1;
        }
        let mut j: usize = 0;
        while j < casks.len()
            invariant
                out.len() == fms.len() + j,
                0 <= j <= casks.len(),
                casks@.len() == cms.len(),
                forall|k: int| 0 <= k < cms.len() ==> doc_model(*(#[trigger] casks@[k])) == cms[k],
                forall|k: int|
                    0 <= k < fms.len() ==> #[trigger] out@[k]@ == spec_formula_record(fms[k]),
                forall|k: int|
                    0 <= k < j ==> #[trigger] out@[fms.len() + k]@ == spec_cask_record(cms[k]),
            decreases casks.len() - j,
        {
            let rec = cask_record(casks[j]);
            out.push(rec);
            j = j + 1;
        }
        proof {
            assert(out@.len() == fms.len() + cms.len());
            assert forall|k: int| 0 <= k < out@.len() implies #[trigger] out.deep_view()[k]
                == spec_brew_packages(m)[k] by {
                assert(out.deep_view()[k] == out@[k]@);
                if k < fms.len() {
                    assert(spec_brew_packages(m)[k] == spec_formula_record(fms[k]));
                } else {
                    assert(out@[fms.len() + (k - fms.len())]@ == spec_cask_record(
                        cms[k - fms.len()],
                    ));
                    assert(spec_brew_packages(m)[k] == spec_cask_record(cms[k - fms.len()]));
                }
            }
            assert(out.deep_view() =~= spec_brew_packages(m));
        }
        Ok(out)
    }

    /// The installed count from a plain `list` output: the number of
    /// non-blank lines, and zero when the invocation failed.
    #[verifier::loop_isolation(false)]
    #[verifier::rlimit(30)]
    pub fn count_from_list_output(out: &CmdOutput) -> (r: usize)
        ensures
            !out.ok ==> r == 0,
            out.ok ==> r as int == spec_count_nonempty_lines(spec_lines(out.stdout@)),
    {
        if !out.ok {
            return 0;
        }
        let lines = split_lines(out.stdout.as_str());
        let ghost lv = lines.deep_view();
        let mut cnt: usize = 0;
        let mut i: usize = 0;
        proof {
            assert(lv.skip(0) =~= lv);
        }
        while i < lines.len()
            invariant
                0 <= i <= lines.len(),
                lv.len() == lines.len(),
                cnt <= i,
                cnt as int + spec_count_nonempty_lines(lv.skip(i as int))
                    == spec_count_nonempty_lines(lv),
            decreases lines.len() - i,
        {
            proof {
                assert(lv.skip(i as int).drop_first() =~= lv.skip(i + 1));
                assert(lv.skip(i as int)[0] == lv[i as int]);
                assert(lines@[i as int]@ == lv[i as int]);
            }
            let l = trim(lines[i].as_str());
            if l.as_str().unicode_len() > 0 {
                cnt = cnt + 1;
            }
            i = i + 1;
        }
        proof {
            assert(lv.skip(lines.len() as int) =~= Seq::<Seq<char>>::empty());
        }
        cnt
    }

    /// The search records of a search output: one per non-blank,
    /// non-section line, carrying the found name; search hits are not
    /// installed, so the version is the literal `Not Installed`.
    #[verifier::loop_isolation(false)]
    pub fn search_results(output: &str) -> (r: Vec<PackageInfo>)
        ensures
            r@.len() == spec_brew_search_names(spec_lines(output@)).len(),
            forall|i: int|
                0 <= i < r@.len() ==> {
                    &&& (#[trigger] r@[i]@).name == spec_brew_search_names(
                        spec_lines(output@),
                    )[i]
                    &&& r@[i]@.version == "Not Installed"@
                    &&& r@[i]@.source == PackageManagerType::Homebrew
                    &&& r@[i]@.description is None
                    &&& r@[i]@.size is None
                    &&& r@[i]@.install_date is None
                    &&& r@[i]@.homepage is None
                },
            output@.len() == 0 ==> r@.len() == 0,
    {
        let lines = split_lines(output);
        let ghost lv = lines.deep_view();
        let ghost names = spec_brew_search_names(lv);
        let mut out: Vec<PackageInfo> = Vec::new();
        let mut i: usize = 0;
        proof {
            assert(lv.skip(0) =~= lv);
            assert(names.skip(0) =~= names);
        }
        while i < lines.len()
            invariant
                0 <= i <= lines.len(),
                lv.len() == lines.len(),
                names == spec_brew_search_names(lv),
                out.len() <= names.len(),
                names.skip(out.len() as int) == spec_brew_search_names(lv.skip(i as int)),
                forall|k: int|
                    0 <= k < out.len() ==> {
                        &&& (#[trigger] out@[k]@).name == names[k]
                        &&& out@[k]@.version == "Not Installed"@
                        &&& out@[k]@.source == PackageManagerType::Homebrew
                        &&& out@[k]@.description is None
                        &&& out@[k]@.size is None
                        &&& out@[k]@.install_date is None
                        &&& out@[k]@.homepage is None
                    },
            decreases lines.len() - i,
        {
            proof {
                assert(lv.skip(i as int).drop_first() =~= lv.skip(i + 1));
                assert(lv.skip(i as int)[0] == lv[i as int]);
                assert(lines@[i as int]@ == lv[i as int]);
            }
            let l = trim(lines[i].as_str());
            let ls = l.as_str();
            if ls.unicode_len() > 0 && ls.get_char(0) != '=' {
                let ghost m = out.len() as int;
                proof {
                    assert(spec_brew_search_names(lv.skip(i as int)) == seq![l@]
                        + spec_brew_search_names(lv.skip(i + 1)));
                    assert(names.skip(m)[0] == names[m]);
                    assert(names[m] == l@);
                    assert(names.skip(m + 1) =~= names.skip(m).drop_first());
                    assert(names.skip(m + 1) =~= spec_brew_search_names(lv.skip(i + 1)));
                }
                out.push(
                    PackageInfo {
                        name: l,
                        version: String::from_str("Not Installed"),
                        source: PackageManagerType::Homebrew,
                        description: None,
                        size: None,
                        install_date: None,
                        homepage: None,
                    },
                );
            } else {
                proof {
                    assert(spec_brew_search_names(lv.skip(i as int)) == spec_brew_search_names(
                        lv.skip(i + 1),
                    ));
                }
            }
            i = i + 1;
        }
        proof {
            assert(lv.skip(lines.len() as int) =~= Seq::<Seq<char>>::empty());
            assert(names.skip(out.len() as int).len() == 0);
            if output@.len() == 0 {
                assert(spec_lines(output@) =~= Seq::<Seq<char>>::empty());
            }
        }
        out
    }
}

/// The outcome of one `brew uninstall <name>` invocation in a batch.
impl HomebrewManager {
    pub fn uninstall_step(name: &str, out: &CmdOutput) -> (r: Result<(), CoreError>)
        ensures
            out.ok ==> r is Ok,
            !out.ok ==> (r matches Err(e) && e matches CoreError::UnknownError(m) && m@
                == "brew uninstall failed for "@ + name@ + ": "@ + out.stderr@),
    {
        if out.ok {
            Ok(())
        } else {
            Err(
                CoreError::UnknownError(
                    concat4("brew uninstall failed for ", name, ": ", out.stderr.as_str()),
                ),
            )
        }
    }

    /// The outcome of one `brew upgrade <name>` invocation in a batch.
    pub fn upgrade_step(name: &str, out: &CmdOutput) -> (r: Result<(), CoreError>)
        ensures
            out.ok ==> r is Ok,
            !out.ok ==> (r matches Err(e) && e matches CoreError::UnknownError(m) && m@
                == "brew upgrade failed for "@ + name@ + ": "@ + out.stderr@),
    {
        if out.ok {
            Ok(())
        } else {
            Err(
                CoreError::UnknownError(
                    concat4("brew upgrade failed for ", name, ": ", out.stderr.as_str()),
                ),
            )
        }
    }

    /// The outcome of one `brew install <name>` invocation in a batch.
    pub fn install_step(name: &str, out: &CmdOutput) -> (r: Result<(), CoreError>)
        ensures
            out.ok ==> r is Ok,
            !out.ok ==> (r matches Err(e) && e matches CoreError::UnknownError(m) && m@
                == "brew install failed for "@ + name@ + ": "@ + out.stderr@),
    {
        if out.ok {
            Ok(())
        } else {
            Err(
                CoreError::UnknownError(
                    concat4("brew install failed for ", name, ": ", out.stderr.as_str()),
                ),
            )
        }
    }
}


/// Listing is read-only: two readings of the same captured listing — the
/// structured JSON answer or the plain fallback — yield the same records,
/// and so the same collection up to ordering.
pub proof fn lemma_list_installed_idempotent(a: Seq<char>, b: Seq<char>)
    requires
        a == b,
    ensures
        spec_brew_json_listing(a) == spec_brew_json_listing(b),
        spec_brew_versions_of(spec_lines(a)) == spec_brew_versions_of(spec_lines(b)),
        spec_brew_versions_of(spec_lines(a)).to_multiset() == spec_brew_versions_of(
            spec_lines(b),
        ).to_multiset(),
{
}

} // verus!
