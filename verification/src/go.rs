//! The Go backend: there is no package database, so the installed set is
//! the binaries in the resolved Go bin directory, each introspected with
//! the toolchain's build-info listing. The module path and embedded version
//! are extracted from that tab-delimited text here; the latest version of a
//! module is the last one its module listing names.

use vstd::prelude::*;
use vstd::string::*;

use crate::error::CoreError;
use crate::text::{
    concat4, contains_char, eq_str, is_digit_char, is_space, is_space_char,
    lemma_rfind_char_props, rfind_char, skip_spaces, spec_find_char, spec_lines, spec_rfind_char,
    spec_skip_spaces, spec_split_ws, spec_token_end, spec_trim, split_lines, split_ws, token_end,
    trim,
};
use crate::{CmdOutput, PackageInfo, PackageManager, PackageManagerType, PackageUpdate};

verus! {

/// The Go backend.
#[derive(Debug, Clone, Copy)]
pub struct GoManager;

impl PackageManager for GoManager {
    /// This implementation serves the Go backend; the operations that
    /// invoke the `go` toolchain and walk the binary directory are
    /// assembled by the embedding application from the parsers below.
    fn manager_type(&self) -> (t: PackageManagerType)
        ensures
            t == PackageManagerType::Go,
    {
        PackageManagerType::Go
    }
}

/// First index `i >= from` holding a non-digit, or the length: the
/// exclusive end of a digit run.
pub open spec fn spec_digits_end(s: Seq<char>, from: int) -> int
    decreases s.len() - from,
{
    if from < 0 || from >= s.len() {
        s.len() as int
    } else if is_digit_char(s[from]) {
        spec_digits_end(s, from + 1)
    } else {
        from
    }
}

pub proof fn lemma_digits_end_props(s: Seq<char>, from: int)
    requires
        0 <= from <= s.len(),
    ensures
        from <= spec_digits_end(s, from) <= s.len(),
    decreases s.len() - from,
{
    if from < s.len() && is_digit_char(s[from]) {
        lemma_digits_end_props(s, from + 1);
    }
}

#[verifier::loop_isolation(false)]
fn digits_end(s: &str, from: usize) -> (r: usize)
    requires
        from <= s@.len(),
    ensures
        r == spec_digits_end(s@, from as int),
        from <= r <= s@.len(),
{
    proof {
        lemma_digits_end_props(s@, from as int);
    }
    let n = s.unicode_len();
    let mut i: usize = from;
    while i < n
        invariant
            from <= i <= n,
            spec_digits_end(s@, from as int) == spec_digits_end(s@, i as int),
        decreases n - i,
    {
        let u = s.get_char(i) as u32;
        if !(48 <= u && u <= 57) {
            return i;
        }
        assert(spec_digits_end(s@, i as int) == spec_digits_end(s@, i + 1));
        i = i + 1;
    }
    n
}

/// True when a version numeral of the shape `v<digits>.<digits>.<digits>`
/// starts at `i`; a pre-release or build suffix of non-whitespace may
/// follow.
pub open spec fn spec_semver_at(s: Seq<char>, i: int) -> bool {
    let p1 = spec_digits_end(s, i + 1);
    let p2 = spec_digits_end(s, p1 + 1);
    let p3 = spec_digits_end(s, p2 + 1);
    &&& 0 <= i < s.len()
    &&& s[i] == 'v'
    &&& p1 > i + 1
    &&& p1 < s.len()
    &&& s[p1] == '.'
    &&& p2 > p1 + 1
    &&& p2 < s.len()
    &&& s[p2] == '.'
    &&& p3 > p2 + 1
}

#[verifier::loop_isolation(false)]
fn semver_at(s: &str, i: usize) -> (r: bool)
    requires
        i <= s@.len(),
    ensures
        r == spec_semver_at(s@, i as int),
{
    let n = s.unicode_len();
    if i >= n || s.get_char(i) != 'v' {
        return false;
    }
    proof {
        lemma_digits_end_props(s@, i + 1);
    }
    let p1 = digits_end(s, i + 1);
    if !(p1 > i + 1 && p1 < n && s.get_char(p1) == '.') {
        return false;
    }
    proof {
        lemma_digits_end_props(s@, p1 + 1);
    }
    let p2 = digits_end(s, p1 + 1);
    if !(p2 > p1 + 1 && p2 < n && s.get_char(p2) == '.') {
        return false;
    }
    let p3 = digits_end(s, p2 + 1);
    p3 > p2 + 1
}

/// The module path captured when the pattern `path`, whitespace, token
/// matches at position `i` of the build-info text.
pub open spec fn spec_path_match_at(s: Seq<char>, i: int) -> Option<Seq<char>> {
    if 0 <= i && i + 4 <= s.len() && s.subrange(i, i + 4) == "path"@ && i + 4 < s.len()
        && is_space_char(s[i + 4]) {
        let b = spec_skip_spaces(s, i + 4);
        if b < s.len() {
            Some(s.subrange(b, spec_token_end(s, b)))
        } else {
            None
        }
    } else {
        None
    }
}

/// The first position at or after `i` where the `path` pattern matches,
/// and its capture.
pub open spec fn spec_find_path_from(s: Seq<char>, i: int) -> Option<Seq<char>>
    decreases s.len() - i,
{
    if i < 0 || i >= s.len() {
        None
    } else {
        match spec_path_match_at(s, i) {
            Some(m) => Some(m),
            None => spec_find_path_from(s, i + 1),
        }
    }
}

/// The module path embedded in a build-info text: the capture of the first
/// occurrence of `path` followed by whitespace and a token.
pub open spec fn spec_extract_module_path(s: Seq<char>) -> Option<Seq<char>> {
    spec_find_path_from(s, 0)
}

/// The version captured when the pattern `mod`, whitespace, token,
/// whitespace, semantic version matches at position `i`: the whole version
/// token, suffix included.
pub open spec fn spec_mod_match_at(s: Seq<char>, i: int) -> Option<Seq<char>> {
    if 0 <= i && i + 3 <= s.len() && s.subrange(i, i + 3) == "mod"@ && i + 3 < s.len()
        && is_space_char(s[i + 3]) {
        let b1 = spec_skip_spaces(s, i + 3);
        let e1 = spec_token_end(s, b1);
        let b2 = spec_skip_spaces(s, e1);
        if b1 < s.len() && e1 < s.len() && b2 < s.len() && spec_semver_at(s, b2) {
            Some(s.subrange(b2, spec_token_end(s, b2)))
        } else {
            None
        }
    } else {
        None
    }
}

/// The first position at or after `i` where the `mod` pattern matches, and
/// its capture.
pub open spec fn spec_find_mod_from(s: Seq<char>, i: int) -> Option<Seq<char>>
    decreases s.len() - i,
{
    if i < 0 || i >= s.len() {
        None
    } else {
        match spec_mod_match_at(s, i) {
            Some(m) => Some(m),
            None => spec_find_mod_from(s, i + 1),
        }
    }
}

/// The resolved module version embedded in a build-info text: the capture
/// of the first occurrence of `mod`, whitespace, module token, whitespace,
/// semantic version.
pub open spec fn spec_extract_version(s: Seq<char>) -> Option<Seq<char>> {
    spec_find_mod_from(s, 0)
}

#[verifier::loop_isolation(false)]
fn path_match_at(s: &str, i: usize) -> (r: Option<String>)
    requires
        i < s@.len(),
    ensures
        r.deep_view() == spec_path_match_at(s@, i as int),
{
    let n = s.unicode_len();
    if n - i <= 4 {
        return None;
    }
    if !(eq_str(s.substring_char(i, i + 4), "path") && is_space(s.get_char(i + 4))) {
        return None;
    }
    let b = skip_spaces(s, i + 4);
    if b >= n {
        return None;
    }
    let e = token_end(s, b);
    Some(String::from_str(s.substring_char(b, e)))
}

#[verifier::loop_isolation(false)]
fn mod_match_at(s: &str, i: usize) -> (r: Option<String>)
    requires
        i < s@.len(),
    ensures
        r.deep_view() == spec_mod_match_at(s@, i as int),
{
    let n = s.unicode_len();
    if n - i <= 3 {
        return None;
    }
    if !(eq_str(s.substring_char(i, i + 3), "mod") && is_space(s.get_char(i + 3))) {
        return None;
    }
    let b1 = skip_spaces(s, i + 3);
    if b1 >= n {
        return None;
    }
    let e1 = token_end(s, b1);
    if e1 >= n {
        return None;
    }
    let b2 = skip_spaces(s, e1);
    if b2 >= n {
        return None;
    }
    if !semver_at(s, b2) {
        return None;
    }
    let e2 = token_end(s, b2);
    Some(String::from_str(s.substring_char(b2, e2)))
}

impl GoManager {
    /// Extract the module path from a build-info text: the token after the
    /// first `path` key.
    #[verifier::loop_isolation(false)]
    pub fn extract_module_path(info: &str) -> (r: Option<String>)
        ensures
            r.deep_view() == spec_extract_module_path(info@),
    {
        let n = info.unicode_len();
        let mut i: usize = 0;
        while i < n
            invariant
                0 <= i <= n,
                n == info@.len(),
                spec_find_path_from(info@, 0) == spec_find_path_from(info@, i as int),
            decreases n - i,
        {
            match path_match_at(info, i) {
                Some(m) => {
                    return Some(m);
                },
                None => {
                    assert(spec_find_path_from(info@, i as int) == spec_find_path_from(
                        info@,
                        i + 1,
                    ));
                },
            }
            i = i + 1;
        }
        None
    }

    /// Extract the resolved module version from a build-info text: the
    /// semantic-version token in the first `mod` line, pre-release or build
    /// suffix included.
    #[verifier::loop_isolation(false)]
    pub fn extract_version(info: &str) -> (r: Option<String>)
        ensures
            r.deep_view() == spec_extract_version(info@),
    {
        let n = info.unicode_len();
        let mut i: usize = 0;
        while i < n
            invariant
                0 <= i <= n,
                n == info@.len(),
                spec_find_mod_from(info@, 0) == spec_find_mod_from(info@, i as int),
            decreases n - i,
        {
            match mod_match_at(info, i) {
                Some(m) => {
                    return Some(m);
                },
                None => {
                    assert(spec_find_mod_from(info@, i as int) == spec_find_mod_from(
                        info@,
                        i + 1,
                    ));
                },
            }
            i = i + 1;
        }
        None
    }

    /// The installed record for one binary of the bin directory: a binary
    /// whose build info names no module path is silently excluded, and a
    /// missing version degrades to the literal `unknown`.
    pub fn package_from_build_info(binary_name: &str, info: &str) -> (r: Option<PackageInfo>)
        ensures
            spec_extract_module_path(info@) is None ==> r is None,
            spec_extract_module_path(info@) is Some ==> (r matches Some(p) && p.name@
                == binary_name@ && p.source == PackageManagerType::Go && p.description is None
                && p.size is None && p.install_date is None && p.homepage is None && (
            match spec_extract_version(info@) {
                Some(v) => p.version@ == v,
                None => p.version@ == "unknown"@,
            })),
    {
        if Self::extract_module_path(info).is_none() {
            return None;
        }
        let version = match Self::extract_version(info) {
            Some(v) => v,
            None => String::from_str("unknown"),
        };
        Some(
            PackageInfo {
                name: String::from_str(binary_name),
                version,
                source: PackageManagerType::Go,
                description: None,
                size: None,
                install_date: None,
                homepage: None,
            },
        )
    }

    /// The installed version for a version query against one binary: known
    /// exactly when the build info names a module path, the query names
    /// either that module or the binary, and a version is embedded.
    pub fn version_if_matches(package_name: &str, binary_name: &str, info: &str) -> (r: Option<
        String,
    >)
        ensures
            match spec_extract_module_path(info@) {
                None => r is None,
                Some(m) => if m == package_name@ || binary_name@ == package_name@ {
                    r.deep_view() == spec_extract_version(info@)
                } else {
                    r is None
                },
            },
    {
        match Self::extract_module_path(info) {
            None => None,
            Some(m) => {
                if eq_str(m.as_str(), package_name) || eq_str(binary_name, package_name) {
                    Self::extract_version(info)
                } else {
                    None
                }
            },
        }
    }

    /// The latest version behind a captured module listing: its last
    /// whitespace token, or nothing when the listing is empty; a failed
    /// invocation is the documented lookup failure.
    pub fn latest_version_from(package_name: &str, out: &CmdOutput) -> (r: Result<
        String,
        CoreError,
    >)
        ensures
            !out.ok ==> (r matches Err(e) && e matches CoreError::UnknownError(m) && m@
                == "Failed to get versions for package: "@ + package_name@),
            out.ok && spec_split_ws(out.stdout@, 0).len() > 0 ==> (r matches Ok(v) && v@
                == spec_split_ws(out.stdout@, 0).last()),
            out.ok && spec_split_ws(out.stdout@, 0).len() == 0 ==> (r matches Ok(v) && v@.len()
                == 0),
    {
        if !out.ok {
            return Err(
                CoreError::UnknownError(
                    crate::text::concat2("Failed to get versions for package: ", package_name),
                ),
            );
        }
        let toks = split_ws(out.stdout.as_str());
        if toks.len() > 0 {
            let v = toks[toks.len() - 1].clone();
            proof {
                assert(toks.deep_view()[toks@.len() - 1] == spec_split_ws(out.stdout@, 0).last());
            }
            Ok(v)
        } else {
            Ok(String::new())
        }
    }

    /// The pending update for one binary, given its embedded version and
    /// the latest the module listing names: an update exists exactly when
    /// the latest version is non-empty and differs from the local one.
    pub fn update_for_binary(binary_name: &str, local_version: &str, latest: &str) -> (r: Option<
        PackageUpdate,
    >)
        ensures
            local_version@ != latest@ && latest@.len() > 0 ==> (r matches Some(u) && u.name@
                == binary_name@ && u.current_version@ == local_version@ && u.new_version@
                == latest@),
            local_version@ == latest@ || latest@.len() == 0 ==> r is None,
    {
        if !eq_str(local_version, latest) && latest.unicode_len() > 0 {
            Some(
                PackageUpdate {
                    name: String::from_str(binary_name),
                    current_version: String::from_str(local_version),
                    new_version: String::from_str(latest),
                },
            )
        } else {
            None
        }
    }

    /// The install argument for one requested package: the name as given
    /// when it already pins a version with `@`, else the name at `@latest`.
    pub fn install_target(name: &str) -> (r: String)
        ensures
            spec_find_char(name@, '@', 0) is Some ==> r@ == name@,
            spec_find_char(name@, '@', 0) is None ==> r@ == name@ + "@latest"@,
    {
        if contains_char(name, '@') {
            String::from_str(name)
        } else {
            crate::text::concat2(name, "@latest")
        }
    }

    /// The binary file a requested package name denotes: the last
    /// `/`-separated segment of the module path.
    pub fn binary_name_of(name: &str) -> (r: String)
        ensures
            match spec_rfind_char(name@, '/', name@.len() as int) {
                None => r@ == name@,
                Some(i) => r@ == name@.subrange(i + 1, name@.len() as int),
            },
    {
        proof {
            lemma_rfind_char_props(name@, '/', name@.len() as int);
        }
        let n = name.unicode_len();
        match rfind_char(name, '/') {
            None => String::from_str(name),
            Some(i) => String::from_str(name.substring_char(i + 1, n)),
        }
    }

    /// The outcome of one `go install` invocation in a batch install or
    /// update.
    pub fn install_step(name: &str, out: &CmdOutput) -> (r: Result<(), CoreError>)
        ensures
            out.ok ==> r is Ok,
            !out.ok ==> (r matches Err(e) && e matches CoreError::UnknownError(m) && m@
                == "go install failed for "@ + name@ + ": "@ + out.stderr@),
    {
        if out.ok {
            Ok(())
        } else {
            Err(
                CoreError::UnknownError(
                    concat4("go install failed for ", name, ": ", out.stderr.as_str()),
                ),
            )
        }
    }

    /// The error reported when removing a binary file fails during an
    /// uninstall, with the file error's text.
    pub fn remove_failure(binary_name: &str, err_text: &str) -> (r: CoreError)
        ensures
            (r matches CoreError::UnknownError(m) && m@ == "Failed to remove Go binary "@
                + binary_name@ + ": "@ + err_text@),
    {
        CoreError::UnknownError(
            concat4("Failed to remove Go binary ", binary_name, ": ", err_text),
        )
    }
}

/// The search record carried by one module-listing line: the first token is
/// the module path; the last token is its latest version when it looks like
/// one (it starts with `v`), else the literal `unknown`.
pub open spec fn spec_go_search_line(raw: Seq<char>) -> Option<(Seq<char>, Seq<char>)> {
    let l = spec_trim(raw);
    if l.len() == 0 {
        None
    } else {
        let toks = spec_split_ws(l, 0);
        if toks.len() == 0 {
            None
        } else {
            let last = toks.last();
            let version = if last.len() > 0 && last[0] == 'v' {
                last
            } else {
                "unknown"@
            };
            Some((toks[0], version))
        }
    }
}

/// The search records of a full module-listing output, in line order.
pub open spec fn spec_go_search_of(lines: Seq<Seq<char>>) -> Seq<(Seq<char>, Seq<char>)>
    decreases lines.len(),
{
    if lines.len() == 0 {
        seq![]
    } else {
        match spec_go_search_line(lines[0]) {
            None => spec_go_search_of(lines.drop_first()),
            Some(e) => seq![e] + spec_go_search_of(lines.drop_first()),
        }
    }
}

impl GoManager {
    /// The search records behind a captured module-listing invocation: a
    /// failing search yields an empty result set rather than an error.
    pub fn search_from(out: &CmdOutput) -> (r: Vec<PackageInfo>)
        ensures
            !out.ok ==> r@.len() == 0,
            out.ok ==> r@.len() == spec_go_search_of(spec_lines(out.stdout@)).len(),
            out.ok ==> (forall|i: int|
                0 <= i < r@.len() ==> {
                    &&& (#[trigger] r@[i]@).name == spec_go_search_of(
                        spec_lines(out.stdout@),
                    )[i].0
                    &&& r@[i]@.version == spec_go_search_of(spec_lines(out.stdout@))[i].1
                    &&& r@[i]@.source == PackageManagerType::Go
                    &&& r@[i]@.description is None
                    &&& r@[i]@.size is None
                    &&& r@[i]@.install_date is None
                    &&& r@[i]@.homepage is None
                }),
    {
        if !out.ok {
            return Vec::new();
        }
        Self::search_results(out.stdout.as_str())
    }

    /// The search records of a module-listing output: one per non-blank
    /// line, carrying the module path and its best-effort latest version.
    /// Empty output yields no records.
    #[verifier::loop_isolation(false)]
    pub fn search_results(output: &str) -> (r: Vec<PackageInfo>)
        ensures
            r@.len() == spec_go_search_of(spec_lines(output@)).len(),
            forall|i: int|
                0 <= i < r@.len() ==> {
                    &&& (#[trigger] r@[i]@).name == spec_go_search_of(spec_lines(output@))[i].0
                    &&& r@[i]@.version == spec_go_search_of(spec_lines(output@))[i].1
                    &&& r@[i]@.source == PackageManagerType::Go
                    &&& r@[i]@.description is None
                    &&& r@[i]@.size is None
                    &&& r@[i]@.install_date is None
                    &&& r@[i]@.homepage is None
                },
            output@.len() == 0 ==> r@.len() == 0,
    {
        let lines = split_lines(output);
        let ghost lv = lines.deep_view();
        let ghost entries = spec_go_search_of(lv);
        let mut out: Vec<PackageInfo> = Vec::new();
        let mut i: usize = 0;
        proof {
            assert(lv.skip(0) =~= lv);
            assert(entries.skip(0) =~= entries);
        }
        while i < lines.len()
            invariant
                0 <= i <= lines.len(),
                lv.len() == lines.len(),
                entries == spec_go_search_of(lv),
                out.len() <= entries.len(),
                entries.skip(out.len() as int) == spec_go_search_of(lv.skip(i as int)),
                forall|k: int|
                    0 <= k < out.len() ==> {
                        &&& (#[trigger] out@[k]@).name == entries[k].0
                        &&& out@[k]@.version == entries[k].1
                        &&& out@[k]@.source == PackageManagerType::Go
                        &&& out@[k]@.description is None
                        &&& out@[k]@.size is None
                        &&& out@[k]@.install_date is None
                        &&& out@[k]@.homepage is None
                    },
            decreases lines.len() - i,
        {
            proof {
                assert(lv.skip(i as int).drop_first() =~= lv.skip(i + 1));
                assert(lv.skip(i as int)[0] == lv[i as int]);
                assert(lines@[i as int]@ == lv[i as int]);
            }
            let l = trim(lines[i].as_str());
            let ls = l.as_str();
            if ls.unicode_len() > 0 {
                let toks = split_ws(ls);
                if toks.len() > 0 {
                    let ghost m = out.len() as int;
                    let last = &toks[toks.len() - 1];
                    proof {
                        assert(toks.deep_view()[toks@.len() - 1] == spec_split_ws(l@, 0).last());
                    }
                    let version = if last.as_str().unicode_len() > 0 && last.as_str().get_char(0)
                        == 'v' {
                        last.clone()
                    } else {
                        String::from_str("unknown")
                    };
                    let name = toks[0].clone();
                    proof {
                        assert(spec_go_search_of(lv.skip(i as int)) == seq![entries.skip(m)[0]]
                            + spec_go_search_of(lv.skip(i + 1)));
                        assert(entries.skip(m)[0] == entries[m]);
                        assert(entries.skip(m + 1) =~= entries.skip(m).drop_first());
                        assert(entries.skip(m + 1) =~= spec_go_search_of(lv.skip(i + 1)));
                        assert(entries[m].0 == name@);
                        assert(entries[m].1 == version@);
                    }
                    out.push(
                        PackageInfo {
                            name,
                            version,
                            source: PackageManagerType::Go,
                            description: None,
                            size: None,
                            install_date: None,
                            homepage: None,
                        },
                    );
                } else {
                    proof {
                        assert(spec_go_search_of(lv.skip(i as int)) == spec_go_search_of(
                            lv.skip(i + 1),
                        ));
                    }
                }
            } else {
                proof {
                    assert(spec_go_search_of(lv.skip(i as int)) == spec_go_search_of(
                        lv.skip(i + 1),
                    ));
                }
            }
            i = i + 1;
        }
        proof {
            assert(lv.skip(lines.len() as int) =~= Seq::<Seq<char>>::empty());
            assert(entries.skip(out.len() as int).len() == 0);
            if output@.len() == 0 {
                assert(spec_lines(output@) =~= Seq::<Seq<char>>::empty());
            }
        }
        out
    }
}


/// Listing is read-only: the same build-info text always yields the same
/// module path and version, so listing the same binaries twice yields the
/// same records.
pub proof fn lemma_list_installed_idempotent(a: Seq<char>, b: Seq<char>)
    requires
        a == b,
    ensures
        spec_extract_module_path(a) == spec_extract_module_path(b),
        spec_extract_version(a) == spec_extract_version(b),
{
}


proof fn lemma_find_path_from_skip(s: Seq<char>, j: int)
    requires
        0 <= j <= s.len(),
        forall|k: int| 0 <= k < j ==> spec_path_match_at(s, k) is None,
    ensures
        spec_find_path_from(s, 0) == spec_find_path_from(s, j),
    decreases j,
{
    if j > 0 {
        lemma_find_path_from_skip(s, j - 1);
        assert(spec_find_path_from(s, j - 1) == spec_find_path_from(s, j));
    }
}

proof fn lemma_find_mod_from_skip(s: Seq<char>, j: int)
    requires
        0 <= j <= s.len(),
        forall|k: int| 0 <= k < j ==> spec_mod_match_at(s, k) is None,
    ensures
        spec_find_mod_from(s, 0) == spec_find_mod_from(s, j),
    decreases j,
{
    if j > 0 {
        lemma_find_mod_from_skip(s, j - 1);
        assert(spec_find_mod_from(s, j - 1) == spec_find_mod_from(s, j));
    }
}

/// Module-path extraction returns the capture of the first `path` pattern
/// match: wherever a build-info text matches `path`, whitespace, token at a
/// position before which no earlier match exists, that token is extracted.
pub proof fn lemma_module_path_extraction(s: Seq<char>, i: int)
    requires
        0 <= i <= s.len(),
        spec_path_match_at(s, i) is Some,
        forall|j: int| 0 <= j < i ==> spec_path_match_at(s, j) is None,
    ensures
        spec_extract_module_path(s) == spec_path_match_at(s, i),
{
    lemma_find_path_from_skip(s, i);
}

/// Version extraction returns the capture of the first `mod` pattern match:
/// wherever a build-info text matches `mod`, whitespace, module token,
/// whitespace, semantic version at a position before which no earlier match
/// exists, that version token — suffix included — is extracted.
pub proof fn lemma_version_extraction(s: Seq<char>, i: int)
    requires
        0 <= i <= s.len(),
        spec_mod_match_at(s, i) is Some,
        forall|j: int| 0 <= j < i ==> spec_mod_match_at(s, j) is None,
    ensures
        spec_extract_version(s) == spec_mod_match_at(s, i),
{
    lemma_find_mod_from_skip(s, i);
}

} // verus!
