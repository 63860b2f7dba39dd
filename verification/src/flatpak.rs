//! The Flatpak backend: two independent column listings — the pending
//! updates and the installed applications — are reconciled here, keyed by
//! application ID. A version string may be absent, in which case the
//! release branch stands in for it; human-readable sizes are read into
//! byte counts over a binary unit table.

use vstd::prelude::*;
use vstd::string::*;

use crate::error::CoreError;
use crate::text::{
    all_digits, concat2, concat3, eq_ignore_ascii_case, eq_str, find_char, lemma_digits_val_bound,
    lemma_digits_val_nonneg, lemma_find_char_props, parse_u64, pow10_u64, spec_all_digits,
    spec_count_char, count_char, spec_digits_val, spec_eq_ignore_ascii_case, spec_find_char,
    spec_lines, spec_pow10, spec_split_char, spec_split_ws, spec_trim, split_char, split_lines,
    split_ws, trim,
};
use crate::{CmdOutput, PackageInfo, PackageInfoV, PackageManager, PackageManagerType,
    PackageUpdate, PackageUpdateV};

verus! {

/// The Flatpak backend.
#[derive(Debug, Clone, Copy)]
pub struct FlatpakManager;

impl PackageManager for FlatpakManager {
    /// This implementation serves the Flatpak backend; the operations that
    /// invoke the `flatpak` tool are assembled by the embedding application
    /// from the parsers below.
    fn manager_type(&self) -> (t: PackageManagerType)
        ensures
            t == PackageManagerType::Flatpak,
    {
        PackageManagerType::Flatpak
    }
}

/// One installed application as the plain column listing reports it: its
/// ID, its numeric version (possibly empty) and its release branch.
#[derive(Debug, Clone)]
pub struct AppVersion {
    pub app_id: String,
    pub version: String,
    pub branch: String,
}

/// The mathematical value of an `AppVersion`.
pub struct AppVersionV {
    pub app_id: Seq<char>,
    pub version: Seq<char>,
    pub branch: Seq<char>,
}

impl View for AppVersion {
    type V = AppVersionV;

    open spec fn view(&self) -> AppVersionV {
        AppVersionV { app_id: self.app_id@, version: self.version@, branch: self.branch@ }
    }
}

impl DeepView for AppVersion {
    type V = AppVersionV;

    open spec fn deep_view(&self) -> AppVersionV {
        self.view()
    }
}

/// The normalized version text shown for a version/branch pair: the branch
/// alone when the numeric version is absent, else the version with the
/// branch parenthesized.
pub open spec fn spec_version_display(v: Seq<char>, b: Seq<char>) -> Seq<char> {
    if v.len() == 0 {
        "branch: "@ + b
    } else {
        v + " ("@ + b + ")"@
    }
}

/// The installed application carried by one line of the plain column
/// listing, which reports one, two or three whitespace-separated columns:
/// fewer columns mean the version, or the version and the branch, are
/// missing — not malformed input. A line of any other shape is skipped.
pub open spec fn spec_flatpak_info_line(raw: Seq<char>) -> Option<AppVersionV> {
    let l = spec_trim(raw);
    if l.len() == 0 {
        None
    } else {
        let toks = spec_split_ws(l, 0);
        if toks.len() == 3 {
            Some(AppVersionV { app_id: toks[0], version: toks[1], branch: toks[2] })
        } else if toks.len() == 2 {
            Some(AppVersionV { app_id: toks[0], version: Seq::empty(), branch: toks[1] })
        } else if toks.len() == 1 {
            Some(AppVersionV { app_id: toks[0], version: Seq::empty(), branch: "unknown"@ })
        } else {
            None
        }
    }
}

/// The installed applications of the listing's lines, in order.
pub open spec fn spec_flatpak_infos_of(lines: Seq<Seq<char>>) -> Seq<AppVersionV>
    decreases lines.len(),
{
    if lines.len() == 0 {
        seq![]
    } else {
        match spec_flatpak_info_line(lines[0]) {
            None => spec_flatpak_infos_of(lines.drop_first()),
            Some(e) => seq![e] + spec_flatpak_infos_of(lines.drop_first()),
        }
    }
}

/// The installed applications of a full plain listing output, whose first
/// line is the column heading.
pub open spec fn spec_flatpak_installed_info(s: Seq<char>) -> Seq<AppVersionV> {
    let lines = spec_lines(s);
    if lines.len() == 0 {
        seq![]
    } else {
        spec_flatpak_infos_of(lines.drop_first())
    }
}

/// The entry for `app` in the installed listing; with repeated IDs the last
/// entry wins, as a map built by insertion would have it.
pub open spec fn spec_lookup_info(infos: Seq<AppVersionV>, app: Seq<char>) -> Option<AppVersionV>
    decreases infos.len(),
{
    if infos.len() == 0 {
        None
    } else if infos.last().app_id == app {
        Some(infos.last())
    } else {
        spec_lookup_info(infos.drop_last(), app)
    }
}

/// The update carried by one line of the updates listing: tab-separated
/// application ID, offered version and branch, the latter two trimmed and
/// optional; the current version is looked up in the installed listing and
/// degrades to `unknown` on a miss. A line whose two version texts agree is
/// a false positive and yields no update.
pub open spec fn spec_flatpak_update_line(raw: Seq<char>, infos: Seq<AppVersionV>) -> Option<
    PackageUpdateV,
> {
    let l = spec_trim(raw);
    if l.len() == 0 {
        None
    } else {
        let parts = spec_split_char(l, '\t');
        let app = parts[0];
        let newv = if parts.len() > 1 {
            spec_trim(parts[1])
        } else {
            Seq::empty()
        };
        let newb = if parts.len() > 2 {
            spec_trim(parts[2])
        } else {
            "unknown"@
        };
        let current = match spec_lookup_info(infos, app) {
            Some(e) => spec_version_display(e.version, e.branch),
            None => "unknown"@,
        };
        if current == spec_version_display(newv, newb) {
            None
        } else {
            Some(
                PackageUpdateV {
                    name: app,
                    current_version: current,
                    new_version: spec_version_display(newv, newb),
                },
            )
        }
    }
}

/// The updates of the updates listing's lines, in order, joined against the
/// installed listing.
pub open spec fn spec_flatpak_updates_of(lines: Seq<Seq<char>>, infos: Seq<AppVersionV>) -> Seq<
    PackageUpdateV,
>
    decreases lines.len(),
{
    if lines.len() == 0 {
        seq![]
    } else {
        match spec_flatpak_update_line(lines[0], infos) {
            None => spec_flatpak_updates_of(lines.drop_first(), infos),
            Some(u) => seq![u] + spec_flatpak_updates_of(lines.drop_first(), infos),
        }
    }
}

/// The byte multiplier a size unit denotes, compared without regard to
/// ASCII case: bytes, and the binary kilo, mega and giga multiples.
pub open spec fn spec_unit_mult(tok: Seq<char>) -> Option<u64> {
    if spec_eq_ignore_ascii_case(tok, "B"@) || spec_eq_ignore_ascii_case(tok, "BYTES"@) {
        Some(1u64)
    } else if spec_eq_ignore_ascii_case(tok, "KB"@) || spec_eq_ignore_ascii_case(tok, "KIB"@) {
        Some(1024u64)
    } else if spec_eq_ignore_ascii_case(tok, "MB"@) || spec_eq_ignore_ascii_case(tok, "MIB"@) {
        Some(1048576u64)
    } else if spec_eq_ignore_ascii_case(tok, "GB"@) || spec_eq_ignore_ascii_case(tok, "GIB"@) {
        Some(1073741824u64)
    } else {
        None
    }
}

/// The byte contribution of a fractional digit run under a multiplier,
/// rounded down.
pub open spec fn spec_frac_bytes(fq: Seq<char>, mult: u64) -> int {
    (spec_digits_val(fq) * mult) / spec_pow10(fq.len() as nat)
}

/// The byte count a decimal numeral denotes under a multiplier: the whole
/// part times the multiplier, plus the fractional part's contribution read
/// to a precision of ten digits. A numeral without a whole part, with a
/// non-digit, or whose bytes exceed the type is not a size.
pub open spec fn spec_size_value(tok: Seq<char>, mult: u64) -> Option<u64> {
    match spec_find_char(tok, '.', 0) {
        None => {
            if tok.len() >= 1 && spec_all_digits(tok) && spec_digits_val(tok) * mult <= u64::MAX {
                Some((spec_digits_val(tok) * mult) as u64)
            } else {
                None
            }
        },
        Some(i) => {
            let ip = tok.subrange(0, i);
            let fp = tok.subrange(i + 1, tok.len() as int);
            let fq = if fp.len() > 10 {
                fp.subrange(0, 10)
            } else {
                fp
            };
            if ip.len() >= 1 && spec_all_digits(ip) && spec_all_digits(fp) && spec_digits_val(ip)
                * mult + spec_frac_bytes(fq, mult) <= u64::MAX {
                Some((spec_digits_val(ip) * mult + spec_frac_bytes(fq, mult)) as u64)
            } else {
                None
            }
        },
    }
}

/// The byte count of a human-readable size such as `123.4 MB`: exactly two
/// whitespace-separated tokens, a decimal numeral and a recognized unit;
/// anything else is an unknown size, not an error.
pub open spec fn spec_flatpak_size(s: Seq<char>) -> Option<u64> {
    let toks = spec_split_ws(s, 0);
    if toks.len() != 2 {
        None
    } else {
        match spec_unit_mult(toks[1]) {
            None => None,
            Some(mult) => spec_size_value(toks[0], mult),
        }
    }
}

#[verifier::loop_isolation(false)]
fn size_value(tok: &str, mult: u64) -> (r: Option<u64>)
    requires
        1 <= mult <= 1073741824,
    ensures
        r == spec_size_value(tok@, mult),
{
    let n = tok.unicode_len();
    proof {
        lemma_find_char_props(tok@, '.', 0);
    }
    match find_char(tok, '.') {
        None => {
            if n == 0 || !all_digits(tok) {
                return None;
            }
            proof {
                lemma_digits_val_nonneg(tok@);
            }
            match parse_u64(tok) {
                None => {
                    proof {
                        let dv = spec_digits_val(tok@);
                        assert(dv * mult >= dv) by (nonlinear_arith)
                            requires
                                dv > u64::MAX,
                                mult >= 1,
                        ;
                    }
                    None
                },
                Some(v) => {
                    match v.checked_mul(mult) {
                        None => None,
                        Some(t) => Some(t),
                    }
                },
            }
        },
        Some(i) => {
            let ip = tok.substring_char(0, i);
            let fp = tok.substring_char(i + 1, n);
            if ip.unicode_len() == 0 || !all_digits(ip) || !all_digits(fp) {
                return None;
            }
            let fplen = fp.unicode_len();
            let fq = if fplen > 10 {
                fp.substring_char(0, 10)
            } else {
                fp
            };
            proof {
                if fp@.len() > 10 {
                    assert(spec_all_digits(fq@));
                }
                lemma_digits_val_nonneg(ip@);
                lemma_digits_val_nonneg(fq@);
                lemma_digits_val_bound(fq@);
            }
            let fqv = match parse_u64(fq) {
                Some(v) => v,
                None => 0,
            };
            let k = fq.unicode_len();
            let p = pow10_u64(k);
            proof {
                lemma_pow10_mono(k as nat);
                assert(fqv as int * mult as int <= 9999999999int * 1073741824int)
                    by (nonlinear_arith)
                    requires
                        0 <= fqv as int <= 9999999999,
                        0 <= mult as int <= 1073741824,
                ;
            }
            let frac: u64 = (fqv * mult) / p;
            proof {
                assert(frac as int == spec_frac_bytes(fq@, mult));
                assert(frac >= 0);
            }
            proof {
                lemma_digits_val_nonneg(ip@);
            }
            match parse_u64(ip) {
                None => {
                    proof {
                        let dv = spec_digits_val(ip@);
                        assert(dv * mult >= dv) by (nonlinear_arith)
                            requires
                                dv > u64::MAX,
                                mult >= 1,
                        ;
                    }
                    None
                },
                Some(ipv) => {
                    match ipv.checked_mul(mult) {
                        None => {
                            proof {
                                assert(spec_frac_bytes(fq@, mult) >= 0);
                            }
                            None
                        },
                        Some(a) => {
                            match a.checked_add(frac) {
                                None => None,
                                Some(t) => Some(t),
                            }
                        },
                    }
                },
            }
        },
    }
}

proof fn lemma_pow10_mono(k: nat)
    requires
        k <= 10,
    ensures
        1 <= spec_pow10(k) <= 10000000000,
{
    crate::text::lemma_pow10_bounds(k);
}

impl FlatpakManager {
    /// Read a human-readable size such as `123.4 MB` into a byte count.
    pub fn parse_flatpak_size(size_str: &str) -> (r: Option<u64>)
        ensures
            r == spec_flatpak_size(size_str@),
    {
        let toks = split_ws(size_str);
        if toks.len() != 2 {
            return None;
        }
        let mult = if eq_ignore_ascii_case(toks[1].as_str(), "B") || eq_ignore_ascii_case(
            toks[1].as_str(),
            "BYTES",
        ) {
            1u64
        } else if eq_ignore_ascii_case(toks[1].as_str(), "KB") || eq_ignore_ascii_case(
            toks[1].as_str(),
            "KIB",
        ) {
            1024u64
        } else if eq_ignore_ascii_case(toks[1].as_str(), "MB") || eq_ignore_ascii_case(
            toks[1].as_str(),
            "MIB",
        ) {
            1048576u64
        } else if eq_ignore_ascii_case(toks[1].as_str(), "GB") || eq_ignore_ascii_case(
            toks[1].as_str(),
            "GIB",
        ) {
            1073741824u64
        } else {
            return None;
        };
        size_value(toks[0].as_str(), mult)
    }

    /// Split a listing line's columns into the version and the branch: a
    /// first token with at least two dots is a version followed by its
    /// branch (defaulting to `stable`); anything else is a bare branch with
    /// no version.
    pub fn extract_version_and_branch(parts: &[String]) -> (r: (String, String))
        ensures
            parts@.len() == 0 ==> r.0@.len() == 0 && r.1@ == "unknown"@,
            parts@.len() > 0 && spec_count_char(parts@[0]@, '.') >= 2 ==> r.0@ == parts@[0]@ && (
            if parts@.len() > 1 {
                r.1@ == parts@[1]@
            } else {
                r.1@ == "stable"@
            }),
            parts@.len() > 0 && spec_count_char(parts@[0]@, '.') < 2 ==> r.0@.len() == 0 && r.1@
                == parts@[0]@,
    {
        if parts.len() == 0 {
            return (String::new(), String::from_str("unknown"));
        }
        let first = &parts[0];
        if count_char(first.as_str(), '.') >= 2 {
            let branch = if parts.len() > 1 {
                parts[1].clone()
            } else {
                String::from_str("stable")
            };
            (first.clone(), branch)
        } else {
            (String::new(), first.clone())
        }
    }

    /// The normalized version text for a version/branch pair.
    pub fn format_version(version: &str, branch: &str) -> (r: String)
        ensures
            r@ == spec_version_display(version@, branch@),
    {
        if version.unicode_len() == 0 {
            concat2("branch: ", branch)
        } else {
            let mut s = String::from_str(version);
            s.append(" (");
            s.append(branch);
            s.append(")");
            s
        }
    }

    /// Parse the plain column listing into installed applications: its
    /// first line is the heading; each further line carries an application
    /// ID and optionally a version and a branch. Empty output yields no
    /// applications.
    #[verifier::loop_isolation(false)]
    pub fn parse_installed_info(output: &str) -> (r: Vec<AppVersion>)
        ensures
            r.deep_view() == spec_flatpak_installed_info(output@),
            output@.len() == 0 ==> r@.len() == 0,
    {
        let lines = split_lines(output);
        let ghost lv = lines.deep_view();
        let mut out: Vec<AppVersion> = Vec::new();
        if lines.len() == 0 {
            proof {
                assert(out.deep_view() =~= spec_flatpak_installed_info(output@));
            }
            return out;
        }
        let ghost body = lv.drop_first();
        let mut i: usize = 1;
        proof {
            assert(body.skip(0) =~= body);
            assert(lv.skip(1) =~= body);
            assert(out.deep_view() =~= Seq::<AppVersionV>::empty());
            assert(out.deep_view() + spec_flatpak_infos_of(body) =~= spec_flatpak_infos_of(body));
        }
        while i < lines.len()
            invariant
                1 <= i <= lines.len(),
                lv.len() == lines.len(),
                body == lv.drop_first(),
                spec_flatpak_infos_of(body) == out.deep_view() + spec_flatpak_infos_of(
                    lv.skip(i as int),
                ),
            decreases lines.len() - i,
        {
            proof {
                assert(lv.skip(i as int).drop_first() =~= lv.skip(i + 1));
                assert(lv.skip(i as int)[0] == lv[i as int]);
                assert(lines@[i as int]@ == lv[i as int]);
            }
            match parse_info_line(lines[i].as_str()) {
                None => {},
                Some(e) => {
                    let ghost prev_out = out.deep_view();
                    out.push(e);
                    proof {
                        assert(out.deep_view() + spec_flatpak_infos_of(lv.skip(i + 1)) =~= prev_out
                            + spec_flatpak_infos_of(lv.skip(i as int)));
                    }
                },
            }
            i = i + 1;
        }
        proof {
            assert(lv.skip(lines.len() as int) =~= Seq::<Seq<char>>::empty());
            assert(out.deep_view() =~= spec_flatpak_infos_of(body));
        }
        out
    }

    /// Join the updates listing against the installed applications into
    /// pending updates: one per non-blank line, the current version taken
    /// from the matching installed entry and degrading to `unknown` on a
    /// miss. Empty output yields no updates.
    #[verifier::loop_isolation(false)]
    pub fn list_updates_from(updates_output: &str, installed: &Vec<AppVersion>) -> (r: Vec<
        PackageUpdate,
    >)
        ensures
            r.deep_view() == spec_flatpak_updates_of(
                spec_lines(updates_output@),
                installed.deep_view(),
            ),
            updates_output@.len() == 0 ==> r@.len() == 0,
    {
        let lines = split_lines(updates_output);
        let ghost lv = lines.deep_view();
        let ghost infos = installed.deep_view();
        let mut out: Vec<PackageUpdate> = Vec::new();
        let mut i: usize = 0;
        proof {
            assert(lv.skip(0) =~= lv);
            assert(out.deep_view() =~= Seq::<PackageUpdateV>::empty());
            assert(out.deep_view() + spec_flatpak_updates_of(lv, infos) =~= spec_flatpak_updates_of(
                lv,
                infos,
            ));
        }
        while i < lines.len()
            invariant
                0 <= i <= lines.len(),
                lv.len() == lines.len(),
                infos == installed.deep_view(),
                spec_flatpak_updates_of(lv, infos) == out.deep_view() + spec_flatpak_updates_of(
                    lv.skip(i as int),
                    infos,
                ),
            decreases lines.len() - i,
        {
            proof {
                assert(lv.skip(i as int).drop_first() =~= lv.skip(i + 1));
                assert(lv.skip(i as int)[0] == lv[i as int]);
                assert(lines@[i as int]@ == lv[i as int]);
            }
            match parse_update_line(lines[i].as_str(), installed) {
                None => {},
                Some(u) => {
                    let ghost prev_out = out.deep_view();
                    out.push(u);
                    proof {
                        assert(out.deep_view() + spec_flatpak_updates_of(lv.skip(i + 1), infos)
                            =~= prev_out + spec_flatpak_updates_of(lv.skip(i as int), infos));
                    }
                },
            }
            i = i + 1;
        }
        proof {
            assert(lv.skip(lines.len() as int) =~= Seq::<Seq<char>>::empty());
            assert(out.deep_view() =~= spec_flatpak_updates_of(lv, infos));
            if updates_output@.len() == 0 {
                assert(spec_lines(updates_output@) =~= Seq::<Seq<char>>::empty());
            }
        }
        out
    }

    /// The pending updates behind a captured updates-listing invocation: a
    /// non-zero exit is the documented failure, a successful one is joined
    /// against the installed listing.
    pub fn updates_from_output(out: &CmdOutput, installed: &Vec<AppVersion>) -> (r: Result<
        Vec<PackageUpdate>,
        CoreError,
    >)
        ensures
            !out.ok ==> (r matches Err(e) && e matches CoreError::UnknownError(m) && m@
                == "flatpak list --updates failed"@),
            out.ok ==> (r matches Ok(v) && v.deep_view() == spec_flatpak_updates_of(
                spec_lines(out.stdout@),
                installed.deep_view(),
            )),
    {
        if !out.ok {
            return Err(
                CoreError::UnknownError(String::from_str("flatpak list --updates failed")),
            );
        }
        Ok(Self::list_updates_from(out.stdout.as_str(), installed))
    }

    /// The search records behind a captured search invocation: a failing
    /// search yields an empty result set rather than an error.
    pub fn search_from(out: &CmdOutput) -> (r: Vec<PackageInfo>)
        ensures
            !out.ok ==> r@.len() == 0,
            out.ok ==> r@.len() == spec_flatpak_search(out.stdout@).len(),
            out.ok ==> (forall|i: int|
                0 <= i < r@.len() ==> {
                    &&& (#[trigger] r@[i]@).name == spec_flatpak_search(out.stdout@)[i].0
                    &&& r@[i]@.version == spec_flatpak_search(out.stdout@)[i].1
                    &&& r@[i]@.source == PackageManagerType::Flatpak
                    &&& r@[i]@.description is None
                    &&& r@[i]@.size is None
                    &&& r@[i]@.install_date is None
                    &&& r@[i]@.homepage is None
                }),
    {
        if !out.ok {
            return Vec::new();
        }
        Self::search_results(out.stdout.as_str())
    }

    /// The argument list of one batch invocation: the verb, `-y`, then
    /// every requested name.
    pub fn batch_args(verb: &str, package_names: &[String]) -> (r: Vec<String>)
        ensures
            r.deep_view() == seq![verb@, "-y"@] + package_names.deep_view(),
    {
        let mut args: Vec<String> = Vec::new();
        args.push(String::from_str(verb));
        args.push(String::from_str("-y"));
        let mut i: usize = 0;
        while i < package_names.len()
            invariant
                0 <= i <= package_names.len(),
                args@.len() == 2 + i,
                args@[0]@ == verb@,
                args@[1]@ == "-y"@,
                forall|k: int|
                    0 <= k < i ==> #[trigger] args@[2 + k]@ == package_names.deep_view()[k],
            decreases package_names.len() - i,
        {
            args.push(package_names[i].clone());
            i = i + 1;
        }
        proof {
            let full = seq![verb@, "-y"@] + package_names.deep_view();
            assert forall|k: int| 0 <= k < args@.len() implies #[trigger] args.deep_view()[k]
                == full[k] by {
                assert(args.deep_view()[k] == args@[k]@);
                if k >= 2 {
                    assert(args@[2 + (k - 2)]@ == package_names.deep_view()[k - 2]);
                }
            }
            assert(args.deep_view() =~= full);
        }
        args
    }

    /// The fallback installed listing, built from the plain applications
    /// when the richer column listing is unavailable: one record per
    /// application with the normalized version text, nothing else known.
    #[verifier::loop_isolation(false)]
    pub fn installed_from_info(infos: &Vec<AppVersion>) -> (r: Vec<PackageInfo>)
        ensures
            r@.len() == infos@.len(),
            forall|i: int|
                0 <= i < infos@.len() ==> {
                    &&& (#[trigger] r@[i]@).name == infos.deep_view()[i].app_id
                    &&& r@[i]@.version == spec_version_display(
                        infos.deep_view()[i].version,
                        infos.deep_view()[i].branch,
                    )
                    &&& r@[i]@.source == PackageManagerType::Flatpak
                    &&& r@[i]@.description is None
                    &&& r@[i]@.size is None
                    &&& r@[i]@.install_date is None
                    &&& r@[i]@.homepage is None
                },
    {
        let mut out: Vec<PackageInfo> = Vec::new();
        let mut i: usize = 0;
        while i < infos.len()
            invariant
                0 <= i <= infos.len(),
                out.len() == i,
                forall|k: int|
                    0 <= k < i ==> {
                        &&& (#[trigger] out@[k]@).name == infos.deep_view()[k].app_id
                        &&& out@[k]@.version == spec_version_display(
                            infos.deep_view()[k].version,
                            infos.deep_view()[k].branch,
                        )
                        &&& out@[k]@.source == PackageManagerType::Flatpak
                        &&& out@[k]@.description is None
                        &&& out@[k]@.size is None
                        &&& out@[k]@.install_date is None
                        &&& out@[k]@.homepage is None
                    },
            decreases infos.len() - i,
        {
            let e = &infos[i];
            let version = Self::format_version(e.version.as_str(), e.branch.as_str());
            out.push(
                PackageInfo {
                    name: e.app_id.clone(),
                    version,
                    source: PackageManagerType::Flatpak,
                    description: None,
                    size: None,
                    install_date: None,
                    homepage: None,
                },
            );
            i = i + 1;
        }
        out
    }

    /// The answer of the two-command version query: the version probe's
    /// trimmed output when it succeeded (empty otherwise), combined with
    /// the branch probe's trimmed output; a failed branch probe is the
    /// documented "not found" error.
    pub fn current_version_from(package_name: &str, version_out: &CmdOutput, branch_out:
        &CmdOutput) -> (r: Result<String, CoreError>)
        ensures
            !branch_out.ok ==> (r matches Err(e) && e matches CoreError::UnknownError(m) && m@
                == "Package "@ + package_name@ + " not found"@),
            branch_out.ok ==> (r matches Ok(v) && v@ == spec_version_display(
                if version_out.ok {
                    spec_trim(version_out.stdout@)
                } else {
                    Seq::empty()
                },
                spec_trim(branch_out.stdout@),
            )),
    {
        let version = if version_out.ok {
            trim(version_out.stdout.as_str())
        } else {
            String::new()
        };
        if !branch_out.ok {
            return Err(
                CoreError::UnknownError(concat3("Package ", package_name, " not found")),
            );
        }
        let branch = trim(branch_out.stdout.as_str());
        Ok(Self::format_version(version.as_str(), branch.as_str()))
    }

    /// The batch removal outcome: non-zero exit reports the captured
    /// standard-error text.
    pub fn uninstall_result(out: &CmdOutput) -> (r: Result<(), CoreError>)
        ensures
            out.ok ==> r is Ok,
            !out.ok ==> (r matches Err(e) && e matches CoreError::UnknownError(m) && m@
                == "flatpak uninstall failed: "@ + out.stderr@),
    {
        if out.ok {
            Ok(())
        } else {
            Err(
                CoreError::UnknownError(
                    concat2("flatpak uninstall failed: ", out.stderr.as_str()),
                ),
            )
        }
    }

    /// The batch update outcome.
    pub fn update_result(out: &CmdOutput) -> (r: Result<(), CoreError>)
        ensures
            out.ok ==> r is Ok,
            !out.ok ==> (r matches Err(e) && e matches CoreError::UnknownError(m) && m@
                == "flatpak update failed: "@ + out.stderr@),
    {
        if out.ok {
            Ok(())
        } else {
            Err(CoreError::UnknownError(concat2("flatpak update failed: ", out.stderr.as_str())))
        }
    }

    /// The batch installation outcome.
    pub fn install_result(out: &CmdOutput) -> (r: Result<(), CoreError>)
        ensures
            out.ok ==> r is Ok,
            !out.ok ==> (r matches Err(e) && e matches CoreError::UnknownError(m) && m@
                == "flatpak install failed: "@ + out.stderr@),
    {
        if out.ok {
            Ok(())
        } else {
            Err(
                CoreError::UnknownError(concat2("flatpak install failed: ", out.stderr.as_str())),
            )
        }
    }
}

fn parse_info_line(raw: &str) -> (r: Option<AppVersion>)
    ensures
        r.deep_view() == spec_flatpak_info_line(raw@),
{
    let l = trim(raw);
    let ls = l.as_str();
    if ls.unicode_len() == 0 {
        return None;
    }
    let toks = split_ws(ls);
    if toks.len() == 3 {
        Some(
            AppVersion { app_id: toks[0].clone(), version: toks[1].clone(), branch: toks[2].clone() },
        )
    } else if toks.len() == 2 {
        Some(AppVersion { app_id: toks[0].clone(), version: String::new(), branch: toks[1].clone() })
    } else if toks.len() == 1 {
        Some(
            AppVersion {
                app_id: toks[0].clone(),
                version: String::new(),
                branch: String::from_str("unknown"),
            },
        )
    } else {
        None
    }
}

/// The entry for `app` in the installed listing, the last match winning.
#[verifier::loop_isolation(false)]
fn lookup_info(infos: &Vec<AppVersion>, app: &str) -> (r: Option<AppVersion>)
    ensures
        r.deep_view() == spec_lookup_info(infos.deep_view(), app@),
{
    let ghost iv = infos.deep_view();
    let mut i: usize = infos.len();
    proof {
        assert(iv.take(infos.len() as int) =~= iv);
    }
    while i > 0
        invariant
            0 <= i <= infos.len(),
            iv.len() == infos.len(),
            spec_lookup_info(iv, app@) == spec_lookup_info(iv.take(i as int), app@),
        decreases i,
    {
        proof {
            assert(iv.take(i as int).drop_last() =~= iv.take(i - 1));
            assert(iv.take(i as int).last() == iv[i - 1]);
        }
        if eq_str(infos[i - 1].app_id.as_str(), app) {
            let e = &infos[i - 1];
            return Some(
                AppVersion {
                    app_id: e.app_id.clone(),
                    version: e.version.clone(),
                    branch: e.branch.clone(),
                },
            );
        }
        i = i - 1;
    }
    None
}

fn parse_update_line(raw: &str, installed: &Vec<AppVersion>) -> (r: Option<PackageUpdate>)
    ensures
        r.deep_view() == spec_flatpak_update_line(raw@, installed.deep_view()),
{
    let l = trim(raw);
    let ls = l.as_str();
    if ls.unicode_len() == 0 {
        return None;
    }
    let parts = split_char(ls, '\t');
    let app = &parts[0];
    let newv = if parts.len() > 1 {
        trim(parts[1].as_str())
    } else {
        String::new()
    };
    let newb = if parts.len() > 2 {
        trim(parts[2].as_str())
    } else {
        String::from_str("unknown")
    };
    let current = match lookup_info(installed, app.as_str()) {
        Some(e) => FlatpakManager::format_version(e.version.as_str(), e.branch.as_str()),
        None => String::from_str("unknown"),
    };
    let new_version = FlatpakManager::format_version(newv.as_str(), newb.as_str());
    if eq_str(current.as_str(), new_version.as_str()) {
        None
    } else {
        Some(PackageUpdate { name: app.clone(), current_version: current, new_version })
    }
}


/// The installed record carried by one line of the rich column listing
/// (application, name, version, branch, size, origin): blank lines are
/// skipped; a line needs at least four tab-separated columns; a non-empty
/// second column is the description; the fifth column, when present, is a
/// human-readable size.
pub open spec fn spec_flatpak_installed_line(raw: Seq<char>) -> Option<PackageInfoV> {
    if spec_trim(raw).len() == 0 {
        None
    } else {
        let parts = spec_split_char(raw, '\t');
        if parts.len() < 4 {
            None
        } else {
            Some(
                PackageInfoV {
                    name: parts[0],
                    version: spec_version_display(parts[2], parts[3]),
                    source: PackageManagerType::Flatpak,
                    description: if parts[1].len() > 0 {
                        Some(parts[1])
                    } else {
                        None
                    },
                    size: if parts.len() > 4 {
                        spec_flatpak_size(parts[4])
                    } else {
                        None
                    },
                    install_date: None,
                    homepage: None,
                },
            )
        }
    }
}

/// The installed records of the rich listing's lines, in order.
pub open spec fn spec_flatpak_installed_of(lines: Seq<Seq<char>>) -> Seq<PackageInfoV>
    decreases lines.len(),
{
    if lines.len() == 0 {
        seq![]
    } else {
        match spec_flatpak_installed_line(lines[0]) {
            None => spec_flatpak_installed_of(lines.drop_first()),
            Some(p) => seq![p] + spec_flatpak_installed_of(lines.drop_first()),
        }
    }
}

/// The installed records of a full rich listing output, whose first line is
/// the column heading.
pub open spec fn spec_flatpak_list_installed(s: Seq<char>) -> Seq<PackageInfoV> {
    let lines = spec_lines(s);
    if lines.len() == 0 {
        seq![]
    } else {
        spec_flatpak_installed_of(lines.drop_first())
    }
}

fn parse_installed_line(raw: &str) -> (r: Option<PackageInfo>)
    ensures
        r.deep_view() == spec_flatpak_installed_line(raw@),
{
    let t = trim(raw);
    if t.as_str().unicode_len() == 0 {
        return None;
    }
    let parts = split_char(raw, '\t');
    if parts.len() < 4 {
        return None;
    }
    let description = if parts[1].as_str().unicode_len() > 0 {
        Some(parts[1].clone())
    } else {
        None
    };
    let size = if parts.len() > 4 {
        FlatpakManager::parse_flatpak_size(parts[4].as_str())
    } else {
        None
    };
    Some(
        PackageInfo {
            name: parts[0].clone(),
            version: FlatpakManager::format_version(parts[2].as_str(), parts[3].as_str()),
            source: PackageManagerType::Flatpak,
            description,
            size,
            install_date: None,
            homepage: None,
        },
    )
}

/// The first whitespace token that looks like an application ID: it holds a
/// dot and is longer than five characters. This is the documented
/// best-effort heuristic over the tool's non-tabular search output, not a
/// guarantee.
pub open spec fn spec_find_app_token(toks: Seq<Seq<char>>, j: int) -> Option<Seq<char>>
    decreases toks.len() - j,
{
    if j < 0 || j >= toks.len() {
        None
    } else if spec_find_char(toks[j], '.', 0) is Some && toks[j].len() > 5 {
        Some(toks[j])
    } else {
        spec_find_app_token(toks, j + 1)
    }
}

/// The search record carried by one search-output line: the application-ID
/// token found by the dot heuristic, and the second-to-last column as the
/// version, with the literal `unknown` normalized to empty.
pub open spec fn spec_flatpak_search_line(raw: Seq<char>) -> Option<(Seq<char>, Seq<char>)> {
    let l = spec_trim(raw);
    if l.len() == 0 {
        None
    } else {
        let toks = spec_split_ws(l, 0);
        if toks.len() < 3 {
            None
        } else {
            match spec_find_app_token(toks, 0) {
                None => None,
                Some(app) => {
                    let v0 = toks[toks.len() - 2];
                    let v = if v0 == "unknown"@ {
                        Seq::<char>::empty()
                    } else {
                        v0
                    };
                    Some((app, v))
                },
            }
        }
    }
}

/// The search records of the search output's lines, in order.
pub open spec fn spec_flatpak_search_of(lines: Seq<Seq<char>>) -> Seq<(Seq<char>, Seq<char>)>
    decreases lines.len(),
{
    if lines.len() == 0 {
        seq![]
    } else {
        match spec_flatpak_search_line(lines[0]) {
            None => spec_flatpak_search_of(lines.drop_first()),
            Some(e) => seq![e] + spec_flatpak_search_of(lines.drop_first()),
        }
    }
}

/// The search records of a full search output, whose first line is the
/// column heading.
pub open spec fn spec_flatpak_search(s: Seq<char>) -> Seq<(Seq<char>, Seq<char>)> {
    let lines = spec_lines(s);
    if lines.len() == 0 {
        seq![]
    } else {
        spec_flatpak_search_of(lines.drop_first())
    }
}

#[verifier::loop_isolation(false)]
fn find_app_token(toks: &Vec<String>) -> (r: Option<String>)
    ensures
        r.deep_view() == spec_find_app_token(toks.deep_view(), 0),
{
    let ghost tv = toks.deep_view();
    let mut j: usize = 0;
    while j < toks.len()
        invariant
            0 <= j <= toks.len(),
            tv.len() == toks.len(),
            spec_find_app_token(tv, 0) == spec_find_app_token(tv, j as int),
        decreases toks.len() - j,
    {
        let t = toks[j].as_str();
        if crate::text::contains_char(t, '.') && t.unicode_len() > 5 {
            return Some(toks[j].clone());
        }
        assert(spec_find_app_token(tv, j as int) == spec_find_app_token(tv, j + 1));
        j = j + 1;
    }
    None
}

fn parse_search_line(raw: &str) -> (r: Option<(String, String)>)
    ensures
        r.deep_view() == spec_flatpak_search_line(raw@),
{
    let l = trim(raw);
    let ls = l.as_str();
    if ls.unicode_len() == 0 {
        return None;
    }
    let toks = split_ws(ls);
    if toks.len() < 3 {
        return None;
    }
    match find_app_token(&toks) {
        None => None,
        Some(app) => {
            let v0 = &toks[toks.len() - 2];
            let version = if eq_str(v0.as_str(), "unknown") {
                String::new()
            } else {
                v0.clone()
            };
            Some((app, version))
        },
    }
}

impl FlatpakManager {
    /// Parse the rich column listing into installed records: its first line
    /// is the heading; each further line carries an application ID, a
    /// description, a version and branch, and a best-effort size. Empty
    /// output yields no records.
    #[verifier::loop_isolation(false)]
    pub fn parse_list_output(output: &str) -> (r: Vec<PackageInfo>)
        ensures
            r.deep_view() == spec_flatpak_list_installed(output@),
            output@.len() == 0 ==> r@.len() == 0,
    {
        let lines = split_lines(output);
        let ghost lv = lines.deep_view();
        let mut out: Vec<PackageInfo> = Vec::new();
        if lines.len() == 0 {
            proof {
                assert(out.deep_view() =~= spec_flatpak_list_installed(output@));
            }
            return out;
        }
        let ghost body = lv.drop_first();
        let mut i: usize = 1;
        proof {
            assert(lv.skip(1) =~= body);
            assert(out.deep_view() =~= Seq::<PackageInfoV>::empty());
            assert(out.deep_view() + spec_flatpak_installed_of(body) =~= spec_flatpak_installed_of(
                body,
            ));
        }
        while i < lines.len()
            invariant
                1 <= i <= lines.len(),
                lv.len() == lines.len(),
                body == lv.drop_first(),
                spec_flatpak_installed_of(body) == out.deep_view() + spec_flatpak_installed_of(
                    lv.skip(i as int),
                ),
            decreases lines.len() - i,
        {
            proof {
                assert(lv.skip(i as int).drop_first() =~= lv.skip(i + 1));
                assert(lv.skip(i as int)[0] == lv[i as int]);
                assert(lines@[i as int]@ == lv[i as int]);
            }
            match parse_installed_line(lines[i].as_str()) {
                None => {},
                Some(p) => {
                    let ghost prev_out = out.deep_view();
                    out.push(p);
                    proof {
                        assert(out.deep_view() + spec_flatpak_installed_of(lv.skip(i + 1))
                            =~= prev_out + spec_flatpak_installed_of(lv.skip(i as int)));
                    }
                },
            }
            i = i + 1;
        }
        proof {
            assert(lv.skip(lines.len() as int) =~= Seq::<Seq<char>>::empty());
            assert(out.deep_view() =~= spec_flatpak_installed_of(body));
        }
        out
    }

    /// The search records of a search output: its first line is the
    /// heading; each hit carries the application ID found by the dot
    /// heuristic and a best-effort version. Empty output yields no records.
    #[verifier::loop_isolation(false)]
    pub fn search_results(output: &str) -> (r: Vec<PackageInfo>)
        ensures
            r@.len() == spec_flatpak_search(output@).len(),
            forall|i: int|
                0 <= i < r@.len() ==> {
                    &&& (#[trigger] r@[i]@).name == spec_flatpak_search(output@)[i].0
                    &&& r@[i]@.version == spec_flatpak_search(output@)[i].1
                    &&& r@[i]@.source == PackageManagerType::Flatpak
                    &&& r@[i]@.description is None
                    &&& r@[i]@.size is None
                    &&& r@[i]@.install_date is None
                    &&& r@[i]@.homepage is None
                },
            output@.len() == 0 ==> r@.len() == 0,
    {
        let lines = split_lines(output);
        let ghost lv = lines.deep_view();
        let ghost entries = spec_flatpak_search(output@);
        let mut out: Vec<PackageInfo> = Vec::new();
        if lines.len() == 0 {
            return out;
        }
        let ghost body = lv.drop_first();
        let mut i: usize = 1;
        proof {
            assert(lv.skip(1) =~= body);
            assert(entries =~= spec_flatpak_search_of(body));
            assert(entries.skip(0) =~= entries);
        }
        while i < lines.len()
            invariant
                1 <= i <= lines.len(),
                lv.len() == lines.len(),
                body == lv.drop_first(),
                entries == spec_flatpak_search_of(body),
                out.len() <= entries.len(),
                entries.skip(out.len() as int) == spec_flatpak_search_of(lv.skip(i as int)),
                forall|k: int|
                    0 <= k < out.len() ==> {
                        &&& (#[trigger] out@[k]@).name == entries[k].0
                        &&& out@[k]@.version == entries[k].1
                        &&& out@[k]@.source == PackageManagerType::Flatpak
                        &&& out@[k]@.description is None
                        &&& out@[k]@.size is None
                        &&& out@[k]@.install_date is None
                        &&& out@[k]@.homepage is None
                    },
            decreases lines.len() - i,
        {
            proof {
                assert(lv.skip(i as int).drop_first() =~= lv.skip(i + 1));
                assert(lv.skip(i as int)[0] == lv[i as int]);
                assert(lines@[i as int]@ == lv[i as int]);
            }
            match parse_search_line(lines[i].as_str()) {
                None => {
                    proof {
                        assert(spec_flatpak_search_of(lv.skip(i as int)) == spec_flatpak_search_of(
                            lv.skip(i + 1),
                        ));
                    }
                },
                Some((name, version)) => {
                    let ghost m = out.len() as int;
                    proof {
                        assert(spec_flatpak_search_of(lv.skip(i as int)) == seq![
                            entries.skip(m)[0],
                        ] + spec_flatpak_search_of(lv.skip(i + 1)));
                        assert(entries.skip(m)[0] == entries[m]);
                        assert(entries.skip(m + 1) =~= entries.skip(m).drop_first());
                        assert(entries.skip(m + 1) =~= spec_flatpak_search_of(lv.skip(i + 1)));
                        assert(entries[m].0 == name@);
                        assert(entries[m].1 == version@);
                    }
                    out.push(
                        PackageInfo {
                            name,
                            version,
                            source: PackageManagerType::Flatpak,
                            description: None,
                            size: None,
                            install_date: None,
                            homepage: None,
                        },
                    );
                },
            }
            i = i + 1;
        }
        proof {
            assert(lv.skip(lines.len() as int) =~= Seq::<Seq<char>>::empty());
            assert(entries.skip(out.len() as int).len() == 0);
        }
        out
    }
}



/// Listing is read-only: two parses of the same captured rich listing
/// yield the same records, and so the same collection up to ordering.
pub proof fn lemma_list_installed_idempotent(a: Seq<char>, b: Seq<char>)
    requires
        a == b,
    ensures
        spec_flatpak_list_installed(a) == spec_flatpak_list_installed(b),
        spec_flatpak_list_installed(a).to_multiset() == spec_flatpak_list_installed(
            b,
        ).to_multiset(),
{
}

} // verus!
