//! Verified text primitives shared by the backend output parsers: character
//! search, line and token splitting, trimming, prefix tests and integer
//! parsing, each pinned to a spec function over the string's character view.

use vstd::prelude::*;
use vstd::string::*;

verus! {

/// The whitespace characters that the package-manager tools emit between
/// columns: space, tab, carriage return and newline.
pub open spec fn is_space_char(c: char) -> bool {
    c == ' ' || c == '\t' || c == '\r' || c == '\n'
}

/// Executable whitespace test.
pub fn is_space(c: char) -> (r: bool)
    ensures
        r == is_space_char(c),
{
    c == ' ' || c == '\t' || c == '\r' || c == '\n'
}

/// First index `i >= from` with `s[i] == c`, if any.
pub open spec fn spec_find_char(s: Seq<char>, c: char, from: int) -> Option<int>
    decreases s.len() - from,
{
    if from < 0 || from >= s.len() {
        None
    } else if s[from] == c {
        Some(from)
    } else {
        spec_find_char(s, c, from + 1)
    }
}

pub proof fn lemma_find_char_props(s: Seq<char>, c: char, from: int)
    requires
        0 <= from <= s.len(),
    ensures
        match spec_find_char(s, c, from) {
            Some(i) => from <= i < s.len() && s[i] == c && (forall|j: int|
                from <= j < i ==> s[j] != c),
            None => forall|j: int| from <= j < s.len() ==> s[j] != c,
        },
    decreases s.len() - from,
{
    if from < s.len() && s[from] != c {
        lemma_find_char_props(s, c, from + 1);
    }
}

/// Last index `i < upto` with `s[i] == c`, if any.
pub open spec fn spec_rfind_char(s: Seq<char>, c: char, upto: int) -> Option<int>
    decreases upto,
{
    if upto <= 0 || upto > s.len() {
        None
    } else if s[upto - 1] == c {
        Some(upto - 1)
    } else {
        spec_rfind_char(s, c, upto - 1)
    }
}

pub proof fn lemma_rfind_char_props(s: Seq<char>, c: char, upto: int)
    requires
        0 <= upto <= s.len(),
    ensures
        match spec_rfind_char(s, c, upto) {
            Some(i) => 0 <= i < upto && s[i] == c && (forall|j: int| i < j < upto ==> s[j] != c),
            None => forall|j: int| 0 <= j < upto ==> s[j] != c,
        },
    decreases upto,
{
    if upto > 0 && s[upto - 1] != c {
        lemma_rfind_char_props(s, c, upto - 1);
    }
}

/// First occurrence of `c` in `s`.
pub fn find_char(s: &str, c: char) -> (r: Option<usize>)
    ensures
        match r {
            Some(i) => spec_find_char(s@, c, 0) == Some(i as int),
            None => spec_find_char(s@, c, 0) is None,
        },
{
    let n = s.unicode_len();
    let mut i: usize = 0;
    while i < n
        invariant
            0 <= i <= n,
            n == s@.len(),
            spec_find_char(s@, c, 0) == spec_find_char(s@, c, i as int),
        decreases n - i,
    {
        if s.get_char(i) == c {
            return Some(i);
        }
        assert(spec_find_char(s@, c, i as int) == spec_find_char(s@, c, i + 1));
        i = i + 1;
    }
    None
}

/// Last occurrence of `c` in `s`.
pub fn rfind_char(s: &str, c: char) -> (r: Option<usize>)
    ensures
        match r {
            Some(i) => spec_rfind_char(s@, c, s@.len() as int) == Some(i as int),
            None => spec_rfind_char(s@, c, s@.len() as int) is None,
        },
{
    let n = s.unicode_len();
    let mut i: usize = n;
    while i > 0
        invariant
            0 <= i <= n,
            n == s@.len(),
            spec_rfind_char(s@, c, n as int) == spec_rfind_char(s@, c, i as int),
        decreases i,
    {
        if s.get_char(i - 1) == c {
            return Some(i - 1);
        }
        assert(spec_rfind_char(s@, c, i as int) == spec_rfind_char(s@, c, i - 1));
        i = i - 1;
    }
    None
}

/// True when `c` occurs in `s`.
pub fn contains_char(s: &str, c: char) -> (r: bool)
    ensures
        r == (spec_find_char(s@, c, 0) is Some),
{
    find_char(s, c).is_some()
}

/// First index `i >= from` holding a non-whitespace character, or the length.
pub open spec fn spec_skip_spaces(s: Seq<char>, from: int) -> int
    decreases s.len() - from,
{
    if from < 0 || from >= s.len() {
        s.len() as int
    } else if is_space_char(s[from]) {
        spec_skip_spaces(s, from + 1)
    } else {
        from
    }
}

pub proof fn lemma_skip_spaces_props(s: Seq<char>, from: int)
    requires
        0 <= from <= s.len(),
    ensures
        from <= spec_skip_spaces(s, from) <= s.len(),
        forall|j: int| from <= j < spec_skip_spaces(s, from) ==> is_space_char(s[j]),
        spec_skip_spaces(s, from) < s.len() ==> !is_space_char(s[spec_skip_spaces(s, from)]),
    decreases s.len() - from,
{
    if from < s.len() && is_space_char(s[from]) {
        lemma_skip_spaces_props(s, from + 1);
    }
}

/// First index `i >= from` holding a whitespace character, or the length:
/// the exclusive end of the token that starts at `from`.
pub open spec fn spec_token_end(s: Seq<char>, from: int) -> int
    decreases s.len() - from,
{
    if from < 0 || from >= s.len() {
        s.len() as int
    } else if is_space_char(s[from]) {
        from
    } else {
        spec_token_end(s, from + 1)
    }
}

pub proof fn lemma_token_end_props(s: Seq<char>, from: int)
    requires
        0 <= from <= s.len(),
    ensures
        from <= spec_token_end(s, from) <= s.len(),
        forall|j: int| from <= j < spec_token_end(s, from) ==> !is_space_char(s[j]),
        spec_token_end(s, from) < s.len() ==> is_space_char(s[spec_token_end(s, from)]),
    decreases s.len() - from,
{
    if from < s.len() && !is_space_char(s[from]) {
        lemma_token_end_props(s, from + 1);
    }
}

/// Executable counterpart of `spec_skip_spaces`.
pub fn skip_spaces(s: &str, from: usize) -> (r: usize)
    requires
        from <= s@.len(),
    ensures
        r == spec_skip_spaces(s@, from as int),
        from <= r <= s@.len(),
{
    proof {
        lemma_skip_spaces_props(s@, from as int);
    }
    let n = s.unicode_len();
    let mut i: usize = from;
    while i < n
        invariant
            from <= i <= n,
            n == s@.len(),
            spec_skip_spaces(s@, from as int) == spec_skip_spaces(s@, i as int),
        decreases n - i,
    {
        if !is_space(s.get_char(i)) {
            return i;
        }
        assert(spec_skip_spaces(s@, i as int) == spec_skip_spaces(s@, i + 1));
        i = i + 1;
    }
    n
}

/// Executable counterpart of `spec_token_end`.
pub fn token_end(s: &str, from: usize) -> (r: usize)
    requires
        from <= s@.len(),
    ensures
        r == spec_token_end(s@, from as int),
        from <= r <= s@.len(),
{
    proof {
        lemma_token_end_props(s@, from as int);
    }
    let n = s.unicode_len();
    let mut i: usize = from;
    while i < n
        invariant
            from <= i <= n,
            n == s@.len(),
            spec_token_end(s@, from as int) == spec_token_end(s@, i as int),
        decreases n - i,
    {
        if is_space(s.get_char(i)) {
            return i;
        }
        assert(spec_token_end(s@, i as int) == spec_token_end(s@, i + 1));
        i = i + 1;
    }
    n
}

/// Index just past the last non-whitespace character strictly before `upto`,
/// or zero when everything before `upto` is whitespace.
pub open spec fn spec_trim_end(s: Seq<char>, upto: int) -> int
    decreases upto,
{
    if upto <= 0 || upto > s.len() {
        0
    } else if is_space_char(s[upto - 1]) {
        spec_trim_end(s, upto - 1)
    } else {
        upto
    }
}

pub proof fn lemma_trim_end_props(s: Seq<char>, upto: int)
    requires
        0 <= upto <= s.len(),
    ensures
        0 <= spec_trim_end(s, upto) <= upto,
        forall|j: int| spec_trim_end(s, upto) <= j < upto ==> is_space_char(s[j]),
        spec_trim_end(s, upto) > 0 ==> !is_space_char(s[spec_trim_end(s, upto) - 1]),
    decreases upto,
{
    if upto > 0 && is_space_char(s[upto - 1]) {
        lemma_trim_end_props(s, upto - 1);
    }
}

/// The view of `s` with leading and trailing whitespace removed.
pub open spec fn spec_trim(s: Seq<char>) -> Seq<char> {
    let a = spec_skip_spaces(s, 0);
    let b = spec_trim_end(s, s.len() as int);
    if a <= b {
        s.subrange(a, b)
    } else {
        Seq::empty()
    }
}

/// Trim leading and trailing whitespace.
pub fn trim(s: &str) -> (r: String)
    ensures
        r@ == spec_trim(s@),
{
    proof {
        lemma_skip_spaces_props(s@, 0);
        lemma_trim_end_props(s@, s@.len() as int);
    }
    let n = s.unicode_len();
    let a = skip_spaces(s, 0);
    let mut b: usize = n;
    while b > 0 && is_space(s.get_char(b - 1))
        invariant
            0 <= b <= n,
            n == s@.len(),
            spec_trim_end(s@, n as int) == spec_trim_end(s@, b as int),
        decreases b,
    {
        assert(spec_trim_end(s@, b as int) == spec_trim_end(s@, b - 1));
        b = b - 1;
    }
    assert(b as int == spec_trim_end(s@, n as int));
    if a <= b {
        String::from_str(s.substring_char(a, b))
    } else {
        String::new()
    }
}

/// True when `p` is a prefix of `s`.
pub open spec fn spec_starts_with(s: Seq<char>, p: Seq<char>) -> bool {
    p.len() <= s.len() && s.subrange(0, p.len() as int) == p
}

/// Executable prefix test.
pub fn starts_with(s: &str, p: &str) -> (r: bool)
    ensures
        r == spec_starts_with(s@, p@),
{
    let n = s.unicode_len();
    let m = p.unicode_len();
    if m > n {
        return false;
    }
    let mut i: usize = 0;
    while i < m
        invariant
            0 <= i <= m <= n,
            n == s@.len(),
            m == p@.len(),
            forall|j: int| 0 <= j < i ==> s@[j] == p@[j],
        decreases m - i,
    {
        if s.get_char(i) != p.get_char(i) {
            assert(s@.subrange(0, m as int)[i as int] != p@[i as int]);
            return false;
        }
        i = i + 1;
    }
    assert(s@.subrange(0, m as int) =~= p@);
    true
}

/// Executable string equality over views.
pub fn eq_str(a: &str, b: &str) -> (r: bool)
    ensures
        r == (a@ == b@),
{
    let n = a.unicode_len();
    let m = b.unicode_len();
    if n != m {
        return false;
    }
    let mut i: usize = 0;
    while i < n
        invariant
            0 <= i <= n,
            n == a@.len() == b@.len(),
            forall|j: int| 0 <= j < i ==> a@[j] == b@[j],
        decreases n - i,
    {
        if a.get_char(i) != b.get_char(i) {
            return false;
        }
        i = i + 1;
    }
    assert(a@ =~= b@);
    true
}

/// Concatenation of two strings, with its view pinned.
pub fn concat2(a: &str, b: &str) -> (r: String)
    ensures
        r@ == a@ + b@,
{
    let mut s = String::from_str(a);
    s.append(b);
    s
}

/// Concatenation of three strings, with its view pinned.
pub fn concat3(a: &str, b: &str, c: &str) -> (r: String)
    ensures
        r@ == a@ + b@ + c@,
{
    let mut s = String::from_str(a);
    s.append(b);
    s.append(c);
    s
}

/// The segments of `s` between occurrences of `sep`, in order. There is
/// always at least one segment; separators at the ends yield empty segments.
pub open spec fn spec_split_char(s: Seq<char>, sep: char) -> Seq<Seq<char>>
    decreases s.len(),
    via spec_split_char_decreases
{
    match spec_find_char(s, sep, 0) {
        None => seq![s],
        Some(i) => seq![s.subrange(0, i)] + spec_split_char(
            s.subrange(i + 1, s.len() as int),
            sep,
        ),
    }
}

#[via_fn]
proof fn spec_split_char_decreases(s: Seq<char>, sep: char) {
    lemma_find_char_props(s, sep, 0);
}

/// Split `s` at every occurrence of `sep`.
pub fn split_char(s: &str, sep: char) -> (r: Vec<String>)
    ensures
        r.deep_view() == spec_split_char(s@, sep),
        r.len() >= 1,
    decreases s@.len(),
{
    proof {
        lemma_find_char_props(s@, sep, 0);
    }
    match find_char(s, sep) {
        None => {
            let mut r: Vec<String> = Vec::new();
            r.push(String::from_str(s));
            proof {
                assert(r.deep_view() =~= seq![s@]);
            }
            r
        },
        Some(i) => {
            let n = s.unicode_len();
            let head = String::from_str(s.substring_char(0, i));
            let tail = s.substring_char(i + 1, n);
            let ghost pre = spec_split_char(tail@, sep);
            let mut r = split_char(tail, sep);
            r.insert(0, head);
            proof {
                assert(r.deep_view() =~= seq![head@] + pre);
            }
            r
        },
    }
}

/// `l` with one trailing carriage return removed, as a line of CRLF text.
pub open spec fn spec_strip_cr(l: Seq<char>) -> Seq<char> {
    if l.len() > 0 && l[l.len() - 1] == '\r' {
        l.drop_last()
    } else {
        l
    }
}

/// The lines of `s`: newline-separated segments, without a final empty
/// segment after a trailing newline, and with one trailing carriage return
/// removed per line.
pub open spec fn spec_lines(s: Seq<char>) -> Seq<Seq<char>> {
    if s.len() == 0 {
        seq![]
    } else {
        let parts = spec_split_char(s, '\n');
        let kept = if s[s.len() - 1] == '\n' {
            parts.drop_last()
        } else {
            parts
        };
        kept.map_values(|l: Seq<char>| spec_strip_cr(l))
    }
}

/// Split `s` into lines.
#[verifier::loop_isolation(false)]
pub fn split_lines(s: &str) -> (r: Vec<String>)
    ensures
        r.deep_view() == spec_lines(s@),
{
    let n = s.unicode_len();
    if n == 0 {
        let r: Vec<String> = Vec::new();
        proof {
            assert(r.deep_view() =~= Seq::<Seq<char>>::empty());
        }
        return r;
    }
    let mut parts = split_char(s, '\n');
    if s.get_char(n - 1) == '\n' {
        parts.pop();
    }
    let ghost kept = parts.deep_view();
    let mut out: Vec<String> = Vec::new();
    let mut i: usize = 0;
    while i < parts.len()
        invariant
            0 <= i <= parts.len(),
            kept == parts.deep_view(),
            kept.len() == parts.len(),
            out.len() == i,
            forall|j: int| 0 <= j < i ==> #[trigger] out@[j]@ == spec_strip_cr(kept[j]),
        decreases parts.len() - i,
    {
        let l = &parts[i];
        let ll = l.as_str().unicode_len();
        if ll > 0 && l.as_str().get_char(ll - 1) == '\r' {
            out.push(String::from_str(l.as_str().substring_char(0, ll - 1)));
            proof {
                assert(out@[i as int]@ =~= spec_strip_cr(kept[i as int]));
            }
        } else {
            out.push(l.clone());
            proof {
                assert(out@[i as int]@ =~= spec_strip_cr(kept[i as int]));
            }
        }
        i = i + 1;
    }
    proof {
        assert(out.deep_view() =~= kept.map_values(|l: Seq<char>| spec_strip_cr(l)));
        assert(out.deep_view() =~= spec_lines(s@));
    }
    out
}

/// The whitespace-separated tokens of `s` from position `from` on.
pub open spec fn spec_split_ws(s: Seq<char>, from: int) -> Seq<Seq<char>>
    decreases s.len() - from,
    via spec_split_ws_decreases
{
    if from < 0 || from >= s.len() {
        seq![]
    } else if is_space_char(s[from]) {
        spec_split_ws(s, from + 1)
    } else {
        seq![s.subrange(from, spec_token_end(s, from))] + spec_split_ws(
            s,
            spec_token_end(s, from),
        )
    }
}

#[via_fn]
proof fn spec_split_ws_decreases(s: Seq<char>, from: int) {
    if 0 <= from < s.len() && !is_space_char(s[from]) {
        lemma_token_end_props(s, from + 1);
        assert(spec_token_end(s, from) == spec_token_end(s, from + 1));
    }
}

fn split_ws_from(s: &str, from: usize) -> (r: Vec<String>)
    requires
        from <= s@.len(),
    ensures
        r.deep_view() == spec_split_ws(s@, from as int),
    decreases s@.len() - from,
{
    let n = s.unicode_len();
    if from >= n {
        let r: Vec<String> = Vec::new();
        proof {
            assert(r.deep_view() =~= Seq::<Seq<char>>::empty());
        }
        return r;
    }
    if is_space(s.get_char(from)) {
        return split_ws_from(s, from + 1);
    }
    let e = token_end(s, from);
    proof {
        lemma_token_end_props(s@, from + 1);
        assert(spec_token_end(s@, from as int) == spec_token_end(s@, from + 1));
    }
    let tok = String::from_str(s.substring_char(from, e));
    let ghost pre = spec_split_ws(s@, e as int);
    let mut r = split_ws_from(s, e);
    r.insert(0, tok);
    proof {
        assert(r.deep_view() =~= seq![tok@] + pre);
    }
    r
}

/// Split `s` into whitespace-separated tokens.
pub fn split_ws(s: &str) -> (r: Vec<String>)
    ensures
        r.deep_view() == spec_split_ws(s@, 0),
{
    split_ws_from(s, 0)
}

/// How often `c` occurs in `s`.
pub open spec fn spec_count_char(s: Seq<char>, c: char) -> int
    decreases s.len(),
{
    if s.len() == 0 {
        0
    } else {
        spec_count_char(s.drop_last(), c) + if s.last() == c {
            1int
        } else {
            0int
        }
    }
}

/// Count the occurrences of `c` in `s`.
pub fn count_char(s: &str, c: char) -> (r: usize)
    ensures
        r as int == spec_count_char(s@, c),
{
    let n = s.unicode_len();
    let mut cnt: usize = 0;
    let mut i: usize = 0;
    while i < n
        invariant
            0 <= i <= n,
            n == s@.len(),
            cnt <= i,
            cnt as int == spec_count_char(s@.subrange(0, i as int), c),
        decreases n - i,
    {
        proof {
            assert(s@.subrange(0, i + 1).drop_last() =~= s@.subrange(0, i as int));
        }
        if s.get_char(i) == c {
            cnt = cnt + 1;
        }
        i = i + 1;
    }
    proof {
        assert(s@.subrange(0, n as int) =~= s@);
    }
    cnt
}

/// Decimal digit test.
pub open spec fn is_digit_char(c: char) -> bool {
    48 <= c as u32 <= 57
}

/// The numeric value of a decimal digit character.
pub open spec fn digit_val(c: char) -> int {
    c as u32 - 48
}

/// True when every character of `s` is a decimal digit.
pub open spec fn spec_all_digits(s: Seq<char>) -> bool {
    forall|i: int| 0 <= i < s.len() ==> is_digit_char(s[i])
}

/// The value of `s` read as a decimal numeral.
pub open spec fn spec_digits_val(s: Seq<char>) -> int
    decreases s.len(),
{
    if s.len() == 0 {
        0
    } else {
        spec_digits_val(s.drop_last()) * 10 + digit_val(s.last())
    }
}

pub proof fn lemma_digits_val_nonneg(s: Seq<char>)
    requires
        spec_all_digits(s),
    ensures
        spec_digits_val(s) >= 0,
    decreases s.len(),
{
    if s.len() > 0 {
        assert(spec_all_digits(s.drop_last()));
        lemma_digits_val_nonneg(s.drop_last());
    }
}

/// Extending a digit numeral on the right can only increase its value.
pub proof fn lemma_digits_val_prefix(s: Seq<char>, i: int)
    requires
        spec_all_digits(s),
        0 <= i <= s.len(),
    ensures
        spec_digits_val(s.subrange(0, i)) <= spec_digits_val(s),
    decreases s.len() - i,
{
    if i == s.len() {
        assert(s.subrange(0, i) =~= s);
    } else {
        assert(spec_all_digits(s.subrange(0, i + 1)));
        assert(s.subrange(0, i + 1).drop_last() =~= s.subrange(0, i));
        lemma_digits_val_nonneg(s.subrange(0, i));
        lemma_digits_val_prefix(s, i + 1);
    }
}

/// The value of `s` read as std's `u64` parser reads it: an optional leading
/// plus sign, then one or more decimal digits, the whole fitting in the type.
pub open spec fn spec_parse_u64(s: Seq<char>) -> Option<u64> {
    let d = if s.len() >= 1 && s[0] == '+' {
        s.drop_first()
    } else {
        s
    };
    if d.len() >= 1 && spec_all_digits(d) && spec_digits_val(d) <= u64::MAX {
        Some(spec_digits_val(d) as u64)
    } else {
        None
    }
}

/// Parse a `u64` from decimal text.
#[verifier::loop_isolation(false)]
pub fn parse_u64(s: &str) -> (r: Option<u64>)
    ensures
        r == spec_parse_u64(s@),
{
    let n = s.unicode_len();
    let start: usize = if n >= 1 && s.get_char(0) == '+' {
        1
    } else {
        0
    };
    let ghost d = s@.subrange(start as int, n as int);
    proof {
        if start == 1 {
            assert(d =~= s@.drop_first());
        } else {
            assert(d =~= s@);
        }
    }
    if start >= n {
        return None;
    }
    let mut val: u64 = 0;
    let mut j: usize = start;
    while j < n
        invariant
            start <= j <= n,
            n == s@.len(),
            start < n,
            d == s@.subrange(start as int, n as int),
            spec_all_digits(s@.subrange(start as int, j as int)),
            val as int == spec_digits_val(s@.subrange(start as int, j as int)),
        decreases n - j,
    {
        let ghost done = s@.subrange(start as int, j as int);
        proof {
            assert(s@.subrange(start as int, j + 1).drop_last() =~= done);
        }
        let c = s.get_char(j);
        let u = c as u32;
        if !(48 <= u && u <= 57) {
            assert(!is_digit_char(d[j - start]));
            return None;
        }
        let dv: u64 = (u - 48) as u64;
        let step = match val.checked_mul(10) {
            Some(m) => m.checked_add(dv),
            None => None,
        };
        match step {
            Some(v) => {
                val = v;
            },
            None => {
                proof {
                    let ghost ext = s@.subrange(start as int, j + 1);
                    assert(spec_digits_val(ext) == val as int * 10 + digit_val(c));
                    if spec_all_digits(d) {
                        assert(ext =~= d.subrange(0, j + 1 - start));
                        lemma_digits_val_prefix(d, j + 1 - start);
                        assert(spec_digits_val(d) > u64::MAX);
                    }
                }
                return None;
            },
        }
        j = j + 1;
    }
    proof {
        assert(s@.subrange(start as int, n as int) =~= d);
    }
    Some(val)
}

/// The value of `s` read as std's `usize` parser reads it.
pub open spec fn spec_parse_usize(s: Seq<char>) -> Option<usize> {
    let d = if s.len() >= 1 && s[0] == '+' {
        s.drop_first()
    } else {
        s
    };
    if d.len() >= 1 && spec_all_digits(d) && spec_digits_val(d) <= usize::MAX {
        Some(spec_digits_val(d) as usize)
    } else {
        None
    }
}

/// Parse a `usize` from decimal text.
#[verifier::loop_isolation(false)]
pub fn parse_usize(s: &str) -> (r: Option<usize>)
    ensures
        r == spec_parse_usize(s@),
{
    let n = s.unicode_len();
    let start: usize = if n >= 1 && s.get_char(0) == '+' {
        1
    } else {
        0
    };
    let ghost d = s@.subrange(start as int, n as int);
    proof {
        if start == 1 {
            assert(d =~= s@.drop_first());
        } else {
            assert(d =~= s@);
        }
    }
    if start >= n {
        return None;
    }
    let mut val: usize = 0;
    let mut j: usize = start;
    while j < n
        invariant
            start <= j <= n,
            n == s@.len(),
            start < n,
            d == s@.subrange(start as int, n as int),
            spec_all_digits(s@.subrange(start as int, j as int)),
            val as int == spec_digits_val(s@.subrange(start as int, j as int)),
        decreases n - j,
    {
        let ghost done = s@.subrange(start as int, j as int);
        proof {
            assert(s@.subrange(start as int, j + 1).drop_last() =~= done);
        }
        let c = s.get_char(j);
        let u = c as u32;
        if !(48 <= u && u <= 57) {
            assert(!is_digit_char(d[j - start]));
            return None;
        }
        let dv: usize = (u - 48) as usize;
        let step = match val.checked_mul(10) {
            Some(m) => m.checked_add(dv),
            None => None,
        };
        match step {
            Some(v) => {
                val = v;
            },
            None => {
                proof {
                    let ghost ext = s@.subrange(start as int, j + 1);
                    assert(spec_digits_val(ext) == val as int * 10 + digit_val(c));
                    if spec_all_digits(d) {
                        assert(ext =~= d.subrange(0, j + 1 - start));
                        lemma_digits_val_prefix(d, j + 1 - start);
                        assert(spec_digits_val(d) > usize::MAX);
                    }
                }
                return None;
            },
        }
        j = j + 1;
    }
    proof {
        assert(s@.subrange(start as int, n as int) =~= d);
    }
    Some(val)
}

/// The value of `s` read as std's `i64` parser reads it: an optional sign,
/// then one or more decimal digits, the whole fitting in the type.
pub open spec fn spec_parse_i64(s: Seq<char>) -> Option<i64> {
    if s.len() >= 1 && s[0] == '-' {
        let d = s.drop_first();
        if d.len() >= 1 && spec_all_digits(d) && spec_digits_val(d) <= 0x8000000000000000 {
            Some((-spec_digits_val(d)) as i64)
        } else {
            None
        }
    } else {
        let d = if s.len() >= 1 && s[0] == '+' {
            s.drop_first()
        } else {
            s
        };
        if d.len() >= 1 && spec_all_digits(d) && spec_digits_val(d) <= i64::MAX {
            Some(spec_digits_val(d) as i64)
        } else {
            None
        }
    }
}

/// Parse an `i64` from decimal text.
#[verifier::loop_isolation(false)]
pub fn parse_i64(s: &str) -> (r: Option<i64>)
    ensures
        r == spec_parse_i64(s@),
{
    let n = s.unicode_len();
    let neg = n >= 1 && s.get_char(0) == '-';
    let start: usize = if n >= 1 && (s.get_char(0) == '+' || s.get_char(0) == '-') {
        1
    } else {
        0
    };
    let ghost d = s@.subrange(start as int, n as int);
    proof {
        if start == 1 {
            assert(d =~= s@.drop_first());
        } else {
            assert(d =~= s@);
        }
    }
    if start >= n {
        return None;
    }
    let bound: u64 = if neg {
        0x8000000000000000
    } else {
        0x7fffffffffffffff
    };
    let mut val: u64 = 0;
    let mut j: usize = start;
    while j < n
        invariant
            start <= j <= n,
            n == s@.len(),
            start < n,
            d == s@.subrange(start as int, n as int),
            spec_all_digits(s@.subrange(start as int, j as int)),
            val as int == spec_digits_val(s@.subrange(start as int, j as int)),
            val <= bound,
            bound == if neg {
                0x8000000000000000u64
            } else {
                0x7fffffffffffffffu64
            },
        decreases n - j,
    {
        let ghost done = s@.subrange(start as int, j as int);
        proof {
            assert(s@.subrange(start as int, j + 1).drop_last() =~= done);
        }
        let c = s.get_char(j);
        let u = c as u32;
        if !(48 <= u && u <= 57) {
            assert(!is_digit_char(d[j - start]));
            return None;
        }
        let dv: u64 = (u - 48) as u64;
        let step = match val.checked_mul(10) {
            Some(m) => m.checked_add(dv),
            None => None,
        };
        let over = match step {
            Some(v) => v > bound,
            None => true,
        };
        if over {
            proof {
                let ghost ext = s@.subrange(start as int, j + 1);
                assert(spec_digits_val(ext) == val as int * 10 + digit_val(c));
                if spec_all_digits(d) {
                    assert(ext =~= d.subrange(0, j + 1 - start));
                    lemma_digits_val_prefix(d, j + 1 - start);
                    assert(spec_digits_val(d) > bound);
                }
            }
            return None;
        }
        val = match step {
            Some(v) => v,
            None => 0,
        };
        j = j + 1;
    }
    proof {
        assert(s@.subrange(start as int, n as int) =~= d);
    }
    if neg {
        if val == 0x8000000000000000 {
            Some(i64::MIN)
        } else {
            Some(-(val as i64))
        }
    } else {
        Some(val as i64)
    }
}

/// ASCII-case-folded character code: lower-case letters map to upper case.
pub open spec fn spec_upper_code(c: char) -> int {
    if 97 <= c as u32 <= 122 {
        c as u32 - 32
    } else {
        c as u32 as int
    }
}

/// True when `a` and `b` agree up to ASCII case.
pub open spec fn spec_eq_ignore_ascii_case(a: Seq<char>, b: Seq<char>) -> bool {
    a.len() == b.len() && forall|i: int|
        0 <= i < a.len() ==> spec_upper_code(a[i]) == spec_upper_code(b[i])
}

/// Compare two strings ignoring ASCII case.
pub fn eq_ignore_ascii_case(a: &str, b: &str) -> (r: bool)
    ensures
        r == spec_eq_ignore_ascii_case(a@, b@),
{
    let n = a.unicode_len();
    let m = b.unicode_len();
    if n != m {
        return false;
    }
    let mut i: usize = 0;
    while i < n
        invariant
            0 <= i <= n,
            n == a@.len() == b@.len(),
            forall|j: int| 0 <= j < i ==> spec_upper_code(a@[j]) == spec_upper_code(b@[j]),
        decreases n - i,
    {
        let ca = a.get_char(i) as u32;
        let cb = b.get_char(i) as u32;
        let ua = if 97 <= ca && ca <= 122 {
            ca - 32
        } else {
            ca
        };
        let ub = if 97 <= cb && cb <= 122 {
            cb - 32
        } else {
            cb
        };
        if ua != ub {
            return false;
        }
        i = i + 1;
    }
    true
}

/// True when the view sequence `v` holds `x`.
pub fn contains_view(v: &Vec<String>, x: &str) -> (r: bool)
    ensures
        r == v.deep_view().contains(x@),
{
    let mut i: usize = 0;
    while i < v.len()
        invariant
            0 <= i <= v.len(),
            forall|j: int| 0 <= j < i ==> v.deep_view()[j] != x@,
        decreases v.len() - i,
    {
        if eq_str(v[i].as_str(), x) {
            assert(v.deep_view()[i as int] == x@);
            return true;
        }
        i = i + 1;
    }
    false
}

/// True when every character of `s` is a decimal digit.
pub fn all_digits(s: &str) -> (r: bool)
    ensures
        r == spec_all_digits(s@),
{
    let n = s.unicode_len();
    let mut i: usize = 0;
    while i < n
        invariant
            0 <= i <= n,
            n == s@.len(),
            forall|j: int| 0 <= j < i ==> is_digit_char(s@[j]),
        decreases n - i,
    {
        let u = s.get_char(i) as u32;
        if !(48 <= u && u <= 57) {
            return false;
        }
        i = i + 1;
    }
    true
}

/// A digit numeral's value is bounded by the power of ten of its width.
pub proof fn lemma_digits_val_bound(s: Seq<char>)
    requires
        spec_all_digits(s),
    ensures
        spec_digits_val(s) < spec_pow10(s.len() as nat),
    decreases s.len(),
{
    if s.len() > 0 {
        assert(spec_all_digits(s.drop_last()));
        lemma_digits_val_bound(s.drop_last());
    }
}

/// The power of ten with exponent `k`.
pub open spec fn spec_pow10(k: nat) -> int
    decreases k,
{
    if k == 0 {
        1
    } else {
        10 * spec_pow10((k - 1) as nat)
    }
}

/// Compute a small power of ten.
pub fn pow10_u64(k: usize) -> (r: u64)
    requires
        k <= 10,
    ensures
        r as int == spec_pow10(k as nat),
        r >= 1,
{
    let mut r: u64 = 1;
    let mut i: usize = 0;
    while i < k
        invariant
            0 <= i <= k <= 10,
            r as int == spec_pow10(i as nat),
            r >= 1,
            r <= 10000000000,
        decreases k - i,
    {
        proof {
            lemma_pow10_bounds((i + 1) as nat);
        }
        r = r * 10;
        i = i + 1;
    }
    r
}

proof fn lemma_pow10_pos(k: nat)
    ensures
        spec_pow10(k) >= 1,
    decreases k,
{
    if k > 0 {
        lemma_pow10_pos((k - 1) as nat);
    }
}

proof fn lemma_pow10_le(j: nat, k: nat)
    requires
        j <= k,
    ensures
        spec_pow10(j) <= spec_pow10(k),
    decreases k,
{
    lemma_pow10_pos(j);
    if j < k {
        lemma_pow10_le(j, (k - 1) as nat);
        lemma_pow10_pos((k - 1) as nat);
    }
}

/// A power of ten with exponent at most ten is between one and ten billion.
pub proof fn lemma_pow10_bounds(k: nat)
    requires
        k <= 10,
    ensures
        1 <= spec_pow10(k) <= 10000000000,
{
    lemma_pow10_pos(k);
    lemma_pow10_le(k, 10);
    reveal_with_fuel(spec_pow10, 11);
    assert(spec_pow10(10) == 10000000000);
}

/// Membership in a pushed sequence: the old members and the new element.
pub proof fn lemma_seq_push_contains<T>(s: Seq<T>, y: T, x: T)
    ensures
        s.push(y).contains(x) <==> (s.contains(x) || x == y),
{
    if s.contains(x) {
        let i = choose|i: int| 0 <= i < s.len() && s[i] == x;
        assert(s.push(y)[i] == x);
    }
    assert(s.push(y)[s.len() as int] == y);
    if s.push(y).contains(x) {
        let i = choose|i: int| 0 <= i < s.push(y).len() && s.push(y)[i] == x;
        if i < s.len() {
            assert(s[i] == x);
        }
    }
}

/// Clone an optional string, with the value pinned.
pub fn clone_opt(o: &Option<String>) -> (r: Option<String>)
    ensures
        r.deep_view() == o.deep_view(),
{
    match o {
        Some(s) => Some(s.clone()),
        None => None,
    }
}

/// Concatenation of four strings, with its view pinned.
pub fn concat4(a: &str, b: &str, c: &str, d: &str) -> (r: String)
    ensures
        r@ == a@ + b@ + c@ + d@,
{
    let mut s = String::from_str(a);
    s.append(b);
    s.append(c);
    s.append(d);
    s
}

} // verus!
