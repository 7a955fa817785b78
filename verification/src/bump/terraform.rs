//! Terraform-side scanning and rewriting: extracting the comparable
//! version from a constraint, parsing `module` blocks out of source
//! text, and rewriting a version constraint in place.

use vstd::prelude::*;

use crate::strutil;

verus! {

/// A decimal digit.
pub open spec fn is_digit(c: char) -> bool {
    '0' <= c && c <= '9'
}

/// End of the maximal digit run beginning at `i`: the first position at
/// or after `i` holding no digit.
pub open spec fn digit_run_end(s: Seq<char>, i: int) -> int
    decreases s.len() - i,
{
    if i < 0 || i >= s.len() || !is_digit(s[i]) {
        i
    } else {
        digit_run_end(s, i + 1)
    }
}

proof fn lemma_digit_run_end(s: Seq<char>, i: int)
    requires
        0 <= i <= s.len(),
    ensures
        i <= digit_run_end(s, i) <= s.len(),
        forall|j: int| i <= j < digit_run_end(s, i) ==> is_digit(s[j]),
        digit_run_end(s, i) < s.len() ==> !is_digit(s[digit_run_end(s, i)]),
    decreases s.len() - i,
{
    if i < s.len() && is_digit(s[i]) {
        lemma_digit_run_end(s, i + 1);
    }
}

/// Whether a `number.number` pattern begins at `i`: a digit run, a dot,
/// and at least one further digit.
pub open spec fn version_match_at(s: Seq<char>, i: int) -> bool {
    let j1 = digit_run_end(s, i);
    j1 > i && j1 < s.len() && s[j1] == '.' && j1 + 1 < s.len() && is_digit(s[j1 + 1])
}

/// End of the version pattern beginning at `i`: digits, a dot, digits,
/// and one more dot-digits group when present.
pub open spec fn version_match_end(s: Seq<char>, i: int) -> int {
    let j1 = digit_run_end(s, i);
    let j2 = digit_run_end(s, j1 + 1);
    if j2 < s.len() && s[j2] == '.' && j2 + 1 < s.len() && is_digit(s[j2 + 1]) {
        digit_run_end(s, j2 + 1)
    } else {
        j2
    }
}

/// Start of the leftmost version pattern at or after `from`, if any.
pub open spec fn first_version_match(s: Seq<char>, from: int) -> Option<int>
    decreases s.len() - from,
{
    if from < 0 || from >= s.len() {
        None
    } else if version_match_at(s, from) {
        Some(from)
    } else {
        first_version_match(s, from + 1)
    }
}

/// End of the maximal digit run beginning at `i`.
fn digit_run_end_exec(s: &str, i: usize) -> (r: usize)
    requires
        i <= s@.len(),
    ensures
        r == digit_run_end(s@, i as int),
        i <= r <= s@.len(),
{
    let slen = s.unicode_len();
    let mut j: usize = i;
    while j < slen
        invariant
            i <= j <= slen,
            slen == s@.len(),
            digit_run_end(s@, i as int) == digit_run_end(s@, j as int),
            forall|k: int| i <= k < j ==> is_digit(s@[k]),
        decreases slen - j,
    {
        let c = s.get_char(j);
        if c < '0' || c > '9' {
            proof {
                lemma_digit_run_end(s@, j as int);
            }
            return j;
        }
        j = j + 1;
    }
    proof {
        lemma_digit_run_end(s@, j as int);
    }
    j
}

/// Whether a version pattern begins at `i`, and where it ends.
fn version_match_exec(s: &str, i: usize) -> (r: Option<usize>)
    requires
        i <= s@.len(),
    ensures
        match r {
            Some(e) => version_match_at(s@, i as int) && e == version_match_end(s@, i as int) && i
                <= e <= s@.len(),
            None => !version_match_at(s@, i as int),
        },
{
    let slen = s.unicode_len();
    let j1 = digit_run_end_exec(s, i);
    if j1 == i || j1 >= slen {
        return None;
    }
    if s.get_char(j1) != '.' {
        return None;
    }
    if j1 + 1 >= slen {
        return None;
    }
    let c = s.get_char(j1 + 1);
    if c < '0' || c > '9' {
        return None;
    }
    let j2 = digit_run_end_exec(s, j1 + 1);
    if j2 < slen && j2 + 1 < slen {
        let d = s.get_char(j2);
        let e = s.get_char(j2 + 1);
        if d == '.' && '0' <= e && e <= '9' {
            let j3 = digit_run_end_exec(s, j2 + 1);
            return Some(j3);
        }
    }
    Some(j2)
}

/// The version text selected from a constraint: the leftmost
/// `number.number[.number]` group, or the whole constraint when none
/// occurs.
pub open spec fn spec_extracted_version(s: Seq<char>) -> Seq<char> {
    match first_version_match(s, 0) {
        Some(i) => s.subrange(i, version_match_end(s, i)),
        None => s,
    }
}

/// Extract the comparable version from a constraint: `~> 5.0` yields
/// `5.0`, `>= 4.0.0` yields `4.0.0`, and a bare `5.0.0` is returned
/// unchanged, as is any text with no version-shaped group.
pub fn extract_version_from_constraint(constraint: &str) -> (r: String)
    ensures
        r@ == spec_extracted_version(constraint@),
{
    let slen = constraint.unicode_len();
    let mut i: usize = 0;
    while i < slen
        invariant
            i <= slen,
            slen == constraint@.len(),
            first_version_match(constraint@, 0) == first_version_match(constraint@, i as int),
        decreases slen - i,
    {
        match version_match_exec(constraint, i) {
            Some(e) => {
                proof {
                    assert(first_version_match(constraint@, i as int) == Some(i as int));
                }
                return constraint.substring_char(i, e).to_owned();
            },
            None => {
                i = i + 1;
            },
        }
    }
    constraint.to_owned()
}

/// Horizontal whitespace inside a line.
pub open spec fn is_ws(c: char) -> bool {
    c == ' ' || c == '\t'
}

/// End of the maximal whitespace run beginning at `i`.
pub open spec fn ws_end(line: Seq<char>, i: int) -> int
    decreases line.len() - i,
{
    if i < 0 || i >= line.len() || !is_ws(line[i]) {
        i
    } else {
        ws_end(line, i + 1)
    }
}

proof fn lemma_ws_end(line: Seq<char>, i: int)
    requires
        0 <= i <= line.len(),
    ensures
        i <= ws_end(line, i) <= line.len(),
        ws_end(line, i) < line.len() ==> !is_ws(line[ws_end(line, i)]),
    decreases line.len() - i,
{
    if i < line.len() && is_ws(line[i]) {
        lemma_ws_end(line, i + 1);
    }
}

/// End of the maximal whitespace run beginning at `i`.
fn ws_end_exec(line: &str, i: usize) -> (r: usize)
    requires
        i <= line@.len(),
    ensures
        r == ws_end(line@, i as int),
        i <= r <= line@.len(),
{
    let llen = line.unicode_len();
    let mut j: usize = i;
    while j < llen
        invariant
            i <= j <= llen,
            llen == line@.len(),
            ws_end(line@, i as int) == ws_end(line@, j as int),
        decreases llen - j,
    {
        let c = line.get_char(j);
        if c != ' ' && c != '\t' {
            return j;
        }
        j = j + 1;
    }
    j
}

/// The `module` keyword.
pub open spec fn kw_module() -> Seq<char> {
    seq!['m', 'o', 'd', 'u', 'l', 'e']
}

/// The label of a module block header, when the line is one: optional
/// leading whitespace, `module`, at least one space, the quoted label,
/// optional whitespace, and an opening brace.
pub open spec fn spec_header_name(line: Seq<char>) -> Option<Seq<char>> {
    let p = ws_end(line, 0);
    if !strutil::matches_at(line, kw_module(), p) {
        None
    } else {
        let q = ws_end(line, p + 6);
        if q == p + 6 || q >= line.len() || line[q] != '"' {
            None
        } else {
            match strutil::spec_find_char(line, '"', q + 1) {
                None => None,
                Some(qe) => {
                    if qe == q + 1 {
                        None
                    } else {
                        let w = ws_end(line, qe + 1);
                        if w >= line.len() || line[w] != '{' {
                            None
                        } else {
                            Some(line.subrange(q + 1, qe))
                        }
                    }
                },
            }
        }
    }
}

/// Parse a module block header line, returning its label.
pub fn header_module_name(line: &str) -> (r: Option<String>)
    ensures
        match r {
            Some(n) => spec_header_name(line@) == Some(n@),
            None => spec_header_name(line@) is None,
        },
{
    proof {
        reveal_strlit("module");
        assert("module"@ =~= kw_module());
    }
    let llen = line.unicode_len();
    let p = ws_end_exec(line, 0);
    if llen - p < 6 {
        return None;
    }
    if !strutil::str_matches_at(line, "module", p) {
        return None;
    }
    let q = ws_end_exec(line, p + 6);
    if q == p + 6 || q >= llen {
        return None;
    }
    if line.get_char(q) != '"' {
        return None;
    }
    match strutil::find_char_at(line, '"', q + 1) {
        None => None,
        Some(qe) => {
            if qe == q + 1 {
                return None;
            }
            let w = ws_end_exec(line, qe + 1);
            if w >= llen {
                return None;
            }
            if line.get_char(w) != '{' {
                return None;
            }
            Some(line.substring_char(q + 1, qe).to_owned())
        },
    }
}

/// Whether a quoted assignment of `key` begins at position `p`: the
/// key, optional whitespace, `=`, optional whitespace, and a nonempty
/// double-quoted value.
pub open spec fn assign_ok_at(line: Seq<char>, key: Seq<char>, p: int) -> bool {
    strutil::matches_at(line, key, p) && {
        let e = ws_end(line, p + key.len());
        e < line.len() && line[e] == '=' && {
            let v = ws_end(line, e + 1);
            v < line.len() && line[v] == '"' && (match strutil::spec_find_char(
                line,
                '"',
                v + 1,
            ) {
                Some(ve) => ve > v + 1,
                None => false,
            })
        }
    }
}

/// The quoted value of the assignment beginning at `p`.
pub open spec fn assign_value_at(line: Seq<char>, key: Seq<char>, p: int) -> Seq<char>
    recommends
        assign_ok_at(line, key, p),
{
    let e = ws_end(line, p + key.len());
    let v = ws_end(line, e + 1);
    let ve = strutil::spec_find_char(line, '"', v + 1).unwrap();
    line.subrange(v + 1, ve)
}

/// Start of the first assignment of `key` at or after `from`.
pub open spec fn first_assign(line: Seq<char>, key: Seq<char>, from: int) -> Option<int>
    decreases line.len() - from,
{
    if from < 0 || from >= line.len() {
        None
    } else if assign_ok_at(line, key, from) {
        Some(from)
    } else {
        first_assign(line, key, from + 1)
    }
}

proof fn lemma_first_assign_some(line: Seq<char>, key: Seq<char>, from: int, i: int)
    requires
        0 <= from <= i < line.len(),
        assign_ok_at(line, key, i),
        forall|j: int| from <= j < i ==> !assign_ok_at(line, key, j),
    ensures
        first_assign(line, key, from) == Some(i),
    decreases i - from,
{
    if from < i {
        lemma_first_assign_some(line, key, from + 1, i);
    }
}

proof fn lemma_first_assign_none(line: Seq<char>, key: Seq<char>, from: int)
    requires
        from >= 0,
        forall|j: int| from <= j < line.len() ==> !assign_ok_at(line, key, j),
    ensures
        first_assign(line, key, from) is None,
    decreases line.len() - from,
{
    if from < line.len() {
        lemma_first_assign_none(line, key, from + 1);
    }
}

/// The value of the first `key = "..."` assignment on the line.
pub open spec fn spec_line_value(line: Seq<char>, key: Seq<char>) -> Option<Seq<char>> {
    match first_assign(line, key, 0) {
        Some(p) => Some(assign_value_at(line, key, p)),
        None => None,
    }
}

/// Check an assignment of `key` at position `p`; returns the value
/// bounds on success.
fn assign_check(line: &str, key: &str, p: usize) -> (r: Option<(usize, usize)>)
    requires
        p + key@.len() <= line@.len(),
        strutil::matches_at(line@, key@, p as int),
    ensures
        match r {
            Some(b) => assign_ok_at(line@, key@, p as int) && b.0 == ws_end(
                line@,
                ws_end(line@, p + key@.len()) + 1,
            ) && Some(b.1 as int) == strutil::spec_find_char(line@, '"', b.0 + 1) && b.0 + 1 <= b.1
                <= line@.len(),
            None => !assign_ok_at(line@, key@, p as int),
        },
{
    let llen = line.unicode_len();
    let klen = key.unicode_len();
    let e = ws_end_exec(line, p + klen);
    if e >= llen {
        return None;
    }
    if line.get_char(e) != '=' {
        return None;
    }
    let v = ws_end_exec(line, e + 1);
    if v >= llen {
        return None;
    }
    if line.get_char(v) != '"' {
        return None;
    }
    match strutil::find_char_at(line, '"', v + 1) {
        None => None,
        Some(ve) => {
            if ve == v + 1 {
                return None;
            }
            Some((v, ve))
        },
    }
}

/// The value of the first `key = "..."` assignment on the line, if
/// any.
pub fn line_assign_value(line: &str, key: &str) -> (r: Option<String>)
    requires
        key@.len() >= 1,
    ensures
        match r {
            Some(v) => spec_line_value(line@, key@) == Some(v@),
            None => spec_line_value(line@, key@) is None,
        },
{
    let llen = line.unicode_len();
    let mut from: usize = 0;
    loop
        invariant
            key@.len() >= 1,
            llen == line@.len(),
            forall|j: int| 0 <= j < from ==> !assign_ok_at(line@, key@, j),
        decreases line@.len() + 1 - from,
    {
        match strutil::find_sub_from(line, key, from) {
            None => {
                proof {
                    assert(forall|j: int| from <= j < line@.len() ==> !strutil::matches_at(
                        line@,
                        key@,
                        j,
                    ));
                    lemma_first_assign_none(line@, key@, 0);
                }
                return None;
            },
            Some(i) => {
                proof {
                    assert(forall|j: int| from <= j < i ==> !strutil::matches_at(line@, key@, j));
                }
                match assign_check(line, key, i) {
                    Some((v, ve)) => {
                        proof {
                            lemma_first_assign_some(line@, key@, 0, i as int);
                            lemma_ws_end(line@, i + key@.len());
                            lemma_ws_end(line@, ws_end(line@, i + key@.len()) + 1);
                        }
                        return Some(line.substring_char(v + 1, ve).to_owned());
                    },
                    None => {
                        from = i + 1;
                    },
                }
            },
        }
    }
}

/// The value of the first `key = "..."` assignment on the lines of the
/// half-open range `[lo, hi)`, scanning top to bottom.
pub open spec fn spec_block_value(
    lines: Seq<Seq<char>>,
    lo: int,
    hi: int,
    key: Seq<char>,
) -> Option<Seq<char>>
    decreases hi - lo,
{
    if lo < 0 || lo >= hi || lo >= lines.len() {
        None
    } else {
        match spec_line_value(lines[lo], key) {
            Some(v) => Some(v),
            None => spec_block_value(lines, lo + 1, hi, key),
        }
    }
}

/// The value of the first `key = "..."` assignment on lines `[lo, hi)`.
fn block_value(lines: &Vec<String>, lo: usize, hi: usize, key: &str) -> (r: Option<String>)
    requires
        key@.len() >= 1,
        hi <= lines.len(),
    ensures
        match r {
            Some(v) => spec_block_value(lines.deep_view(), lo as int, hi as int, key@) == Some(
                v@,
            ),
            None => spec_block_value(lines.deep_view(), lo as int, hi as int, key@) is None,
        },
{
    if lo >= hi {
        return None;
    }
    let ghost ldv = lines.deep_view();
    let mut l: usize = lo;
    while l < hi
        invariant
            lo <= l,
            l <= hi <= lines.len(),
            ldv == lines.deep_view(),
            ldv.len() == lines.len(),
            key@.len() >= 1,
            spec_block_value(ldv, lo as int, hi as int, key@) == spec_block_value(
                ldv,
                l as int,
                hi as int,
                key@,
            ),
        decreases hi - l,
    {
        proof {
            assert(ldv[l as int] == lines[l as int]@);
        }
        match line_assign_value(lines[l].as_str(), key) {
            Some(v) => {
                return Some(v);
            },
            None => {
                l = l + 1;
            },
        }
    }
    None
}

/// Whether the line is exactly a closing brace.
pub open spec fn is_close_line(line: Seq<char>) -> bool {
    line == seq!['}']
}

/// Index of the first module header line at or after `l`.
pub open spec fn spec_first_header(lines: Seq<Seq<char>>, l: int) -> Option<int>
    decreases lines.len() - l,
{
    if l < 0 || l >= lines.len() {
        None
    } else if spec_header_name(lines[l]) is Some {
        Some(l)
    } else {
        spec_first_header(lines, l + 1)
    }
}

proof fn lemma_first_header_bounds(lines: Seq<Seq<char>>, l: int)
    ensures
        match spec_first_header(lines, l) {
            Some(h) => l <= h < lines.len() && spec_header_name(lines[h]) is Some,
            None => true,
        },
    decreases lines.len() - l,
{
    if 0 <= l < lines.len() && spec_header_name(lines[l]) is None {
        lemma_first_header_bounds(lines, l + 1);
    }
}

/// Index of the first line that is exactly `}` at or after `l`.
pub open spec fn spec_first_close(lines: Seq<Seq<char>>, l: int) -> Option<int>
    decreases lines.len() - l,
{
    if l < 0 || l >= lines.len() {
        None
    } else if is_close_line(lines[l]) {
        Some(l)
    } else {
        spec_first_close(lines, l + 1)
    }
}

proof fn lemma_first_close_bounds(lines: Seq<Seq<char>>, l: int)
    ensures
        match spec_first_close(lines, l) {
            Some(m) => l <= m < lines.len() && is_close_line(lines[m]),
            None => true,
        },
    decreases lines.len() - l,
{
    if 0 <= l < lines.len() && !is_close_line(lines[l]) {
        lemma_first_close_bounds(lines, l + 1);
    }
}

/// Index of the first module header line at or after `l`.
fn first_header(lines: &Vec<String>, l: usize) -> (r: Option<(usize, String)>)
    requires
        l <= lines.len(),
    ensures
        match r {
            Some(p) => spec_first_header(lines.deep_view(), l as int) == Some(p.0 as int) && p.0
                < lines.len() && spec_header_name(lines.deep_view()[p.0 as int]) == Some(p.1@),
            None => spec_first_header(lines.deep_view(), l as int) is None,
        },
{
    let ghost ldv = lines.deep_view();
    let mut i: usize = l;
    while i < lines.len()
        invariant
            l <= i <= lines.len(),
            ldv == lines.deep_view(),
            ldv.len() == lines.len(),
            spec_first_header(ldv, l as int) == spec_first_header(ldv, i as int),
        decreases lines.len() - i,
    {
        proof {
            assert(ldv[i as int] == lines[i as int]@);
        }
        match header_module_name(lines[i].as_str()) {
            Some(name) => {
                return Some((i, name));
            },
            None => {
                i = i + 1;
            },
        }
    }
    None
}

/// Index of the first `}` line at or after `l`.
fn first_close(lines: &Vec<String>, l: usize) -> (r: Option<usize>)
    requires
        l <= lines.len(),
    ensures
        match r {
            Some(m) => spec_first_close(lines.deep_view(), l as int) == Some(m as int) && l <= m
                < lines.len(),
            None => spec_first_close(lines.deep_view(), l as int) is None,
        },
{
    let ghost ldv = lines.deep_view();
    let mut i: usize = l;
    while i < lines.len()
        invariant
            l <= i <= lines.len(),
            ldv == lines.deep_view(),
            ldv.len() == lines.len(),
            spec_first_close(ldv, l as int) == spec_first_close(ldv, i as int),
        decreases lines.len() - i,
    {
        proof {
            assert(ldv[i as int] == lines[i as int]@);
            reveal_strlit("}");
            assert("}"@ =~= seq!['}']);
        }
        if crate::strutil::str_eq(lines[i].as_str(), "}") {
            return Some(i);
        }
        i = i + 1;
    }
    None
}

/// The registry part of a module source: the text before the first
/// `//`, which separates a submodule path.
pub open spec fn spec_registry_source(src: Seq<char>) -> Seq<char> {
    match strutil::spec_find_sub(src, seq!['/', '/'], 0) {
        Some(i) => src.take(i),
        None => src,
    }
}

/// Whether a module source addresses the module registry: it contains a
/// slash, is neither a VCS (`git::`) nor a local (`./`) source, and its
/// registry part has exactly the three `namespace/name/provider`
/// segments.
pub open spec fn spec_source_valid(src: Seq<char>) -> bool {
    strutil::spec_find_char(src, '/', 0) is Some && !strutil::spec_starts_with(
        src,
        seq!['g', 'i', 't', ':', ':'],
    ) && !strutil::spec_starts_with(src, seq!['.', '/']) && strutil::spec_split_on(
        spec_registry_source(src),
        '/',
    ).len() == 3
}

/// Ghost view of a scanned module declaration.
#[verifier::ext_equal]
pub struct DeclView {
    pub name: Seq<char>,
    pub source: Seq<char>,
    pub constraint: Seq<char>,
    pub current_version: Seq<char>,
    pub namespace: Seq<char>,
    pub module_name: Seq<char>,
    pub provider: Seq<char>,
    pub line_number: int,
}

/// One module declaration found in a source file: the block label, the
/// registry source with its three segments, the constraint text and the
/// comparable version derived from it, and a best-effort line number.
pub struct ModuleDecl {
    pub name: String,
    pub source: String,
    pub constraint: String,
    pub current_version: String,
    pub namespace: String,
    pub module_name: String,
    pub provider: String,
    pub line_number: usize,
}

impl View for ModuleDecl {
    type V = DeclView;

    open spec fn view(&self) -> DeclView {
        DeclView {
            name: self.name@,
            source: self.source@,
            constraint: self.constraint@,
            current_version: self.current_version@,
            namespace: self.namespace@,
            module_name: self.module_name@,
            provider: self.provider@,
            line_number: self.line_number as int,
        }
    }
}

impl DeepView for ModuleDecl {
    type V = DeclView;

    open spec fn deep_view(&self) -> DeclView {
        self@
    }
}

/// The text `module "<name>"` used to locate the declaring line.
pub open spec fn spec_module_needle(name: Seq<char>) -> Seq<char> {
    seq!['m', 'o', 'd', 'u', 'l', 'e', ' ', '"'] + name + seq!['"']
}

/// Index of the first line containing `needle`, if any.
pub open spec fn spec_first_line_containing(
    lines: Seq<Seq<char>>,
    needle: Seq<char>,
    l: int,
) -> Option<int>
    decreases lines.len() - l,
{
    if l < 0 || l >= lines.len() {
        None
    } else if strutil::spec_find_sub(lines[l], needle, 0) is Some {
        Some(l)
    } else {
        spec_first_line_containing(lines, needle, l + 1)
    }
}

/// The 1-based line number reported for a module declaration: the
/// first line containing `module "<name>"`, or 1 when none matches.
pub open spec fn spec_module_line(lines: Seq<Seq<char>>, name: Seq<char>) -> int {
    match spec_first_line_containing(lines, spec_module_needle(name), 0) {
        Some(l) => l + 1,
        None => 1,
    }
}

/// The 1-based line number of the module declaration named `name`.
fn module_line_number(lines: &Vec<String>, name: &str) -> (r: usize)
    ensures
        r == spec_module_line(lines.deep_view(), name@),
{
    let ghost ldv = lines.deep_view();
    let needle = strutil::concat3("module \"", name, "\"");
    proof {
        reveal_strlit("module \"");
        reveal_strlit("\"");
        assert("module \""@ =~= seq!['m', 'o', 'd', 'u', 'l', 'e', ' ', '"']);
        assert("\""@ =~= seq!['"']);
        assert(needle@ =~= spec_module_needle(name@));
    }
    let mut i: usize = 0;
    while i < lines.len()
        invariant
            i <= lines.len(),
            ldv == lines.deep_view(),
            ldv.len() == lines.len(),
            needle@ == spec_module_needle(name@),
            needle@.len() >= 1,
            spec_first_line_containing(ldv, needle@, 0) == spec_first_line_containing(
                ldv,
                needle@,
                i as int,
            ),
        decreases lines.len() - i,
    {
        proof {
            assert(ldv[i as int] == lines[i as int]@);
        }
        match strutil::find_sub_at(lines[i].as_str(), needle.as_str(), 0) {
            Some(_) => {
                return i + 1;
            },
            None => {
                i = i + 1;
            },
        }
    }
    1
}

/// The declaration extracted from the block headed at line `h` and
/// closed at line `m`: present when the block carries both a `source`
/// and a `version` assignment and the source addresses the registry.
pub open spec fn spec_decl_of_block(lines: Seq<Seq<char>>, h: int, m: int) -> Option<DeclView>
    recommends
        0 <= h < lines.len(),
        spec_header_name(lines[h]) is Some,
{
    let name = spec_header_name(lines[h]).unwrap();
    let src = spec_block_value(lines, h + 1, m, seq!['s', 'o', 'u', 'r', 'c', 'e']);
    let cons = spec_block_value(lines, h + 1, m, seq!['v', 'e', 'r', 's', 'i', 'o', 'n']);
    match (src, cons) {
        (Some(source), Some(constraint)) => {
            if spec_source_valid(source) {
                let segs = strutil::spec_split_on(spec_registry_source(source), '/');
                Some(
                    DeclView {
                        name,
                        source,
                        constraint,
                        current_version: spec_extracted_version(constraint),
                        namespace: segs[0],
                        module_name: segs[1],
                        provider: segs[2],
                        line_number: spec_module_line(lines, name),
                    },
                )
            } else {
                None
            }
        },
        _ => None,
    }
}

/// Extract the declaration of one module block, if it is complete and
/// registry-addressed.
fn decl_of_block(lines: &Vec<String>, h: usize, m: usize, name: String) -> (r: Option<ModuleDecl>)
    requires
        h < lines.len(),
        m <= lines.len(),
        spec_header_name(lines.deep_view()[h as int]) == Some(name@),
    ensures
        match r {
            Some(d) => spec_decl_of_block(lines.deep_view(), h as int, m as int) == Some(d@),
            None => spec_decl_of_block(lines.deep_view(), h as int, m as int) is None,
        },
{
    let ghost ldv = lines.deep_view();
    proof {
        reveal_strlit("source");
        reveal_strlit("version");
        reveal_strlit("git::");
        reveal_strlit("./");
        reveal_strlit("//");
        assert("source"@ =~= seq!['s', 'o', 'u', 'r', 'c', 'e']);
        assert("version"@ =~= seq!['v', 'e', 'r', 's', 'i', 'o', 'n']);
        assert("git::"@ =~= seq!['g', 'i', 't', ':', ':']);
        assert("./"@ =~= seq!['.', '/']);
        assert("//"@ =~= seq!['/', '/']);
    }
    let source = match block_value(lines, h + 1, m, "source") {
        Some(s) => s,
        None => {
            return None;
        },
    };
    let constraint = match block_value(lines, h + 1, m, "version") {
        Some(c) => c,
        None => {
            return None;
        },
    };
    let has_slash = match strutil::find_char_at(source.as_str(), '/', 0) {
        Some(_) => true,
        None => false,
    };
    if !has_slash || strutil::str_starts_with(source.as_str(), "git::") || strutil::str_starts_with(
        source.as_str(),
        "./",
    ) {
        return None;
    }
    let registry_src: String = match strutil::find_sub_at(source.as_str(), "//", 0) {
        Some(i) => {
            proof {
                assert(source@.subrange(0, i as int) =~= source@.take(i as int));
            }
            source.as_str().substring_char(0, i).to_owned()
        },
        None => source.clone(),
    };
    proof {
        assert(registry_src@ == spec_registry_source(source@));
    }
    let segs = strutil::split_on(registry_src.as_str(), '/');
    if segs.len() != 3 {
        return None;
    }
    let current_version = extract_version_from_constraint(constraint.as_str());
    let line_number = module_line_number(lines, name.as_str());
    let d = ModuleDecl {
        namespace: segs[0].clone(),
        module_name: segs[1].clone(),
        provider: segs[2].clone(),
        name,
        source,
        constraint,
        current_version,
        line_number,
    };
    proof {
        assert(segs.deep_view()[0] == segs[0]@);
        assert(segs.deep_view()[1] == segs[1]@);
        assert(segs.deep_view()[2] == segs[2]@);
        assert(spec_decl_of_block(ldv, h as int, m as int) == Some(d@)) by {
            assert(spec_decl_of_block(ldv, h as int, m as int).unwrap() =~= d@);
        }
    }
    Some(d)
}

/// The module declarations of the lines at or after `l`: at each module
/// header, the block runs to the first following line that is exactly
/// `}`; a block without one ends the scan, and scanning resumes after a
/// closed block.
pub open spec fn spec_parse_from(lines: Seq<Seq<char>>, l: int) -> Seq<DeclView>
    decreases lines.len() - l,
    via spec_parse_from_dec
{
    match spec_first_header(lines, l) {
        None => Seq::empty(),
        Some(h) => match spec_first_close(lines, h + 1) {
            None => Seq::empty(),
            Some(m) => {
                let rest = spec_parse_from(lines, m + 1);
                match spec_decl_of_block(lines, h, m) {
                    Some(d) => seq![d] + rest,
                    None => rest,
                }
            },
        },
    }
}

#[via_fn]
proof fn spec_parse_from_dec(lines: Seq<Seq<char>>, l: int) {
    lemma_first_header_bounds(lines, l);
    match spec_first_header(lines, l) {
        None => {},
        Some(h) => {
            lemma_first_close_bounds(lines, h + 1);
        },
    }
}

/// The module declarations found in a Terraform source text, split at
/// newlines.
pub open spec fn spec_scan_modules(content: Seq<char>) -> Seq<DeclView> {
    spec_parse_from(strutil::spec_split_on(content, '\n'), 0)
}

/// Scan Terraform source text for `module` blocks that declare a
/// registry source and a version constraint, in order of appearance.
pub fn parse_terraform_modules(content: &str) -> (r: Vec<ModuleDecl>)
    ensures
        r.deep_view() == spec_scan_modules(content@),
{
    let lines = strutil::split_on(content, '\n');
    let ghost ldv = lines.deep_view();
    let mut out: Vec<ModuleDecl> = Vec::new();
    let mut l: usize = 0;
    proof {
        assert(out.deep_view() + spec_parse_from(ldv, 0) =~= spec_parse_from(ldv, 0));
    }
    loop
        invariant
            l <= lines.len(),
            ldv == lines.deep_view(),
            ldv.len() == lines.len(),
            spec_scan_modules(content@) == out.deep_view() + spec_parse_from(ldv, l as int),
        decreases ldv.len() + 1 - l,
    {
        let (h, name) = match first_header(&lines, l) {
            Some(p) => p,
            None => {
                proof {
                    assert(spec_parse_from(ldv, l as int) =~= Seq::<DeclView>::empty());
                    assert(out.deep_view() + Seq::<DeclView>::empty() =~= out.deep_view());
                }
                return out;
            },
        };
        proof {
            lemma_first_header_bounds(ldv, l as int);
        }
        let m = match first_close(&lines, h + 1) {
            Some(m) => m,
            None => {
                proof {
                    assert(spec_parse_from(ldv, l as int) =~= Seq::<DeclView>::empty());
                    assert(out.deep_view() + Seq::<DeclView>::empty() =~= out.deep_view());
                }
                return out;
            },
        };
        let ghost prev = out.deep_view();
        match decl_of_block(&lines, h, m, name) {
            Some(d) => {
                out.push(d);
                proof {
                    assert(out.deep_view() =~= prev + seq![d@]);
                    assert(prev + (seq![d@] + spec_parse_from(ldv, m + 1)) =~= out.deep_view()
                        + spec_parse_from(ldv, m + 1));
                }
            },
            None => {},
        }
        l = m + 1;
    }
}

/// The constraint text after an update: the `~>`, `>=` or `>` operator
/// is kept with a single space before the new version, and an
/// operator-less constraint becomes the bare new version.
pub open spec fn spec_rewritten_constraint(old: Seq<char>, new_version: Seq<char>) -> Seq<char> {
    if strutil::spec_starts_with(old, seq!['~', '>']) {
        seq!['~', '>', ' '] + new_version
    } else if strutil::spec_starts_with(old, seq!['>', '=']) {
        seq!['>', '=', ' '] + new_version
    } else if strutil::spec_starts_with(old, seq!['>']) {
        seq!['>', ' '] + new_version
    } else {
        new_version
    }
}

/// The lines joined back with newlines.
pub open spec fn spec_join_nl(parts: Seq<Seq<char>>) -> Seq<char>
    decreases parts.len(),
{
    if parts.len() == 0 {
        Seq::empty()
    } else if parts.len() == 1 {
        parts[0]
    } else {
        spec_join_nl(parts.drop_last()) + seq!['\n'] + parts.last()
    }
}

/// Join lines with newlines.
fn join_nl(parts: &Vec<String>) -> (r: String)
    ensures
        r@ == spec_join_nl(parts.deep_view()),
{
    let ghost dv = parts.deep_view();
    let mut out = String::new();
    let mut i: usize = 0;
    proof {
        assert(dv.take(0) =~= Seq::<Seq<char>>::empty());
        assert(out@ =~= spec_join_nl(dv.take(0)));
    }
    while i < parts.len()
        invariant
            i <= parts.len(),
            dv == parts.deep_view(),
            dv.len() == parts.len(),
            out@ == spec_join_nl(dv.take(i as int)),
        decreases parts.len() - i,
    {
        if i > 0 {
            out.append("\n");
        }
        out.append(parts[i].as_str());
        proof {
            reveal_strlit("\n");
            assert("\n"@ =~= seq!['\n']);
            assert(dv.take(i + 1).drop_last() =~= dv.take(i as int));
            assert(dv.take(i + 1).last() == dv[i as int]);
            assert(dv[i as int] == parts[i as int]@);
            if i == 0 {
                assert(dv.take(1) =~= seq![dv[0]]);
                assert(out@ =~= spec_join_nl(dv.take(1)));
            } else {
                assert(out@ =~= spec_join_nl(dv.take(i as int)) + seq!['\n'] + dv[i as int]);
            }
        }
        i = i + 1;
    }
    proof {
        assert(dv.take(parts.len() as int) =~= dv);
    }
    out
}

proof fn lemma_join_cons(a: Seq<char>, ps: Seq<Seq<char>>)
    ensures
        spec_join_nl(seq![a] + ps) == if ps.len() == 0 {
            a
        } else {
            a + seq!['\n'] + spec_join_nl(ps)
        },
    decreases ps.len(),
{
    let parts = seq![a] + ps;
    if ps.len() == 0 {
        assert(parts.len() == 1);
        assert(parts[0] == a);
    } else {
        assert(parts.drop_last() =~= seq![a] + ps.drop_last());
        assert(parts.last() == ps.last());
        lemma_join_cons(a, ps.drop_last());
        if ps.len() == 1 {
            assert(ps.drop_last() =~= Seq::<Seq<char>>::empty());
            assert(spec_join_nl(ps) == ps[0]);
            assert(spec_join_nl(parts) =~= a + seq!['\n'] + spec_join_nl(ps));
        } else {
            assert(spec_join_nl(parts) == (a + seq!['\n'] + spec_join_nl(ps.drop_last())) + seq![
                '\n',
            ] + ps.last());
            assert(spec_join_nl(ps) == spec_join_nl(ps.drop_last()) + seq!['\n'] + ps.last());
            assert(spec_join_nl(parts) =~= a + seq!['\n'] + spec_join_nl(ps));
        }
    }
}

/// Joining the newline-split lines reproduces the text.
proof fn lemma_join_split(s: Seq<char>)
    ensures
        spec_join_nl(strutil::spec_split_on(s, '\n')) == s,
    decreases s.len(),
{
    let parts = strutil::spec_split_on(s, '\n');
    if s.len() == 0 {
        assert(parts =~= seq![Seq::<char>::empty()]);
        assert(spec_join_nl(parts) =~= s);
    } else if s[0] == '\n' {
        let rest = strutil::spec_split_on(s.skip(1), '\n');
        strutil::lemma_split_on_len(s.skip(1), '\n');
        lemma_join_cons(Seq::empty(), rest);
        lemma_join_split(s.skip(1));
        assert(spec_join_nl(parts) =~= s) by {
            assert(spec_join_nl(parts) == Seq::<char>::empty() + seq!['\n'] + s.skip(1));
        }
    } else {
        let rest = strutil::spec_split_on(s.skip(1), '\n');
        strutil::lemma_split_on_len(s.skip(1), '\n');
        lemma_join_split(s.skip(1));
        if rest.len() == 1 {
            assert(parts =~= seq![seq![s[0]] + rest[0]]);
            assert(spec_join_nl(parts) == seq![s[0]] + rest[0]);
            assert(spec_join_nl(rest) == rest[0]);
            assert(spec_join_nl(parts) =~= s);
        } else {
            lemma_join_cons(seq![s[0]] + rest[0], rest.skip(1));
            assert(rest =~= seq![rest[0]] + rest.skip(1));
            lemma_join_cons(rest[0], rest.skip(1));
            assert(spec_join_nl(rest) == rest[0] + seq!['\n'] + spec_join_nl(rest.skip(1)));
            assert(spec_join_nl(parts) == (seq![s[0]] + rest[0]) + seq!['\n'] + spec_join_nl(
                rest.skip(1),
            ));
            assert(spec_join_nl(parts) =~= seq![s[0]] + spec_join_nl(rest));
            assert(seq![s[0]] + s.skip(1) =~= s);
        }
    }
}

/// The `version` keyword.
pub open spec fn kw_version() -> Seq<char> {
    seq!['v', 'e', 'r', 's', 'i', 'o', 'n']
}

/// Index of the first line in `[lo, hi)` carrying a `key = "..."`
/// assignment.
pub open spec fn spec_first_value_line(
    lines: Seq<Seq<char>>,
    lo: int,
    hi: int,
    key: Seq<char>,
) -> Option<int>
    decreases hi - lo,
{
    if lo < 0 || lo >= hi || lo >= lines.len() {
        None
    } else if spec_line_value(lines[lo], key) is Some {
        Some(lo)
    } else {
        spec_first_value_line(lines, lo + 1, hi, key)
    }
}

proof fn lemma_first_value_line_bounds(lines: Seq<Seq<char>>, lo: int, hi: int, key: Seq<char>)
    ensures
        match spec_first_value_line(lines, lo, hi, key) {
            Some(l) => lo <= l < hi && l < lines.len() && spec_line_value(lines[l], key) is Some,
            None => true,
        },
    decreases hi - lo,
{
    if 0 <= lo && lo < hi && lo < lines.len() && spec_line_value(lines[lo], key) is None {
        lemma_first_value_line_bounds(lines, lo + 1, hi, key);
    }
}

/// Index of the first line in `[lo, hi)` carrying a `key = "..."`
/// assignment.
fn first_value_line(lines: &Vec<String>, lo: usize, hi: usize, key: &str) -> (r: Option<usize>)
    requires
        key@.len() >= 1,
        hi <= lines.len(),
    ensures
        match r {
            Some(l) => spec_first_value_line(lines.deep_view(), lo as int, hi as int, key@)
                == Some(l as int) && lo <= l < hi,
            None => spec_first_value_line(lines.deep_view(), lo as int, hi as int, key@) is None,
        },
{
    if lo >= hi {
        return None;
    }
    let ghost ldv = lines.deep_view();
    let mut l: usize = lo;
    while l < hi
        invariant
            lo <= l,
            l <= hi <= lines.len(),
            ldv == lines.deep_view(),
            ldv.len() == lines.len(),
            key@.len() >= 1,
            spec_first_value_line(ldv, lo as int, hi as int, key@) == spec_first_value_line(
                ldv,
                l as int,
                hi as int,
                key@,
            ),
        decreases hi - l,
    {
        proof {
            assert(ldv[l as int] == lines[l as int]@);
        }
        match line_assign_value(lines[l].as_str(), key) {
            Some(_) => {
                return Some(l);
            },
            None => {
                l = l + 1;
            },
        }
    }
    None
}

/// The value bounds of the first `key = "..."` assignment on the line:
/// the opening quote position and the closing quote position.
fn line_assign_bounds(line: &str, key: &str) -> (r: Option<(usize, usize)>)
    requires
        key@.len() >= 1,
    ensures
        match r {
            Some(b) => first_assign(line@, key@, 0) is Some && {
                let p = first_assign(line@, key@, 0).unwrap();
                b.0 == ws_end(line@, ws_end(line@, p + key@.len()) + 1) && Some(b.1 as int)
                    == strutil::spec_find_char(line@, '"', b.0 + 1) && b.0 + 1 <= b.1 <= line@.len()
            },
            None => first_assign(line@, key@, 0) is None,
        },
{
    let llen = line.unicode_len();
    let mut from: usize = 0;
    loop
        invariant
            key@.len() >= 1,
            llen == line@.len(),
            forall|j: int| 0 <= j < from ==> !assign_ok_at(line@, key@, j),
        decreases line@.len() + 1 - from,
    {
        match strutil::find_sub_from(line, key, from) {
            None => {
                proof {
                    assert(forall|j: int| from <= j < line@.len() ==> !strutil::matches_at(
                        line@,
                        key@,
                        j,
                    ));
                    lemma_first_assign_none(line@, key@, 0);
                }
                return None;
            },
            Some(i) => {
                proof {
                    assert(forall|j: int| from <= j < i ==> !strutil::matches_at(line@, key@, j));
                }
                match assign_check(line, key, i) {
                    Some((v, ve)) => {
                        proof {
                            lemma_first_assign_some(line@, key@, 0, i as int);
                        }
                        return Some((v, ve));
                    },
                    None => {
                        from = i + 1;
                    },
                }
            },
        }
    }
}

/// The first module block at or after line `l` whose `source` value is
/// `source` and which carries a `version` assignment.
pub open spec fn spec_find_target(lines: Seq<Seq<char>>, l: int, source: Seq<char>) -> Option<
    (int, int),
>
    decreases lines.len() - l,
    via spec_find_target_dec
{
    match spec_first_header(lines, l) {
        None => None,
        Some(h) => match spec_first_close(lines, h + 1) {
            None => None,
            Some(m) => {
                if spec_block_value(lines, h + 1, m, seq!['s', 'o', 'u', 'r', 'c', 'e']) == Some(
                    source,
                ) && spec_first_value_line(lines, h + 1, m, kw_version()) is Some {
                    Some((h, m))
                } else {
                    spec_find_target(lines, m + 1, source)
                }
            },
        },
    }
}

#[via_fn]
proof fn spec_find_target_dec(lines: Seq<Seq<char>>, l: int, source: Seq<char>) {
    lemma_first_header_bounds(lines, l);
    match spec_first_header(lines, l) {
        None => {},
        Some(h) => {
            lemma_first_close_bounds(lines, h + 1);
        },
    }
}

/// The line rewritten so that its first `version = "..."` assignment
/// carries `newc` between the quotes.
pub open spec fn spec_rewrite_line(line: Seq<char>, newc: Seq<char>) -> Seq<char>
    recommends
        first_assign(line, kw_version(), 0) is Some,
{
    let p = first_assign(line, kw_version(), 0).unwrap();
    let vs = ws_end(line, ws_end(line, p + 7) + 1);
    let ve = strutil::spec_find_char(line, '"', vs + 1).unwrap();
    line.take(vs + 1) + newc + line.skip(ve)
}

/// The file's lines after applying the new constraint to the version
/// assignment of the first block matching `source`; unchanged when no
/// block matches.
pub open spec fn spec_updated_lines(
    lines: Seq<Seq<char>>,
    source: Seq<char>,
    newc: Seq<char>,
) -> Seq<Seq<char>> {
    match spec_find_target(lines, 0, source) {
        None => lines,
        Some((h, m)) => {
            let vl = spec_first_value_line(lines, h + 1, m, kw_version()).unwrap();
            lines.update(vl, spec_rewrite_line(lines[vl], newc))
        },
    }
}

/// The whole updated file text: split at newlines, rewrite the version
/// assignment of the first module block whose `source` matches, with
/// the constraint operator preserved around the new version, and join
/// back.
pub open spec fn spec_updated_content(
    content: Seq<char>,
    source: Seq<char>,
    old_constraint: Seq<char>,
    new_version: Seq<char>,
) -> Seq<char> {
    spec_join_nl(
        spec_updated_lines(
            strutil::spec_split_on(content, '\n'),
            source,
            spec_rewritten_constraint(old_constraint, new_version),
        ),
    )
}

/// Rewrite the version constraint of the module block whose `source`
/// equals `source`, preserving the constraint operator; text elsewhere
/// is kept, and a file with no matching block is returned unchanged.
pub fn update_terraform_module(
    content: &str,
    source: &str,
    old_constraint: &str,
    new_version: &str,
) -> (r: String)
    ensures
        r@ == spec_updated_content(content@, source@, old_constraint@, new_version@),
        spec_find_target(strutil::spec_split_on(content@, '\n'), 0, source@) is None ==> r@
            == content@,
{
    let newc = rewrite_constraint(old_constraint, new_version);
    let mut lines = strutil::split_on(content, '\n');
    let ghost ldv0 = lines.deep_view();
    proof {
        reveal_strlit("source");
        reveal_strlit("version");
        assert("source"@ =~= seq!['s', 'o', 'u', 'r', 'c', 'e']);
        assert("version"@ =~= kw_version());
    }
    let mut l: usize = 0;
    loop
        invariant
            l <= lines.len(),
            ldv0 == lines.deep_view(),
            ldv0 == strutil::spec_split_on(content@, '\n'),
            ldv0.len() == lines.len(),
            newc@ == spec_rewritten_constraint(old_constraint@, new_version@),
            spec_find_target(ldv0, 0, source@) == spec_find_target(ldv0, l as int, source@),
        decreases ldv0.len() + 1 - l,
    {
        proof {
            reveal_strlit("source");
            reveal_strlit("version");
            assert("source"@ =~= seq!['s', 'o', 'u', 'r', 'c', 'e']);
            assert("version"@ =~= kw_version());
        }
        let (h, _name) = match first_header(&lines, l) {
            Some(p) => p,
            None => {
                proof {
                    assert(spec_find_target(ldv0, l as int, source@) is None);
                    assert(spec_updated_lines(ldv0, source@, newc@) == ldv0);
                    lemma_join_split(content@);
                }
                return join_nl(&lines);
            },
        };
        proof {
            lemma_first_header_bounds(ldv0, l as int);
        }
        let m = match first_close(&lines, h + 1) {
            Some(m) => m,
            None => {
                proof {
                    assert(spec_find_target(ldv0, l as int, source@) is None);
                    assert(spec_updated_lines(ldv0, source@, newc@) == ldv0);
                    lemma_join_split(content@);
                }
                return join_nl(&lines);
            },
        };
        let src_match = match block_value(&lines, h + 1, m, "source") {
            Some(s) => crate::strutil::str_eq(s.as_str(), source),
            None => false,
        };
        let vline_opt: Option<usize> = if src_match {
            first_value_line(&lines, h + 1, m, "version")
        } else {
            None
        };
        match vline_opt {
            Some(vl) => {
                proof {
                    assert(spec_find_target(ldv0, l as int, source@) == Some((h as int, m as int)));
                    lemma_first_value_line_bounds(ldv0, h + 1, m as int, kw_version());
                    assert(ldv0[vl as int] == lines[vl as int]@);
                }
                let line = &lines[vl];
                let llen = line.as_str().unicode_len();
                match line_assign_bounds(line.as_str(), "version") {
                    Some((vs, ve)) => {
                        let prefix = line.as_str().substring_char(0, vs + 1);
                        let suffix = line.as_str().substring_char(ve, llen);
                        let mut newline = prefix.to_owned();
                        newline.append(newc.as_str());
                        newline.append(suffix);
                        proof {
                            assert(line@.subrange(0, vs + 1) =~= line@.take(vs + 1));
                            assert(line@.subrange(ve as int, llen as int) =~= line@.skip(
                                ve as int,
                            ));
                            assert(newline@ == spec_rewrite_line(ldv0[vl as int], newc@));
                        }
                        lines.set(vl, newline);
                        proof {
                            assert(lines.deep_view() =~= ldv0.update(
                                vl as int,
                                spec_rewrite_line(ldv0[vl as int], newc@),
                            ));
                            assert(lines.deep_view() == spec_updated_lines(ldv0, source@, newc@));
                        }
                        return join_nl(&lines);
                    },
                    None => {
                        proof {
                            assert(false);
                        }
                        return join_nl(&lines);
                    },
                }
            },
            None => {
                l = m + 1;
            },
        }
    }
}

/// Rebuild a constraint around the new version, preserving the
/// original operator.
pub fn rewrite_constraint(old_constraint: &str, new_version: &str) -> (r: String)
    ensures
        r@ == spec_rewritten_constraint(old_constraint@, new_version@),
{
    proof {
        reveal_strlit("~>");
        reveal_strlit(">=");
        reveal_strlit(">");
        reveal_strlit("~> ");
        reveal_strlit(">= ");
        reveal_strlit("> ");
        assert("~>"@ =~= seq!['~', '>']);
        assert(">="@ =~= seq!['>', '=']);
        assert(">"@ =~= seq!['>']);
        assert("~> "@ =~= seq!['~', '>', ' ']);
        assert(">= "@ =~= seq!['>', '=', ' ']);
        assert("> "@ =~= seq!['>', ' ']);
    }
    if strutil::str_starts_with(old_constraint, "~>") {
        strutil::concat2("~> ", new_version)
    } else if strutil::str_starts_with(old_constraint, ">=") {
        strutil::concat2(">= ", new_version)
    } else if strutil::str_starts_with(old_constraint, ">") {
        strutil::concat2("> ", new_version)
    } else {
        new_version.to_owned()
    }
}

} // verus!
