//! Semantic-version model and ordering.
//!
//! A raw tag string is parsed (through the `semver` crate) into numeric
//! major, minor and patch components plus a prerelease identifier list.
//! Precedence follows semantic-version rules: the numeric triple compares
//! lexicographically; a release outranks any prerelease of the same
//! triple; prerelease identifier lists compare element-wise, numeric
//! identifiers numerically and alphanumeric ones in ASCII order, with
//! numeric ones ranking below alphanumeric ones.

use vstd::prelude::*;

verus! {

/// Parsed semantic version: `major.minor.patch` plus the prerelease
/// identifiers (empty for a release).  Build metadata carries no
/// precedence and is not retained.
pub struct SemVersion {
    pub major: u64,
    pub minor: u64,
    pub patch: u64,
    pub pre: Vec<String>,
}

/// Ghost view of a parsed version.
#[verifier::ext_equal]
pub struct VersionView {
    pub major: u64,
    pub minor: u64,
    pub patch: u64,
    pub pre: Seq<Seq<char>>,
}

impl View for SemVersion {
    type V = VersionView;

    open spec fn view(&self) -> VersionView {
        VersionView {
            major: self.major,
            minor: self.minor,
            patch: self.patch,
            pre: self.pre.deep_view(),
        }
    }
}

/// What `semver::Version::parse` returns on the given characters:
/// the numeric triple and the undivided prerelease text (empty when
/// absent), or `None` when the text is not a semantic version.
pub uninterp spec fn sem_parse(s: Seq<char>) -> Option<(u64, u64, u64, Seq<char>)>;

/// Relies on semver::Version::parse: accepts exactly
/// `major.minor.patch[-pre][+build]` with `u64` numeric components and
/// returns the three numbers and the prerelease text; build metadata is
/// dropped.  The result depends on the characters alone.
#[verifier::external_body]
fn semver_parse_raw(s: &str) -> (r: Option<(u64, u64, u64, String)>)
    ensures
        match r {
            Some(t) => sem_parse(s@) == Some((t.0, t.1, t.2, t.3@)),
            None => sem_parse(s@) is None,
        },
{
    match semver::Version::parse(s) {
        Ok(v) => Some((v.major, v.minor, v.patch, v.pre.as_str().to_string())),
        Err(_) => None,
    }
}

/// The prerelease identifier pieces of `s`, split at `.`.
pub open spec fn spec_split_dots(s: Seq<char>) -> Seq<Seq<char>> {
    crate::strutil::spec_split_on(s, '.')
}

/// A numeric identifier: nonempty and all decimal digits.
pub open spec fn is_num_ident(s: Seq<char>) -> bool {
    s.len() > 0 && forall|i: int| 0 <= i < s.len() ==> '0' <= s[i] && s[i] <= '9'
}

/// Strict lexicographic order on character sequences, by code point,
/// with a proper prefix ranking below its extensions.
pub open spec fn lex_lt(a: Seq<char>, b: Seq<char>) -> bool
    decreases a.len(),
{
    if b.len() == 0 {
        false
    } else if a.len() == 0 {
        true
    } else if a[0] != b[0] {
        a[0] < b[0]
    } else {
        lex_lt(a.skip(1), b.skip(1))
    }
}

/// Strict precedence on single prerelease identifiers: numeric ones
/// compare numerically (shorter digit strings first, then
/// lexicographically), numeric ranks below alphanumeric, and
/// alphanumeric ones compare in ASCII order.
pub open spec fn ident_lt(a: Seq<char>, b: Seq<char>) -> bool {
    if is_num_ident(a) && is_num_ident(b) {
        a.len() < b.len() || (a.len() == b.len() && lex_lt(a, b))
    } else if is_num_ident(a) {
        true
    } else if is_num_ident(b) {
        false
    } else {
        lex_lt(a, b)
    }
}

/// Strict precedence on prerelease identifier lists: element-wise by
/// `ident_lt`, a shorter list ranking below its extensions.
pub open spec fn pre_lt(a: Seq<Seq<char>>, b: Seq<Seq<char>>) -> bool
    decreases a.len(),
{
    if b.len() == 0 {
        false
    } else if a.len() == 0 {
        true
    } else if a[0] == b[0] {
        pre_lt(a.skip(1), b.skip(1))
    } else {
        ident_lt(a[0], b[0])
    }
}

/// Strict semantic-version precedence: major, then minor, then patch
/// numerically; a release outranks every prerelease of the same triple;
/// prereleases compare by their identifier lists.
pub open spec fn version_lt(a: VersionView, b: VersionView) -> bool {
    if a.major != b.major {
        a.major < b.major
    } else if a.minor != b.minor {
        a.minor < b.minor
    } else if a.patch != b.patch {
        a.patch < b.patch
    } else if a.pre.len() == 0 {
        false
    } else if b.pre.len() == 0 {
        true
    } else {
        pre_lt(a.pre, b.pre)
    }
}

/// With equal prefixes up to `i`, the lexicographic order is decided by
/// what follows.
proof fn lemma_lex_lt_skip(a: Seq<char>, b: Seq<char>, i: int)
    requires
        0 <= i <= a.len(),
        i <= b.len(),
        forall|j: int| 0 <= j < i ==> a[j] == b[j],
    ensures
        lex_lt(a, b) == lex_lt(a.skip(i), b.skip(i)),
    decreases i,
{
    if i > 0 {
        assert(a[0] == b[0]);
        assert(a.len() > 0 && b.len() > 0);
        assert(forall|j: int| 0 <= j < i - 1 ==> a.skip(1)[j] == b.skip(1)[j]);
        lemma_lex_lt_skip(a.skip(1), b.skip(1), i - 1);
        assert(a.skip(1).skip(i - 1) =~= a.skip(i));
        assert(b.skip(1).skip(i - 1) =~= b.skip(i));
    } else {
        assert(a.skip(0) =~= a);
        assert(b.skip(0) =~= b);
    }
}

/// Whether `a` precedes `b` lexicographically.
fn lex_lt_exec(a: &str, b: &str) -> (r: bool)
    ensures
        r == lex_lt(a@, b@),
{
    let alen = a.unicode_len();
    let blen = b.unicode_len();
    let min: usize = if alen < blen {
        alen
    } else {
        blen
    };
    let mut i: usize = 0;
    while i < min
        invariant
            i <= min,
            alen == a@.len(),
            blen == b@.len(),
            min == if alen < blen {
                alen
            } else {
                blen
            },
            forall|j: int| 0 <= j < i ==> a@[j] == b@[j],
        decreases min - i,
    {
        let ca = a.get_char(i);
        let cb = b.get_char(i);
        if ca != cb {
            proof {
                lemma_lex_lt_skip(a@, b@, i as int);
                assert(a@.skip(i as int)[0] == ca);
                assert(b@.skip(i as int)[0] == cb);
            }
            return ca < cb;
        }
        i = i + 1;
    }
    proof {
        lemma_lex_lt_skip(a@, b@, min as int);
        if alen <= blen {
            assert(a@.skip(min as int) =~= Seq::<char>::empty());
        } else {
            assert(b@.skip(min as int) =~= Seq::<char>::empty());
        }
    }
    alen < blen
}

/// Whether the identifier consists only of decimal digits (and is
/// nonempty).
fn is_num_ident_exec(s: &str) -> (r: bool)
    ensures
        r == is_num_ident(s@),
{
    let slen = s.unicode_len();
    if slen == 0 {
        return false;
    }
    let mut i: usize = 0;
    while i < slen
        invariant
            i <= slen,
            slen == s@.len(),
            forall|j: int| 0 <= j < i ==> '0' <= s@[j] && s@[j] <= '9',
        decreases slen - i,
    {
        let c = s.get_char(i);
        if c < '0' || c > '9' {
            return false;
        }
        i = i + 1;
    }
    true
}

/// Whether identifier `a` precedes identifier `b` in prerelease order.
fn ident_lt_exec(a: &str, b: &str) -> (r: bool)
    ensures
        r == ident_lt(a@, b@),
{
    let na = is_num_ident_exec(a);
    let nb = is_num_ident_exec(b);
    if na && nb {
        let alen = a.unicode_len();
        let blen = b.unicode_len();
        if alen < blen {
            true
        } else if alen == blen {
            lex_lt_exec(a, b)
        } else {
            false
        }
    } else if na {
        true
    } else if nb {
        false
    } else {
        lex_lt_exec(a, b)
    }
}

/// With equal leading identifiers up to `i`, prerelease order is
/// decided by what follows.
proof fn lemma_pre_lt_skip(a: Seq<Seq<char>>, b: Seq<Seq<char>>, i: int)
    requires
        0 <= i <= a.len(),
        i <= b.len(),
        forall|j: int| 0 <= j < i ==> a[j] == b[j],
    ensures
        pre_lt(a, b) == pre_lt(a.skip(i), b.skip(i)),
    decreases i,
{
    if i > 0 {
        assert(a[0] == b[0]);
        assert(forall|j: int| 0 <= j < i - 1 ==> a.skip(1)[j] == b.skip(1)[j]);
        lemma_pre_lt_skip(a.skip(1), b.skip(1), i - 1);
        assert(a.skip(1).skip(i - 1) =~= a.skip(i));
        assert(b.skip(1).skip(i - 1) =~= b.skip(i));
    } else {
        assert(a.skip(0) =~= a);
        assert(b.skip(0) =~= b);
    }
}

/// Whether version `a` strictly precedes version `b` under
/// semantic-version precedence.
pub fn version_lt_exec(a: &SemVersion, b: &SemVersion) -> (r: bool)
    ensures
        r == version_lt(a@, b@),
{
    if a.major != b.major {
        return a.major < b.major;
    }
    if a.minor != b.minor {
        return a.minor < b.minor;
    }
    if a.patch != b.patch {
        return a.patch < b.patch;
    }
    let alen = a.pre.len();
    let blen = b.pre.len();
    if alen == 0 {
        return false;
    }
    if blen == 0 {
        return true;
    }
    let min: usize = if alen < blen {
        alen
    } else {
        blen
    };
    let mut i: usize = 0;
    while i < min
        invariant
            i <= min,
            a.major == b.major,
            a.minor == b.minor,
            a.patch == b.patch,
            alen == a.pre.len(),
            blen == b.pre.len(),
            alen > 0,
            blen > 0,
            min == if alen < blen {
                alen
            } else {
                blen
            },
            forall|j: int| 0 <= j < i ==> a@.pre[j] == b@.pre[j],
        decreases min - i,
    {
        if !crate::strutil::str_eq(a.pre[i].as_str(), b.pre[i].as_str()) {
            let r = ident_lt_exec(a.pre[i].as_str(), b.pre[i].as_str());
            proof {
                assert(a@.pre.len() == a.pre.len());
                assert(b@.pre.len() == b.pre.len());
                lemma_pre_lt_skip(a@.pre, b@.pre, i as int);
                assert(a@.pre[i as int] == a.pre[i as int]@);
                assert(b@.pre[i as int] == b.pre[i as int]@);
                assert(a@.pre.skip(i as int)[0] == a@.pre[i as int]);
                assert(b@.pre.skip(i as int)[0] == b@.pre[i as int]);
            }
            return r;
        }
        i = i + 1;
    }
    proof {
        assert(a@.pre.len() == a.pre.len());
        assert(b@.pre.len() == b.pre.len());
        lemma_pre_lt_skip(a@.pre, b@.pre, min as int);
        if alen <= blen {
            assert(a@.pre.skip(min as int) =~= Seq::<Seq<char>>::empty());
        } else {
            assert(b@.pre.skip(min as int) =~= Seq::<Seq<char>>::empty());
        }
    }
    alen < blen
}

proof fn lemma_lex_lt_irrefl(a: Seq<char>)
    ensures
        !lex_lt(a, a),
    decreases a.len(),
{
    if a.len() > 0 {
        lemma_lex_lt_irrefl(a.skip(1));
    }
}

proof fn lemma_lex_lt_asym(a: Seq<char>, b: Seq<char>)
    requires
        lex_lt(a, b),
    ensures
        !lex_lt(b, a),
    decreases a.len(),
{
    if a.len() > 0 && b.len() > 0 && a[0] == b[0] {
        lemma_lex_lt_asym(a.skip(1), b.skip(1));
    }
}

proof fn lemma_lex_lt_trans(a: Seq<char>, b: Seq<char>, c: Seq<char>)
    requires
        lex_lt(a, b),
        lex_lt(b, c),
    ensures
        lex_lt(a, c),
    decreases a.len(),
{
    if a.len() > 0 && b.len() > 0 && c.len() > 0 && a[0] == b[0] && b[0] == c[0] {
        lemma_lex_lt_trans(a.skip(1), b.skip(1), c.skip(1));
    }
}

proof fn lemma_lex_lt_connex(a: Seq<char>, b: Seq<char>)
    requires
        a != b,
    ensures
        lex_lt(a, b) || lex_lt(b, a),
    decreases a.len(),
{
    if a.len() > 0 && b.len() > 0 && a[0] == b[0] {
        assert(a.skip(1) != b.skip(1)) by {
            assert(a =~= seq![a[0]] + a.skip(1));
            assert(b =~= seq![b[0]] + b.skip(1));
        }
        lemma_lex_lt_connex(a.skip(1), b.skip(1));
    } else if a.len() == 0 {
        assert(b.len() > 0) by {
            if b.len() == 0 {
                assert(a =~= b);
            }
        }
    }
}

proof fn lemma_ident_lt_irrefl(a: Seq<char>)
    ensures
        !ident_lt(a, a),
{
    lemma_lex_lt_irrefl(a);
}

proof fn lemma_ident_lt_asym(a: Seq<char>, b: Seq<char>)
    requires
        ident_lt(a, b),
    ensures
        !ident_lt(b, a),
{
    if is_num_ident(a) && is_num_ident(b) {
        if a.len() == b.len() && lex_lt(a, b) {
            lemma_lex_lt_asym(a, b);
        }
    } else if !is_num_ident(a) && !is_num_ident(b) {
        lemma_lex_lt_asym(a, b);
    }
}

proof fn lemma_ident_lt_trans(a: Seq<char>, b: Seq<char>, c: Seq<char>)
    requires
        ident_lt(a, b),
        ident_lt(b, c),
    ensures
        ident_lt(a, c),
{
    if is_num_ident(a) && is_num_ident(b) && is_num_ident(c) {
        if a.len() == b.len() && b.len() == c.len() {
            lemma_lex_lt_trans(a, b, c);
        }
    } else if !is_num_ident(a) && !is_num_ident(b) && !is_num_ident(c) {
        lemma_lex_lt_trans(a, b, c);
    }
}

proof fn lemma_ident_lt_connex(a: Seq<char>, b: Seq<char>)
    requires
        a != b,
    ensures
        ident_lt(a, b) || ident_lt(b, a),
{
    if is_num_ident(a) && is_num_ident(b) {
        if a.len() == b.len() {
            lemma_lex_lt_connex(a, b);
        }
    } else if !is_num_ident(a) && !is_num_ident(b) {
        lemma_lex_lt_connex(a, b);
    }
}

proof fn lemma_pre_lt_irrefl(a: Seq<Seq<char>>)
    ensures
        !pre_lt(a, a),
    decreases a.len(),
{
    if a.len() > 0 {
        lemma_pre_lt_irrefl(a.skip(1));
    }
}

proof fn lemma_pre_lt_asym(a: Seq<Seq<char>>, b: Seq<Seq<char>>)
    requires
        pre_lt(a, b),
    ensures
        !pre_lt(b, a),
    decreases a.len(),
{
    if a.len() > 0 && b.len() > 0 {
        if a[0] == b[0] {
            lemma_pre_lt_asym(a.skip(1), b.skip(1));
        } else {
            lemma_ident_lt_asym(a[0], b[0]);
        }
    }
}

proof fn lemma_pre_lt_trans(a: Seq<Seq<char>>, b: Seq<Seq<char>>, c: Seq<Seq<char>>)
    requires
        pre_lt(a, b),
        pre_lt(b, c),
    ensures
        pre_lt(a, c),
    decreases a.len(),
{
    if a.len() > 0 && b.len() > 0 && c.len() > 0 {
        if a[0] == b[0] && b[0] == c[0] {
            lemma_pre_lt_trans(a.skip(1), b.skip(1), c.skip(1));
        } else if a[0] == b[0] {
            // order decided between b and c
        } else if b[0] == c[0] {
            // order decided between a and b
        } else {
            lemma_ident_lt_trans(a[0], b[0], c[0]);
            if a[0] == c[0] {
                lemma_ident_lt_asym(a[0], b[0]);
                lemma_ident_lt_irrefl(a[0]);
            }
        }
    }
}

proof fn lemma_pre_lt_connex(a: Seq<Seq<char>>, b: Seq<Seq<char>>)
    requires
        a != b,
    ensures
        pre_lt(a, b) || pre_lt(b, a),
    decreases a.len(),
{
    if a.len() > 0 && b.len() > 0 {
        if a[0] == b[0] {
            assert(a.skip(1) != b.skip(1)) by {
                assert(a =~= seq![a[0]] + a.skip(1));
                assert(b =~= seq![b[0]] + b.skip(1));
            }
            lemma_pre_lt_connex(a.skip(1), b.skip(1));
        } else {
            lemma_ident_lt_connex(a[0], b[0]);
        }
    } else if a.len() == 0 {
        assert(b.len() > 0) by {
            if b.len() == 0 {
                assert(a =~= b);
            }
        }
    }
}

/// Semantic-version precedence is a strict total order on parsed
/// versions: it never relates a version to itself, never holds in both
/// directions, composes transitively, and relates every two distinct
/// versions one way or the other.
pub proof fn lemma_version_order_strict_total(a: VersionView, b: VersionView, c: VersionView)
    ensures
        !version_lt(a, a),
        version_lt(a, b) ==> !version_lt(b, a),
        version_lt(a, b) && version_lt(b, c) ==> version_lt(a, c),
        a != b ==> version_lt(a, b) || version_lt(b, a),
{
    lemma_pre_lt_irrefl(a.pre);
    if version_lt(a, b) && version_lt(b, c) {
        if a.major == c.major && a.minor == c.minor && a.patch == c.patch && a.pre.len() > 0
            && c.pre.len() > 0 && b.major == a.major && b.minor == a.minor && b.patch == a.patch
            && b.pre.len() > 0 {
            lemma_pre_lt_trans(a.pre, b.pre, c.pre);
        }
    }
    if version_lt(a, b) {
        if a.major == b.major && a.minor == b.minor && a.patch == b.patch && a.pre.len() > 0
            && b.pre.len() > 0 {
            lemma_pre_lt_asym(a.pre, b.pre);
        }
    }
    if a != b && a.major == b.major && a.minor == b.minor && a.patch == b.patch {
        if a.pre.len() == 0 && b.pre.len() == 0 {
            assert(a.pre =~= b.pre);
            assert(a =~= b);
        } else if a.pre.len() > 0 && b.pre.len() > 0 {
            assert(a.pre != b.pre) by {
                if a.pre == b.pre {
                    assert(a =~= b);
                }
            }
            lemma_pre_lt_connex(a.pre, b.pre);
        }
    }
}

/// The parsed model of the characters `s`: `None` when they are not a
/// semantic version, else the numeric triple and the prerelease
/// identifier list (empty for a release).
pub open spec fn parsed_version(s: Seq<char>) -> Option<VersionView> {
    match sem_parse(s) {
        Some(t) => Some(
            VersionView {
                major: t.0,
                minor: t.1,
                patch: t.2,
                pre: if t.3.len() == 0 {
                    Seq::empty()
                } else {
                    spec_split_dots(t.3)
                },
            },
        ),
        None => None,
    }
}

/// Parse one version string into the library's model.
pub fn parse_version(s: &str) -> (r: Option<SemVersion>)
    ensures
        match r {
            Some(v) => parsed_version(s@) == Some(v@),
            None => parsed_version(s@) is None,
        },
{
    match semver_parse_raw(s) {
        Some((major, minor, patch, pre)) => {
            let pre_ids: Vec<String> = if pre.as_str().unicode_len() == 0 {
                Vec::new()
            } else {
                crate::strutil::split_on(pre.as_str(), '.')
            };
            let v = SemVersion { major, minor, patch, pre: pre_ids };
            proof {
                if pre@.len() == 0 {
                    assert(v@.pre =~= Seq::<Seq<char>>::empty());
                }
                assert(parsed_version(s@) == Some(v@)) by {
                    assert(parsed_version(s@).unwrap() =~= v@);
                }
            }
            Some(v)
        },
        None => None,
    }
}

/// The tag with one optional leading `v` stripped.
pub open spec fn clean_of(s: Seq<char>) -> Seq<char> {
    if s.len() > 0 && s[0] == 'v' {
        s.skip(1)
    } else {
        s
    }
}

/// The parsed model of a raw tag, after stripping one optional `v`.
pub open spec fn candidate_of(s: Seq<char>) -> Option<VersionView> {
    parsed_version(clean_of(s))
}

/// Whether a raw tag takes part in the selection: it must parse, and a
/// prerelease is admitted only on request.
pub open spec fn admitted(s: Seq<char>, include_prereleases: bool) -> bool {
    match candidate_of(s) {
        Some(v) => include_prereleases || v.pre.len() == 0,
        None => false,
    }
}

/// Index of the selected tag: the first occurrence of the maximum,
/// scanning left to right and replacing the running best only on a
/// strictly greater candidate.  `None` when no tag is admitted.
pub open spec fn spec_best(raws: Seq<Seq<char>>, include_prereleases: bool) -> Option<int>
    decreases raws.len(),
{
    if raws.len() == 0 {
        None
    } else {
        let prev = spec_best(raws.drop_last(), include_prereleases);
        let k = raws.len() - 1;
        if !admitted(raws[k], include_prereleases) {
            prev
        } else {
            match prev {
                None => Some(k),
                Some(b) => if version_lt(
                    candidate_of(raws[b]).unwrap(),
                    candidate_of(raws[k]).unwrap(),
                ) {
                    Some(k)
                } else {
                    Some(b)
                },
            }
        }
    }
}

/// What the selection selects: nothing exactly when nothing is
/// admitted; otherwise an admitted tag that no admitted tag strictly
/// exceeds, and the first such tag in the list.
pub proof fn lemma_best_is_max(raws: Seq<Seq<char>>, include_prereleases: bool)
    ensures
        spec_best(raws, include_prereleases) is None <==> forall|i: int|
            0 <= i < raws.len() ==> !admitted(raws[i], include_prereleases),
        match spec_best(raws, include_prereleases) {
            Some(w) => 0 <= w < raws.len() && admitted(raws[w], include_prereleases) && (forall|
                i: int,
            |
                0 <= i < raws.len() && admitted(raws[i], include_prereleases) ==> !version_lt(
                    candidate_of(raws[w]).unwrap(),
                    candidate_of(raws[i]).unwrap(),
                )) && (forall|i: int|
                0 <= i < w && admitted(raws[i], include_prereleases) ==> version_lt(
                    candidate_of(raws[i]).unwrap(),
                    candidate_of(raws[w]).unwrap(),
                )),
            None => true,
        },
    decreases raws.len(),
{
    if raws.len() > 0 {
        let prev = spec_best(raws.drop_last(), include_prereleases);
        let k = raws.len() - 1;
        lemma_best_is_max(raws.drop_last(), include_prereleases);
        assert(forall|i: int| 0 <= i < k ==> raws.drop_last()[i] == raws[i]);
        if admitted(raws[k], include_prereleases) {
            match prev {
                None => {
                    let vk = candidate_of(raws[k]).unwrap();
                    lemma_version_order_strict_total(vk, vk, vk);
                },
                Some(b) => {
                    let vb = candidate_of(raws[b]).unwrap();
                    let vk = candidate_of(raws[k]).unwrap();
                    if version_lt(vb, vk) {
                        assert forall|i: int|
                            0 <= i < raws.len() && admitted(raws[i], include_prereleases)
                        implies !version_lt(vk, candidate_of(raws[i]).unwrap()) by {
                            if i < k {
                                let vi = candidate_of(raws[i]).unwrap();
                                lemma_version_order_strict_total(vb, vk, vi);
                            } else {
                                lemma_version_order_strict_total(vk, vk, vk);
                            }
                        }
                        assert forall|i: int|
                            0 <= i < k && admitted(raws[i], include_prereleases)
                        implies version_lt(candidate_of(raws[i]).unwrap(), vk) by {
                            let vi = candidate_of(raws[i]).unwrap();
                            if vi == vb {
                                assert(version_lt(vi, vk));
                            } else {
                                lemma_version_order_strict_total(vi, vb, vk);
                            }
                        }
                    } else {
                        lemma_version_order_strict_total(vb, vk, vb);
                    }
                },
            }
        }
    }
}

/// Index of the latest admitted tag in `raws`, or `None` when no tag
/// parses (after the optional-prerelease filter).
pub fn select_latest(raws: &Vec<String>, include_prereleases: bool) -> (r: Option<usize>)
    ensures
        match r {
            Some(i) => i < raws.len() && spec_best(raws.deep_view(), include_prereleases) == Some(
                i as int,
            ),
            None => spec_best(raws.deep_view(), include_prereleases) is None,
        },
{
    let ghost dv = raws.deep_view();
    let mut best_idx: Option<usize> = None;
    let mut best_ver: Option<SemVersion> = None;
    let mut k: usize = 0;
    proof {
        assert(dv.take(0) =~= Seq::<Seq<char>>::empty());
    }
    while k < raws.len()
        invariant
            k <= raws.len(),
            dv == raws.deep_view(),
            dv.len() == raws.len(),
            match best_idx {
                Some(b) => b < k && spec_best(dv.take(k as int), include_prereleases) == Some(
                    b as int,
                ) && best_ver is Some && candidate_of(dv[b as int]) == Some(
                    best_ver.unwrap()@,
                ),
                None => spec_best(dv.take(k as int), include_prereleases) is None && best_ver
                    is None,
            },
        decreases raws.len() - k,
    {
        let raw = &raws[k];
        let cleaned: &str = if raw.as_str().unicode_len() > 0 && raw.as_str().get_char(0) == 'v' {
            raw.as_str().substring_char(1, raw.as_str().unicode_len())
        } else {
            raw.as_str()
        };
        proof {
            assert(dv[k as int] == raws[k as int]@);
            assert(cleaned@ == clean_of(dv[k as int]));
        }
        let parsed = parse_version(cleaned);
        let admits: bool = match &parsed {
            Some(v) => include_prereleases || v.pre.len() == 0,
            None => false,
        };
        proof {
            if parsed is Some {
                assert(parsed.unwrap().pre.len() == parsed.unwrap()@.pre.len());
            }
            assert(admits == admitted(dv[k as int], include_prereleases));
        }
        if admits {
            let vk = parsed.unwrap();
            match &best_ver {
                Some(vb) => {
                    if version_lt_exec(vb, &vk) {
                        best_idx = Some(k);
                        best_ver = Some(vk);
                    }
                },
                None => {
                    best_idx = Some(k);
                    best_ver = Some(vk);
                },
            }
        }
        proof {
            assert(dv.take(k + 1).drop_last() =~= dv.take(k as int));
            assert(dv.take(k + 1).last() == dv[k as int]);
        }
        k = k + 1;
    }
    proof {
        assert(dv.take(raws.len() as int) =~= dv);
    }
    best_idx
}

/// The string handed back for a winning tag: the winner with one
/// optional `v` stripped, prefixed with `v` again exactly when the
/// first raw tag in the list carried that prefix.
pub open spec fn spec_resolved(raws: Seq<Seq<char>>, w: int) -> Seq<char> {
    if raws.len() > 0 && raws[0].len() > 0 && raws[0][0] == 'v' {
        seq!['v'] + clean_of(raws[w])
    } else {
        clean_of(raws[w])
    }
}

/// Resolve the latest version among raw tag strings: parse each after
/// stripping one optional `v`, drop prereleases unless requested, take
/// the maximum under semantic-version precedence, and restore the `v`
/// prefix when the first raw tag carried one.  `None` when no tag is
/// admitted.
pub fn resolve_latest(raws: &Vec<String>, include_prereleases: bool) -> (r: Option<String>)
    ensures
        match spec_best(raws.deep_view(), include_prereleases) {
            Some(w) => r is Some && r.unwrap()@ == spec_resolved(raws.deep_view(), w),
            None => r is None,
        },
{
    let ghost dv = raws.deep_view();
    match select_latest(raws, include_prereleases) {
        Some(w) => {
            let raw = &raws[w];
            let cleaned: &str = if raw.as_str().unicode_len() > 0 && raw.as_str().get_char(0)
                == 'v' {
                raw.as_str().substring_char(1, raw.as_str().unicode_len())
            } else {
                raw.as_str()
            };
            proof {
                assert(dv[w as int] == raws[w as int]@);
                assert(cleaned@ == clean_of(dv[w as int]));
                assert(dv[0] == raws[0]@);
            }
            let first = &raws[0];
            if first.as_str().unicode_len() > 0 && first.as_str().get_char(0) == 'v' {
                let out = crate::strutil::concat2("v", cleaned);
                proof {
                    reveal_strlit("v");
                    assert("v"@ =~= seq!['v']);
                }
                Some(out)
            } else {
                Some(cleaned.to_owned())
            }
        },
        None => None,
    }
}

} // verus!
