//! Helm-side scanning and rewriting decisions: reading a chart
//! manifest's dependency list, classifying each repository, and
//! deciding which fields of the manifest an approved update touches.

use vstd::prelude::*;

use crate::strutil;

verus! {

/// Why a chart manifest could not be scanned.
#[derive(Debug)]
pub enum ScanError {
    /// The manifest was not parseable YAML.
    UnparsableChart,
    /// The manifest held no document.
    EmptyChart,
    /// A dependency entry lacks `name`.
    MissingName,
    /// A dependency entry lacks `version`.
    MissingVersion,
    /// A dependency entry lacks `repository`.
    MissingRepository,
}

/// Where a chart dependency's repository points: a local file tree, an
/// OCI registry, or an HTTP chart repository.
pub enum RepoKind {
    Local,
    Oci,
    Http,
}

impl Clone for RepoKind {
    fn clone(&self) -> (r: RepoKind)
        ensures
            r == *self,
    {
        match self {
            RepoKind::Local => RepoKind::Local,
            RepoKind::Oci => RepoKind::Oci,
            RepoKind::Http => RepoKind::Http,
        }
    }
}

/// The repository classification: `file://` is local and needs no
/// network call, `oci://` routes to the OCI client, anything else to
/// the HTTP chart-index client.
pub open spec fn spec_repo_kind(repo: Seq<char>) -> RepoKind {
    if strutil::spec_starts_with(repo, "file://"@) {
        RepoKind::Local
    } else if strutil::spec_starts_with(repo, "oci://"@) {
        RepoKind::Oci
    } else {
        RepoKind::Http
    }
}

/// Classify a dependency's repository URL.
pub fn classify_repository(repo: &str) -> (r: RepoKind)
    ensures
        r == spec_repo_kind(repo@),
{
    proof {
        reveal_strlit("file://");
        reveal_strlit("oci://");
    }
    if strutil::str_starts_with(repo, "file://") {
        RepoKind::Local
    } else if strutil::str_starts_with(repo, "oci://") {
        RepoKind::Oci
    } else {
        RepoKind::Http
    }
}

/// What `yaml_rust2` extracts from a chart manifest: `None` when the
/// text is not parseable YAML; `Some(None)` when it holds no document;
/// otherwise the `(name, version, repository)` string fields of each
/// entry of the `dependencies` list (an absent or non-list
/// `dependencies` key yields the empty list).
pub uninterp spec fn chart_deps_of(content: Seq<char>) -> Option<
    Option<Seq<(Option<Seq<char>>, Option<Seq<char>>, Option<Seq<char>>)>>,
>;

/// Relies on yaml_rust2::YamlLoader::load_from_str: reads the
/// `dependencies` list and each entry's `name`, `version` and
/// `repository` strings.  The result depends on the text alone.
#[verifier::external_body]
fn parse_chart_dependencies(content: &str) -> (r: Option<
    Option<Vec<(Option<String>, Option<String>, Option<String>)>>,
>)
    ensures
        match r {
            Some(Some(v)) => chart_deps_of(content@) == Some(Some(v.deep_view())),
            Some(None) => chart_deps_of(content@) == Some(
                None::<Seq<(Option<Seq<char>>, Option<Seq<char>>, Option<Seq<char>>)>>,
            ),
            None => chart_deps_of(content@) is None,
        },
{
    let docs = yaml_rust2::YamlLoader::load_from_str(content).ok()?;
    let doc = match docs.into_iter().next() { Some(d) => d, None => return Some(None) };
    let list = match doc["dependencies"].as_vec() { Some(l) => l, None => return Some(Some(Vec::new())) };
    Some(Some(list.iter().map(|d| (
        d["name"].as_str().map(str::to_string),
        d["version"].as_str().map(str::to_string),
        d["repository"].as_str().map(str::to_string),
    )).collect()))
}

/// Ghost view of one scanned chart dependency.
#[verifier::ext_equal]
pub struct HelmDepView {
    pub name: Seq<char>,
    pub version: Seq<char>,
    pub repository: Seq<char>,
    pub line_number: int,
}

/// One dependency declared in a chart manifest.
pub struct HelmDepDecl {
    pub name: String,
    pub version: String,
    pub repository: String,
    pub line_number: usize,
}

impl View for HelmDepDecl {
    type V = HelmDepView;

    open spec fn view(&self) -> HelmDepView {
        HelmDepView {
            name: self.name@,
            version: self.version@,
            repository: self.repository@,
            line_number: self.line_number as int,
        }
    }
}

impl DeepView for HelmDepDecl {
    type V = HelmDepView;

    open spec fn deep_view(&self) -> HelmDepView {
        self@
    }
}

/// The text `name: <name>` used to locate a dependency's line.
pub open spec fn spec_name_needle(name: Seq<char>) -> Seq<char> {
    seq!['n', 'a', 'm', 'e', ':', ' '] + name
}

/// Index of the first line containing `needle`, if any.
pub open spec fn spec_first_line_with(lines: Seq<Seq<char>>, needle: Seq<char>, l: int) -> Option<
    int,
>
    decreases lines.len() - l,
{
    if l < 0 || l >= lines.len() {
        None
    } else if strutil::spec_find_sub(lines[l], needle, 0) is Some {
        Some(l)
    } else {
        spec_first_line_with(lines, needle, l + 1)
    }
}

/// The 1-based line number reported for a dependency: the first line
/// containing `name: <name>`, or 1 when none matches.
pub open spec fn spec_dep_line(lines: Seq<Seq<char>>, name: Seq<char>) -> int {
    match spec_first_line_with(lines, spec_name_needle(name), 0) {
        Some(l) => l + 1,
        None => 1,
    }
}

/// The 1-based line number of the dependency entry named `name`.
fn dep_line_number(lines: &Vec<String>, name: &str) -> (r: usize)
    ensures
        r == spec_dep_line(lines.deep_view(), name@),
{
    let ghost ldv = lines.deep_view();
    let needle = strutil::concat2("name: ", name);
    proof {
        reveal_strlit("name: ");
        assert("name: "@ =~= seq!['n', 'a', 'm', 'e', ':', ' ']);
        assert(needle@ =~= spec_name_needle(name@));
    }
    let mut i: usize = 0;
    while i < lines.len()
        invariant
            i <= lines.len(),
            ldv == lines.deep_view(),
            ldv.len() == lines.len(),
            needle@ == spec_name_needle(name@),
            needle@.len() >= 1,
            spec_first_line_with(ldv, needle@, 0) == spec_first_line_with(ldv, needle@, i as int),
        decreases lines.len() - i,
    {
        proof {
            assert(ldv[i as int] == lines[i as int]@);
        }
        match strutil::find_sub_at(lines[i].as_str(), needle.as_str(), 0) {
            Some(_) => {
                return i + 1;
            },
            None => {
                i = i + 1;
            },
        }
    }
    1
}

/// The scanned declarations of a dependency-field list: each entry
/// must carry `name`, `version` and `repository`; the first field
/// missing, in that order, fails the whole scan.
pub open spec fn spec_decls_of_entries(
    entries: Seq<(Option<Seq<char>>, Option<Seq<char>>, Option<Seq<char>>)>,
    lines: Seq<Seq<char>>,
) -> Result<Seq<HelmDepView>, ScanError>
    decreases entries.len(),
{
    if entries.len() == 0 {
        Ok(Seq::empty())
    } else {
        match entries[0] {
            (None, _, _) => Err(ScanError::MissingName),
            (Some(_), None, _) => Err(ScanError::MissingVersion),
            (Some(_), Some(_), None) => Err(ScanError::MissingRepository),
            (Some(name), Some(version), Some(repository)) => {
                let d = HelmDepView {
                    name,
                    version,
                    repository,
                    line_number: spec_dep_line(lines, name),
                };
                match spec_decls_of_entries(entries.skip(1), lines) {
                    Err(e) => Err(e),
                    Ok(rest) => Ok(seq![d] + rest),
                }
            },
        }
    }
}

/// The outcome of scanning a chart manifest for its dependency
/// declarations.
pub open spec fn spec_scan_chart(content: Seq<char>) -> Result<Seq<HelmDepView>, ScanError> {
    match chart_deps_of(content) {
        None => Err(ScanError::UnparsableChart),
        Some(None) => Err(ScanError::EmptyChart),
        Some(Some(entries)) => spec_decls_of_entries(
            entries,
            strutil::spec_split_on(content, '\n'),
        ),
    }
}

/// Scan a chart manifest's text for its dependency declarations, each
/// with a best-effort line number.
pub fn scan_chart_content(content: &str) -> (r: Result<Vec<HelmDepDecl>, ScanError>)
    ensures
        match (r, spec_scan_chart(content@)) {
            (Ok(v), Ok(s)) => v.deep_view() == s,
            (Err(e), Err(f)) => e == f,
            _ => false,
        },
{
    let entries = match parse_chart_dependencies(content) {
        None => {
            return Err(ScanError::UnparsableChart);
        },
        Some(None) => {
            return Err(ScanError::EmptyChart);
        },
        Some(Some(entries)) => entries,
    };
    let ghost edv = entries.deep_view();
    let lines = strutil::split_on(content, '\n');
    let ghost ldv = lines.deep_view();
    let mut out: Vec<HelmDepDecl> = Vec::new();
    let mut i: usize = 0;
    proof {
        assert(edv.skip(0) =~= edv);
    }
    while i < entries.len()
        invariant
            i <= entries.len(),
            edv == entries.deep_view(),
            edv.len() == entries.len(),
            ldv == lines.deep_view(),
            ldv == strutil::spec_split_on(content@, '\n'),
            chart_deps_of(content@) == Some(Some(edv)),
            match spec_decls_of_entries(edv.skip(i as int), ldv) {
                Ok(rest) => spec_decls_of_entries(edv, ldv) == Ok::<Seq<HelmDepView>, ScanError>(
                    out.deep_view() + rest,
                ),
                Err(e) => spec_decls_of_entries(edv, ldv) == Err::<Seq<HelmDepView>, ScanError>(e),
            },
        decreases entries.len() - i,
    {
        proof {
            assert(edv[i as int] == entries[i as int].deep_view());
        }
        let name = match &entries[i].0 {
            Some(n) => n.clone(),
            None => {
                return Err(ScanError::MissingName);
            },
        };
        let version = match &entries[i].1 {
            Some(v) => v.clone(),
            None => {
                return Err(ScanError::MissingVersion);
            },
        };
        let repository = match &entries[i].2 {
            Some(p) => p.clone(),
            None => {
                return Err(ScanError::MissingRepository);
            },
        };
        let line_number = dep_line_number(&lines, name.as_str());
        let d = HelmDepDecl { name, version, repository, line_number };
        let ghost prev = out.deep_view();
        out.push(d);
        proof {
            let rest_i = edv.skip(i as int);
            assert(rest_i[0] == edv[i as int]);
            assert(rest_i.skip(1) =~= edv.skip(i + 1));
            assert(out.deep_view() =~= prev + seq![d@]);
            match spec_decls_of_entries(edv.skip(i + 1), ldv) {
                Ok(rest) => {
                    assert(spec_decls_of_entries(rest_i, ldv) == Ok::<Seq<HelmDepView>, ScanError>(seq![d@] + rest));
                    assert(prev + (seq![d@] + rest) =~= out.deep_view() + rest);
                },
                Err(_) => {},
            }
        }
        i = i + 1;
    }
    proof {
        assert(edv.skip(entries.len() as int) =~= Seq::<
            (Option<Seq<char>>, Option<Seq<char>>, Option<Seq<char>>),
        >::empty());
        assert(out.deep_view() + Seq::<HelmDepView>::empty() =~= out.deep_view());
    }
    Ok(out)
}

/// The text with every leading `v` stripped, as the manifest-field
/// comparison strips it.
pub open spec fn spec_strip_v(s: Seq<char>) -> Seq<char>
    decreases s.len(),
{
    if s.len() > 0 && s[0] == 'v' {
        spec_strip_v(s.skip(1))
    } else {
        s
    }
}

/// Strip every leading `v`.
fn strip_v(s: &str) -> (r: &str)
    ensures
        r@ == spec_strip_v(s@),
{
    let slen = s.unicode_len();
    let mut i: usize = 0;
    proof {
        assert(s@.skip(0) =~= s@);
    }
    while i < slen
        invariant
            i <= slen,
            slen == s@.len(),
            spec_strip_v(s@) == spec_strip_v(s@.skip(i as int)),
        decreases slen - i,
    {
        let ghost rest = s@.skip(i as int);
        if s.get_char(i) != 'v' {
            proof {
                assert(spec_strip_v(rest) == rest);
            }
            return s.substring_char(i, slen);
        }
        proof {
            assert(rest.skip(1) =~= s@.skip(i + 1));
        }
        i = i + 1;
    }
    proof {
        assert(s@.skip(slen as int) =~= Seq::<char>::empty());
    }
    s.substring_char(slen, slen)
}

/// Whether a manifest field equals the old version, comparing with and
/// without leading `v` prefixes in both directions.
pub open spec fn spec_versions_match(field: Seq<char>, old: Seq<char>) -> bool {
    field == old || spec_strip_v(field) == old || field == spec_strip_v(old) || spec_strip_v(field)
        == spec_strip_v(old)
}

/// Whether a manifest field equals the old version, up to leading `v`
/// prefixes on either side.
pub fn versions_match(field: &str, old: &str) -> (r: bool)
    ensures
        r == spec_versions_match(field@, old@),
{
    let sf = strip_v(field);
    let so = strip_v(old);
    if strutil::str_eq(field, old) {
        return true;
    }
    if strutil::str_eq(sf, old) {
        return true;
    }
    if strutil::str_eq(field, so) {
        return true;
    }
    strutil::str_eq(sf, so)
}

/// Which parts of the chart manifest an approved dependency update
/// touches, besides the dependency entry itself.
pub struct ChartUpdatePlan {
    /// Update the parent chart's own `version` field to the new
    /// version.
    pub set_parent_version: bool,
    /// Update the parent chart's `appVersion` field to the newly
    /// resolved application version.
    pub set_parent_app_version: bool,
}

/// Decide which manifest fields an update from `old_version` touches:
/// the dependency entry always; the parent `version` field only when
/// it matched the old version up to `v` prefixes; the parent
/// `appVersion` field only when a new application version was resolved
/// and the field matched the old version the same way.
pub fn plan_chart_update(
    chart_version: &Option<String>,
    chart_app_version: &Option<String>,
    old_version: &str,
    has_new_app_version: bool,
) -> (r: ChartUpdatePlan)
    ensures
        r.set_parent_version == (match chart_version {
            Some(cv) => spec_versions_match(cv@, old_version@),
            None => false,
        }),
        r.set_parent_app_version == (has_new_app_version && match chart_app_version {
            Some(cav) => spec_versions_match(cav@, old_version@),
            None => false,
        }),
{
    let set_parent_version = match chart_version {
        Some(cv) => versions_match(cv.as_str(), old_version),
        None => false,
    };
    let set_parent_app_version = if has_new_app_version {
        match chart_app_version {
            Some(cav) => versions_match(cav.as_str(), old_version),
            None => false,
        }
    } else {
        false
    };
    ChartUpdatePlan { set_parent_version, set_parent_app_version }
}

} // verus!
