//! Registry clients' computation: endpoint construction and
//! response-body resolution for the module registry, HTTP chart
//! indexes and OCI tag lists.  Network transfer itself happens outside
//! the library; these functions take the fetched bodies as arguments.

use vstd::prelude::*;

use crate::strutil;
use crate::version;

verus! {

/// Why a resolution failed.  The surrounding binary renders these as
/// the messages attached to a record's error sentinel.
#[derive(Debug)]
pub enum RegistryError {
    /// The response body was not the expected JSON shape.
    BadBody,
    /// The chart index was not parseable YAML.
    BadIndexYaml,
    /// The chart index held no document.
    EmptyIndex,
    /// The chart does not occur in the repository's index.
    ChartNotFound,
    /// The chart's entry list had an unexpected shape.
    InvalidEntries,
    /// No tag survived parsing and the prerelease filter.
    NoValidVersions,
    /// The repository URL had no `oci://host/path` shape.
    InvalidOciUrl,
}

/// The module-registry endpoint for `namespace/name/provider`.
pub open spec fn spec_module_registry_url(
    ns: Seq<char>,
    name: Seq<char>,
    provider: Seq<char>,
) -> Seq<char> {
    "https://registry.terraform.io/v1/modules/"@ + ns + seq!['/'] + name + seq!['/'] + provider
}

/// Build the module-registry endpoint for a module's three segments.
pub fn module_registry_url(ns: &str, name: &str, provider: &str) -> (r: String)
    ensures
        r@ == spec_module_registry_url(ns@, name@, provider@),
{
    proof {
        reveal_strlit("/");
        assert("/"@ =~= seq!['/']);
    }
    let mut out = "https://registry.terraform.io/v1/modules/".to_owned();
    out.append(ns);
    out.append("/");
    out.append(name);
    out.append("/");
    out.append(provider);
    out
}

/// The index endpoint of a chart repository: the repository URL with
/// `index.yaml` appended unless already present.
pub open spec fn spec_index_url(repo: Seq<char>) -> Seq<char> {
    if strutil::spec_ends_with(repo, "/index.yaml"@) {
        repo
    } else if strutil::spec_ends_with(repo, seq!['/']) {
        repo + "index.yaml"@
    } else {
        repo + "/index.yaml"@
    }
}

/// Build the index endpoint of a chart repository.
pub fn index_url(repo: &str) -> (r: String)
    ensures
        r@ == spec_index_url(repo@),
{
    proof {
        reveal_strlit("/index.yaml");
        reveal_strlit("index.yaml");
        reveal_strlit("/");
        assert("/"@ =~= seq!['/']);
    }
    if strutil::str_ends_with(repo, "/index.yaml") {
        repo.to_owned()
    } else if strutil::str_ends_with(repo, "/") {
        strutil::concat2(repo, "index.yaml")
    } else {
        strutil::concat2(repo, "/index.yaml")
    }
}

/// What `serde_json` extracts from a module-registry response: the
/// `versions` list of strings, or nothing when the body is not JSON of
/// that shape.
pub uninterp spec fn versions_of_module_json(body: Seq<char>) -> Option<Seq<Seq<char>>>;

/// Relies on serde_json: parses the body and reads the `versions`
/// field as a list of strings.  The result depends on the body alone.
#[verifier::external_body]
fn parse_module_versions(body: &str) -> (r: Option<Vec<String>>)
    ensures
        match r {
            Some(v) => versions_of_module_json(body@) == Some(v.deep_view()),
            None => versions_of_module_json(body@) is None,
        },
{
    let value: serde_json::Value = serde_json::from_str(body).ok()?;
    let arr = value.get("versions")?.as_array()?;
    arr.iter().map(|x| x.as_str().map(str::to_string)).collect()
}

/// What `serde_json` extracts from an OCI tag-list response: the
/// `tags` list of strings, or nothing when the body is not JSON of
/// that shape.
pub uninterp spec fn tags_of_json(body: Seq<char>) -> Option<Seq<Seq<char>>>;

/// Relies on serde_json: parses the body and reads the `tags` field as
/// a list of strings.  The result depends on the body alone.
#[verifier::external_body]
fn parse_oci_tags(body: &str) -> (r: Option<Vec<String>>)
    ensures
        match r {
            Some(v) => tags_of_json(body@) == Some(v.deep_view()),
            None => tags_of_json(body@) is None,
        },
{
    let value: serde_json::Value = serde_json::from_str(body).ok()?;
    let arr = value.get("tags")?.as_array()?;
    arr.iter().map(|x| x.as_str().map(str::to_string)).collect()
}

/// What `serde_json` extracts from a token-endpoint response: the
/// `token` field, or failing that `access_token`, when the body is
/// JSON carrying either as a string.
pub uninterp spec fn token_of_json(body: Seq<char>) -> Option<Seq<char>>;

/// Relies on serde_json: parses the body and reads `token`, or
/// `access_token` when `token` is absent.  The result depends on the
/// body alone.
#[verifier::external_body]
pub fn parse_token_response(body: &str) -> (r: Option<String>)
    ensures
        match r {
            Some(t) => token_of_json(body@) == Some(t@),
            None => token_of_json(body@) is None,
        },
{
    let value: serde_json::Value = serde_json::from_str(body).ok()?;
    let token = value.get("token").and_then(|t| t.as_str());
    let token = token.or_else(|| value.get("access_token").and_then(|t| t.as_str()));
    token.map(str::to_string)
}

/// The outcome of resolving a module-registry response body: the
/// latest admitted version among the listed ones.
pub open spec fn spec_resolve_module(body: Seq<char>, include_prereleases: bool) -> Result<
    Seq<char>,
    RegistryError,
> {
    match versions_of_module_json(body) {
        None => Err(RegistryError::BadBody),
        Some(raws) => match version::spec_best(raws, include_prereleases) {
            Some(w) => Ok(version::spec_resolved(raws, w)),
            None => Err(RegistryError::NoValidVersions),
        },
    }
}

/// Resolve the latest version from a module-registry response body.
pub fn resolve_module_versions(body: &str, include_prereleases: bool) -> (r: Result<
    String,
    RegistryError,
>)
    ensures
        match (r, spec_resolve_module(body@, include_prereleases)) {
            (Ok(v), Ok(s)) => v@ == s,
            (Err(e), Err(f)) => e == f,
            _ => false,
        },
{
    match parse_module_versions(body) {
        None => Err(RegistryError::BadBody),
        Some(raws) => match version::resolve_latest(&raws, include_prereleases) {
            Some(out) => Ok(out),
            None => Err(RegistryError::NoValidVersions),
        },
    }
}

/// The outcome of resolving an OCI tag-list response body.
pub open spec fn spec_resolve_oci(body: Seq<char>, include_prereleases: bool) -> Result<
    Seq<char>,
    RegistryError,
> {
    match tags_of_json(body) {
        None => Err(RegistryError::BadBody),
        Some(raws) => match version::spec_best(raws, include_prereleases) {
            Some(w) => Ok(version::spec_resolved(raws, w)),
            None => Err(RegistryError::NoValidVersions),
        },
    }
}

/// Resolve the latest version from an OCI tag-list response body.
pub fn resolve_oci_tags(body: &str, include_prereleases: bool) -> (r: Result<
    String,
    RegistryError,
>)
    ensures
        match (r, spec_resolve_oci(body@, include_prereleases)) {
            (Ok(v), Ok(s)) => v@ == s,
            (Err(e), Err(f)) => e == f,
            _ => false,
        },
{
    match parse_oci_tags(body) {
        None => Err(RegistryError::BadBody),
        Some(raws) => match version::resolve_latest(&raws, include_prereleases) {
            Some(out) => Ok(out),
            None => Err(RegistryError::NoValidVersions),
        },
    }
}

/// What `yaml_rust2` extracts from a chart-repository index for one
/// chart: the `(version, appVersion)` string fields of each release
/// entry under `entries.<chart>`, or a failure describing how the
/// index fell short.  The numeric codes tell the failures apart:
/// 0 unparsable YAML, 1 empty document, 2 chart absent, 3 entry list
/// not a list.
pub uninterp spec fn index_entries_of(body: Seq<char>, chart: Seq<char>) -> Result<
    Seq<(Option<Seq<char>>, Option<Seq<char>>)>,
    u8,
>;

/// Relies on yaml_rust2::YamlLoader::load_from_str: navigates to
/// `entries.<chart>` and reads each entry's `version` and `appVersion`
/// strings.  The result depends on the body and chart name alone.
#[verifier::external_body]
fn parse_index_entries(body: &str, chart: &str) -> (r: Result<
    Vec<(Option<String>, Option<String>)>,
    u8,
>)
    ensures
        match (r, index_entries_of(body@, chart@)) {
            (Ok(v), Ok(s)) => v.deep_view() == s,
            (Err(a), Err(b)) => a == b,
            _ => false,
        },
{
    let docs = yaml_rust2::YamlLoader::load_from_str(body).map_err(|_| 0u8)?;
    let doc = docs.into_iter().next().ok_or(1u8)?;
    let entries = &doc["entries"][chart];
    if entries.is_badvalue() {
        return Err(2);
    }
    let list = entries.as_vec().ok_or(3u8)?;
    Ok(list.iter().map(|e| (
        e["version"].as_str().map(str::to_string),
        e["appVersion"].as_str().map(str::to_string),
    )).collect())
}

/// The registry error for an index failure code.
pub open spec fn spec_index_error(code: u8) -> RegistryError {
    if code == 0 {
        RegistryError::BadIndexYaml
    } else if code == 1 {
        RegistryError::EmptyIndex
    } else if code == 2 {
        RegistryError::ChartNotFound
    } else {
        RegistryError::InvalidEntries
    }
}

/// The raw version strings of the entries that carry one, in order.
pub open spec fn spec_entry_versions(entries: Seq<(Option<Seq<char>>, Option<Seq<char>>)>) -> Seq<
    Seq<char>,
>
    decreases entries.len(),
{
    if entries.len() == 0 {
        Seq::empty()
    } else {
        spec_entry_versions(entries.drop_last()) + (match entries.last().0 {
            Some(v) => seq![v],
            None => Seq::empty(),
        })
    }
}

/// The `appVersion` of the last entry whose version string is `key`.
pub open spec fn spec_entry_app_version(
    entries: Seq<(Option<Seq<char>>, Option<Seq<char>>)>,
    key: Seq<char>,
) -> Option<Option<Seq<char>>>
    decreases entries.len(),
{
    if entries.len() == 0 {
        None
    } else if entries.last().0 == Some(key) {
        Some(entries.last().1)
    } else {
        spec_entry_app_version(entries.drop_last(), key)
    }
}

/// The outcome of resolving a chart-repository index body for one
/// chart: the latest admitted version and, when the selected entry
/// carries one, its application version.
pub open spec fn spec_resolve_index(body: Seq<char>, chart: Seq<char>, include_prereleases: bool) -> Result<
    (Seq<char>, Option<Seq<char>>),
    RegistryError,
> {
    match index_entries_of(body, chart) {
        Err(code) => Err(spec_index_error(code)),
        Ok(entries) => {
            let raws = spec_entry_versions(entries);
            match version::spec_best(raws, include_prereleases) {
                None => Err(RegistryError::NoValidVersions),
                Some(w) => {
                    let out = version::spec_resolved(raws, w);
                    let ck = version::clean_of(raws[w]);
                    let av = match spec_entry_app_version(entries, out) {
                        Some(x) => x,
                        None => match spec_entry_app_version(entries, ck) {
                            Some(x) => x,
                            None => None,
                        },
                    };
                    Ok((out, av))
                },
            }
        },
    }
}

/// The version strings of the entries that carry one.
fn entry_versions(entries: &Vec<(Option<String>, Option<String>)>) -> (r: Vec<String>)
    ensures
        r.deep_view() == spec_entry_versions(entries.deep_view()),
{
    let ghost edv = entries.deep_view();
    let mut out: Vec<String> = Vec::new();
    let mut i: usize = 0;
    proof {
        assert(edv.take(0) =~= Seq::<(Option<Seq<char>>, Option<Seq<char>>)>::empty());
        assert(out.deep_view() =~= spec_entry_versions(edv.take(0)));
    }
    while i < entries.len()
        invariant
            i <= entries.len(),
            edv == entries.deep_view(),
            edv.len() == entries.len(),
            out.deep_view() == spec_entry_versions(edv.take(i as int)),
        decreases entries.len() - i,
    {
        let ghost prev = out.deep_view();
        match &entries[i].0 {
            Some(v) => {
                out.push(v.clone());
            },
            None => {},
        }
        proof {
            assert(edv.take(i + 1).drop_last() =~= edv.take(i as int));
            assert(edv.take(i + 1).last() == edv[i as int]);
            assert(edv[i as int] == entries[i as int].deep_view());
            match edv[i as int].0 {
                Some(v) => {
                    assert(out.deep_view() =~= prev + seq![v]);
                },
                None => {
                    assert(out.deep_view() =~= prev + Seq::<Seq<char>>::empty());
                },
            }
        }
        i = i + 1;
    }
    proof {
        assert(edv.take(entries.len() as int) =~= edv);
    }
    out
}

/// The `appVersion` of the last entry whose version string is `key`.
fn entry_app_version(entries: &Vec<(Option<String>, Option<String>)>, key: &str) -> (r: Option<
    Option<String>,
>)
    ensures
        match r {
            Some(av) => spec_entry_app_version(entries.deep_view(), key@) == Some(av.deep_view()),
            None => spec_entry_app_version(entries.deep_view(), key@) is None,
        },
{
    let ghost edv = entries.deep_view();
    let mut i: usize = entries.len();
    proof {
        assert(edv.take(entries.len() as int) =~= edv);
    }
    while i > 0
        invariant
            i <= entries.len(),
            edv == entries.deep_view(),
            edv.len() == entries.len(),
            spec_entry_app_version(edv, key@) == spec_entry_app_version(edv.take(i as int), key@),
        decreases i,
    {
        i = i - 1;
        proof {
            assert(edv.take(i + 1).drop_last() =~= edv.take(i as int));
            assert(edv.take(i + 1).last() == edv[i as int]);
            assert(edv[i as int] == entries[i as int].deep_view());
        }
        let hit = match &entries[i].0 {
            Some(v) => crate::strutil::str_eq(v.as_str(), key),
            None => false,
        };
        if hit {
            let av: Option<String> = match &entries[i].1 {
                Some(a) => Some(a.clone()),
                None => None,
            };
            proof {
                assert(av.deep_view() == edv[i as int].1);
            }
            return Some(av);
        }
    }
    proof {
        assert(edv.take(0) =~= Seq::<(Option<Seq<char>>, Option<Seq<char>>)>::empty());
    }
    None
}

/// Resolve the latest version and its application version from a
/// chart-repository index body.
pub fn resolve_index_body(body: &str, chart: &str, include_prereleases: bool) -> (r: Result<
    (String, Option<String>),
    RegistryError,
>)
    ensures
        match (r, spec_resolve_index(body@, chart@, include_prereleases)) {
            (Ok(v), Ok(s)) => v.0@ == s.0 && v.1.deep_view() == s.1,
            (Err(e), Err(f)) => e == f,
            _ => false,
        },
{
    let entries = match parse_index_entries(body, chart) {
        Err(code) => {
            if code == 0 {
                return Err(RegistryError::BadIndexYaml);
            } else if code == 1 {
                return Err(RegistryError::EmptyIndex);
            } else if code == 2 {
                return Err(RegistryError::ChartNotFound);
            } else {
                return Err(RegistryError::InvalidEntries);
            }
        },
        Ok(entries) => entries,
    };
    let raws = entry_versions(&entries);
    let ghost rdv = raws.deep_view();
    let w = match version::select_latest(&raws, include_prereleases) {
        Some(w) => w,
        None => {
            return Err(RegistryError::NoValidVersions);
        },
    };
    let raw = &raws[w];
    let cleaned: &str = if raw.as_str().unicode_len() > 0 && raw.as_str().get_char(0) == 'v' {
        raw.as_str().substring_char(1, raw.as_str().unicode_len())
    } else {
        raw.as_str()
    };
    proof {
        assert(rdv[w as int] == raws[w as int]@);
        assert(cleaned@ == version::clean_of(rdv[w as int]));
        assert(rdv[0] == raws[0]@);
    }
    let first = &raws[0];
    let out: String = if first.as_str().unicode_len() > 0 && first.as_str().get_char(0) == 'v' {
        let o = crate::strutil::concat2("v", cleaned);
        proof {
            reveal_strlit("v");
            assert("v"@ =~= seq!['v']);
            assert(o@ == version::spec_resolved(rdv, w as int));
        }
        o
    } else {
        let o = cleaned.to_owned();
        proof {
            assert(o@ == version::spec_resolved(rdv, w as int));
        }
        o
    };
    let av: Option<String> = match entry_app_version(&entries, out.as_str()) {
        Some(x) => x,
        None => match entry_app_version(&entries, cleaned) {
            Some(x) => x,
            None => None,
        },
    };
    Ok((out, av))
}

/// The registry host and repository path of an `oci://host/path` URL.
pub open spec fn spec_parse_oci_url(url: Seq<char>) -> Result<
    (Seq<char>, Seq<char>),
    RegistryError,
> {
    if !crate::strutil::spec_starts_with(url, "oci://"@) {
        Err(RegistryError::InvalidOciUrl)
    } else {
        let rest = url.skip(6);
        match crate::strutil::spec_find_char(rest, '/', 0) {
            None => Err(RegistryError::InvalidOciUrl),
            Some(i) => Ok((rest.take(i), rest.skip(i + 1))),
        }
    }
}

/// Split an `oci://host/path` repository URL into registry host and
/// repository path.
pub fn parse_oci_url(oci_url: &str) -> (r: Result<(String, String), RegistryError>)
    ensures
        match (r, spec_parse_oci_url(oci_url@)) {
            (Ok(v), Ok(s)) => v.0@ == s.0 && v.1@ == s.1,
            (Err(e), Err(f)) => e == f,
            _ => false,
        },
{
    proof {
        reveal_strlit("oci://");
    }
    if !crate::strutil::str_starts_with(oci_url, "oci://") {
        return Err(RegistryError::InvalidOciUrl);
    }
    let len = oci_url.unicode_len();
    let rest = oci_url.substring_char(6, len);
    proof {
        assert(rest@ =~= oci_url@.skip(6));
    }
    match crate::strutil::find_char_at(rest, '/', 0) {
        None => Err(RegistryError::InvalidOciUrl),
        Some(i) => {
            let rlen = rest.unicode_len();
            let host = rest.substring_char(0, i).to_owned();
            let path = rest.substring_char(i + 1, rlen).to_owned();
            proof {
                assert(host@ =~= rest@.take(i as int));
                assert(path@ =~= rest@.skip(i + 1));
            }
            Ok((host, path))
        },
    }
}

/// The repository path queried for a chart: a well-known container
/// registry always takes the chart name appended; `ghcr.io` takes it
/// only when the path does not already end with it; other hosts are
/// queried at the declared path.
pub open spec fn spec_full_repository(
    registry: Seq<char>,
    repository: Seq<char>,
    chart: Seq<char>,
) -> Seq<char> {
    if registry == "registry-1.docker.io"@ {
        repository + seq!['/'] + chart
    } else if registry == "ghcr.io"@ && !crate::strutil::spec_ends_with(
        repository,
        seq!['/'] + chart,
    ) {
        repository + seq!['/'] + chart
    } else {
        repository
    }
}

/// The repository path queried for a chart, after the per-host
/// completion heuristics.
pub fn full_repository(registry: &str, repository: &str, chart: &str) -> (r: String)
    ensures
        r@ == spec_full_repository(registry@, repository@, chart@),
{
    proof {
        reveal_strlit("registry-1.docker.io");
        reveal_strlit("ghcr.io");
        reveal_strlit("/");
        assert("/"@ =~= seq!['/']);
    }
    if crate::strutil::str_eq(registry, "registry-1.docker.io") {
        return crate::strutil::concat3(repository, "/", chart);
    }
    if crate::strutil::str_eq(registry, "ghcr.io") {
        let suffix = crate::strutil::concat2("/", chart);
        if !crate::strutil::str_ends_with(repository, suffix.as_str()) {
            return crate::strutil::concat3(repository, "/", chart);
        }
    }
    repository.to_owned()
}

/// The tag-list endpoint of an OCI repository.
pub open spec fn spec_tags_url(registry: Seq<char>, full_repo: Seq<char>) -> Seq<char> {
    "https://"@ + registry + "/v2/"@ + full_repo + "/tags/list"@
}

/// Build the tag-list endpoint of an OCI repository.
pub fn tags_url(registry: &str, full_repo: &str) -> (r: String)
    ensures
        r@ == spec_tags_url(registry@, full_repo@),
{
    let mut out = "https://".to_owned();
    out.append(registry);
    out.append("/v2/");
    out.append(full_repo);
    out.append("/tags/list");
    out
}

/// How a bearer token for an OCI registry is to be obtained, in the
/// order tried: a statically configured token, a configured shell
/// command whose output is the token, or anonymous negotiation.
pub enum TokenPlan {
    UseToken(String),
    RunCommand(String),
    Anonymous,
}

/// Decide how to obtain a token from a host's configured
/// authentication entry, when there is one.
pub fn oci_token_plan(token: &Option<String>, command: &Option<String>) -> (r: TokenPlan)
    ensures
        match token {
            Some(t) => r == TokenPlan::UseToken(*t),
            None => match command {
                Some(c) => r == TokenPlan::RunCommand(*c),
                None => r == TokenPlan::Anonymous,
            },
        },
{
    match token {
        Some(t) => TokenPlan::UseToken(t.clone()),
        None => match command {
            Some(c) => TokenPlan::RunCommand(c.clone()),
            None => TokenPlan::Anonymous,
        },
    }
}

/// The token endpoints tried for anonymous access, in order: the
/// dedicated issuer for the well-known container registry, else the
/// host's conventional `/token` and `/v2/token` endpoints.
pub open spec fn spec_token_urls(registry: Seq<char>, repository: Seq<char>) -> Seq<Seq<char>> {
    if registry == "registry-1.docker.io"@ {
        seq![
            "https://auth.docker.io/token?service=registry.docker.io&scope=repository:"@
                + repository + ":pull"@,
        ]
    } else {
        seq![
            "https://"@ + registry + "/token?scope=repository:"@ + repository + ":pull"@,
            "https://"@ + registry + "/v2/token?scope=repository:"@ + repository + ":pull"@,
        ]
    }
}

/// Build the anonymous token endpoints tried for a repository.
pub fn anonymous_token_urls(registry: &str, repository: &str) -> (r: Vec<String>)
    ensures
        r.deep_view() == spec_token_urls(registry@, repository@),
{
    proof {
        reveal_strlit("registry-1.docker.io");
    }
    let mut out: Vec<String> = Vec::new();
    if crate::strutil::str_eq(registry, "registry-1.docker.io") {
        let mut u = "https://auth.docker.io/token?service=registry.docker.io&scope=repository:"
            .to_owned();
        u.append(repository);
        u.append(":pull");
        out.push(u);
        proof {
            assert(out.deep_view() =~= spec_token_urls(registry@, repository@));
        }
    } else {
        let mut u1 = "https://".to_owned();
        u1.append(registry);
        u1.append("/token?scope=repository:");
        u1.append(repository);
        u1.append(":pull");
        let mut u2 = "https://".to_owned();
        u2.append(registry);
        u2.append("/v2/token?scope=repository:");
        u2.append(repository);
        u2.append(":pull");
        out.push(u1);
        out.push(u2);
        proof {
            assert(out.deep_view() =~= spec_token_urls(registry@, repository@));
        }
    }
    out
}

} // verus!
