//! Dependency records and the resolution bookkeeping shared by the
//! scanners, the registry clients and the rewriter.

use vstd::prelude::*;

pub mod helm;
pub mod registry;
pub mod terraform;

use crate::strutil;

verus! {

/// Which ecosystem a declaration belongs to, with its resolution data:
/// a Terraform-style module carries its registry source and the
/// original constraint text, a Helm-style chart carries its repository.
pub enum DependencyType {
    TerraformModule { source: String, constraint: String },
    HelmChart { repository: String },
}

impl Clone for DependencyType {
    fn clone(&self) -> (r: DependencyType)
        ensures
            r == *self,
    {
        match self {
            DependencyType::TerraformModule { source, constraint } => {
                DependencyType::TerraformModule {
                    source: source.clone(),
                    constraint: constraint.clone(),
                }
            },
            DependencyType::HelmChart { repository } => {
                DependencyType::HelmChart { repository: repository.clone() }
            },
        }
    }
}

/// One discovered dependency declaration.  `latest_version` holds the
/// resolved version, or an error sentinel when resolution failed.
pub struct Dependency {
    pub name: String,
    pub current_version: String,
    pub latest_version: String,
    pub latest_app_version: Option<String>,
    pub file_path: String,
    pub line_number: usize,
    pub dep_type: DependencyType,
}

impl Clone for Dependency {
    fn clone(&self) -> (r: Dependency)
        ensures
            r.name == self.name,
            r.current_version == self.current_version,
            r.latest_version == self.latest_version,
            r.latest_app_version == self.latest_app_version,
            r.file_path == self.file_path,
            r.line_number == self.line_number,
            r.dep_type == self.dep_type,
    {
        Dependency {
            name: self.name.clone(),
            current_version: self.current_version.clone(),
            latest_version: self.latest_version.clone(),
            latest_app_version: match &self.latest_app_version {
                Some(v) => Some(v.clone()),
                None => None,
            },
            file_path: self.file_path.clone(),
            line_number: self.line_number.clone(),
            dep_type: self.dep_type.clone(),
        }
    }
}

/// View of the error sentinel prefix attached to a failed resolution.
pub open spec fn error_prefix() -> Seq<char> {
    seq!['E', 'R', 'R', 'O', 'R', ':']
}

/// Whether a resolved-version string is the error sentinel of a failed
/// resolution.
pub open spec fn spec_is_error(latest: Seq<char>) -> bool {
    strutil::spec_starts_with(latest, error_prefix())
}

/// Whether `latest_version` marks a failed resolution.
pub fn is_error_version(latest: &str) -> (r: bool)
    ensures
        r == spec_is_error(latest@),
{
    let r = strutil::str_starts_with(latest, "ERROR:");
    proof {
        reveal_strlit("ERROR:");
        assert("ERROR:"@ =~= error_prefix());
    }
    r
}

/// Attach the error sentinel to a failure message.
pub fn error_sentinel(msg: &str) -> (r: String)
    ensures
        r@ == error_prefix() + seq![' '] + msg@,
        spec_is_error(r@),
{
    let r = strutil::concat2("ERROR: ", msg);
    proof {
        reveal_strlit("ERROR: ");
        assert("ERROR: "@ =~= error_prefix() + seq![' ']);
        assert(r@.take(6) =~= error_prefix());
    }
    r
}

/// A record is updatable exactly when it resolved without error to a
/// version other than the one declared.
pub open spec fn spec_is_updatable(current: Seq<char>, latest: Seq<char>) -> bool {
    !spec_is_error(latest) && current != latest
}

impl Dependency {
    /// Whether this record's resolution failed.
    pub fn has_error(&self) -> (r: bool)
        ensures
            r == spec_is_error(self.latest_version@),
    {
        is_error_version(self.latest_version.as_str())
    }

    /// Whether an update is available: resolution succeeded and found a
    /// version different from the declared one.
    pub fn is_updatable(&self) -> (r: bool)
        ensures
            r == spec_is_updatable(self.current_version@, self.latest_version@),
    {
        if self.has_error() {
            return false;
        }
        !strutil::str_eq(self.current_version.as_str(), self.latest_version.as_str())
    }
}

/// The cache key of a record: `tf:` plus the module source, or `helm:`
/// plus repository and chart name.  Records with equal keys resolve to
/// the same registry lookup.
pub open spec fn spec_cache_key(d: Dependency) -> Seq<char> {
    match d.dep_type {
        DependencyType::TerraformModule { source, .. } => "tf:"@ + source@,
        DependencyType::HelmChart { repository } => "helm:"@ + repository@ + seq![':'] + d.name@,
    }
}

impl Dependency {
    /// The key under which this record's resolution is cached.
    pub fn cache_key(&self) -> (r: String)
        ensures
            r@ == spec_cache_key(*self),
    {
        proof {
            reveal_strlit(":");
            assert(":"@ =~= seq![':']);
        }
        match &self.dep_type {
            DependencyType::TerraformModule { source, .. } => {
                strutil::concat2("tf:", source.as_str())
            },
            DependencyType::HelmChart { repository } => {
                let mut out = "helm:".to_owned();
                out.append(repository.as_str());
                out.append(":");
                out.append(self.name.as_str());
                out
            },
        }
    }
}

/// The distinct elements of `keys`, each kept at its first occurrence,
/// in order.
pub open spec fn spec_dedup(keys: Seq<Seq<char>>) -> Seq<Seq<char>>
    decreases keys.len(),
{
    if keys.len() == 0 {
        Seq::empty()
    } else {
        let p = spec_dedup(keys.drop_last());
        if p.contains(keys.last()) {
            p
        } else {
            p.push(keys.last())
        }
    }
}

/// Deduplication keeps exactly the elements that occur, each once.
pub proof fn lemma_dedup_props(keys: Seq<Seq<char>>)
    ensures
        forall|i: int, j: int|
            0 <= i < j < spec_dedup(keys).len() ==> spec_dedup(keys)[i] != spec_dedup(keys)[j],
        forall|x: Seq<char>| #[trigger] spec_dedup(keys).contains(x) <==> keys.contains(x),
    decreases keys.len(),
{
    if keys.len() > 0 {
        lemma_dedup_props(keys.drop_last());
        let p = spec_dedup(keys.drop_last());
        assert forall|x: Seq<char>| #[trigger] spec_dedup(keys).contains(x) implies keys.contains(
            x,
        ) by {
            if p.contains(x) {
                assert(keys.drop_last().contains(x));
                let i = choose|i: int| 0 <= i < keys.drop_last().len() && keys.drop_last()[i] == x;
                assert(keys[i] == x);
            } else {
                assert(x == keys.last());
                assert(keys[keys.len() - 1] == x);
            }
        }
        assert forall|x: Seq<char>| keys.contains(x) implies #[trigger] spec_dedup(keys).contains(
            x,
        ) by {
            let i = choose|i: int| 0 <= i < keys.len() && keys[i] == x;
            if i < keys.len() - 1 {
                assert(keys.drop_last()[i] == x);
                assert(p.contains(x));
                if !p.contains(keys.last()) {
                    let j = choose|j: int| 0 <= j < p.len() && p[j] == x;
                    assert(p.push(keys.last())[j] == x);
                }
            } else {
                if p.contains(keys.last()) {
                } else {
                    assert(p.push(keys.last()).last() == x);
                }
            }
        }
    }
}

/// The view of each record's cache key, in record order.
pub open spec fn spec_keys_of(deps: Seq<Dependency>) -> Seq<Seq<char>> {
    deps.map_values(|d: Dependency| spec_cache_key(d))
}

/// The distinct cache keys of the records, in first-appearance order:
/// one registry lookup per entry resolves every record.
pub fn plan_resolution(deps: &Vec<Dependency>) -> (r: Vec<String>)
    ensures
        r.deep_view() == spec_dedup(spec_keys_of(deps@)),
{
    let ghost keys = spec_keys_of(deps@);
    let mut out: Vec<String> = Vec::new();
    let mut i: usize = 0;
    proof {
        assert(keys.take(0) =~= Seq::<Seq<char>>::empty());
        assert(out.deep_view() =~= spec_dedup(keys.take(0)));
    }
    while i < deps.len()
        invariant
            i <= deps.len(),
            keys == spec_keys_of(deps@),
            keys.len() == deps.len(),
            out.deep_view() == spec_dedup(keys.take(i as int)),
        decreases deps.len() - i,
    {
        let key = deps[i].cache_key();
        let mut seen = false;
        let mut j: usize = 0;
        while j < out.len()
            invariant
                j <= out.len(),
                seen == exists|k: int| 0 <= k < j && out.deep_view()[k] == key@,
            decreases out.len() - j,
        {
            if strutil::str_eq(out[j].as_str(), key.as_str()) {
                proof {
                    assert(out.deep_view()[j as int] == key@);
                }
                seen = true;
            }
            j = j + 1;
        }
        let ghost prev = out.deep_view();
        proof {
            assert(keys.take(i + 1).drop_last() =~= keys.take(i as int));
            assert(keys.take(i + 1).last() == keys[i as int]);
            assert(keys[i as int] == spec_cache_key(deps@[i as int]));
            assert(seen == prev.contains(key@)) by {
                if prev.contains(key@) {
                    let k = choose|k: int| 0 <= k < prev.len() && prev[k] == key@;
                    assert(out.deep_view()[k] == key@);
                }
            }
        }
        if !seen {
            out.push(key);
            proof {
                assert(out.deep_view() =~= prev.push(keys[i as int]));
            }
        }
        i = i + 1;
    }
    proof {
        assert(keys.take(deps.len() as int) =~= keys);
    }
    out
}

/// Index of the first occurrence of `key` in `keys`.
pub open spec fn spec_key_lookup(keys: Seq<Seq<char>>, key: Seq<char>) -> Option<int>
    decreases keys.len(),
{
    if keys.len() == 0 {
        None
    } else if keys[0] == key {
        Some(0)
    } else {
        match spec_key_lookup(keys.skip(1), key) {
            Some(i) => Some(i + 1),
            None => None,
        }
    }
}

proof fn lemma_key_lookup_bounds(keys: Seq<Seq<char>>, key: Seq<char>)
    ensures
        match spec_key_lookup(keys, key) {
            Some(i) => 0 <= i < keys.len() && keys[i] == key,
            None => !keys.contains(key),
        },
    decreases keys.len(),
{
    if keys.len() > 0 && keys[0] != key {
        lemma_key_lookup_bounds(keys.skip(1), key);
        if spec_key_lookup(keys.skip(1), key) is None {
            assert forall|i: int| 0 <= i < keys.len() implies keys[i] != key by {
                if i > 0 {
                    assert(keys.skip(1)[i - 1] == keys[i]);
                    assert(!keys.skip(1).contains(keys.skip(1)[i - 1]) ==> true);
                    if keys[i] == key {
                        assert(keys.skip(1).contains(key));
                    }
                }
            }
        }
    }
}

/// Find `key` among the planned keys.
fn key_lookup(keys: &Vec<String>, key: &str) -> (r: Option<usize>)
    ensures
        match r {
            Some(i) => spec_key_lookup(keys.deep_view(), key@) == Some(i as int) && i < keys.len(),
            None => spec_key_lookup(keys.deep_view(), key@) is None,
        },
{
    let ghost kdv = keys.deep_view();
    let mut i: usize = 0;
    proof {
        assert(kdv.skip(0) =~= kdv);
    }
    while i < keys.len()
        invariant
            i <= keys.len(),
            kdv == keys.deep_view(),
            kdv.len() == keys.len(),
            spec_key_lookup(kdv, key@) == (match spec_key_lookup(kdv.skip(i as int), key@) {
                Some(j) => Some(i + j),
                None => None::<int>,
            }),
        decreases keys.len() - i,
    {
        proof {
            assert(kdv.skip(i as int)[0] == kdv[i as int]);
            assert(kdv[i as int] == keys[i as int]@);
            assert(kdv.skip(i as int).skip(1) =~= kdv.skip(i + 1));
        }
        if strutil::str_eq(keys[i].as_str(), key) {
            return Some(i);
        }
        i = i + 1;
    }
    proof {
        assert(kdv.skip(keys.len() as int) =~= Seq::<Seq<char>>::empty());
    }
    None
}

/// The resolution a record receives from the planned keys and their
/// fetched values: the value at its key's index, or its own resolved
/// version when its key was not planned.
pub open spec fn spec_assigned(
    keys: Seq<Seq<char>>,
    values: Seq<Seq<char>>,
    d: Dependency,
) -> Seq<char> {
    match spec_key_lookup(keys, spec_cache_key(d)) {
        Some(k) => values[k],
        None => d.latest_version@,
    }
}

/// Records sharing a cache key share their resolution: one registry
/// lookup answers them all, in this run and in any run over the same
/// planned keys and fetched values.
pub proof fn lemma_shared_key_shares_result(
    keys: Seq<Seq<char>>,
    values: Seq<Seq<char>>,
    d1: Dependency,
    d2: Dependency,
)
    requires
        spec_cache_key(d1) == spec_cache_key(d2),
        keys.contains(spec_cache_key(d1)),
    ensures
        spec_assigned(keys, values, d1) == spec_assigned(keys, values, d2),
{
    lemma_key_lookup_bounds(keys, spec_cache_key(d1));
}

/// Give every record the resolution cached under its key: record `i`
/// receives `values[k]` where `k` is its key's index in `keys`.  A
/// record whose key was not planned is returned unchanged.
pub fn apply_resolution(deps: &Vec<Dependency>, keys: &Vec<String>, values: &Vec<String>) -> (r:
    Vec<Dependency>)
    requires
        keys.len() == values.len(),
    ensures
        r.len() == deps.len(),
        forall|i: int|
            0 <= i < deps.len() ==> {
                let d = #[trigger] r[i];
                d.name == deps[i].name && d.current_version == deps[i].current_version
                    && d.latest_app_version == deps[i].latest_app_version && d.file_path
                    == deps[i].file_path && d.line_number == deps[i].line_number && d.dep_type
                    == deps[i].dep_type && d.latest_version@ == spec_assigned(
                    keys.deep_view(),
                    values.deep_view(),
                    deps[i],
                )
            },
{
    let ghost kdv = keys.deep_view();
    let mut out: Vec<Dependency> = Vec::new();
    let mut i: usize = 0;
    while i < deps.len()
        invariant
            i <= deps.len(),
            keys.len() == values.len(),
            kdv == keys.deep_view(),
            out.len() == i,
            forall|n: int|
                0 <= n < i ==> {
                    let d = #[trigger] out[n];
                    d.name == deps[n].name && d.current_version == deps[n].current_version
                        && d.latest_app_version == deps[n].latest_app_version && d.file_path
                        == deps[n].file_path && d.line_number == deps[n].line_number && d.dep_type
                        == deps[n].dep_type && d.latest_version@ == (match spec_key_lookup(
                        kdv,
                        spec_cache_key(deps[n]),
                    ) {
                        Some(k) => values.deep_view()[k],
                        None => deps[n].latest_version@,
                    })
                },
        decreases deps.len() - i,
    {
        let key = deps[i].cache_key();
        let mut d = deps[i].clone();
        match key_lookup(keys, key.as_str()) {
            Some(k) => {
                proof {
                    lemma_key_lookup_bounds(kdv, key@);
                    assert(values.deep_view()[k as int] == values[k as int]@);
                }
                d.latest_version = values[k].clone();
            },
            None => {},
        }
        out.push(d);
        i = i + 1;
    }
    out
}

/// Resolution is a function of the raw tag list alone: two runs over
/// an unchanged registry answer select the same version.
pub proof fn lemma_resolution_idempotent(
    raws1: Seq<Seq<char>>,
    raws2: Seq<Seq<char>>,
    include_prereleases: bool,
)
    requires
        raws1 == raws2,
    ensures
        crate::version::spec_best(raws1, include_prereleases) == crate::version::spec_best(
            raws2,
            include_prereleases,
        ),
        match crate::version::spec_best(raws1, include_prereleases) {
            Some(w) => crate::version::spec_resolved(raws1, w) == crate::version::spec_resolved(
                raws2,
                w,
            ),
            None => true,
        },
{
}

/// Records whose resolution failed, in order.
pub open spec fn spec_errored(deps: Seq<Dependency>) -> Seq<Dependency>
    decreases deps.len(),
{
    if deps.len() == 0 {
        Seq::empty()
    } else {
        spec_errored(deps.drop_last()) + (if spec_is_error(deps.last().latest_version@) {
            seq![deps.last()]
        } else {
            Seq::empty()
        })
    }
}

/// Records resolved to their declared version, in order.
pub open spec fn spec_up_to_date(deps: Seq<Dependency>) -> Seq<Dependency>
    decreases deps.len(),
{
    if deps.len() == 0 {
        Seq::empty()
    } else {
        spec_up_to_date(deps.drop_last()) + (if !spec_is_error(deps.last().latest_version@)
            && deps.last().current_version@ == deps.last().latest_version@ {
            seq![deps.last()]
        } else {
            Seq::empty()
        })
    }
}

/// Records with an update available, in order.
pub open spec fn spec_updatable(deps: Seq<Dependency>) -> Seq<Dependency>
    decreases deps.len(),
{
    if deps.len() == 0 {
        Seq::empty()
    } else {
        spec_updatable(deps.drop_last()) + (if spec_is_updatable(
            deps.last().current_version@,
            deps.last().latest_version@,
        ) {
            seq![deps.last()]
        } else {
            Seq::empty()
        })
    }
}

/// Partition resolved records into erroring, up to date, and
/// updatable, keeping order within each class.
pub fn partition_dependencies(deps: &Vec<Dependency>) -> (r: (
    Vec<Dependency>,
    Vec<Dependency>,
    Vec<Dependency>,
))
    ensures
        r.0@ == spec_errored(deps@),
        r.1@ == spec_up_to_date(deps@),
        r.2@ == spec_updatable(deps@),
{
    let mut errored: Vec<Dependency> = Vec::new();
    let mut current: Vec<Dependency> = Vec::new();
    let mut updatable: Vec<Dependency> = Vec::new();
    let mut i: usize = 0;
    proof {
        assert(deps@.take(0) =~= Seq::<Dependency>::empty());
    }
    while i < deps.len()
        invariant
            i <= deps.len(),
            errored@ == spec_errored(deps@.take(i as int)),
            current@ == spec_up_to_date(deps@.take(i as int)),
            updatable@ == spec_updatable(deps@.take(i as int)),
        decreases deps.len() - i,
    {
        let ghost pe = errored@;
        let ghost pc = current@;
        let ghost pu = updatable@;
        let d = &deps[i];
        if d.has_error() {
            errored.push(d.clone());
        } else if !d.is_updatable() {
            current.push(d.clone());
        } else {
            updatable.push(d.clone());
        }
        proof {
            assert(deps@.take(i + 1).drop_last() =~= deps@.take(i as int));
            assert(deps@.take(i + 1).last() == deps@[i as int]);
            if spec_is_error(deps@[i as int].latest_version@) {
                assert(errored@ =~= pe + seq![deps@[i as int]]);
                assert(current@ =~= pc + Seq::<Dependency>::empty());
                assert(updatable@ =~= pu + Seq::<Dependency>::empty());
            } else if deps@[i as int].current_version@ == deps@[i as int].latest_version@ {
                assert(errored@ =~= pe + Seq::<Dependency>::empty());
                assert(current@ =~= pc + seq![deps@[i as int]]);
                assert(updatable@ =~= pu + Seq::<Dependency>::empty());
            } else {
                assert(errored@ =~= pe + Seq::<Dependency>::empty());
                assert(current@ =~= pc + Seq::<Dependency>::empty());
                assert(updatable@ =~= pu + seq![deps@[i as int]]);
            }
        }
        i = i + 1;
    }
    proof {
        assert(deps@.take(deps.len() as int) =~= deps@);
    }
    (errored, current, updatable)
}

/// Build the record of a scanned Terraform module with its resolved
/// latest version.
pub fn terraform_dependency(
    decl: &terraform::ModuleDecl,
    file_path: &str,
    latest_version: String,
) -> (r: Dependency)
    ensures
        r.name == decl.name,
        r.current_version == decl.current_version,
        r.latest_version == latest_version,
        r.latest_app_version is None,
        r.file_path@ == file_path@,
        r.line_number == decl.line_number,
        r.dep_type == (DependencyType::TerraformModule {
            source: decl.source,
            constraint: decl.constraint,
        }),
{
    Dependency {
        name: decl.name.clone(),
        current_version: decl.current_version.clone(),
        latest_version,
        latest_app_version: None,
        file_path: file_path.to_owned(),
        line_number: decl.line_number,
        dep_type: DependencyType::TerraformModule {
            source: decl.source.clone(),
            constraint: decl.constraint.clone(),
        },
    }
}

/// Build the record of a scanned chart dependency with its resolved
/// latest version and optional application version.
pub fn chart_dependency(
    decl: &helm::HelmDepDecl,
    file_path: &str,
    latest_version: String,
    latest_app_version: Option<String>,
) -> (r: Dependency)
    ensures
        r.name == decl.name,
        r.current_version == decl.version,
        r.latest_version == latest_version,
        r.latest_app_version == latest_app_version,
        r.file_path@ == file_path@,
        r.line_number == decl.line_number,
        r.dep_type == (DependencyType::HelmChart { repository: decl.repository }),
{
    Dependency {
        name: decl.name.clone(),
        current_version: decl.version.clone(),
        latest_version,
        latest_app_version,
        file_path: file_path.to_owned(),
        line_number: decl.line_number,
        dep_type: DependencyType::HelmChart { repository: decl.repository.clone() },
    }
}

/// Build the record of a local-file chart dependency: no registry is
/// queried, and the latest version always equals the declared one, so
/// the record is never updatable.
pub fn local_chart_dependency(decl: &helm::HelmDepDecl, file_path: &str) -> (r: Dependency)
    ensures
        r.name == decl.name,
        r.current_version == decl.version,
        r.latest_version == decl.version,
        r.latest_app_version is None,
        r.file_path@ == file_path@,
        r.line_number == decl.line_number,
        r.dep_type == (DependencyType::HelmChart { repository: decl.repository }),
        !spec_is_updatable(r.current_version@, r.latest_version@),
{
    let r = chart_dependency(decl, file_path, decl.version.clone(), None);
    r
}

/// Build the record of a chart dependency whose resolution failed,
/// carrying the error sentinel.
pub fn error_chart_dependency(decl: &helm::HelmDepDecl, file_path: &str, msg: &str) -> (r:
    Dependency)
    ensures
        r.name == decl.name,
        r.current_version == decl.version,
        r.latest_version@ == error_prefix() + seq![' '] + msg@,
        spec_is_error(r.latest_version@),
        r.latest_app_version is None,
        r.file_path@ == file_path@,
        r.line_number == decl.line_number,
        r.dep_type == (DependencyType::HelmChart { repository: decl.repository }),
{
    chart_dependency(decl, file_path, error_sentinel(msg), None)
}

} // verus!
