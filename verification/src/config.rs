//! Configuration consumed by the pipeline: technology priority,
//! recursion depth and per-registry authentication.

use vstd::prelude::*;

use crate::context::ContextConfig;
use crate::strutil;
use crate::techno::Technology;

verus! {

/// Authentication for one OCI registry host: a static token, or a
/// shell command whose output is the token.
pub struct OciRegistryAuth {
    pub token: Option<String>,
    pub command: Option<String>,
}

impl Clone for OciRegistryAuth {
    fn clone(&self) -> (r: OciRegistryAuth)
        ensures
            r.token == self.token,
            r.command == self.command,
    {
        OciRegistryAuth {
            token: match &self.token {
                Some(t) => Some(t.clone()),
                None => None,
            },
            command: match &self.command {
                Some(c) => Some(c.clone()),
                None => None,
            },
        }
    }
}

/// The default maximum directory depth of a recursive scan.
pub fn default_max_depth() -> (r: usize)
    ensures
        r == 5,
{
    5
}

/// Settings of the dependency-update scan.
pub struct BumpConfig {
    pub max_depth: usize,
    pub oci_registries: Vec<(String, OciRegistryAuth)>,
}

impl Default for BumpConfig {
    fn default() -> (r: BumpConfig)
        ensures
            r.max_depth == 5,
            r.oci_registries.len() == 0,
    {
        BumpConfig { max_depth: default_max_depth(), oci_registries: Vec::new() }
    }
}

/// The whole configuration file's contents.
pub struct Config {
    pub technology_priority: Vec<String>,
    pub bump: BumpConfig,
    pub context: ContextConfig,
}

impl Default for Config {
    fn default() -> (r: Config)
        ensures
            r.technology_priority.len() == 0,
            r.bump.max_depth == 5,
            r.bump.oci_registries.len() == 0,
            r.context.disable_context_check == false,
            r.context.mappings.len() == 0,
    {
        Config {
            technology_priority: Vec::new(),
            bump: BumpConfig::default(),
            context: ContextConfig::default(),
        }
    }
}

/// Whether `s` equals the (lower-case) keyword `kw` up to ASCII case.
pub open spec fn spec_eq_ignore_case(s: Seq<char>, kw: Seq<char>) -> bool {
    s.len() == kw.len() && forall|i: int|
        0 <= i < s.len() ==> s[i] == kw[i] || ('A' <= s[i] && s[i] <= 'Z' && (s[i] as u32) + 32
            == kw[i] as u32)
}

/// Compare against a lower-case keyword, ignoring ASCII case.
pub fn eq_ignore_case(s: &str, kw: &str) -> (r: bool)
    ensures
        r == spec_eq_ignore_case(s@, kw@),
{
    let slen = s.unicode_len();
    let klen = kw.unicode_len();
    if slen != klen {
        return false;
    }
    let mut i: usize = 0;
    while i < slen
        invariant
            i <= slen,
            slen == s@.len(),
            slen == kw@.len(),
            forall|j: int|
                0 <= j < i ==> s@[j] == kw@[j] || ('A' <= s@[j] && s@[j] <= 'Z' && (s@[j] as u32)
                    + 32 == kw@[j] as u32),
        decreases slen - i,
    {
        let c = s.get_char(i);
        let k = kw.get_char(i);
        let cu = c as u32;
        let ku = k as u32;
        if !(c == k || (65 <= cu && cu <= 90 && cu + 32 == ku)) {
            proof {
                assert(('A' as u32) == 65 && ('Z' as u32) == 90);
                assert(!('A' <= s@[i as int] && s@[i as int] <= 'Z' && (s@[i as int] as u32) + 32
                    == kw@[i as int] as u32));
            }
            return false;
        }
        i = i + 1;
    }
    true
}

/// The technology named by a priority entry, ignoring ASCII case.
pub open spec fn spec_tech_of_name(s: Seq<char>) -> Option<Technology> {
    if spec_eq_ignore_case(s, "terraform"@) {
        Some(Technology::Terraform)
    } else if spec_eq_ignore_case(s, "ansible"@) {
        Some(Technology::Ansible)
    } else if spec_eq_ignore_case(s, "helm"@) {
        Some(Technology::Helm)
    } else if spec_eq_ignore_case(s, "kustomize"@) {
        Some(Technology::Kustomize)
    } else {
        None
    }
}

/// The technologies named by the priority entries, in order, unknown
/// names dropped.
pub open spec fn spec_priorities_of(names: Seq<Seq<char>>) -> Seq<Technology>
    decreases names.len(),
{
    if names.len() == 0 {
        Seq::empty()
    } else {
        spec_priorities_of(names.drop_last()) + (match spec_tech_of_name(names.last()) {
            Some(t) => seq![t],
            None => Seq::empty(),
        })
    }
}

impl Config {
    /// The configured technology priority order: `None` when nothing
    /// is configured or no entry names a known technology, so that the
    /// caller falls back to interactive selection.
    pub fn get_technology_priority(&self) -> (r: Option<Vec<Technology>>)
        ensures
            match r {
                Some(v) => v@ == spec_priorities_of(self.technology_priority.deep_view()) && v@.len()
                    > 0 && self.technology_priority.len() > 0,
                None => self.technology_priority.len() == 0 || spec_priorities_of(
                    self.technology_priority.deep_view(),
                ).len() == 0,
            },
    {
        if self.technology_priority.len() == 0 {
            return None;
        }
        let ghost ndv = self.technology_priority.deep_view();
        let mut out: Vec<Technology> = Vec::new();
        let mut i: usize = 0;
        proof {
            assert(ndv.take(0) =~= Seq::<Seq<char>>::empty());
            assert(out@ =~= spec_priorities_of(ndv.take(0)));
        }
        while i < self.technology_priority.len()
            invariant
                i <= self.technology_priority.len(),
                ndv == self.technology_priority.deep_view(),
                ndv.len() == self.technology_priority.len(),
                out@ == spec_priorities_of(ndv.take(i as int)),
            decreases self.technology_priority.len() - i,
        {
            let ghost prev = out@;
            proof {
                reveal_strlit("terraform");
                reveal_strlit("ansible");
                reveal_strlit("helm");
                reveal_strlit("kustomize");
                assert(ndv[i as int] == self.technology_priority[i as int]@);
            }
            let name = self.technology_priority[i].as_str();
            if eq_ignore_case(name, "terraform") {
                out.push(Technology::Terraform);
            } else if eq_ignore_case(name, "ansible") {
                out.push(Technology::Ansible);
            } else if eq_ignore_case(name, "helm") {
                out.push(Technology::Helm);
            } else if eq_ignore_case(name, "kustomize") {
                out.push(Technology::Kustomize);
            }
            proof {
                assert(ndv.take(i + 1).drop_last() =~= ndv.take(i as int));
                assert(ndv.take(i + 1).last() == ndv[i as int]);
                match spec_tech_of_name(ndv[i as int]) {
                    Some(t) => {
                        assert(out@ =~= prev + seq![t]);
                    },
                    None => {
                        assert(out@ =~= prev + Seq::<Technology>::empty());
                    },
                }
            }
            i = i + 1;
        }
        proof {
            assert(ndv.take(self.technology_priority.len() as int) =~= ndv);
        }
        if out.len() == 0 {
            None
        } else {
            Some(out)
        }
    }
}

/// The first configured authentication entry for a registry host.
pub open spec fn spec_auth_lookup(
    entries: Seq<(Seq<char>, int)>,
    key: Seq<char>,
) -> Option<int>
    decreases entries.len(),
{
    if entries.len() == 0 {
        None
    } else if entries[0].0 == key {
        Some(entries[0].1)
    } else {
        spec_auth_lookup(entries.skip(1), key)
    }
}

/// View of the registry names with their positions.
pub open spec fn spec_auth_keys(entries: Seq<(String, OciRegistryAuth)>) -> Seq<(Seq<char>, int)> {
    Seq::new(entries.len(), |i: int| (entries[i].0@, i))
}

/// Find the first configured authentication entry for a registry
/// host; the result indexes `oci_registries`.
pub fn lookup_oci_auth(registries: &Vec<(String, OciRegistryAuth)>, registry: &str) -> (r: Option<
    usize,
>)
    ensures
        match r {
            Some(i) => spec_auth_lookup(spec_auth_keys(registries@), registry@) == Some(i as int)
                && i < registries.len(),
            None => spec_auth_lookup(spec_auth_keys(registries@), registry@) is None,
        },
{
    let ghost keys = spec_auth_keys(registries@);
    let mut i: usize = 0;
    proof {
        assert(keys.skip(0) =~= keys);
    }
    while i < registries.len()
        invariant
            i <= registries.len(),
            keys == spec_auth_keys(registries@),
            keys.len() == registries.len(),
            spec_auth_lookup(keys, registry@) == spec_auth_lookup(keys.skip(i as int), registry@),
        decreases registries.len() - i,
    {
        proof {
            assert(keys.skip(i as int)[0] == keys[i as int]);
            assert(keys.skip(i as int).skip(1) =~= keys.skip(i + 1));
        }
        if strutil::str_eq(registries[i].0.as_str(), registry) {
            return Some(i);
        }
        i = i + 1;
    }
    proof {
        assert(keys.skip(registries.len() as int) =~= Seq::<(Seq<char>, int)>::empty());
    }
    None
}

} // verus!
