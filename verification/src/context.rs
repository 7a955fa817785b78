//! Context mappings: which cluster context belongs to a repository and
//! environment, and the normalization of repository URLs used as keys.

use vstd::prelude::*;

use crate::strutil;

verus! {

/// The expected context of an environment within one repository's
/// mapping list.
pub open spec fn spec_env_lookup(envs: Seq<(Seq<char>, Seq<char>)>, env: Seq<char>) -> Option<
    Seq<char>,
>
    decreases envs.len(),
{
    if envs.len() == 0 {
        None
    } else if envs[0].0 == env {
        Some(envs[0].1)
    } else {
        spec_env_lookup(envs.skip(1), env)
    }
}

/// The expected context of a repository and environment within the
/// mapping table.
pub open spec fn spec_mapping_of(
    mappings: Seq<(Seq<char>, Seq<(Seq<char>, Seq<char>)>)>,
    repo: Seq<char>,
    env: Seq<char>,
) -> Option<Seq<char>>
    decreases mappings.len(),
{
    if mappings.len() == 0 {
        None
    } else if mappings[0].0 == repo {
        spec_env_lookup(mappings[0].1, env)
    } else {
        spec_mapping_of(mappings.skip(1), repo, env)
    }
}

proof fn lemma_env_lookup_update(
    envs: Seq<(Seq<char>, Seq<char>)>,
    j: int,
    x: (Seq<char>, Seq<char>),
    env: Seq<char>,
)
    requires
        0 <= j < envs.len(),
        forall|k: int| 0 <= k < j ==> envs[k].0 != x.0,
        envs[j].0 == x.0,
    ensures
        spec_env_lookup(envs.update(j, x), x.0) == Some(x.1),
        env != x.0 ==> spec_env_lookup(envs.update(j, x), env) == spec_env_lookup(envs, env),
    decreases j,
{
    if j == 0 {
        assert(envs.update(0, x)[0] == x);
        assert(envs.update(0, x).skip(1) =~~= envs.skip(1));
        assert(spec_env_lookup(envs.update(0, x), x.0) == Some(x.1));
        if env != x.0 {
            assert(spec_env_lookup(envs.update(0, x), env) == spec_env_lookup(
                envs.update(0, x).skip(1),
                env,
            ));
            assert(spec_env_lookup(envs, env) == spec_env_lookup(envs.skip(1), env));
        }
    } else {
        assert(envs.update(j, x)[0] == envs[0]);
        assert(envs.update(j, x).skip(1) =~~= envs.skip(1).update(j - 1, x));
        assert(forall|k: int| 0 <= k < j - 1 ==> envs.skip(1)[k].0 != x.0);
        assert(envs.skip(1)[j - 1] == envs[j]);
        lemma_env_lookup_update(envs.skip(1), j - 1, x, env);
        assert(envs[0].0 != x.0);
        assert(spec_env_lookup(envs.update(j, x), x.0) == spec_env_lookup(
            envs.skip(1).update(j - 1, x),
            x.0,
        ));
        if env != x.0 {
            if envs[0].0 == env {
                assert(spec_env_lookup(envs.update(j, x), env) == Some(envs[0].1));
                assert(spec_env_lookup(envs, env) == Some(envs[0].1));
            } else {
                assert(spec_env_lookup(envs.update(j, x), env) == spec_env_lookup(
                    envs.skip(1).update(j - 1, x),
                    env,
                ));
                assert(spec_env_lookup(envs, env) == spec_env_lookup(envs.skip(1), env));
            }
        }
    }
}

proof fn lemma_env_lookup_push(
    envs: Seq<(Seq<char>, Seq<char>)>,
    x: (Seq<char>, Seq<char>),
    env: Seq<char>,
)
    requires
        forall|k: int| 0 <= k < envs.len() ==> envs[k].0 != x.0,
    ensures
        spec_env_lookup(envs.push(x), x.0) == Some(x.1),
        env != x.0 ==> spec_env_lookup(envs.push(x), env) == spec_env_lookup(envs, env),
    decreases envs.len(),
{
    if envs.len() == 0 {
        assert(envs.push(x)[0] == x);
        assert(envs.push(x).skip(1) =~~= Seq::<(Seq<char>, Seq<char>)>::empty());
        assert(spec_env_lookup(envs.push(x), x.0) == Some(x.1));
        if env != x.0 {
            assert(spec_env_lookup(envs.push(x).skip(1), env) is None);
            assert(spec_env_lookup(envs.push(x), env) is None);
            assert(spec_env_lookup(envs, env) is None);
        }
    } else {
        assert(envs.push(x)[0] == envs[0]);
        assert(envs.push(x).skip(1) =~~= envs.skip(1).push(x));
        assert(forall|k: int| 0 <= k < envs.skip(1).len() ==> envs.skip(1)[k].0 != x.0);
        lemma_env_lookup_push(envs.skip(1), x, env);
        assert(envs[0].0 != x.0);
        assert(spec_env_lookup(envs.push(x), x.0) == spec_env_lookup(
            envs.skip(1).push(x),
            x.0,
        ));
        assert(spec_env_lookup(envs.push(x), x.0) == Some(x.1));
        if env != x.0 {
            if envs[0].0 == env {
                assert(spec_env_lookup(envs.push(x), env) == Some(envs[0].1));
                assert(spec_env_lookup(envs, env) == Some(envs[0].1));
            } else {
                assert(spec_env_lookup(envs.push(x), env) == spec_env_lookup(
                    envs.skip(1).push(x),
                    env,
                ));
                assert(spec_env_lookup(envs.skip(1).push(x), env) == spec_env_lookup(
                    envs.skip(1),
                    env,
                ));
                assert(spec_env_lookup(envs, env) == spec_env_lookup(envs.skip(1), env));
            }
        }
    }
}

proof fn lemma_mapping_update(
    mappings: Seq<(Seq<char>, Seq<(Seq<char>, Seq<char>)>)>,
    i: int,
    x: (Seq<char>, Seq<(Seq<char>, Seq<char>)>),
    repo: Seq<char>,
    env: Seq<char>,
)
    requires
        0 <= i < mappings.len(),
        forall|k: int| 0 <= k < i ==> mappings[k].0 != x.0,
        mappings[i].0 == x.0,
    ensures
        spec_mapping_of(mappings.update(i, x), x.0, env) == spec_env_lookup(x.1, env),
        repo != x.0 ==> spec_mapping_of(mappings.update(i, x), repo, env) == spec_mapping_of(
            mappings,
            repo,
            env,
        ),
    decreases i,
{
    if i == 0 {
        assert(mappings.update(0, x)[0] == x);
        assert(mappings.update(0, x).skip(1) =~~= mappings.skip(1));
        assert(spec_mapping_of(mappings.update(0, x), x.0, env) == spec_env_lookup(x.1, env));
        if repo != x.0 {
            assert(spec_mapping_of(mappings.update(0, x), repo, env) == spec_mapping_of(
                mappings.update(0, x).skip(1),
                repo,
                env,
            ));
            assert(spec_mapping_of(mappings, repo, env) == spec_mapping_of(
                mappings.skip(1),
                repo,
                env,
            ));
        }
    } else {
        assert(mappings.update(i, x)[0] == mappings[0]);
        assert(mappings.update(i, x).skip(1) =~~= mappings.skip(1).update(i - 1, x));
        assert(forall|k: int| 0 <= k < i - 1 ==> mappings.skip(1)[k].0 != x.0);
        assert(mappings.skip(1)[i - 1] == mappings[i]);
        lemma_mapping_update(mappings.skip(1), i - 1, x, repo, env);
        assert(mappings[0].0 != x.0);
        assert(spec_mapping_of(mappings.update(i, x), x.0, env) == spec_mapping_of(
            mappings.skip(1).update(i - 1, x),
            x.0,
            env,
        ));
        if repo != x.0 {
            if mappings[0].0 == repo {
                assert(spec_mapping_of(mappings.update(i, x), repo, env) == spec_env_lookup(
                    mappings[0].1,
                    env,
                ));
                assert(spec_mapping_of(mappings, repo, env) == spec_env_lookup(
                    mappings[0].1,
                    env,
                ));
            } else {
                assert(spec_mapping_of(mappings.update(i, x), repo, env) == spec_mapping_of(
                    mappings.skip(1).update(i - 1, x),
                    repo,
                    env,
                ));
                assert(spec_mapping_of(mappings, repo, env) == spec_mapping_of(
                    mappings.skip(1),
                    repo,
                    env,
                ));
            }
        }
    }
}

proof fn lemma_mapping_push(
    mappings: Seq<(Seq<char>, Seq<(Seq<char>, Seq<char>)>)>,
    x: (Seq<char>, Seq<(Seq<char>, Seq<char>)>),
    repo: Seq<char>,
    env: Seq<char>,
)
    requires
        forall|k: int| 0 <= k < mappings.len() ==> mappings[k].0 != x.0,
    ensures
        spec_mapping_of(mappings.push(x), x.0, env) == spec_env_lookup(x.1, env),
        repo != x.0 ==> spec_mapping_of(mappings.push(x), repo, env) == spec_mapping_of(
            mappings,
            repo,
            env,
        ),
    decreases mappings.len(),
{
    if mappings.len() == 0 {
        assert(mappings.push(x)[0] == x);
        assert(mappings.push(x).skip(1) =~~= Seq::<
            (Seq<char>, Seq<(Seq<char>, Seq<char>)>),
        >::empty());
        assert(spec_mapping_of(mappings.push(x), x.0, env) == spec_env_lookup(x.1, env));
        if repo != x.0 {
            assert(spec_mapping_of(mappings.push(x).skip(1), repo, env) is None);
            assert(spec_mapping_of(mappings.push(x), repo, env) is None);
            assert(spec_mapping_of(mappings, repo, env) is None);
        }
    } else {
        assert(mappings.push(x)[0] == mappings[0]);
        assert(mappings.push(x).skip(1) =~~= mappings.skip(1).push(x));
        assert(forall|k: int| 0 <= k < mappings.skip(1).len() ==> mappings.skip(1)[k].0 != x.0);
        lemma_mapping_push(mappings.skip(1), x, repo, env);
        assert(mappings[0].0 != x.0);
        assert(spec_mapping_of(mappings.push(x), x.0, env) == spec_mapping_of(
            mappings.skip(1).push(x),
            x.0,
            env,
        ));
        if repo != x.0 {
            if mappings[0].0 == repo {
                assert(spec_mapping_of(mappings.push(x), repo, env) == spec_env_lookup(
                    mappings[0].1,
                    env,
                ));
                assert(spec_mapping_of(mappings, repo, env) == spec_env_lookup(
                    mappings[0].1,
                    env,
                ));
            } else {
                assert(spec_mapping_of(mappings.push(x), repo, env) == spec_mapping_of(
                    mappings.skip(1).push(x),
                    repo,
                    env,
                ));
                assert(spec_mapping_of(mappings.skip(1).push(x), repo, env) == spec_mapping_of(
                    mappings.skip(1),
                    repo,
                    env,
                ));
                assert(spec_mapping_of(mappings, repo, env) == spec_mapping_of(
                    mappings.skip(1),
                    repo,
                    env,
                ));
            }
        }
    }
}

/// A repository that occurs nowhere in the table maps nothing.
proof fn lemma_mapping_absent(
    mappings: Seq<(Seq<char>, Seq<(Seq<char>, Seq<char>)>)>,
    repo: Seq<char>,
    env: Seq<char>,
)
    requires
        forall|k: int| 0 <= k < mappings.len() ==> mappings[k].0 != repo,
    ensures
        spec_mapping_of(mappings, repo, env) is None,
    decreases mappings.len(),
{
    if mappings.len() > 0 {
        assert(forall|k: int| 0 <= k < mappings.skip(1).len() ==> mappings.skip(1)[k].0 != repo);
        lemma_mapping_absent(mappings.skip(1), repo, env);
    }
}

/// With the repository's first entry at `i`, the table lookup is that
/// entry's environment lookup.
proof fn lemma_mapping_first(
    mappings: Seq<(Seq<char>, Seq<(Seq<char>, Seq<char>)>)>,
    i: int,
    repo: Seq<char>,
    env: Seq<char>,
)
    requires
        0 <= i < mappings.len(),
        mappings[i].0 == repo,
        forall|k: int| 0 <= k < i ==> mappings[k].0 != repo,
    ensures
        spec_mapping_of(mappings, repo, env) == spec_env_lookup(mappings[i].1, env),
    decreases i,
{
    if i > 0 {
        assert(mappings.skip(1)[i - 1] == mappings[i]);
        assert(forall|k: int| 0 <= k < i - 1 ==> mappings.skip(1)[k].0 != repo);
        lemma_mapping_first(mappings.skip(1), i - 1, repo, env);
        assert(mappings[0].0 != repo);
        assert(spec_mapping_of(mappings, repo, env) == spec_mapping_of(
            mappings.skip(1),
            repo,
            env,
        ));
    }
}

/// Context mappings: per repository, the expected cluster context of
/// each environment, plus the switch that disables checking.
pub struct ContextConfig {
    pub disable_context_check: bool,
    pub mappings: Vec<(String, Vec<(String, String)>)>,
}

impl Default for ContextConfig {
    fn default() -> (r: ContextConfig)
        ensures
            r.disable_context_check == false,
            r.mappings.len() == 0,
    {
        ContextConfig { disable_context_check: false, mappings: Vec::new() }
    }
}

impl Clone for ContextConfig {
    #[verifier::loop_isolation(false)]
    fn clone(&self) -> (r: ContextConfig)
        ensures
            r.disable_context_check == self.disable_context_check,
            r.mappings.deep_view() == self.mappings.deep_view(),
    {
        let ghost m = self.mappings.deep_view();
        let mut mappings: Vec<(String, Vec<(String, String)>)> = Vec::new();
        let mut i: usize = 0;
        proof {
            assert(mappings.deep_view() =~~= m.take(0));
        }
        while i < self.mappings.len()
            invariant
                i <= self.mappings.len(),
                m == self.mappings.deep_view(),
                m.len() == self.mappings.len(),
                mappings.deep_view() == m.take(i as int),
            decreases self.mappings.len() - i,
        {
            let ghost inner = m[i as int].1;
            let mut envs: Vec<(String, String)> = Vec::new();
            let mut j: usize = 0;
            proof {
                assert(m[i as int] == self.mappings@[i as int].deep_view());
                assert(inner.len() == self.mappings@[i as int].1.len());
                assert(envs.deep_view() =~~= inner.take(0));
            }
            while j < self.mappings[i].1.len()
                invariant
                    i < self.mappings.len(),
                    m == self.mappings.deep_view(),
                    m.len() == self.mappings.len(),
                    inner == m[i as int].1,
                    inner.len() == self.mappings@[i as int].1.len(),
                    j <= inner.len(),
                    envs.deep_view() == inner.take(j as int),
                decreases inner.len() - j,
            {
                let ghost prev = envs.deep_view();
                envs.push((self.mappings[i].1[j].0.clone(), self.mappings[i].1[j].1.clone()));
                proof {
                    assert(m[i as int] == self.mappings@[i as int].deep_view());
                    assert(inner[j as int] == self.mappings@[i as int].1@[j as int].deep_view());
                    assert(envs.deep_view() =~~= prev.push(inner[j as int]));
                    assert(inner.take(j + 1) =~~= inner.take(j as int).push(inner[j as int]));
                    assert(envs.deep_view() =~~= inner.take(j + 1));
                }
                j = j + 1;
            }
            proof {
                assert(inner.take(inner.len() as int) =~~= inner);
            }
            let key = self.mappings[i].0.clone();
            let ghost prevm = mappings.deep_view();
            mappings.push((key, envs));
            proof {
                assert(m[i as int] == self.mappings@[i as int].deep_view());
                assert(mappings.deep_view() =~~= prevm.push(m[i as int]));
                assert(m.take(i + 1) =~~= m.take(i as int).push(m[i as int]));
                assert(mappings.deep_view() =~~= m.take(i + 1));
            }
            i = i + 1;
        }
        proof {
            assert(m.take(self.mappings.len() as int) =~~= m);
        }
        ContextConfig { disable_context_check: self.disable_context_check, mappings }
    }
}

impl ContextConfig {
    /// The expected context for a repository and environment, if one
    /// is mapped.
    #[verifier::loop_isolation(false)]
    pub fn get_mapping(&self, repo_id: &str, environment: &str) -> (r: Option<String>)
        ensures
            match r {
                Some(c) => spec_mapping_of(self.mappings.deep_view(), repo_id@, environment@)
                    == Some(c@),
                None => spec_mapping_of(self.mappings.deep_view(), repo_id@, environment@) is None,
            },
    {
        let ghost m = self.mappings.deep_view();
        let mut i: usize = 0;
        proof {
            assert(m.skip(0) =~~= m);
        }
        while i < self.mappings.len()
            invariant
                i <= self.mappings.len(),
                m == self.mappings.deep_view(),
                m.len() == self.mappings.len(),
                spec_mapping_of(m, repo_id@, environment@) == spec_mapping_of(
                    m.skip(i as int),
                    repo_id@,
                    environment@,
                ),
            decreases self.mappings.len() - i,
        {
            proof {
                assert(m.skip(i as int)[0] == m[i as int]);
                assert(m.skip(i as int).skip(1) =~~= m.skip(i + 1));
                assert(m[i as int] == self.mappings@[i as int].deep_view());
            }
            if strutil::str_eq(self.mappings[i].0.as_str(), repo_id) {
                let ghost e = m[i as int].1;
                let mut j: usize = 0;
                proof {
                    assert(e.skip(0) =~~= e);
                }
                while j < self.mappings[i].1.len()
                    invariant
                        i < self.mappings.len(),
                        m == self.mappings.deep_view(),
                        m.len() == self.mappings.len(),
                        e == m[i as int].1,
                        e.len() == self.mappings@[i as int].1.len(),
                        j <= e.len(),
                        spec_mapping_of(m, repo_id@, environment@) == spec_env_lookup(
                            e,
                            environment@,
                        ),
                        spec_env_lookup(e, environment@) == spec_env_lookup(
                            e.skip(j as int),
                            environment@,
                        ),
                    decreases e.len() - j,
                {
                    proof {
                        assert(e.skip(j as int)[0] == e[j as int]);
                        assert(e.skip(j as int).skip(1) =~~= e.skip(j + 1));
                        assert(m[i as int] == self.mappings@[i as int].deep_view());
                        assert(e[j as int] == self.mappings@[i as int].1@[j as int].deep_view());
                    }
                    if strutil::str_eq(self.mappings[i].1[j].0.as_str(), environment) {
                        return Some(self.mappings[i].1[j].1.clone());
                    }
                    j = j + 1;
                }
                proof {
                    assert(e.skip(e.len() as int) =~~= Seq::<(Seq<char>, Seq<char>)>::empty());
                }
                return None;
            }
            i = i + 1;
        }
        proof {
            assert(m.skip(self.mappings.len() as int) =~~= Seq::<
                (Seq<char>, Seq<(Seq<char>, Seq<char>)>),
            >::empty());
        }
        None
    }

    /// Record the context for a repository and environment: afterwards
    /// that pair maps to `context`, and every other pair maps as
    /// before.
    #[verifier::loop_isolation(false)]
    pub fn set_mapping(&mut self, repo_id: &str, environment: &str, context: &str)
        ensures
            final(self).disable_context_check == old(self).disable_context_check,
            spec_mapping_of(final(self).mappings.deep_view(), repo_id@, environment@) == Some(
                context@,
            ),
            forall|r2: Seq<char>, e2: Seq<char>|
                !(r2 == repo_id@ && e2 == environment@) ==> #[trigger] spec_mapping_of(
                    final(self).mappings.deep_view(),
                    r2,
                    e2,
                ) == spec_mapping_of(old(self).mappings.deep_view(), r2, e2),
    {
        let ghost m0 = self.mappings.deep_view();
        let mut i: usize = 0;
        let mut repo_at: Option<usize> = None;
        while i < self.mappings.len()
            invariant
                i <= self.mappings.len(),
                m0 == self.mappings.deep_view(),
                m0.len() == self.mappings.len(),
                *self == *old(self),
                match repo_at {
                    Some(k) => k < i && m0[k as int].0 == repo_id@ && forall|n: int|
                        0 <= n < k ==> m0[n].0 != repo_id@,
                    None => forall|n: int| 0 <= n < i ==> m0[n].0 != repo_id@,
                },
            decreases self.mappings.len() - i,
        {
            proof {
                assert(m0[i as int] == self.mappings@[i as int].deep_view());
            }
            let hit = match repo_at {
                Some(_) => false,
                None => strutil::str_eq(self.mappings[i].0.as_str(), repo_id),
            };
            if hit {
                repo_at = Some(i);
            }
            i = i + 1;
        }
        let new_pair = (environment.to_owned(), context.to_owned());
        let ghost pv = (environment@, context@);
        proof {
            assert(new_pair.deep_view() == pv);
        }
        match repo_at {
            Some(k) => {
                let ghost e0 = m0[k as int].1;
                proof {
                    assert(m0[k as int] == self.mappings@[k as int].deep_view());
                    assert(e0.len() == self.mappings@[k as int].1.len());
                }
                let mut j: usize = 0;
                let mut env_at: Option<usize> = None;
                while j < self.mappings[k].1.len()
                    invariant
                        k < self.mappings.len(),
                        m0 == self.mappings.deep_view(),
                        m0.len() == self.mappings.len(),
                        *self == *old(self),
                        e0 == m0[k as int].1,
                        e0.len() == self.mappings@[k as int].1.len(),
                        j <= e0.len(),
                        match env_at {
                            Some(x) => x < j && e0[x as int].0 == environment@ && forall|n: int|
                                0 <= n < x ==> e0[n].0 != environment@,
                            None => forall|n: int| 0 <= n < j ==> e0[n].0 != environment@,
                        },
                    decreases e0.len() - j,
                {
                    proof {
                        assert(m0[k as int] == self.mappings@[k as int].deep_view());
                        assert(e0[j as int] == self.mappings@[k as int].1@[j as int].deep_view());
                    }
                    let hit = match env_at {
                        Some(_) => false,
                        None => strutil::str_eq(self.mappings[k].1[j].0.as_str(), environment),
                    };
                    if hit {
                        env_at = Some(j);
                    }
                    j = j + 1;
                }
                let mut new_envs: Vec<(String, String)> = Vec::new();
                let mut j2: usize = 0;
                proof {
                    assert(new_envs.deep_view() =~~= e0.take(0));
                }
                while j2 < self.mappings[k].1.len()
                    invariant
                        k < self.mappings.len(),
                        m0 == self.mappings.deep_view(),
                        m0.len() == self.mappings.len(),
                        *self == *old(self),
                        e0 == m0[k as int].1,
                        e0.len() == self.mappings@[k as int].1.len(),
                        j2 <= e0.len(),
                        match env_at {
                            Some(x) => x < e0.len() && (if j2 <= x {
                                new_envs.deep_view() == e0.take(j2 as int)
                            } else {
                                new_envs.deep_view() == e0.take(j2 as int).update(x as int, pv)
                            }),
                            None => new_envs.deep_view() == e0.take(j2 as int),
                        },
                    decreases e0.len() - j2,
                {
                    let ghost prev = new_envs.deep_view();
                    proof {
                        assert(m0[k as int] == self.mappings@[k as int].deep_view());
                        assert(e0[j2 as int] == self.mappings@[k as int].1@[j2 as int].deep_view());
                    }
                    let replace_here = match env_at {
                        Some(x) => x == j2,
                        None => false,
                    };
                    if replace_here {
                        new_envs.push((environment.to_owned(), context.to_owned()));
                        proof {
                            assert(new_envs.deep_view() =~~= prev.push(pv));
                        }
                    } else {
                        new_envs.push(
                            (self.mappings[k].1[j2].0.clone(), self.mappings[k].1[j2].1.clone()),
                        );
                        proof {
                            assert(new_envs.deep_view() =~~= prev.push(e0[j2 as int]));
                        }
                    }
                    proof {
                        assert(e0.take(j2 + 1) =~~= e0.take(j2 as int).push(e0[j2 as int]));
                        match env_at {
                            Some(x) => {
                                if j2 == x {
                                    assert(new_envs.deep_view() =~~= e0.take(j2 + 1).update(
                                        x as int,
                                        pv,
                                    ));
                                } else if j2 < x {
                                    assert(new_envs.deep_view() =~~= e0.take(j2 + 1));
                                } else {
                                    assert(new_envs.deep_view() =~~= e0.take(j2 + 1).update(
                                        x as int,
                                        pv,
                                    ));
                                }
                            },
                            None => {
                                assert(new_envs.deep_view() =~~= e0.take(j2 + 1));
                            },
                        }
                    }
                    j2 = j2 + 1;
                }
                proof {
                    assert(e0.take(e0.len() as int) =~~= e0);
                }
                let ghost new_e: Seq<(Seq<char>, Seq<char>)>;
                match env_at {
                    Some(x) => {
                        proof {
                            new_e = e0.update(x as int, pv);
                            assert(new_envs.deep_view() == new_e);
                            lemma_env_lookup_update(e0, x as int, pv, environment@);
                        }
                    },
                    None => {
                        new_envs.push(new_pair);
                        proof {
                            new_e = e0.push(pv);
                            assert(new_envs.deep_view() =~~= new_e);
                            lemma_env_lookup_push(e0, pv, environment@);
                        }
                    },
                }
                let key = self.mappings[k].0.clone();
                let ghost entry_v = (repo_id@, new_e);
                self.mappings.set(k, (key, new_envs));
                proof {
                    assert(self.mappings.deep_view() =~~= m0.update(k as int, entry_v));
                    lemma_mapping_update(m0, k as int, entry_v, repo_id@, environment@);
                    assert(spec_env_lookup(new_e, environment@) == Some(context@));
                    assert forall|r2: Seq<char>, e2: Seq<char>|
                        !(r2 == repo_id@ && e2 == environment@) implies #[trigger] spec_mapping_of(
                        self.mappings.deep_view(),
                        r2,
                        e2,
                    ) == spec_mapping_of(m0, r2, e2) by {
                        lemma_mapping_update(m0, k as int, entry_v, r2, e2);
                        if r2 == repo_id@ {
                            match env_at {
                                Some(x) => {
                                    lemma_env_lookup_update(e0, x as int, pv, e2);
                                },
                                None => {
                                    lemma_env_lookup_push(e0, pv, e2);
                                },
                            }
                            lemma_mapping_first(m0, k as int, r2, e2);
                        }
                    }
                }
            },
            None => {
                let mut new_envs: Vec<(String, String)> = Vec::new();
                new_envs.push(new_pair);
                let ghost new_e = Seq::<(Seq<char>, Seq<char>)>::empty().push(pv);
                proof {
                    assert(new_envs.deep_view() =~~= new_e);
                }
                let ghost entry_v = (repo_id@, new_e);
                self.mappings.push((repo_id.to_owned(), new_envs));
                proof {
                    assert(self.mappings.deep_view() =~~= m0.push(entry_v));
                    lemma_mapping_push(m0, entry_v, repo_id@, environment@);
                    assert(new_e[0].0 == environment@);
                    assert(spec_env_lookup(new_e, environment@) == Some(context@));
                    assert forall|r2: Seq<char>, e2: Seq<char>|
                        !(r2 == repo_id@ && e2 == environment@) implies #[trigger] spec_mapping_of(
                        self.mappings.deep_view(),
                        r2,
                        e2,
                    ) == spec_mapping_of(m0, r2, e2) by {
                        lemma_mapping_push(m0, entry_v, r2, e2);
                        if r2 == repo_id@ {
                            assert(new_e[0].0 == environment@);
                            assert(new_e.skip(1) =~~= Seq::<(Seq<char>, Seq<char>)>::empty());
                            assert(spec_env_lookup(new_e.skip(1), e2) is None);
                            assert(spec_env_lookup(new_e, e2) is None);
                            lemma_mapping_absent(m0, repo_id@, e2);
                        }
                    }
                }
            },
        }
    }
}

/// The normalized identity of a repository URL: SSH, HTTPS, HTTP and
/// `ssh://git@` forms reduce to `host/path`, a `.git` suffix is
/// dropped, and an unrecognized form stays as it is.
pub open spec fn spec_normalize_git_url(url: Seq<char>) -> Seq<char> {
    if strutil::spec_starts_with(url, "git@"@) {
        spec_drop_git_suffix(strutil::spec_replace(url.skip(4), seq![':'], seq!['/']))
    } else if strutil::spec_starts_with(url, "https://"@) {
        spec_drop_git_suffix(url.skip(8))
    } else if strutil::spec_starts_with(url, "ssh://git@"@) {
        spec_drop_git_suffix(url.skip(10))
    } else if strutil::spec_starts_with(url, "http://"@) {
        spec_drop_git_suffix(url.skip(7))
    } else {
        url
    }
}

/// The text without a trailing `.git`.
pub open spec fn spec_drop_git_suffix(s: Seq<char>) -> Seq<char> {
    if strutil::spec_ends_with(s, ".git"@) {
        s.take(s.len() - 4)
    } else {
        s
    }
}

/// Drop a trailing `.git`.
fn drop_git_suffix(s: &str) -> (r: &str)
    ensures
        r@ == spec_drop_git_suffix(s@),
{
    proof {
        reveal_strlit(".git");
    }
    let slen = s.unicode_len();
    if strutil::str_ends_with(s, ".git") {
        let r = s.substring_char(0, slen - 4);
        proof {
            assert(r@ =~~= s@.take(s@.len() - 4));
        }
        r
    } else {
        s
    }
}

/// Normalize a git remote URL to a `host/path` identity: `git@host:p`,
/// `https://host/p`, `ssh://git@host/p` and `http://host/p` all reduce
/// to `host/p` without any `.git` suffix; anything else is returned
/// unchanged.
pub fn normalize_git_url(url: &str) -> (r: String)
    ensures
        r@ == spec_normalize_git_url(url@),
{
    proof {
        reveal_strlit("git@");
        reveal_strlit("https://");
        reveal_strlit("ssh://git@");
        reveal_strlit("http://");
        reveal_strlit(":");
        reveal_strlit("/");
        assert(":"@ =~~= seq![':']);
        assert("/"@ =~~= seq!['/']);
    }
    let len = url.unicode_len();
    if strutil::str_starts_with(url, "git@") {
        let rest = url.substring_char(4, len);
        proof {
            assert(rest@ =~~= url@.skip(4));
        }
        let replaced = strutil::replace_all(rest, ":", "/");
        drop_git_suffix(replaced.as_str()).to_owned()
    } else if strutil::str_starts_with(url, "https://") {
        let rest = url.substring_char(8, len);
        proof {
            assert(rest@ =~~= url@.skip(8));
        }
        drop_git_suffix(rest).to_owned()
    } else if strutil::str_starts_with(url, "ssh://git@") {
        let rest = url.substring_char(10, len);
        proof {
            assert(rest@ =~~= url@.skip(10));
        }
        drop_git_suffix(rest).to_owned()
    } else if strutil::str_starts_with(url, "http://") {
        let rest = url.substring_char(7, len);
        proof {
            assert(rest@ =~~= url@.skip(7));
        }
        drop_git_suffix(rest).to_owned()
    } else {
        url.to_owned()
    }
}

} // verus!
