//! Helm command construction.

use vstd::prelude::*;

use crate::commands::Action;
use crate::commands::CommandError;
use crate::strutil;

verus! {

/// The shell command for the action, or `None` for an action the
/// caller performs natively (dependency refresh, duplication).
pub open spec fn spec_helm_command(
    action: Action,
    environment: Seq<char>,
    opts: Seq<char>,
) -> Result<Option<Seq<char>>, CommandError> {
    match action {
        Action::Apply => Ok(Some("helmfile sync -e "@ + environment + " --skip-deps"@ + opts)),
        Action::Check | Action::Diff => Ok(
            Some("helmfile diff -e "@ + environment + " --skip-deps"@ + opts),
        ),
        Action::Template => Ok(
            Some("helmfile template -e "@ + environment + " --skip-deps"@ + opts),
        ),
        Action::Delete | Action::Destroy | Action::Uninstall => Ok(
            Some("helmfile destroy -e "@ + environment + " --skip-deps"@ + opts),
        ),
        Action::Deps => Ok(None),
        Action::Duplicate { .. } => Ok(None),
        _ => Err(CommandError::UnsupportedAction),
    }
}

/// The command that refreshes chart dependencies for an environment.
pub open spec fn spec_deps_command(environment: Seq<char>) -> Seq<char> {
    "helmfile deps -e "@ + environment
}

/// Build the dependency-refresh command for an environment.
pub fn deps_command(environment: &str) -> (r: String)
    ensures
        r@ == spec_deps_command(environment@),
{
    let mut s = "helmfile deps -e ".to_owned();
    s.append(environment);
    s
}

/// The shell command that logs the local client in to an OCI chart
/// registry with a cloud access token.
pub open spec fn spec_registry_login_command(registry: Seq<char>) -> Seq<char> {
    "gcloud auth print-access-token | helm registry login -u oauth2accesstoken --password-stdin https://"@
        + registry
}

/// Build the registry-login command for a chart registry host.
pub fn registry_login_command(registry: &str) -> (r: String)
    ensures
        r@ == spec_registry_login_command(registry@),
{
    let mut s =
        "gcloud auth print-access-token | helm registry login -u oauth2accesstoken --password-stdin https://".to_owned();
    s.append(registry);
    s
}

/// Build the helm command for the action and environment.  `None`
/// means the action is performed natively by the caller: a forced
/// dependency refresh for `Deps`, a value-tree copy for `Duplicate`.
pub fn get_command(action: &Action, environment: &str, options: &Vec<String>) -> (r: Result<
    Option<String>,
    CommandError,
>)
    ensures
        match (
            r,
            spec_helm_command(
                *action,
                environment@,
                strutil::spec_opts_suffix(options.deep_view()),
            ),
        ) {
            (Ok(Some(v)), Ok(Some(s))) => v@ == s,
            (Ok(None), Ok(None)) => true,
            (Err(e), Err(f)) => e == f,
            _ => false,
        },
{
    let opts = strutil::opts_suffix(options);
    match action {
        Action::Apply => {
            let mut s = "helmfile sync -e ".to_owned();
            s.append(environment);
            s.append(" --skip-deps");
            s.append(opts.as_str());
            Ok(Some(s))
        },
        Action::Check | Action::Diff => {
            let mut s = "helmfile diff -e ".to_owned();
            s.append(environment);
            s.append(" --skip-deps");
            s.append(opts.as_str());
            Ok(Some(s))
        },
        Action::Template => {
            let mut s = "helmfile template -e ".to_owned();
            s.append(environment);
            s.append(" --skip-deps");
            s.append(opts.as_str());
            Ok(Some(s))
        },
        Action::Delete | Action::Destroy | Action::Uninstall => {
            let mut s = "helmfile destroy -e ".to_owned();
            s.append(environment);
            s.append(" --skip-deps");
            s.append(opts.as_str());
            Ok(Some(s))
        },
        Action::Deps => Ok(None),
        Action::Duplicate { .. } => Ok(None),
        _ => Err(CommandError::UnsupportedAction),
    }
}

/// Whether the declared chart dependencies are all satisfied by the
/// lock entries: every `(name, version)` pair must occur in the lock.
/// The result is the index of the first unsatisfied declaration.
pub open spec fn spec_first_unsatisfied(
    chart_deps: Seq<(Seq<char>, Seq<char>)>,
    lock_deps: Seq<(Seq<char>, Seq<char>)>,
) -> Option<int>
    decreases chart_deps.len(),
{
    if chart_deps.len() == 0 {
        None
    } else if !lock_deps.contains(chart_deps[0]) {
        Some(0)
    } else {
        match spec_first_unsatisfied(chart_deps.skip(1), lock_deps) {
            Some(i) => Some(i + 1),
            None => None,
        }
    }
}

/// Find the first declared dependency pair that the lock does not
/// hold with the same version.
pub fn first_unsatisfied(chart_deps: &Vec<(String, String)>, lock_deps: &Vec<(String, String)>) -> (r: Option<usize>)
    ensures
        match r {
            Some(i) => spec_first_unsatisfied(chart_deps.deep_view(), lock_deps.deep_view())
                == Some(i as int) && i < chart_deps.len(),
            None => spec_first_unsatisfied(chart_deps.deep_view(), lock_deps.deep_view()) is None,
        },
{
    let ghost cdv = chart_deps.deep_view();
    let ghost ldv = lock_deps.deep_view();
    let mut i: usize = 0;
    proof {
        assert(cdv.skip(0) =~= cdv);
    }
    while i < chart_deps.len()
        invariant
            i <= chart_deps.len(),
            cdv == chart_deps.deep_view(),
            ldv == lock_deps.deep_view(),
            cdv.len() == chart_deps.len(),
            ldv.len() == lock_deps.len(),
            spec_first_unsatisfied(cdv, ldv) == (match spec_first_unsatisfied(
                cdv.skip(i as int),
                ldv,
            ) {
                Some(j) => Some(i + j),
                None => None::<int>,
            }),
        decreases chart_deps.len() - i,
    {
        proof {
            assert(cdv.skip(i as int)[0] == cdv[i as int]);
            assert(cdv.skip(i as int).skip(1) =~= cdv.skip(i + 1));
            assert(cdv[i as int] == chart_deps[i as int].deep_view());
        }
        let mut found = false;
        let mut j: usize = 0;
        while j < lock_deps.len()
            invariant
                j <= lock_deps.len(),
                ldv == lock_deps.deep_view(),
                ldv.len() == lock_deps.len(),
                i < chart_deps.len(),
                cdv == chart_deps.deep_view(),
                cdv.len() == chart_deps.len(),
                found == exists|k: int| 0 <= k < j && ldv[k] == cdv[i as int],
            decreases lock_deps.len() - j,
        {
            proof {
                assert(ldv[j as int] == lock_deps[j as int].deep_view());
            }
            if crate::strutil::str_eq(lock_deps[j].0.as_str(), chart_deps[i].0.as_str())
                && crate::strutil::str_eq(lock_deps[j].1.as_str(), chart_deps[i].1.as_str()) {
                proof {
                    assert(ldv[j as int] == cdv[i as int]);
                }
                found = true;
            }
            j = j + 1;
        }
        proof {
            assert(found == ldv.contains(cdv[i as int])) by {
                if ldv.contains(cdv[i as int]) {
                    let k = choose|k: int| 0 <= k < ldv.len() && ldv[k] == cdv[i as int];
                    assert(0 <= k < lock_deps.len() && ldv[k] == cdv[i as int]);
                }
            }
        }
        if !found {
            return Some(i);
        }
        i = i + 1;
    }
    proof {
        assert(cdv.skip(chart_deps.len() as int) =~= Seq::<(Seq<char>, Seq<char>)>::empty());
    }
    None
}

/// The archive file name under which a chart dependency is vendored.
pub open spec fn spec_chart_archive_name(name: Seq<char>, version: Seq<char>) -> Seq<char> {
    name + seq!['-'] + version + ".tgz"@
}

/// Build the archive file name of a vendored chart dependency.
pub fn chart_archive_name(name: &str, version: &str) -> (r: String)
    ensures
        r@ == spec_chart_archive_name(name@, version@),
{
    proof {
        reveal_strlit("-");
        assert("-"@ =~= seq!['-']);
    }
    let mut s = name.to_owned();
    s.append("-");
    s.append(version);
    s.append(".tgz");
    s
}

} // verus!
