//! Kustomize command construction.

use vstd::prelude::*;

use crate::commands::Action;
use crate::commands::CommandError;
use crate::strutil;

verus! {

/// The shell command for the action: a `kustomize build` of the
/// environment's overlay piped into the matching `kubectl` operation.
pub open spec fn spec_kustomize_command(
    action: Action,
    environment: Seq<char>,
    opts: Seq<char>,
) -> Result<Seq<char>, CommandError> {
    match action {
        Action::Apply => Ok(
            "kustomize build overlays/"@ + environment + " | kubectl apply"@ + opts + " -f -"@,
        ),
        Action::Check | Action::Diff => Ok(
            "kustomize build overlays/"@ + environment + " | kubectl diff"@ + opts
                + " -f - || test $? -eq 1"@,
        ),
        Action::Template => Ok("kustomize build overlays/"@ + environment + seq![' '] + opts),
        Action::Delete | Action::Destroy | Action::Uninstall => Ok(
            "kustomize build overlays/"@ + environment + " | kubectl delete"@ + opts + " -f -"@,
        ),
        _ => Err(CommandError::UnsupportedAction),
    }
}

/// Build the kustomize command for the action and environment.
pub fn get_command(action: &Action, environment: &str, options: &Vec<String>) -> (r: Result<
    String,
    CommandError,
>)
    ensures
        match (
            r,
            spec_kustomize_command(
                *action,
                environment@,
                strutil::spec_opts_suffix(options.deep_view()),
            ),
        ) {
            (Ok(v), Ok(s)) => v@ == s,
            (Err(e), Err(f)) => e == f,
            _ => false,
        },
{
    let opts = strutil::opts_suffix(options);
    match action {
        Action::Apply => {
            let mut s = "kustomize build overlays/".to_owned();
            s.append(environment);
            s.append(" | kubectl apply");
            s.append(opts.as_str());
            s.append(" -f -");
            Ok(s)
        },
        Action::Check | Action::Diff => {
            let mut s = "kustomize build overlays/".to_owned();
            s.append(environment);
            s.append(" | kubectl diff");
            s.append(opts.as_str());
            s.append(" -f - || test $? -eq 1");
            Ok(s)
        },
        Action::Template => {
            let mut s = "kustomize build overlays/".to_owned();
            s.append(environment);
            s.append(" ");
            s.append(opts.as_str());
            proof {
                reveal_strlit(" ");
                assert(" "@ =~= seq![' ']);
            }
            Ok(s)
        },
        Action::Delete | Action::Destroy | Action::Uninstall => {
            let mut s = "kustomize build overlays/".to_owned();
            s.append(environment);
            s.append(" | kubectl delete");
            s.append(opts.as_str());
            s.append(" -f -");
            Ok(s)
        },
        _ => Err(CommandError::UnsupportedAction),
    }
}

} // verus!
