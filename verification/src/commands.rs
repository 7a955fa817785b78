//! Actions and the per-technology command builders.

use vstd::prelude::*;

pub mod ansible;
pub mod helm;
pub mod kustomize;
pub mod terraform;

verus! {

/// One operation requested of a project, with its parameters.
#[derive(Debug)]
pub enum Action {
    Apply,
    Check,
    Diff,
    Plan,
    Delete,
    Destroy,
    Uninstall,
    Deps,
    Template,
    Output { key: Option<String> },
    List,
    Duplicate { target_env: String },
    Unlock { lock_id: String },
    Show,
}

impl Clone for Action {
    fn clone(&self) -> (r: Action)
        ensures
            r == *self,
    {
        match self {
            Action::Apply => Action::Apply,
            Action::Check => Action::Check,
            Action::Diff => Action::Diff,
            Action::Plan => Action::Plan,
            Action::Delete => Action::Delete,
            Action::Destroy => Action::Destroy,
            Action::Uninstall => Action::Uninstall,
            Action::Deps => Action::Deps,
            Action::Template => Action::Template,
            Action::Output { key } => Action::Output {
                key: match key {
                    Some(k) => Some(k.clone()),
                    None => None,
                },
            },
            Action::List => Action::List,
            Action::Duplicate { target_env } => Action::Duplicate {
                target_env: target_env.clone(),
            },
            Action::Unlock { lock_id } => Action::Unlock { lock_id: lock_id.clone() },
            Action::Show => Action::Show,
        }
    }
}

/// Why a command could not be built for a technology.
#[derive(Debug)]
pub enum CommandError {
    /// The technology does not implement the requested action.
    UnsupportedAction,
}

} // verus!
