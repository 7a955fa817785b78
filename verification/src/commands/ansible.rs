//! Ansible command construction.

use vstd::prelude::*;

use crate::commands::Action;
use crate::commands::CommandError;
use crate::strutil;

verus! {

/// The inventory-file pattern of an environment.
pub open spec fn spec_inventory_pattern(environment: Seq<char>) -> Seq<char> {
    "inventories/"@ + environment + ".*yml"@
}

/// The shell command for the action.  Listing the inventory is done by
/// the caller itself, so `List` yields the empty command.
pub open spec fn spec_ansible_command(
    action: Action,
    environment: Seq<char>,
    opts: Seq<char>,
) -> Result<Seq<char>, CommandError> {
    match action {
        Action::Apply => Ok(
            "ansible-playbook -i "@ + spec_inventory_pattern(environment) + " playbook.yml -D"@
                + opts,
        ),
        Action::Check | Action::Diff => Ok(
            "ansible-playbook -i "@ + spec_inventory_pattern(environment) + " playbook.yml -DC"@
                + opts,
        ),
        Action::Deps => Ok("ansible-galaxy install -r roles/requirements.yml -f"@ + opts),
        Action::List => Ok(Seq::empty()),
        _ => Err(CommandError::UnsupportedAction),
    }
}

/// Build the inventory-file pattern of an environment.
pub fn inventory_pattern(environment: &str) -> (r: String)
    ensures
        r@ == spec_inventory_pattern(environment@),
{
    let mut s = "inventories/".to_owned();
    s.append(environment);
    s.append(".*yml");
    s
}

/// Build the ansible command for the action and environment.  For
/// `List` the command is empty: the caller runs the inventory listing
/// itself, against the same inventory pattern.
pub fn get_command(action: &Action, environment: &str, options: &Vec<String>) -> (r: Result<
    String,
    CommandError,
>)
    ensures
        match (
            r,
            spec_ansible_command(
                *action,
                environment@,
                strutil::spec_opts_suffix(options.deep_view()),
            ),
        ) {
            (Ok(v), Ok(s)) => v@ == s,
            (Err(e), Err(f)) => e == f,
            _ => false,
        },
{
    let opts = strutil::opts_suffix(options);
    let pattern = inventory_pattern(environment);
    match action {
        Action::Apply => {
            let mut s = "ansible-playbook -i ".to_owned();
            s.append(pattern.as_str());
            s.append(" playbook.yml -D");
            s.append(opts.as_str());
            Ok(s)
        },
        Action::Check | Action::Diff => {
            let mut s = "ansible-playbook -i ".to_owned();
            s.append(pattern.as_str());
            s.append(" playbook.yml -DC");
            s.append(opts.as_str());
            Ok(s)
        },
        Action::Deps => {
            let mut s = "ansible-galaxy install -r roles/requirements.yml -f".to_owned();
            s.append(opts.as_str());
            Ok(s)
        },
        Action::List => {
            proof {
                reveal_strlit("");
                assert(""@ =~= Seq::<char>::empty());
            }
            Ok("".to_owned())
        },
        _ => Err(CommandError::UnsupportedAction),
    }
}

} // verus!
