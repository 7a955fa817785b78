//! Terraform command construction.

use vstd::prelude::*;

use crate::commands::Action;
use crate::strutil;

verus! {

/// The `terraform init` command for an environment, reconfiguring
/// against the backend-variable file.
pub open spec fn spec_init_command(backend_dir: Seq<char>, environment: Seq<char>) -> Seq<char> {
    "terraform init -reconfigure -backend-config="@ + backend_dir + seq!['/'] + environment
        + ".tfvars"@
}

/// The terraform operation command for the action, or `None` for an
/// action that needs no operation beyond initialization.
pub open spec fn spec_operation(
    action: Action,
    environment: Seq<char>,
    opts: Seq<char>,
) -> Option<Seq<char>> {
    match action {
        Action::Apply => Some(
            "terraform apply -lock-timeout=60s -var-file=tfvars/"@ + environment + ".tfvars"@
                + opts,
        ),
        Action::Check | Action::Plan | Action::Diff => Some(
            "terraform plan -lock-timeout=60s -var-file=tfvars/"@ + environment + ".tfvars"@
                + opts,
        ),
        Action::Delete | Action::Destroy | Action::Uninstall => Some(
            "terraform destroy -lock-timeout=60s -var-file=tfvars/"@ + environment + ".tfvars"@
                + opts,
        ),
        Action::Output { key } => match key {
            Some(k) => Some("terraform output "@ + k@),
            None => Some(Seq::empty()),
        },
        Action::Unlock { lock_id } => Some("terraform force-unlock -force "@ + lock_id@),
        Action::Show => Some("terraform show"@),
        _ => None,
    }
}

/// The full command sequence for the action: tool-version switch,
/// initialization, and the operation when the action has one.
pub open spec fn spec_terraform_commands(
    action: Action,
    backend_dir: Seq<char>,
    environment: Seq<char>,
    options: Seq<Seq<char>>,
) -> Seq<Seq<char>> {
    let base = seq!["tfswitch"@, spec_init_command(backend_dir, environment)];
    match spec_operation(action, environment, strutil::spec_opts_suffix(options)) {
        Some(op) => base.push(op),
        None => base,
    }
}

/// Build the sequence of terraform commands for an action: `tfswitch`,
/// `terraform init` against the environment's backend variables, and
/// the action's operation with the extra options appended.
pub fn build_terraform_commands(
    action: &Action,
    backend_dir: &str,
    environment: &str,
    options: &Vec<String>,
) -> (r: Vec<String>)
    ensures
        r.deep_view() == spec_terraform_commands(*action, backend_dir@, environment@, options.deep_view()),
{
    proof {
        reveal_strlit("/");
        reveal_strlit(".tfvars");
        assert("/"@ =~= seq!['/']);
    }
    let mut commands: Vec<String> = Vec::new();
    commands.push("tfswitch".to_owned());
    let mut init = "terraform init -reconfigure -backend-config=".to_owned();
    init.append(backend_dir);
    init.append("/");
    init.append(environment);
    init.append(".tfvars");
    proof {
        assert(init@ =~= spec_init_command(backend_dir@, environment@));
    }
    commands.push(init);
    proof {
        assert(commands.deep_view() =~= seq![
            "tfswitch"@,
            spec_init_command(backend_dir@, environment@),
        ]);
    }
    let opts = strutil::opts_suffix(options);
    let ghost base = commands.deep_view();
    let operation: Option<String> = match action {
        Action::Apply => {
            let mut s = "terraform apply -lock-timeout=60s -var-file=tfvars/".to_owned();
            s.append(environment);
            s.append(".tfvars");
            s.append(opts.as_str());
            Some(s)
        },
        Action::Check | Action::Plan | Action::Diff => {
            let mut s = "terraform plan -lock-timeout=60s -var-file=tfvars/".to_owned();
            s.append(environment);
            s.append(".tfvars");
            s.append(opts.as_str());
            Some(s)
        },
        Action::Delete | Action::Destroy | Action::Uninstall => {
            let mut s = "terraform destroy -lock-timeout=60s -var-file=tfvars/".to_owned();
            s.append(environment);
            s.append(".tfvars");
            s.append(opts.as_str());
            Some(s)
        },
        Action::Output { key } => match key {
            Some(k) => Some(strutil::concat2("terraform output ", k.as_str())),
            None => Some(String::new()),
        },
        Action::Unlock { lock_id } => Some(
            strutil::concat2("terraform force-unlock -force ", lock_id.as_str()),
        ),
        Action::Show => Some("terraform show".to_owned()),
        _ => None,
    };
    match operation {
        Some(op) => {
            proof {
                assert(Some(op@) == spec_operation(
                    *action,
                    environment@,
                    strutil::spec_opts_suffix(options.deep_view()),
                ));
            }
            commands.push(op);
            proof {
                assert(commands.deep_view() =~= base.push(
                    spec_operation(
                        *action,
                        environment@,
                        strutil::spec_opts_suffix(options.deep_view()),
                    ).unwrap(),
                ));
            }
            commands
        },
        None => commands,
    }
}

} // verus!
