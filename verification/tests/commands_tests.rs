//! Per-technology command construction.

use mk::commands::terraform::build_terraform_commands;
use mk::commands::{ansible, helm, kustomize, Action, CommandError};

#[test]
fn test_build_terraform_commands_apply() {
    let commands = build_terraform_commands(
        &Action::Apply,
        "backend-vars",
        "dev",
        &vec!["-auto-approve".to_string()],
    );

    assert_eq!(commands.len(), 3);
    assert_eq!(commands[0], "tfswitch");
    assert_eq!(
        commands[1],
        "terraform init -reconfigure -backend-config=backend-vars/dev.tfvars"
    );
    assert_eq!(
        commands[2],
        "terraform apply -lock-timeout=60s -var-file=tfvars/dev.tfvars -auto-approve"
    );
}

#[test]
fn test_build_terraform_commands_plan() {
    let commands = build_terraform_commands(&Action::Plan, "backend_vars", "prod", &vec![]);

    assert_eq!(commands.len(), 3);
    assert_eq!(commands[0], "tfswitch");
    assert_eq!(
        commands[1],
        "terraform init -reconfigure -backend-config=backend_vars/prod.tfvars"
    );
    assert_eq!(
        commands[2],
        "terraform plan -lock-timeout=60s -var-file=tfvars/prod.tfvars"
    );
}

#[test]
fn test_build_terraform_commands_destroy() {
    let commands = build_terraform_commands(&Action::Destroy, "backend-vars", "staging", &vec![]);

    assert_eq!(commands.len(), 3);
    assert_eq!(commands[0], "tfswitch");
    assert_eq!(
        commands[1],
        "terraform init -reconfigure -backend-config=backend-vars/staging.tfvars"
    );
    assert_eq!(
        commands[2],
        "terraform destroy -lock-timeout=60s -var-file=tfvars/staging.tfvars"
    );
}

#[test]
fn test_build_terraform_commands_output() {
    let commands = build_terraform_commands(
        &Action::Output { key: Some("vpc_id".to_string()) },
        "backend-vars",
        "dev",
        &vec![],
    );

    assert_eq!(commands.len(), 3);
    assert_eq!(commands[0], "tfswitch");
    assert_eq!(
        commands[1],
        "terraform init -reconfigure -backend-config=backend-vars/dev.tfvars"
    );
    assert_eq!(commands[2], "terraform output vpc_id");
}

#[test]
fn test_build_terraform_commands_with_multiple_options() {
    let commands = build_terraform_commands(
        &Action::Apply,
        "backend-vars",
        "dev",
        &vec!["-auto-approve".to_string(), "-compact-warnings".to_string()],
    );

    assert_eq!(commands.len(), 3);
    assert_eq!(
        commands[2],
        "terraform apply -lock-timeout=60s -var-file=tfvars/dev.tfvars -auto-approve -compact-warnings"
    );
}

#[test]
fn test_build_terraform_commands_check_same_as_plan() {
    let commands_check = build_terraform_commands(&Action::Check, "backend-vars", "dev", &vec![]);
    let commands_plan = build_terraform_commands(&Action::Plan, "backend-vars", "dev", &vec![]);

    assert_eq!(commands_check, commands_plan);
}

#[test]
fn test_build_terraform_commands_diff_same_as_plan() {
    let commands_diff = build_terraform_commands(&Action::Diff, "backend-vars", "dev", &vec![]);
    let commands_plan = build_terraform_commands(&Action::Plan, "backend-vars", "dev", &vec![]);

    assert_eq!(commands_diff, commands_plan);
}

#[test]
fn test_build_terraform_commands_show() {
    let commands = build_terraform_commands(&Action::Show, "backend-vars", "dev", &vec![]);

    assert_eq!(commands.len(), 3);
    assert_eq!(commands[0], "tfswitch");
    assert_eq!(
        commands[1],
        "terraform init -reconfigure -backend-config=backend-vars/dev.tfvars"
    );
    assert_eq!(commands[2], "terraform show");
}

#[test]
fn test_build_terraform_commands_unlock() {
    let commands = build_terraform_commands(
        &Action::Unlock { lock_id: "abc-123".to_string() },
        "backend-vars",
        "dev",
        &vec![],
    );
    assert_eq!(commands.len(), 3);
    assert_eq!(commands[2], "terraform force-unlock -force abc-123");
}

#[test]
fn test_kustomize_commands() {
    assert_eq!(
        kustomize::get_command(&Action::Apply, "dev", &vec![]).unwrap(),
        "kustomize build overlays/dev | kubectl apply -f -"
    );
    assert_eq!(
        kustomize::get_command(&Action::Diff, "prod", &vec!["-n".to_string(), "x".to_string()])
            .unwrap(),
        "kustomize build overlays/prod | kubectl diff -n x -f - || test $? -eq 1"
    );
    assert_eq!(
        kustomize::get_command(&Action::Delete, "dev", &vec![]).unwrap(),
        "kustomize build overlays/dev | kubectl delete -f -"
    );
    assert!(matches!(
        kustomize::get_command(&Action::List, "dev", &vec![]),
        Err(CommandError::UnsupportedAction)
    ));
}

#[test]
fn test_ansible_commands() {
    assert_eq!(
        ansible::get_command(&Action::Apply, "dev", &vec![]).unwrap(),
        "ansible-playbook -i inventories/dev.*yml playbook.yml -D"
    );
    assert_eq!(
        ansible::get_command(&Action::Check, "prod", &vec!["-v".to_string()]).unwrap(),
        "ansible-playbook -i inventories/prod.*yml playbook.yml -DC -v"
    );
    assert_eq!(
        ansible::get_command(&Action::Deps, "dev", &vec![]).unwrap(),
        "ansible-galaxy install -r roles/requirements.yml -f"
    );
    // Listing the inventory is performed natively by the caller.
    assert_eq!(ansible::get_command(&Action::List, "dev", &vec![]).unwrap(), "");
    assert!(matches!(
        ansible::get_command(&Action::Show, "dev", &vec![]),
        Err(CommandError::UnsupportedAction)
    ));
}

#[test]
fn test_helm_commands() {
    assert_eq!(
        helm::get_command(&Action::Apply, "dev", &vec![]).unwrap(),
        Some("helmfile sync -e dev --skip-deps".to_string())
    );
    assert_eq!(
        helm::get_command(&Action::Diff, "prod", &vec!["--context".to_string()]).unwrap(),
        Some("helmfile diff -e prod --skip-deps --context".to_string())
    );
    assert_eq!(
        helm::get_command(&Action::Template, "dev", &vec![]).unwrap(),
        Some("helmfile template -e dev --skip-deps".to_string())
    );
    assert_eq!(
        helm::get_command(&Action::Destroy, "dev", &vec![]).unwrap(),
        Some("helmfile destroy -e dev --skip-deps".to_string())
    );
    assert_eq!(helm::get_command(&Action::Deps, "dev", &vec![]).unwrap(), None);
    assert!(matches!(
        helm::get_command(&Action::List, "dev", &vec![]),
        Err(CommandError::UnsupportedAction)
    ));
}

#[test]
fn test_helm_helper_commands() {
    assert_eq!(helm::deps_command("dev"), "helmfile deps -e dev");
    assert_eq!(
        helm::registry_login_command("europe-docker.pkg.dev"),
        "gcloud auth print-access-token | helm registry login -u oauth2accesstoken --password-stdin https://europe-docker.pkg.dev"
    );
    assert_eq!(helm::chart_archive_name("postgresql", "12.0.0"), "postgresql-12.0.0.tgz");
}

#[test]
fn test_helm_first_unsatisfied() {
    let chart = vec![
        ("a".to_string(), "1.0.0".to_string()),
        ("b".to_string(), "2.0.0".to_string()),
    ];
    let lock = vec![
        ("a".to_string(), "1.0.0".to_string()),
        ("b".to_string(), "2.0.0".to_string()),
    ];
    assert_eq!(helm::first_unsatisfied(&chart, &lock), None);

    let stale_lock = vec![
        ("a".to_string(), "1.0.0".to_string()),
        ("b".to_string(), "1.9.0".to_string()),
    ];
    assert_eq!(helm::first_unsatisfied(&chart, &stale_lock), Some(1));
    assert_eq!(helm::first_unsatisfied(&chart, &vec![]), Some(0));
}

#[test]
fn test_kustomize_template_spacing_is_exact() {
    // Template keeps one space before the (possibly empty) options.
    assert_eq!(
        kustomize::get_command(&Action::Template, "dev", &vec![]).unwrap(),
        "kustomize build overlays/dev "
    );
    assert_eq!(
        kustomize::get_command(&Action::Template, "dev", &vec!["-o".to_string()]).unwrap(),
        "kustomize build overlays/dev  -o"
    );
}
