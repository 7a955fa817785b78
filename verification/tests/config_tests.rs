//! Configuration, technology selection, context mappings and drift
//! summaries.

use mk::commands::Action;
use mk::config::{default_max_depth, lookup_oci_auth, BumpConfig, Config, OciRegistryAuth};
use mk::context::{normalize_git_url, ContextConfig};
use mk::drift::{classify_exit_code, drift_filter_matches, generate_summary, DriftResult, DriftStatus, DriftSummary};
use mk::techno::{detect_from_markers, pick_by_priority, Technology};

#[test]
fn test_config_default() {
    let config = Config::default();
    assert!(config.technology_priority.is_empty());
    assert!(config.get_technology_priority().is_none());
    assert_eq!(config.bump.max_depth, 5);
    assert_eq!(default_max_depth(), 5);
}

#[test]
fn test_config_parse_priorities() {
    let config = Config {
        technology_priority: vec!["terraform".to_string(), "ansible".to_string()],
        bump: BumpConfig::default(),
        context: ContextConfig::default(),
    };

    let priorities = config.get_technology_priority().unwrap();
    assert_eq!(priorities.len(), 2);
    assert_eq!(priorities[0], Technology::Terraform);
    assert_eq!(priorities[1], Technology::Ansible);
}

#[test]
fn test_config_case_insensitive() {
    let config = Config {
        technology_priority: vec!["Terraform".to_string(), "ANSIBLE".to_string()],
        bump: BumpConfig::default(),
        context: ContextConfig::default(),
    };

    let priorities = config.get_technology_priority().unwrap();
    assert_eq!(priorities.len(), 2);
    assert_eq!(priorities[0], Technology::Terraform);
    assert_eq!(priorities[1], Technology::Ansible);
}

#[test]
fn test_config_ignores_unknown() {
    let config = Config {
        technology_priority: vec![
            "terraform".to_string(),
            "unknown".to_string(),
            "ansible".to_string(),
        ],
        bump: BumpConfig::default(),
        context: ContextConfig::default(),
    };

    let priorities = config.get_technology_priority().unwrap();
    assert_eq!(priorities.len(), 2);
    assert_eq!(priorities[0], Technology::Terraform);
    assert_eq!(priorities[1], Technology::Ansible);
}

#[test]
fn test_lookup_oci_auth_finds_first_entry() {
    let registries = vec![
        (
            "ghcr.io".to_string(),
            OciRegistryAuth { token: Some("tok".to_string()), command: None },
        ),
        (
            "registry.gitlab.com".to_string(),
            OciRegistryAuth { token: None, command: Some("get-token".to_string()) },
        ),
    ];
    assert_eq!(lookup_oci_auth(&registries, "ghcr.io"), Some(0));
    assert_eq!(lookup_oci_auth(&registries, "registry.gitlab.com"), Some(1));
    assert_eq!(lookup_oci_auth(&registries, "quay.io"), None);
}

#[test]
fn test_normalize_git_url_ssh() {
    let url = "git@github.com:user/repo.git";
    let result = normalize_git_url(url);
    assert_eq!(result, "github.com/user/repo");
}

#[test]
fn test_normalize_git_url_https() {
    let url = "https://github.com/user/repo.git";
    let result = normalize_git_url(url);
    assert_eq!(result, "github.com/user/repo");
}

#[test]
fn test_normalize_git_url_ssh_protocol() {
    let url = "ssh://git@gitlab.com/user/repo.git";
    let result = normalize_git_url(url);
    assert_eq!(result, "gitlab.com/user/repo");
}

#[test]
fn test_normalize_git_url_without_git_suffix() {
    let url = "git@github.com:user/repo";
    let result = normalize_git_url(url);
    assert_eq!(result, "github.com/user/repo");
}

#[test]
fn test_normalize_git_url_http() {
    let url = "http://github.com/user/repo.git";
    let result = normalize_git_url(url);
    assert_eq!(result, "github.com/user/repo");
}

#[test]
fn test_context_config_get_mapping() {
    let mut config = ContextConfig::default();
    config.set_mapping("github.com/user/repo", "prod", "gke-prod");

    assert_eq!(
        config.get_mapping("github.com/user/repo", "prod"),
        Some("gke-prod".to_string())
    );
    assert_eq!(config.get_mapping("github.com/user/repo", "staging"), None);
    assert_eq!(config.get_mapping("other/repo", "prod"), None);
}

#[test]
fn test_context_config_set_mapping() {
    let mut config = ContextConfig::default();
    config.set_mapping("repo1", "env1", "context1");
    config.set_mapping("repo1", "env2", "context2");
    config.set_mapping("repo2", "env1", "context3");

    assert_eq!(config.mappings.len(), 2);
    assert_eq!(config.mappings[0].1.len(), 2);
    assert_eq!(config.mappings[1].1.len(), 1);
    assert_eq!(config.get_mapping("repo1", "env2"), Some("context2".to_string()));

    config.set_mapping("repo1", "env2", "context2b");
    assert_eq!(config.mappings[0].1.len(), 2);
    assert_eq!(config.get_mapping("repo1", "env2"), Some("context2b".to_string()));
    assert_eq!(config.get_mapping("repo1", "env1"), Some("context1".to_string()));
}

#[test]
fn test_technology_as_str() {
    assert_eq!(Technology::Terraform.as_str(), "terraform");
    assert_eq!(Technology::Helm.as_str(), "helm");
    assert_eq!(Technology::Kustomize.as_str(), "kustomize");
    assert_eq!(Technology::Ansible.as_str(), "ansible");
}

#[test]
fn test_technology_display() {
    assert_eq!(Technology::Terraform.as_str().to_string(), "terraform");
    assert_eq!(Technology::Helm.as_str().to_string(), "helm");
    assert_eq!(Technology::Kustomize.as_str().to_string(), "kustomize");
    assert_eq!(Technology::Ansible.as_str().to_string(), "ansible");
}

#[test]
fn test_supports_action_table() {
    assert!(Technology::Terraform.supports_action(&Action::Plan));
    assert!(Technology::Terraform.supports_action(&Action::Show));
    assert!(!Technology::Terraform.supports_action(&Action::List));
    assert!(Technology::Helm.supports_action(&Action::Template));
    assert!(!Technology::Helm.supports_action(&Action::Plan));
    assert!(Technology::Ansible.supports_action(&Action::List));
    assert!(!Technology::Ansible.supports_action(&Action::Template));
    assert!(Technology::Kustomize.supports_action(&Action::Apply));
    assert!(!Technology::Kustomize.supports_action(&Action::Deps));
}

#[test]
fn test_detect_from_markers_precedence() {
    assert_eq!(detect_from_markers(true, false, true, true), Some(Technology::Ansible));
    assert_eq!(detect_from_markers(false, true, true, true), Some(Technology::Terraform));
    assert_eq!(detect_from_markers(false, false, true, true), Some(Technology::Helm));
    assert_eq!(detect_from_markers(false, false, false, true), Some(Technology::Kustomize));
    assert_eq!(detect_from_markers(false, false, false, false), None);
}

#[test]
fn test_pick_by_priority() {
    let cands = vec![Technology::Helm, Technology::Terraform, Technology::Helm];
    let prios = vec![Technology::Terraform, Technology::Helm];
    assert_eq!(pick_by_priority(&cands, &prios), Some(1));
    let prios = vec![Technology::Kustomize, Technology::Helm];
    assert_eq!(pick_by_priority(&cands, &prios), Some(0));
    let prios = vec![Technology::Kustomize, Technology::Ansible];
    assert_eq!(pick_by_priority(&cands, &prios), None);
}

#[test]
fn test_classify_exit_code() {
    assert_eq!(classify_exit_code(0), (true, false));
    assert_eq!(classify_exit_code(2), (false, true));
    assert_eq!(classify_exit_code(1), (false, false));
}

#[test]
fn test_drift_filter() {
    assert!(drift_filter_matches(Technology::Terraform, &None));
    assert!(drift_filter_matches(Technology::Helm, &None));
    assert!(!drift_filter_matches(Technology::Ansible, &None));
    assert!(drift_filter_matches(Technology::Terraform, &Some("Terraform".to_string())));
    assert!(!drift_filter_matches(Technology::Helm, &Some("terraform".to_string())));
}

fn result(path: &str, env: &str, status: DriftStatus) -> DriftResult {
    DriftResult {
        path: path.to_string(),
        environment: env.to_string(),
        technology: Technology::Terraform,
        status,
        output: None,
    }
}

#[test]
fn test_generate_summary() {
    let results = vec![
        result("stacks/a", "dev", DriftStatus::Clean),
        result("stacks/a", "prod", DriftStatus::Drift),
        result("stacks/b", "dev", DriftStatus::Error("plan failed".to_string())),
        result("stacks/c", "dev", DriftStatus::Clean),
    ];
    let summary: DriftSummary = generate_summary(&results);
    assert_eq!(summary.ok_count, 2);
    assert_eq!(summary.drift_count, 1);
    assert_eq!(summary.error_count, 1);
    assert_eq!(summary.drift_items, vec!["stacks/a (prod)".to_string()]);
    assert_eq!(
        summary.error_items,
        vec![("stacks/b (dev)".to_string(), "plan failed".to_string())]
    );
}
