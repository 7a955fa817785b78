//! Dependency records, the resolution cache and partitioning.

use mk::bump::terraform::parse_terraform_modules;
use mk::bump::{
    apply_resolution, error_sentinel, is_error_version, partition_dependencies, plan_resolution,
    terraform_dependency, Dependency, DependencyType,
};

fn tf_dep(name: &str, source: &str, current: &str, latest: &str) -> Dependency {
    Dependency {
        name: name.to_string(),
        current_version: current.to_string(),
        latest_version: latest.to_string(),
        latest_app_version: None,
        file_path: "main.tf".to_string(),
        line_number: 1,
        dep_type: DependencyType::TerraformModule {
            source: source.to_string(),
            constraint: current.to_string(),
        },
    }
}

#[test]
fn test_error_sentinel_marks_failures() {
    let s = error_sentinel("no tags");
    assert_eq!(s, "ERROR: no tags");
    assert!(is_error_version(&s));
    assert!(!is_error_version("1.2.3"));
}

#[test]
fn test_cache_key_shapes() {
    let tf = tf_dep("vpc", "ns/net/gcp", "1.0.0", "1.0.0");
    assert_eq!(tf.cache_key(), "tf:ns/net/gcp");
    let chart = Dependency {
        name: "postgresql".to_string(),
        current_version: "12.0.0".to_string(),
        latest_version: "12.0.0".to_string(),
        latest_app_version: None,
        file_path: "Chart.yaml".to_string(),
        line_number: 1,
        dep_type: DependencyType::HelmChart {
            repository: "https://charts.bitnami.com/bitnami".to_string(),
        },
    };
    assert_eq!(chart.cache_key(), "helm:https://charts.bitnami.com/bitnami:postgresql");
}

#[test]
fn test_plan_resolution_deduplicates_identical_sources() {
    // Two projects declaring the same module source lead to exactly
    // one planned lookup; both records then share its result.
    let deps = vec![
        tf_dep("vpc", "ns/net/gcp", "1.0.0", ""),
        tf_dep("vpc", "ns/net/gcp", "0.9.0", ""),
        tf_dep("nat", "ns/nat/gcp", "2.0.0", ""),
    ];
    let keys = plan_resolution(&deps);
    assert_eq!(keys, vec!["tf:ns/net/gcp".to_string(), "tf:ns/nat/gcp".to_string()]);

    let values = vec!["1.2.0".to_string(), "2.5.0".to_string()];
    let resolved = apply_resolution(&deps, &keys, &values);
    assert_eq!(resolved[0].latest_version, "1.2.0");
    assert_eq!(resolved[1].latest_version, "1.2.0");
    assert_eq!(resolved[2].latest_version, "2.5.0");
    assert_eq!(resolved[0].current_version, "1.0.0");
    assert_eq!(resolved[1].current_version, "0.9.0");
}

#[test]
fn test_apply_resolution_is_stable_across_runs() {
    let deps = vec![tf_dep("vpc", "ns/net/gcp", "1.0.0", "")];
    let keys = plan_resolution(&deps);
    let values = vec!["1.2.0".to_string()];
    let first = apply_resolution(&deps, &keys, &values);
    let second = apply_resolution(&deps, &keys, &values);
    assert_eq!(first[0].latest_version, second[0].latest_version);
}

#[test]
fn test_partition_dependencies() {
    let deps = vec![
        tf_dep("a", "ns/a/p", "1.0.0", "1.0.0"),
        tf_dep("b", "ns/b/p", "1.0.0", "2.0.0"),
        tf_dep("c", "ns/c/p", "1.0.0", "ERROR: unreachable"),
        tf_dep("d", "ns/d/p", "3.0.0", "3.1.0"),
    ];
    let (errored, up_to_date, updatable) = partition_dependencies(&deps);
    assert_eq!(errored.len(), 1);
    assert_eq!(errored[0].name, "c");
    assert_eq!(up_to_date.len(), 1);
    assert_eq!(up_to_date[0].name, "a");
    assert_eq!(updatable.len(), 2);
    assert_eq!(updatable[0].name, "b");
    assert_eq!(updatable[1].name, "d");
}

#[test]
fn test_terraform_dependency_record() {
    let content = r#"
module "vpc" {
  source  = "ns/net/gcp"
  version = "~> 1.0"
}
"#;
    let decls = parse_terraform_modules(content);
    let dep = terraform_dependency(&decls[0], "env/main.tf", "1.4.0".to_string());
    assert_eq!(dep.name, "vpc");
    assert_eq!(dep.current_version, "1.0");
    assert_eq!(dep.latest_version, "1.4.0");
    assert_eq!(dep.file_path, "env/main.tf");
    assert_eq!(dep.line_number, 2);
    assert!(dep.latest_app_version.is_none());
    match &dep.dep_type {
        DependencyType::TerraformModule { source, constraint } => {
            assert_eq!(source, "ns/net/gcp");
            assert_eq!(constraint, "~> 1.0");
        },
        _ => panic!("expected a module dependency"),
    }
    assert!(dep.is_updatable());
}
