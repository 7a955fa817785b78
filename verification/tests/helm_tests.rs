//! Helm scanning, repository classification and the chart-update plan.

use mk::bump::helm::{
    classify_repository, plan_chart_update, scan_chart_content, versions_match, RepoKind,
    ScanError,
};
use mk::bump::registry::{resolve_index_body, RegistryError};
use mk::bump::{
    chart_dependency, error_chart_dependency, local_chart_dependency, partition_dependencies,
};

const CHART_YAML: &str = r#"apiVersion: v2
name: my-app
version: 1.0.0
appVersion: 2.3.4
dependencies:
  - name: postgresql
    version: 12.0.0
    repository: https://charts.bitnami.com/bitnami
  - name: local-lib
    version: 0.1.0
    repository: file://../local-lib
  - name: grafana
    version: 6.50.0
    repository: oci://ghcr.io/grafana/helm-charts
"#;

#[test]
fn test_scan_chart_content_reads_dependencies() {
    let decls = scan_chart_content(CHART_YAML).unwrap();
    assert_eq!(decls.len(), 3);
    assert_eq!(decls[0].name, "postgresql");
    assert_eq!(decls[0].version, "12.0.0");
    assert_eq!(decls[0].repository, "https://charts.bitnami.com/bitnami");
    assert_eq!(decls[0].line_number, 6);
    assert_eq!(decls[1].name, "local-lib");
    assert_eq!(decls[1].line_number, 9);
    assert_eq!(decls[2].name, "grafana");
}

#[test]
fn test_scan_chart_content_without_dependencies() {
    let decls = scan_chart_content("apiVersion: v2\nname: bare\nversion: 1.0.0\n").unwrap();
    assert!(decls.is_empty());
}

#[test]
fn test_scan_chart_content_missing_fields() {
    let missing_version = r#"dependencies:
  - name: postgresql
    repository: https://example.com
"#;
    assert!(matches!(
        scan_chart_content(missing_version),
        Err(ScanError::MissingVersion)
    ));
    let missing_name = r#"dependencies:
  - version: 1.0.0
    repository: https://example.com
"#;
    assert!(matches!(scan_chart_content(missing_name), Err(ScanError::MissingName)));
    let missing_repo = r#"dependencies:
  - name: postgresql
    version: 1.0.0
"#;
    assert!(matches!(
        scan_chart_content(missing_repo),
        Err(ScanError::MissingRepository)
    ));
}

#[test]
fn test_classify_repository() {
    assert!(matches!(classify_repository("file://../local"), RepoKind::Local));
    assert!(matches!(classify_repository("oci://ghcr.io/x/y"), RepoKind::Oci));
    assert!(matches!(
        classify_repository("https://charts.bitnami.com/bitnami"),
        RepoKind::Http
    ));
    assert!(matches!(classify_repository("http://plain.example.com"), RepoKind::Http));
}

#[test]
fn test_local_dependency_is_never_updatable() {
    // A local-file repository needs no network call and always reports
    // the declared version as the latest one.
    let decls = scan_chart_content(CHART_YAML).unwrap();
    let local = &decls[1];
    assert!(matches!(classify_repository(local.repository.as_str()), RepoKind::Local));
    let dep = local_chart_dependency(local, "Chart.yaml");
    assert_eq!(dep.current_version, dep.latest_version);
    assert_eq!(dep.current_version, "0.1.0");
    assert!(!dep.is_updatable());
}

#[test]
fn test_versions_match_strips_v_prefixes() {
    assert!(versions_match("1.2.3", "1.2.3"));
    assert!(versions_match("v1.2.3", "1.2.3"));
    assert!(versions_match("1.2.3", "v1.2.3"));
    assert!(versions_match("v1.2.3", "v1.2.3"));
    assert!(!versions_match("1.2.4", "1.2.3"));
}

#[test]
fn test_plan_chart_update_matches_parent_fields() {
    let plan = plan_chart_update(
        &Some("12.0.0".to_string()),
        &Some("12.0.0".to_string()),
        "12.0.0",
        true,
    );
    assert!(plan.set_parent_version);
    assert!(plan.set_parent_app_version);

    let untouched = plan_chart_update(
        &Some("1.0.0".to_string()),
        &Some("2.3.4".to_string()),
        "12.0.0",
        true,
    );
    assert!(!untouched.set_parent_version);
    assert!(!untouched.set_parent_app_version);

    // Without a newly resolved app version the appVersion field stays.
    let no_app = plan_chart_update(
        &Some("12.0.0".to_string()),
        &Some("12.0.0".to_string()),
        "12.0.0",
        false,
    );
    assert!(no_app.set_parent_version);
    assert!(!no_app.set_parent_app_version);
}

const INDEX_YAML: &str = r#"apiVersion: v1
entries:
  postgresql:
    - version: 12.0.0
      appVersion: 15.1.0
    - version: 13.0.0
      appVersion: 16.0.0
    - version: 14.0.0-beta.1
      appVersion: 17.0.0
  redis:
    - version: 17.0.0
"#;

#[test]
fn test_chart_resolution_end_to_end() {
    // The remote index reports 13.0.0 as the highest non-prerelease
    // version of postgresql.
    let (latest, app) = resolve_index_body(INDEX_YAML, "postgresql", false).unwrap();
    assert_eq!(latest, "13.0.0");
    assert_eq!(app, Some("16.0.0".to_string()));

    let decls = scan_chart_content(CHART_YAML).unwrap();
    let postgres = &decls[0];
    let dep = chart_dependency(postgres, "Chart.yaml", latest, app);

    let deps = vec![
        dep,
        local_chart_dependency(&decls[1], "Chart.yaml"),
        error_chart_dependency(&decls[2], "Chart.yaml", "no tags"),
    ];
    let (errored, up_to_date, updatable) = partition_dependencies(&deps);
    assert_eq!(errored.len(), 1);
    assert_eq!(up_to_date.len(), 1);
    assert_eq!(updatable.len(), 1);
    assert_eq!(updatable[0].name, "postgresql");
    assert_eq!(updatable[0].current_version, "12.0.0");
    assert_eq!(updatable[0].latest_version, "13.0.0");

    // The parent's own version and appVersion are untouched unless
    // they exactly matched the old dependency version.
    let plan = plan_chart_update(
        &Some("1.0.0".to_string()),
        &Some("2.3.4".to_string()),
        updatable[0].current_version.as_str(),
        true,
    );
    assert!(!plan.set_parent_version);
    assert!(!plan.set_parent_app_version);
}

#[test]
fn test_resolve_index_body_with_prereleases() {
    let (latest, app) = resolve_index_body(INDEX_YAML, "postgresql", true).unwrap();
    assert_eq!(latest, "14.0.0-beta.1");
    assert_eq!(app, Some("17.0.0".to_string()));
}

#[test]
fn test_resolve_index_body_without_app_version() {
    let (latest, app) = resolve_index_body(INDEX_YAML, "redis", false).unwrap();
    assert_eq!(latest, "17.0.0");
    assert_eq!(app, None);
}

#[test]
fn test_resolve_index_body_errors() {
    assert!(matches!(
        resolve_index_body(INDEX_YAML, "missing-chart", false),
        Err(RegistryError::ChartNotFound)
    ));
    assert!(matches!(
        resolve_index_body("entries:\n  postgresql: not-a-list\n", "postgresql", false),
        Err(RegistryError::InvalidEntries)
    ));
    assert!(matches!(
        resolve_index_body("", "postgresql", false),
        Err(RegistryError::EmptyIndex)
    ));
    assert!(matches!(
        resolve_index_body(
            "entries:\n  postgresql:\n    - version: latest\n",
            "postgresql",
            false
        ),
        Err(RegistryError::NoValidVersions)
    ));
}

#[test]
fn test_resolve_index_body_v_prefixed_entries() {
    let index = r#"entries:
  traefik:
    - version: v1.0.0
      appVersion: a1
    - version: v1.2.0
      appVersion: a2
"#;
    let (latest, app) = resolve_index_body(index, "traefik", false).unwrap();
    assert_eq!(latest, "v1.2.0");
    assert_eq!(app, Some("a2".to_string()));
}
