//! Registry endpoints, response-body resolution and OCI specifics.

use mk::bump::registry::{
    anonymous_token_urls, full_repository, index_url, module_registry_url, oci_token_plan,
    parse_oci_url, parse_token_response, resolve_module_versions, resolve_oci_tags, tags_url,
    RegistryError, TokenPlan,
};

#[test]
fn test_module_registry_url() {
    assert_eq!(
        module_registry_url("terraform-google-modules", "network", "google"),
        "https://registry.terraform.io/v1/modules/terraform-google-modules/network/google"
    );
}

#[test]
fn test_index_url_appends_when_needed() {
    assert_eq!(
        index_url("https://charts.bitnami.com/bitnami"),
        "https://charts.bitnami.com/bitnami/index.yaml"
    );
    assert_eq!(
        index_url("https://charts.bitnami.com/bitnami/"),
        "https://charts.bitnami.com/bitnami/index.yaml"
    );
    assert_eq!(
        index_url("https://charts.bitnami.com/bitnami/index.yaml"),
        "https://charts.bitnami.com/bitnami/index.yaml"
    );
}

#[test]
fn test_parse_oci_url() {
    let (host, path) = parse_oci_url("oci://ghcr.io/org/chart").unwrap();
    assert_eq!(host, "ghcr.io");
    assert_eq!(path, "org/chart");
    assert!(matches!(
        parse_oci_url("https://ghcr.io/org/chart"),
        Err(RegistryError::InvalidOciUrl)
    ));
    assert!(matches!(parse_oci_url("oci://hostonly"), Err(RegistryError::InvalidOciUrl)));
}

#[test]
fn test_full_repository_heuristics() {
    // The well-known container registry always takes the chart name.
    assert_eq!(
        full_repository("registry-1.docker.io", "bitnamicharts", "mariadb"),
        "bitnamicharts/mariadb"
    );
    // ghcr.io appends only when the path does not already end with it.
    assert_eq!(
        full_repository("ghcr.io", "grafana/helm-charts", "grafana-operator"),
        "grafana/helm-charts/grafana-operator"
    );
    assert_eq!(
        full_repository("ghcr.io", "prometheus-community/charts/prometheus", "prometheus"),
        "prometheus-community/charts/prometheus"
    );
    // Other hosts are queried at the declared path.
    assert_eq!(full_repository("quay.io", "org/app", "app"), "org/app");
}

#[test]
fn test_tags_url() {
    assert_eq!(
        tags_url("ghcr.io", "org/chart"),
        "https://ghcr.io/v2/org/chart/tags/list"
    );
}

#[test]
fn test_anonymous_token_urls() {
    let docker = anonymous_token_urls("registry-1.docker.io", "bitnamicharts/mariadb");
    assert_eq!(
        docker,
        vec![
            "https://auth.docker.io/token?service=registry.docker.io&scope=repository:bitnamicharts/mariadb:pull"
                .to_string(),
        ]
    );
    let other = anonymous_token_urls("ghcr.io", "org/chart");
    assert_eq!(
        other,
        vec![
            "https://ghcr.io/token?scope=repository:org/chart:pull".to_string(),
            "https://ghcr.io/v2/token?scope=repository:org/chart:pull".to_string(),
        ]
    );
}

#[test]
fn test_oci_token_plan_precedence() {
    let plan = oci_token_plan(&Some("tok".to_string()), &Some("cmd".to_string()));
    assert!(matches!(plan, TokenPlan::UseToken(t) if t == "tok"));
    let plan = oci_token_plan(&None, &Some("cmd".to_string()));
    assert!(matches!(plan, TokenPlan::RunCommand(c) if c == "cmd"));
    let plan = oci_token_plan(&None, &None);
    assert!(matches!(plan, TokenPlan::Anonymous));
}

#[test]
fn test_resolve_module_versions_from_json() {
    let body = r#"{"versions": ["1.9.0", "1.10.0", "2.0.0-rc.1"]}"#;
    assert_eq!(resolve_module_versions(body, false).unwrap(), "1.10.0");
    assert_eq!(resolve_module_versions(body, true).unwrap(), "2.0.0-rc.1");
}

#[test]
fn test_resolve_module_versions_bad_bodies() {
    assert!(matches!(
        resolve_module_versions("not json", false),
        Err(RegistryError::BadBody)
    ));
    assert!(matches!(
        resolve_module_versions(r#"{"no_versions": []}"#, false),
        Err(RegistryError::BadBody)
    ));
    assert!(matches!(
        resolve_module_versions(r#"{"versions": ["latest"]}"#, false),
        Err(RegistryError::NoValidVersions)
    ));
}

#[test]
fn test_resolve_oci_tags_from_json() {
    let body = r#"{"tags": ["v1.0.0", "v1.2.0", "latest"]}"#;
    assert_eq!(resolve_oci_tags(body, false).unwrap(), "v1.2.0");
    assert!(matches!(resolve_oci_tags("{}", false), Err(RegistryError::BadBody)));
}

#[test]
fn test_parse_token_response() {
    assert_eq!(
        parse_token_response(r#"{"token": "abc"}"#),
        Some("abc".to_string())
    );
    assert_eq!(
        parse_token_response(r#"{"access_token": "xyz"}"#),
        Some("xyz".to_string())
    );
    assert_eq!(
        parse_token_response(r#"{"token": "abc", "access_token": "xyz"}"#),
        Some("abc".to_string())
    );
    assert_eq!(parse_token_response(r#"{"other": 1}"#), None);
    assert_eq!(parse_token_response("not json"), None);
}
