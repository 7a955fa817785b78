//! Terraform scanning: constraint extraction, module-block parsing and
//! in-place rewriting.

use mk::bump::terraform::{
    extract_version_from_constraint, parse_terraform_modules, rewrite_constraint,
    update_terraform_module,
};

#[test]
fn test_extract_version_from_constraint_exact() {
    assert_eq!(extract_version_from_constraint("1.0.0"), "1.0.0");
    assert_eq!(extract_version_from_constraint("2.5.3"), "2.5.3");
}

#[test]
fn test_extract_version_from_constraint_pessimistic() {
    assert_eq!(extract_version_from_constraint("~> 5.0"), "5.0");
    assert_eq!(extract_version_from_constraint("~> 7.0"), "7.0");
    assert_eq!(extract_version_from_constraint("~> 1.2.3"), "1.2.3");
}

#[test]
fn test_extract_version_from_constraint_gte() {
    assert_eq!(extract_version_from_constraint(">= 4.0.0"), "4.0.0");
    assert_eq!(extract_version_from_constraint(">= 1.2"), "1.2");
}

#[test]
fn test_extract_version_from_constraint_gt() {
    assert_eq!(extract_version_from_constraint("> 3.0"), "3.0");
    assert_eq!(extract_version_from_constraint("> 2.5.1"), "2.5.1");
}

#[test]
fn test_extract_version_without_version_shape() {
    assert_eq!(extract_version_from_constraint("latest"), "latest");
    assert_eq!(extract_version_from_constraint(""), "");
}

#[test]
fn test_rewrite_constraint_preserves_operator() {
    assert_eq!(rewrite_constraint("~> 7.0", "8.0.0"), "~> 8.0.0");
    assert_eq!(rewrite_constraint(">= 4.0.0", "5.0.0"), ">= 5.0.0");
    assert_eq!(rewrite_constraint("> 3.0", "4.0.0"), "> 4.0.0");
    assert_eq!(rewrite_constraint("5.0.0", "6.0.0"), "6.0.0");
}

const VPC_CONTENT: &str = r#"
module "vpc" {
  source  = "terraform-google-modules/network/google"
  version = "~> 7.0"
  project_id = "test"
}
"#;

#[test]
fn test_update_terraform_module_preserves_constraint_operator() {
    let updated = update_terraform_module(
        VPC_CONTENT,
        "terraform-google-modules/network/google",
        "~> 7.0",
        "8.0.0",
    );
    assert!(updated.contains(r#"version = "~> 8.0.0""#));

    let nat_content = r#"
module "nat" {
  source  = "terraform-google-modules/cloud-nat/google"
  version = ">= 4.0.0"
  project_id = "test"
}
"#;
    let updated = update_terraform_module(
        nat_content,
        "terraform-google-modules/cloud-nat/google",
        ">= 4.0.0",
        "5.0.0",
    );
    assert!(updated.contains(r#"version = ">= 5.0.0""#));
}

#[test]
fn test_update_terraform_module_exact_version() {
    let content = r#"
module "bastion" {
  source  = "terraform-google-modules/bastion-host/google"
  version = "5.0.0"
  project_id = "test"
}
"#;
    let updated = update_terraform_module(
        content,
        "terraform-google-modules/bastion-host/google",
        "5.0.0",
        "6.0.0",
    );
    assert!(updated.contains(r#"version = "6.0.0""#));
}

#[test]
fn test_update_terraform_module_touches_only_matching_block() {
    let content = r#"module "a" {
  source  = "ns/mod-a/gcp"
  version = "1.0.0"
}
module "b" {
  source  = "ns/mod-b/gcp"
  version = "1.0.0"
}
"#;
    let updated = update_terraform_module(content, "ns/mod-b/gcp", "1.0.0", "2.0.0");
    let expected = r#"module "a" {
  source  = "ns/mod-a/gcp"
  version = "1.0.0"
}
module "b" {
  source  = "ns/mod-b/gcp"
  version = "2.0.0"
}
"#;
    assert_eq!(updated, expected);
}

#[test]
fn test_update_terraform_module_without_match_keeps_content() {
    let updated = update_terraform_module(VPC_CONTENT, "ns/other/google", "~> 7.0", "8.0.0");
    assert_eq!(updated, VPC_CONTENT);
}

#[test]
fn test_parse_terraform_modules_extracts_declarations() {
    let content = r#"
module "vpc" {
  source  = "terraform-google-modules/network/google"
  version = "~> 7.0"
}

module "nat" {
  source  = "terraform-google-modules/cloud-nat/google"
  version = ">= 4.0.0"
}
"#;
    let decls = parse_terraform_modules(content);
    assert_eq!(decls.len(), 2);
    assert_eq!(decls[0].name, "vpc");
    assert_eq!(decls[0].source, "terraform-google-modules/network/google");
    assert_eq!(decls[0].constraint, "~> 7.0");
    assert_eq!(decls[0].current_version, "7.0");
    assert_eq!(decls[0].namespace, "terraform-google-modules");
    assert_eq!(decls[0].module_name, "network");
    assert_eq!(decls[0].provider, "google");
    assert_eq!(decls[0].line_number, 2);
    assert_eq!(decls[1].name, "nat");
    assert_eq!(decls[1].current_version, "4.0.0");
    assert_eq!(decls[1].line_number, 7);
}

#[test]
fn test_parse_terraform_modules_skips_local_and_vcs_sources() {
    let content = r#"
module "local" {
  source  = "./modules/local"
  version = "1.0.0"
}
module "vcs" {
  source  = "git::https://example.com/repo.git"
  version = "1.0.0"
}
module "registry" {
  source  = "ns/name/provider"
  version = "1.0.0"
}
"#;
    let decls = parse_terraform_modules(content);
    assert_eq!(decls.len(), 1);
    assert_eq!(decls[0].name, "registry");
}

#[test]
fn test_parse_terraform_modules_strips_submodule_path() {
    let content = r#"
module "sub" {
  source  = "ns/name/provider//modules/inner"
  version = "2.0.0"
}
"#;
    let decls = parse_terraform_modules(content);
    assert_eq!(decls.len(), 1);
    assert_eq!(decls[0].source, "ns/name/provider//modules/inner");
    assert_eq!(decls[0].namespace, "ns");
    assert_eq!(decls[0].module_name, "name");
    assert_eq!(decls[0].provider, "provider");
}

#[test]
fn test_parse_terraform_modules_requires_source_and_version() {
    let content = r#"
module "no_version" {
  source  = "ns/name/provider"
}
module "no_source" {
  version = "1.0.0"
}
"#;
    let decls = parse_terraform_modules(content);
    assert!(decls.is_empty());
}
