use std::collections::BTreeMap;

use metaforge::backstage::CatalogInfo;
use metaforge::catalog_yaml::decode_catalog_info;
use metaforge::catalog_yaml::encode_catalog_info;
use metaforge::fs_model::FsSnapshot;

fn path(parts: &[&str]) -> Vec<String> {
    parts.iter().map(|s| s.to_string()).collect()
}

#[test]
fn test_new_catalog_info_defaults() {
    let c = CatalogInfo::new("myrepo");
    assert_eq!(c.api_version, "backstage.io/v1alpha1");
    assert_eq!(c.kind, "Component");
    assert_eq!(c.metadata.name, "myrepo");
    assert_eq!(
        c.metadata.description,
        "A Backstage catalog info file for the myrepo repository"
    );
    assert_eq!(c.metadata.annotations, BTreeMap::new());
    assert_eq!(c.metadata.tags, BTreeMap::new());
    assert_eq!(c.metadata.links.len(), 0);
    assert_eq!(c.spec_.lifecycle, "experimental");
    assert_eq!(c.spec_.owner, "test");
    assert_eq!(c.spec_.type_, "service");
    assert_eq!(c.spec_.system, Some("a_system".to_string()));
    assert_eq!(c.spec_.depends_on.len(), 0);
}

#[test]
fn test_get_returns_existing_descriptor_verbatim() {
    let mut existing = CatalogInfo::new("kept");
    existing.spec_.owner = "platform-team".to_string();
    existing.spec_.depends_on.push("bitbucket.org/bxbdigital/dep".to_string());
    let before = existing.clone();

    let resolved = CatalogInfo::get(Some(existing), "ignored-name");

    assert_eq!(resolved, before);
}

#[test]
fn test_get_synthesizes_when_absent() {
    let resolved = CatalogInfo::get(None, "fresh");
    assert_eq!(resolved.metadata.name, "fresh");
    assert_eq!(resolved.spec_.depends_on.len(), 0);
    assert_eq!(resolved, CatalogInfo::new("fresh"));
}

#[test]
fn test_catalog_file_exists_in_snapshot() {
    let with_file = FsSnapshot {
        dirs: vec![path(&["repo"]), path(&["repo", ".git"])],
        files: vec![path(&["repo", "catalog-info.yaml"])],
    };
    let without_file = FsSnapshot {
        dirs: vec![path(&["repo"]), path(&["repo", ".git"])],
        files: vec![path(&["repo", "other.yaml"])],
    };
    assert!(CatalogInfo::file_exists(&with_file, &path(&["repo"])));
    assert!(!CatalogInfo::file_exists(&without_file, &path(&["repo"])));
}

#[test]
fn test_encode_catalog_info_exact_text() {
    let c = CatalogInfo::new("myrepo");
    let text = encode_catalog_info(&c);
    let expected = "apiVersion: backstage.io/v1alpha1\nkind: Component\nmetadata:\n  name: myrepo\n  description: A Backstage catalog info file for the myrepo repository\n  annotations: {}\n  tags: {}\n  links: []\nspec:\n  lifecycle: experimental\n  owner: test\n  type: service\n  system: a_system\n  dependsOn: []\n";
    assert_eq!(text, expected);
}

#[test]
fn test_catalog_round_trip() {
    let c = CatalogInfo::new("myrepo");
    let text = encode_catalog_info(&c);
    let back = decode_catalog_info(&text).expect("canonical text must decode");
    assert_eq!(back, c);
}

#[test]
fn test_catalog_round_trip_empty_name() {
    let c = CatalogInfo::new("");
    let back = decode_catalog_info(&encode_catalog_info(&c)).expect("canonical text must decode");
    assert_eq!(back, c);
}

#[test]
fn test_catalog_round_trip_name_with_punctuation() {
    let c = CatalogInfo::new("team: svc #1");
    let back = decode_catalog_info(&encode_catalog_info(&c)).expect("canonical text must decode");
    assert_eq!(back, c);
}

#[test]
fn test_decode_rejects_other_layouts() {
    assert!(decode_catalog_info("nonsense").is_none());
    assert!(decode_catalog_info("").is_none());
    assert!(decode_catalog_info("apiVersion: v1\nkind: Component\n").is_none());
}

#[test]
fn test_encoded_descriptor_is_valid_yaml() {
    let c = CatalogInfo::new("myrepo");
    let text = encode_catalog_info(&c);
    let v: serde_yml::Value = serde_yml::from_str(&text).expect("the canonical text parses as a document");
    assert_eq!(v["apiVersion"], serde_yml::Value::String("backstage.io/v1alpha1".to_string()));
    assert_eq!(v["kind"], serde_yml::Value::String("Component".to_string()));
    assert_eq!(v["metadata"]["name"], serde_yml::Value::String("myrepo".to_string()));
    assert_eq!(v["spec"]["type"], serde_yml::Value::String("service".to_string()));
    assert_eq!(v["spec"]["system"], serde_yml::Value::String("a_system".to_string()));
}
