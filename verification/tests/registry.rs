use palsphere::registry::{go_latest_url, go_metadata, go_versions_url, npm_metadata, npm_registry_url};
use palsphere::types::Ecosystem;

#[test]
fn registry_urls() {
    assert_eq!(npm_registry_url("lodash"), "https://registry.npmjs.org/lodash");
    assert_eq!(go_latest_url("golang.org/x/crypto"), "https://proxy.golang.org/golang.org/x/crypto/@latest");
    assert_eq!(go_versions_url("golang.org/x/crypto"), "https://proxy.golang.org/golang.org/x/crypto/@v/list");
}

#[test]
fn npm_metadata_defaults() {
    let m = npm_metadata("lodash", None, None, vec!["1.0.0".to_string()]);
    assert_eq!(m.name, "lodash");
    assert_eq!(m.latest_version, "unknown");
    assert_eq!(m.ecosystem, Ecosystem::Npm);
    assert_eq!(m.versions, vec!["1.0.0"]);
}

#[test]
fn npm_metadata_from_answer() {
    let m = npm_metadata("lodash", Some("lodash-es".to_string()), Some("4.17.21".to_string()), Vec::new());
    assert_eq!(m.name, "lodash-es");
    assert_eq!(m.latest_version, "4.17.21");
    assert!(m.versions.is_empty());
}

#[test]
fn go_metadata_from_answers() {
    let m = go_metadata("golang.org/x/crypto", "v0.31.0".to_string(), "v0.1.0\nv0.2.0\n\nv0.31.0\n");
    assert_eq!(m.name, "golang.org/x/crypto");
    assert_eq!(m.ecosystem, Ecosystem::Go);
    assert_eq!(m.latest_version, "v0.31.0");
    assert_eq!(m.versions, vec!["v0.1.0", "v0.2.0", "v0.31.0"]);
}
