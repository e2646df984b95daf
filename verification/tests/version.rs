use palsphere::checker::{SuggestSearch, SuggestStep};
use palsphere::version::{key_less, version_key_of};

fn older(a: &str, b: &str) -> bool {
    key_less(&version_key_of(a), &version_key_of(b))
}

fn order(list: &[&str]) -> Vec<String> {
    let versions: Vec<String> = list.iter().map(|s| s.to_string()).collect();
    let mut s = SuggestSearch::new(&versions);
    let mut out = Vec::new();
    let blocked = palsphere::checker::check_result_at(
        &palsphere::types::Ecosystem::Npm,
        "p",
        "x".to_string(),
        vec![palsphere::types::Vulnerability {
            id: "A".to_string(),
            summary: None,
            severity: Some(palsphere::types::Severity::High),
            fixed_versions: Vec::new(),
            advisory_url: None,
        }],
        String::new(),
    );
    while let SuggestStep::CheckVersion(v) = s.next_step() {
        out.push(v);
        assert!(!s.record(&blocked));
    }
    out
}

#[test]
fn semver_precedence_chain() {
    let chain = [
        "1.0.0-alpha",
        "1.0.0-alpha.1",
        "1.0.0-alpha.beta",
        "1.0.0-beta",
        "1.0.0-beta.2",
        "1.0.0-beta.11",
        "1.0.0-rc.1",
        "1.0.0",
        "1.0.1",
        "1.9.0",
        "1.10.0",
        "2.0.0",
    ];
    for i in 0..chain.len() {
        for j in 0..chain.len() {
            assert_eq!(older(chain[i], chain[j]), i < j, "{} vs {}", chain[i], chain[j]);
        }
    }
}

#[test]
fn build_metadata_and_prefix_are_ignored() {
    assert!(!older("1.0.0+build.5", "1.0.0"));
    assert!(!older("1.0.0", "1.0.0+build.5"));
    assert!(!older("v1.2.3", "1.2.3"));
    assert!(!older("1.2.3", "v1.2.3"));
    assert!(older("v0.9.0", "v0.10.0"));
    assert!(older("v0.0.0-20230101-abcdef", "v0.1.0"));
}

#[test]
fn candidates_are_newest_first_whatever_the_list_order() {
    assert_eq!(order(&["2.0.0", "1.0.0"]), vec!["2.0.0", "1.0.0"]);
    assert_eq!(
        order(&["1.9.0", "1.10.0", "1.0.0-rc.1", "0.5.0", "1.0.0"]),
        vec!["1.10.0", "1.9.0", "1.0.0", "1.0.0-rc.1", "0.5.0"]
    );
}

#[test]
fn newest_allowed_is_accepted() {
    let versions: Vec<String> = ["2.0.0", "1.0.0"].iter().map(|s| s.to_string()).collect();
    let s = SuggestSearch::new(&versions);
    assert!(matches!(s.next_step(), SuggestStep::CheckVersion(ref v) if v == "2.0.0"));
}

#[test]
fn only_the_fifty_newest_are_checked() {
    let list: Vec<String> = (0..70).rev().map(|i| format!("0.{}.0", i)).collect();
    let refs: Vec<&str> = list.iter().map(|s| s.as_str()).collect();
    let out = order(&refs);
    assert_eq!(out.len(), 50);
    assert_eq!(out[0], "0.69.0");
    assert_eq!(out[49], "0.20.0");
}
