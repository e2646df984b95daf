use palsphere::advisory::{
    extract_fixed_versions, map_severity, to_vulnerabilities, to_vulnerability, OsvAffected, OsvEvent,
    OsvRange, OsvSeverity, OsvVuln,
};
use palsphere::types::Severity;

fn record(id: &str) -> OsvVuln {
    OsvVuln { id: id.to_string(), summary: None, github_severity: None, severity: None, affected: None }
}

fn score(kind: &str, rating: Option<Severity>) -> OsvSeverity {
    OsvSeverity { severity_type: kind.to_string(), score_rating: rating }
}

fn fixed(v: &str) -> OsvEvent {
    OsvEvent { introduced: None, fixed: Some(v.to_string()) }
}

fn introduced(v: &str) -> OsvEvent {
    OsvEvent { introduced: Some(v.to_string()), fixed: None }
}

fn range(events: Vec<OsvEvent>) -> OsvRange {
    OsvRange { range_type: "SEMVER".to_string(), events }
}

#[test]
fn github_labels() {
    let cases = [
        ("CRITICAL", Severity::Critical),
        ("HIGH", Severity::High),
        ("MODERATE", Severity::Medium),
        ("LOW", Severity::Low),
        ("moderate", Severity::Unknown),
        ("MEDIUM", Severity::Unknown),
    ];
    for (label, expected) in cases {
        let mut v = record("GHSA-1");
        v.github_severity = Some(label.to_string());
        assert_eq!(map_severity(&v), Some(expected), "label {}", label);
    }
}

#[test]
fn github_label_wins_over_cvss() {
    let mut v = record("GHSA-2");
    v.github_severity = Some("LOW".to_string());
    v.severity = Some(vec![score("CVSS_V3", Some(Severity::Critical))]);
    assert_eq!(map_severity(&v), Some(Severity::Low));
}

#[test]
fn first_rated_cvss_v3_score() {
    let mut v = record("GO-1");
    v.severity = Some(vec![
        score("CVSS_V2", Some(Severity::High)),
        score("CVSS_V3", None),
        score("CVSS_V3", Some(Severity::Low)),
        score("CVSS_V3", Some(Severity::Critical)),
    ]);
    assert_eq!(map_severity(&v), Some(Severity::Low));
}

#[test]
fn no_severity() {
    assert_eq!(map_severity(&record("X")), None);
    let mut v = record("Y");
    v.severity = Some(vec![score("CVSS_V2", Some(Severity::High)), score("CVSS_V4", Some(Severity::Low))]);
    assert_eq!(map_severity(&v), None);
}

#[test]
fn fixed_versions_in_order() {
    let mut v = record("GHSA-3");
    v.affected = Some(vec![
        OsvAffected { ranges: Some(vec![range(vec![introduced("0"), fixed("1.2.0")]), range(vec![fixed("2.0.0")])]) },
        OsvAffected { ranges: None },
        OsvAffected { ranges: Some(vec![range(vec![introduced("3.0.0"), fixed("3.1.0"), introduced("4.0.0")])]) },
    ]);
    assert_eq!(extract_fixed_versions(&v), vec!["1.2.0", "2.0.0", "3.1.0"]);
}

#[test]
fn no_fixed_versions() {
    assert!(extract_fixed_versions(&record("A")).is_empty());
    let mut v = record("B");
    v.affected = Some(vec![OsvAffected { ranges: Some(vec![range(vec![introduced("0")])]) }]);
    assert!(extract_fixed_versions(&v).is_empty());
}

#[test]
fn vulnerability_from_record() {
    let mut v = record("GHSA-abcd");
    v.summary = Some("Prototype pollution".to_string());
    v.github_severity = Some("HIGH".to_string());
    v.affected = Some(vec![OsvAffected { ranges: Some(vec![range(vec![fixed("4.17.21")])]) }]);
    let r = to_vulnerability(&v);
    assert_eq!(r.id, "GHSA-abcd");
    assert_eq!(r.summary.as_deref(), Some("Prototype pollution"));
    assert_eq!(r.severity, Some(Severity::High));
    assert_eq!(r.fixed_versions, vec!["4.17.21"]);
    assert_eq!(r.advisory_url.as_deref(), Some("https://osv.dev/vulnerability/GHSA-abcd"));
}

#[test]
fn vulnerabilities_one_per_record() {
    let list = vec![record("A-1"), record("B-2")];
    let r = to_vulnerabilities(&list);
    assert_eq!(r.len(), 2);
    assert_eq!(r[0].id, "A-1");
    assert_eq!(r[1].id, "B-2");
    assert_eq!(r[1].advisory_url.as_deref(), Some("https://osv.dev/vulnerability/B-2"));
}
