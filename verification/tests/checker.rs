use palsphere::checker::{
    calculate_risk_score, check_result, check_result_at, compare_results, highest_severity,
    no_safe_version, recommendation_for, requests_latest, SuggestSearch, SuggestStep,
};
use palsphere::types::{CheckResult, Ecosystem, Recommendation, Severity, Vulnerability};

fn vuln(id: &str, severity: Option<Severity>) -> Vulnerability {
    Vulnerability {
        id: id.to_string(),
        summary: None,
        severity,
        fixed_versions: Vec::new(),
        advisory_url: None,
    }
}

fn check(version: &str, vulns: Vec<Vulnerability>) -> CheckResult {
    check_result_at(&Ecosystem::Npm, "lodash", version.to_string(), vulns, "2024-01-01T00:00:00+00:00".to_string())
}

#[test]
fn highest_is_most_severe() {
    let v = vec![
        vuln("A", Some(Severity::Low)),
        vuln("B", None),
        vuln("C", Some(Severity::High)),
        vuln("D", Some(Severity::Medium)),
    ];
    assert_eq!(highest_severity(&v), Some(Severity::High));
    assert_eq!(highest_severity(&[vuln("A", Some(Severity::Unknown)), vuln("B", Some(Severity::Low))]), Some(Severity::Unknown));
    assert_eq!(highest_severity(&[vuln("A", Some(Severity::Medium)), vuln("B", Some(Severity::Unknown))]), Some(Severity::Unknown));
    assert_eq!(highest_severity(&[vuln("A", Some(Severity::Unknown)), vuln("B", Some(Severity::High))]), Some(Severity::High));
    assert_eq!(highest_severity(&[vuln("A", None)]), None);
    assert_eq!(highest_severity(&[]), None);
}

#[test]
fn recommendations() {
    assert_eq!(recommendation_for(Some(Severity::Critical)), Recommendation::Block);
    assert_eq!(recommendation_for(Some(Severity::High)), Recommendation::Block);
    assert_eq!(recommendation_for(Some(Severity::Medium)), Recommendation::Review);
    assert_eq!(recommendation_for(Some(Severity::Unknown)), Recommendation::Review);
    assert_eq!(recommendation_for(Some(Severity::Low)), Recommendation::Allow);
    assert_eq!(recommendation_for(None), Recommendation::Allow);
}

#[test]
fn risk_of_nothing_is_zero() {
    assert_eq!(calculate_risk_score(&[]), 0);
}

#[test]
fn risk_scores() {
    let v = vec![
        vuln("A", Some(Severity::Low)),
        vuln("B", None),
        vuln("C", Some(Severity::High)),
        vuln("D", Some(Severity::Medium)),
    ];
    assert_eq!(calculate_risk_score(&v), 80);
    assert_eq!(calculate_risk_score(&[vuln("A", None)]), 45);
    assert_eq!(calculate_risk_score(&[vuln("A", Some(Severity::Low))]), 25);
    assert_eq!(calculate_risk_score(&[vuln("A", Some(Severity::Unknown))]), 45);
}

#[test]
fn unknown_outweighs_low() {
    let r = check("1.0.0", vec![vuln("A", Some(Severity::Low)), vuln("B", Some(Severity::Unknown))]);
    assert_eq!(r.highest_severity, Some(Severity::Unknown));
    assert_eq!(r.recommendation, Recommendation::Review);
    assert!(!r.safe_to_use);
    assert_eq!(r.risk_score, 50);
    let mut v: Vec<Vulnerability> = (0..9).map(|i| vuln(&format!("L-{}", i), Some(Severity::Low))).collect();
    v.push(vuln("U", Some(Severity::Unknown)));
    assert_eq!(calculate_risk_score(&v), 90);
    let r = check("1.0.0", vec![vuln("A", Some(Severity::Medium)), vuln("B", Some(Severity::Unknown))]);
    assert!(r.summary.ends_with("including unknown severity. Review this version."), "{}", r.summary);
}

#[test]
fn adding_a_rated_record_does_not_lower_risk() {
    let one = vec![vuln("U", Some(Severity::Unknown))];
    let two = vec![vuln("U", Some(Severity::Unknown)), vuln("L", Some(Severity::Low))];
    assert_eq!(calculate_risk_score(&one), 45);
    assert_eq!(calculate_risk_score(&two), 50);
}

#[test]
fn risk_is_capped() {
    let v: Vec<Vulnerability> = (0..12).map(|i| vuln(&format!("C-{}", i), Some(Severity::Critical))).collect();
    assert_eq!(calculate_risk_score(&v), 100);
}

#[test]
fn risk_counts_records_modulo_a_byte() {
    let v: Vec<Vulnerability> = (0..256).map(|i| vuln(&format!("L-{}", i), Some(Severity::Low))).collect();
    assert_eq!(calculate_risk_score(&v), 20);
    let v: Vec<Vulnerability> = (0..259).map(|i| vuln(&format!("L-{}", i), Some(Severity::Low))).collect();
    assert_eq!(calculate_risk_score(&v), 35);
}

#[test]
fn check_with_findings() {
    let r = check("4.17.20", vec![vuln("GHSA-1", Some(Severity::Critical)), vuln("GHSA-2", Some(Severity::Low))]);
    assert_eq!(r.ecosystem, "npm");
    assert_eq!(r.package, "lodash");
    assert_eq!(r.version, "4.17.20");
    assert_eq!(r.latest_version, None);
    assert!(r.known_vulnerabilities_found);
    assert!(!r.safe_to_use);
    assert_eq!(r.risk_score, 90);
    assert_eq!(r.recommendation, Recommendation::Block);
    assert_eq!(r.reason, "Found 2 known vulnerability records.");
    assert_eq!(
        r.summary,
        "npm lodash version 4.17.20 has 2 known vulnerabilities, including critical severity. Block this version."
    );
    assert_eq!(r.vulnerability_count, 2);
    assert_eq!(r.highest_severity, Some(Severity::Critical));
    assert_eq!(r.vulnerabilities.len(), 2);
    assert_eq!(r.checked_at, "2024-01-01T00:00:00+00:00");
}

#[test]
fn check_without_findings() {
    let r = check("4.17.21", Vec::new());
    assert!(!r.known_vulnerabilities_found);
    assert!(r.safe_to_use);
    assert_eq!(r.risk_score, 0);
    assert_eq!(r.recommendation, Recommendation::Allow);
    assert_eq!(r.reason, "No known vulnerabilities found in OSV database.");
    assert_eq!(r.summary, "npm lodash version 4.17.21 has no known vulnerabilities.");
    assert_eq!(r.highest_severity, None);
}

#[test]
fn check_with_unrated_findings() {
    let r = check_result_at(&Ecosystem::Go, "golang.org/x/crypto", "v0.1.0".to_string(), vec![vuln("GO-1", None)], String::new());
    assert_eq!(r.ecosystem, "Go");
    assert_eq!(r.recommendation, Recommendation::Allow);
    assert!(r.safe_to_use);
    assert_eq!(r.risk_score, 45);
    assert_eq!(
        r.summary,
        "Go golang.org/x/crypto version v0.1.0 has 1 known vulnerabilities, including unknown severity. Allow this version."
    );
}

#[test]
fn check_for_review() {
    let r = check("1.0.0", vec![vuln("A", Some(Severity::Medium))]);
    assert_eq!(r.recommendation, Recommendation::Review);
    assert!(!r.safe_to_use);
    assert_eq!(r.risk_score, 45);
    assert!(r.summary.ends_with("including medium severity. Review this version."));
}

#[test]
fn check_is_stamped_in_utc() {
    let r = check_result(&Ecosystem::Npm, "lodash", "1.0.0".to_string(), Vec::new(), 0, 0);
    assert_eq!(r.checked_at, "1970-01-01T00:00:00+00:00");
    assert_eq!(r.risk_score, 0);
    let r = check_result(&Ecosystem::Npm, "lodash", "1.0.0".to_string(), Vec::new(), 1_700_000_000, 500_000_000);
    assert_eq!(r.checked_at, "2023-11-14T22:13:20.500+00:00");
    let r = check_result(&Ecosystem::Npm, "lodash", "1.0.0".to_string(), Vec::new(), 1_700_000_000, 123_456_789);
    assert_eq!(r.checked_at, "2023-11-14T22:13:20.123456789+00:00");
    let r = check_result(&Ecosystem::Npm, "lodash", "1.0.0".to_string(), Vec::new(), 1_700_000_000, 120_000);
    assert_eq!(r.checked_at, "2023-11-14T22:13:20.000120+00:00");
}

#[test]
fn check_stamp_in_five_digit_years() {
    let r = check_result(&Ecosystem::Go, "m", "v1.0.0".to_string(), Vec::new(), 253_402_300_800, 0);
    assert_eq!(r.checked_at, "+10000-01-01T00:00:00+00:00");
    let r = check_result(&Ecosystem::Go, "m", "v1.0.0".to_string(), Vec::new(), palsphere::clock::MAX_TIMESTAMP, 0);
    assert_eq!(r.checked_at, "+262142-12-31T23:59:59+00:00");
}

#[test]
fn compare_reports_resolved_and_added() {
    let from = check("1.0.0", vec![
        vuln("A", Some(Severity::High)),
        vuln("B", Some(Severity::Low)),
        vuln("B", Some(Severity::Low)),
        vuln("C", Some(Severity::Low)),
    ]);
    let to = check("2.0.0", vec![vuln("C", Some(Severity::Low)), vuln("D", Some(Severity::Low))]);
    let r = compare_results(&Ecosystem::Npm, "lodash", "1.0.0", "2.0.0", &from, &to);
    assert_eq!(r.ecosystem, "npm");
    assert_eq!(r.package, "lodash");
    assert_eq!(r.from_version, "1.0.0");
    assert_eq!(r.to_version, "2.0.0");
    assert_eq!(r.from_risk_score, 80);
    assert_eq!(r.to_risk_score, 30);
    assert!(r.risk_improved);
    assert_eq!(r.recommendation, Recommendation::Allow);
    assert_eq!(r.next_action, "upgrade_to_target");
    assert_eq!(r.resolved_vulnerabilities, vec!["A", "B"]);
    assert_eq!(r.added_vulnerabilities, vec!["D"]);
}

#[test]
fn compare_swapped() {
    let a = check("1.0.0", vec![vuln("A", Some(Severity::High)), vuln("C", Some(Severity::Low))]);
    let b = check("2.0.0", vec![vuln("C", Some(Severity::Low)), vuln("D", Some(Severity::Low))]);
    let ab = compare_results(&Ecosystem::Npm, "lodash", "1.0.0", "2.0.0", &a, &b);
    let ba = compare_results(&Ecosystem::Npm, "lodash", "2.0.0", "1.0.0", &b, &a);
    assert_eq!(ab.resolved_vulnerabilities, ba.added_vulnerabilities);
    assert_eq!(ab.added_vulnerabilities, ba.resolved_vulnerabilities);
    assert_eq!(ab.next_action, "upgrade_to_target");
    assert_eq!(ba.next_action, "downgrade_riskier");
    assert!(!ba.risk_improved);
    assert_eq!(ba.recommendation, Recommendation::Block);
}

#[test]
fn compare_same_version() {
    let a = check("1.0.0", vec![vuln("A", Some(Severity::High))]);
    let r = compare_results(&Ecosystem::Npm, "lodash", "1.0.0", "1.0.0", &a, &a);
    assert!(r.resolved_vulnerabilities.is_empty());
    assert!(r.added_vulnerabilities.is_empty());
    assert!(!r.risk_improved);
    assert_eq!(r.next_action, "no_change");
}

fn versions(n: usize) -> Vec<String> {
    (1..=n).map(|i| format!("1.0.{}", i)).collect()
}

#[test]
fn suggest_checks_newest_first() {
    let mut s = SuggestSearch::new(&versions(60));
    match s.next_step() {
        SuggestStep::CheckVersion(v) => assert_eq!(v, "1.0.60"),
        SuggestStep::CheckLatest => panic!("expected a candidate"),
    }
    let blocked = check("1.0.60", vec![vuln("A", Some(Severity::High))]);
    assert!(!s.record(&blocked));
    match s.next_step() {
        SuggestStep::CheckVersion(v) => assert_eq!(v, "1.0.59"),
        SuggestStep::CheckLatest => panic!("expected a candidate"),
    }
    let clean = check("1.0.59", Vec::new());
    assert!(s.record(&clean));
    match s.next_step() {
        SuggestStep::CheckVersion(v) => assert_eq!(v, "1.0.59"),
        SuggestStep::CheckLatest => panic!("expected a candidate"),
    }
}

#[test]
fn suggest_gives_up_after_fifty() {
    let mut s = SuggestSearch::new(&versions(60));
    let blocked = check("x", vec![vuln("A", Some(Severity::Critical))]);
    let mut checked = Vec::new();
    loop {
        match s.next_step() {
            SuggestStep::CheckVersion(v) => {
                checked.push(v);
                assert!(!s.record(&blocked));
            }
            SuggestStep::CheckLatest => break,
        }
    }
    assert_eq!(checked.len(), 50);
    assert_eq!(checked[0], "1.0.60");
    assert_eq!(checked[49], "1.0.11");
}

#[test]
fn suggest_with_few_versions_and_none() {
    let mut s = SuggestSearch::new(&versions(2));
    let review = check("x", vec![vuln("A", Some(Severity::Medium))]);
    assert!(matches!(s.next_step(), SuggestStep::CheckVersion(ref v) if v == "1.0.2"));
    assert!(!s.record(&review));
    assert!(matches!(s.next_step(), SuggestStep::CheckVersion(ref v) if v == "1.0.1"));
    assert!(!s.record(&review));
    assert!(matches!(s.next_step(), SuggestStep::CheckLatest));
    let empty = SuggestSearch::new(&Vec::new());
    assert!(matches!(empty.next_step(), SuggestStep::CheckLatest));
}

#[test]
fn no_safe_version_summary() {
    let latest = check("4.17.20", vec![
        vuln("A", Some(Severity::High)),
        vuln("B", Some(Severity::High)),
        vuln("C", Some(Severity::Low)),
    ]);
    let r = no_safe_version(&Ecosystem::Npm, "lodash", latest);
    assert_eq!(r.summary, "No safe version found for npm lodash. Latest version has 3 vulnerabilities.");
    assert_eq!(r.version, "4.17.20");
    assert_eq!(r.recommendation, Recommendation::Block);
    assert_eq!(r.reason, "Found 3 known vulnerability records.");
}

#[test]
fn latest_alias() {
    assert!(requests_latest("latest"));
    assert!(!requests_latest("Latest"));
    assert!(!requests_latest("1.0.0"));
}
