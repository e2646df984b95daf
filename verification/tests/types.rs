use palsphere::types::{parse_ecosystem, severity_rank, Ecosystem, Severity};

#[test]
fn ecosystem_names() {
    assert_eq!(Ecosystem::Npm.name(), "npm");
    assert_eq!(Ecosystem::Go.name(), "Go");
}

#[test]
fn severity_names() {
    assert_eq!(Severity::Critical.name(), "critical");
    assert_eq!(Severity::High.name(), "high");
    assert_eq!(Severity::Medium.name(), "medium");
    assert_eq!(Severity::Low.name(), "low");
    assert_eq!(Severity::Unknown.name(), "unknown");
}

#[test]
fn parse_ecosystem_ignores_case() {
    assert_eq!(parse_ecosystem("npm"), Some(Ecosystem::Npm));
    assert_eq!(parse_ecosystem("NPM"), Some(Ecosystem::Npm));
    assert_eq!(parse_ecosystem("go"), Some(Ecosystem::Go));
    assert_eq!(parse_ecosystem("Go"), Some(Ecosystem::Go));
    assert_eq!(parse_ecosystem("GO"), Some(Ecosystem::Go));
}

#[test]
fn parse_ecosystem_rejects_others() {
    assert_eq!(parse_ecosystem(""), None);
    assert_eq!(parse_ecosystem("golang"), None);
    assert_eq!(parse_ecosystem("pypi"), None);
    assert_eq!(parse_ecosystem("np"), None);
}

#[test]
fn ecosystem_name_parses_back() {
    for e in [Ecosystem::Npm, Ecosystem::Go] {
        assert_eq!(parse_ecosystem(e.name()), Some(e));
    }
}

#[test]
fn severity_ranks() {
    assert_eq!(severity_rank(&Severity::Critical), 4);
    assert_eq!(severity_rank(&Severity::High), 3);
    assert_eq!(severity_rank(&Severity::Medium), 2);
    assert_eq!(severity_rank(&Severity::Low), 1);
    assert_eq!(severity_rank(&Severity::Unknown), 2);
}
