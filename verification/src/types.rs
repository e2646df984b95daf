use vstd::prelude::*;

use crate::text::{eq_ignore_ascii_case, str_eq_ignore_ascii_case};

verus! {

/// Supported ecosystems.
#[derive(Debug, Clone, Copy, PartialEq, Eq, Structural)]
pub enum Ecosystem {
    Npm,
    Go,
}

/// Recommendation based on highest severity.
#[derive(Debug, Clone, Copy, PartialEq, Eq, Structural)]
pub enum Recommendation {
    Block,
    Review,
    Allow,
    Unknown,
}

/// Severity levels.
#[derive(Debug, Clone, Copy, PartialEq, Eq, Structural, PartialOrd, Ord)]
pub enum Severity {
    Critical,
    High,
    Medium,
    Low,
    Unknown,
}

/// How severe a finding is: a lower level is more severe. From most to least
/// severe: `Critical`, `High`, `Unknown`, `Medium`, `Low`. An unrated finding
/// weighs like a medium one in the risk score and, of the two, counts as the
/// more severe; so a lower level never has a smaller weight.
pub open spec fn severity_level(s: Severity) -> nat {
    match s {
        Severity::Critical => 0,
        Severity::High => 1,
        Severity::Unknown => 2,
        Severity::Medium => 3,
        Severity::Low => 4,
    }
}

/// The weight a severity contributes to the risk score.
pub open spec fn spec_severity_rank(s: Severity) -> u8 {
    match s {
        Severity::Critical => 4,
        Severity::High => 3,
        Severity::Medium => 2,
        Severity::Low => 1,
        Severity::Unknown => 2,
    }
}

/// Weight of a severity in the risk score.
pub fn severity_rank(s: &Severity) -> (r: u8)
    ensures
        r == spec_severity_rank(*s),
        1 <= r <= 4,
{
    match s {
        Severity::Critical => 4,
        Severity::High => 3,
        Severity::Medium => 2,
        Severity::Low => 1,
        Severity::Unknown => 2,
    }
}

/// How an ecosystem is written in reports and in queries to the advisory database.
pub open spec fn ecosystem_name(e: Ecosystem) -> Seq<char> {
    match e {
        Ecosystem::Npm => "npm"@,
        Ecosystem::Go => "Go"@,
    }
}

/// How a severity is written in reports: its name in lower case.
pub open spec fn severity_name(s: Severity) -> Seq<char> {
    match s {
        Severity::Critical => "critical"@,
        Severity::High => "high"@,
        Severity::Medium => "medium"@,
        Severity::Low => "low"@,
        Severity::Unknown => "unknown"@,
    }
}

impl Ecosystem {
    /// The display name of the ecosystem: `npm` or `Go`.
    pub fn name(&self) -> (r: &'static str)
        ensures
            r@ == ecosystem_name(*self),
    {
        match self {
            Ecosystem::Npm => "npm",
            Ecosystem::Go => "Go",
        }
    }
}

impl Severity {
    /// The display name of the severity, in lower case.
    pub fn name(&self) -> (r: &'static str)
        ensures
            r@ == severity_name(*self),
    {
        match self {
            Severity::Critical => "critical",
            Severity::High => "high",
            Severity::Medium => "medium",
            Severity::Low => "low",
            Severity::Unknown => "unknown",
        }
    }
}

/// The ecosystem that a word typed by a user names: `npm` or `go` in any mix of case.
pub open spec fn spec_parse_ecosystem(s: Seq<char>) -> Option<Ecosystem> {
    if eq_ignore_ascii_case(s, "npm"@) {
        Some(Ecosystem::Npm)
    } else if eq_ignore_ascii_case(s, "go"@) {
        Some(Ecosystem::Go)
    } else {
        None
    }
}

/// Reads an ecosystem named by a user: `npm` or `go`, case ignored; `None`
/// for any other word.
pub fn parse_ecosystem(s: &str) -> (r: Option<Ecosystem>)
    ensures
        r == spec_parse_ecosystem(s@),
{
    if str_eq_ignore_ascii_case(s, "npm") {
        Some(Ecosystem::Npm)
    } else if str_eq_ignore_ascii_case(s, "go") {
        Some(Ecosystem::Go)
    } else {
        None
    }
}

/// A single vulnerability from the advisory database.
#[derive(Debug, Clone)]
pub struct Vulnerability {
    pub id: String,
    pub summary: Option<String>,
    pub severity: Option<Severity>,
    pub fixed_versions: Vec<String>,
    pub advisory_url: Option<String>,
}

/// Package metadata from a registry.
#[derive(Debug, Clone)]
pub struct PackageMetadata {
    pub name: String,
    pub ecosystem: Ecosystem,
    pub latest_version: String,
    pub versions: Vec<String>,
}

/// Result of a package check.
#[derive(Debug, Clone)]
pub struct CheckResult {
    pub ecosystem: String,
    pub package: String,
    pub version: String,
    pub latest_version: Option<String>,
    pub known_vulnerabilities_found: bool,
    pub safe_to_use: bool,
    pub risk_score: u8,
    pub recommendation: Recommendation,
    pub reason: String,
    pub summary: String,
    pub vulnerability_count: usize,
    pub highest_severity: Option<Severity>,
    pub vulnerabilities: Vec<Vulnerability>,
    pub checked_at: String,
}

/// Comparison result between two versions.
#[derive(Debug, Clone)]
pub struct CompareResult {
    pub ecosystem: String,
    pub package: String,
    pub from_version: String,
    pub to_version: String,
    pub from_risk_score: u8,
    pub to_risk_score: u8,
    pub risk_improved: bool,
    pub recommendation: Recommendation,
    pub next_action: String,
    pub resolved_vulnerabilities: Vec<String>,
    pub added_vulnerabilities: Vec<String>,
}

/// Reading back the display name of an ecosystem gives the same ecosystem.
pub proof fn law_ecosystem_name_parses_back(e: Ecosystem)
    ensures
        spec_parse_ecosystem(ecosystem_name(e)) == Some(e),
{
    reveal_strlit("npm");
    reveal_strlit("go");
    reveal_strlit("Go");
    match e {
        Ecosystem::Npm => {
            assert(eq_ignore_ascii_case("npm"@, "npm"@));
        },
        Ecosystem::Go => {
            assert(!eq_ignore_ascii_case("Go"@, "npm"@));
            assert(eq_ignore_ascii_case("Go"@, "go"@));
        },
    }
}

} // verus!
