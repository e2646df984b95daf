use vstd::prelude::*;

use crate::clock::{format_rfc3339, rfc3339_shape, rfc3339_text, FIVE_DIGIT_YEARS, MAX_TIMESTAMP};
use crate::version::{key_less, lemma_lex_order, lex_less, newer, version_key, version_key_of, ints};
use vstd::set_lib::{lemma_int_range, lemma_len_subset, set_int_range};
use vstd::seq_lib::seq_to_set_is_finite;
use crate::text::{decimal, push_decimal, str_eq, views};
use crate::types::{
    ecosystem_name, severity_level, severity_name, spec_severity_rank, severity_rank, CheckResult,
    CompareResult, Ecosystem, Recommendation, Severity, Vulnerability,
};

verus! {

/// The more severe of two optional severities; `None` only when both are.
/// On a tie the first is kept.
pub open spec fn more_severe(a: Option<Severity>, b: Option<Severity>) -> Option<Severity> {
    match (a, b) {
        (None, _) => b,
        (_, None) => a,
        (Some(x), Some(y)) => if severity_level(y) < severity_level(x) {
            b
        } else {
            a
        },
    }
}

/// The most severe severity among a list of vulnerabilities; `None` when
/// none of them has a severity.
pub open spec fn spec_highest_severity(v: Seq<Vulnerability>) -> Option<Severity>
    decreases v.len(),
{
    if v.len() == 0 {
        None
    } else {
        more_severe(spec_highest_severity(v.drop_last()), v.last().severity)
    }
}

/// What the highest severity is: `None` exactly when no vulnerability has a
/// severity, and otherwise the severity of one of them, no less severe than
/// any other.
pub proof fn lemma_highest_severity(v: Seq<Vulnerability>)
    ensures
        spec_highest_severity(v) is None <==> (forall|i: int|
            0 <= i < v.len() ==> (#[trigger] v[i]).severity is None),
        spec_highest_severity(v) matches Some(s) ==> {
            &&& exists|i: int| 0 <= i < v.len() && (#[trigger] v[i]).severity == Some(s)
            &&& forall|i: int|
                0 <= i < v.len() && (#[trigger] v[i]).severity is Some ==> severity_level(s)
                    <= severity_level(v[i].severity->0)
        },
    decreases v.len(),
{
    if v.len() > 0 {
        let w = v.drop_last();
        let n = v.len() - 1;
        lemma_highest_severity(w);
        assert forall|i: int| 0 <= i < w.len() implies #[trigger] v[i] == w[i] by {}
        let h = spec_highest_severity(w);
        let last = v[n].severity;
        if spec_highest_severity(v) is None {
            assert forall|i: int| 0 <= i < v.len() implies (#[trigger] v[i]).severity is None by {
                if i < n {
                    assert(w[i] == v[i]);
                }
            }
        }
        if let Some(s) = spec_highest_severity(v) {
            if h == Some(s) {
                let k = choose|k: int| 0 <= k < w.len() && (#[trigger] w[k]).severity == Some(s);
                assert(v[k] == w[k]);
                assert(v[k].severity == Some(s));
            } else {
                assert(v[n].severity == Some(s));
            }
            assert forall|i: int|
                0 <= i < v.len() && (#[trigger] v[i]).severity is Some implies severity_level(s)
                <= severity_level(v[i].severity->0) by {
                if i < n {
                    assert(w[i] == v[i]);
                }
            }
        }
    }
}

/// The recommendation that follows from the highest severity found.
pub open spec fn spec_recommendation(highest: Option<Severity>) -> Recommendation {
    match highest {
        Some(Severity::Critical) | Some(Severity::High) => Recommendation::Block,
        Some(Severity::Medium) | Some(Severity::Unknown) => Recommendation::Review,
        Some(Severity::Low) => Recommendation::Allow,
        None => Recommendation::Allow,
    }
}

/// The risk score of a list of vulnerabilities: 0 for none; otherwise 20
/// times the weight of the highest severity (2 when no record has one), plus
/// 5 for each record up to 10 records, at most 100. The record count is
/// taken modulo 256, as a byte holds it.
pub open spec fn spec_risk_score(v: Seq<Vulnerability>) -> int {
    if v.len() == 0 {
        0
    } else {
        let rank: int = match spec_highest_severity(v) {
            Some(s) => spec_severity_rank(s) as int,
            None => 2,
        };
        let count = v.len() % 256;
        let counted = if count < 10 {
            count as int
        } else {
            10
        };
        let total = rank * 20 + counted * 5;
        if total < 100 {
            total
        } else {
            100
        }
    }
}

fn level(s: Severity) -> (r: u8)
    ensures
        r == severity_level(s),
{
    match s {
        Severity::Critical => 0,
        Severity::High => 1,
        Severity::Unknown => 2,
        Severity::Medium => 3,
        Severity::Low => 4,
    }
}

/// The most severe severity among the vulnerabilities, by `severity_level`
/// (critical, high, unknown, medium, low); `None` when none of them has one.
/// Its weight in the risk score is the greatest weight present.
pub fn highest_severity(vulns: &[Vulnerability]) -> (r: Option<Severity>)
    ensures
        r == spec_highest_severity(vulns@),
        r is None <==> (forall|i: int| 0 <= i < vulns@.len() ==> (#[trigger] vulns@[i]).severity is None),
        r matches Some(s) ==> {
            &&& exists|i: int| 0 <= i < vulns@.len() && (#[trigger] vulns@[i]).severity == Some(s)
            &&& forall|i: int|
                0 <= i < vulns@.len() && (#[trigger] vulns@[i]).severity is Some ==> severity_level(s)
                    <= severity_level(vulns@[i].severity->0)
            &&& forall|i: int|
                0 <= i < vulns@.len() && (#[trigger] vulns@[i]).severity is Some ==> spec_severity_rank(s)
                    >= spec_severity_rank(vulns@[i].severity->0)
        },
{
    let mut best: Option<Severity> = None;
    let mut i: usize = 0;
    while i < vulns.len()
        invariant
            i <= vulns@.len(),
            best == spec_highest_severity(vulns@.take(i as int)),
        decreases vulns@.len() - i,
    {
        proof {
            assert(vulns@.take(i + 1).drop_last() == vulns@.take(i as int));
        }
        let s = vulns[i].severity;
        best = match (best, s) {
            (None, _) => s,
            (_, None) => best,
            (Some(x), Some(y)) => if level(y) < level(x) {
                s
            } else {
                best
            },
        };
        i = i + 1;
    }
    proof {
        assert(vulns@.take(vulns@.len() as int) == vulns@);
        lemma_highest_severity(vulns@);
        if let Some(h) = best {
            assert forall|i: int|
                0 <= i < vulns@.len() && (#[trigger] vulns@[i]).severity is Some implies spec_severity_rank(h)
                >= spec_severity_rank(vulns@[i].severity->0) by {
                lemma_weight_follows_level(h, vulns@[i].severity->0);
            }
        }
    }
    best
}

/// The recommendation for a highest severity: block for critical or high,
/// review for medium or unknown, allow for low or when nothing was rated.
pub fn recommendation_for(highest: Option<Severity>) -> (r: Recommendation)
    ensures
        r == spec_recommendation(highest),
{
    match highest {
        Some(Severity::Critical) | Some(Severity::High) => Recommendation::Block,
        Some(Severity::Medium) | Some(Severity::Unknown) => Recommendation::Review,
        Some(Severity::Low) => Recommendation::Allow,
        None => Recommendation::Allow,
    }
}

/// The risk score of a list of vulnerabilities, from 0 to 100.
pub fn calculate_risk_score(vulns: &[Vulnerability]) -> (score: u8)
    ensures
        score == spec_risk_score(vulns@),
        score <= 100,
        score == 0 <==> vulns@.len() == 0,
{
    if vulns.len() == 0 {
        return 0;
    }
    let rank: u8 = match highest_severity(vulns) {
        Some(s) => severity_rank(&s),
        None => 2,
    };
    let count: u8 = (vulns.len() % 256) as u8;
    let counted: u8 = if count < 10 {
        count
    } else {
        10
    };
    let total: u8 = rank * 20 + counted * 5;
    if total < 100 {
        total
    } else {
        100
    }
}

/// The reason given with a check: how many records were found, if any.
pub open spec fn reason_text(count: nat) -> Seq<char> {
    if count > 0 {
        "Found "@ + decimal(count) + " known vulnerability records."@
    } else {
        "No known vulnerabilities found in OSV database."@
    }
}

/// The verb that a summary uses for a recommendation.
pub open spec fn action_word(r: Recommendation) -> Seq<char> {
    match r {
        Recommendation::Block => "Block"@,
        Recommendation::Review => "Review"@,
        Recommendation::Allow => "Allow"@,
        Recommendation::Unknown => "Investigate"@,
    }
}

/// How the highest severity is named in a summary.
pub open spec fn highest_name(h: Option<Severity>) -> Seq<char> {
    match h {
        Some(s) => severity_name(s),
        None => "unknown"@,
    }
}

/// The one-sentence summary of a check.
pub open spec fn summary_text(
    eco: Ecosystem,
    package: Seq<char>,
    version: Seq<char>,
    count: nat,
    highest: Option<Severity>,
    rec: Recommendation,
) -> Seq<char> {
    if count > 0 {
        ecosystem_name(eco) + " "@ + package + " version "@ + version + " has "@ + decimal(count)
            + " known vulnerabilities, including "@ + highest_name(highest) + " severity. "@
            + action_word(rec) + " this version."@
    } else {
        ecosystem_name(eco) + " "@ + package + " version "@ + version
            + " has no known vulnerabilities."@
    }
}

/// `r` is the assessment of `vulns`, the records found for `package` at
/// `version` in `eco`; every field but the time of the check is fixed.
pub open spec fn assessed(
    r: CheckResult,
    eco: Ecosystem,
    package: Seq<char>,
    version: Seq<char>,
    vulns: Seq<Vulnerability>,
) -> bool {
    let count = vulns.len();
    let highest = spec_highest_severity(vulns);
    let rec = spec_recommendation(highest);
    &&& r.ecosystem@ == ecosystem_name(eco)
    &&& r.package@ == package
    &&& r.version@ == version
    &&& r.latest_version is None
    &&& r.known_vulnerabilities_found == (count > 0)
    &&& r.vulnerability_count == count
    &&& r.highest_severity == highest
    &&& r.recommendation == rec
    &&& r.safe_to_use == (rec == Recommendation::Allow)
    &&& r.risk_score == spec_risk_score(vulns)
    &&& r.reason@ == reason_text(count)
    &&& r.summary@ == summary_text(eco, package, version, count, highest, rec)
    &&& r.vulnerabilities@ == vulns
}

fn action_str(r: Recommendation) -> (s: &'static str)
    ensures
        s@ == action_word(r),
{
    match r {
        Recommendation::Block => "Block",
        Recommendation::Review => "Review",
        Recommendation::Allow => "Allow",
        Recommendation::Unknown => "Investigate",
    }
}

fn summary_of(
    eco: &Ecosystem,
    package: &str,
    version: &str,
    count: usize,
    highest: Option<Severity>,
    rec: Recommendation,
) -> (s: String)
    ensures
        s@ == summary_text(*eco, package@, version@, count as nat, highest, rec),
{
    let mut s = String::from_str(eco.name());
    s.append(" ");
    s.append(package);
    s.append(" version ");
    s.append(version);
    if count > 0 {
        s.append(" has ");
        push_decimal(&mut s, count as u64);
        s.append(" known vulnerabilities, including ");
        match highest {
            Some(h) => s.append(h.name()),
            None => s.append("unknown"),
        }
        s.append(" severity. ");
        s.append(action_str(rec));
        s.append(" this version.");
    } else {
        s.append(" has no known vulnerabilities.");
    }
    s
}

fn reason_of(count: usize) -> (s: String)
    ensures
        s@ == reason_text(count as nat),
{
    if count > 0 {
        let mut s = String::from_str("Found ");
        push_decimal(&mut s, count as u64);
        s.append(" known vulnerability records.");
        s
    } else {
        String::from_str("No known vulnerabilities found in OSV database.")
    }
}

/// The assessment of the records found for `package` at `version`, checked
/// at the time `checked_at`.
pub fn check_result_at(
    ecosystem: &Ecosystem,
    package: &str,
    version: String,
    vulnerabilities: Vec<Vulnerability>,
    checked_at: String,
) -> (r: CheckResult)
    ensures
        assessed(r, *ecosystem, package@, version@, vulnerabilities@),
        r.checked_at == checked_at,
{
    let count = vulnerabilities.len();
    let highest = highest_severity(vulnerabilities.as_slice());
    let recommendation = recommendation_for(highest);
    let risk_score = calculate_risk_score(vulnerabilities.as_slice());
    let summary = summary_of(ecosystem, package, version.as_str(), count, highest, recommendation);
    CheckResult {
        ecosystem: String::from_str(ecosystem.name()),
        package: String::from_str(package),
        version,
        latest_version: None,
        known_vulnerabilities_found: count > 0,
        safe_to_use: recommendation == Recommendation::Allow,
        risk_score,
        recommendation,
        reason: reason_of(count),
        summary,
        vulnerability_count: count,
        highest_severity: highest,
        vulnerabilities,
        checked_at,
    }
}

/// The assessment of the records found for `package` at `version`, stamped
/// with the time of the check, read from the clock as `secs` seconds and
/// `nanos` nanoseconds after 1970-01-01T00:00:00Z and written in RFC 3339
/// form in UTC.
pub fn check_result(
    ecosystem: &Ecosystem,
    package: &str,
    version: String,
    vulnerabilities: Vec<Vulnerability>,
    secs: i64,
    nanos: u32,
) -> (r: CheckResult)
    requires
        0 <= secs <= MAX_TIMESTAMP,
        nanos < 1_000_000_000,
    ensures
        assessed(r, *ecosystem, package@, version@, vulnerabilities@),
        rfc3339_text(secs, nanos) == Some(r.checked_at@),
        secs < FIVE_DIGIT_YEARS ==> rfc3339_shape(r.checked_at@, nanos),
{
    let checked_at = match format_rfc3339(secs, nanos) {
        Some(t) => t,
        None => String::new(),
    };
    check_result_at(ecosystem, package, version, vulnerabilities, checked_at)
}

/// The ids of a list of vulnerabilities, in order.
pub open spec fn vuln_ids(v: Seq<Vulnerability>) -> Seq<Seq<char>> {
    v.map_values(|x: Vulnerability| x.id@)
}

/// The entries of `a` that `b` lacks, each once, in the order of their first
/// occurrence in `a`.
pub open spec fn missing_from(a: Seq<Seq<char>>, b: Seq<Seq<char>>) -> Seq<Seq<char>>
    decreases a.len(),
{
    if a.len() == 0 {
        Seq::empty()
    } else {
        let rest = missing_from(a.drop_last(), b);
        let x = a.last();
        if b.contains(x) || rest.contains(x) {
            rest
        } else {
            rest.push(x)
        }
    }
}

/// `missing_from(a, b)` holds no entry twice, and holds exactly the entries of
/// `a` that are not in `b`.
pub proof fn lemma_missing_from(a: Seq<Seq<char>>, b: Seq<Seq<char>>)
    ensures
        missing_from(a, b).no_duplicates(),
        forall|x: Seq<char>| #[trigger] missing_from(a, b).contains(x) <==> (a.contains(x) && !b.contains(x)),
    decreases a.len(),
{
    if a.len() > 0 {
        let w = a.drop_last();
        lemma_missing_from(w, b);
        let rest = missing_from(w, b);
        assert forall|x: Seq<char>| #[trigger] a.contains(x) <==> (w.contains(x) || x == a.last()) by {
            if a.contains(x) {
                let k = choose|k: int| 0 <= k < a.len() && a[k] == x;
                if k < a.len() - 1 {
                    assert(w[k] == x);
                }
            }
            if w.contains(x) {
                let k = choose|k: int| 0 <= k < w.len() && w[k] == x;
                assert(a[k] == x);
            }
            if x == a.last() {
                assert(a[a.len() - 1] == x);
            }
        }
        let x = a.last();
        if !(b.contains(x) || rest.contains(x)) {
            assert forall|y: Seq<char>| #[trigger] rest.push(x).contains(y) <==> (rest.contains(y) || y == x) by {
                if rest.push(x).contains(y) {
                    let k = choose|k: int| 0 <= k < rest.push(x).len() && rest.push(x)[k] == y;
                    if k < rest.len() {
                        assert(rest[k] == y);
                    }
                }
                if rest.contains(y) {
                    let k = choose|k: int| 0 <= k < rest.len() && rest[k] == y;
                    assert(rest.push(x)[k] == y);
                }
                if y == x {
                    assert(rest.push(x)[rest.len() as int] == y);
                }
            }
            assert forall|i: int, j: int|
                0 <= i < rest.push(x).len() && 0 <= j < rest.push(x).len() && i != j implies
                rest.push(x)[i] != rest.push(x)[j] by {
                if i < rest.len() && j < rest.len() {
                } else if i < rest.len() {
                    assert(rest.contains(rest[i]));
                } else if j < rest.len() {
                    assert(rest.contains(rest[j]));
                }
            }
        }
    }
}

/// What a comparison proposes: upgrade when the target is less risky, no
/// change when both are as risky, else warn that the target is riskier.
pub open spec fn spec_next_action(from_score: u8, to_score: u8) -> Seq<char> {
    if to_score < from_score {
        "upgrade_to_target"@
    } else if to_score == from_score {
        "no_change"@
    } else {
        "downgrade_riskier"@
    }
}

/// `r` compares the check `from` of `from_version` with the check `to` of
/// `to_version`, for `package` in `eco`.
pub open spec fn compared(
    r: CompareResult,
    eco: Ecosystem,
    package: Seq<char>,
    from_version: Seq<char>,
    to_version: Seq<char>,
    from: CheckResult,
    to: CheckResult,
) -> bool {
    let from_ids = vuln_ids(from.vulnerabilities@);
    let to_ids = vuln_ids(to.vulnerabilities@);
    &&& r.ecosystem@ == ecosystem_name(eco)
    &&& r.package@ == package
    &&& r.from_version@ == from_version
    &&& r.to_version@ == to_version
    &&& r.from_risk_score == from.risk_score
    &&& r.to_risk_score == to.risk_score
    &&& r.risk_improved == (to.risk_score < from.risk_score)
    &&& r.recommendation == to.recommendation
    &&& r.next_action@ == spec_next_action(from.risk_score, to.risk_score)
    &&& views(r.resolved_vulnerabilities@) == missing_from(from_ids, to_ids)
    &&& views(r.added_vulnerabilities@) == missing_from(to_ids, from_ids)
}

fn has_id(v: &Vec<Vulnerability>, id: &String) -> (r: bool)
    ensures
        r == vuln_ids(v@).contains(id@),
{
    let mut i: usize = 0;
    while i < v.len()
        invariant
            i <= v@.len(),
            forall|j: int| 0 <= j < i ==> v@[j].id@ != id@,
        decreases v@.len() - i,
    {
        if v[i].id == *id {
            assert(vuln_ids(v@)[i as int] == id@);
            return true;
        }
        i = i + 1;
    }
    assert forall|j: int| 0 <= j < vuln_ids(v@).len() implies vuln_ids(v@)[j] != id@ by {
        assert(vuln_ids(v@)[j] == v@[j].id@);
    }
    false
}

fn has_string(v: &Vec<String>, s: &String) -> (r: bool)
    ensures
        r == views(v@).contains(s@),
{
    let mut i: usize = 0;
    while i < v.len()
        invariant
            i <= v@.len(),
            forall|j: int| 0 <= j < i ==> v@[j]@ != s@,
        decreases v@.len() - i,
    {
        if v[i] == *s {
            assert(views(v@)[i as int] == s@);
            return true;
        }
        i = i + 1;
    }
    assert forall|j: int| 0 <= j < views(v@).len() implies views(v@)[j] != s@ by {
        assert(views(v@)[j] == v@[j]@);
    }
    false
}

/// The ids of `a` that `b` lacks, each once, in the order of `a`.
fn ids_missing_from(a: &Vec<Vulnerability>, b: &Vec<Vulnerability>) -> (r: Vec<String>)
    ensures
        views(r@) == missing_from(vuln_ids(a@), vuln_ids(b@)),
{
    let mut r: Vec<String> = Vec::new();
    let mut i: usize = 0;
    assert(views(r@) == Seq::<Seq<char>>::empty());
    while i < a.len()
        invariant
            i <= a@.len(),
            views(r@) == missing_from(vuln_ids(a@).take(i as int), vuln_ids(b@)),
        decreases a@.len() - i,
    {
        let ghost before = views(r@);
        proof {
            assert(vuln_ids(a@).take(i + 1).drop_last() == vuln_ids(a@).take(i as int));
            assert(vuln_ids(a@).take(i + 1).last() == a@[i as int].id@);
        }
        let id = &a[i].id;
        if !has_id(b, id) && !has_string(&r, id) {
            r.push(id.clone());
            assert(views(r@) == before.push(id@));
        }
        i = i + 1;
    }
    assert(vuln_ids(a@).take(a@.len() as int) == vuln_ids(a@));
    r
}

/// Compares the check of `from_version` with the check of `to_version`:
/// both risk scores, whether the risk went down, what to do next, the
/// recommendation for the target, and which vulnerability ids the move
/// resolves and which it adds.
pub fn compare_results(
    ecosystem: &Ecosystem,
    package: &str,
    from_version: &str,
    to_version: &str,
    from: &CheckResult,
    to: &CheckResult,
) -> (r: CompareResult)
    ensures
        compared(r, *ecosystem, package@, from_version@, to_version@, *from, *to),
{
    let risk_improved = to.risk_score < from.risk_score;
    let next_action = if risk_improved {
        String::from_str("upgrade_to_target")
    } else if to.risk_score == from.risk_score {
        String::from_str("no_change")
    } else {
        String::from_str("downgrade_riskier")
    };
    CompareResult {
        ecosystem: String::from_str(ecosystem.name()),
        package: String::from_str(package),
        from_version: String::from_str(from_version),
        to_version: String::from_str(to_version),
        from_risk_score: from.risk_score,
        to_risk_score: to.risk_score,
        risk_improved,
        recommendation: to.recommendation,
        next_action,
        resolved_vulnerabilities: ids_missing_from(&from.vulnerabilities, &to.vulnerabilities),
        added_vulnerabilities: ids_missing_from(&to.vulnerabilities, &from.vulnerabilities),
    }
}

/// How many of the newest versions a search for a safe version checks.
pub const SUGGEST_LIMIT: usize = 50;

/// How many versions a search for a safe version checks at most.
pub open spec fn suggest_count(n: nat) -> nat {
    if n < SUGGEST_LIMIT {
        n
    } else {
        SUGGEST_LIMIT as nat
    }
}

/// `candidates` are the versions at the distinct positions `picks` of
/// `versions`, newest first, and no version left out is newer than any of
/// them: they are the newest versions of the list, in release order.
pub open spec fn newest_first(versions: Seq<Seq<char>>, candidates: Seq<Seq<char>>, picks: Seq<int>) -> bool {
    &&& picks.len() == candidates.len()
    &&& picks.no_duplicates()
    &&& forall|k: int| 0 <= k < picks.len() ==> 0 <= #[trigger] picks[k] < versions.len()
    &&& forall|k: int| 0 <= k < picks.len() ==> #[trigger] candidates[k] == versions[picks[k]]
    &&& forall|k: int, l: int| 0 <= k < l < candidates.len() ==> !newer(#[trigger] candidates[l], #[trigger] candidates[k])
    &&& forall|j: int, k: int|
        0 <= j < versions.len() && !picks.contains(j) && 0 <= k < candidates.len() ==> !newer(
            #[trigger] versions[j],
            #[trigger] candidates[k],
        )
}

proof fn lemma_some_position_free(picks: Seq<int>, n: int)
    requires
        forall|k: int| 0 <= k < picks.len() ==> 0 <= #[trigger] picks[k] < n,
        picks.len() < n,
    ensures
        exists|j: int| 0 <= j < n && !picks.contains(j),
{
    if forall|j: int| 0 <= j < n ==> picks.contains(j) {
        lemma_int_range(0, n);
        seq_to_set_is_finite(picks);
        assert(set_int_range(0, n).subset_of(picks.to_set()));
        lemma_len_subset(set_int_range(0, n), picks.to_set());
        picks.lemma_cardinality_of_set();
    }
}

/// What a search for a safe version does next.
pub enum SuggestStep {
    /// Check this version.
    CheckVersion(String),
    /// No candidate was allowed: check the latest version instead.
    CheckLatest,
}

/// A search for the newest version whose check allows it. The caller runs
/// each check that `next_step` asks for and hands the result to `record`.
pub struct SuggestSearch {
    candidates: Vec<String>,
    next: usize,
}

impl SuggestSearch {
    /// The versions still to be checked, in order.
    pub closed spec fn remaining(&self) -> Seq<Seq<char>> {
        views(self.candidates@).skip(self.next as int)
    }

    /// All versions this search checks, in order.
    pub closed spec fn candidates(&self) -> Seq<Seq<char>> {
        views(self.candidates@)
    }

    /// The search is in a consistent state.
    pub closed spec fn wf(&self) -> bool {
        &&& self.next <= self.candidates@.len()
        &&& self.candidates@.len() <= SUGGEST_LIMIT
    }

    /// A search over the versions a registry lists: its candidates are the
    /// `SUGGEST_LIMIT` newest of them in release order, newest first.
    pub fn new(versions: &Vec<String>) -> (s: SuggestSearch)
        ensures
            s.wf(),
            s.remaining() == s.candidates(),
            s.candidates().len() == suggest_count(versions@.len()),
            exists|picks: Seq<int>| newest_first(views(versions@), s.candidates(), picks),
    {
        let n = versions.len();
        let ghost all = views(versions@);
        let mut keys: Vec<Vec<u64>> = Vec::new();
        let mut taken: Vec<bool> = Vec::new();
        let mut i: usize = 0;
        while i < n
            invariant
                n == versions@.len(),
                all == views(versions@),
                i <= n,
                keys@.len() == i,
                taken@.len() == i,
                forall|m: int| 0 <= m < i ==> !(#[trigger] taken@[m]),
                forall|m: int| 0 <= m < i ==> ints((#[trigger] keys@[m])@) == version_key(all[m]),
            decreases n - i,
        {
            keys.push(version_key_of(versions[i].as_str()));
            taken.push(false);
            i = i + 1;
        }
        let mut candidates: Vec<String> = Vec::new();
        let ghost mut picks: Seq<int> = Seq::empty();
        while candidates.len() < SUGGEST_LIMIT && candidates.len() < n
            invariant
                n == versions@.len(),
                all == views(versions@),
                keys@.len() == n,
                taken@.len() == n,
                forall|m: int| 0 <= m < n ==> ints((#[trigger] keys@[m])@) == version_key(all[m]),
                forall|m: int| 0 <= m < n ==> (#[trigger] taken@[m] <==> picks.contains(m)),
                candidates@.len() <= SUGGEST_LIMIT,
                candidates@.len() <= n,
                newest_first(all, views(candidates@), picks),
            decreases n - candidates@.len(),
        {
            let ghost cands = views(candidates@);
            proof {
                lemma_some_position_free(picks, n as int);
            }
            let mut best: usize = n;
            let mut j: usize = 0;
            while j < n
                invariant
                    n == versions@.len(),
                    keys@.len() == n,
                    taken@.len() == n,
                    forall|m: int| 0 <= m < n ==> ints((#[trigger] keys@[m])@) == version_key(all[m]),
                    j <= n,
                    best == n || (best < j && !taken@[best as int]),
                    forall|m: int|
                        0 <= m < j && !(#[trigger] taken@[m]) ==> best < n && !lex_less(
                            version_key(all[best as int]),
                            version_key(all[m]),
                        ),
                decreases n - j,
            {
                if !taken[j] {
                    if best == n || key_less(&keys[best], &keys[j]) {
                        proof {
                            let kj0 = version_key(all[j as int]);
                            lemma_lex_order(kj0, kj0, kj0);
                            if best < n {
                                let kb = version_key(all[best as int]);
                                let kj = version_key(all[j as int]);
                                assert forall|m: int|
                                    0 <= m < j && !(#[trigger] taken@[m]) implies !lex_less(
                                    kj,
                                    version_key(all[m]),
                                ) by {
                                    lemma_lex_order(version_key(all[m]), kb, kj);
                                    lemma_lex_order(kb, kj, version_key(all[m]));
                                    lemma_lex_order(kj, version_key(all[m]), kb);
                                }
                            }
                        }
                        best = j;
                    }
                }
                j = j + 1;
            }
            proof {
                let f = choose|f: int| 0 <= f < n && !picks.contains(f);
                assert(!taken@[f]);
            }
            let ghost old_picks = picks;
            taken.set(best, true);
            let v = versions[best].clone();
            candidates.push(v);
            proof {
                picks = picks.push(best as int);
                assert(views(candidates@) == cands.push(all[best as int]));
                assert(!old_picks.contains(best as int));
                let nc = views(candidates@);
                assert forall|m: int| 0 <= m < n implies (#[trigger] taken@[m] <==> picks.contains(m)) by {
                    if m == best {
                        assert(picks[picks.len() - 1] == m);
                    } else if picks.contains(m) {
                        let k = choose|k: int| 0 <= k < picks.len() && picks[k] == m;
                        assert(old_picks[k] == m);
                    } else if old_picks.contains(m) {
                        let k = choose|k: int| 0 <= k < old_picks.len() && old_picks[k] == m;
                        assert(picks[k] == m);
                    }
                }
                assert forall|k: int| 0 <= k < picks.len() implies #[trigger] nc[k] == all[picks[k]] by {
                    if k < old_picks.len() {
                        assert(nc[k] == cands[k]);
                    }
                }
                assert forall|k: int, l: int| 0 <= k < l < nc.len() implies !newer(#[trigger] nc[l], #[trigger] nc[k]) by {
                    if l == nc.len() - 1 {
                        assert(nc[k] == cands[k]);
                        assert(!old_picks.contains(best as int));
                    } else {
                        assert(nc[k] == cands[k]);
                        assert(nc[l] == cands[l]);
                    }
                }
                assert forall|q: int, k: int|
                    0 <= q < n && !picks.contains(q) && 0 <= k < nc.len() implies !newer(
                    #[trigger] all[q],
                    #[trigger] nc[k],
                ) by {
                    assert(!taken@[q]);
                    if k < cands.len() {
                        assert(nc[k] == cands[k]);
                        assert(!old_picks.contains(q)) by {
                            if old_picks.contains(q) {
                                let t = choose|t: int| 0 <= t < old_picks.len() && old_picks[t] == q;
                                assert(picks[t] == q);
                            }
                        }
                    }
                }
                assert(picks.no_duplicates());
            }
        }
        let s = SuggestSearch { candidates, next: 0 };
        assert(views(s.candidates@).skip(0) == views(s.candidates@));
        s
    }

    /// What to do next: check the next candidate, or, when none is left,
    /// the latest version.
    pub fn next_step(&self) -> (step: SuggestStep)
        requires
            self.wf(),
        ensures
            self.remaining().len() > 0 ==> (step matches SuggestStep::CheckVersion(v) && v@
                == self.remaining()[0]),
            self.remaining().len() == 0 ==> step is CheckLatest,
    {
        if self.next < self.candidates.len() {
            let v = self.candidates[self.next].clone();
            assert(self.remaining()[0] == views(self.candidates@)[self.next as int]);
            SuggestStep::CheckVersion(v)
        } else {
            SuggestStep::CheckLatest
        }
    }

    /// Takes the check of the version that `next_step` named. Returns true
    /// when that check allows the version, which ends the search; otherwise
    /// moves on to the next candidate.
    pub fn record(&mut self, result: &CheckResult) -> (accepted: bool)
        requires
            old(self).wf(),
            old(self).remaining().len() > 0,
        ensures
            final(self).wf(),
            final(self).candidates() == old(self).candidates(),
            accepted == (result.recommendation == Recommendation::Allow),
            accepted ==> final(self).remaining() == old(self).remaining(),
            !accepted ==> final(self).remaining() == old(self).remaining().drop_first(),
    {
        if result.recommendation == Recommendation::Allow {
            true
        } else {
            let ghost before = self.remaining();
            self.next = self.next + 1;
            assert(self.remaining() == before.drop_first());
            false
        }
    }
}

/// The summary given when no candidate version is allowed.
pub open spec fn no_safe_summary(eco: Ecosystem, package: Seq<char>, count: nat) -> Seq<char> {
    "No safe version found for "@ + ecosystem_name(eco) + " "@ + package
        + ". Latest version has "@ + decimal(count) + " vulnerabilities."@
}

/// The answer of a search that found no allowed version: the check of the
/// latest version, with a summary that says so.
pub fn no_safe_version(ecosystem: &Ecosystem, package: &str, latest: CheckResult) -> (r: CheckResult)
    ensures
        r.summary@ == no_safe_summary(*ecosystem, package@, latest.vulnerability_count as nat),
        r == (CheckResult { summary: r.summary, ..latest }),
{
    let mut r = latest;
    let mut s = String::from_str("No safe version found for ");
    s.append(ecosystem.name());
    s.append(" ");
    s.append(package);
    s.append(". Latest version has ");
    push_decimal(&mut s, r.vulnerability_count as u64);
    s.append(" vulnerabilities.");
    r.summary = s;
    r
}

/// Swapping the two versions of a comparison swaps the ids it reports as
/// resolved and as added, and the risk cannot go down both ways.
pub proof fn law_compare_swap(
    r1: CompareResult,
    r2: CompareResult,
    eco: Ecosystem,
    package: Seq<char>,
    a_version: Seq<char>,
    b_version: Seq<char>,
    a: CheckResult,
    b: CheckResult,
)
    requires
        compared(r1, eco, package, a_version, b_version, a, b),
        compared(r2, eco, package, b_version, a_version, b, a),
    ensures
        views(r1.resolved_vulnerabilities@) == views(r2.added_vulnerabilities@),
        views(r1.added_vulnerabilities@) == views(r2.resolved_vulnerabilities@),
        !(r1.risk_improved && r2.risk_improved),
        r1.risk_improved ==> r2.next_action@ == "downgrade_riskier"@,
        r1.next_action@ == "no_change"@ ==> r2.next_action@ == "no_change"@,
{
    reveal_strlit("no_change");
    reveal_strlit("upgrade_to_target");
    reveal_strlit("downgrade_riskier");
    assert("no_change"@.len() == 9);
    assert("upgrade_to_target"@.len() == 17);
    assert("downgrade_riskier"@.len() == 17);
    assert("no_change"@ != "upgrade_to_target"@);
    assert("no_change"@ != "downgrade_riskier"@);
    if r1.next_action@ == "no_change"@ {
        assert(a.risk_score == b.risk_score);
    }
}

/// The ids a comparison reports: each at most once; resolved ones are those
/// of the source version that the target lacks, added ones those of the
/// target that the source lacks; no id is both.
pub proof fn law_compare_ids(
    r: CompareResult,
    eco: Ecosystem,
    package: Seq<char>,
    from_version: Seq<char>,
    to_version: Seq<char>,
    from: CheckResult,
    to: CheckResult,
)
    requires
        compared(r, eco, package, from_version, to_version, from, to),
    ensures
        views(r.resolved_vulnerabilities@).no_duplicates(),
        views(r.added_vulnerabilities@).no_duplicates(),
        forall|x: Seq<char>| #[trigger] views(r.resolved_vulnerabilities@).contains(x) <==> (
            vuln_ids(from.vulnerabilities@).contains(x) && !vuln_ids(to.vulnerabilities@).contains(x)),
        forall|x: Seq<char>| #[trigger] views(r.added_vulnerabilities@).contains(x) <==> (
            vuln_ids(to.vulnerabilities@).contains(x) && !vuln_ids(from.vulnerabilities@).contains(x)),
        forall|x: Seq<char>| !(#[trigger] views(r.resolved_vulnerabilities@).contains(x)
            && views(r.added_vulnerabilities@).contains(x)),
{
    lemma_missing_from(vuln_ids(from.vulnerabilities@), vuln_ids(to.vulnerabilities@));
    lemma_missing_from(vuln_ids(to.vulnerabilities@), vuln_ids(from.vulnerabilities@));
}

/// Comparing a check with itself reports nothing resolved, nothing added and
/// no change.
pub proof fn law_compare_same(
    r: CompareResult,
    eco: Ecosystem,
    package: Seq<char>,
    version: Seq<char>,
    c: CheckResult,
)
    requires
        compared(r, eco, package, version, version, c, c),
    ensures
        r.resolved_vulnerabilities@.len() == 0,
        r.added_vulnerabilities@.len() == 0,
        !r.risk_improved,
        r.next_action@ == "no_change"@,
{
    let ids = vuln_ids(c.vulnerabilities@);
    lemma_missing_from(ids, ids);
    let m = missing_from(ids, ids);
    if m.len() > 0 {
        assert(m.contains(m[0]));
    }
    assert(views(r.resolved_vulnerabilities@).len() == r.resolved_vulnerabilities@.len());
    assert(views(r.added_vulnerabilities@).len() == r.added_vulnerabilities@.len());
}

/// A search that checks candidates newest first and stops at the first
/// allowed one stops at the newest allowed candidate: no allowed candidate is
/// newer than it.
pub proof fn law_first_allowed_is_newest(
    versions: Seq<Seq<char>>,
    candidates: Seq<Seq<char>>,
    picks: Seq<int>,
    allowed: spec_fn(Seq<char>) -> bool,
    k: int,
)
    requires
        newest_first(versions, candidates, picks),
        0 <= k < candidates.len(),
        allowed(candidates[k]),
        forall|i: int| 0 <= i < k ==> !allowed(#[trigger] candidates[i]),
    ensures
        forall|j: int| 0 <= j < candidates.len() && allowed(#[trigger] candidates[j]) ==> !newer(
            candidates[j],
            candidates[k],
        ),
{
    assert forall|j: int| 0 <= j < candidates.len() && allowed(#[trigger] candidates[j]) implies !newer(
        candidates[j],
        candidates[k],
    ) by {
        if j > k {
        } else if j == k {
            lemma_lex_order(version_key(candidates[k]), version_key(candidates[k]), version_key(candidates[k]));
        }
    }
}

/// A version argument of `latest` asks for the newest published version,
/// which the registry is asked for before the check.
pub fn requests_latest(version: &str) -> (r: bool)
    ensures
        r == (version@ == "latest"@),
{
    str_eq(version, "latest")
}

proof fn lemma_weight_follows_level(a: Severity, b: Severity)
    ensures
        severity_level(a) <= severity_level(b) ==> spec_severity_rank(a) >= spec_severity_rank(b),
{
}

/// Adding a rated record to rated records never lowers the risk score,
/// unless the record count then reaches a multiple of 256, where the byte
/// that counts the records wraps to 0.
pub proof fn law_risk_monotone(v: Seq<Vulnerability>, w: Vulnerability)
    requires
        forall|i: int| 0 <= i < v.len() ==> (#[trigger] v[i]).severity is Some,
        w.severity is Some,
        (v.len() + 1) % 256 != 0,
    ensures
        spec_risk_score(v.push(w)) >= spec_risk_score(v),
{
    let u = v.push(w);
    assert(u.drop_last() == v);
    if v.len() > 0 {
        lemma_highest_severity(v);
        assert(v[0].severity is Some);
        let s = spec_highest_severity(v)->0;
        let t = w.severity->0;
        lemma_weight_follows_level(s, t);
        lemma_weight_follows_level(t, s);
    }
}

/// The next action follows the two risk scores alone: upgrade exactly when
/// the target's score is strictly lower, no change when they are equal, and
/// a warning when the target's score is higher; and the risk improved
/// exactly when the target's score is strictly lower.
pub proof fn law_next_action(
    r: CompareResult,
    eco: Ecosystem,
    package: Seq<char>,
    from_version: Seq<char>,
    to_version: Seq<char>,
    from: CheckResult,
    to: CheckResult,
)
    requires
        compared(r, eco, package, from_version, to_version, from, to),
    ensures
        r.risk_improved <==> to.risk_score < from.risk_score,
        to.risk_score < from.risk_score ==> r.next_action@ == "upgrade_to_target"@,
        to.risk_score == from.risk_score ==> r.next_action@ == "no_change"@,
        to.risk_score > from.risk_score ==> r.next_action@ == "downgrade_riskier"@,
        r.from_risk_score == from.risk_score,
        r.to_risk_score == to.risk_score,
{
}

/// The risk score of a non-empty list of records, given the greatest weight
/// `weight` among its rated records (2 when none is rated): 20 times that
/// weight plus 5 for each record, the records counted up to 10 (their count
/// taken modulo 256), the whole at most 100. So the count adds at most 50.
pub proof fn law_risk_formula(v: Seq<Vulnerability>, weight: int)
    requires
        v.len() > 0,
        (forall|i: int| 0 <= i < v.len() ==> (#[trigger] v[i]).severity is None) ==> weight == 2,
        (exists|i: int| 0 <= i < v.len() && (#[trigger] v[i]).severity is Some) ==> (exists|i: int|
            0 <= i < v.len() && (#[trigger] v[i]).severity is Some && spec_severity_rank(
                v[i].severity->0,
            ) == weight),
        forall|i: int|
            0 <= i < v.len() && (#[trigger] v[i]).severity is Some ==> spec_severity_rank(v[i].severity->0)
                <= weight,
    ensures
        20 * weight <= spec_risk_score(v),
        spec_risk_score(v) <= 20 * weight + 50,
        spec_risk_score(v) <= 100,
        v.len() % 256 >= 10 ==> spec_risk_score(v) == (if 20 * weight + 50 < 100 {
            20 * weight + 50
        } else {
            100
        }),
        v.len() % 256 < 10 ==> spec_risk_score(v) == (if 20 * weight + 5 * (v.len() % 256) < 100 {
            20 * weight + 5 * (v.len() % 256)
        } else {
            100
        }),
{
    lemma_highest_severity(v);
    match spec_highest_severity(v) {
        Some(s) => {
            let k = choose|k: int| 0 <= k < v.len() && (#[trigger] v[k]).severity == Some(s);
            assert(v[k].severity is Some);
            let m = choose|m: int|
                0 <= m < v.len() && (#[trigger] v[m]).severity is Some && spec_severity_rank(
                    v[m].severity->0,
                ) == weight;
            lemma_weight_follows_level(s, v[m].severity->0);
            assert(spec_severity_rank(s) == weight);
        },
        None => {
            assert(weight == 2);
        },
    }
}

/// The recommendation for a list of records: block when some record is
/// rated critical or high; otherwise review when some record is rated
/// medium or unknown; otherwise (only low ratings or none) allow. It is
/// never `Unknown`, and allowing is exactly what makes a version safe.
pub proof fn law_recommendation(v: Seq<Vulnerability>)
    ensures
        spec_recommendation(spec_highest_severity(v)) == Recommendation::Block <==> exists|i: int|
            0 <= i < v.len() && ((#[trigger] v[i]).severity == Some(Severity::Critical) || v[i].severity
                == Some(Severity::High)),
        spec_recommendation(spec_highest_severity(v)) == Recommendation::Allow <==> forall|i: int|
            0 <= i < v.len() ==> ((#[trigger] v[i]).severity is None || v[i].severity == Some(
                Severity::Low,
            )),
        spec_recommendation(spec_highest_severity(v)) != Recommendation::Unknown,
{
    lemma_highest_severity(v);
    let h = spec_highest_severity(v);
    if let Some(s) = h {
        let k = choose|k: int| 0 <= k < v.len() && (#[trigger] v[k]).severity == Some(s);
        assert(v[k].severity is Some);
        if exists|i: int|
            0 <= i < v.len() && ((#[trigger] v[i]).severity == Some(Severity::Critical)
                || v[i].severity == Some(Severity::High)) {
            let i = choose|i: int|
                0 <= i < v.len() && ((#[trigger] v[i]).severity == Some(Severity::Critical)
                    || v[i].severity == Some(Severity::High));
            assert(v[i].severity is Some);
        }
        if !(forall|i: int|
            0 <= i < v.len() ==> ((#[trigger] v[i]).severity is None || v[i].severity == Some(
                Severity::Low,
            ))) {
            let i = choose|i: int|
                0 <= i < v.len() && !((#[trigger] v[i]).severity is None || v[i].severity == Some(
                    Severity::Low,
                ));
            assert(v[i].severity is Some);
        }
    } else {
        if exists|i: int|
            0 <= i < v.len() && ((#[trigger] v[i]).severity == Some(Severity::Critical)
                || v[i].severity == Some(Severity::High)) {
            let i = choose|i: int|
                0 <= i < v.len() && ((#[trigger] v[i]).severity == Some(Severity::Critical)
                    || v[i].severity == Some(Severity::High));
            assert(v[i].severity is None);
        }
    }
}

} // verus!
