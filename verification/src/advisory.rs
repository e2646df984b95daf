use vstd::prelude::*;

use crate::text::{opt_view, str_eq, views};
use crate::types::{Severity, Vulnerability};

verus! {

/// One event of an affected range: the version that introduced or fixed it.
pub struct OsvEvent {
    pub introduced: Option<String>,
    pub fixed: Option<String>,
}

/// A range of affected versions, as a list of events.
pub struct OsvRange {
    pub range_type: String,
    pub events: Vec<OsvEvent>,
}

/// One affected package of an advisory record.
pub struct OsvAffected {
    pub ranges: Option<Vec<OsvRange>>,
}

/// One entry of an advisory record's severity list. `score_rating` is the
/// band that the numeric score falls in (9.0 and above critical, from 7.0
/// high, from 4.0 medium, below that low), or `None` where the score does not
/// read as a number.
pub struct OsvSeverity {
    pub severity_type: String,
    pub score_rating: Option<Severity>,
}

/// An advisory record as the database returns it, with what the assessment
/// reads of it. `github_severity` is the text under `severity` in the
/// record's database-specific part, where there is one.
pub struct OsvVuln {
    pub id: String,
    pub summary: Option<String>,
    pub github_severity: Option<String>,
    pub severity: Option<Vec<OsvSeverity>>,
    pub affected: Option<Vec<OsvAffected>>,
}

/// The severity that a GitHub advisory label stands for.
pub open spec fn github_rating(label: Seq<char>) -> Severity {
    if label == "CRITICAL"@ {
        Severity::Critical
    } else if label == "HIGH"@ {
        Severity::High
    } else if label == "MODERATE"@ {
        Severity::Medium
    } else if label == "LOW"@ {
        Severity::Low
    } else {
        Severity::Unknown
    }
}

/// The rating of the first CVSS v3 entry whose score reads as a number.
pub open spec fn first_cvss_rating(entries: Seq<OsvSeverity>) -> Option<Severity>
    decreases entries.len(),
{
    if entries.len() == 0 {
        None
    } else if entries[0].severity_type@ == "CVSS_V3"@ && entries[0].score_rating is Some {
        entries[0].score_rating
    } else {
        first_cvss_rating(entries.drop_first())
    }
}

/// The severity of an advisory record: the GitHub label where there is one,
/// else the first CVSS v3 rating, else none.
pub open spec fn spec_map_severity(v: OsvVuln) -> Option<Severity> {
    match v.github_severity {
        Some(label) => Some(github_rating(label@)),
        None => match v.severity {
            Some(entries) => first_cvss_rating(entries@),
            None => None,
        },
    }
}

fn rate_github_label(label: &String) -> (r: Severity)
    ensures
        r == github_rating(label@),
{
    let l = label.as_str();
    if str_eq(l, "CRITICAL") {
        Severity::Critical
    } else if str_eq(l, "HIGH") {
        Severity::High
    } else if str_eq(l, "MODERATE") {
        Severity::Medium
    } else if str_eq(l, "LOW") {
        Severity::Low
    } else {
        Severity::Unknown
    }
}

/// The severity of an advisory record: its GitHub label where it has one,
/// else the rating of its first CVSS v3 score that reads as a number.
pub fn map_severity(vuln: &OsvVuln) -> (r: Option<Severity>)
    ensures
        r == spec_map_severity(*vuln),
{
    if let Some(label) = &vuln.github_severity {
        return Some(rate_github_label(label));
    }
    if let Some(entries) = &vuln.severity {
        let mut i: usize = 0;
        assert(entries@.skip(0) == entries@);
        while i < entries.len()
            invariant
                vuln.github_severity is None,
                vuln.severity == Some(*entries),
                i <= entries@.len(),
                first_cvss_rating(entries@) == first_cvss_rating(entries@.skip(i as int)),
            decreases entries@.len() - i,
        {
            let e = &entries[i];
            proof {
                assert(entries@.skip(i as int)[0] == entries@[i as int]);
                assert(entries@.skip(i as int).drop_first() == entries@.skip(i + 1));
            }
            if str_eq(e.severity_type.as_str(), "CVSS_V3") {
                if let Some(rating) = e.score_rating {
                    assert(first_cvss_rating(entries@.skip(i as int)) == Some(rating));
                    return Some(rating);
                }
            }
            i = i + 1;
        }
        proof {
            assert(entries@.skip(i as int).len() == 0);
        }
    }
    None
}

/// The fixed versions named by a list of events, in order.
pub open spec fn fixed_in_events(events: Seq<OsvEvent>) -> Seq<Seq<char>>
    decreases events.len(),
{
    if events.len() == 0 {
        Seq::empty()
    } else {
        let rest = fixed_in_events(events.drop_last());
        match events.last().fixed {
            Some(f) => rest.push(f@),
            None => rest,
        }
    }
}

/// The fixed versions named by a list of ranges, range by range.
pub open spec fn fixed_in_ranges(ranges: Seq<OsvRange>) -> Seq<Seq<char>>
    decreases ranges.len(),
{
    if ranges.len() == 0 {
        Seq::empty()
    } else {
        fixed_in_ranges(ranges.drop_last()) + fixed_in_events(ranges.last().events@)
    }
}

/// The fixed versions named by a list of affected packages, in order.
pub open spec fn fixed_in_affected(affected: Seq<OsvAffected>) -> Seq<Seq<char>>
    decreases affected.len(),
{
    if affected.len() == 0 {
        Seq::empty()
    } else {
        fixed_in_affected(affected.drop_last()) + match affected.last().ranges {
            Some(r) => fixed_in_ranges(r@),
            None => Seq::empty(),
        }
    }
}

/// Every version that an advisory record names as fixing it, in the order of
/// the record.
pub open spec fn spec_fixed_versions(v: OsvVuln) -> Seq<Seq<char>> {
    match v.affected {
        Some(a) => fixed_in_affected(a@),
        None => Seq::empty(),
    }
}

fn push_fixed_in_events(out: &mut Vec<String>, events: &Vec<OsvEvent>)
    ensures
        views(final(out)@) == views(old(out)@) + fixed_in_events(events@),
{
    let ghost start = views(out@);
    let mut i: usize = 0;
    while i < events.len()
        invariant
            i <= events@.len(),
            views(out@) == start + fixed_in_events(events@.take(i as int)),
        decreases events@.len() - i,
    {
        let ghost before = views(out@);
        proof {
            assert(events@.take(i + 1).drop_last() == events@.take(i as int));
        }
        if let Some(f) = &events[i].fixed {
            out.push(f.clone());
            assert(views(out@) == before.push(f@));
        }
        i = i + 1;
    }
    assert(events@.take(events@.len() as int) == events@);
}

fn push_fixed_in_ranges(out: &mut Vec<String>, ranges: &Vec<OsvRange>)
    ensures
        views(final(out)@) == views(old(out)@) + fixed_in_ranges(ranges@),
{
    let ghost start = views(out@);
    let mut i: usize = 0;
    while i < ranges.len()
        invariant
            i <= ranges@.len(),
            views(out@) == start + fixed_in_ranges(ranges@.take(i as int)),
        decreases ranges@.len() - i,
    {
        proof {
            assert(ranges@.take(i + 1).drop_last() == ranges@.take(i as int));
        }
        push_fixed_in_events(out, &ranges[i].events);
        i = i + 1;
    }
    assert(ranges@.take(ranges@.len() as int) == ranges@);
}

/// Every version that an advisory record names as fixing it, in order.
pub fn extract_fixed_versions(vuln: &OsvVuln) -> (fixed: Vec<String>)
    ensures
        views(fixed@) == spec_fixed_versions(*vuln),
{
    let mut fixed: Vec<String> = Vec::new();
    assert(views(fixed@) == Seq::<Seq<char>>::empty());
    if let Some(affected) = &vuln.affected {
        let mut i: usize = 0;
        while i < affected.len()
            invariant
                i <= affected@.len(),
                views(fixed@) == fixed_in_affected(affected@.take(i as int)),
            decreases affected@.len() - i,
        {
            let ghost before = views(fixed@);
            proof {
                assert(affected@.take(i + 1).drop_last() == affected@.take(i as int));
            }
            if let Some(ranges) = &affected[i].ranges {
                push_fixed_in_ranges(&mut fixed, ranges);
            } else {
                assert(before + Seq::<Seq<char>>::empty() == before);
            }
            i = i + 1;
        }
        assert(affected@.take(affected@.len() as int) == affected@);
    }
    fixed
}

/// The page of an advisory record in the database's web interface.
pub open spec fn advisory_url(id: Seq<char>) -> Seq<char> {
    "https://osv.dev/vulnerability/"@ + id
}

/// The vulnerability that an advisory record reports.
pub open spec fn reports(r: Vulnerability, v: OsvVuln) -> bool {
    &&& r.id@ == v.id@
    &&& opt_view(r.summary) == opt_view(v.summary)
    &&& r.severity == spec_map_severity(v)
    &&& views(r.fixed_versions@) == spec_fixed_versions(v)
    &&& opt_view(r.advisory_url) == Some(advisory_url(v.id@))
}

fn copy_opt_string(s: &Option<String>) -> (r: Option<String>)
    ensures
        opt_view(r) == opt_view(*s),
{
    match s {
        Some(x) => Some(x.clone()),
        None => None,
    }
}

/// The vulnerability that an advisory record reports: its id and summary,
/// its severity, the versions that fix it and the address of its page.
pub fn to_vulnerability(vuln: &OsvVuln) -> (r: Vulnerability)
    ensures
        reports(r, *vuln),
{
    let mut url = String::from_str("https://osv.dev/vulnerability/");
    url.append(vuln.id.as_str());
    Vulnerability {
        id: vuln.id.clone(),
        summary: copy_opt_string(&vuln.summary),
        severity: map_severity(vuln),
        fixed_versions: extract_fixed_versions(vuln),
        advisory_url: Some(url),
    }
}

/// The vulnerabilities that a list of advisory records reports, one for each
/// record, in order.
pub fn to_vulnerabilities(vulns: &Vec<OsvVuln>) -> (r: Vec<Vulnerability>)
    ensures
        r@.len() == vulns@.len(),
        forall|i: int| 0 <= i < vulns@.len() ==> reports(#[trigger] r@[i], vulns@[i]),
{
    let mut r: Vec<Vulnerability> = Vec::new();
    let mut i: usize = 0;
    while i < vulns.len()
        invariant
            i <= vulns@.len(),
            r@.len() == i,
            forall|j: int| 0 <= j < i ==> reports(#[trigger] r@[j], vulns@[j]),
        decreases vulns@.len() - i,
    {
        r.push(to_vulnerability(&vulns[i]));
        i = i + 1;
    }
    r
}

/// The fixed version an event names, if it names one.
pub open spec fn event_fixed() -> spec_fn(OsvEvent) -> Option<Seq<char>> {
    |e: OsvEvent| opt_view(e.fixed)
}

/// The event names a fixed version.
pub open spec fn names_fixed() -> spec_fn(OsvEvent) -> bool {
    |e: OsvEvent| e.fixed is Some
}

proof fn lemma_concat_contains(a: Seq<Seq<char>>, b: Seq<Seq<char>>)
    ensures
        forall|x: Seq<char>| #[trigger] (a + b).contains(x) <==> (a.contains(x) || b.contains(x)),
{
    assert forall|x: Seq<char>| #[trigger] (a + b).contains(x) <==> (a.contains(x) || b.contains(x)) by {
        if (a + b).contains(x) {
            let k = choose|k: int| 0 <= k < (a + b).len() && (a + b)[k] == x;
            if k < a.len() {
                assert(a[k] == x);
            } else {
                assert(b[k - a.len()] == x);
            }
        }
        if a.contains(x) {
            let k = choose|k: int| 0 <= k < a.len() && a[k] == x;
            assert((a + b)[k] == x);
        }
        if b.contains(x) {
            let k = choose|k: int| 0 <= k < b.len() && b[k] == x;
            assert((a + b)[k + a.len()] == x);
        }
    }
}

/// The fixed versions of a list of events are exactly the versions its
/// fixing events name, one for each such event, in order: the list keeps
/// every event with a fixed version and maps it to that version.
pub proof fn law_fixed_in_events(events: Seq<OsvEvent>)
    ensures
        fixed_in_events(events) == events.filter_map(event_fixed()),
        fixed_in_events(events).len() == events.filter(names_fixed()).len(),
        forall|k: int|
            0 <= k < events.len() && (#[trigger] events[k]).fixed is Some ==> fixed_in_events(events).contains(
                events[k].fixed->0@,
            ),
        forall|x: Seq<char>|
            #[trigger] fixed_in_events(events).contains(x) ==> exists|k: int|
                0 <= k < events.len() && (#[trigger] events[k]).fixed is Some && events[k].fixed->0@ == x,
    decreases events.len(),
{
    if events.len() > 0 {
        let w = events.drop_last();
        law_fixed_in_events(w);
        reveal(Seq::filter);
        let last = events.last();
        let rest = fixed_in_events(w);
        assert(events.filter(names_fixed()) == (if last.fixed is Some {
            w.filter(names_fixed()).push(last)
        } else {
            w.filter(names_fixed())
        }));
        match last.fixed {
            Some(f) => {
                assert(rest.push(f@) =~= rest + seq![f@]);
            },
            None => {},
        }
        let out = fixed_in_events(events);
        assert forall|k: int|
            0 <= k < events.len() && (#[trigger] events[k]).fixed is Some implies out.contains(
            events[k].fixed->0@,
        ) by {
            if k < w.len() {
                assert(w[k] == events[k]);
                let t = choose|t: int| 0 <= t < rest.len() && rest[t] == w[k].fixed->0@;
                assert(out[t] == rest[t]);
            } else {
                assert(out[out.len() - 1] == events[k].fixed->0@);
            }
        }
        assert forall|x: Seq<char>| #[trigger] out.contains(x) implies exists|k: int|
            0 <= k < events.len() && (#[trigger] events[k]).fixed is Some && events[k].fixed->0@ == x by {
            let t = choose|t: int| 0 <= t < out.len() && out[t] == x;
            if t < rest.len() {
                assert(rest[t] == x);
                assert(rest.contains(x));
                let k = choose|k: int| 0 <= k < w.len() && (#[trigger] w[k]).fixed is Some && w[k].fixed->0@ == x;
                assert(events[k] == w[k]);
            } else {
                assert(events[events.len() - 1] == last);
            }
        }
    }
}

proof fn lemma_fixed_in_ranges(ranges: Seq<OsvRange>)
    ensures
        forall|j: int, k: int|
            0 <= j < ranges.len() && 0 <= k < ranges[j].events@.len() && (#[trigger] ranges[j].events@[k]).fixed is Some
                ==> fixed_in_ranges(ranges).contains(ranges[j].events@[k].fixed->0@),
        forall|x: Seq<char>|
            #[trigger] fixed_in_ranges(ranges).contains(x) ==> exists|j: int, k: int|
                0 <= j < ranges.len() && 0 <= k < ranges[j].events@.len()
                    && (#[trigger] ranges[j].events@[k]).fixed is Some && ranges[j].events@[k].fixed->0@ == x,
    decreases ranges.len(),
{
    if ranges.len() > 0 {
        let w = ranges.drop_last();
        lemma_fixed_in_ranges(w);
        let last = ranges.last();
        law_fixed_in_events(last.events@);
        lemma_concat_contains(fixed_in_ranges(w), fixed_in_events(last.events@));
        assert forall|j: int, k: int|
            0 <= j < ranges.len() && 0 <= k < ranges[j].events@.len() && (#[trigger] ranges[j].events@[k]).fixed is Some
            implies fixed_in_ranges(ranges).contains(ranges[j].events@[k].fixed->0@) by {
            if j < w.len() {
                assert(w[j] == ranges[j]);
                assert(w[j].events@[k] == ranges[j].events@[k]);
            } else {
                assert(ranges[j] == last);
            }
        }
        assert forall|x: Seq<char>| #[trigger] fixed_in_ranges(ranges).contains(x) implies exists|j: int, k: int|
            0 <= j < ranges.len() && 0 <= k < ranges[j].events@.len()
                && (#[trigger] ranges[j].events@[k]).fixed is Some && ranges[j].events@[k].fixed->0@ == x by {
            if fixed_in_ranges(w).contains(x) {
                let (j, k) = choose|j: int, k: int|
                    0 <= j < w.len() && 0 <= k < w[j].events@.len()
                        && (#[trigger] w[j].events@[k]).fixed is Some && w[j].events@[k].fixed->0@ == x;
                assert(ranges[j] == w[j]);
                assert(ranges[j].events@[k] == w[j].events@[k]);
            } else {
                assert(fixed_in_events(last.events@).contains(x));
                let k = choose|k: int|
                    0 <= k < last.events@.len() && (#[trigger] last.events@[k]).fixed is Some
                        && last.events@[k].fixed->0@ == x;
                let j = ranges.len() - 1;
                assert(ranges[j] == last);
                assert(ranges[j].events@[k] == last.events@[k]);
            }
        }
    }
}

/// The ranges of the affected package `a`, none when it lists none.
pub open spec fn ranges_of(a: OsvAffected) -> Seq<OsvRange> {
    match a.ranges {
        Some(r) => r@,
        None => Seq::empty(),
    }
}

proof fn lemma_fixed_in_affected(affected: Seq<OsvAffected>)
    ensures
        forall|i: int, j: int, k: int|
            0 <= i < affected.len() && 0 <= j < ranges_of(affected[i]).len() && 0 <= k
                < ranges_of(affected[i])[j].events@.len() && (#[trigger] ranges_of(
                affected[i],
            )[j].events@[k]).fixed is Some ==> fixed_in_affected(affected).contains(
                ranges_of(affected[i])[j].events@[k].fixed->0@,
            ),
        forall|x: Seq<char>|
            #[trigger] fixed_in_affected(affected).contains(x) ==> exists|i: int, j: int, k: int|
                0 <= i < affected.len() && 0 <= j < ranges_of(affected[i]).len() && 0 <= k
                    < ranges_of(affected[i])[j].events@.len() && (#[trigger] ranges_of(
                    affected[i],
                )[j].events@[k]).fixed is Some && ranges_of(affected[i])[j].events@[k].fixed->0@ == x,
    decreases affected.len(),
{
    if affected.len() > 0 {
        let w = affected.drop_last();
        lemma_fixed_in_affected(w);
        let last = affected.last();
        let lr = ranges_of(last);
        lemma_fixed_in_ranges(lr);
        let tail: Seq<Seq<char>> = match last.ranges {
            Some(r) => fixed_in_ranges(r@),
            None => Seq::empty(),
        };
        assert(tail == fixed_in_ranges(lr)) by {
            if last.ranges is None {
                assert(fixed_in_ranges(lr) == Seq::<Seq<char>>::empty());
            }
        }
        assert(fixed_in_affected(affected) == fixed_in_affected(w) + tail);
        lemma_concat_contains(fixed_in_affected(w), tail);
        assert forall|i: int, j: int, k: int|
            0 <= i < affected.len() && 0 <= j < ranges_of(affected[i]).len() && 0 <= k
                < ranges_of(affected[i])[j].events@.len() && (#[trigger] ranges_of(
                affected[i],
            )[j].events@[k]).fixed is Some implies fixed_in_affected(affected).contains(
            ranges_of(affected[i])[j].events@[k].fixed->0@,
        ) by {
            if i < w.len() {
                assert(w[i] == affected[i]);
                assert(ranges_of(w[i])[j].events@[k] == ranges_of(affected[i])[j].events@[k]);
            } else {
                assert(affected[i] == last);
                assert(lr[j].events@[k] == ranges_of(affected[i])[j].events@[k]);
            }
        }
        assert forall|x: Seq<char>| #[trigger] fixed_in_affected(affected).contains(x) implies exists|
            i: int,
            j: int,
            k: int,
        |
            0 <= i < affected.len() && 0 <= j < ranges_of(affected[i]).len() && 0 <= k
                < ranges_of(affected[i])[j].events@.len() && (#[trigger] ranges_of(
                affected[i],
            )[j].events@[k]).fixed is Some && ranges_of(affected[i])[j].events@[k].fixed->0@ == x by {
            if fixed_in_affected(w).contains(x) {
                let (i, j, k) = choose|i: int, j: int, k: int|
                    0 <= i < w.len() && 0 <= j < ranges_of(w[i]).len() && 0 <= k
                        < ranges_of(w[i])[j].events@.len() && (#[trigger] ranges_of(
                        w[i],
                    )[j].events@[k]).fixed is Some && ranges_of(w[i])[j].events@[k].fixed->0@ == x;
                assert(affected[i] == w[i]);
                assert(ranges_of(affected[i])[j].events@[k] == ranges_of(w[i])[j].events@[k]);
            } else {
                assert(fixed_in_ranges(lr).contains(x));
                let (j, k) = choose|j: int, k: int|
                    0 <= j < lr.len() && 0 <= k < lr[j].events@.len()
                        && (#[trigger] lr[j].events@[k]).fixed is Some && lr[j].events@[k].fixed->0@ == x;
                let i = affected.len() - 1;
                assert(affected[i] == last);
                assert(ranges_of(affected[i])[j].events@[k] == lr[j].events@[k]);
            }
        }
    }
}

/// Every version that an event of the record names as fixed is among the
/// record's fixed versions, and every fixed version listed is named by some
/// event of the record.
pub proof fn law_fixed_versions(v: OsvVuln, affected: Seq<OsvAffected>)
    requires
        v.affected matches Some(a) && a@ == affected,
    ensures
        forall|i: int, j: int, k: int|
            0 <= i < affected.len() && 0 <= j < ranges_of(affected[i]).len() && 0 <= k
                < ranges_of(affected[i])[j].events@.len() && (#[trigger] ranges_of(
                affected[i],
            )[j].events@[k]).fixed is Some ==> spec_fixed_versions(v).contains(
                ranges_of(affected[i])[j].events@[k].fixed->0@,
            ),
        forall|x: Seq<char>|
            #[trigger] spec_fixed_versions(v).contains(x) ==> exists|i: int, j: int, k: int|
                0 <= i < affected.len() && 0 <= j < ranges_of(affected[i]).len() && 0 <= k
                    < ranges_of(affected[i])[j].events@.len() && (#[trigger] ranges_of(
                    affected[i],
                )[j].events@[k]).fixed is Some && ranges_of(affected[i])[j].events@[k].fixed->0@ == x,
{
    lemma_fixed_in_affected(affected);
}

/// An entry that rates the record: a CVSS v3 score that reads as a number.
pub open spec fn rates(e: OsvSeverity) -> bool {
    e.severity_type@ == "CVSS_V3"@ && e.score_rating is Some
}

/// Without a GitHub label, a record's severity is the rating of its first
/// rating entry (a CVSS v3 score that reads as a number), and there is none
/// exactly when no entry rates it. With a label, the label alone decides.
pub proof fn law_map_severity(v: OsvVuln, w: OsvVuln)
    ensures
        v.github_severity is None && v.severity is Some ==> ({
            let e = v.severity->0@;
            &&& spec_map_severity(v) is None <==> (forall|k: int| 0 <= k < e.len() ==> !rates(#[trigger] e[k]))
            &&& spec_map_severity(v) is Some ==> exists|k: int|
                0 <= k < e.len() && rates(#[trigger] e[k]) && e[k].score_rating == spec_map_severity(v)
                    && forall|j: int| 0 <= j < k ==> !rates(#[trigger] e[j])
        }),
        v.github_severity is None && v.severity is None ==> spec_map_severity(v) is None,
        v.github_severity is Some && opt_view(v.github_severity) == opt_view(w.github_severity)
            ==> spec_map_severity(v) == spec_map_severity(w),
        v.github_severity is Some ==> spec_map_severity(v) is Some,
{
    if v.github_severity is None && v.severity is Some {
        lemma_first_cvss_rating(v.severity->0@);
    }
}

proof fn lemma_first_cvss_rating(e: Seq<OsvSeverity>)
    ensures
        first_cvss_rating(e) is None <==> (forall|k: int| 0 <= k < e.len() ==> !rates(#[trigger] e[k])),
        first_cvss_rating(e) is Some ==> exists|k: int|
            0 <= k < e.len() && rates(#[trigger] e[k]) && e[k].score_rating == first_cvss_rating(e)
                && forall|j: int| 0 <= j < k ==> !rates(#[trigger] e[j]),
    decreases e.len(),
{
    if e.len() > 0 {
        let t = e.drop_first();
        lemma_first_cvss_rating(t);
        assert forall|k: int| 0 <= k < t.len() implies #[trigger] t[k] == e[k + 1] by {}
        if rates(e[0]) {
            assert(forall|j: int| 0 <= j < 0 ==> !rates(#[trigger] e[j]));
        } else {
            if first_cvss_rating(e) is None {
                assert forall|k: int| 0 <= k < e.len() implies !rates(#[trigger] e[k]) by {
                    if k > 0 {
                        assert(t[k - 1] == e[k]);
                    }
                }
            } else {
                let k = choose|k: int|
                    0 <= k < t.len() && rates(#[trigger] t[k]) && t[k].score_rating == first_cvss_rating(t)
                        && forall|j: int| 0 <= j < k ==> !rates(#[trigger] t[j]);
                assert(e[k + 1] == t[k]);
                assert forall|j: int| 0 <= j < k + 1 implies !rates(#[trigger] e[j]) by {
                    if j > 0 {
                        assert(t[j - 1] == e[j]);
                    }
                }
            }
            if forall|k: int| 0 <= k < e.len() ==> !rates(#[trigger] e[k]) {
                assert forall|k: int| 0 <= k < t.len() implies !rates(#[trigger] t[k]) by {
                    assert(t[k] == e[k + 1]);
                }
            }
        }
    }
}

/// A GitHub label rates a record as the label says: `CRITICAL` critical,
/// `HIGH` high, `MODERATE` medium, `LOW` low, and any other label unknown.
pub proof fn law_github_labels(v: OsvVuln)
    requires
        v.github_severity is Some,
    ensures
        ({
            let l = v.github_severity->0@;
            &&& l == "CRITICAL"@ ==> spec_map_severity(v) == Some(Severity::Critical)
            &&& l == "HIGH"@ ==> spec_map_severity(v) == Some(Severity::High)
            &&& l == "MODERATE"@ ==> spec_map_severity(v) == Some(Severity::Medium)
            &&& l == "LOW"@ ==> spec_map_severity(v) == Some(Severity::Low)
            &&& (l != "CRITICAL"@ && l != "HIGH"@ && l != "MODERATE"@ && l != "LOW"@)
                ==> spec_map_severity(v) == Some(Severity::Unknown)
        }),
{
    reveal_strlit("CRITICAL");
    reveal_strlit("HIGH");
    reveal_strlit("MODERATE");
    reveal_strlit("LOW");
    assert("CRITICAL"@.len() == 8);
    assert("HIGH"@.len() == 4);
    assert("MODERATE"@.len() == 8);
    assert("LOW"@.len() == 3);
    assert("CRITICAL"@ != "MODERATE"@) by {
        assert("CRITICAL"@[0] != "MODERATE"@[0]);
    }
}

} // verus!
