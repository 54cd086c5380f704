//! The summary of a probe run: how many findings of each severity, the
//! overall risk, and the marks shown beside findings.
use vstd::prelude::*;

use crate::models::finding::{finding_views, Finding, FindingView, Severity};

verus! {

/// The number of findings of severity `s`.
pub open spec fn severity_count(fs: Seq<FindingView>, s: Severity) -> nat
    decreases fs.len(),
{
    if fs.len() == 0 {
        0
    } else {
        severity_count(fs.drop_last(), s) + if fs.last().severity == s {
            1nat
        } else {
            0nat
        }
    }
}

/// How many findings there are of each severity.
pub struct SeverityBreakdown {
    pub critical: usize,
    pub high: usize,
    pub medium: usize,
    pub low: usize,
}

impl SeverityBreakdown {
    /// The breakdown counts the findings `fs`.
    pub open spec fn counts(&self, fs: Seq<FindingView>) -> bool {
        &&& self.critical == severity_count(fs, Severity::Critical)
        &&& self.high == severity_count(fs, Severity::High)
        &&& self.medium == severity_count(fs, Severity::Medium)
        &&& self.low == severity_count(fs, Severity::Low)
    }
}

/// The overall risk of a run: that of its most severe finding, low where
/// there is none.
pub open spec fn risk_label(b: SeverityBreakdown) -> Seq<char> {
    if b.critical > 0 {
        "🔴 CRITICAL"@
    } else if b.high > 0 {
        "🟠 HIGH"@
    } else if b.medium > 0 {
        "🟡 MEDIUM"@
    } else {
        "🟢 LOW"@
    }
}

/// The mark shown beside a finding of severity `s`.
pub open spec fn icon_of(s: Severity) -> Seq<char> {
    match s {
        Severity::Critical => "🔴"@,
        Severity::High => "🟠"@,
        Severity::Medium => "🟡"@,
        Severity::Low => "🟢"@,
    }
}

/// Every finding has exactly one severity, so the counts add up to the
/// number of findings.
pub proof fn lemma_counts_add_up(fs: Seq<FindingView>)
    ensures
        severity_count(fs, Severity::Critical) + severity_count(fs, Severity::High)
            + severity_count(fs, Severity::Medium) + severity_count(fs, Severity::Low) == fs.len(),
    decreases fs.len(),
{
    if fs.len() > 0 {
        lemma_counts_add_up(fs.drop_last());
    }
}

proof fn lemma_count_bounded(fs: Seq<FindingView>, s: Severity)
    ensures
        severity_count(fs, s) <= fs.len(),
    decreases fs.len(),
{
    if fs.len() > 0 {
        lemma_count_bounded(fs.drop_last(), s);
    }
}

/// Counts the findings of each severity.
pub fn severity_breakdown(findings: &Vec<Finding>) -> (b: SeverityBreakdown)
    ensures
        b.counts(finding_views(findings@)),
{
    let ghost fv = finding_views(findings@);
    let mut b = SeverityBreakdown { critical: 0, high: 0, medium: 0, low: 0 };
    let n = findings.len();
    for i in 0..n
        invariant
            n == findings@.len(),
            fv == finding_views(findings@),
            b.counts(fv.take(i as int)),
    {
        proof {
            assert(fv.take(i + 1).drop_last() =~= fv.take(i as int));
            assert(fv.take(i + 1).last() == findings@[i as int]@);
            lemma_count_bounded(fv.take(i as int), Severity::Critical);
            lemma_count_bounded(fv.take(i as int), Severity::High);
            lemma_count_bounded(fv.take(i as int), Severity::Medium);
            lemma_count_bounded(fv.take(i as int), Severity::Low);
        }
        match findings[i].severity {
            Severity::Critical => b.critical = b.critical + 1,
            Severity::High => b.high = b.high + 1,
            Severity::Medium => b.medium = b.medium + 1,
            Severity::Low => b.low = b.low + 1,
        }
    }
    assert(fv.take(n as int) =~= fv);
    b
}

/// The overall risk of a run with the breakdown `b`.
pub fn risk_score(b: &SeverityBreakdown) -> (r: &'static str)
    ensures
        r@ == risk_label(*b),
{
    if b.critical > 0 {
        "🔴 CRITICAL"
    } else if b.high > 0 {
        "🟠 HIGH"
    } else if b.medium > 0 {
        "🟡 MEDIUM"
    } else {
        "🟢 LOW"
    }
}

/// The mark shown beside a finding of severity `s`.
pub fn severity_icon(s: Severity) -> (r: &'static str)
    ensures
        r@ == icon_of(s),
{
    match s {
        Severity::Critical => "🔴",
        Severity::High => "🟠",
        Severity::Medium => "🟡",
        Severity::Low => "🟢",
    }
}

} // verus!
