//! A finding: one issue reported about an MCP server, with its severity,
//! category and the kind of check that produced it.
use vstd::prelude::*;

use crate::text::{lemma_zero_padded_value, push_zero_padded, zero_padded};

verus! {

/// How severe a finding is.
#[derive(Clone, Copy, Debug, PartialEq, Eq, Structural)]
pub enum Severity {
    Critical,
    High,
    Medium,
    Low,
}

/// What kind of weakness a finding describes.
#[derive(Clone, Copy, Debug, PartialEq, Eq, Structural)]
pub enum Category {
    CommandInjection,
    PathTraversal,
    Authentication,
    NetworkExposure,
    InformationDisclosure,
    CredentialExposure,
    SSRF,
    ToolPoisoning,
    SourceCode,
}

/// Which kind of check produced a finding.
#[derive(Clone, Copy, Debug, PartialEq, Eq, Structural)]
pub enum FindingSource {
    Static,
    Dynamic,
    SourceCode,
    Package,
}

impl Default for FindingSource {
    fn default() -> (r: Self)
        ensures
            r == FindingSource::Static,
    {
        FindingSource::Static
    }
}

impl FindingSource {
    /// The display text of the source.
    pub open spec fn label_view(self) -> Seq<char> {
        match self {
            FindingSource::Static => "Static"@,
            FindingSource::Dynamic => "Dynamic"@,
            FindingSource::SourceCode => "Source Code"@,
            FindingSource::Package => "Package"@,
        }
    }

    /// The display text of the source.
    pub fn label(&self) -> (s: String)
        ensures
            s@ == self.label_view(),
    {
        match self {
            FindingSource::Static => "Static".to_owned(),
            FindingSource::Dynamic => "Dynamic".to_owned(),
            FindingSource::SourceCode => "Source Code".to_owned(),
            FindingSource::Package => "Package".to_owned(),
        }
    }
}

impl Severity {
    /// The display text of the severity.
    pub open spec fn label_view(self) -> Seq<char> {
        match self {
            Severity::Critical => "Critical"@,
            Severity::High => "High"@,
            Severity::Medium => "Medium"@,
            Severity::Low => "Low"@,
        }
    }

    /// The display text of the severity.
    pub fn label(&self) -> (s: String)
        ensures
            s@ == self.label_view(),
    {
        match self {
            Severity::Critical => "Critical".to_owned(),
            Severity::High => "High".to_owned(),
            Severity::Medium => "Medium".to_owned(),
            Severity::Low => "Low".to_owned(),
        }
    }
}

impl Category {
    /// The display text of the category.
    pub open spec fn label_view(self) -> Seq<char> {
        match self {
            Category::CommandInjection => "Command Injection"@,
            Category::PathTraversal => "Path Traversal"@,
            Category::Authentication => "Authentication"@,
            Category::NetworkExposure => "Network Exposure"@,
            Category::InformationDisclosure => "Information Disclosure"@,
            Category::CredentialExposure => "Credential Exposure"@,
            Category::SSRF => "SSRF"@,
            Category::ToolPoisoning => "Tool Poisoning"@,
            Category::SourceCode => "Source Code"@,
        }
    }

    /// The display text of the category.
    pub fn label(&self) -> (s: String)
        ensures
            s@ == self.label_view(),
    {
        match self {
            Category::CommandInjection => "Command Injection".to_owned(),
            Category::PathTraversal => "Path Traversal".to_owned(),
            Category::Authentication => "Authentication".to_owned(),
            Category::NetworkExposure => "Network Exposure".to_owned(),
            Category::InformationDisclosure => "Information Disclosure".to_owned(),
            Category::CredentialExposure => "Credential Exposure".to_owned(),
            Category::SSRF => "SSRF".to_owned(),
            Category::ToolPoisoning => "Tool Poisoning".to_owned(),
            Category::SourceCode => "Source Code".to_owned(),
        }
    }
}

/// One reported issue.
#[derive(Clone, Debug)]
pub struct Finding {
    pub id: String,
    pub title: String,
    pub severity: Severity,
    pub category: Category,
    pub description: String,
    pub evidence: String,
    pub remediation: String,
    pub source: FindingSource,
}

/// A finding with its texts as character sequences.
pub struct FindingView {
    pub id: Seq<char>,
    pub title: Seq<char>,
    pub severity: Severity,
    pub category: Category,
    pub description: Seq<char>,
    pub evidence: Seq<char>,
    pub remediation: Seq<char>,
    pub source: FindingSource,
}

impl View for Finding {
    type V = FindingView;

    open spec fn view(&self) -> FindingView {
        FindingView {
            id: self.id@,
            title: self.title@,
            severity: self.severity,
            category: self.category,
            description: self.description@,
            evidence: self.evidence@,
            remediation: self.remediation@,
            source: self.source,
        }
    }
}

/// The views of a sequence of findings.
pub open spec fn finding_views(fs: Seq<Finding>) -> Seq<FindingView> {
    Seq::new(fs.len(), |i: int| fs[i]@)
}

/// `f` with its identifier replaced by `id`.
pub open spec fn with_id(f: FindingView, id: Seq<char>) -> FindingView {
    FindingView {
        id: id,
        title: f.title,
        severity: f.severity,
        category: f.category,
        description: f.description,
        evidence: f.evidence,
        remediation: f.remediation,
        source: f.source,
    }
}

/// The identifier of the `n`-th finding of a numbered series: the prefix and
/// `n` padded to three digits (as `{:03}` renders it).
pub open spec fn counter_id(prefix: Seq<char>, n: nat) -> Seq<char> {
    prefix + zero_padded(n, 3)
}

/// `drafts` numbered after `start`: the `k`-th (from zero) gets
/// `counter_id(prefix, start + k + 1)`.
pub open spec fn numbered_from(drafts: Seq<FindingView>, prefix: Seq<char>, start: nat) -> Seq<
    FindingView,
> {
    Seq::new(
        drafts.len(),
        |k: int| with_id(drafts[k], counter_id(prefix, (start + k + 1) as nat)),
    )
}

/// `drafts` numbered from one.
pub open spec fn numbered(drafts: Seq<FindingView>, prefix: Seq<char>) -> Seq<FindingView> {
    numbered_from(drafts, prefix, 0)
}

/// Numbering one more draft extends the numbered series by one.
pub proof fn lemma_numbered_from_push(
    drafts: Seq<FindingView>,
    d: FindingView,
    prefix: Seq<char>,
    start: nat,
)
    ensures
        numbered_from(drafts.push(d), prefix, start) == numbered_from(drafts, prefix, start).push(
            with_id(d, counter_id(prefix, (start + drafts.len() + 1) as nat)),
        ),
{
    assert(numbered_from(drafts.push(d), prefix, start) =~= numbered_from(
        drafts,
        prefix,
        start,
    ).push(with_id(d, counter_id(prefix, (start + drafts.len() + 1) as nat))));
}

/// Numbering one more draft extends the numbered series by one.
pub proof fn lemma_numbered_push(drafts: Seq<FindingView>, d: FindingView, prefix: Seq<char>)
    ensures
        numbered(drafts.push(d), prefix) == numbered(drafts, prefix).push(
            with_id(d, counter_id(prefix, (drafts.len() + 1) as nat)),
        ),
{
    lemma_numbered_from_push(drafts, d, prefix, 0);
}

/// Distinct counts give distinct identifiers.
pub proof fn lemma_counter_id_injective(prefix: Seq<char>, n: nat, m: nat)
    requires
        n != m,
    ensures
        counter_id(prefix, n) != counter_id(prefix, m),
{
    lemma_zero_padded_value(n, 3);
    lemma_zero_padded_value(m, 3);
    if counter_id(prefix, n) == counter_id(prefix, m) {
        assert(counter_id(prefix, n).skip(prefix.len() as int) =~= zero_padded(n, 3));
        assert(counter_id(prefix, m).skip(prefix.len() as int) =~= zero_padded(m, 3));
    }
}

/// Within a numbered series, no two findings share an identifier.
pub proof fn lemma_numbered_ids_distinct(drafts: Seq<FindingView>, prefix: Seq<char>, start: nat)
    ensures
        forall|i: int, j: int|
            0 <= i < j < drafts.len() ==> (#[trigger] numbered_from(drafts, prefix, start)[i]).id
                != (#[trigger] numbered_from(drafts, prefix, start)[j]).id,
{
    assert forall|i: int, j: int| 0 <= i < j < drafts.len() implies (#[trigger] numbered_from(
        drafts,
        prefix,
        start,
    )[i]).id != (#[trigger] numbered_from(drafts, prefix, start)[j]).id by {
        lemma_counter_id_injective(prefix, (start + i + 1) as nat, (start + j + 1) as nat);
    }
}

/// Appends `draft` to `out` under the next identifier of the series that
/// `counter` counts: the counter goes up by one and the identifier is
/// `prefix` followed by the new count in three digits.
pub fn push_numbered(out: &mut Vec<Finding>, counter: &mut u32, prefix: &str, draft: Finding)
    requires
        *old(counter) < u32::MAX,
    ensures
        *final(counter) == *old(counter) + 1,
        finding_views(final(out)@) == finding_views(old(out)@).push(
            with_id(draft@, counter_id(prefix@, (*old(counter) + 1) as nat)),
        ),
{
    *counter = *counter + 1;
    let mut id = prefix.to_owned();
    push_zero_padded(&mut id, *counter as u64, 3);
    let f = Finding {
        id: id,
        title: draft.title,
        severity: draft.severity,
        category: draft.category,
        description: draft.description,
        evidence: draft.evidence,
        remediation: draft.remediation,
        source: draft.source,
    };
    let ghost before = out@;
    out.push(f);
    assert(finding_views(out@) =~= finding_views(before).push(
        with_id(draft@, counter_id(prefix@, (*old(counter) + 1) as nat)),
    ));
}

} // verus!
