//! Positioned diagnostics: severities, findings, and the diagnostic set
//! computed for one document snapshot.

use vstd::prelude::*;

verus! {

/// Severity of a finding.  The scale is closed: a finding either has one of
/// these severities or is not reported at all.
#[derive(Clone, Copy, PartialEq, Eq, Structural, Debug)]
pub enum Severity {
    Error,
    Warning,
    Information,
    Hint,
}

/// One issue detected by a rule: the rule's name and message, a severity, and
/// a half-open column range `[col_start, col_end)` on one line of the text
/// that produced it.
#[derive(Debug)]
pub struct Finding {
    pub rule_name: String,
    pub severity: Severity,
    pub message: String,
    pub line: usize,
    pub col_start: usize,
    pub col_end: usize,
}

/// Mathematical value of a [`Finding`].
#[verifier::ext_equal]
pub struct FindingView {
    pub rule_name: Seq<char>,
    pub severity: Severity,
    pub message: Seq<char>,
    pub line: int,
    pub col_start: int,
    pub col_end: int,
}

impl View for Finding {
    type V = FindingView;

    open spec fn view(&self) -> FindingView {
        FindingView {
            rule_name: self.rule_name@,
            severity: self.severity,
            message: self.message@,
            line: self.line as int,
            col_start: self.col_start as int,
            col_end: self.col_end as int,
        }
    }
}

impl DeepView for Finding {
    type V = FindingView;

    open spec fn deep_view(&self) -> FindingView {
        self.view()
    }
}

/// The ordered findings computed for one document snapshot, tagged with the
/// version of the snapshot they were computed against.
pub struct DiagnosticSet {
    pub version: u64,
    pub findings: Vec<Finding>,
}

/// Mathematical value of a [`DiagnosticSet`].
#[verifier::ext_equal]
pub struct DiagnosticSetView {
    pub version: u64,
    pub findings: Seq<FindingView>,
}

impl View for DiagnosticSet {
    type V = DiagnosticSetView;

    open spec fn view(&self) -> DiagnosticSetView {
        DiagnosticSetView { version: self.version, findings: self.findings.deep_view() }
    }
}

impl DiagnosticSet {
    /// An empty set for `version`, as emitted to withdraw prior diagnostics.
    pub fn empty(version: u64) -> (d: DiagnosticSet)
        ensures
            d@ == (DiagnosticSetView { version, findings: Seq::<FindingView>::empty() }),
    {
        let d = DiagnosticSet { version, findings: Vec::new() };
        assert(d@.findings =~= Seq::<FindingView>::empty());
        d
    }
}

} // verus!
