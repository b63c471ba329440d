//! The diagnostic engine: runs every registered rule over a document
//! snapshot, concatenates the findings in rule registration order, and tags
//! the result with the snapshot's version.  A faulting rule contributes no
//! findings; its fault is recorded in the engine's fault log and never
//! propagated.

use vstd::prelude::*;

use crate::diagnostics::{DiagnosticSet, DiagnosticSetView, Finding, FindingView};
use crate::rules::{rule_faults, spec_rule_findings, Rule, RuleView};
use crate::store::{DocumentSnapshot, SnapshotView};

verus! {

/// One recorded rule fault: which rule failed, on which document and version.
pub struct FaultRecord {
    pub identity: String,
    pub version: u64,
    pub rule_name: String,
}

/// Mathematical value of a [`FaultRecord`].
#[verifier::ext_equal]
pub struct FaultRecordView {
    pub identity: Seq<char>,
    pub version: u64,
    pub rule_name: Seq<char>,
}

impl View for FaultRecord {
    type V = FaultRecordView;

    open spec fn view(&self) -> FaultRecordView {
        FaultRecordView {
            identity: self.identity@,
            version: self.version,
            rule_name: self.rule_name@,
        }
    }
}

impl DeepView for FaultRecord {
    type V = FaultRecordView;

    open spec fn deep_view(&self) -> FaultRecordView {
        self.view()
    }
}

/// Findings of the first `n` rules over `text`, concatenated in registration
/// order; a faulting rule contributes nothing.
pub open spec fn spec_findings(rules: Seq<RuleView>, text: Seq<u8>, n: int) -> Seq<FindingView>
    decreases n,
{
    if n <= 0 {
        Seq::empty()
    } else {
        spec_findings(rules, text, n - 1) + if rule_faults(rules[n - 1]) {
            Seq::empty()
        } else {
            spec_rule_findings(rules[n - 1], text)
        }
    }
}

/// Fault records of the first `n` rules over `snapshot`, in registration
/// order.
pub open spec fn spec_fault_records(snapshot: SnapshotView, rules: Seq<RuleView>, n: int) -> Seq<
    FaultRecordView,
>
    decreases n,
{
    if n <= 0 {
        Seq::empty()
    } else {
        spec_fault_records(snapshot, rules, n - 1) + if rule_faults(rules[n - 1]) {
            seq![
                FaultRecordView {
                    identity: snapshot.identity,
                    version: snapshot.version,
                    rule_name: rules[n - 1].name,
                },
            ]
        } else {
            Seq::empty()
        }
    }
}

/// The diagnostic set for `snapshot` under `rules`: a pure function of the
/// two, which is what makes analysis deterministic.
pub open spec fn spec_analyze(snapshot: SnapshotView, rules: Seq<RuleView>) -> DiagnosticSetView {
    DiagnosticSetView {
        version: snapshot.version,
        findings: spec_findings(rules, snapshot.text, rules.len() as int),
    }
}

/// Runs rules over snapshots and keeps a log of every rule fault seen.
pub struct DiagnosticEngine {
    pub fault_log: Vec<FaultRecord>,
}

impl DiagnosticEngine {
    /// An engine with an empty fault log.
    pub fn new() -> (e: DiagnosticEngine)
        ensures
            e.fault_log.deep_view() == Seq::<FaultRecordView>::empty(),
    {
        let e = DiagnosticEngine { fault_log: Vec::new() };
        assert(e.fault_log.deep_view() =~= Seq::<FaultRecordView>::empty());
        e
    }

    /// Applies every rule to `snapshot`, concatenates the findings in rule
    /// order, and tags the result with the snapshot's version.  Faulting
    /// rules are recorded in the fault log and contribute no findings.
    pub fn analyze(&mut self, snapshot: &DocumentSnapshot, rules: &Vec<Rule>) -> (d: DiagnosticSet)
        ensures
            d@ == spec_analyze(snapshot@, rules.deep_view()),
            final(self).fault_log.deep_view() == old(self).fault_log.deep_view()
                + spec_fault_records(snapshot@, rules.deep_view(), rules.deep_view().len() as int),
    {
        let ghost rules_v = rules.deep_view();
        let ghost old_log = self.fault_log.deep_view();
        let mut findings: Vec<Finding> = Vec::new();
        assert(findings.deep_view() =~= spec_findings(rules_v, snapshot@.text, 0));
        assert(old_log =~= old_log + spec_fault_records(snapshot@, rules_v, 0));
        let mut i: usize = 0;
        while i < rules.len()
            invariant
                i <= rules@.len(),
                rules.deep_view() == rules_v,
                rules_v.len() == rules@.len(),
                findings.deep_view() == spec_findings(rules_v, snapshot@.text, i as int),
                self.fault_log.deep_view() == old_log + spec_fault_records(
                    snapshot@,
                    rules_v,
                    i as int,
                ),
            decreases rules@.len() - i,
        {
            let rule = &rules[i];
            assert(rule@ == rules_v[i as int]);
            match rule.run(&snapshot.text) {
                Ok(mut f) => {
                    let ghost prev_dv = findings.deep_view();
                    let ghost f_dv = f.deep_view();
                    findings.append(&mut f);
                    assert(findings.deep_view() =~~= prev_dv + f_dv);
                    assert(self.fault_log.deep_view() =~= old_log + spec_fault_records(
                        snapshot@,
                        rules_v,
                        i + 1 as int,
                    ));
                },
                Err(fault) => {
                    let record = FaultRecord {
                        identity: snapshot.identity.clone(),
                        version: snapshot.version,
                        rule_name: fault.rule_name,
                    };
                    assert(record@ == (FaultRecordView {
                        identity: snapshot@.identity,
                        version: snapshot@.version,
                        rule_name: rules_v[i as int].name,
                    }));
                    let ghost prev_log = self.fault_log.deep_view();
                    self.fault_log.push(record);
                    assert(self.fault_log.deep_view() =~~= prev_log.push(record@));
                    assert(self.fault_log.deep_view() =~= old_log + spec_fault_records(
                        snapshot@,
                        rules_v,
                        i + 1 as int,
                    ));
                    assert(findings.deep_view() =~= spec_findings(
                        rules_v,
                        snapshot@.text,
                        i + 1 as int,
                    ));
                },
            }
            i = i + 1;
        }
        let d = DiagnosticSet { version: snapshot.version, findings };
        assert(d@ =~= spec_analyze(snapshot@, rules_v));
        d
    }
}

} // verus!
