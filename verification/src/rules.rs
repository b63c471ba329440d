//! Diagnostic rules.  A rule looks for a byte pattern on each line of a
//! document and reports a finding spanning the first `span_len` bytes of each
//! line's first occurrence.  A rule with an empty pattern, a zero span, or a
//! span longer than its pattern is misconfigured: running it raises a
//! [`RuleFault`] and contributes no findings.

use vstd::prelude::*;

use crate::diagnostics::{Finding, FindingView, Severity};
use crate::text::{find_pattern, first_match, lemma_first_match_from_some, spec_lines, split_lines};

verus! {

/// One registered diagnostic rule.
pub struct Rule {
    pub name: String,
    pub message: String,
    pub severity: Severity,
    pub pattern: Vec<u8>,
    pub span_len: usize,
}

/// Mathematical value of a [`Rule`].
#[verifier::ext_equal]
pub struct RuleView {
    pub name: Seq<char>,
    pub message: Seq<char>,
    pub severity: Severity,
    pub pattern: Seq<u8>,
    pub span_len: usize,
}

impl View for Rule {
    type V = RuleView;

    open spec fn view(&self) -> RuleView {
        RuleView {
            name: self.name@,
            message: self.message@,
            severity: self.severity,
            pattern: self.pattern@,
            span_len: self.span_len,
        }
    }
}

impl DeepView for Rule {
    type V = RuleView;

    open spec fn deep_view(&self) -> RuleView {
        self.view()
    }
}

/// A single rule failed while running; the fault is recorded, never
/// propagated to the caller of the analysis.
#[derive(Debug)]
pub struct RuleFault {
    pub rule_name: String,
}

/// Mathematical value of a [`RuleFault`].
#[verifier::ext_equal]
pub struct RuleFaultView {
    pub rule_name: Seq<char>,
}

impl View for RuleFault {
    type V = RuleFaultView;

    open spec fn view(&self) -> RuleFaultView {
        RuleFaultView { rule_name: self.rule_name@ }
    }
}

/// A misconfigured rule raises a fault instead of producing findings.
pub open spec fn rule_faults(rule: RuleView) -> bool {
    ||| rule.pattern.len() == 0
    ||| rule.span_len == 0
    ||| rule.span_len > rule.pattern.len()
}

/// The finding `rule` reports for a pattern occurrence at column `col` of
/// line `line`.
pub open spec fn finding_of(rule: RuleView, line: int, col: int) -> FindingView {
    FindingView {
        rule_name: rule.name,
        severity: rule.severity,
        message: rule.message,
        line: line,
        col_start: col,
        col_end: col + rule.span_len,
    }
}

/// Findings of `rule` over the first `n` lines, in line order.
pub open spec fn findings_on_lines(rule: RuleView, lines: Seq<Seq<u8>>, n: int) -> Seq<FindingView>
    decreases n,
{
    if n <= 0 {
        Seq::empty()
    } else {
        findings_on_lines(rule, lines, n - 1) + match first_match(lines[n - 1], rule.pattern) {
            Some(col) => seq![finding_of(rule, n - 1, col)],
            None => Seq::empty(),
        }
    }
}

/// All findings of a healthy `rule` over `text`.
pub open spec fn spec_rule_findings(rule: RuleView, text: Seq<u8>) -> Seq<FindingView> {
    findings_on_lines(rule, spec_lines(text), spec_lines(text).len() as int)
}

impl Rule {
    /// Runs the rule over `text`: a fault for a misconfigured rule, the
    /// rule's findings in line order otherwise.
    pub fn run(&self, text: &Vec<u8>) -> (r: Result<Vec<Finding>, RuleFault>)
        ensures
            r is Err <==> rule_faults(self@),
            r matches Ok(f) ==> f.deep_view() == spec_rule_findings(self@, text@),
            r matches Err(e) ==> e@.rule_name == self@.name,
    {
        if self.pattern.len() == 0 || self.span_len == 0 || self.span_len > self.pattern.len() {
            return Err(RuleFault { rule_name: self.name.clone() });
        }
        let lines = split_lines(text);
        let ghost lines_v = spec_lines(text@);
        let mut findings: Vec<Finding> = Vec::new();
        assert(findings.deep_view() =~= findings_on_lines(self@, lines_v, 0));
        let mut i: usize = 0;
        while i < lines.len()
            invariant
                !rule_faults(self@),
                i <= lines@.len(),
                lines.deep_view() == lines_v,
                findings.deep_view() == findings_on_lines(self@, lines_v, i as int),
            decreases lines@.len() - i,
        {
            let line = &lines[i];
            assert(line@ == lines_v[i as int]);
            let _line_len: usize = line.len();
            assert(line@.len() <= usize::MAX);
            match find_pattern(line, &self.pattern) {
                Some(col) => {
                    proof {
                        lemma_first_match_from_some(line@, self.pattern@, 0);
                    }
                    assert(col + self@.span_len <= line@.len());
                    let f = Finding {
                        rule_name: self.name.clone(),
                        severity: self.severity,
                        message: self.message.clone(),
                        line: i,
                        col_start: col,
                        col_end: col + self.span_len,
                    };
                    assert(f@ == finding_of(self@, i as int, col as int));
                    let ghost prev_dv = findings.deep_view();
                    findings.push(f);
                    assert(findings.deep_view() =~~= prev_dv.push(finding_of(
                        self@,
                        i as int,
                        col as int,
                    )));
                    assert(findings.deep_view() =~= findings_on_lines(
                        self@,
                        lines_v,
                        i + 1 as int,
                    ));
                },
                None => {
                    assert(findings.deep_view() =~= findings_on_lines(
                        self@,
                        lines_v,
                        i + 1 as int,
                    ));
                },
            }
            i = i + 1;
        }
        Ok(findings)
    }
}

/// Spec value of the rule that flags `var ` declarations.
pub open spec fn spec_no_var_rule() -> RuleView {
    RuleView {
        name: "no-var"@,
        message: "Use 'let' or 'const' instead of 'var'"@,
        severity: Severity::Warning,
        pattern: seq![118u8, 97u8, 114u8, 32u8],
        span_len: 3,
    }
}

/// The rule that flags `var ` declarations, reporting a warning on the three
/// bytes of the keyword itself.
pub fn no_var_rule() -> (r: Rule)
    ensures
        r@ == spec_no_var_rule(),
{
    let mut pattern: Vec<u8> = Vec::new();
    pattern.push(118);
    pattern.push(97);
    pattern.push(114);
    pattern.push(32);
    assert(pattern@ =~= seq![118u8, 97u8, 114u8, 32u8]);
    Rule {
        name: "no-var".to_owned(),
        message: "Use 'let' or 'const' instead of 'var'".to_owned(),
        severity: Severity::Warning,
        pattern,
        span_len: 3,
    }
}

/// The default rule registry: just the `no-var` rule.
pub fn default_rules() -> (r: Vec<Rule>)
    ensures
        r.deep_view() == seq![spec_no_var_rule()],
{
    let mut rules: Vec<Rule> = Vec::new();
    rules.push(no_var_rule());
    assert(rules.deep_view() =~~= seq![spec_no_var_rule()]);
    rules
}

} // verus!
