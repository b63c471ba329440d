use lsp_core::controller::{Action, LifecycleEvent, SyncController};
use lsp_core::diagnostics::Severity;
use lsp_core::engine::DiagnosticEngine;
use lsp_core::rules::{default_rules, no_var_rule, Rule};
use lsp_core::store::{DocumentStore, StoreError};
use lsp_core::text::{find_pattern, split_lines};

fn bytes(s: &str) -> Vec<u8> {
    s.as_bytes().to_vec()
}

fn faulting_rule(name: &str) -> Rule {
    Rule {
        name: name.to_string(),
        message: "misconfigured".to_string(),
        severity: Severity::Error,
        pattern: Vec::new(),
        span_len: 1,
    }
}

#[test]
fn open_then_analyze_flags_var() {
    // open "doc1" version 1 with "var x = 1;": one warning at line 0, [0, 3)
    let mut c = SyncController::new(default_rules());
    let a = c.handle_event(LifecycleEvent::DidOpen {
        identity: "doc1".to_string(),
        version: 1,
        text: bytes("var x = 1;"),
    });
    match a {
        Action::Publish { identity, diagnostics } => {
            assert_eq!(identity, "doc1");
            assert_eq!(diagnostics.version, 1);
            assert_eq!(diagnostics.findings.len(), 1);
            let f = &diagnostics.findings[0];
            assert_eq!(f.rule_name, "no-var");
            assert_eq!(f.severity, Severity::Warning);
            assert!(f.message.contains("var"));
            assert_eq!(f.line, 0);
            assert_eq!(f.col_start, 0);
            assert_eq!(f.col_end, 3);
        }
        _ => panic!("expected a publish action"),
    }
}

#[test]
fn change_to_clean_text_publishes_empty_set() {
    // update "doc1" to version 2 with "let x = 1;": empty diagnostic set
    let mut c = SyncController::new(default_rules());
    c.handle_event(LifecycleEvent::DidOpen {
        identity: "doc1".to_string(),
        version: 1,
        text: bytes("var x = 1;"),
    });
    let a = c.handle_event(LifecycleEvent::DidChange {
        identity: "doc1".to_string(),
        version: 2,
        text: bytes("let x = 1;"),
    });
    match a {
        Action::Publish { identity, diagnostics } => {
            assert_eq!(identity, "doc1");
            assert_eq!(diagnostics.version, 2);
            assert!(diagnostics.findings.is_empty());
        }
        _ => panic!("expected a publish action"),
    }
}

#[test]
fn stale_change_is_dropped() {
    // version 1 after version 2 was applied: store unchanged, nothing published
    let mut c = SyncController::new(default_rules());
    c.handle_event(LifecycleEvent::DidOpen {
        identity: "doc1".to_string(),
        version: 1,
        text: bytes("var x = 1;"),
    });
    c.handle_event(LifecycleEvent::DidChange {
        identity: "doc1".to_string(),
        version: 2,
        text: bytes("let x = 1;"),
    });
    let a = c.handle_event(LifecycleEvent::DidChange {
        identity: "doc1".to_string(),
        version: 1,
        text: bytes("var z = 9;"),
    });
    assert!(matches!(a, Action::NoAction));
    let snap = c.snapshot(&"doc1".to_string()).expect("doc1 is open");
    assert_eq!(snap.version, 2);
    assert_eq!(snap.text, bytes("let x = 1;"));
}

#[test]
fn close_emits_clear_and_forgets_snapshot() {
    // close "doc1": no snapshot afterwards, a clear-diagnostics signal is emitted
    let mut c = SyncController::new(default_rules());
    c.handle_event(LifecycleEvent::DidOpen {
        identity: "doc1".to_string(),
        version: 1,
        text: bytes("var x = 1;"),
    });
    let a = c.handle_event(LifecycleEvent::DidClose { identity: "doc1".to_string() });
    match a {
        Action::Clear { identity } => assert_eq!(identity, "doc1"),
        _ => panic!("expected a clear action"),
    }
    assert!(c.snapshot(&"doc1".to_string()).is_none());
}

#[test]
fn duplicate_close_is_idempotent() {
    let mut c = SyncController::new(default_rules());
    c.handle_event(LifecycleEvent::DidOpen {
        identity: "doc1".to_string(),
        version: 1,
        text: bytes("let x;"),
    });
    let first = c.handle_event(LifecycleEvent::DidClose { identity: "doc1".to_string() });
    assert!(matches!(first, Action::Clear { .. }));
    let second = c.handle_event(LifecycleEvent::DidClose { identity: "doc1".to_string() });
    assert!(matches!(second, Action::NoAction));
    assert!(c.snapshot(&"doc1".to_string()).is_none());
}

#[test]
fn increasing_versions_last_write_wins() {
    let mut c = SyncController::new(default_rules());
    c.handle_event(LifecycleEvent::DidOpen {
        identity: "doc1".to_string(),
        version: 1,
        text: bytes("one"),
    });
    for (v, t) in [(2u64, "two"), (3, "three"), (4, "four")] {
        c.handle_event(LifecycleEvent::DidChange {
            identity: "doc1".to_string(),
            version: v,
            text: bytes(t),
        });
    }
    let snap = c.snapshot(&"doc1".to_string()).expect("doc1 is open");
    assert_eq!(snap.version, 4);
    assert_eq!(snap.text, bytes("four"));
}

#[test]
fn store_rejects_duplicate_open() {
    let mut s = DocumentStore::new();
    assert!(s.open("a".to_string(), 1, bytes("x")).is_ok());
    assert_eq!(s.open("a".to_string(), 2, bytes("y")), Err(StoreError::DuplicateOpen));
    let snap = s.snapshot(&"a".to_string()).expect("a is open");
    assert_eq!(snap.version, 1);
    assert_eq!(snap.text, bytes("x"));
}

#[test]
fn store_rejects_stale_and_unknown_updates() {
    let mut s = DocumentStore::new();
    assert_eq!(s.update(&"ghost".to_string(), 1, bytes("x")), Err(StoreError::UnknownIdentity));
    s.open("a".to_string(), 3, bytes("x")).unwrap();
    assert_eq!(s.update(&"a".to_string(), 3, bytes("y")), Err(StoreError::StaleVersion));
    assert_eq!(s.update(&"a".to_string(), 2, bytes("y")), Err(StoreError::StaleVersion));
    let snap = s.snapshot(&"a".to_string()).expect("a is open");
    assert_eq!(snap.version, 3);
    assert_eq!(snap.text, bytes("x"));
    assert!(s.update(&"a".to_string(), 4, bytes("y")).is_ok());
    let snap = s.snapshot(&"a".to_string()).expect("a is open");
    assert_eq!(snap.version, 4);
    assert_eq!(snap.text, bytes("y"));
}

#[test]
fn store_operations_are_independent_per_identity() {
    let mut s = DocumentStore::new();
    s.open("a".to_string(), 1, bytes("alpha")).unwrap();
    s.open("b".to_string(), 7, bytes("beta")).unwrap();
    s.close(&"a".to_string());
    assert!(s.snapshot(&"a".to_string()).is_none());
    let b = s.snapshot(&"b".to_string()).expect("b stays open");
    assert_eq!(b.version, 7);
    assert_eq!(b.text, bytes("beta"));
}

#[test]
fn change_for_unknown_identity_is_ignored() {
    let mut c = SyncController::new(default_rules());
    let a = c.handle_event(LifecycleEvent::DidChange {
        identity: "never-opened".to_string(),
        version: 1,
        text: bytes("var x;"),
    });
    assert!(matches!(a, Action::NoAction));
    assert!(c.snapshot(&"never-opened".to_string()).is_none());
}

#[test]
fn duplicate_open_event_is_rejected_without_corruption() {
    let mut c = SyncController::new(default_rules());
    c.handle_event(LifecycleEvent::DidOpen {
        identity: "doc1".to_string(),
        version: 1,
        text: bytes("original"),
    });
    let a = c.handle_event(LifecycleEvent::DidOpen {
        identity: "doc1".to_string(),
        version: 9,
        text: bytes("intruder"),
    });
    assert!(matches!(a, Action::NoAction));
    let snap = c.snapshot(&"doc1".to_string()).expect("doc1 is open");
    assert_eq!(snap.version, 1);
    assert_eq!(snap.text, bytes("original"));
}

#[test]
fn analyze_is_deterministic_across_runs() {
    let rules = default_rules();
    let mut s = DocumentStore::new();
    s.open("d".to_string(), 5, bytes("var a = 1;\nlet b;\nvar c = 3;")).unwrap();
    let snap = s.snapshot(&"d".to_string()).unwrap();
    let mut e1 = DiagnosticEngine::new();
    let mut e2 = DiagnosticEngine::new();
    let d1 = e1.analyze(&snap, &rules);
    let d2 = e2.analyze(&snap, &rules);
    assert_eq!(d1.version, d2.version);
    assert_eq!(d1.findings.len(), d2.findings.len());
    for (a, b) in d1.findings.iter().zip(d2.findings.iter()) {
        assert_eq!(a.rule_name, b.rule_name);
        assert_eq!(a.severity, b.severity);
        assert_eq!(a.message, b.message);
        assert_eq!(a.line, b.line);
        assert_eq!(a.col_start, b.col_start);
        assert_eq!(a.col_end, b.col_end);
    }
}

#[test]
fn faulting_rule_is_isolated_and_recorded() {
    // one misconfigured rule, then the healthy no-var rule: the fault is
    // logged, the healthy rule's findings still appear
    let rules = vec![faulting_rule("broken"), no_var_rule()];
    let mut s = DocumentStore::new();
    s.open("d".to_string(), 1, bytes("var x = 1;")).unwrap();
    let snap = s.snapshot(&"d".to_string()).unwrap();
    let mut engine = DiagnosticEngine::new();
    let d = engine.analyze(&snap, &rules);
    assert_eq!(d.findings.len(), 1);
    assert_eq!(d.findings[0].rule_name, "no-var");
    assert_eq!(engine.fault_log.len(), 1);
    assert_eq!(engine.fault_log[0].rule_name, "broken");
    assert_eq!(engine.fault_log[0].identity, "d");
    assert_eq!(engine.fault_log[0].version, 1);
}

#[test]
fn controller_records_faults_from_accepted_edits() {
    let mut c = SyncController::new(vec![faulting_rule("broken"), no_var_rule()]);
    let a = c.handle_event(LifecycleEvent::DidOpen {
        identity: "doc1".to_string(),
        version: 1,
        text: bytes("var x = 1;"),
    });
    match a {
        Action::Publish { diagnostics, .. } => {
            assert_eq!(diagnostics.findings.len(), 1);
            assert_eq!(diagnostics.findings[0].rule_name, "no-var");
        }
        _ => panic!("expected a publish action"),
    }
    let log = c.fault_log();
    assert_eq!(log.len(), 1);
    assert_eq!(log[0].rule_name, "broken");
}

#[test]
fn rule_run_reports_fault_on_misconfiguration() {
    let rule = faulting_rule("broken");
    let fault = rule.run(&bytes("anything")).expect_err("empty pattern faults");
    assert_eq!(fault.rule_name, "broken");
    let mut too_long = no_var_rule();
    too_long.span_len = too_long.pattern.len() + 1;
    assert!(too_long.run(&bytes("var x;")).is_err());
    let mut zero = no_var_rule();
    zero.span_len = 0;
    assert!(zero.run(&bytes("var x;")).is_err());
}

#[test]
fn rule_findings_report_line_and_first_column() {
    let rule = no_var_rule();
    let findings = rule.run(&bytes("let a;\n  var b = 2;\nx = var y; var z;")).unwrap();
    assert_eq!(findings.len(), 2);
    assert_eq!(findings[0].line, 1);
    assert_eq!(findings[0].col_start, 2);
    assert_eq!(findings[0].col_end, 5);
    // only the first occurrence on a line is reported
    assert_eq!(findings[1].line, 2);
    assert_eq!(findings[1].col_start, 4);
    assert_eq!(findings[1].col_end, 7);
}

#[test]
fn split_lines_handles_breaks_and_carriage_returns() {
    let as_vecs = |v: &[&str]| -> Vec<Vec<u8>> { v.iter().map(|s| bytes(s)).collect() };
    assert_eq!(split_lines(&bytes("")), as_vecs(&[]));
    assert_eq!(split_lines(&bytes("one")), as_vecs(&["one"]));
    assert_eq!(split_lines(&bytes("a\nb\nc")), as_vecs(&["a", "b", "c"]));
    assert_eq!(split_lines(&bytes("a\r\nb\r\n")), as_vecs(&["a", "b"]));
    assert_eq!(split_lines(&bytes("a\n\nb")), as_vecs(&["a", "", "b"]));
    assert_eq!(split_lines(&bytes("trailing\n")), as_vecs(&["trailing"]));
}

#[test]
fn find_pattern_returns_first_occurrence() {
    assert_eq!(find_pattern(&bytes("var var"), &bytes("var")), Some(0));
    assert_eq!(find_pattern(&bytes("a var b"), &bytes("var ")), Some(2));
    assert_eq!(find_pattern(&bytes("varnish"), &bytes("var ")), None);
    assert_eq!(find_pattern(&bytes("ab"), &bytes("abc")), None);
    assert_eq!(find_pattern(&bytes("xyz"), &bytes("")), Some(0));
    assert_eq!(find_pattern(&bytes("end var "), &bytes("var ")), Some(4));
}

#[test]
fn empty_diagnostic_set_carries_version_only() {
    let d = lsp_core::diagnostics::DiagnosticSet::empty(3);
    assert_eq!(d.version, 3);
    assert!(d.findings.is_empty());
}
