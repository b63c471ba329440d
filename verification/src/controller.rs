//! The sync controller: consumes document lifecycle events, updates the
//! document store, runs analysis on every accepted edit, and says what the
//! caller must publish.  The transport layer delivers events in order per
//! identity; the controller applies them in that order and never publishes a
//! diagnostic set derived from a superseded version.

use vstd::prelude::*;

use crate::diagnostics::DiagnosticSet;
use crate::engine::{
    spec_analyze, spec_fault_records, DiagnosticEngine, FaultRecord, FaultRecordView,
};
use crate::rules::{Rule, RuleView};
use crate::store::{DocumentStore, SnapshotView};

verus! {

/// One document lifecycle notification from the editor.
pub enum LifecycleEvent {
    DidOpen { identity: String, version: u64, text: Vec<u8> },
    DidChange { identity: String, version: u64, text: Vec<u8> },
    DidClose { identity: String },
}

/// Mathematical value of a [`LifecycleEvent`].
#[verifier::ext_equal]
pub enum EventView {
    Open { identity: Seq<char>, version: u64, text: Seq<u8> },
    Change { identity: Seq<char>, version: u64, text: Seq<u8> },
    Close { identity: Seq<char> },
}

impl View for LifecycleEvent {
    type V = EventView;

    open spec fn view(&self) -> EventView {
        match self {
            LifecycleEvent::DidOpen { identity, version, text } => EventView::Open {
                identity: identity@,
                version: *version,
                text: text@,
            },
            LifecycleEvent::DidChange { identity, version, text } => EventView::Change {
                identity: identity@,
                version: *version,
                text: text@,
            },
            LifecycleEvent::DidClose { identity } => EventView::Close { identity: identity@ },
        }
    }
}

/// What the caller must do after an event: hand a diagnostic set to the
/// publisher gateway, tell it to withdraw the diagnostics of a closed
/// document, or nothing.
pub enum Action {
    Publish { identity: String, diagnostics: DiagnosticSet },
    Clear { identity: String },
    NoAction,
}

/// Mathematical value of an [`Action`].
#[verifier::ext_equal]
pub enum ActionView {
    Publish { identity: Seq<char>, diagnostics: crate::diagnostics::DiagnosticSetView },
    Clear { identity: Seq<char> },
    NoAction,
}

impl View for Action {
    type V = ActionView;

    open spec fn view(&self) -> ActionView {
        match self {
            Action::Publish { identity, diagnostics } => ActionView::Publish {
                identity: identity@,
                diagnostics: diagnostics@,
            },
            Action::Clear { identity } => ActionView::Clear { identity: identity@ },
            Action::NoAction => ActionView::NoAction,
        }
    }
}

/// The store contents after `event` hits a store holding `m`.  An open of an
/// already-open identity is rejected; a change is accepted only with a
/// strictly greater version; a close always removes.
pub open spec fn spec_next_store(m: Map<Seq<char>, SnapshotView>, event: EventView) -> Map<
    Seq<char>,
    SnapshotView,
> {
    match event {
        EventView::Open { identity, version, text } => {
            if m.contains_key(identity) {
                m
            } else {
                m.insert(identity, SnapshotView { identity, version, text })
            }
        },
        EventView::Change { identity, version, text } => {
            if m.contains_key(identity) && version > m[identity].version {
                m.insert(identity, SnapshotView { identity, version, text })
            } else {
                m
            }
        },
        EventView::Close { identity } => m.remove(identity),
    }
}

/// The action owed after `event`: fresh diagnostics for every accepted open
/// or change, a clear for the close of an open document, nothing for a
/// rejected or unknown event.
pub open spec fn spec_action(
    m: Map<Seq<char>, SnapshotView>,
    rules: Seq<RuleView>,
    event: EventView,
) -> ActionView {
    match event {
        EventView::Open { identity, version, text } => {
            if m.contains_key(identity) {
                ActionView::NoAction
            } else {
                ActionView::Publish {
                    identity,
                    diagnostics: spec_analyze(SnapshotView { identity, version, text }, rules),
                }
            }
        },
        EventView::Change { identity, version, text } => {
            if m.contains_key(identity) && version > m[identity].version {
                ActionView::Publish {
                    identity,
                    diagnostics: spec_analyze(SnapshotView { identity, version, text }, rules),
                }
            } else {
                ActionView::NoAction
            }
        },
        EventView::Close { identity } => {
            if m.contains_key(identity) {
                ActionView::Clear { identity }
            } else {
                ActionView::NoAction
            }
        },
    }
}

/// The fault records an accepted `event` adds to the engine's log: those of
/// the one analysis it triggers, none otherwise.
pub open spec fn spec_event_faults(
    m: Map<Seq<char>, SnapshotView>,
    rules: Seq<RuleView>,
    event: EventView,
) -> Seq<FaultRecordView> {
    match event {
        EventView::Open { identity, version, text } => {
            if m.contains_key(identity) {
                Seq::empty()
            } else {
                spec_fault_records(
                    SnapshotView { identity, version, text },
                    rules,
                    rules.len() as int,
                )
            }
        },
        EventView::Change { identity, version, text } => {
            if m.contains_key(identity) && version > m[identity].version {
                spec_fault_records(
                    SnapshotView { identity, version, text },
                    rules,
                    rules.len() as int,
                )
            } else {
                Seq::empty()
            }
        },
        EventView::Close { identity: _ } => Seq::empty(),
    }
}

/// Receives lifecycle events, owns the store, the rule registry and the
/// engine, and enforces the ordering discipline: events for one identity are
/// applied in arrival order, stale edits are dropped, and every published
/// diagnostic set is derived from the version the store holds at that
/// instant.
pub struct SyncController {
    store: DocumentStore,
    rules: Vec<Rule>,
    engine: DiagnosticEngine,
}

impl SyncController {
    /// The store's synchronization invariant.
    pub closed spec fn wf(&self) -> bool {
        self.store.wf()
    }

    /// The open documents, as identity-to-snapshot map.
    pub closed spec fn docs(&self) -> Map<Seq<char>, SnapshotView> {
        self.store@
    }

    /// The registered rules, in registration order.
    pub closed spec fn rule_views(&self) -> Seq<RuleView> {
        self.rules.deep_view()
    }

    /// Every rule fault recorded so far, in order of occurrence.
    pub closed spec fn fault_views(&self) -> Seq<FaultRecordView> {
        self.engine.fault_log.deep_view()
    }

    /// A controller with no open documents and the given rule registry.
    pub fn new(rules: Vec<Rule>) -> (c: SyncController)
        ensures
            c.wf(),
            c.docs() == Map::<Seq<char>, SnapshotView>::empty(),
            c.rule_views() == rules.deep_view(),
            c.fault_views() == Seq::<FaultRecordView>::empty(),
    {
        SyncController { store: DocumentStore::new(), rules, engine: DiagnosticEngine::new() }
    }

    /// The current snapshot for `identity`, a consistent point-in-time read.
    pub fn snapshot(&self, identity: &String) -> (r: Option<
        crate::store::DocumentSnapshot,
    >)
        requires
            self.wf(),
        ensures
            match r {
                Some(s) => self.docs().contains_key(identity@) && s@ == self.docs()[identity@],
                None => !self.docs().contains_key(identity@),
            },
    {
        self.store.snapshot(identity)
    }

    /// Every recorded rule fault, oldest first.
    pub fn fault_log(&self) -> (r: &Vec<FaultRecord>)
        ensures
            r.deep_view() == self.fault_views(),
    {
        &self.engine.fault_log
    }

    /// Applies one lifecycle event: updates the store as
    /// [`spec_next_store`] says, runs analysis on every accepted open or
    /// change, and returns the action owed to the publisher gateway.
    pub fn handle_event(&mut self, event: LifecycleEvent) -> (a: Action)
        requires
            old(self).wf(),
        ensures
            final(self).wf(),
            final(self).rule_views() == old(self).rule_views(),
            final(self).docs() == spec_next_store(old(self).docs(), event@),
            a@ == spec_action(old(self).docs(), old(self).rule_views(), event@),
            final(self).fault_views() == old(self).fault_views() + spec_event_faults(
                old(self).docs(),
                old(self).rule_views(),
                event@,
            ),
    {
        let ghost old_docs = self.store@;
        let ghost rules_v = self.rules.deep_view();
        let ghost old_faults = self.engine.fault_log.deep_view();
        match event {
            LifecycleEvent::DidOpen { identity, version, text } => {
                match self.store.open(identity.clone(), version, text) {
                    Err(_) => {
                        assert(self.engine.fault_log.deep_view() =~= old_faults + Seq::<
                            FaultRecordView,
                        >::empty());
                        Action::NoAction
                    },
                    Ok(_) => {
                        let snap = self.store.snapshot(&identity);
                        match snap {
                            Some(s) => {
                                let d = self.engine.analyze(&s, &self.rules);
                                Action::Publish { identity, diagnostics: d }
                            },
                            None => {
                                // unreachable: the snapshot was just inserted
                                assert(false);
                                Action::NoAction
                            },
                        }
                    },
                }
            },
            LifecycleEvent::DidChange { identity, version, text } => {
                match self.store.update(&identity, version, text) {
                    Err(_) => {
                        assert(self.engine.fault_log.deep_view() =~= old_faults + Seq::<
                            FaultRecordView,
                        >::empty());
                        Action::NoAction
                    },
                    Ok(_) => {
                        let snap = self.store.snapshot(&identity);
                        match snap {
                            Some(s) => {
                                let d = self.engine.analyze(&s, &self.rules);
                                Action::Publish { identity, diagnostics: d }
                            },
                            None => {
                                // unreachable: the snapshot was just replaced
                                assert(false);
                                Action::NoAction
                            },
                        }
                    },
                }
            },
            LifecycleEvent::DidClose { identity } => {
                let present = match self.store.snapshot(&identity) {
                    Some(_) => true,
                    None => false,
                };
                self.store.close(&identity);
                assert(self.engine.fault_log.deep_view() =~= old_faults + Seq::<
                    FaultRecordView,
                >::empty());
                if present {
                    Action::Clear { identity }
                } else {
                    Action::NoAction
                }
            },
        }
    }
}

} // verus!
