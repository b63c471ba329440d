//! The guarantees the core gives, stated over the abstract store map and the
//! analysis spec and proved once and for all: last-write-wins for in-order
//! edits, stale rejection, idempotent close, deterministic analysis, and
//! fault isolation between rules.

use vstd::prelude::*;

use crate::controller::{spec_action, spec_next_store, ActionView, EventView};
use crate::diagnostics::FindingView;
use crate::engine::{spec_analyze, spec_findings};
use crate::rules::{findings_on_lines, rule_faults, spec_rule_findings, RuleView};
use crate::store::SnapshotView;

verus! {

/// The store contents after a sequence of events hits a store holding `m`,
/// oldest event first.
pub open spec fn store_after(m: Map<Seq<char>, SnapshotView>, events: Seq<EventView>) -> Map<
    Seq<char>,
    SnapshotView,
>
    decreases events.len(),
{
    if events.len() == 0 {
        m
    } else {
        spec_next_store(store_after(m, events.drop_last()), events.last())
    }
}

/// `event` is a change notification for `identity`.
pub open spec fn is_change_for(event: EventView, identity: Seq<char>) -> bool {
    event matches EventView::Change { identity: id, .. } && id == identity
}

/// The version a change notification carries.
pub open spec fn change_version(event: EventView) -> u64 {
    match event {
        EventView::Change { version, .. } => version,
        _ => 0,
    }
}

/// The full text a change notification carries.
pub open spec fn change_text(event: EventView) -> Seq<u8> {
    match event {
        EventView::Change { text, .. } => text,
        _ => Seq::empty(),
    }
}

/// Last write wins: after any sequence of change events for one open
/// identity whose versions rise strictly, the store holds exactly the text
/// and version of the last event.
pub proof fn lemma_last_write_wins(
    m: Map<Seq<char>, SnapshotView>,
    identity: Seq<char>,
    events: Seq<EventView>,
)
    requires
        m.contains_key(identity),
        events.len() > 0,
        forall|i: int| 0 <= i < events.len() ==> is_change_for(#[trigger] events[i], identity),
        m[identity].version < change_version(events[0]),
        forall|i: int|
            0 <= i < events.len() - 1 ==> change_version(#[trigger] events[i]) < change_version(
                events[i + 1],
            ),
    ensures
        store_after(m, events).contains_key(identity),
        store_after(m, events)[identity].version == change_version(events.last()),
        store_after(m, events)[identity].text == change_text(events.last()),
        store_after(m, events)[identity].identity == identity,
    decreases events.len(),
{
    if events.len() == 1 {
        assert(store_after(m, events) == spec_next_store(store_after(m, events.drop_last()), events.last()));
        assert(store_after(m, events.drop_last()) == m);
    } else {
        let prefix = events.drop_last();
        assert(prefix[0] == events[0]);
        assert forall|i: int| 0 <= i < prefix.len() implies is_change_for(
            #[trigger] prefix[i],
            identity,
        ) by {
            assert(prefix[i] == events[i]);
        }
        assert forall|i: int| 0 <= i < prefix.len() - 1 implies change_version(
            #[trigger] prefix[i],
        ) < change_version(prefix[i + 1]) by {
            assert(prefix[i] == events[i]);
            assert(prefix[i + 1] == events[i + 1]);
        }
        lemma_last_write_wins(m, identity, prefix);
        assert(prefix.last() == events[events.len() - 2]);
        assert(change_version(events[events.len() - 2]) < change_version(events.last()));
    }
}

/// Stale rejection: a change whose version is not above the stored one
/// leaves the store exactly as it was.
pub proof fn lemma_stale_change_is_noop(
    m: Map<Seq<char>, SnapshotView>,
    identity: Seq<char>,
    version: u64,
    text: Seq<u8>,
)
    requires
        m.contains_key(identity),
        version <= m[identity].version,
    ensures
        spec_next_store(m, EventView::Change { identity, version, text }) == m,
{
}

/// A duplicate open is rejected and leaves the store exactly as it was.
pub proof fn lemma_duplicate_open_is_noop(
    m: Map<Seq<char>, SnapshotView>,
    identity: Seq<char>,
    version: u64,
    text: Seq<u8>,
)
    requires
        m.contains_key(identity),
    ensures
        spec_next_store(m, EventView::Open { identity, version, text }) == m,
{
}

/// Closing twice is the same as closing once.
pub proof fn lemma_close_idempotent(m: Map<Seq<char>, SnapshotView>, identity: Seq<char>)
    ensures
        spec_next_store(spec_next_store(m, EventView::Close { identity }), EventView::Close {
            identity,
        }) == spec_next_store(m, EventView::Close { identity }),
{
    assert(m.remove(identity).remove(identity) =~= m.remove(identity));
}

/// Analysis is deterministic: the same snapshot and rule registry always
/// yield the identical diagnostic set.
pub proof fn lemma_analyze_deterministic(
    snapshot1: SnapshotView,
    snapshot2: SnapshotView,
    rules1: Seq<RuleView>,
    rules2: Seq<RuleView>,
)
    requires
        snapshot1 == snapshot2,
        rules1 == rules2,
    ensures
        spec_analyze(snapshot1, rules1) == spec_analyze(snapshot2, rules2),
{
}

proof fn lemma_findings_skip_faulting(rules: Seq<RuleView>, i: int, text: Seq<u8>, n: int)
    requires
        0 <= i < rules.len(),
        rule_faults(rules[i]),
        0 <= n <= rules.len(),
    ensures
        n <= i ==> spec_findings(rules.remove(i), text, n) == spec_findings(rules, text, n),
        n > i ==> spec_findings(rules.remove(i), text, n - 1) == spec_findings(rules, text, n),
    decreases n,
{
    rules.remove_ensures(i);
    if n > 0 {
        lemma_findings_skip_faulting(rules, i, text, n - 1);
        if n <= i {
            assert(rules.remove(i)[n - 1] == rules[n - 1]);
        } else if n == i + 1 {
            assert(spec_findings(rules, text, n) == spec_findings(rules, text, n - 1)
                + Seq::<FindingView>::empty());
            assert(spec_findings(rules, text, n) =~= spec_findings(rules, text, n - 1));
        } else {
            assert(rules.remove(i)[n - 2] == rules[n - 1]);
        }
    }
}

/// Fault isolation: a faulting rule contributes no findings, and removing it
/// from the registry changes nothing in the findings of the other rules.
pub proof fn lemma_faulting_rule_isolated(rules: Seq<RuleView>, i: int, snapshot: SnapshotView)
    requires
        0 <= i < rules.len(),
        rule_faults(rules[i]),
    ensures
        spec_analyze(snapshot, rules).findings == spec_analyze(snapshot, rules.remove(i)).findings,
        spec_analyze(snapshot, rules).version == spec_analyze(snapshot, rules.remove(i)).version,
    decreases rules.len(),
{
    rules.remove_ensures(i);
    lemma_findings_skip_faulting(rules, i, snapshot.text, rules.len() as int);
}

proof fn lemma_findings_on_lines_ordered(rule: RuleView, lines: Seq<Seq<u8>>, n: int)
    requires
        n >= 0,
    ensures
        forall|a: int|
            0 <= a < findings_on_lines(rule, lines, n).len() ==> 0 <= #[trigger] findings_on_lines(
                rule,
                lines,
                n,
            )[a].line < n,
        forall|a: int, b: int|
            0 <= a < b < findings_on_lines(rule, lines, n).len() ==> findings_on_lines(
                rule,
                lines,
                n,
            )[a].line < findings_on_lines(rule, lines, n)[b].line,
    decreases n,
{
    if n > 0 {
        lemma_findings_on_lines_ordered(rule, lines, n - 1);
    }
}

/// Within one rule's output the findings come in ascending source position:
/// the rule reports at most one finding per line, in line order.
pub proof fn lemma_rule_findings_ordered(rule: RuleView, text: Seq<u8>)
    ensures
        forall|a: int, b: int|
            0 <= a < b < spec_rule_findings(rule, text).len() ==> spec_rule_findings(
                rule,
                text,
            )[a].line < spec_rule_findings(rule, text)[b].line,
{
    let lines = crate::text::spec_lines(text);
    lemma_findings_on_lines_ordered(rule, lines, lines.len() as int);
}

/// A published diagnostic set is never derived from a superseded version: the
/// action's diagnostics carry exactly the version the store holds for that
/// identity right after the event.
pub proof fn lemma_published_version_is_current(
    m: Map<Seq<char>, SnapshotView>,
    rules: Seq<RuleView>,
    event: EventView,
)
    ensures
        spec_action(m, rules, event) matches ActionView::Publish { identity, diagnostics } ==> {
            &&& spec_next_store(m, event).contains_key(identity)
            &&& diagnostics.version == spec_next_store(m, event)[identity].version
        },
{
}

/// A healthy rule's findings do appear: with a registry of one healthy rule,
/// the analysis returns exactly that rule's findings.
pub proof fn lemma_single_rule_findings(rule: RuleView, snapshot: SnapshotView)
    requires
        !rule_faults(rule),
    ensures
        spec_analyze(snapshot, seq![rule]).findings == spec_rule_findings(rule, snapshot.text),
{
    assert(spec_findings(seq![rule], snapshot.text, 1) == spec_findings(seq![rule], snapshot.text, 0)
        + spec_rule_findings(seq![rule][0], snapshot.text));
    assert(spec_findings(seq![rule], snapshot.text, 1) =~= spec_rule_findings(rule, snapshot.text));
}

} // verus!
