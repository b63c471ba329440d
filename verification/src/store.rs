//! The document store: the authoritative text of every open document, keyed
//! by identity, with versioning.  Abstractly the store is a map from identity
//! to the current snapshot; stale updates are rejected and leave it unchanged.

use vstd::pervasive::VecAdditionalExecFns;
use vstd::prelude::*;

verus! {

/// Immutable value of one open document: its identity, the version the editor
/// assigned, and the full text at that version.
pub struct DocumentSnapshot {
    pub identity: String,
    pub version: u64,
    pub text: Vec<u8>,
}

/// Mathematical value of a [`DocumentSnapshot`].
#[verifier::ext_equal]
pub struct SnapshotView {
    pub identity: Seq<char>,
    pub version: u64,
    pub text: Seq<u8>,
}

impl View for DocumentSnapshot {
    type V = SnapshotView;

    open spec fn view(&self) -> SnapshotView {
        SnapshotView { identity: self.identity@, version: self.version, text: self.text@ }
    }
}

/// Why a store operation rejected an event.
#[derive(Clone, Copy, PartialEq, Eq, Structural, Debug)]
pub enum StoreError {
    /// `open` for an identity that is already open.
    DuplicateOpen,
    /// `update` with a version not greater than the stored one.
    StaleVersion,
    /// `update` for an identity that was never opened.
    UnknownIdentity,
}

/// Owns the current snapshot of every open document.  Viewed as a map from
/// identity to snapshot; the implementation keeps the snapshots in a vector
/// with pairwise distinct identities.
pub struct DocumentStore {
    docs: Vec<DocumentSnapshot>,
}

impl View for DocumentStore {
    type V = Map<Seq<char>, SnapshotView>;

    closed spec fn view(&self) -> Map<Seq<char>, SnapshotView> {
        Map::new(|k: Seq<char>| self.has_key(k), |k: Seq<char>| self.docs@[self.idx_of(k)]@)
    }
}

impl DocumentStore {
    /// Identities in the vector are pairwise distinct, so each identity names
    /// at most one snapshot.
    pub closed spec fn wf(&self) -> bool {
        forall|i: int, j: int|
            0 <= i < j < self.docs@.len() ==> self.docs@[i]@.identity != self.docs@[j]@.identity
    }

    spec fn has_key(&self, k: Seq<char>) -> bool {
        exists|i: int| 0 <= i < self.docs@.len() && self.docs@[i]@.identity == k
    }

    spec fn idx_of(&self, k: Seq<char>) -> int {
        choose|i: int| 0 <= i < self.docs@.len() && self.docs@[i]@.identity == k
    }

    proof fn lemma_entry(&self, i: int)
        requires
            self.wf(),
            0 <= i < self.docs@.len(),
        ensures
            self@.contains_key(self.docs@[i]@.identity),
            self@[self.docs@[i]@.identity] == self.docs@[i]@,
            self.idx_of(self.docs@[i]@.identity) == i,
    {
        let k = self.docs@[i]@.identity;
        assert(self.has_key(k));
        let j = self.idx_of(k);
        assert(0 <= j < self.docs@.len() && self.docs@[j]@.identity == k);
        if i != j {
            assert(self.docs@[i]@.identity != self.docs@[j]@.identity);
        }
    }

    /// A store with no open documents.
    pub fn new() -> (s: DocumentStore)
        ensures
            s.wf(),
            s@ == Map::<Seq<char>, SnapshotView>::empty(),
    {
        let s = DocumentStore { docs: Vec::new() };
        proof {
            assert(s@ =~= Map::<Seq<char>, SnapshotView>::empty());
        }
        s
    }

    /// Index of the snapshot for `identity`, if one is stored.
    fn find(&self, identity: &String) -> (r: Option<usize>)
        requires
            self.wf(),
        ensures
            match r {
                Some(i) => {
                    &&& i < self.docs@.len()
                    &&& self.docs@[i as int]@.identity == identity@
                    &&& self@.contains_key(identity@)
                    &&& self@[identity@] == self.docs@[i as int]@
                },
                None => !self@.contains_key(identity@),
            },
    {
        let mut i: usize = 0;
        while i < self.docs.len()
            invariant
                self.wf(),
                i <= self.docs@.len(),
                forall|j: int| 0 <= j < i ==> self.docs@[j]@.identity != identity@,
            decreases self.docs@.len() - i,
        {
            if self.docs[i].identity == *identity {
                proof {
                    self.lemma_entry(i as int);
                }
                return Some(i);
            }
            i = i + 1;
        }
        assert(!self.has_key(identity@));
        None
    }

    /// Inserts a fresh snapshot for a not-yet-open identity; rejects an
    /// identity that is already open and leaves the store unchanged.
    pub fn open(&mut self, identity: String, version: u64, text: Vec<u8>) -> (r: Result<
        (),
        StoreError,
    >)
        requires
            old(self).wf(),
        ensures
            final(self).wf(),
            old(self)@.contains_key(identity@) ==> r == Err::<(), StoreError>(
                StoreError::DuplicateOpen,
            ) && final(self)@ == old(self)@,
            !old(self)@.contains_key(identity@) ==> r == Ok::<(), StoreError>(()) && final(self)@
                == old(self)@.insert(
                identity@,
                SnapshotView { identity: identity@, version, text: text@ },
            ),
    {
        match self.find(&identity) {
            Some(_) => Err(StoreError::DuplicateOpen),
            None => {
                let ghost old_self = *self;
                let ghost snap_v = SnapshotView { identity: identity@, version, text: text@ };
                self.docs.push(DocumentSnapshot { identity, version, text });
                proof {
                    let n = old_self.docs@.len() as int;
                    assert forall|i: int, j: int|
                        0 <= i < j < self.docs@.len() implies self.docs@[i]@.identity
                        != self.docs@[j]@.identity by {
                        if j < n {
                            assert(old_self.docs@[i]@.identity != old_self.docs@[j]@.identity);
                        } else {
                            assert(self.docs@[j]@.identity == snap_v.identity);
                            if self.docs@[i]@.identity == snap_v.identity {
                                assert(old_self.has_key(snap_v.identity));
                            }
                        }
                    }
                    assert forall|k: Seq<char>| #[trigger] self.has_key(k) implies old_self.has_key(
                        k,
                    ) || k == snap_v.identity by {
                        let i = choose|i: int|
                            0 <= i < self.docs@.len() && self.docs@[i]@.identity == k;
                        if i < n {
                            assert(old_self.has_key(k));
                        }
                    }
                    assert forall|k: Seq<char>| old_self.has_key(k) implies self.has_key(k) by {
                        let i = choose|i: int|
                            0 <= i < old_self.docs@.len() && old_self.docs@[i]@.identity == k;
                        assert(self.docs@[i]@.identity == k);
                    }
                    assert(self.docs@[n]@.identity == snap_v.identity);
                    assert(self.has_key(snap_v.identity));
                    assert forall|k: Seq<char>| self@.contains_key(k) implies self@[k] == old_self@.insert(
                        snap_v.identity,
                        snap_v,
                    )[k] by {
                        let i = self.idx_of(k);
                        self.lemma_entry(i);
                        if k == snap_v.identity {
                            assert(self@[k] == self.docs@[self.idx_of(k)]@);
                            self.lemma_entry(n);
                        } else {
                            assert(i < n);
                            old_self.lemma_entry(i);
                        }
                    }
                    assert(self@ =~= old_self@.insert(snap_v.identity, snap_v));
                }
                Ok(())
            },
        }
    }

    /// Replaces the snapshot for `identity` if `version` is strictly greater
    /// than the stored one; otherwise rejects the update and leaves the store
    /// unchanged.
    pub fn update(&mut self, identity: &String, version: u64, text: Vec<u8>) -> (r: Result<
        (),
        StoreError,
    >)
        requires
            old(self).wf(),
        ensures
            final(self).wf(),
            !old(self)@.contains_key(identity@) ==> r == Err::<(), StoreError>(
                StoreError::UnknownIdentity,
            ) && final(self)@ == old(self)@,
            old(self)@.contains_key(identity@) && version <= old(self)@[identity@].version ==> r
                == Err::<(), StoreError>(StoreError::StaleVersion) && final(self)@ == old(self)@,
            old(self)@.contains_key(identity@) && version > old(self)@[identity@].version ==> r
                == Ok::<(), StoreError>(()) && final(self)@ == old(self)@.insert(
                identity@,
                SnapshotView { identity: identity@, version, text: text@ },
            ),
    {
        match self.find(identity) {
            None => Err(StoreError::UnknownIdentity),
            Some(i) => {
                if version <= self.docs[i].version {
                    Err(StoreError::StaleVersion)
                } else {
                    let ghost old_self = *self;
                    let ghost snap_v = SnapshotView {
                        identity: identity@,
                        version,
                        text: text@,
                    };
                    let snap = DocumentSnapshot { identity: identity.clone(), version, text };
                    self.docs.set(i, snap);
                    proof {
                        let n = old_self.docs@.len() as int;
                        assert forall|a: int, b: int|
                            0 <= a < b < self.docs@.len() implies self.docs@[a]@.identity
                            != self.docs@[b]@.identity by {
                            assert(old_self.docs@[a]@.identity != old_self.docs@[b]@.identity);
                            assert(self.docs@[a]@.identity == old_self.docs@[a]@.identity);
                            assert(self.docs@[b]@.identity == old_self.docs@[b]@.identity);
                        }
                        assert forall|k: Seq<char>| #[trigger] self.has_key(k) implies old_self.has_key(
                            k,
                        ) by {
                            let a = choose|a: int|
                                0 <= a < self.docs@.len() && self.docs@[a]@.identity == k;
                            assert(old_self.docs@[a]@.identity == self.docs@[a]@.identity);
                        }
                        assert forall|k: Seq<char>| old_self.has_key(k) implies self.has_key(k) by {
                            let a = choose|a: int|
                                0 <= a < old_self.docs@.len() && old_self.docs@[a]@.identity == k;
                            assert(self.docs@[a]@.identity == k);
                        }
                        assert forall|k: Seq<char>| self@.contains_key(k) implies self@[k]
                            == old_self@.insert(identity@, snap_v)[k] by {
                            let a = self.idx_of(k);
                            self.lemma_entry(a);
                            if k == identity@ {
                                assert(self.docs@[i as int]@.identity == k);
                                self.lemma_entry(i as int);
                                assert(self@[k] == snap_v);
                            } else {
                                assert(a != i);
                                assert(self.docs@[a]@ == old_self.docs@[a]@);
                                old_self.lemma_entry(a);
                            }
                        }
                        assert(old_self@.contains_key(identity@));
                        assert(self@ =~= old_self@.insert(identity@, snap_v));
                    }
                    Ok(())
                }
            },
        }
    }

    /// Removes the snapshot for `identity`; a no-op if none is stored, so a
    /// duplicate close is tolerated.
    pub fn close(&mut self, identity: &String)
        requires
            old(self).wf(),
        ensures
            final(self).wf(),
            final(self)@ == old(self)@.remove(identity@),
    {
        match self.find(identity) {
            None => {
                proof {
                    assert(self@ =~= self@.remove(identity@));
                }
            },
            Some(i) => {
                let ghost old_self = *self;
                self.docs.remove(i);
                proof {
                    let n = old_self.docs@.len() as int;
                    assert forall|a: int, b: int|
                        0 <= a < b < self.docs@.len() implies self.docs@[a]@.identity
                        != self.docs@[b]@.identity by {
                        let oa = if a < i as int { a } else { a + 1 };
                        let ob = if b < i as int { b } else { b + 1 };
                        assert(self.docs@[a]@ == old_self.docs@[oa]@);
                        assert(self.docs@[b]@ == old_self.docs@[ob]@);
                        assert(old_self.docs@[oa]@.identity != old_self.docs@[ob]@.identity);
                    }
                    assert forall|k: Seq<char>| #[trigger] self.has_key(k) implies old_self.has_key(
                        k,
                    ) && k != identity@ by {
                        let a = choose|a: int|
                            0 <= a < self.docs@.len() && self.docs@[a]@.identity == k;
                        let oa = if a < i as int { a } else { a + 1 };
                        assert(old_self.docs@[oa]@.identity == k);
                        if k == identity@ {
                            assert(old_self.docs@[i as int]@.identity == k);
                            assert(oa != i as int);
                        }
                    }
                    assert forall|k: Seq<char>|
                        old_self.has_key(k) && k != identity@ implies self.has_key(k) by {
                        let oa = choose|oa: int|
                            0 <= oa < old_self.docs@.len() && old_self.docs@[oa]@.identity == k;
                        assert(oa != i as int);
                        let a = if oa < i as int { oa } else { oa - 1 };
                        assert(self.docs@[a]@ == old_self.docs@[oa]@);
                        assert(self.docs@[a]@.identity == k);
                    }
                    assert forall|k: Seq<char>| self@.contains_key(k) implies self@[k]
                        == old_self@.remove(identity@)[k] by {
                        let a = self.idx_of(k);
                        self.lemma_entry(a);
                        let oa = if a < i as int { a } else { a + 1 };
                        assert(self.docs@[a]@ == old_self.docs@[oa]@);
                        old_self.lemma_entry(oa);
                    }
                    assert(self@ =~= old_self@.remove(identity@));
                }
            },
        }
    }

    /// The current snapshot for `identity`: a consistent point-in-time copy.
    pub fn snapshot(&self, identity: &String) -> (r: Option<DocumentSnapshot>)
        requires
            self.wf(),
        ensures
            match r {
                Some(s) => self@.contains_key(identity@) && s@ == self@[identity@],
                None => !self@.contains_key(identity@),
            },
    {
        match self.find(identity) {
            None => None,
            Some(i) => {
                let d = &self.docs[i];
                let mut text: Vec<u8> = Vec::new();
                let mut j: usize = 0;
                while j < d.text.len()
                    invariant
                        j <= d.text@.len(),
                        text@ =~= d.text@.subrange(0, j as int),
                    decreases d.text@.len() - j,
                {
                    text.push(d.text[j]);
                    assert(text@ =~= d.text@.subrange(0, j + 1 as int));
                    j = j + 1;
                }
                assert(text@ =~= d.text@);
                Some(DocumentSnapshot { identity: d.identity.clone(), version: d.version, text })
            },
        }
    }
}

} // verus!
