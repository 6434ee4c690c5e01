//! The supervisor of the connectors: it keeps which connectors are ready,
//! says when all of them are, and says when the process has to end.

use vstd::prelude::*;

verus! {

/// What a connector reports about itself.
#[derive(Debug, PartialEq)]
pub enum LifeCycleMessage {
    /// The connector is ready.
    Ready { idx: usize },
    /// The connector lost its connection and goes on.
    Disconnected { idx: usize, err: String },
    /// The connector failed at one message and goes on.
    Failed { idx: usize, err: String },
    /// The connector has ended.
    Exited { idx: usize, err: String },
}

/// What the supervisor asks for after a report.
#[derive(Clone, Copy, Debug, PartialEq, Eq, Structural)]
pub enum LifeCycleAction {
    /// Nothing but to go on.
    Continue,
    /// Signal that all connectors are ready.
    SignalAllReady,
    /// End the process with this status.
    Exit { status: u8 },
}

/// Whether the first entry for `idx` in `entries` says ready, if there is an
/// entry for it.
pub open spec fn lookup(entries: Seq<(usize, bool)>, idx: usize) -> Option<bool>
    decreases entries.len(),
{
    if entries.len() == 0 {
        None
    } else if entries[0].0 == idx {
        Some(entries[0].1)
    } else {
        lookup(entries.drop_first(), idx)
    }
}

/// Whether `entries` holds an entry for `idx`.
pub open spec fn known(entries: Seq<(usize, bool)>, idx: usize) -> bool {
    exists|k: int| 0 <= k < entries.len() && (#[trigger] entries[k]).0 == idx
}

/// Whether no connector is looked up as not ready.
pub open spec fn none_pending(entries: Seq<(usize, bool)>) -> bool {
    forall|idx: usize| lookup(entries, idx) != Some(false)
}

/// No connector has two entries.
pub open spec fn distinct_keys(entries: Seq<(usize, bool)>) -> bool {
    forall|i: int, j: int| 0 <= i < j < entries.len() ==> entries[i].0 != entries[j].0
}

/// In a list without doubles, each entry is the one that `lookup` finds.
proof fn lemma_lookup_entry(entries: Seq<(usize, bool)>, i: int)
    requires
        distinct_keys(entries),
        0 <= i < entries.len(),
    ensures
        lookup(entries, entries[i].0) == Some(entries[i].1),
    decreases entries.len(),
{
    if i > 0 {
        let rest = entries.drop_first();
        assert(rest[i - 1] == entries[i]);
        lemma_lookup_entry(rest, i - 1);
    }
}

/// What `lookup` finds is an entry, and where there is no entry it finds
/// nothing.
proof fn lemma_lookup_found(entries: Seq<(usize, bool)>, idx: usize)
    ensures
        match lookup(entries, idx) {
            Some(ready) => exists|i: int|
                0 <= i < entries.len() && #[trigger] entries[i] == (idx, ready),
            None => forall|i: int| 0 <= i < entries.len() ==> (#[trigger] entries[i]).0 != idx,
        },
    decreases entries.len(),
{
    if entries.len() > 0 && entries[0].0 != idx {
        let rest = entries.drop_first();
        lemma_lookup_found(rest, idx);
        match lookup(rest, idx) {
            Some(ready) => {
                let i = choose|i: int| 0 <= i < rest.len() && #[trigger] rest[i] == (idx, ready);
                assert(entries[i + 1] == (idx, ready));
            },
            None => {
                assert forall|i: int| 0 <= i < entries.len() implies (#[trigger] entries[i]).0
                    != idx by {
                    if i > 0 {
                        assert(rest[i - 1] == entries[i]);
                    }
                }
            },
        }
    } else if entries.len() > 0 {
        assert(entries[0] == (idx, entries[0].1));
    }
}

/// The supervisor's record of the connectors.
#[derive(Debug)]
pub struct LifeCycleHandler {
    entries: Vec<(usize, bool)>,
    signalled: bool,
}

impl LifeCycleHandler {
    #[verifier::type_invariant]
    spec fn well_formed(self) -> bool {
        distinct_keys(self.entries@)
    }

    /// Whether the connector `idx` is known, and whether it is ready.
    pub closed spec fn ready(&self, idx: usize) -> Option<bool> {
        lookup(self.entries@, idx)
    }

    /// Whether every known connector is ready.
    pub closed spec fn all_ready(&self) -> bool {
        none_pending(self.entries@)
    }

    /// All connectors are ready when none is known as not ready.
    pub proof fn lemma_all_ready(&self)
        ensures
            self.all_ready() <==> forall|idx: usize| self.ready(idx) != Some(false),
    {
        if self.all_ready() {
            assert forall|idx: usize| self.ready(idx) != Some(false) by {
                assert(lookup(self.entries@, idx) != Some(false));
            }
        }
        if forall|idx: usize| self.ready(idx) != Some(false) {
            assert forall|idx: usize| lookup(self.entries@, idx) != Some(false) by {
                assert(self.ready(idx) != Some(false));
            }
        }
    }

    /// Whether the signal that all connectors are ready has been asked for.
    pub closed spec fn has_signalled(&self) -> bool {
        self.signalled
    }

    /// The record of the connectors `connector_idxs`, none of them ready.
    pub fn start(connector_idxs: Vec<usize>) -> (out: LifeCycleHandler)
        ensures
            !out.has_signalled(),
            forall|idx: usize|
                out.ready(idx) == if connector_idxs@.contains(idx) {
                    Some(false)
                } else {
                    None::<bool>
                },
    {
        let mut entries: Vec<(usize, bool)> = Vec::new();
        let mut i: usize = 0;
        while i < connector_idxs.len()
            invariant
                i <= connector_idxs.len(),
                distinct_keys(entries@),
                forall|k: int| 0 <= k < entries@.len() ==> !(#[trigger] entries@[k]).1,
                forall|k: int|
                    0 <= k < entries@.len() ==> connector_idxs@.subrange(0, i as int).contains(
                        (#[trigger] entries@[k]).0,
                    ),
                forall|a: int| 0 <= a < i ==> known(entries@, #[trigger] connector_idxs@[a]),
            decreases connector_idxs.len() - i,
        {
            let idx = connector_idxs[i];
            let ghost before = entries@;
            let ghost seen = connector_idxs@.subrange(0, i as int);
            let ghost now = connector_idxs@.subrange(0, i + 1);
            assert(now[i as int] == idx);
            assert forall|x: usize| seen.contains(x) implies now.contains(x) by {
                let a = choose|a: int| 0 <= a < seen.len() && seen[a] == x;
                assert(now[a] == x);
            }
            if !Self::has_entry(&entries, idx) {
                entries.push((idx, false));
                assert(entries@[before.len() as int].0 == idx);
            }
            assert forall|a: int| 0 <= a < i + 1 implies known(
                entries@,
                #[trigger] connector_idxs@[a],
            ) by {
                if a < i {
                    let k = choose|k: int|
                        0 <= k < before.len() && (#[trigger] before[k]).0 == connector_idxs@[a];
                    assert(entries@[k].0 == connector_idxs@[a]);
                } else if known(before, idx) {
                    let k = choose|k: int| 0 <= k < before.len() && (#[trigger] before[k]).0 == idx;
                    assert(entries@[k].0 == connector_idxs@[a]);
                }
            }
            i += 1;
        }
        let out = LifeCycleHandler { entries, signalled: false };
        proof {
            assert(connector_idxs@.subrange(0, connector_idxs@.len() as int) =~= connector_idxs@);
            assert forall|idx: usize|
                out.ready(idx) == if connector_idxs@.contains(idx) {
                    Some(false)
                } else {
                    None::<bool>
                } by {
                lemma_lookup_found(out.entries@, idx);
                if connector_idxs@.contains(idx) {
                    let a = choose|a: int| 0 <= a < connector_idxs@.len() && connector_idxs@[a] == idx;
                    assert(known(out.entries@, connector_idxs@[a]));
                    let k = choose|k: int|
                        0 <= k < out.entries@.len() && (#[trigger] out.entries@[k]).0
                            == connector_idxs@[a];
                    lemma_lookup_entry(out.entries@, k);
                }
            }
        }
        out
    }

    /// Whether `entries` holds an entry for `idx`.
    fn has_entry(entries: &Vec<(usize, bool)>, idx: usize) -> (out: bool)
        ensures
            out == known(entries@, idx),
    {
        let mut k: usize = 0;
        while k < entries.len()
            invariant
                k <= entries.len(),
                forall|j: int| 0 <= j < k ==> (#[trigger] entries@[j]).0 != idx,
            decreases entries.len() - k,
        {
            if entries[k].0 == idx {
                return true;
            }
            k += 1;
        }
        false
    }

    /// Whether every known connector is ready.
    pub fn is_all_ready(&self) -> (out: bool)
        ensures
            out == self.all_ready(),
    {
        proof {
            use_type_invariant(self);
        }
        let mut k: usize = 0;
        while k < self.entries.len()
            invariant
                k <= self.entries.len(),
                distinct_keys(self.entries@),
                forall|j: int| 0 <= j < k ==> (#[trigger] self.entries@[j]).1,
            decreases self.entries.len() - k,
        {
            if !self.entries[k].1 {
                proof {
                    lemma_lookup_entry(self.entries@, k as int);
                    assert(lookup(self.entries@, self.entries@[k as int].0) == Some(false));
                }
                return false;
            }
            k += 1;
        }
        proof {
            assert forall|idx: usize| lookup(self.entries@, idx) != Some(false) by {
                lemma_lookup_found(self.entries@, idx);
            }
        }
        true
    }

    /// Marks the connector `idx` as ready, known before or not.
    fn mark_ready(&mut self, idx: usize)
        ensures
            final(self).has_signalled() == old(self).has_signalled(),
            forall|other: usize|
                final(self).ready(other) == if other == idx {
                    Some(true)
                } else {
                    old(self).ready(other)
                },
    {
        proof {
            use_type_invariant(&*self);
        }
        let ghost before = self.entries@;
        let mut entries: Vec<(usize, bool)> = Vec::new();
        let mut found = false;
        let mut k: usize = 0;
        while k < self.entries.len()
            invariant
                k <= self.entries.len(),
                self.entries@ == before,
                entries@.len() == k,
                found == exists|j: int| 0 <= j < k && (#[trigger] before[j]).0 == idx,
                forall|j: int|
                    0 <= j < k ==> #[trigger] entries@[j] == if before[j].0 == idx {
                        (idx, true)
                    } else {
                        before[j]
                    },
            decreases self.entries.len() - k,
        {
            let entry = self.entries[k];
            if entry.0 == idx {
                entries.push((idx, true));
                found = true;
            } else {
                entries.push(entry);
            }
            k += 1;
        }
        if !found {
            entries.push((idx, true));
        }
        proof {
            assert(distinct_keys(entries@)) by {
                assert forall|i: int, j: int| 0 <= i < j < entries@.len() implies entries@[i].0
                    != entries@[j].0 by {
                    if j < before.len() {
                        assert(entries@[i].0 == before[i].0 && entries@[j].0 == before[j].0);
                    } else {
                        assert(entries@[i].0 == before[i].0);
                    }
                }
            }
            assert forall|other: usize|
                lookup(entries@, other) == if other == idx {
                    Some(true)
                } else {
                    lookup(before, other)
                } by {
                lemma_lookup_found(entries@, other);
                lemma_lookup_found(before, other);
                if other == idx {
                    let at = if found {
                        choose|j: int| 0 <= j < before.len() && (#[trigger] before[j]).0 == idx
                    } else {
                        before.len() as int
                    };
                    assert(entries@[at] == (idx, true));
                    lemma_lookup_entry(entries@, at);
                } else {
                    match lookup(before, other) {
                        Some(ready) => {
                            let j = choose|j: int|
                                0 <= j < before.len() && #[trigger] before[j] == (other, ready);
                            assert(entries@[j] == before[j]);
                            lemma_lookup_entry(entries@, j);
                        },
                        None => {
                            if lookup(entries@, other) is Some {
                                let ready = lookup(entries@, other).unwrap();
                                let j = choose|j: int|
                                    0 <= j < entries@.len() && #[trigger] entries@[j] == (
                                        other,
                                        ready,
                                    );
                                if j < before.len() {
                                    assert(before[j].0 == other);
                                }
                            }
                        },
                    }
                }
            }
        }
        self.entries = entries;
    }

    /// Takes in a report. A connector that reports ready is marked ready, and
    /// the first time that all connectors are ready after such a report, the
    /// signal is asked for. A connector that has ended ends the process with
    /// status 1. Every other report changes nothing.
    pub fn handle(&mut self, message: &LifeCycleMessage) -> (out: LifeCycleAction)
        ensures
            match *message {
                LifeCycleMessage::Ready { idx } => {
                    &&& forall|other: usize|
                        final(self).ready(other) == if other == idx {
                            Some(true)
                        } else {
                            old(self).ready(other)
                        }
                    &&& out == if final(self).all_ready() && !old(self).has_signalled() {
                        LifeCycleAction::SignalAllReady
                    } else {
                        LifeCycleAction::Continue
                    }
                    &&& final(self).has_signalled() == (old(self).has_signalled()
                        || final(self).all_ready())
                },
                LifeCycleMessage::Exited { .. } => {
                    &&& out == LifeCycleAction::Exit { status: 1 }
                    &&& final(self).has_signalled() == old(self).has_signalled()
                    &&& forall|other: usize| final(self).ready(other) == old(self).ready(other)
                },
                _ => {
                    &&& out == LifeCycleAction::Continue
                    &&& final(self).has_signalled() == old(self).has_signalled()
                    &&& forall|other: usize| final(self).ready(other) == old(self).ready(other)
                },
            },
    {
        match message {
            LifeCycleMessage::Ready { idx } => {
                self.mark_ready(*idx);
                let ghost marked = *self;
                assert(forall|other: usize|
                    marked.ready(other) == if other == *idx {
                        Some(true)
                    } else {
                        old(self).ready(other)
                    });
                let all = self.is_all_ready();
                if all && !self.signalled {
                    proof {
                        use_type_invariant(&*self);
                    }
                    self.signalled = true;
                    assert forall|other: usize|
                        self.ready(other) == if other == *idx {
                            Some(true)
                        } else {
                            old(self).ready(other)
                        } by {
                        assert(self.ready(other) == marked.ready(other));
                    }
                    LifeCycleAction::SignalAllReady
                } else {
                    LifeCycleAction::Continue
                }
            },
            LifeCycleMessage::Exited { .. } => LifeCycleAction::Exit { status: 1 },
            _ => LifeCycleAction::Continue,
        }
    }
}

} // verus!
