//! The registry of the transfers in flight.
//!
//! The registry is what says whether a dataset is being replicated: a
//! transfer is entered when it is scheduled and leaves when it ends, however
//! it ends. No two of its entries are for the same dataset and replica.

use crate::sync_state::{SyncState, SyncStateView};
use crate::text::{holds, lemma_position, lemma_position_is, position, same_text};
use vstd::prelude::*;

verus! {

/// The datasets of `entries`, in order.
pub open spec fn datasets_of(entries: Seq<SyncStateView>) -> Seq<Seq<char>> {
    entries.map_values(|e: SyncStateView| e.dataset)
}

/// For each of `entries`, its dataset and its replica.
pub open spec fn routes_of(entries: Seq<SyncStateView>) -> Seq<(Seq<char>, Seq<char>)> {
    entries.map_values(|e: SyncStateView| (e.dataset, e.dst))
}

/// What holds of the entries of every registry: no two are for the same
/// dataset and replica, and none counts more bytes as sent than it has to send.
pub open spec fn orderly(entries: Seq<SyncStateView>) -> bool {
    &&& routes_of(entries).no_duplicates()
    &&& forall|i: int| 0 <= i < entries.len() ==> (#[trigger] entries[i]).well_formed()
}

/// The transfers in flight, in the order in which they were scheduled.
pub struct ProgressRegistry {
    entries: Vec<SyncState>,
}

impl View for ProgressRegistry {
    type V = Seq<SyncStateView>;

    closed spec fn view(&self) -> Seq<SyncStateView> {
        self.entries@.map_values(|e: SyncState| e@)
    }
}

impl ProgressRegistry {
    #[verifier::type_invariant]
    spec fn sound(self) -> bool {
        orderly(self@)
    }

    /// Takes the entries out and leaves the registry empty.
    fn take(&mut self) -> (entries: Vec<SyncState>)
        ensures
            entries@.map_values(|e: SyncState| e@) == old(self)@,
            orderly(old(self)@),
            final(self)@ == Seq::<SyncStateView>::empty(),
    {
        proof {
            use_type_invariant(&*self);
        }
        let mut taken = ProgressRegistry::new();
        core::mem::swap(self, &mut taken);
        taken.entries
    }

    /// A registry without entries.
    pub fn new() -> (out: Self)
        ensures
            out@ == Seq::<SyncStateView>::empty(),
    {
        let out = ProgressRegistry { entries: Vec::new() };
        assert(out@ =~= Seq::<SyncStateView>::empty());
        out
    }

    /// Brings what holds of every registry into a proof: its entries are orderly.
    pub(crate) fn recall_orderly(&self)
        ensures
            orderly(self@),
    {
        proof {
            use_type_invariant(self);
        }
    }

    /// The number of transfers in flight.
    pub fn len(&self) -> (out: usize)
        ensures
            out == self@.len(),
    {
        self.entries.len()
    }

    /// Whether no transfer is in flight.
    pub fn is_empty(&self) -> (out: bool)
        ensures
            out == (self@.len() == 0),
    {
        self.entries.len() == 0
    }

    /// The index of the entry for `dataset` and the replica `dst`.
    fn find_route(&self, dataset: &str, dst: &str) -> (at: usize)
        ensures
            at == position(routes_of(self@), (dataset@, dst@)),
            at <= self@.len(),
    {
        let ghost routes = routes_of(self@);
        let mut i: usize = 0;
        while i < self.entries.len()
            invariant
                i <= self.entries.len(),
                routes == routes_of(self@),
                forall|j: int| 0 <= j < i ==> routes[j] != (dataset@, dst@),
            decreases self.entries.len() - i,
        {
            if same_text(self.entries[i].dataset.as_str(), dataset) && same_text(
                self.entries[i].dst.as_str(),
                dst,
            ) {
                proof {
                    lemma_position_is(routes, (dataset@, dst@), i as int);
                }
                return i;
            }
            i += 1;
        }
        proof {
            lemma_position_is(routes, (dataset@, dst@), i as int);
        }
        i
    }

    /// The index of the first entry for `dataset`.
    fn find_dataset(&self, dataset: &str) -> (at: usize)
        ensures
            at == position(datasets_of(self@), dataset@),
            at <= self@.len(),
    {
        let ghost names = datasets_of(self@);
        let mut i: usize = 0;
        while i < self.entries.len()
            invariant
                i <= self.entries.len(),
                names == datasets_of(self@),
                forall|j: int| 0 <= j < i ==> names[j] != dataset@,
            decreases self.entries.len() - i,
        {
            if same_text(self.entries[i].dataset.as_str(), dataset) {
                proof {
                    lemma_position_is(names, dataset@, i as int);
                }
                return i;
            }
            i += 1;
        }
        proof {
            lemma_position_is(names, dataset@, i as int);
        }
        i
    }

    /// Whether a transfer of `dataset` is in flight, to any replica.
    pub fn has_dataset(&self, dataset: &str) -> (out: bool)
        ensures
            out == holds(datasets_of(self@), dataset@),
            orderly(self@),
    {
        proof {
            use_type_invariant(self);
        }
        self.find_dataset(dataset) < self.entries.len()
    }

    /// Enters the transfer `state`, after the entries there are. A transfer
    /// for a dataset and a replica that have an entry is refused, and so is
    /// one that counts more bytes as sent than it has to send; the registry
    /// then stays as it was.
    pub fn insert(&mut self, state: SyncState) -> (entered: bool)
        ensures
            entered == (state@.well_formed() && !holds(
                routes_of(old(self)@),
                (state@.dataset, state@.dst),
            )),
            final(self)@ == if entered {
                old(self)@.push(state@)
            } else {
                old(self)@
            },
            orderly(old(self)@),
            orderly(final(self)@),
    {
        proof {
            use_type_invariant(&*self);
        }
        if state.sent_bytes > state.total_bytes {
            return false;
        }
        let at = self.find_route(state.dataset.as_str(), state.dst.as_str());
        if at < self.entries.len() {
            return false;
        }
        let ghost before = self@;
        let ghost added = state@;
        let mut entries = self.take();
        entries.push(state);
        proof {
            let after = entries@.map_values(|e: SyncState| e@);
            assert(after =~= before.push(added));
            lemma_position(routes_of(before), (added.dataset, added.dst));
            assert(routes_of(after) =~= routes_of(before).push((added.dataset, added.dst)));
        }
        *self = ProgressRegistry { entries };
        true
    }

    /// A copy of the first entry for `dataset`.
    pub fn find_by_dataset(&self, name: &str) -> (out: Option<SyncState>)
        ensures
            out matches Some(state) ==> {
                &&& holds(datasets_of(self@), name@)
                &&& state@ == self@[position(datasets_of(self@), name@) as int]
            },
            out is None ==> !holds(datasets_of(self@), name@),
    {
        let at = self.find_dataset(name);
        if at < self.entries.len() {
            Some(self.entries[at].clone())
        } else {
            None
        }
    }

    /// Removes the first entry for `dataset`, where there is one.
    pub fn remove_by_dataset(&mut self, name: &str) -> (removed: bool)
        ensures
            removed == holds(datasets_of(old(self)@), name@),
            final(self)@ == if removed {
                old(self)@.remove(position(datasets_of(old(self)@), name@) as int)
            } else {
                old(self)@
            },
            orderly(old(self)@),
            orderly(final(self)@),
    {
        proof {
            use_type_invariant(&*self);
        }
        let at = self.find_dataset(name);
        if at >= self.entries.len() {
            return false;
        }
        let ghost before = self@;
        let mut entries = self.take();
        entries.remove(at);
        proof {
            assert(entries@.map_values(|e: SyncState| e@) =~= before.remove(at as int));
            lemma_remove_keeps_order(before, at as int);
        }
        *self = ProgressRegistry { entries };
        true
    }

    /// Removes the entry for `dataset` and the replica `dst`, where there is one.
    pub fn remove(&mut self, dataset: &str, dst: &str) -> (removed: bool)
        ensures
            removed == holds(routes_of(old(self)@), (dataset@, dst@)),
            final(self)@ == if removed {
                old(self)@.remove(position(routes_of(old(self)@), (dataset@, dst@)) as int)
            } else {
                old(self)@
            },
            orderly(old(self)@),
            orderly(final(self)@),
    {
        proof {
            use_type_invariant(&*self);
        }
        let at = self.find_route(dataset, dst);
        if at >= self.entries.len() {
            return false;
        }
        let ghost before = self@;
        let mut entries = self.take();
        entries.remove(at);
        proof {
            assert(entries@.map_values(|e: SyncState| e@) =~= before.remove(at as int));
            lemma_remove_keeps_order(before, at as int);
        }
        *self = ProgressRegistry { entries };
        true
    }

    /// Records the size of the increment for `dataset` on its way to `dst`.
    /// Without an entry for the two nothing changes.
    pub fn set_total(&mut self, dataset: &str, dst: &str, total: u64)
        ensures
            final(self)@ == with_total(old(self)@, dataset@, dst@, total),
            orderly(old(self)@),
            orderly(final(self)@),
    {
        proof {
            use_type_invariant(&*self);
        }
        let at = self.find_route(dataset, dst);
        if at < self.entries.len() {
            let ghost before = self@;
            let mut entries = self.take();
            let mut state = entries[at].clone();
            state.set_total(total);
            entries.set(at, state);
            proof {
                let next = before[at as int].with_total(total);
                assert(entries@.map_values(|e: SyncState| e@) =~= before.update(at as int, next));
                lemma_update_keeps_order(before, at as int, next);
            }
            *self = ProgressRegistry { entries };
        }
    }

    /// Records that `count` more bytes of `dataset` went to `dst`. Without an
    /// entry for the two nothing changes.
    pub fn add_sent(&mut self, dataset: &str, dst: &str, count: u64)
        ensures
            final(self)@ == with_sent(old(self)@, dataset@, dst@, count),
            orderly(old(self)@),
            orderly(final(self)@),
    {
        proof {
            use_type_invariant(&*self);
        }
        let at = self.find_route(dataset, dst);
        if at < self.entries.len() {
            let ghost before = self@;
            let mut entries = self.take();
            let mut state = entries[at].clone();
            state.add_sent(count);
            entries.set(at, state);
            proof {
                let next = before[at as int].with_sent(count);
                assert(entries@.map_values(|e: SyncState| e@) =~= before.update(at as int, next));
                lemma_update_keeps_order(before, at as int, next);
            }
            *self = ProgressRegistry { entries };
        }
    }

    /// A copy of every entry, in order. In it no two entries are for the same
    /// dataset and replica, and none counts more bytes as sent than it has to
    /// send.
    pub fn snapshot(&self) -> (out: Vec<SyncState>)
        ensures
            out@.map_values(|e: SyncState| e@) == self@,
            orderly(self@),
            forall|i: int|
                0 <= i < out.len() ==> (#[trigger] out[i]).sent_bytes <= out[i].total_bytes,
    {
        proof {
            use_type_invariant(self);
        }
        let mut out: Vec<SyncState> = Vec::new();
        let mut i: usize = 0;
        while i < self.entries.len()
            invariant
                i <= self.entries.len(),
                out@ == self.entries@.take(i as int),
            decreases self.entries.len() - i,
        {
            out.push(self.entries[i].clone());
            i += 1;
        }
        assert(out@ == self.entries@);
        assert forall|i: int| 0 <= i < out.len() implies (#[trigger] out[i]).sent_bytes
            <= out[i].total_bytes by {
            assert(self@[i].well_formed());
        }
        out
    }
}

/// The entries with the size of the increment recorded for `dataset` on its
/// way to `dst`; the same entries where none is for the two.
pub open spec fn with_total(
    entries: Seq<SyncStateView>,
    dataset: Seq<char>,
    dst: Seq<char>,
    total: u64,
) -> Seq<SyncStateView> {
    let at = position(routes_of(entries), (dataset, dst)) as int;
    if at < entries.len() {
        entries.update(at, entries[at].with_total(total))
    } else {
        entries
    }
}

/// The entries with `count` more bytes counted for `dataset` on its way to
/// `dst`; the same entries where none is for the two.
pub open spec fn with_sent(
    entries: Seq<SyncStateView>,
    dataset: Seq<char>,
    dst: Seq<char>,
    count: u64,
) -> Seq<SyncStateView> {
    let at = position(routes_of(entries), (dataset, dst)) as int;
    if at < entries.len() {
        entries.update(at, entries[at].with_sent(count))
    } else {
        entries
    }
}

/// Orderly entries stay orderly when one of them leaves.
pub proof fn lemma_remove_keeps_order(entries: Seq<SyncStateView>, at: int)
    requires
        orderly(entries),
        0 <= at < entries.len(),
    ensures
        orderly(entries.remove(at)),
{
    let rest = entries.remove(at);
    assert forall|i: int, j: int|
        0 <= i < rest.len() && 0 <= j < rest.len() && i != j implies routes_of(rest)[i]
        != routes_of(rest)[j] by {
        let a = if i < at {
            i
        } else {
            i + 1
        };
        let b = if j < at {
            j
        } else {
            j + 1
        };
        assert(routes_of(entries)[a] != routes_of(entries)[b]);
    }
}

/// Orderly entries stay orderly when one of them is replaced by a well-formed
/// entry for the same dataset and replica.
pub proof fn lemma_update_keeps_order(entries: Seq<SyncStateView>, at: int, next: SyncStateView)
    requires
        orderly(entries),
        0 <= at < entries.len(),
        next.well_formed(),
        next.dataset == entries[at].dataset,
        next.dst == entries[at].dst,
    ensures
        orderly(entries.update(at, next)),
{
    assert(routes_of(entries.update(at, next)) =~= routes_of(entries));
}

} // verus!
