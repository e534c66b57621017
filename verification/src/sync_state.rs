//! The progress of one transfer.

use vstd::prelude::*;

verus! {

/// One transfer in flight: a dataset on its way from its owner to a replica,
/// with the bytes to send and the bytes sent.
#[derive(Debug, PartialEq, Eq)]
pub struct SyncState {
    /// The name of the dataset.
    pub dataset: String,
    /// The name of the server that sends: the owner.
    pub src: String,
    /// The name of the server that receives: the replica.
    pub dst: String,
    /// The size of the increment in bytes, as estimated; 0 until it is known.
    pub total_bytes: u64,
    /// The bytes that have been handed to the replica.
    pub sent_bytes: u64,
}

/// What a `SyncState` holds, as plain values.
pub struct SyncStateView {
    pub dataset: Seq<char>,
    pub src: Seq<char>,
    pub dst: Seq<char>,
    pub total_bytes: u64,
    pub sent_bytes: u64,
}

impl View for SyncState {
    type V = SyncStateView;

    open spec fn view(&self) -> SyncStateView {
        SyncStateView {
            dataset: self.dataset@,
            src: self.src@,
            dst: self.dst@,
            total_bytes: self.total_bytes,
            sent_bytes: self.sent_bytes,
        }
    }
}

impl SyncStateView {
    /// The state of the transfer of `dataset` from `src` to `dst` before
    /// anything is known or sent.
    pub open spec fn fresh(dataset: Seq<char>, src: Seq<char>, dst: Seq<char>) -> SyncStateView {
        SyncStateView { dataset, src, dst, total_bytes: 0, sent_bytes: 0 }
    }

    /// No more is counted as sent than there is to send.
    pub open spec fn well_formed(self) -> bool {
        self.sent_bytes <= self.total_bytes
    }

    /// The state once the size of the increment is known to be `total`. What
    /// is counted as sent stays within it.
    pub open spec fn with_total(self, total: u64) -> SyncStateView {
        SyncStateView {
            total_bytes: total,
            sent_bytes: if self.sent_bytes <= total {
                self.sent_bytes
            } else {
                total
            },
            ..self
        }
    }

    /// The state after `count` more bytes went to the replica. The count of
    /// bytes sent grows by `count`, but not beyond the total.
    pub open spec fn with_sent(self, count: u64) -> SyncStateView {
        SyncStateView {
            sent_bytes: if self.sent_bytes + count <= self.total_bytes {
                (self.sent_bytes + count) as u64
            } else if self.sent_bytes <= self.total_bytes {
                self.total_bytes
            } else {
                self.sent_bytes
            },
            ..self
        }
    }
}

impl Clone for SyncState {
    fn clone(&self) -> (out: Self)
        ensures
            out == *self,
    {
        SyncState {
            dataset: self.dataset.clone(),
            src: self.src.clone(),
            dst: self.dst.clone(),
            total_bytes: self.total_bytes,
            sent_bytes: self.sent_bytes,
        }
    }
}

impl Default for SyncState {
    fn default() -> (out: Self)
        ensures
            out@ == SyncStateView::fresh(Seq::empty(), Seq::empty(), Seq::empty()),
    {
        SyncState {
            dataset: String::new(),
            src: String::new(),
            dst: String::new(),
            total_bytes: 0,
            sent_bytes: 0,
        }
    }
}

impl SyncState {
    /// The state of the transfer of `dataset` from `src` to `dst` before
    /// anything is known or sent.
    pub fn new(dataset: &str, src: &str, dst: &str) -> (out: Self)
        ensures
            out@ == SyncStateView::fresh(dataset@, src@, dst@),
    {
        SyncState {
            dataset: dataset.to_owned(),
            src: src.to_owned(),
            dst: dst.to_owned(),
            total_bytes: 0,
            sent_bytes: 0,
        }
    }

    /// Records the size of the increment.
    pub fn set_total(&mut self, total: u64)
        ensures
            final(self)@ == old(self)@.with_total(total),
    {
        self.total_bytes = total;
        if self.sent_bytes > total {
            self.sent_bytes = total;
        }
    }

    /// Records that `count` more bytes went to the replica.
    pub fn add_sent(&mut self, count: u64)
        ensures
            final(self)@ == old(self)@.with_sent(count),
    {
        if self.sent_bytes <= self.total_bytes {
            if count <= self.total_bytes - self.sent_bytes {
                self.sent_bytes = self.sent_bytes + count;
            } else {
                self.sent_bytes = self.total_bytes;
            }
        }
    }
}

/// A well-formed state stays well formed when its total is set and when bytes
/// are counted, and its count of bytes sent never goes down as bytes are counted.
pub proof fn lemma_progress_kept(state: SyncStateView, total: u64, count: u64)
    requires
        state.well_formed(),
    ensures
        state.with_total(total).well_formed(),
        state.with_sent(count).well_formed(),
        state.with_sent(count).sent_bytes >= state.sent_bytes,
        SyncStateView::fresh(state.dataset, state.src, state.dst).well_formed(),
{
}

} // verus!
