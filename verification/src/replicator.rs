//! The replicator: one transfer of a dataset from its owner to a replica.
//!
//! A transfer goes through its stages in a fixed order: list the snapshots
//! of both servers and find the latest that they share, take a fresh
//! snapshot on the owner, ask for the size of the increment, announce the
//! transfer, then pump the increment from a sending process on the owner
//! into a receiving process on the replica. The library decides each step
//! and keeps the registry; its caller performs the step and reports how it
//! went.

use crate::clock::local_stamp;
use crate::config::{Server, ServerView};
use crate::error::{ErrorCode, ErrorView};
use crate::registry::{
    lemma_remove_keeps_order, lemma_update_keeps_order, orderly, routes_of, with_sent, with_total,
    ProgressRegistry,
};
use crate::remote::{Invocation, InvocationView, Reply, ReplyView};
use crate::snapshot::{common_index, find_latest_common_snapshot};
use crate::sync::{Transfer, TransferView};
use crate::sync_state::SyncStateView;
use crate::text::{
    holds, joined, lemma_position, lemma_position_is, maybe_text, position, texts,
};
use crate::toolkit::{
    create_snapshot_command, create_snapshot_invocation, create_snapshot_reply, created,
    estimate_send_size_command, estimate_send_size_invocation, estimate_send_size_reply, estimated,
    failure, list_snapshots_command, list_snapshots_invocation, list_snapshots_reply, listed,
    managed_name, qualified, qualified_name, receive_command, receive_invocation, send_command,
    send_invocation, snapshot_name, spawn_reply, started,
};
use vstd::prelude::*;

verus! {

/// Where a transfer stands: the step that is being performed.
#[derive(Debug, PartialEq, Eq)]
pub enum Stage {
    /// The owner's snapshots are being listed.
    ListingSource,
    /// The replica's snapshots are being listed; `ours` are the owner's.
    ListingTarget { ours: Vec<String> },
    /// The snapshot `fresh` is being taken on the owner; `base` is the
    /// latest snapshot that both servers hold.
    Minting { base: String, fresh: String },
    /// The size of the increment from `base` to `fresh` is being asked for.
    Estimating { base: String, fresh: String },
    /// The transfer is being announced to whoever scheduled it.
    Announcing { base: String, fresh: String },
    /// The sending process is being started on the owner.
    StartingSend { base: String, fresh: String },
    /// The receiving process is being started on the replica.
    StartingReceive { base: String, fresh: String },
    /// The output of the sending process is being taken.
    TakingOutput { base: String, fresh: String },
    /// The input of the receiving process is being taken.
    TakingInput { base: String, fresh: String },
    /// A chunk is being read from the sending process.
    Reading,
    /// The chunk of `count` bytes is being written to the receiving process.
    Writing { count: u64 },
    /// The input of the receiving process is being closed.
    Closing,
    /// The sending process is being waited for.
    AwaitingSend,
    /// The receiving process is being waited for.
    AwaitingReceive,
    /// The transfer has ended, with `error` or without one.
    Finished { error: Option<ErrorCode> },
}

/// What a `Stage` holds, as plain values.
pub enum StageView {
    ListingSource,
    ListingTarget { ours: Seq<Seq<char>> },
    Minting { base: Seq<char>, fresh: Seq<char> },
    Estimating { base: Seq<char>, fresh: Seq<char> },
    Announcing { base: Seq<char>, fresh: Seq<char> },
    StartingSend { base: Seq<char>, fresh: Seq<char> },
    StartingReceive { base: Seq<char>, fresh: Seq<char> },
    TakingOutput { base: Seq<char>, fresh: Seq<char> },
    TakingInput { base: Seq<char>, fresh: Seq<char> },
    Reading,
    Writing { count: u64 },
    Closing,
    AwaitingSend,
    AwaitingReceive,
    Finished { error: Option<ErrorView> },
}

/// An error as plain text, where there is one.
pub open spec fn error_view(error: Option<ErrorCode>) -> Option<ErrorView> {
    match error {
        Some(e) => Some(e@),
        None => None,
    }
}

impl View for Stage {
    type V = StageView;

    open spec fn view(&self) -> StageView {
        match self {
            Stage::ListingSource => StageView::ListingSource,
            Stage::ListingTarget { ours } => StageView::ListingTarget { ours: texts(ours@) },
            Stage::Minting { base, fresh } => StageView::Minting { base: base@, fresh: fresh@ },
            Stage::Estimating { base, fresh } => StageView::Estimating {
                base: base@,
                fresh: fresh@,
            },
            Stage::Announcing { base, fresh } => StageView::Announcing {
                base: base@,
                fresh: fresh@,
            },
            Stage::StartingSend { base, fresh } => StageView::StartingSend {
                base: base@,
                fresh: fresh@,
            },
            Stage::StartingReceive { base, fresh } => StageView::StartingReceive {
                base: base@,
                fresh: fresh@,
            },
            Stage::TakingOutput { base, fresh } => StageView::TakingOutput {
                base: base@,
                fresh: fresh@,
            },
            Stage::TakingInput { base, fresh } => StageView::TakingInput {
                base: base@,
                fresh: fresh@,
            },
            Stage::Reading => StageView::Reading,
            Stage::Writing { count } => StageView::Writing { count: *count },
            Stage::Closing => StageView::Closing,
            Stage::AwaitingSend => StageView::AwaitingSend,
            Stage::AwaitingReceive => StageView::AwaitingReceive,
            Stage::Finished { error } => StageView::Finished { error: error_view(*error) },
        }
    }
}

/// How the step that was asked for went.
#[derive(Debug, PartialEq, Eq)]
pub enum Event {
    /// The command ended with `reply`.
    Replied { reply: Reply },
    /// The step was done.
    Done,
    /// The step failed.
    Failed,
    /// `count` bytes were read from the sending process; none at the end of
    /// its output.
    Read { count: u64 },
}

/// What an `Event` holds, as plain values.
pub enum EventView {
    Replied { reply: ReplyView },
    Done,
    Failed,
    Read { count: u64 },
}

impl View for Event {
    type V = EventView;

    open spec fn view(&self) -> EventView {
        match self {
            Event::Replied { reply } => EventView::Replied { reply: reply@ },
            Event::Done => EventView::Done,
            Event::Failed => EventView::Failed,
            Event::Read { count } => EventView::Read { count: *count },
        }
    }
}

impl EventView {
    /// The reply that the event brings. An event that brings none, where a
    /// command was asked for, counts as the command's failure.
    pub open spec fn reply(self) -> ReplyView {
        match self {
            EventView::Replied { reply } => reply,
            _ => ReplyView::Failed,
        }
    }
}

/// The step that the caller is to perform next.
#[derive(Debug, PartialEq, Eq)]
pub enum Step {
    /// Run `command` on `server` to its end and report what it wrote.
    Collect { server: Server, command: Invocation },
    /// Run `command` on `server` to its end and report its exit status.
    Run { server: Server, command: Invocation },
    /// Start `command` on `server` with its output piped: the sending process.
    SpawnSend { server: Server, command: Invocation },
    /// Start `command` on `server` with its input piped: the receiving process.
    SpawnReceive { server: Server, command: Invocation },
    /// Tell whoever scheduled the transfer that its size is known.
    Announce,
    /// Take the output of the sending process.
    TakeOutput,
    /// Take the input of the receiving process.
    TakeInput,
    /// Read the next chunk from the sending process.
    Read,
    /// Write the chunk of `count` bytes to the receiving process.
    Write { count: u64 },
    /// Close the input of the receiving process.
    Close,
    /// Wait for the sending process.
    AwaitSend,
    /// Wait for the receiving process.
    AwaitReceive,
    /// Nothing is left to do: the transfer ended, with `error` or without
    /// one. Where `unannounced`, whoever scheduled the transfer still waits
    /// for its announcement and is to be told of the end instead.
    Finish { error: Option<ErrorCode>, unannounced: bool },
}

/// What a `Step` holds, as plain values.
pub enum StepView {
    Collect { server: ServerView, command: InvocationView },
    Run { server: ServerView, command: InvocationView },
    SpawnSend { server: ServerView, command: InvocationView },
    SpawnReceive { server: ServerView, command: InvocationView },
    Announce,
    TakeOutput,
    TakeInput,
    Read,
    Write { count: u64 },
    Close,
    AwaitSend,
    AwaitReceive,
    Finish { error: Option<ErrorView>, unannounced: bool },
}

impl View for Step {
    type V = StepView;

    open spec fn view(&self) -> StepView {
        match self {
            Step::Collect { server, command } => StepView::Collect {
                server: server@,
                command: command@,
            },
            Step::Run { server, command } => StepView::Run { server: server@, command: command@ },
            Step::SpawnSend { server, command } => StepView::SpawnSend {
                server: server@,
                command: command@,
            },
            Step::SpawnReceive { server, command } => StepView::SpawnReceive {
                server: server@,
                command: command@,
            },
            Step::Announce => StepView::Announce,
            Step::TakeOutput => StepView::TakeOutput,
            Step::TakeInput => StepView::TakeInput,
            Step::Read => StepView::Read,
            Step::Write { count } => StepView::Write { count: *count },
            Step::Close => StepView::Close,
            Step::AwaitSend => StepView::AwaitSend,
            Step::AwaitReceive => StepView::AwaitReceive,
            Step::Finish { error, unannounced } => StepView::Finish {
                error: error_view(*error),
                unannounced: *unannounced,
            },
        }
    }
}

/// A transfer after a step: its stage, the step to perform, and the entries
/// of the registry.
pub struct Turn {
    pub stage: StageView,
    pub step: StepView,
    pub entries: Seq<SyncStateView>,
}

/// The entries without the one for `dataset` and the replica `dst`.
pub open spec fn without(entries: Seq<SyncStateView>, dataset: Seq<char>, dst: Seq<char>) -> Seq<
    SyncStateView,
> {
    if holds(routes_of(entries), (dataset, dst)) {
        entries.remove(position(routes_of(entries), (dataset, dst)) as int)
    } else {
        entries
    }
}

impl TransferView {
    /// The end of the transfer, with `error` or without one: its entry leaves
    /// the registry.
    pub open spec fn ended(
        self,
        error: Option<ErrorView>,
        unannounced: bool,
        entries: Seq<SyncStateView>,
    ) -> Turn {
        Turn {
            stage: StageView::Finished { error },
            step: StepView::Finish { error, unannounced },
            entries: without(entries, self.dataset, self.dst.name),
        }
    }

    /// The transfer goes on to `stage` with `step`, the registry holding `entries`.
    pub open spec fn goes_on(self, stage: StageView, step: StepView, entries: Seq<SyncStateView>)
        -> Turn {
        Turn { stage, step, entries }
    }

    /// The first turn of the transfer: the owner's snapshots are listed, the
    /// newest first.
    pub open spec fn begun(self, entries: Seq<SyncStateView>) -> Turn {
        Turn {
            stage: StageView::ListingSource,
            step: StepView::Collect {
                server: self.src,
                command: list_snapshots_invocation(self.src.pool, self.dataset, true),
            },
            entries,
        }
    }

    /// The turn that follows `stage` when `event` reports how its step went.
    /// `stamp` is the local time as the clock gave it, if it did; it names
    /// the fresh snapshot.
    pub open spec fn advanced(
        self,
        stage: StageView,
        event: EventView,
        stamp: Option<Seq<char>>,
        entries: Seq<SyncStateView>,
    ) -> Turn {
        match stage {
            StageView::ListingSource => match listed(event.reply(), self.src, self.dataset) {
                Err(e) => self.ended(Some(e), true, entries),
                Ok(ours) => self.goes_on(
                    StageView::ListingTarget { ours },
                    StepView::Collect {
                        server: self.dst,
                        command: list_snapshots_invocation(self.dst.pool, self.dataset, true),
                    },
                    entries,
                ),
            },
            StageView::ListingTarget { ours } => match listed(
                event.reply(),
                self.dst,
                self.dataset,
            ) {
                Err(e) => self.ended(Some(e), true, entries),
                Ok(theirs) => if common_index(ours, theirs) >= ours.len() {
                    self.ended(
                        Some(ErrorView::NoCommonSnapshot { dataset: self.dataset }),
                        true,
                        entries,
                    )
                } else if stamp is None {
                    self.ended(
                        Some(
                            failure(
                                "failed to take snapshot "@ + qualified(
                                    self.src.pool,
                                    self.dataset,
                                ),
                            ),
                        ),
                        true,
                        entries,
                    )
                } else {
                    let base = ours[common_index(ours, theirs) as int];
                    let fresh = managed_name(self.src.pool, self.dataset, stamp->Some_0);
                    self.goes_on(
                        StageView::Minting { base, fresh },
                        StepView::Run {
                            server: self.src,
                            command: create_snapshot_invocation(fresh),
                        },
                        entries,
                    )
                },
            },
            StageView::Minting { base, fresh } => match created(event.reply(), self.src, fresh) {
                Err(e) => self.ended(Some(e), true, entries),
                Ok(_) => self.goes_on(
                    StageView::Estimating { base, fresh },
                    StepView::Collect {
                        server: self.src,
                        command: estimate_send_size_invocation(base, fresh),
                    },
                    entries,
                ),
            },
            StageView::Estimating { base, fresh } => match estimated(
                event.reply(),
                self.src,
                base,
                fresh,
            ) {
                Err(e) => self.ended(Some(e), true, entries),
                Ok(total) => self.goes_on(
                    StageView::Announcing { base, fresh },
                    StepView::Announce,
                    with_total(entries, self.dataset, self.dst.name, total),
                ),
            },
            StageView::Announcing { base, fresh } => self.goes_on(
                StageView::StartingSend { base, fresh },
                StepView::SpawnSend { server: self.src, command: send_invocation(base, fresh) },
                entries,
            ),
            StageView::StartingSend { base, fresh } => match started(
                event.reply(),
                self.src,
                "send"@,
                base,
                fresh,
            ) {
                Err(e) => self.ended(Some(e), false, entries),
                Ok(_) => self.goes_on(
                    StageView::StartingReceive { base, fresh },
                    StepView::SpawnReceive {
                        server: self.dst,
                        command: receive_invocation(self.dst.pool, self.dataset),
                    },
                    entries,
                ),
            },
            StageView::StartingReceive { base, fresh } => match started(
                event.reply(),
                self.dst,
                "recv"@,
                base,
                fresh,
            ) {
                Err(e) => self.ended(Some(e), false, entries),
                Ok(_) => self.goes_on(
                    StageView::TakingOutput { base, fresh },
                    StepView::TakeOutput,
                    entries,
                ),
            },
            StageView::TakingOutput { base, fresh } => if event is Done {
                self.goes_on(StageView::TakingInput { base, fresh }, StepView::TakeInput, entries)
            } else {
                self.ended(
                    Some(ErrorView::FailedToTakeStdout { to: fresh, from: base }),
                    false,
                    entries,
                )
            },
            StageView::TakingInput { base, fresh } => if event is Done {
                self.goes_on(StageView::Reading, StepView::Read, entries)
            } else {
                self.ended(
                    Some(ErrorView::FailedToTakeStdin { to: fresh, from: base }),
                    false,
                    entries,
                )
            },
            StageView::Reading => match event {
                EventView::Read { count } => if count == 0 {
                    self.goes_on(StageView::Closing, StepView::Close, entries)
                } else {
                    self.goes_on(StageView::Writing { count }, StepView::Write { count }, entries)
                },
                _ => self.ended(Some(ErrorView::FailedToReadSendOutputToBuffer), false, entries),
            },
            StageView::Writing { count } => if event is Done {
                self.goes_on(
                    StageView::Reading,
                    StepView::Read,
                    with_sent(entries, self.dataset, self.dst.name, count),
                )
            } else {
                self.ended(Some(ErrorView::FailedToWriteBufferToRecvInput), false, entries)
            },
            StageView::Closing => if event is Done {
                self.goes_on(StageView::AwaitingSend, StepView::AwaitSend, entries)
            } else {
                self.ended(Some(ErrorView::FailedToShutdownOutputStream), false, entries)
            },
            StageView::AwaitingSend => if event is Done {
                self.goes_on(StageView::AwaitingReceive, StepView::AwaitReceive, entries)
            } else {
                self.ended(Some(ErrorView::FailedToWaitForZfsSend), false, entries)
            },
            StageView::AwaitingReceive => if event is Done {
                self.ended(None, false, entries)
            } else {
                self.ended(Some(ErrorView::FailedToWaitForZfsRecv), false, entries)
            },
            StageView::Finished { error } => self.goes_on(
                StageView::Finished { error },
                StepView::Finish { error, unannounced: false },
                entries,
            ),
        }
    }
}

impl Event {
    /// The reply that the event brings; `Failed` where it brings none.
    pub fn into_reply(self) -> (out: Reply)
        ensures
            out@ == self@.reply(),
    {
        match self {
            Event::Replied { reply } => reply,
            _ => Reply::Failed,
        }
    }

    /// Whether the event reports a step that was done.
    pub fn is_done(&self) -> (out: bool)
        ensures
            out == (self@ is Done),
    {
        match self {
            Event::Done => true,
            _ => false,
        }
    }
}

/// A stage, a step and the entries of a registry, as a turn.
pub open spec fn turn(pair: (Stage, Step), entries: Seq<SyncStateView>) -> Turn {
    Turn { stage: pair.0@, step: pair.1@, entries }
}

impl Transfer {
    /// Ends the transfer with `error`, and takes its entry out of the registry.
    fn end(
        &self,
        error: Option<ErrorCode>,
        unannounced: bool,
        registry: &mut ProgressRegistry,
    ) -> (out: (Stage, Step))
        ensures
            turn(out, final(registry)@) == self@.ended(
                error_view(error),
                unannounced,
                old(registry)@,
            ),
            orderly(final(registry)@),
    {
        registry.remove(self.dataset.as_str(), self.dst.name.as_str());
        let copy = match &error {
            Some(e) => Some(e.clone()),
            None => None,
        };
        (Stage::Finished { error: copy }, Step::Finish { error, unannounced })
    }

    /// The first turn of the transfer: its stage and the step to perform.
    pub fn begin(&self) -> (out: (Stage, Step))
        ensures
            forall|entries: Seq<SyncStateView>| turn(out, entries) == self@.begun(entries),
    {
        let command = list_snapshots_command(
            self.src.pool.as_str(),
            self.dataset.as_str(),
            true,
        );
        (Stage::ListingSource, Step::Collect { server: self.src.clone(), command })
    }

    /// The turn that follows `stage` when `event` reports how its step went,
    /// with the registry brought up to date. `stamp` is the local time as
    /// the clock gave it, if it did.
    pub fn advance_at(
        &self,
        stage: Stage,
        event: Event,
        stamp: Option<String>,
        registry: &mut ProgressRegistry,
    ) -> (out: (Stage, Step))
        ensures
            turn(out, final(registry)@) == self@.advanced(
                stage@,
                event@,
                maybe_text(stamp),
                old(registry)@,
            ),
            orderly(final(registry)@),
    {
        registry.recall_orderly();
        let dataset = self.dataset.as_str();
        match stage {
            Stage::ListingSource => {
                let reply = event.into_reply();
                match list_snapshots_reply(&reply, &self.src, dataset) {
                    Err(e) => self.end(Some(e), true, registry),
                    Ok(ours) => {
                        let command = list_snapshots_command(self.dst.pool.as_str(), dataset, true);
                        (
                            Stage::ListingTarget { ours },
                            Step::Collect { server: self.dst.clone(), command },
                        )
                    },
                }
            },
            Stage::ListingTarget { ours } => {
                let reply = event.into_reply();
                match list_snapshots_reply(&reply, &self.dst, dataset) {
                    Err(e) => self.end(Some(e), true, registry),
                    Ok(theirs) => match find_latest_common_snapshot(dataset, &ours, &theirs) {
                        Err(e) => self.end(Some(e), true, registry),
                        Ok(base) => match stamp {
                            None => {
                                let place = qualified_name(self.src.pool.as_str(), dataset);
                                let msg = joined("failed to take snapshot ", place.as_str());
                                self.end(Some(ErrorCode::ZfsCommandError { msg }), true, registry)
                            },
                            Some(at) => {
                                let fresh = snapshot_name(
                                    self.src.pool.as_str(),
                                    dataset,
                                    at.as_str(),
                                );
                                let command = create_snapshot_command(fresh.as_str());
                                (
                                    Stage::Minting { base, fresh },
                                    Step::Run { server: self.src.clone(), command },
                                )
                            },
                        },
                    },
                }
            },
            Stage::Minting { base, fresh } => {
                let reply = event.into_reply();
                match create_snapshot_reply(&reply, &self.src, fresh.as_str()) {
                    Err(e) => self.end(Some(e), true, registry),
                    Ok(_) => {
                        let command = estimate_send_size_command(base.as_str(), fresh.as_str());
                        (
                            Stage::Estimating { base, fresh },
                            Step::Collect { server: self.src.clone(), command },
                        )
                    },
                }
            },
            Stage::Estimating { base, fresh } => {
                let reply = event.into_reply();
                match estimate_send_size_reply(&reply, &self.src, base.as_str(), fresh.as_str()) {
                    Err(e) => self.end(Some(e), true, registry),
                    Ok(total) => {
                        registry.set_total(dataset, self.dst.name.as_str(), total);
                        (Stage::Announcing { base, fresh }, Step::Announce)
                    },
                }
            },
            Stage::Announcing { base, fresh } => {
                let command = send_command(base.as_str(), fresh.as_str());
                (
                    Stage::StartingSend { base, fresh },
                    Step::SpawnSend { server: self.src.clone(), command },
                )
            },
            Stage::StartingSend { base, fresh } => {
                let reply = event.into_reply();
                match spawn_reply(&reply, &self.src, "send", base.as_str(), fresh.as_str()) {
                    Err(e) => self.end(Some(e), false, registry),
                    Ok(_) => {
                        let command = receive_command(self.dst.pool.as_str(), dataset);
                        (
                            Stage::StartingReceive { base, fresh },
                            Step::SpawnReceive { server: self.dst.clone(), command },
                        )
                    },
                }
            },
            Stage::StartingReceive { base, fresh } => {
                let reply = event.into_reply();
                match spawn_reply(&reply, &self.dst, "recv", base.as_str(), fresh.as_str()) {
                    Err(e) => self.end(Some(e), false, registry),
                    Ok(_) => (Stage::TakingOutput { base, fresh }, Step::TakeOutput),
                }
            },
            Stage::TakingOutput { base, fresh } => {
                if event.is_done() {
                    (Stage::TakingInput { base, fresh }, Step::TakeInput)
                } else {
                    self.end(
                        Some(ErrorCode::FailedToTakeStdout { to: fresh, from: base }),
                        false,
                        registry,
                    )
                }
            },
            Stage::TakingInput { base, fresh } => {
                if event.is_done() {
                    (Stage::Reading, Step::Read)
                } else {
                    self.end(
                        Some(ErrorCode::FailedToTakeStdin { to: fresh, from: base }),
                        false,
                        registry,
                    )
                }
            },
            Stage::Reading => match event {
                Event::Read { count } => {
                    if count == 0 {
                        (Stage::Closing, Step::Close)
                    } else {
                        (Stage::Writing { count }, Step::Write { count })
                    }
                },
                _ => self.end(Some(ErrorCode::FailedToReadSendOutputToBuffer), false, registry),
            },
            Stage::Writing { count } => {
                if event.is_done() {
                    registry.add_sent(dataset, self.dst.name.as_str(), count);
                    (Stage::Reading, Step::Read)
                } else {
                    self.end(Some(ErrorCode::FailedToWriteBufferToRecvInput), false, registry)
                }
            },
            Stage::Closing => {
                if event.is_done() {
                    (Stage::AwaitingSend, Step::AwaitSend)
                } else {
                    self.end(Some(ErrorCode::FailedToShutdownOutputStream), false, registry)
                }
            },
            Stage::AwaitingSend => {
                if event.is_done() {
                    (Stage::AwaitingReceive, Step::AwaitReceive)
                } else {
                    self.end(Some(ErrorCode::FailedToWaitForZfsSend), false, registry)
                }
            },
            Stage::AwaitingReceive => {
                if event.is_done() {
                    self.end(None, false, registry)
                } else {
                    self.end(Some(ErrorCode::FailedToWaitForZfsRecv), false, registry)
                }
            },
            Stage::Finished { error } => {
                let copy = match &error {
                    Some(e) => Some(e.clone()),
                    None => None,
                };
                (Stage::Finished { error: copy }, Step::Finish { error, unannounced: false })
            },
        }
    }

    /// The turn that follows `stage` when `event` reports how its step went,
    /// with the registry brought up to date. The clock is read where the
    /// fresh snapshot gets its name; whatever it gives, the turn is the one
    /// that `advanced` defines for it.
    pub fn advance(&self, stage: Stage, event: Event, registry: &mut ProgressRegistry) -> (out: (
        Stage,
        Step,
    ))
        ensures
            exists|stamp: Option<Seq<char>>|
                turn(out, final(registry)@) == self@.advanced(
                    stage@,
                    event@,
                    stamp,
                    old(registry)@,
                ),
            orderly(final(registry)@),
    {
        let stamp = match &stage {
            Stage::ListingTarget { .. } => local_stamp(0),
            _ => None,
        };
        let ghost seen_stamp = maybe_text(stamp);
        let out = self.advance_at(stage, event, stamp, registry);
        assert(turn(out, registry@) == self@.advanced(stage@, event@, seen_stamp, old(registry)@));
        out
    }
}

impl StageView {
    /// The place of the stage in the course of a transfer.
    pub open spec fn order(self) -> nat {
        match self {
            StageView::ListingSource => 0,
            StageView::ListingTarget { .. } => 1,
            StageView::Minting { .. } => 2,
            StageView::Estimating { .. } => 3,
            StageView::Announcing { .. } => 4,
            StageView::StartingSend { .. } => 5,
            StageView::StartingReceive { .. } => 6,
            StageView::TakingOutput { .. } => 7,
            StageView::TakingInput { .. } => 8,
            StageView::Reading => 9,
            StageView::Writing { .. } => 10,
            StageView::Closing => 11,
            StageView::AwaitingSend => 12,
            StageView::AwaitingReceive => 13,
            StageView::Finished { .. } => 14,
        }
    }
}

/// A transfer passes through its stages in order. A turn ends the transfer,
/// or leads to the next stage; only reading and writing alternate, and
/// reading leads to the closing at the end of the stream. The transfer is
/// announced in one turn only, the one in which its size has become known,
/// and its end counts as unannounced exactly when it comes before that turn.
pub proof fn lemma_stages_in_order(
    transfer: TransferView,
    stage: StageView,
    event: EventView,
    stamp: Option<Seq<char>>,
    entries: Seq<SyncStateView>,
)
    ensures
        ({
            let next = transfer.advanced(stage, event, stamp, entries);
            &&& {
                ||| next.stage is Finished
                ||| next.stage.order() == stage.order() + 1
                ||| stage is Writing && next.stage is Reading
                ||| stage is Reading && next.stage is Closing
            }
            &&& next.step is Announce <==> stage is Estimating && next.stage is Announcing
            &&& next.step is Announce ==> next.entries == with_total(
                entries,
                transfer.dataset,
                transfer.dst.name,
                estimated(
                    event.reply(),
                    transfer.src,
                    stage->Estimating_base,
                    stage->Estimating_fresh,
                )->Ok_0,
            )
            &&& next.step matches StepView::Finish { unannounced, .. } ==> unannounced == (
            stage.order() < 4)
            &&& next.stage is Finished <==> next.step is Finish
        }),
{
}

impl TransferView {
    /// The turn that a transfer has come to after `events`, the reports on
    /// its steps in order, from the entries `entries` of the registry.
    /// `stamps` holds, for each report, what the clock gave when it came.
    pub open spec fn run(
        self,
        events: Seq<EventView>,
        stamps: Seq<Option<Seq<char>>>,
        entries: Seq<SyncStateView>,
    ) -> Turn
        decreases events.len(),
    {
        if events.len() == 0 {
            self.begun(entries)
        } else {
            let before = self.run(events.drop_last(), stamps.drop_last(), entries);
            self.advanced(before.stage, events.last(), stamps.last(), before.entries)
        }
    }
}

/// Orderly entries without the entry of a dataset and a replica are orderly,
/// and hold none for the two.
pub proof fn lemma_without(entries: Seq<SyncStateView>, dataset: Seq<char>, dst: Seq<char>)
    requires
        orderly(entries),
    ensures
        orderly(without(entries, dataset, dst)),
        !holds(routes_of(without(entries, dataset, dst)), (dataset, dst)),
{
    let routes = routes_of(entries);
    let at = position(routes, (dataset, dst)) as int;
    lemma_position(routes, (dataset, dst));
    if holds(routes, (dataset, dst)) {
        lemma_remove_keeps_order(entries, at);
        let rest = entries.remove(at);
        assert forall|j: int| 0 <= j < rest.len() implies routes_of(rest)[j] != (dataset, dst) by {
            let k = if j < at {
                j
            } else {
                j + 1
            };
            assert(routes_of(rest)[j] == routes[k]);
            assert(routes[k] != routes[at]);
        }
        lemma_position_is(routes_of(rest), (dataset, dst), rest.len() as int);
    }
}

/// A turn keeps the registry orderly. It changes no entry but the
/// transfer's own, and once the transfer has ended the registry holds no
/// entry for it.
pub proof fn lemma_turn_keeps_registry(
    transfer: TransferView,
    stage: StageView,
    event: EventView,
    stamp: Option<Seq<char>>,
    entries: Seq<SyncStateView>,
)
    requires
        orderly(entries),
        stage is Finished ==> !holds(routes_of(entries), (transfer.dataset, transfer.dst.name)),
    ensures
        ({
            let next = transfer.advanced(stage, event, stamp, entries);
            &&& orderly(next.entries)
            &&& next.stage is Finished ==> !holds(
                routes_of(next.entries),
                (transfer.dataset, transfer.dst.name),
            )
            &&& next.stage !is Finished ==> routes_of(next.entries) == routes_of(entries)
        }),
{
    let route = (transfer.dataset, transfer.dst.name);
    let at = position(routes_of(entries), route) as int;
    let next = transfer.advanced(stage, event, stamp, entries);
    lemma_without(entries, transfer.dataset, transfer.dst.name);
    lemma_position(routes_of(entries), route);
    if at < entries.len() {
        match stage {
            StageView::Estimating { base, fresh } => {
                let r = estimated(event.reply(), transfer.src, base, fresh);
                if r is Ok {
                    let changed = entries[at].with_total(r->Ok_0);
                    lemma_update_keeps_order(entries, at, changed);
                    assert(routes_of(entries.update(at, changed)) =~= routes_of(entries));
                }
            },
            StageView::Writing { count } => {
                let changed = entries[at].with_sent(count);
                lemma_update_keeps_order(entries, at, changed);
                assert(routes_of(entries.update(at, changed)) =~= routes_of(entries));
            },
            _ => {},
        }
    }
}

/// Whatever is reported, the registry stays orderly through a transfer, and
/// a transfer that has ended has left no entry in it.
pub proof fn lemma_transfer_cleans_up(
    transfer: TransferView,
    events: Seq<EventView>,
    stamps: Seq<Option<Seq<char>>>,
    entries: Seq<SyncStateView>,
)
    requires
        orderly(entries),
        events.len() == stamps.len(),
    ensures
        orderly(transfer.run(events, stamps, entries).entries),
        transfer.run(events, stamps, entries).stage is Finished ==> !holds(
            routes_of(transfer.run(events, stamps, entries).entries),
            (transfer.dataset, transfer.dst.name),
        ),
    decreases events.len(),
{
    if events.len() > 0 {
        lemma_transfer_cleans_up(transfer, events.drop_last(), stamps.drop_last(), entries);
        let before = transfer.run(events.drop_last(), stamps.drop_last(), entries);
        lemma_turn_keeps_registry(
            transfer,
            before.stage,
            events.last(),
            stamps.last(),
            before.entries,
        );
    }
}

impl StepView {
    /// Whether the step starts, feeds or ends the stream between the two servers.
    pub open spec fn streams(self) -> bool {
        match self {
            StepView::SpawnSend { .. } => true,
            StepView::SpawnReceive { .. } => true,
            StepView::TakeOutput => true,
            StepView::TakeInput => true,
            StepView::Read => true,
            StepView::Write { .. } => true,
            StepView::Close => true,
            StepView::AwaitSend => true,
            StepView::AwaitReceive => true,
            _ => false,
        }
    }
}

impl TransferView {
    /// The turn that a transfer has come to after the first `count` of the reports.
    pub open spec fn turn_at(
        self,
        events: Seq<EventView>,
        stamps: Seq<Option<Seq<char>>>,
        entries: Seq<SyncStateView>,
        count: int,
    ) -> Turn {
        self.run(events.take(count), stamps.take(count), entries)
    }

    /// Where a transfer stands after the first `count` of the reports: a
    /// transfer that is being announced has been asked to announce, and one
    /// that works on its stream has been asked to announce before.
    proof fn lemma_course(
        self,
        events: Seq<EventView>,
        stamps: Seq<Option<Seq<char>>>,
        entries: Seq<SyncStateView>,
        count: int,
    )
        requires
            events.len() == stamps.len(),
            0 <= count <= events.len(),
        ensures
            ({
                let turn = self.turn_at(events, stamps, entries, count);
                &&& turn.stage.order() == 4 ==> turn.step is Announce
                &&& turn.step.streams() ==> 5 <= turn.stage.order() <= 13
                &&& 5 <= turn.stage.order() <= 13 ==> exists|earlier: int|
                    0 <= earlier < count && (#[trigger] self.turn_at(
                        events,
                        stamps,
                        entries,
                        earlier,
                    )).step is Announce
            }),
        decreases count,
    {
        if count > 0 {
            self.lemma_course(events, stamps, entries, count - 1);
            let before = self.turn_at(events, stamps, entries, count - 1);
            let turn = self.turn_at(events, stamps, entries, count);
            assert(events.take(count).drop_last() == events.take(count - 1));
            assert(stamps.take(count).drop_last() == stamps.take(count - 1));
            assert(turn == self.advanced(
                before.stage,
                events[count - 1],
                stamps[count - 1],
                before.entries,
            ));
            lemma_stages_in_order(
                self,
                before.stage,
                events[count - 1],
                stamps[count - 1],
                before.entries,
            );
            if 5 <= turn.stage.order() <= 13 {
                if before.stage.order() == 4 {
                    assert(self.turn_at(events, stamps, entries, count - 1).step is Announce);
                } else {
                    let earlier = choose|earlier: int|
                        0 <= earlier < count - 1 && (#[trigger] self.turn_at(
                            events,
                            stamps,
                            entries,
                            earlier,
                        )).step is Announce;
                    assert(self.turn_at(events, stamps, entries, earlier).step is Announce);
                }
            }
        }
    }
}

/// A transfer is announced before its stream is touched. In any course of a
/// transfer, a step that starts, feeds or ends the stream between the two
/// servers comes after the step that announces the transfer, and so after
/// the size of the increment was recorded in the registry.
pub proof fn lemma_announced_before_streaming(
    transfer: TransferView,
    events: Seq<EventView>,
    stamps: Seq<Option<Seq<char>>>,
    entries: Seq<SyncStateView>,
    count: int,
)
    requires
        events.len() == stamps.len(),
        0 <= count <= events.len(),
        transfer.turn_at(events, stamps, entries, count).step.streams(),
    ensures
        exists|earlier: int|
            0 <= earlier < count && (#[trigger] transfer.turn_at(
                events,
                stamps,
                entries,
                earlier,
            )).step is Announce,
{
    transfer.lemma_course(events, stamps, entries, count);
}

} // verus!
