//! The switcher: handing a dataset from its owner to another server.
//!
//! The dataset changes hands only when every server holds the same latest
//! snapshot and the owner has changed nothing since. Then the dataset is
//! made read-only on the owner and writable on the new owner, and last the
//! configuration is changed and saved. The library decides each step and
//! changes the configuration; its caller performs the step and reports how
//! it went.

use crate::api::SwitchRequest;
use crate::config::{
    copy_servers, find_named, lemma_with_owner_well_formed, names_of, Config, ConfigView, Server,
    ServerView,
};
use crate::error::{ErrorCode, ErrorView};
use crate::remote::{Invocation, InvocationView, Reply, ReplyView};
use crate::replicator::error_view;
use crate::snapshot::{agreed, all_agree};
use crate::text::{lemma_position, position, texts};
use crate::toolkit::{
    diff_command, diff_invocation, diff_reply, latest, get_latest_snapshot_reply,
    list_snapshots_command, list_snapshots_invocation, readonly_set, set_readonly_command,
    set_readonly_invocation, set_readonly_reply, unchanged,
};
use vstd::prelude::*;

verus! {

/// A change of owner that the configuration allows: the dataset, its owner,
/// the server that is to own it, and the servers of the fleet.
#[derive(Debug, PartialEq, Eq)]
pub struct Switch {
    /// The name of the dataset.
    pub dataset: String,
    /// The server that owns the dataset.
    pub owner: Server,
    /// The server that is to own the dataset.
    pub target: Server,
    /// Every server of the configuration, in order.
    pub fleet: Vec<Server>,
    /// Where the configuration is saved.
    pub config_path: String,
}

/// What a `Switch` holds, as plain text.
pub struct SwitchView {
    pub dataset: Seq<char>,
    pub owner: ServerView,
    pub target: ServerView,
    pub fleet: Seq<ServerView>,
    pub config_path: Seq<char>,
}

impl View for Switch {
    type V = SwitchView;

    open spec fn view(&self) -> SwitchView {
        SwitchView {
            dataset: self.dataset@,
            owner: self.owner@,
            target: self.target@,
            fleet: self.fleet@.map_values(|s: Server| s@),
            config_path: self.config_path@,
        }
    }
}

/// What a request to hand `dataset` to `new_server` comes to, by the
/// configuration: the change of owner, or the error of what the
/// configuration lacks, looked for in this order: the dataset, the server
/// that owns it, the server that is to own it.
pub open spec fn resolved(
    config: ConfigView,
    dataset: Seq<char>,
    new_server: Seq<char>,
    config_path: Seq<char>,
) -> Result<SwitchView, ErrorView> {
    if !config.has_dataset(dataset) {
        Err(ErrorView::DatasetNotFoundInConfig { dataset })
    } else if !config.has_server(config.dataset(dataset).server) {
        Err(
            ErrorView::ServerNotFoundFromDataset {
                dataset,
                server_name: config.dataset(dataset).server,
            },
        )
    } else if !config.has_server(new_server) {
        Err(ErrorView::ServerNotFoundFromRequest { server_name: new_server })
    } else {
        Ok(
            SwitchView {
                dataset,
                owner: config.server(config.dataset(dataset).server),
                target: config.server(new_server),
                fleet: config.servers,
                config_path,
            },
        )
    }
}

/// The change of owner that `req` asks for, where the configuration holds
/// the dataset, its owner and the server that is to own it. The change is
/// then carried out turn by turn, from `begin` on.
pub fn switch(req: &SwitchRequest, config_path: &str, config: &Config) -> (out: Result<
    Switch,
    ErrorCode,
>)
    ensures
        match out {
            Ok(change) => resolved(config@, req.dataset@, req.new_server@, config_path@) == Ok::<
                SwitchView,
                ErrorView,
            >(change@),
            Err(e) => resolved(config@, req.dataset@, req.new_server@, config_path@) == Err::<
                SwitchView,
                ErrorView,
            >(e@),
        },
{
    let dataset = req.dataset.as_str();
    let at = match config.find_dataset(dataset) {
        Some(at) => at,
        None => {
            return Err(ErrorCode::DatasetNotFoundInConfig { dataset: dataset.to_owned() });
        },
    };
    let owner_name = config.datasets[at].server.as_str();
    assert(config@.dataset(dataset@).server == owner_name@);
    let owner_at = match config.find_server(owner_name) {
        Some(at) => at,
        None => {
            return Err(
                ErrorCode::ServerNotFoundFromDataset {
                    dataset: dataset.to_owned(),
                    server_name: owner_name.to_owned(),
                },
            );
        },
    };
    let target_at = match config.find_server(req.new_server.as_str()) {
        Some(at) => at,
        None => {
            return Err(
                ErrorCode::ServerNotFoundFromRequest { server_name: req.new_server.clone() },
            );
        },
    };
    Ok(
        Switch {
            dataset: dataset.to_owned(),
            owner: config.servers[owner_at].clone(),
            target: config.servers[target_at].clone(),
            fleet: copy_servers(&config.servers),
            config_path: config_path.to_owned(),
        },
    )
}

/// Where a change of owner stands: the step that is being performed.
#[derive(Debug, PartialEq, Eq)]
pub enum SwitchStage {
    /// The snapshots of the server of index `index` are being listed;
    /// `found` holds the latest snapshot of each server before it.
    Listing { index: usize, found: Vec<String> },
    /// The owner is being asked what has changed since `against`, its latest snapshot.
    Diffing { against: String },
    /// The dataset is being made read-only on the owner.
    Freezing,
    /// The dataset is being made writable on the server that is to own it.
    Thawing,
    /// The configuration names the new owner and is being saved.
    Saving,
    /// The change of owner has ended, with `error` or without one.
    Finished { error: Option<ErrorCode> },
}

/// What a `SwitchStage` holds, as plain values.
pub enum SwitchStageView {
    Listing { index: nat, found: Seq<Seq<char>> },
    Diffing { against: Seq<char> },
    Freezing,
    Thawing,
    Saving,
    Finished { error: Option<ErrorView> },
}

impl View for SwitchStage {
    type V = SwitchStageView;

    open spec fn view(&self) -> SwitchStageView {
        match self {
            SwitchStage::Listing { index, found } => SwitchStageView::Listing {
                index: *index as nat,
                found: texts(found@),
            },
            SwitchStage::Diffing { against } => SwitchStageView::Diffing { against: against@ },
            SwitchStage::Freezing => SwitchStageView::Freezing,
            SwitchStage::Thawing => SwitchStageView::Thawing,
            SwitchStage::Saving => SwitchStageView::Saving,
            SwitchStage::Finished { error } => SwitchStageView::Finished {
                error: error_view(*error),
            },
        }
    }
}

/// How the step of a change of owner went.
#[derive(Debug, PartialEq, Eq)]
pub enum SwitchEvent {
    /// The command ended with `reply`.
    Replied { reply: Reply },
    /// The configuration was saved.
    Saved,
    /// The configuration could not be serialized.
    NotSerialized,
    /// The configuration could not be written.
    NotWritten,
}

/// What a `SwitchEvent` holds, as plain values.
pub enum SwitchEventView {
    Replied { reply: ReplyView },
    Saved,
    NotSerialized,
    NotWritten,
}

impl View for SwitchEvent {
    type V = SwitchEventView;

    open spec fn view(&self) -> SwitchEventView {
        match self {
            SwitchEvent::Replied { reply } => SwitchEventView::Replied { reply: reply@ },
            SwitchEvent::Saved => SwitchEventView::Saved,
            SwitchEvent::NotSerialized => SwitchEventView::NotSerialized,
            SwitchEvent::NotWritten => SwitchEventView::NotWritten,
        }
    }
}

impl SwitchEventView {
    /// The reply that the event brings. An event that brings none, where a
    /// command was asked for, counts as the command's failure.
    pub open spec fn reply(self) -> ReplyView {
        match self {
            SwitchEventView::Replied { reply } => reply,
            _ => ReplyView::Failed,
        }
    }
}

/// The step of a change of owner that the caller is to perform next.
#[derive(Debug, PartialEq, Eq)]
pub enum SwitchStep {
    /// Run `command` on `server` to its end and report what it wrote.
    Collect { server: Server, command: Invocation },
    /// Run `command` on `server` to its end and report its exit status.
    Run { server: Server, command: Invocation },
    /// Write the configuration, as it is now, to `path`.
    Save { path: String },
    /// Nothing is left to do: the change of owner ended, with `error` or without one.
    Finish { error: Option<ErrorCode> },
}

/// What a `SwitchStep` holds, as plain values.
pub enum SwitchStepView {
    Collect { server: ServerView, command: InvocationView },
    Run { server: ServerView, command: InvocationView },
    Save { path: Seq<char> },
    Finish { error: Option<ErrorView> },
}

impl View for SwitchStep {
    type V = SwitchStepView;

    open spec fn view(&self) -> SwitchStepView {
        match self {
            SwitchStep::Collect { server, command } => SwitchStepView::Collect {
                server: server@,
                command: command@,
            },
            SwitchStep::Run { server, command } => SwitchStepView::Run {
                server: server@,
                command: command@,
            },
            SwitchStep::Save { path } => SwitchStepView::Save { path: path@ },
            SwitchStep::Finish { error } => SwitchStepView::Finish { error: error_view(*error) },
        }
    }
}

/// A change of owner after a step: its stage, the step to perform, and the
/// configuration.
pub struct SwitchTurn {
    pub stage: SwitchStageView,
    pub step: SwitchStepView,
    pub config: ConfigView,
}

/// The error of a configuration change that the configuration refuses.
pub open spec fn owner_refusal(config: ConfigView, dataset: Seq<char>, server: Seq<char>) -> Option<
    ErrorView,
> {
    if !config.has_dataset(dataset) {
        Some(ErrorView::DatasetNotFoundInConfig { dataset })
    } else if !config.has_server(server) {
        Some(ErrorView::ServerNotFoundFromRequest { server_name: server })
    } else {
        None
    }
}

impl SwitchView {
    /// The names of the servers of the fleet, in order.
    pub open spec fn fleet_names(self) -> Seq<Seq<char>> {
        self.fleet.map_values(|s: ServerView| s.name)
    }

    /// The end of the change of owner, with `error` or without one.
    pub open spec fn ended(self, error: Option<ErrorView>, config: ConfigView) -> SwitchTurn {
        SwitchTurn {
            stage: SwitchStageView::Finished { error },
            step: SwitchStepView::Finish { error },
            config,
        }
    }

    /// The end of the change of owner because the fleet is not in sync.
    pub open spec fn not_synced(self, config: ConfigView) -> SwitchTurn {
        self.ended(Some(ErrorView::DatasetNotSynced { dataset: self.dataset }), config)
    }

    /// The turn in which the server of index `index` is listed, the newest
    /// snapshot first.
    pub open spec fn listing(self, index: nat, found: Seq<Seq<char>>, config: ConfigView)
        -> SwitchTurn {
        SwitchTurn {
            stage: SwitchStageView::Listing { index, found },
            step: SwitchStepView::Collect {
                server: self.fleet[index as int],
                command: list_snapshots_invocation(
                    self.fleet[index as int].pool,
                    self.dataset,
                    true,
                ),
            },
            config,
        }
    }

    /// The first turn: the first server of the fleet is listed. A fleet
    /// without servers is not in sync.
    pub open spec fn begun(self, config: ConfigView) -> SwitchTurn {
        if self.fleet.len() == 0 {
            self.not_synced(config)
        } else {
            self.listing(0, Seq::empty(), config)
        }
    }

    /// The turn after every server was listed and `found` holds the latest
    /// snapshot of each: where they are one snapshot, the owner is asked
    /// what has changed since its own.
    pub open spec fn listed_all(self, found: Seq<Seq<char>>, config: ConfigView) -> SwitchTurn {
        let at = position(self.fleet_names(), self.owner.name) as int;
        if !agreed(found) {
            self.not_synced(config)
        } else if at >= found.len() {
            self.ended(
                Some(
                    ErrorView::ServerNotFoundFromDataset {
                        dataset: self.dataset,
                        server_name: self.owner.name,
                    },
                ),
                config,
            )
        } else {
            SwitchTurn {
                stage: SwitchStageView::Diffing { against: found[at] },
                step: SwitchStepView::Collect {
                    server: self.owner,
                    command: diff_invocation(found[at]),
                },
                config,
            }
        }
    }

    /// The turn that follows `stage` when `event` reports how its step went.
    pub open spec fn advanced(
        self,
        stage: SwitchStageView,
        event: SwitchEventView,
        config: ConfigView,
    ) -> SwitchTurn {
        match stage {
            SwitchStageView::Listing { index, found } => if index >= self.fleet.len() {
                self.not_synced(config)
            } else {
                match latest(event.reply(), self.fleet[index as int], self.dataset) {
                    Err(ErrorView::NoSnapshotsFound { .. }) => self.not_synced(config),
                    Err(e) => self.ended(Some(e), config),
                    Ok(name) => if index + 1 < self.fleet.len() {
                        self.listing(index + 1, found.push(name), config)
                    } else {
                        self.listed_all(found.push(name), config)
                    },
                }
            },
            SwitchStageView::Diffing { against } => match unchanged(
                event.reply(),
                self.owner,
                against,
            ) {
                Err(e) => self.ended(Some(e), config),
                Ok(clean) => if clean {
                    SwitchTurn {
                        stage: SwitchStageView::Freezing,
                        step: SwitchStepView::Run {
                            server: self.owner,
                            command: set_readonly_invocation(self.owner.pool, self.dataset, true),
                        },
                        config,
                    }
                } else {
                    self.not_synced(config)
                },
            },
            SwitchStageView::Freezing => match readonly_set(event.reply(), self.owner) {
                Err(e) => self.ended(Some(e), config),
                Ok(_) => SwitchTurn {
                    stage: SwitchStageView::Thawing,
                    step: SwitchStepView::Run {
                        server: self.target,
                        command: set_readonly_invocation(self.target.pool, self.dataset, false),
                    },
                    config,
                },
            },
            SwitchStageView::Thawing => match readonly_set(event.reply(), self.target) {
                Err(e) => self.ended(Some(e), config),
                Ok(_) => match owner_refusal(config, self.dataset, self.target.name) {
                    Some(e) => self.ended(Some(e), config),
                    None => SwitchTurn {
                        stage: SwitchStageView::Saving,
                        step: SwitchStepView::Save { path: self.config_path },
                        config: config.with_owner(self.dataset, self.target.name),
                    },
                },
            },
            SwitchStageView::Saving => match event {
                SwitchEventView::Saved => self.ended(None, config),
                SwitchEventView::NotSerialized => self.ended(
                    Some(ErrorView::ConfigIsInvalidJson),
                    config,
                ),
                _ => self.ended(
                    Some(ErrorView::ErrorWritingConfigFile { path: self.config_path }),
                    config,
                ),
            },
            SwitchStageView::Finished { error } => self.ended(error, config),
        }
    }
}

impl SwitchEvent {
    /// The reply that the event brings; `Failed` where it brings none.
    pub fn into_reply(self) -> (out: Reply)
        ensures
            out@ == self@.reply(),
    {
        match self {
            SwitchEvent::Replied { reply } => reply,
            _ => Reply::Failed,
        }
    }
}

/// A stage, a step and a configuration, as a turn.
pub open spec fn switch_turn(pair: (SwitchStage, SwitchStep), config: ConfigView) -> SwitchTurn {
    SwitchTurn { stage: pair.0@, step: pair.1@, config }
}

impl Switch {
    /// Ends the change of owner with `error`.
    fn end(&self, error: Option<ErrorCode>) -> (out: (SwitchStage, SwitchStep))
        ensures
            forall|config: ConfigView|
                switch_turn(out, config) == #[trigger] self@.ended(error_view(error), config),
    {
        let copy = match &error {
            Some(e) => Some(e.clone()),
            None => None,
        };
        (SwitchStage::Finished { error: copy }, SwitchStep::Finish { error })
    }

    /// Ends the change of owner because the fleet is not in sync.
    fn end_not_synced(&self) -> (out: (SwitchStage, SwitchStep))
        ensures
            forall|config: ConfigView|
                switch_turn(out, config) == #[trigger] self@.not_synced(config),
    {
        let out = self.end(Some(ErrorCode::DatasetNotSynced { dataset: self.dataset.clone() }));
        assert forall|config: ConfigView| switch_turn(out, config) == #[trigger] self@.not_synced(
            config,
        ) by {
            assert(switch_turn(out, config) == self@.ended(
                Some(ErrorView::DatasetNotSynced { dataset: self.dataset@ }),
                config,
            ));
        }
        out
    }

    /// The turn in which the server of index `index` is listed.
    fn list(&self, index: usize, found: Vec<String>) -> (out: (SwitchStage, SwitchStep))
        requires
            index < self.fleet.len(),
        ensures
            forall|config: ConfigView|
                switch_turn(out, config) == #[trigger] self@.listing(
                    index as nat,
                    texts(found@),
                    config,
                ),
    {
        let server = &self.fleet[index];
        let command = list_snapshots_command(server.pool.as_str(), self.dataset.as_str(), true);
        (
            SwitchStage::Listing { index, found },
            SwitchStep::Collect { server: server.clone(), command },
        )
    }

    /// The first turn of the change of owner: its stage and the step to perform.
    pub fn begin(&self) -> (out: (SwitchStage, SwitchStep))
        ensures
            forall|config: ConfigView| switch_turn(out, config) == #[trigger] self@.begun(config),
    {
        if self.fleet.len() == 0 {
            self.end_not_synced()
        } else {
            let out = self.list(0, Vec::new());
            assert(texts(Seq::<String>::empty()) =~= Seq::<Seq<char>>::empty());
            out
        }
    }

    /// The turn after every server was listed.
    fn after_listing(&self, found: Vec<String>) -> (out: (SwitchStage, SwitchStep))
        ensures
            forall|config: ConfigView|
                switch_turn(out, config) == #[trigger] self@.listed_all(texts(found@), config),
    {
        if !all_agree(&found) {
            return self.end_not_synced();
        }
        assert(names_of(self.fleet@) =~= self@.fleet_names());
        let at = match find_named(&self.fleet, self.owner.name.as_str()) {
            Some(at) => at,
            None => self.fleet.len(),
        };
        assert(at == position(self@.fleet_names(), self@.owner.name)) by {
            lemma_position(self@.fleet_names(), self@.owner.name);
        }
        if at >= found.len() {
            return self.end(
                Some(
                    ErrorCode::ServerNotFoundFromDataset {
                        dataset: self.dataset.clone(),
                        server_name: self.owner.name.clone(),
                    },
                ),
            );
        }
        let against = found[at].clone();
        let command = diff_command(against.as_str());
        (
            SwitchStage::Diffing { against },
            SwitchStep::Collect { server: self.owner.clone(), command },
        )
    }

    /// The turn that follows `stage` when `event` reports how its step went.
    /// The configuration changes in one turn only: when the dataset has
    /// been made writable on its new owner.
    pub fn advance(&self, stage: SwitchStage, event: SwitchEvent, config: &mut Config) -> (out: (
        SwitchStage,
        SwitchStep,
    ))
        ensures
            switch_turn(out, final(config)@) == self@.advanced(stage@, event@, old(config)@),
            old(config)@.well_formed() ==> final(config)@.well_formed(),
    {
        let dataset = self.dataset.as_str();
        match stage {
            SwitchStage::Listing { index, found } => {
                if index >= self.fleet.len() {
                    return self.end_not_synced();
                }
                let reply = event.into_reply();
                match get_latest_snapshot_reply(&reply, &self.fleet[index], dataset) {
                    Err(ErrorCode::NoSnapshotsFound { .. }) => self.end_not_synced(),
                    Err(e) => self.end(Some(e)),
                    Ok(name) => {
                        let mut found = found;
                        let ghost before = found@;
                        found.push(name);
                        assert(texts(found@) =~= texts(before).push(name@));
                        if index + 1 < self.fleet.len() {
                            self.list(index + 1, found)
                        } else {
                            self.after_listing(found)
                        }
                    },
                }
            },
            SwitchStage::Diffing { against } => {
                let reply = event.into_reply();
                match diff_reply(&reply, &self.owner, against.as_str()) {
                    Err(e) => self.end(Some(e)),
                    Ok(clean) => {
                        if clean {
                            let command = set_readonly_command(&self.owner, dataset, true);
                            (
                                SwitchStage::Freezing,
                                SwitchStep::Run { server: self.owner.clone(), command },
                            )
                        } else {
                            self.end_not_synced()
                        }
                    },
                }
            },
            SwitchStage::Freezing => {
                let reply = event.into_reply();
                match set_readonly_reply(&reply, &self.owner) {
                    Err(e) => self.end(Some(e)),
                    Ok(_) => {
                        let command = set_readonly_command(&self.target, dataset, false);
                        (
                            SwitchStage::Thawing,
                            SwitchStep::Run { server: self.target.clone(), command },
                        )
                    },
                }
            },
            SwitchStage::Thawing => {
                let reply = event.into_reply();
                match set_readonly_reply(&reply, &self.target) {
                    Err(e) => self.end(Some(e)),
                    Ok(_) => match config.set_owner(dataset, self.target.name.as_str()) {
                        Err(e) => self.end(Some(e)),
                        Ok(_) => (
                            SwitchStage::Saving,
                            SwitchStep::Save { path: self.config_path.clone() },
                        ),
                    },
                }
            },
            SwitchStage::Saving => match event {
                SwitchEvent::Saved => self.end(None),
                SwitchEvent::NotSerialized => self.end(Some(ErrorCode::ConfigIsInvalidJson)),
                _ => self.end(
                    Some(ErrorCode::ErrorWritingConfigFile { path: self.config_path.clone() }),
                ),
            },
            SwitchStage::Finished { error } => self.end(error),
        }
    }
}

impl SwitchView {
    /// The turn that a change of owner has come to after `events`, the
    /// reports on its steps in order, from the configuration `config`.
    pub open spec fn run(self, events: Seq<SwitchEventView>, config: ConfigView) -> SwitchTurn
        decreases events.len(),
    {
        if events.len() == 0 {
            self.begun(config)
        } else {
            let before = self.run(events.drop_last(), config);
            self.advanced(before.stage, events.last(), before.config)
        }
    }

    /// Whether the stage is one that follows the change of the
    /// configuration: the saving, the end without error, or the end with an
    /// error of the saving.
    pub open spec fn committed(stage: SwitchStageView) -> bool {
        match stage {
            SwitchStageView::Saving => true,
            SwitchStageView::Finished { error: None } => true,
            SwitchStageView::Finished { error: Some(ErrorView::ConfigIsInvalidJson) } => true,
            SwitchStageView::Finished {
                error: Some(ErrorView::ErrorWritingConfigFile { .. }),
            } => true,
            _ => false,
        }
    }

    /// The latest snapshot of each of the first `count` servers, by what
    /// `events` reports of their listings.
    pub open spec fn latest_found(self, events: Seq<SwitchEventView>, count: nat) -> Seq<
        Seq<char>,
    > {
        Seq::new(
            count,
            |i: int| latest(events[i].reply(), self.fleet[i], self.dataset)->Ok_0,
        )
    }

    /// Whether `events` begins with the reports that allow the change of
    /// owner: of each server a listing with a latest snapshot, all of them
    /// one snapshot; of the owner a diff against its own that shows no
    /// change; and the dataset made read-only on the owner and writable on
    /// the new owner.
    pub open spec fn cleared(self, events: Seq<SwitchEventView>) -> bool {
        let count = self.fleet.len() as int;
        let at = position(self.fleet_names(), self.owner.name) as int;
        &&& count > 0
        &&& events.len() >= count + 3
        &&& forall|i: int|
            0 <= i < count ==> latest(
                (#[trigger] events[i]).reply(),
                self.fleet[i],
                self.dataset,
            ) is Ok
        &&& agreed(self.latest_found(events, count as nat))
        &&& at < count
        &&& unchanged(
            events[count].reply(),
            self.owner,
            self.latest_found(events, count as nat)[at],
        ) == Ok::<bool, ErrorView>(true)
        &&& readonly_set(events[count + 1].reply(), self.owner) is Ok
        &&& readonly_set(events[count + 2].reply(), self.target) is Ok
    }

    /// What holds of a change of owner after `events`, stage by stage.
    pub open spec fn on_course(self, events: Seq<SwitchEventView>, config: ConfigView) -> bool {
        let turn = self.run(events, config);
        let count = self.fleet.len() as int;
        let at = position(self.fleet_names(), self.owner.name) as int;
        &&& turn.config == if Self::committed(turn.stage) {
            config.with_owner(self.dataset, self.target.name)
        } else {
            config
        }
        &&& Self::committed(turn.stage) ==> {
            &&& self.cleared(events)
            &&& config.has_dataset(self.dataset)
            &&& config.has_server(self.target.name)
        }
        &&& match turn.stage {
            SwitchStageView::Listing { index, found } => {
                &&& events.len() == index
                &&& index < count
                &&& found == self.latest_found(events, index)
                &&& forall|i: int|
                    0 <= i < index ==> latest(
                        (#[trigger] events[i]).reply(),
                        self.fleet[i],
                        self.dataset,
                    ) is Ok
            },
            SwitchStageView::Diffing { against } => {
                &&& events.len() == count
                &&& count > 0
                &&& forall|i: int|
                    0 <= i < count ==> latest(
                        (#[trigger] events[i]).reply(),
                        self.fleet[i],
                        self.dataset,
                    ) is Ok
                &&& agreed(self.latest_found(events, count as nat))
                &&& at < count
                &&& against == self.latest_found(events, count as nat)[at]
            },
            SwitchStageView::Freezing => {
                &&& events.len() == count + 1
                &&& self.cleared(events + seq![SwitchEventView::Replied {
                    reply: ReplyView::Exited { success: true },
                }, SwitchEventView::Replied { reply: ReplyView::Exited { success: true } }])
            },
            SwitchStageView::Thawing => {
                &&& events.len() == count + 2
                &&& self.cleared(events + seq![SwitchEventView::Replied {
                    reply: ReplyView::Exited { success: true },
                }])
            },
            SwitchStageView::Saving => events.len() == count + 3,
            SwitchStageView::Finished { .. } => true,
        }
    }

    /// A change of owner stays on course with each report.
    proof fn lemma_on_course_step(self, events: Seq<SwitchEventView>, config: ConfigView)
        requires
            events.len() > 0,
            self.on_course(events.drop_last(), config),
        ensures
            self.on_course(events, config),
    {
        let past = events.drop_last();
        let event = events.last();
        let before = self.run(past, config);
        let turn = self.run(events, config);
        let count = self.fleet.len() as int;
        assert(turn == self.advanced(before.stage, event, before.config));
        assert forall|i: int| 0 <= i < past.len() implies past[i] == events[i] by {}
        if Self::committed(before.stage) {
            assert(Self::committed(turn.stage));
            assert(self.cleared(events)) by {
                assert(self.latest_found(events, count as nat) =~= self.latest_found(
                    past,
                    count as nat,
                ));
            }
        } else {
            match before.stage {
                SwitchStageView::Listing { index, found } => {
                    let r = latest(event.reply(), self.fleet[index as int], self.dataset);
                    if r is Ok {
                        let next = (index + 1) as nat;
                        assert(self.latest_found(events, next) =~= found.push(r->Ok_0));
                        assert forall|i: int| 0 <= i < next implies latest(
                            (#[trigger] events[i]).reply(),
                            self.fleet[i],
                            self.dataset,
                        ) is Ok by {
                            if i < index {
                                assert(past[i] == events[i]);
                            }
                        }
                    }
                },
                SwitchStageView::Diffing { against } => {
                    let pad = seq![
                        SwitchEventView::Replied { reply: ReplyView::Exited { success: true } },
                        SwitchEventView::Replied { reply: ReplyView::Exited { success: true } },
                    ];
                    let padded = events + pad;
                    assert(self.latest_found(padded, count as nat) =~= self.latest_found(
                        past,
                        count as nat,
                    ));
                    assert forall|i: int| 0 <= i < count implies latest(
                        (#[trigger] padded[i]).reply(),
                        self.fleet[i],
                        self.dataset,
                    ) is Ok by {
                        assert(padded[i] == past[i]);
                    }
                    assert(padded[count] == event);
                    assert(padded[count + 1] == pad[0]);
                    assert(padded[count + 2] == pad[1]);
                },
                SwitchStageView::Freezing => {
                    let old_pad = seq![
                        SwitchEventView::Replied { reply: ReplyView::Exited { success: true } },
                        SwitchEventView::Replied { reply: ReplyView::Exited { success: true } },
                    ];
                    let old_padded = past + old_pad;
                    let pad = seq![
                        SwitchEventView::Replied { reply: ReplyView::Exited { success: true } },
                    ];
                    let padded = events + pad;
                    assert(self.latest_found(padded, count as nat) =~= self.latest_found(
                        old_padded,
                        count as nat,
                    ));
                    assert forall|i: int| 0 <= i < count implies latest(
                        (#[trigger] padded[i]).reply(),
                        self.fleet[i],
                        self.dataset,
                    ) is Ok by {
                        assert(padded[i] == old_padded[i]);
                    }
                    assert(padded[count] == old_padded[count]);
                    assert(padded[count + 1] == event);
                    assert(padded[count + 2] == pad[0]);
                },
                SwitchStageView::Thawing => {
                    let old_pad = seq![
                        SwitchEventView::Replied { reply: ReplyView::Exited { success: true } },
                    ];
                    let old_padded = past + old_pad;
                    assert(self.latest_found(events, count as nat) =~= self.latest_found(
                        old_padded,
                        count as nat,
                    ));
                    assert forall|i: int| 0 <= i < count implies latest(
                        (#[trigger] events[i]).reply(),
                        self.fleet[i],
                        self.dataset,
                    ) is Ok by {
                        assert(events[i] == old_padded[i]);
                    }
                    assert(events[count] == old_padded[count]);
                    assert(events[count + 1] == old_padded[count + 1]);
                    assert(events[count + 2] == event);
                },
                _ => {},
            }
        }
    }

    /// A change of owner is on course after any reports.
    pub proof fn lemma_on_course(self, events: Seq<SwitchEventView>, config: ConfigView)
        ensures
            self.on_course(events, config),
        decreases events.len(),
    {
        if events.len() == 0 {
            assert(self.latest_found(events, 0) =~= Seq::<Seq<char>>::empty());
        } else {
            self.lemma_on_course(events.drop_last(), config);
            self.lemma_on_course_step(events, config);
        }
    }
}

/// The configuration changes only when the checks have been passed. After
/// any reports, a change of owner that has changed the configuration has
/// seen every server list the same latest snapshot, the owner show no
/// change since its own, and the dataset made read-only on the owner and
/// writable on the new owner. One that has not come so far, or has ended
/// with an error before, has left the configuration as it was.
pub proof fn lemma_switch_is_guarded(
    switch: SwitchView,
    events: Seq<SwitchEventView>,
    config: ConfigView,
)
    ensures
        ({
            let turn = switch.run(events, config);
            &&& SwitchView::committed(turn.stage) ==> {
                &&& switch.cleared(events)
                &&& turn.config == config.with_owner(switch.dataset, switch.target.name)
            }
            &&& !SwitchView::committed(turn.stage) ==> turn.config == config
        }),
{
    switch.lemma_on_course(events, config);
}

/// A change of owner that ends without error has made the new owner the
/// owner of the dataset in the configuration, and has left a well-formed
/// configuration well formed.
pub proof fn lemma_switch_done(switch: SwitchView, events: Seq<SwitchEventView>, config: ConfigView)
    requires
        switch.run(events, config).stage == (SwitchStageView::Finished { error: None }),
    ensures
        switch.run(events, config).config.dataset(switch.dataset).server == switch.target.name,
        config.well_formed() ==> switch.run(events, config).config.well_formed(),
{
    switch.lemma_on_course(events, config);
    lemma_position(config.dataset_names(), switch.dataset);
    assert(config.with_owner(switch.dataset, switch.target.name).dataset_names()
        =~= config.dataset_names());
    if config.well_formed() {
        lemma_with_owner_well_formed(config, switch.dataset, switch.target.name);
    }
}

} // verus!
