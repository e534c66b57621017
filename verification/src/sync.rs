//! Scheduling: which transfers a request to replicate starts.
//!
//! A dataset is replicated from its owner to every other server, one transfer
//! for each. A dataset of which a transfer is in flight is passed over, and
//! the registry refuses a second transfer for a dataset and a replica.

use crate::api::SyncRequest;
use crate::config::{Config, ConfigView, Server, ServerView};
use crate::error::{ErrorCode, ErrorView};
use crate::registry::{datasets_of, orderly, routes_of, ProgressRegistry};
use crate::sync_state::{SyncState, SyncStateView};
use crate::text::{holds, lemma_holds, lemma_position_is, position, same_text, texts};
use vstd::prelude::*;

verus! {

/// A transfer to start: the dataset, the server that sends and the server
/// that receives.
#[derive(Debug, PartialEq, Eq)]
pub struct Transfer {
    pub src: Server,
    pub dst: Server,
    pub dataset: String,
}

/// What a `Transfer` holds, as plain text.
pub struct TransferView {
    pub src: ServerView,
    pub dst: ServerView,
    pub dataset: Seq<char>,
}

impl View for Transfer {
    type V = TransferView;

    open spec fn view(&self) -> TransferView {
        TransferView { src: self.src@, dst: self.dst@, dataset: self.dataset@ }
    }
}

impl Clone for Transfer {
    fn clone(&self) -> (out: Self)
        ensures
            out == *self,
    {
        Transfer { src: self.src.clone(), dst: self.dst.clone(), dataset: self.dataset.clone() }
    }
}

impl TransferView {
    /// The entry with which the transfer enters the registry.
    pub open spec fn entry(self) -> SyncStateView {
        SyncStateView::fresh(self.dataset, self.src.name, self.dst.name)
    }
}

/// The views of a list of transfers.
pub open spec fn transfers(list: Seq<Transfer>) -> Seq<TransferView> {
    list.map_values(|t: Transfer| t@)
}

/// The entries of the registry and the transfers started, after `dataset`,
/// owned by `owner`, was fanned out to `servers` in order: each server not
/// named like the owner gets a transfer, unless the registry holds one for
/// the dataset and a replica of that name.
pub open spec fn fan_out(
    entries: Seq<SyncStateView>,
    owner: ServerView,
    dataset: Seq<char>,
    servers: Seq<ServerView>,
) -> (Seq<SyncStateView>, Seq<TransferView>)
    decreases servers.len(),
{
    if servers.len() == 0 {
        (entries, Seq::empty())
    } else {
        let (before, started) = fan_out(entries, owner, dataset, servers.drop_last());
        let dst = servers.last();
        if dst.name == owner.name || holds(routes_of(before), (dataset, dst.name)) {
            (before, started)
        } else {
            let transfer = TransferView { src: owner, dst, dataset };
            (before.push(transfer.entry()), started.push(transfer))
        }
    }
}

/// The error of a request to replicate `dataset`: the configuration holds no
/// such dataset, or not the server that owns it.
pub open spec fn refusal(config: ConfigView, dataset: Seq<char>) -> Option<ErrorView> {
    if !config.has_dataset(dataset) {
        Some(ErrorView::DatasetNotFoundInConfig { dataset })
    } else if !config.has_server(config.dataset(dataset).server) {
        Some(
            ErrorView::ServerNotFoundFromDataset {
                dataset,
                server_name: config.dataset(dataset).server,
            },
        )
    } else {
        None
    }
}

/// The entries of the registry and the transfers started, after a request to
/// replicate `dataset`: nothing changes where a transfer of the dataset is in
/// flight, else the dataset is fanned out from its owner to the servers.
pub open spec fn schedule_one(config: ConfigView, entries: Seq<SyncStateView>, dataset: Seq<char>)
    -> (Seq<SyncStateView>, Seq<TransferView>) {
    if holds(datasets_of(entries), dataset) {
        (entries, Seq::empty())
    } else {
        fan_out(entries, config.server(config.dataset(dataset).server), dataset, config.servers)
    }
}

/// The entries of the registry and the transfers started, after requests to
/// replicate each of `datasets`, in order.
pub open spec fn schedule_each(
    config: ConfigView,
    entries: Seq<SyncStateView>,
    datasets: Seq<Seq<char>>,
) -> (Seq<SyncStateView>, Seq<TransferView>)
    decreases datasets.len(),
{
    if datasets.len() == 0 {
        (entries, Seq::empty())
    } else {
        let (before, started) = schedule_each(config, entries, datasets.drop_last());
        let (after, more) = schedule_one(config, before, datasets.last());
        (after, started + more)
    }
}

/// The index of the first of `datasets` that cannot be replicated, or their
/// number where each can.
pub open spec fn first_refused(config: ConfigView, datasets: Seq<Seq<char>>) -> nat {
    position(datasets.map_values(|d: Seq<char>| refusal(config, d) is Some), true)
}

/// What a request to replicate `datasets` comes to: the error of the first
/// dataset that cannot be replicated, or the entries of the registry and the
/// transfers started.
pub open spec fn scheduled(
    config: ConfigView,
    entries: Seq<SyncStateView>,
    datasets: Seq<Seq<char>>,
) -> Result<(Seq<SyncStateView>, Seq<TransferView>), ErrorView> {
    let at = first_refused(config, datasets) as int;
    if at < datasets.len() {
        Err(refusal(config, datasets[at])->Some_0)
    } else {
        Ok(schedule_each(config, entries, datasets))
    }
}

/// Why `dataset` cannot be replicated, if it cannot.
pub fn check_dataset(config: &Config, dataset: &str) -> (out: Option<ErrorCode>)
    ensures
        match out {
            Some(e) => refusal(config@, dataset@) == Some(e@),
            None => refusal(config@, dataset@) is None,
        },
{
    let at = match config.find_dataset(dataset) {
        Some(at) => at,
        None => {
            return Some(ErrorCode::DatasetNotFoundInConfig { dataset: dataset.to_owned() });
        },
    };
    let owner = config.datasets[at].server.as_str();
    assert(config@.dataset(dataset@).server == owner@);
    if config.find_server(owner).is_none() {
        return Some(
            ErrorCode::ServerNotFoundFromDataset {
                dataset: dataset.to_owned(),
                server_name: owner.to_owned(),
            },
        );
    }
    None
}

/// Starts the transfers of `dataset`, which the configuration holds together
/// with its owner: enters them in the registry and appends them to `started`.
fn start_dataset(
    config: &Config,
    registry: &mut ProgressRegistry,
    dataset: &str,
    started: &mut Vec<Transfer>,
)
    requires
        refusal(config@, dataset@) is None,
    ensures
        final(registry)@ == schedule_one(config@, old(registry)@, dataset@).0,
        transfers(final(started)@) == transfers(old(started)@) + schedule_one(
            config@,
            old(registry)@,
            dataset@,
        ).1,
        orderly(final(registry)@),
{
    if registry.has_dataset(dataset) {
        assert(transfers(started@) + Seq::<TransferView>::empty() == transfers(started@));
        return ;
    }
    let at = config.find_dataset(dataset).unwrap();
    let owner_name = config.datasets[at].server.as_str();
    assert(config@.dataset(dataset@).server == owner_name@);
    let owner_at = config.find_server(owner_name).unwrap();
    let owner = &config.servers[owner_at];
    assert(owner@ == config@.server(owner_name@));
    let ghost entries = registry@;
    let ghost begun = transfers(started@);
    let mut i: usize = 0;
    assert(config@.servers.take(0) == Seq::<ServerView>::empty());
    assert(begun + Seq::<TransferView>::empty() == begun);
    while i < config.servers.len()
        invariant
            i <= config.servers.len(),
            owner@ == config@.server(owner_name@),
            registry@ == fan_out(entries, owner@, dataset@, config@.servers.take(i as int)).0,
            transfers(started@) == begun + fan_out(
                entries,
                owner@,
                dataset@,
                config@.servers.take(i as int),
            ).1,
            orderly(registry@),
        decreases config.servers.len() - i,
    {
        let dst = &config.servers[i];
        let ghost upto = config@.servers.take(i + 1);
        proof {
            assert(upto.drop_last() == config@.servers.take(i as int));
            assert(upto.last() == dst@);
        }
        if !same_text(dst.name.as_str(), owner.name.as_str()) {
            let state = SyncState::new(dataset, owner.name.as_str(), dst.name.as_str());
            if registry.insert(state) {
                let ghost before = transfers(started@);
                let transfer = Transfer {
                    src: owner.clone(),
                    dst: dst.clone(),
                    dataset: dataset.to_owned(),
                };
                started.push(transfer);
                assert(transfers(started@) == before.push(transfer@));
                assert(transfers(started@) == begun + fan_out(entries, owner@, dataset@, upto).1);
            }
        }
        i += 1;
    }
    assert(config@.servers.take(i as int) == config@.servers);
}

/// Schedules the replication of the datasets that `req` names, in order.
/// Where one of them cannot be replicated, the answer is the error of the
/// first such, and the registry stays as it was. Else the transfers to start
/// are entered in the registry and returned.
pub fn sync(req: &SyncRequest, config: &Config, registry: &mut ProgressRegistry) -> (out: Result<
    Vec<Transfer>,
    ErrorCode,
>)
    ensures
        match out {
            Ok(started) => scheduled(config@, old(registry)@, texts(req.datasets@)) == Ok::<
                (Seq<SyncStateView>, Seq<TransferView>),
                ErrorView,
            >((final(registry)@, transfers(started@))),
            Err(e) => {
                &&& scheduled(config@, old(registry)@, texts(req.datasets@)) == Err::<
                    (Seq<SyncStateView>, Seq<TransferView>),
                    ErrorView,
                >(e@)
                &&& final(registry)@ == old(registry)@
            },
        },
        orderly(final(registry)@),
{
    let ghost names = texts(req.datasets@);
    let ghost refused = names.map_values(|d: Seq<char>| refusal(config@, d) is Some);
    let mut k: usize = 0;
    while k < req.datasets.len()
        invariant
            k <= req.datasets.len(),
            names == texts(req.datasets@),
            refused == names.map_values(|d: Seq<char>| refusal(config@, d) is Some),
            forall|j: int| 0 <= j < k ==> !refused[j],
            registry@ == old(registry)@,
        decreases req.datasets.len() - k,
    {
        match check_dataset(config, req.datasets[k].as_str()) {
            Some(e) => {
                proof {
                    assert(refused[k as int]);
                    lemma_position_is(refused, true, k as int);
                }
                registry.recall_orderly();
                return Err(e);
            },
            None => {
                assert(!refused[k as int]);
            },
        }
        k += 1;
    }
    proof {
        lemma_position_is(refused, true, k as int);
        assert forall|j: int| 0 <= j < names.len() implies refusal(
            config@,
            #[trigger] names[j],
        ) is None by {
            assert(!refused[j]);
        }
    }
    registry.recall_orderly();
    let ghost entries = registry@;
    let mut started: Vec<Transfer> = Vec::new();
    let mut i: usize = 0;
    assert(names.take(0) == Seq::<Seq<char>>::empty());
    while i < req.datasets.len()
        invariant
            i <= req.datasets.len(),
            names == texts(req.datasets@),
            forall|j: int| 0 <= j < names.len() ==> refusal(config@, #[trigger] names[j]) is None,
            (registry@, transfers(started@)) == schedule_each(
                config@,
                entries,
                names.take(i as int),
            ),
            orderly(registry@),
        decreases req.datasets.len() - i,
    {
        let ghost upto = names.take(i + 1);
        proof {
            assert(upto.drop_last() == names.take(i as int));
            assert(upto.last() == req.datasets@[i as int]@);
            assert(names[i as int] == req.datasets@[i as int]@);
        }
        start_dataset(config, registry, req.datasets[i].as_str(), &mut started);
        i += 1;
    }
    assert(names.take(i as int) == names);
    Ok(started)
}

/// Schedules the replication of every dataset of the configuration, in
/// order, as `sync` does for the datasets that a request names.
pub fn sync_all(config: &Config, registry: &mut ProgressRegistry) -> (out: Result<
    Vec<Transfer>,
    ErrorCode,
>)
    ensures
        match out {
            Ok(started) => scheduled(config@, old(registry)@, config@.dataset_names()) == Ok::<
                (Seq<SyncStateView>, Seq<TransferView>),
                ErrorView,
            >((final(registry)@, transfers(started@))),
            Err(e) => {
                &&& scheduled(config@, old(registry)@, config@.dataset_names()) == Err::<
                    (Seq<SyncStateView>, Seq<TransferView>),
                    ErrorView,
                >(e@)
                &&& final(registry)@ == old(registry)@
            },
        },
        orderly(final(registry)@),
{
    let mut names: Vec<String> = Vec::new();
    let mut i: usize = 0;
    while i < config.datasets.len()
        invariant
            i <= config.datasets.len(),
            texts(names@) == config@.dataset_names().take(i as int),
        decreases config.datasets.len() - i,
    {
        let ghost before = texts(names@);
        names.push(config.datasets[i].name.clone());
        assert(texts(names@) == before.push(config.datasets[i as int].name@));
        assert(config@.dataset_names().take(i + 1) == before.push(config.datasets[i as int].name@));
        i += 1;
    }
    assert(config@.dataset_names().take(i as int) == config@.dataset_names());
    let req = SyncRequest { datasets: names };
    sync(&req, config, registry)
}

/// The entries with which `started` enter the registry.
pub open spec fn entries_of(started: Seq<TransferView>) -> Seq<SyncStateView> {
    started.map_values(|t: TransferView| t.entry())
}

/// Fanning a dataset out appends the entries of the transfers started to
/// the registry. Each transfer goes from the owner to a server of `servers`
/// that is not named like the owner, and takes the dataset to a replica that
/// had no entry for it.
pub proof fn lemma_fan_out(
    entries: Seq<SyncStateView>,
    owner: ServerView,
    dataset: Seq<char>,
    servers: Seq<ServerView>,
)
    ensures
        ({
            let (after, started) = fan_out(entries, owner, dataset, servers);
            &&& after == entries + entries_of(started)
            &&& forall|k: int|
                0 <= k < started.len() ==> {
                    &&& (#[trigger] started[k]).src == owner
                    &&& started[k].dataset == dataset
                    &&& started[k].dst.name != owner.name
                    &&& servers.contains(started[k].dst)
                    &&& !holds(routes_of(entries), (dataset, started[k].dst.name))
                }
        }),
    decreases servers.len(),
{
    if servers.len() > 0 {
        let front = servers.drop_last();
        lemma_fan_out(entries, owner, dataset, front);
        let (before, begun) = fan_out(entries, owner, dataset, front);
        let (after, started) = fan_out(entries, owner, dataset, servers);
        let dst = servers.last();
        assert forall|k: int| 0 <= k < begun.len() implies servers.contains(begun[k].dst) by {
            let j = choose|j: int| 0 <= j < front.len() && front[j] == begun[k].dst;
            assert(servers[j] == begun[k].dst);
        }
        if !(dst.name == owner.name || holds(routes_of(before), (dataset, dst.name))) {
            let transfer = TransferView { src: owner, dst, dataset };
            assert(entries_of(started) =~= entries_of(begun).push(transfer.entry()));
            assert(after =~= entries + entries_of(started));
            assert(servers[servers.len() - 1] == dst);
            assert(!holds(routes_of(entries), (dataset, dst.name))) by {
                lemma_holds(routes_of(entries), (dataset, dst.name));
                lemma_holds(routes_of(before), (dataset, dst.name));
                if holds(routes_of(entries), (dataset, dst.name)) {
                    let j = choose|j: int|
                        0 <= j < routes_of(entries).len() && routes_of(entries)[j] == (
                            dataset,
                            dst.name,
                        );
                    assert(routes_of(before)[j] == (dataset, dst.name));
                }
            }
        }
    } else {
        assert(entries + entries_of(Seq::<TransferView>::empty()) =~= entries);
    }
}

/// With servers of different names and no transfer of the dataset in
/// flight, fanning the dataset out starts one transfer to every server but
/// the owner, in the order of the servers.
pub proof fn lemma_fan_out_reaches_all(
    entries: Seq<SyncStateView>,
    owner: ServerView,
    dataset: Seq<char>,
    servers: Seq<ServerView>,
)
    requires
        servers.map_values(|s: ServerView| s.name).no_duplicates(),
        !holds(datasets_of(entries), dataset),
    ensures
        fan_out(entries, owner, dataset, servers).1 == servers.filter(
            |s: ServerView| s.name != owner.name,
        ).map_values(|s: ServerView| TransferView { src: owner, dst: s, dataset }),
    decreases servers.len(),
{
    reveal(Seq::filter);
    let others = |s: ServerView| s.name != owner.name;
    let to = |s: ServerView| TransferView { src: owner, dst: s, dataset };
    if servers.len() > 0 {
        let front = servers.drop_last();
        let dst = servers.last();
        let names = servers.map_values(|s: ServerView| s.name);
        assert(front.map_values(|s: ServerView| s.name) =~= names.drop_last());
        lemma_fan_out_reaches_all(entries, owner, dataset, front);
        lemma_fan_out(entries, owner, dataset, front);
        let (before, begun) = fan_out(entries, owner, dataset, front);
        assert(!holds(routes_of(before), (dataset, dst.name))) by {
            lemma_holds(routes_of(before), (dataset, dst.name));
            lemma_holds(datasets_of(entries), dataset);
            if holds(routes_of(before), (dataset, dst.name)) {
                let j = choose|j: int|
                    0 <= j < routes_of(before).len() && routes_of(before)[j] == (dataset, dst.name);
                if j < entries.len() {
                    assert(datasets_of(entries)[j] == dataset);
                } else {
                    let k = j - entries.len();
                    assert(before[j] == begun[k].entry());
                    assert(front.contains(begun[k].dst));
                    let m = choose|m: int| 0 <= m < front.len() && front[m] == begun[k].dst;
                    assert(names[m] == names[servers.len() - 1]);
                }
            }
        }
        if dst.name != owner.name {
            assert(servers.filter(others).map_values(to) =~= front.filter(others).map_values(
                to,
            ).push(to(dst)));
        }
    } else {
        assert(servers.filter(others).map_values(to) =~= Seq::<TransferView>::empty());
    }
}

/// No transfer is started twice. Where the registry is orderly after the
/// entries of `started` were appended to `entries`, no two of `started` take
/// one dataset to one replica, and none takes a dataset to a replica that
/// had an entry for it.
pub proof fn lemma_no_double_start(entries: Seq<SyncStateView>, started: Seq<TransferView>)
    requires
        orderly(entries + entries_of(started)),
    ensures
        forall|i: int, j: int|
            0 <= i < j < started.len() ==> (started[i].dataset, started[i].dst.name) != (
                started[j].dataset,
                started[j].dst.name,
            ),
        forall|i: int|
            0 <= i < started.len() ==> !holds(
                routes_of(entries),
                (#[trigger] started[i].dataset, started[i].dst.name),
            ),
{
    let all = entries + entries_of(started);
    let routes = routes_of(all);
    assert forall|i: int, j: int| 0 <= i < j < started.len() implies (
        started[i].dataset,
        started[i].dst.name,
    ) != (started[j].dataset, started[j].dst.name) by {
        assert(routes[entries.len() + i] != routes[entries.len() + j]);
    }
    assert forall|i: int| 0 <= i < started.len() implies !holds(
        routes_of(entries),
        (#[trigger] started[i].dataset, started[i].dst.name),
    ) by {
        let route = (started[i].dataset, started[i].dst.name);
        lemma_holds(routes_of(entries), route);
        if holds(routes_of(entries), route) {
            let j = choose|j: int|
                0 <= j < routes_of(entries).len() && routes_of(entries)[j] == route;
            assert(routes[j] == route);
            assert(routes[entries.len() + i] == route);
        }
    }
}

/// Scheduling appends to the registry the entries of the transfers that it
/// starts, and nothing else.
pub proof fn lemma_schedule_appends(
    config: ConfigView,
    entries: Seq<SyncStateView>,
    datasets: Seq<Seq<char>>,
)
    ensures
        schedule_each(config, entries, datasets).0 == entries + entries_of(
            schedule_each(config, entries, datasets).1,
        ),
    decreases datasets.len(),
{
    if datasets.len() > 0 {
        lemma_schedule_appends(config, entries, datasets.drop_last());
        let (before, started) = schedule_each(config, entries, datasets.drop_last());
        let (after, more) = schedule_one(config, before, datasets.last());
        if !holds(datasets_of(before), datasets.last()) {
            lemma_fan_out(
                before,
                config.server(config.dataset(datasets.last()).server),
                datasets.last(),
                config.servers,
            );
        }
        assert(entries_of(started + more) =~= entries_of(started) + entries_of(more));
        assert(after =~= entries + entries_of(started + more));
    } else {
        assert(entries + entries_of(Seq::<TransferView>::empty()) =~= entries);
    }
}

/// Fanning a dataset out keeps an orderly registry orderly.
pub proof fn lemma_fan_out_keeps_order(
    entries: Seq<SyncStateView>,
    owner: ServerView,
    dataset: Seq<char>,
    servers: Seq<ServerView>,
)
    requires
        orderly(entries),
    ensures
        orderly(fan_out(entries, owner, dataset, servers).0),
    decreases servers.len(),
{
    if servers.len() > 0 {
        lemma_fan_out_keeps_order(entries, owner, dataset, servers.drop_last());
        let (before, begun) = fan_out(entries, owner, dataset, servers.drop_last());
        let dst = servers.last();
        if !(dst.name == owner.name || holds(routes_of(before), (dataset, dst.name))) {
            let entry = (TransferView { src: owner, dst, dataset }).entry();
            let after = before.push(entry);
            lemma_holds(routes_of(before), (dataset, dst.name));
            assert(routes_of(after) =~= routes_of(before).push((dataset, dst.name)));
            assert forall|i: int| 0 <= i < after.len() implies (
            #[trigger] after[i]).well_formed() by {
                if i < before.len() {
                    assert(after[i] == before[i]);
                }
            }
        }
    }
}

/// No two transfers in flight take one dataset to one replica. Scheduling
/// keeps an orderly registry orderly; the transfers that it starts are for
/// different pairs of dataset and replica, and none of them is for a pair
/// that had an entry.
pub proof fn lemma_no_two_transfers(
    config: ConfigView,
    entries: Seq<SyncStateView>,
    datasets: Seq<Seq<char>>,
)
    requires
        orderly(entries),
    ensures
        ({
            let (after, started) = schedule_each(config, entries, datasets);
            &&& orderly(after)
            &&& after == entries + entries_of(started)
            &&& forall|i: int, j: int|
                0 <= i < j < started.len() ==> (started[i].dataset, started[i].dst.name) != (
                    started[j].dataset,
                    started[j].dst.name,
                )
            &&& forall|i: int|
                0 <= i < started.len() ==> !holds(
                    routes_of(entries),
                    (#[trigger] started[i].dataset, started[i].dst.name),
                )
        }),
    decreases datasets.len(),
{
    lemma_schedule_appends(config, entries, datasets);
    if datasets.len() > 0 {
        lemma_no_two_transfers(config, entries, datasets.drop_last());
        let (before, begun) = schedule_each(config, entries, datasets.drop_last());
        if !holds(datasets_of(before), datasets.last()) {
            lemma_fan_out_keeps_order(
                before,
                config.server(config.dataset(datasets.last()).server),
                datasets.last(),
                config.servers,
            );
        }
    }
    let (after, started) = schedule_each(config, entries, datasets);
    lemma_no_double_start(entries, started);
}

} // verus!
