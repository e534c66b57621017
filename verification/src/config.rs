//! The fleet as the coordinator knows it: servers, datasets and who owns what.

use crate::error::{ErrorCode, ErrorView};
use crate::text::{holds, lemma_position, lemma_position_is, position, same_text, texts};
use vstd::prelude::*;

verus! {

/// A storage server of the fleet.
#[derive(Debug, PartialEq, Eq)]
pub struct Server {
    /// The name by which datasets and requests refer to the server.
    pub name: String,
    /// The login on the server.
    pub user: String,
    /// The network address of the server.
    pub address: String,
    /// The pool under which the server keeps every dataset.
    pub pool: String,
}

/// What a `Server` holds, as plain text.
pub struct ServerView {
    pub name: Seq<char>,
    pub user: Seq<char>,
    pub address: Seq<char>,
    pub pool: Seq<char>,
}

impl View for Server {
    type V = ServerView;

    open spec fn view(&self) -> ServerView {
        ServerView { name: self.name@, user: self.user@, address: self.address@, pool: self.pool@ }
    }
}

impl Clone for Server {
    fn clone(&self) -> (out: Self)
        ensures
            out == *self,
    {
        Server {
            name: self.name.clone(),
            user: self.user.clone(),
            address: self.address.clone(),
            pool: self.pool.clone(),
        }
    }
}

/// A dataset and the server that owns it.
#[derive(Debug, PartialEq, Eq)]
pub struct Dataset {
    /// The name of the dataset, the same on every server and without the pool.
    pub name: String,
    /// Who the dataset belongs to; kept for the operator.
    pub owner: String,
    /// The name of the server on which the dataset is writable.
    pub server: String,
    /// How long a managed snapshot is kept: a number and one of `d`, `w`, `M`.
    pub snapshot_lifetime: String,
}

/// What a `Dataset` holds, as plain text.
pub struct DatasetView {
    pub name: Seq<char>,
    pub owner: Seq<char>,
    pub server: Seq<char>,
    pub snapshot_lifetime: Seq<char>,
}

impl View for Dataset {
    type V = DatasetView;

    open spec fn view(&self) -> DatasetView {
        DatasetView {
            name: self.name@,
            owner: self.owner@,
            server: self.server@,
            snapshot_lifetime: self.snapshot_lifetime@,
        }
    }
}

impl Clone for Dataset {
    fn clone(&self) -> (out: Self)
        ensures
            out == *self,
    {
        Dataset {
            name: self.name.clone(),
            owner: self.owner.clone(),
            server: self.server.clone(),
            snapshot_lifetime: self.snapshot_lifetime.clone(),
        }
    }
}

/// The servers and the datasets of the fleet, in the order of the configuration file.
#[derive(Debug, PartialEq, Eq)]
pub struct Config {
    pub servers: Vec<Server>,
    pub datasets: Vec<Dataset>,
}

/// What a `Config` holds, as plain text.
pub struct ConfigView {
    pub servers: Seq<ServerView>,
    pub datasets: Seq<DatasetView>,
}

impl View for Config {
    type V = ConfigView;

    open spec fn view(&self) -> ConfigView {
        ConfigView {
            servers: self.servers@.map_values(|s: Server| s@),
            datasets: self.datasets@.map_values(|d: Dataset| d@),
        }
    }
}

impl ConfigView {
    /// The names of the servers, in order.
    pub open spec fn server_names(self) -> Seq<Seq<char>> {
        self.servers.map_values(|s: ServerView| s.name)
    }

    /// The names of the datasets, in order.
    pub open spec fn dataset_names(self) -> Seq<Seq<char>> {
        self.datasets.map_values(|d: DatasetView| d.name)
    }

    /// Whether a server is named `name`.
    pub open spec fn has_server(self, name: Seq<char>) -> bool {
        holds(self.server_names(), name)
    }

    /// Whether a dataset is named `name`.
    pub open spec fn has_dataset(self, name: Seq<char>) -> bool {
        holds(self.dataset_names(), name)
    }

    /// The first server named `name`; meaningful where there is one.
    pub open spec fn server(self, name: Seq<char>) -> ServerView {
        self.servers[position(self.server_names(), name) as int]
    }

    /// The first dataset named `name`; meaningful where there is one.
    pub open spec fn dataset(self, name: Seq<char>) -> DatasetView {
        self.datasets[position(self.dataset_names(), name) as int]
    }

    /// No two servers and no two datasets share a name, and every dataset is
    /// owned by a server of the configuration.
    pub open spec fn well_formed(self) -> bool {
        &&& self.server_names().no_duplicates()
        &&& self.dataset_names().no_duplicates()
        &&& forall|i: int|
            0 <= i < self.datasets.len() ==> self.has_server(#[trigger] self.datasets[i].server)
    }

    /// The configuration in which the first dataset named `dataset` is owned
    /// by `server`, and nothing else differs.
    pub open spec fn with_owner(self, dataset: Seq<char>, server: Seq<char>) -> ConfigView {
        let at = position(self.dataset_names(), dataset) as int;
        ConfigView {
            servers: self.servers,
            datasets: self.datasets.update(
                at,
                DatasetView {
                    name: self.datasets[at].name,
                    owner: self.datasets[at].owner,
                    server: server,
                    snapshot_lifetime: self.datasets[at].snapshot_lifetime,
                },
            ),
        }
    }
}

/// Handing a dataset to a server of the configuration keeps the configuration well formed.
pub proof fn lemma_with_owner_well_formed(c: ConfigView, dataset: Seq<char>, server: Seq<char>)
    requires
        c.well_formed(),
        c.has_dataset(dataset),
        c.has_server(server),
    ensures
        c.with_owner(dataset, server).well_formed(),
        c.with_owner(dataset, server).dataset(dataset).server == server,
{
    let after = c.with_owner(dataset, server);
    let at = position(c.dataset_names(), dataset) as int;
    lemma_position(c.dataset_names(), dataset);
    assert(after.server_names() == c.server_names());
    assert(after.dataset_names() == c.dataset_names());
    assert forall|i: int| 0 <= i < after.datasets.len() implies after.has_server(
        #[trigger] after.datasets[i].server,
    ) by {
        if i != at {
            assert(after.datasets[i].server == c.datasets[i].server);
        }
    }
}

/// The names of `servers`, in order.
pub open spec fn names_of(servers: Seq<Server>) -> Seq<Seq<char>> {
    servers.map_values(|s: Server| s.name@)
}

/// The index of the first of `servers` that is named `name`.
pub fn find_named(servers: &Vec<Server>, name: &str) -> (at: Option<usize>)
    ensures
        at matches Some(i) ==> holds(names_of(servers@), name@) && i == position(
            names_of(servers@),
            name@,
        ),
        at is None ==> !holds(names_of(servers@), name@),
{
    let mut i: usize = 0;
    while i < servers.len()
        invariant
            i <= servers.len(),
            forall|j: int| 0 <= j < i ==> names_of(servers@)[j] != name@,
        decreases servers.len() - i,
    {
        if same_text(servers[i].name.as_str(), name) {
            proof {
                lemma_position_is(names_of(servers@), name@, i as int);
            }
            return Some(i);
        }
        i += 1;
    }
    proof {
        lemma_position_is(names_of(servers@), name@, i as int);
    }
    None
}

/// Whether no two of `names` are the same.
pub fn all_different(names: &Vec<String>) -> (out: bool)
    ensures
        out == texts(names@).no_duplicates(),
{
    let ghost all = texts(names@);
    let mut i: usize = 0;
    while i < names.len()
        invariant
            i <= names.len(),
            all == texts(names@),
            forall|a: int, b: int| 0 <= b < a < i ==> all[a] != all[b],
        decreases names.len() - i,
    {
        let mut j: usize = 0;
        while j < i
            invariant
                j <= i < names.len(),
                all == texts(names@),
                forall|b: int| 0 <= b < j ==> all[i as int] != all[b],
            decreases i - j,
        {
            if same_text(names[i].as_str(), names[j].as_str()) {
                assert(all[i as int] == all[j as int]);
                return false;
            }
            j += 1;
        }
        i += 1;
    }
    assert forall|a: int, b: int| 0 <= a < all.len() && 0 <= b < all.len() && a != b implies all[a]
        != all[b] by {
        if a < b {
            assert(all[b] != all[a]);
        }
    }
    true
}

/// A copy of `servers`.
pub fn copy_servers(servers: &Vec<Server>) -> (out: Vec<Server>)
    ensures
        out@ == servers@,
{
    let mut out: Vec<Server> = Vec::new();
    let mut i: usize = 0;
    while i < servers.len()
        invariant
            i <= servers.len(),
            out@ == servers@.take(i as int),
        decreases servers.len() - i,
    {
        out.push(servers[i].clone());
        i += 1;
    }
    assert(out@ == servers@);
    out
}

impl Clone for Config {
    fn clone(&self) -> (out: Self)
        ensures
            out@ == self@,
    {
        let servers = copy_servers(&self.servers);
        let mut datasets: Vec<Dataset> = Vec::new();
        let mut j: usize = 0;
        while j < self.datasets.len()
            invariant
                j <= self.datasets.len(),
                datasets@ == self.datasets@.take(j as int),
            decreases self.datasets.len() - j,
        {
            datasets.push(self.datasets[j].clone());
            j += 1;
        }
        assert(datasets@ == self.datasets@);
        Config { servers, datasets }
    }
}

impl Config {
    /// Whether the configuration is well formed: no two servers and no two
    /// datasets share a name, and every dataset is owned by a server of the
    /// configuration.
    pub fn is_well_formed(&self) -> (out: bool)
        ensures
            out == self@.well_formed(),
    {
        let mut servers: Vec<String> = Vec::new();
        let mut i: usize = 0;
        while i < self.servers.len()
            invariant
                i <= self.servers.len(),
                texts(servers@) == self@.server_names().take(i as int),
            decreases self.servers.len() - i,
        {
            let ghost before = texts(servers@);
            servers.push(self.servers[i].name.clone());
            assert(texts(servers@) == before.push(self.servers[i as int].name@));
            assert(self@.server_names().take(i + 1) == before.push(self.servers[i as int].name@));
            i += 1;
        }
        assert(self@.server_names().take(i as int) == self@.server_names());
        let mut datasets: Vec<String> = Vec::new();
        let mut j: usize = 0;
        while j < self.datasets.len()
            invariant
                j <= self.datasets.len(),
                texts(datasets@) == self@.dataset_names().take(j as int),
            decreases self.datasets.len() - j,
        {
            let ghost before = texts(datasets@);
            datasets.push(self.datasets[j].name.clone());
            assert(texts(datasets@) == before.push(self.datasets[j as int].name@));
            assert(self@.dataset_names().take(j + 1) == before.push(self.datasets[j as int].name@));
            j += 1;
        }
        assert(self@.dataset_names().take(j as int) == self@.dataset_names());
        if !all_different(&servers) || !all_different(&datasets) {
            return false;
        }
        let mut k: usize = 0;
        while k < self.datasets.len()
            invariant
                k <= self.datasets.len(),
                forall|d: int| 0 <= d < k ==> self@.has_server(#[trigger] self@.datasets[d].server),
            decreases self.datasets.len() - k,
        {
            if self.find_server(self.datasets[k].server.as_str()).is_none() {
                assert(!self@.has_server(self@.datasets[k as int].server));
                return false;
            }
            k += 1;
        }
        true
    }

    /// The index of the first server named `name`.
    pub fn find_server(&self, name: &str) -> (at: Option<usize>)
        ensures
            at matches Some(i) ==> self@.has_server(name@) && i == position(
                self@.server_names(),
                name@,
            ),
            at is None ==> !self@.has_server(name@),
    {
        assert(names_of(self.servers@) =~= self@.server_names());
        find_named(&self.servers, name)
    }

    /// The index of the first dataset named `name`.
    pub fn find_dataset(&self, name: &str) -> (at: Option<usize>)
        ensures
            at matches Some(i) ==> self@.has_dataset(name@) && i == position(
                self@.dataset_names(),
                name@,
            ),
            at is None ==> !self@.has_dataset(name@),
    {
        let mut i: usize = 0;
        while i < self.datasets.len()
            invariant
                i <= self.datasets.len(),
                forall|j: int| 0 <= j < i ==> self@.dataset_names()[j] != name@,
            decreases self.datasets.len() - i,
        {
            if same_text(self.datasets[i].name.as_str(), name) {
                proof {
                    lemma_position_is(self@.dataset_names(), name@, i as int);
                }
                return Some(i);
            }
            i += 1;
        }
        proof {
            lemma_position_is(self@.dataset_names(), name@, i as int);
        }
        None
    }

    /// Makes `server` the owner of `dataset`. A dataset or a server that the
    /// configuration does not hold is refused, the dataset first, and the
    /// configuration stays as it was.
    pub fn set_owner(&mut self, dataset: &str, server: &str) -> (done: Result<(), ErrorCode>)
        ensures
            match done {
                Ok(()) => {
                    &&& old(self)@.has_dataset(dataset@)
                    &&& old(self)@.has_server(server@)
                    &&& final(self)@ == old(self)@.with_owner(dataset@, server@)
                    &&& old(self)@.well_formed() ==> final(self)@.well_formed()
                },
                Err(e) => {
                    &&& final(self)@ == old(self)@
                    &&& if !old(self)@.has_dataset(dataset@) {
                        e@ == (ErrorView::DatasetNotFoundInConfig { dataset: dataset@ })
                    } else {
                        &&& !old(self)@.has_server(server@)
                        &&& e@ == (ErrorView::ServerNotFoundFromRequest { server_name: server@ })
                    }
                },
            },
    {
        let at = match self.find_dataset(dataset) {
            Some(at) => at,
            None => {
                return Err(ErrorCode::DatasetNotFoundInConfig { dataset: dataset.to_owned() });
            },
        };
        if self.find_server(server).is_none() {
            return Err(ErrorCode::ServerNotFoundFromRequest { server_name: server.to_owned() });
        }
        let moved = Dataset {
            name: self.datasets[at].name.clone(),
            owner: self.datasets[at].owner.clone(),
            server: server.to_owned(),
            snapshot_lifetime: self.datasets[at].snapshot_lifetime.clone(),
        };
        self.datasets.set(at, moved);
        assert(self@.datasets =~= old(self)@.with_owner(dataset@, server@).datasets);
        proof {
            if old(self)@.well_formed() {
                lemma_with_owner_well_formed(old(self)@, dataset@, server@);
            }
        }
        Ok(())
    }
}

} // verus!
