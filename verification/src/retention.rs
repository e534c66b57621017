//! Retention: which managed snapshots have outlived their dataset's policy.
//!
//! A managed snapshot carries the local time of its creation in its tag,
//! `brig-` and fourteen digits. It is expired where that stamp comes before
//! the cutoff, the stamp of now less the dataset's lifetime. Snapshots with
//! any other tag are never expired.

use crate::clock::{is_stamp, local_stamp};
use crate::config::{Config, ConfigView, Server, ServerView};
use crate::error::{seen_texts, ErrorCode, ErrorView};
use crate::pattern::{capture_first_group, first_group};
use crate::remote::{Invocation, Reply, ReplyView};
use crate::snapshot::tag;
use crate::text::{
    all_digits, chars_of, comes_before, decimal, holds, lemma_position, lemma_position_is,
    maybe_text, precedes, read_digits, same_text, texts,
};
use crate::toolkit::{
    list_snapshots_command, list_snapshots_invocation, list_snapshots_reply, listed, managed_name,
    qualified, snapshot_name,
};
use vstd::prelude::*;

verus! {

/// The days that one unit of a lifetime lasts: `d` a day, `w` a week, `M` a
/// month of thirty days. Other letters are no units.
pub open spec fn unit_days(unit: char) -> Option<nat> {
    if unit == 'd' {
        Some(1)
    } else if unit == 'w' {
        Some(7)
    } else if unit == 'M' {
        Some(30)
    } else {
        None
    }
}

/// The days that `lifetime` lasts: one or more decimal digits and a unit, the
/// number times the unit's days, where that is a number of days that fits in
/// 63 bits. Any other text is no lifetime.
pub open spec fn lifetime_days(lifetime: Seq<char>) -> Option<i64> {
    if lifetime.len() >= 2 && all_digits(lifetime.drop_last()) && unit_days(lifetime.last())
        is Some && decimal(lifetime.drop_last()) * unit_days(lifetime.last())->Some_0
        <= i64::MAX {
        Some((decimal(lifetime.drop_last()) * unit_days(lifetime.last())->Some_0) as i64)
    } else {
        None
    }
}

/// The days that `lifetime` lasts; `None` where it is no lifetime, and the
/// dataset is then left out of retention.
pub fn parse_lifetime(lifetime: &str) -> (out: Option<i64>)
    ensures
        out == lifetime_days(lifetime@),
{
    let mut chars = chars_of(lifetime);
    if chars.len() < 2 {
        return None;
    }
    let unit = chars[chars.len() - 1];
    let factor: u64 = if unit == 'd' {
        1
    } else if unit == 'w' {
        7
    } else if unit == 'M' {
        30
    } else {
        return None;
    };
    chars.pop();
    assert(chars@ == lifetime@.drop_last());
    assert(chars@.skip(0) == chars@);
    match read_digits(&chars, 0) {
        None => {
            assert(decimal(chars@) * factor > i64::MAX || !all_digits(chars@)) by (nonlinear_arith)
                requires
                    decimal(chars@) > u64::MAX || !all_digits(chars@),
                    factor >= 1,
            ;
            None
        },
        Some(count) => {
            if count > (i64::MAX as u64) / factor {
                assert(count * factor > i64::MAX) by (nonlinear_arith)
                    requires
                        count > (i64::MAX as u64) / factor,
                        factor == 1 || factor == 7 || factor == 30,
                ;
                None
            } else {
                assert(count * factor <= i64::MAX) by (nonlinear_arith)
                    requires
                        count <= (i64::MAX as u64) / factor,
                        factor == 1 || factor == 7 || factor == 30,
                ;
                Some((count * factor) as i64)
            }
        },
    }
}

/// The stamp before which the managed snapshots of a dataset with the
/// lifetime `lifetime` are expired: that of the local time now, less the
/// lifetime. `None` where `lifetime` is no lifetime or the clock cannot give
/// that time; the dataset is then left out of retention.
pub fn retention_cutoff(lifetime: &str) -> (out: Option<String>)
    ensures
        lifetime_days(lifetime@) is None ==> out is None,
        out matches Some(cutoff) ==> is_stamp(cutoff@),
{
    match parse_lifetime(lifetime) {
        Some(days) => local_stamp(days),
        None => None,
    }
}

/// The regular expression that finds the stamp at the end of a managed
/// snapshot's name.
pub const MANAGED_STAMP: &'static str = "@brig-(\\d{14})$";

/// Whether the snapshot named `line` is a managed snapshot of `pool/dataset`
/// that is expired at `cutoff`, given the stamp that the pattern found at the
/// end of `line`: the name is `pool/dataset@brig-` and that stamp, of
/// fourteen characters, and the stamp comes before `cutoff`.
pub open spec fn expired(
    line: Seq<char>,
    pool: Seq<char>,
    dataset: Seq<char>,
    stamp: Option<Seq<char>>,
    cutoff: Seq<char>,
) -> bool {
    &&& stamp matches Some(at)
    &&& at.len() == 14
    &&& line == managed_name(pool, dataset, at)
    &&& precedes(at, cutoff)
}

/// Whether the snapshot named `line` is a managed snapshot of `pool/dataset`
/// that is expired at `cutoff`, given the stamp found at the end of `line`.
pub fn is_expired(
    line: &str,
    pool: &str,
    dataset: &str,
    stamp: &Option<String>,
    cutoff: &str,
) -> (out: bool)
    ensures
        out == expired(line@, pool@, dataset@, maybe_text(*stamp), cutoff@),
{
    match stamp {
        None => false,
        Some(at) => {
            let name = snapshot_name(pool, dataset, at.as_str());
            at.as_str().unicode_len() == 14 && same_text(line, name.as_str()) && comes_before(
                at.as_str(),
                cutoff,
            )
        },
    }
}

/// Whether the snapshot named `line` is to be destroyed at `cutoff`.
pub open spec fn doomed(line: Seq<char>, pool: Seq<char>, dataset: Seq<char>, cutoff: Seq<char>)
    -> bool {
    expired(line, pool, dataset, first_group(MANAGED_STAMP@, line), cutoff)
}

/// The snapshots among `names` that are to be destroyed at `cutoff`: the
/// managed snapshots of `pool/dataset` whose stamp comes before `cutoff`, in
/// the order of `names`.
pub fn expired_snapshots(names: &Vec<String>, pool: &str, dataset: &str, cutoff: &str) -> (out:
    Vec<String>)
    ensures
        texts(out@) == texts(names@).filter(
            |line: Seq<char>| doomed(line, pool@, dataset@, cutoff@),
        ),
{
    let ghost all = texts(names@);
    let ghost pick = |line: Seq<char>| doomed(line, pool@, dataset@, cutoff@);
    let mut out: Vec<String> = Vec::new();
    let mut i: usize = 0;
    assert(all.take(0).filter(pick) == Seq::<Seq<char>>::empty());
    while i < names.len()
        invariant
            i <= names.len(),
            all == texts(names@),
            pick == |line: Seq<char>| doomed(line, pool@, dataset@, cutoff@),
            texts(out@) == all.take(i as int).filter(pick),
        decreases names.len() - i,
    {
        let stamp = capture_first_group(MANAGED_STAMP, names[i].as_str());
        let goes = is_expired(names[i].as_str(), pool, dataset, &stamp, cutoff);
        proof {
            reveal(Seq::filter);
            let upto = all.take(i + 1);
            assert(upto.drop_last() == all.take(i as int));
            assert(upto.last() == names@[i as int]@);
            assert(goes == pick(upto.last()));
        }
        if goes {
            let ghost before = out@;
            out.push(names[i].clone());
            assert(texts(out@) == texts(before).push(names@[i as int]@));
        }
        i += 1;
    }
    assert(all.take(i as int) == all);
    out
}

/// Every snapshot that retention destroys is a managed snapshot of the
/// dataset: its name is `pool/dataset@brig-` and a stamp of fourteen
/// characters that the pattern found and that comes before the cutoff. So no
/// snapshot whose stamp is the cutoff or later is destroyed; and where
/// `pool/dataset` holds no `@`, as the names of pools and datasets do not,
/// the tag of every snapshot destroyed is `brig-` and that stamp.
pub proof fn lemma_destroyed_are_expired(
    names: Seq<Seq<char>>,
    pool: Seq<char>,
    dataset: Seq<char>,
    cutoff: Seq<char>,
    i: int,
)
    requires
        0 <= i < names.filter(|line: Seq<char>| doomed(line, pool, dataset, cutoff)).len(),
    ensures
        ({
            let gone = names.filter(|line: Seq<char>| doomed(line, pool, dataset, cutoff))[i];
            &&& names.contains(gone)
            &&& first_group(MANAGED_STAMP@, gone) matches Some(at)
            &&& at.len() == 14
            &&& gone == pool + "/"@ + dataset + "@brig-"@ + at
            &&& precedes(at, cutoff)
            &&& !holds(qualified(pool, dataset), '@') ==> tag(gone) == Some("brig-"@ + at)
        }),
{
    let pick = |line: Seq<char>| doomed(line, pool, dataset, cutoff);
    let gone = names.filter(pick)[i];
    names.lemma_filter_contains_rev(pick, gone);
    let at = first_group(MANAGED_STAMP@, gone)->Some_0;
    let place = qualified(pool, dataset);
    if !holds(place, '@') {
        reveal_strlit("@brig-");
        reveal_strlit("brig-");
        lemma_position(place, '@');
        assert forall|j: int| 0 <= j < place.len() implies gone[j] != '@' by {
            assert(gone[j] == place[j]);
        }
        assert(gone[place.len() as int] == "@brig-"@[0]);
        lemma_position_is(gone, '@', place.len() as int);
        assert(gone.skip(place.len() as int + 1) =~= "brig-"@ + at);
    }
}

/// One listing of retention: the managed snapshots of `dataset` on
/// `server` that are older than `cutoff` are to go.
#[derive(Debug, PartialEq, Eq)]
pub struct Sweep {
    pub server: Server,
    pub dataset: String,
    pub cutoff: String,
}

/// What a `Sweep` holds, as plain text.
pub struct SweepView {
    pub server: ServerView,
    pub dataset: Seq<char>,
    pub cutoff: Seq<char>,
}

impl View for Sweep {
    type V = SweepView;

    open spec fn view(&self) -> SweepView {
        SweepView { server: self.server@, dataset: self.dataset@, cutoff: self.cutoff@ }
    }
}

impl SweepView {
    /// What the reply to the listing of the sweep stands for: the names of
    /// the snapshots to destroy, in the order of the listing.
    pub open spec fn condemned(self, reply: ReplyView) -> Result<Seq<Seq<char>>, ErrorView> {
        match listed(reply, self.server, self.dataset) {
            Ok(names) => Ok(
                names.filter(
                    |line: Seq<char>| doomed(line, self.server.pool, self.dataset, self.cutoff),
                ),
            ),
            Err(e) => Err(e),
        }
    }
}

impl Sweep {
    /// The command that lists the snapshots of the dataset on the server,
    /// the oldest first.
    pub fn command(&self) -> (out: Invocation)
        ensures
            out@ == list_snapshots_invocation(self@.server.pool, self@.dataset, false),
    {
        list_snapshots_command(self.server.pool.as_str(), self.dataset.as_str(), false)
    }

    /// The names of the snapshots to destroy, by the reply to the listing.
    pub fn expired(&self, reply: &Reply) -> (out: Result<Vec<String>, ErrorCode>)
        ensures
            seen_texts(out) == self@.condemned(reply@),
    {
        match list_snapshots_reply(reply, &self.server, self.dataset.as_str()) {
            Ok(names) => Ok(
                expired_snapshots(
                    &names,
                    self.server.pool.as_str(),
                    self.dataset.as_str(),
                    self.cutoff.as_str(),
                ),
            ),
            Err(e) => Err(e),
        }
    }
}

/// The cutoff of the dataset of index `i`, where `cutoffs` holds one for it.
pub open spec fn cutoff_at(cutoffs: Seq<Option<Seq<char>>>, i: int) -> Option<Seq<char>> {
    if 0 <= i < cutoffs.len() {
        cutoffs[i]
    } else {
        None
    }
}

/// The sweeps of the first `count` datasets of the configuration, in order:
/// for each dataset that has a cutoff, one sweep on every server.
pub open spec fn sweeps(config: ConfigView, cutoffs: Seq<Option<Seq<char>>>, count: nat) -> Seq<
    SweepView,
>
    decreases count,
{
    if count == 0 {
        Seq::empty()
    } else {
        let before = sweeps(config, cutoffs, (count - 1) as nat);
        match cutoff_at(cutoffs, count - 1) {
            Some(cutoff) => before + config.servers.map_values(
                |server: ServerView|
                    SweepView { server, dataset: config.datasets[count - 1].name, cutoff },
            ),
            None => before,
        }
    }
}

/// The views of a list of sweeps.
pub open spec fn sweep_views(list: Seq<Sweep>) -> Seq<SweepView> {
    list.map_values(|s: Sweep| s@)
}

/// The views of a list of cutoffs.
pub open spec fn cutoff_views(list: Seq<Option<String>>) -> Seq<Option<Seq<char>>> {
    list.map_values(|c: Option<String>| maybe_text(c))
}

/// The sweeps of retention, given for each dataset its cutoff, if it has
/// one: for each dataset that has, one sweep on every server, the datasets
/// and the servers in the order of the configuration.
pub fn clean_at(config: &Config, cutoffs: &Vec<Option<String>>) -> (out: Vec<Sweep>)
    ensures
        sweep_views(out@) == sweeps(config@, cutoff_views(cutoffs@), config@.datasets.len()),
{
    let mut out: Vec<Sweep> = Vec::new();
    let mut i: usize = 0;
    while i < config.datasets.len()
        invariant
            i <= config.datasets.len(),
            sweep_views(out@) == sweeps(config@, cutoff_views(cutoffs@), i as nat),
        decreases config.datasets.len() - i,
    {
        if i < cutoffs.len() {
            match &cutoffs[i] {
                Some(cutoff) => {
                    let ghost before = sweep_views(out@);
                    let ghost added = config@.servers.map_values(
                        |server: ServerView|
                            SweepView {
                                server,
                                dataset: config@.datasets[i as int].name,
                                cutoff: cutoff@,
                            },
                    );
                    let mut j: usize = 0;
                    while j < config.servers.len()
                        invariant
                            j <= config.servers.len(),
                            i < config.datasets.len(),
                            added == config@.servers.map_values(
                                |server: ServerView|
                                    SweepView {
                                        server,
                                        dataset: config@.datasets[i as int].name,
                                        cutoff: cutoff@,
                                    },
                            ),
                            sweep_views(out@) == before + added.take(j as int),
                        decreases config.servers.len() - j,
                    {
                        let ghost so_far = sweep_views(out@);
                        let sweep = Sweep {
                            server: config.servers[j].clone(),
                            dataset: config.datasets[i].name.clone(),
                            cutoff: cutoff.clone(),
                        };
                        out.push(sweep);
                        assert(sweep_views(out@) == so_far.push(sweep@));
                        assert(added.take(j + 1) == added.take(j as int).push(added[j as int]));
                        j += 1;
                    }
                    assert(added.take(j as int) == added);
                },
                None => {},
            }
        }
        i += 1;
    }
    out
}

/// The sweeps of retention. The cutoff of each dataset is the stamp of the
/// local time now, less the dataset's lifetime; a dataset whose lifetime is
/// no lifetime has none and is left out. Whatever the clock gives, the
/// sweeps are those that `sweeps` defines for these cutoffs.
pub fn clean(config: &Config) -> (out: Vec<Sweep>)
    ensures
        exists|cutoffs: Seq<Option<Seq<char>>>|
            {
                &&& cutoffs.len() == config@.datasets.len()
                &&& forall|i: int|
                    0 <= i < cutoffs.len() && lifetime_days(
                        config@.datasets[i].snapshot_lifetime,
                    ) is None ==> (#[trigger] cutoffs[i]) is None
                &&& sweep_views(out@) == sweeps(config@, cutoffs, config@.datasets.len())
            },
{
    let mut cutoffs: Vec<Option<String>> = Vec::new();
    let mut i: usize = 0;
    while i < config.datasets.len()
        invariant
            i <= config.datasets.len(),
            cutoffs.len() == i,
            forall|k: int|
                0 <= k < i && lifetime_days(config@.datasets[k].snapshot_lifetime) is None ==> (
                #[trigger] cutoffs@[k]) is None,
        decreases config.datasets.len() - i,
    {
        cutoffs.push(retention_cutoff(config.datasets[i].snapshot_lifetime.as_str()));
        i += 1;
    }
    let out = clean_at(config, &cutoffs);
    assert(cutoff_views(cutoffs@).len() == config@.datasets.len());
    assert forall|k: int|
        0 <= k < cutoffs.len() && lifetime_days(
            config@.datasets[k].snapshot_lifetime,
        ) is None implies (#[trigger] cutoff_views(cutoffs@)[k]) is None by {
        assert(cutoffs@[k] is None);
    }
    out
}

} // verus!
