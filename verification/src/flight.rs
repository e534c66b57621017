//! The transfers in flight, taken together.
//!
//! Requests to replicate and the turns of the transfers that they started
//! come in any order. This module states what holds of the registry and of
//! the transfers whatever the order is: every transfer that has not ended
//! has its entry in the registry, and no two of them take one dataset to one
//! replica.

use crate::config::ConfigView;
use crate::registry::{orderly, routes_of};
use crate::replicator::{
    lemma_turn_keeps_registry, lemma_without, without, EventView, StageView,
};
use crate::sync::{
    entries_of, lemma_no_two_transfers, schedule_each, scheduled, TransferView,
};
use crate::sync_state::SyncStateView;
use crate::text::{holds, lemma_holds, lemma_position, position};
use vstd::prelude::*;

verus! {

/// A transfer that was started, and the stage at which it stands.
pub struct Flight {
    pub transfer: TransferView,
    pub stage: StageView,
}

impl Flight {
    /// Whether the transfer has not ended.
    pub open spec fn live(self) -> bool {
        self.stage !is Finished
    }

    /// The dataset of the transfer and the replica to which it goes.
    pub open spec fn route(self) -> (Seq<char>, Seq<char>) {
        (self.transfer.dataset, self.transfer.dst.name)
    }
}

/// The registry and every transfer that was started.
pub struct Traffic {
    pub entries: Seq<SyncStateView>,
    pub flights: Seq<Flight>,
}

/// What happens to the traffic: a request to replicate datasets is
/// scheduled, or a transfer takes a turn.
pub enum Move {
    /// The datasets `datasets` of the configuration `config` are to be replicated.
    Schedule { config: ConfigView, datasets: Seq<Seq<char>> },
    /// The transfer of index `flight` is told of `event`; `stamp` is what
    /// the clock gives then.
    Turn { flight: int, event: EventView, stamp: Option<Seq<char>> },
}

impl Traffic {
    /// No traffic: an empty registry and no transfer.
    pub open spec fn none() -> Traffic {
        Traffic { entries: Seq::empty(), flights: Seq::empty() }
    }

    /// The traffic after `step`. A request that is refused and a turn of a
    /// transfer that does not exist change nothing.
    pub open spec fn after(self, step: Move) -> Traffic {
        match step {
            Move::Schedule { config, datasets } => match scheduled(config, self.entries, datasets) {
                Ok((entries, started)) => Traffic {
                    entries,
                    flights: self.flights + started.map_values(
                        |t: TransferView| Flight { transfer: t, stage: t.begun(entries).stage },
                    ),
                },
                Err(_) => self,
            },
            Move::Turn { flight, event, stamp } => if 0 <= flight < self.flights.len() {
                let transfer = self.flights[flight].transfer;
                let stage = self.flights[flight].stage;
                let turn = transfer.advanced(stage, event, stamp, self.entries);
                Traffic {
                    entries: turn.entries,
                    flights: self.flights.update(flight, Flight { transfer, stage: turn.stage }),
                }
            } else {
                self
            },
        }
    }

    /// The traffic after `steps`, in order, from no traffic.
    pub open spec fn run(steps: Seq<Move>) -> Traffic
        decreases steps.len(),
    {
        if steps.len() == 0 {
            Traffic::none()
        } else {
            Traffic::run(steps.drop_last()).after(steps.last())
        }
    }

    /// The registry is orderly, every transfer that has not ended has its
    /// entry, and no two such transfers take one dataset to one replica.
    pub open spec fn sound(self) -> bool {
        &&& orderly(self.entries)
        &&& forall|i: int|
            0 <= i < self.flights.len() && (#[trigger] self.flights[i]).live() ==> holds(
                routes_of(self.entries),
                self.flights[i].route(),
            )
        &&& forall|i: int, j: int|
            0 <= i < j < self.flights.len() && (#[trigger] self.flights[i]).live() && (
            #[trigger] self.flights[j]).live() ==> self.flights[i].route()
                != self.flights[j].route()
    }
}

/// Entries that hold a route still hold it when entries are appended.
proof fn lemma_held_after_append(
    entries: Seq<SyncStateView>,
    more: Seq<SyncStateView>,
    route: (Seq<char>, Seq<char>),
)
    requires
        holds(routes_of(entries), route),
    ensures
        holds(routes_of(entries + more), route),
{
    lemma_holds(routes_of(entries), route);
    lemma_holds(routes_of(entries + more), route);
    let at = choose|j: int| 0 <= j < routes_of(entries).len() && routes_of(entries)[j] == route;
    assert(routes_of(entries + more)[at] == route);
}

/// Entries that hold a route still hold it when the entry of another route leaves.
proof fn lemma_held_after_leave(
    entries: Seq<SyncStateView>,
    route: (Seq<char>, Seq<char>),
    gone: (Seq<char>, Seq<char>),
)
    requires
        holds(routes_of(entries), route),
        route != gone,
    ensures
        holds(routes_of(without(entries, gone.0, gone.1)), route),
{
    let routes = routes_of(entries);
    if holds(routes, gone) {
        let at = position(routes, gone) as int;
        let kept = position(routes, route) as int;
        lemma_position(routes, gone);
        lemma_position(routes, route);
        let rest = entries.remove(at);
        let moved = if kept < at {
            kept
        } else {
            kept - 1
        };
        assert(routes_of(rest)[moved] == route);
        lemma_holds(routes_of(rest), route);
    }
}

/// Sound traffic stays sound with every step.
pub proof fn lemma_step_keeps_traffic_sound(traffic: Traffic, step: Move)
    requires
        traffic.sound(),
    ensures
        traffic.after(step).sound(),
{
    let next = traffic.after(step);
    match step {
        Move::Schedule { config, datasets } => {
            match scheduled(config, traffic.entries, datasets) {
                Ok((entries, started)) => {
                    lemma_no_two_transfers(config, traffic.entries, datasets);
                    assert((entries, started) == schedule_each(config, traffic.entries, datasets));
                    let old = traffic.flights.len() as int;
                    assert forall|i: int|
                        0 <= i < next.flights.len() && (
                        #[trigger] next.flights[i]).live() implies holds(
                        routes_of(next.entries),
                        next.flights[i].route(),
                    ) by {
                        if i < old {
                            assert(next.flights[i] == traffic.flights[i]);
                            lemma_held_after_append(
                                traffic.entries,
                                entries_of(started),
                                traffic.flights[i].route(),
                            );
                        } else {
                            let k = i - old;
                            lemma_holds(routes_of(next.entries), next.flights[i].route());
                            assert(routes_of(next.entries)[traffic.entries.len() + k]
                                == next.flights[i].route());
                        }
                    }
                    assert forall|i: int, j: int|
                        0 <= i < j < next.flights.len() && (#[trigger] next.flights[i]).live() && (
                        #[trigger] next.flights[j]).live() implies next.flights[i].route()
                        != next.flights[j].route() by {
                        if j < old {
                            assert(next.flights[i] == traffic.flights[i]);
                            assert(next.flights[j] == traffic.flights[j]);
                        } else if i < old {
                            assert(next.flights[i] == traffic.flights[i]);
                            assert(holds(routes_of(traffic.entries), traffic.flights[i].route()));
                            assert(!holds(
                                routes_of(traffic.entries),
                                (started[j - old].dataset, started[j - old].dst.name),
                            ));
                        } else {
                            assert(next.flights[i].route() == (
                                started[i - old].dataset,
                                started[i - old].dst.name,
                            ));
                            assert(next.flights[j].route() == (
                                started[j - old].dataset,
                                started[j - old].dst.name,
                            ));
                        }
                    }
                },
                Err(_) => {},
            }
        },
        Move::Turn { flight, event, stamp } => {
            if 0 <= flight < traffic.flights.len() {
                let moving = traffic.flights[flight];
                let turn = moving.transfer.advanced(moving.stage, event, stamp, traffic.entries);
                if moving.live() {
                    lemma_turn_keeps_registry(
                        moving.transfer,
                        moving.stage,
                        event,
                        stamp,
                        traffic.entries,
                    );
                    lemma_without(
                        traffic.entries,
                        moving.transfer.dataset,
                        moving.transfer.dst.name,
                    );
                }
                assert forall|i: int|
                    0 <= i < next.flights.len() && (
                    #[trigger] next.flights[i]).live() implies holds(
                    routes_of(next.entries),
                    next.flights[i].route(),
                ) by {
                    if i != flight {
                        assert(next.flights[i] == traffic.flights[i]);
                        if moving.live() && turn.stage is Finished {
                            if i < flight {
                                assert(traffic.flights[i].route()
                                    != traffic.flights[flight].route());
                            } else {
                                assert(traffic.flights[flight].route()
                                    != traffic.flights[i].route());
                            }
                            lemma_held_after_leave(
                                traffic.entries,
                                traffic.flights[i].route(),
                                moving.route(),
                            );
                        }
                    }
                }
                assert forall|i: int, j: int|
                    0 <= i < j < next.flights.len() && (#[trigger] next.flights[i]).live() && (
                    #[trigger] next.flights[j]).live() implies next.flights[i].route()
                    != next.flights[j].route() by {
                    assert(next.flights[i].route() == traffic.flights[i].route());
                    assert(next.flights[j].route() == traffic.flights[j].route());
                    assert(traffic.flights[i].live());
                    assert(traffic.flights[j].live());
                }
            }
        },
    }
}

/// No two transfers in flight take one dataset to one replica. Whatever
/// requests are scheduled and whatever turns the transfers take, in whatever
/// order, the traffic is sound.
pub proof fn lemma_traffic_is_sound(steps: Seq<Move>)
    ensures
        Traffic::run(steps).sound(),
    decreases steps.len(),
{
    if steps.len() > 0 {
        lemma_traffic_is_sound(steps.drop_last());
        lemma_step_keeps_traffic_sound(Traffic::run(steps.drop_last()), steps.last());
    }
}

} // verus!
