use brig::api::SyncRequest;
use brig::config::{Config, Dataset, Server};
use brig::error::ErrorCode;
use brig::registry::ProgressRegistry;
use brig::sync::{check_dataset, sync, sync_all, Transfer};
use brig::sync_state::SyncState;

fn server(name: &str) -> Server {
    Server {
        name: name.to_string(),
        user: "root".to_string(),
        address: format!("{}.example", name),
        pool: format!("pool{}", name),
    }
}

fn dataset(name: &str, owner: &str) -> Dataset {
    Dataset {
        name: name.to_string(),
        owner: "ops".to_string(),
        server: owner.to_string(),
        snapshot_lifetime: "7d".to_string(),
    }
}

fn transfer(dataset: &str, src: &str, dst: &str) -> Transfer {
    Transfer { src: server(src), dst: server(dst), dataset: dataset.to_string() }
}

fn request(names: &[&str]) -> SyncRequest {
    SyncRequest { datasets: names.iter().map(|n| n.to_string()).collect() }
}

fn fleet() -> Config {
    Config {
        servers: vec![server("A"), server("B"), server("C")],
        datasets: vec![dataset("x", "A"), dataset("y", "B")],
    }
}

#[test]
fn every_dataset_goes_from_its_owner_to_every_other_server() {
    let mut registry = ProgressRegistry::new();
    let started = sync_all(&fleet(), &mut registry).unwrap();
    assert_eq!(
        started,
        vec![
            transfer("x", "A", "B"),
            transfer("x", "A", "C"),
            transfer("y", "B", "A"),
            transfer("y", "B", "C"),
        ]
    );
    assert_eq!(
        registry.snapshot(),
        vec![
            SyncState::new("x", "A", "B"),
            SyncState::new("x", "A", "C"),
            SyncState::new("y", "B", "A"),
            SyncState::new("y", "B", "C"),
        ]
    );
}

#[test]
fn named_datasets_are_scheduled_in_the_order_of_the_request() {
    let mut registry = ProgressRegistry::new();
    let started = sync(&request(&["y", "x"]), &fleet(), &mut registry).unwrap();
    assert_eq!(
        started,
        vec![
            transfer("y", "B", "A"),
            transfer("y", "B", "C"),
            transfer("x", "A", "B"),
            transfer("x", "A", "C"),
        ]
    );
    let mut registry = ProgressRegistry::new();
    let started = sync(&request(&["y"]), &fleet(), &mut registry).unwrap();
    assert_eq!(started, vec![transfer("y", "B", "A"), transfer("y", "B", "C")]);
    assert_eq!(registry.len(), 2);
}

#[test]
fn empty_request_schedules_nothing() {
    let mut registry = ProgressRegistry::new();
    assert_eq!(sync(&request(&[]), &fleet(), &mut registry), Ok(vec![]));
    assert!(registry.is_empty());
}

#[test]
fn no_op_sync_schedules_the_one_replica() {
    let config = Config {
        servers: vec![server("A"), server("B")],
        datasets: vec![dataset("x", "A")],
    };
    let mut registry = ProgressRegistry::new();
    assert_eq!(sync_all(&config, &mut registry), Ok(vec![transfer("x", "A", "B")]));
    assert_eq!(
        registry.snapshot(),
        vec![SyncState {
            dataset: "x".to_string(),
            src: "A".to_string(),
            dst: "B".to_string(),
            total_bytes: 0,
            sent_bytes: 0,
        }]
    );
}

#[test]
fn duplicate_sync_is_rejected_and_the_entry_reported() {
    let config = Config {
        servers: vec![server("A"), server("B")],
        datasets: vec![dataset("x", "A"), dataset("y", "A")],
    };
    let mut registry = ProgressRegistry::new();
    registry.insert(SyncState::new("x", "A", "B"));
    registry.set_total("x", "B", 4096);
    registry.add_sent("x", "B", 100);
    let started = sync_all(&config, &mut registry).unwrap();
    assert_eq!(started, vec![transfer("y", "A", "B")]);
    let entries = registry.snapshot();
    assert_eq!(entries.len(), 2);
    assert_eq!(
        entries[0],
        SyncState {
            dataset: "x".to_string(),
            src: "A".to_string(),
            dst: "B".to_string(),
            total_bytes: 4096,
            sent_bytes: 100,
        }
    );
    assert_eq!(entries[1], SyncState::new("y", "A", "B"));
}

#[test]
fn second_sync_in_a_row_starts_nothing() {
    let mut registry = ProgressRegistry::new();
    let first = sync_all(&fleet(), &mut registry).unwrap();
    assert_eq!(first.len(), 4);
    let second = sync_all(&fleet(), &mut registry).unwrap();
    assert_eq!(second, vec![]);
    assert_eq!(registry.len(), 4);
}

#[test]
fn dataset_named_twice_is_scheduled_once() {
    let mut registry = ProgressRegistry::new();
    let started = sync(&request(&["x", "x"]), &fleet(), &mut registry).unwrap();
    assert_eq!(started, vec![transfer("x", "A", "B"), transfer("x", "A", "C")]);
    assert_eq!(registry.len(), 2);
}

#[test]
fn dataset_in_flight_to_one_replica_is_passed_over_whole() {
    let mut registry = ProgressRegistry::new();
    registry.insert(SyncState::new("x", "A", "C"));
    let started = sync(&request(&["x"]), &fleet(), &mut registry).unwrap();
    assert_eq!(started, vec![]);
    assert_eq!(registry.snapshot(), vec![SyncState::new("x", "A", "C")]);
}

#[test]
fn no_two_transfers_share_dataset_and_replica() {
    let config = Config {
        servers: vec![server("A"), server("B"), server("B"), server("C")],
        datasets: vec![dataset("x", "A")],
    };
    let mut registry = ProgressRegistry::new();
    let started = sync_all(&config, &mut registry).unwrap();
    assert_eq!(started, vec![transfer("x", "A", "B"), transfer("x", "A", "C")]);
    let entries = registry.snapshot();
    for i in 0..entries.len() {
        for j in 0..i {
            assert!(entries[i].dataset != entries[j].dataset || entries[i].dst != entries[j].dst);
        }
    }
}

#[test]
fn unknown_dataset_is_refused_and_nothing_scheduled() {
    let mut registry = ProgressRegistry::new();
    assert_eq!(
        sync(&request(&["x", "z", "y"]), &fleet(), &mut registry),
        Err(ErrorCode::DatasetNotFoundInConfig { dataset: "z".to_string() })
    );
    assert!(registry.is_empty());
}

#[test]
fn dataset_of_an_unknown_owner_is_refused() {
    let config = Config {
        servers: vec![server("A"), server("B")],
        datasets: vec![dataset("x", "A"), dataset("y", "nowhere")],
    };
    let mut registry = ProgressRegistry::new();
    let refused = ErrorCode::ServerNotFoundFromDataset {
        dataset: "y".to_string(),
        server_name: "nowhere".to_string(),
    };
    assert_eq!(sync_all(&config, &mut registry), Err(refused.clone()));
    assert!(registry.is_empty());
    assert_eq!(check_dataset(&config, "y"), Some(refused));
    assert_eq!(check_dataset(&config, "x"), None);
    assert_eq!(
        check_dataset(&config, "z"),
        Some(ErrorCode::DatasetNotFoundInConfig { dataset: "z".to_string() })
    );
}

#[test]
fn fleet_of_one_server_has_nothing_to_replicate() {
    let config = Config { servers: vec![server("A")], datasets: vec![dataset("x", "A")] };
    let mut registry = ProgressRegistry::new();
    assert_eq!(sync_all(&config, &mut registry), Ok(vec![]));
    assert!(registry.is_empty());
}
