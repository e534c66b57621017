use brig::api::SwitchRequest;
use brig::config::{Config, Dataset, Server};
use brig::error::ErrorCode;
use brig::remote::{Invocation, Reply};
use brig::switch::{switch, Switch, SwitchEvent, SwitchStage, SwitchStep};

fn server(name: &str) -> Server {
    Server {
        name: name.to_string(),
        user: "root".to_string(),
        address: format!("{}.example", name),
        pool: format!("pool{}", name),
    }
}

fn dataset(name: &str, owner: &str) -> Dataset {
    Dataset {
        name: name.to_string(),
        owner: "ops".to_string(),
        server: owner.to_string(),
        snapshot_lifetime: "7d".to_string(),
    }
}

fn fleet() -> Config {
    Config {
        servers: vec![server("A"), server("B")],
        datasets: vec![dataset("x", "A"), dataset("y", "B")],
    }
}

fn request(dataset: &str, new_server: &str) -> SwitchRequest {
    SwitchRequest { dataset: dataset.to_string(), new_server: new_server.to_string() }
}

fn change() -> Switch {
    switch(&request("x", "B"), "./config.json", &fleet()).unwrap()
}

fn zfs(args: &[&str]) -> Invocation {
    Invocation { program: "zfs".to_string(), args: args.iter().map(|a| a.to_string()).collect() }
}

fn sudo(args: &[&str]) -> Invocation {
    Invocation { program: "sudo".to_string(), args: args.iter().map(|a| a.to_string()).collect() }
}

fn output(stdout: &str) -> SwitchEvent {
    SwitchEvent::Replied {
        reply: Reply::Output { stdout: stdout.as_bytes().to_vec(), stderr: Vec::new() },
    }
}

fn exited(success: bool) -> SwitchEvent {
    SwitchEvent::Replied { reply: Reply::Exited { success } }
}

fn finished(error: ErrorCode) -> (SwitchStage, SwitchStep) {
    (
        SwitchStage::Finished { error: Some(error.clone()) },
        SwitchStep::Finish { error: Some(error) },
    )
}

fn not_synced() -> (SwitchStage, SwitchStep) {
    finished(ErrorCode::DatasetNotSynced { dataset: "x".to_string() })
}

#[test]
fn request_is_resolved_against_the_configuration() {
    assert_eq!(
        switch(&request("x", "B"), "./config.json", &fleet()),
        Ok(Switch {
            dataset: "x".to_string(),
            owner: server("A"),
            target: server("B"),
            fleet: vec![server("A"), server("B")],
            config_path: "./config.json".to_string(),
        })
    );
}

#[test]
fn request_for_what_the_configuration_lacks_is_refused() {
    assert_eq!(
        switch(&request("z", "B"), "p", &fleet()),
        Err(ErrorCode::DatasetNotFoundInConfig { dataset: "z".to_string() })
    );
    assert_eq!(
        switch(&request("z", "nowhere"), "p", &fleet()),
        Err(ErrorCode::DatasetNotFoundInConfig { dataset: "z".to_string() })
    );
    assert_eq!(
        switch(&request("x", "C"), "p", &fleet()),
        Err(ErrorCode::ServerNotFoundFromRequest { server_name: "C".to_string() })
    );
    let orphaned = Config { servers: vec![server("B")], datasets: vec![dataset("x", "A")] };
    assert_eq!(
        switch(&request("x", "B"), "p", &orphaned),
        Err(ErrorCode::ServerNotFoundFromDataset {
            dataset: "x".to_string(),
            server_name: "A".to_string()
        })
    );
    assert_eq!(
        switch(&request("x", "C"), "p", &orphaned),
        Err(ErrorCode::ServerNotFoundFromDataset {
            dataset: "x".to_string(),
            server_name: "A".to_string()
        })
    );
}

#[test]
fn switch_begins_by_listing_the_first_server() {
    assert_eq!(
        change().begin(),
        (
            SwitchStage::Listing { index: 0, found: vec![] },
            SwitchStep::Collect {
                server: server("A"),
                command: zfs(&["list", "-t", "snapshot", "-o", "name", "-S", "creation", "poolA/x"]),
            }
        )
    );
}

#[test]
fn switch_is_accepted_where_the_fleet_agrees_and_the_owner_is_clean() {
    let change = change();
    let mut config = fleet();

    let (stage, _) = change.begin();
    let (stage, step) = change.advance(
        stage,
        output("NAME\npoolA/x@brig-20240105000000\npoolA/x@brig-20240101000000\n"),
        &mut config,
    );
    assert_eq!(
        stage,
        SwitchStage::Listing { index: 1, found: vec!["poolA/x@brig-20240105000000".to_string()] }
    );
    assert_eq!(
        step,
        SwitchStep::Collect {
            server: server("B"),
            command: zfs(&["list", "-t", "snapshot", "-o", "name", "-S", "creation", "poolB/x"]),
        }
    );

    let (stage, step) =
        change.advance(stage, output("NAME\npoolB/x@brig-20240105000000\n"), &mut config);
    assert_eq!(stage, SwitchStage::Diffing { against: "poolA/x@brig-20240105000000".to_string() });
    assert_eq!(
        step,
        SwitchStep::Collect {
            server: server("A"),
            command: zfs(&["diff", "poolA/x@brig-20240105000000"]),
        }
    );

    let (stage, step) = change.advance(stage, output(""), &mut config);
    assert_eq!(stage, SwitchStage::Freezing);
    assert_eq!(
        step,
        SwitchStep::Run {
            server: server("A"),
            command: sudo(&["zfs", "set", "readonly=on", "poolA/x"]),
        }
    );

    let (stage, step) = change.advance(stage, exited(true), &mut config);
    assert_eq!(stage, SwitchStage::Thawing);
    assert_eq!(
        step,
        SwitchStep::Run {
            server: server("B"),
            command: sudo(&["zfs", "set", "readonly=off", "poolB/x"]),
        }
    );
    assert_eq!(config, fleet());

    let (stage, step) = change.advance(stage, exited(true), &mut config);
    assert_eq!(stage, SwitchStage::Saving);
    assert_eq!(step, SwitchStep::Save { path: "./config.json".to_string() });
    assert_eq!(
        config,
        Config {
            servers: vec![server("A"), server("B")],
            datasets: vec![dataset("x", "B"), dataset("y", "B")],
        }
    );

    let (stage, step) = change.advance(stage, SwitchEvent::Saved, &mut config);
    assert_eq!(stage, SwitchStage::Finished { error: None });
    assert_eq!(step, SwitchStep::Finish { error: None });
    assert_eq!(config.datasets[0].server, "B");

    let (stage, step) = change.advance(stage, SwitchEvent::Saved, &mut config);
    assert_eq!(stage, SwitchStage::Finished { error: None });
    assert_eq!(step, SwitchStep::Finish { error: None });
    assert_eq!(config.datasets[0].server, "B");
}

#[test]
fn switch_is_refused_where_the_latest_tags_differ() {
    let change = change();
    let mut config = fleet();
    let (stage, _) = change.begin();
    let (stage, _) =
        change.advance(stage, output("NAME\npoolA/x@brig-20240105000000\n"), &mut config);
    let turn = change.advance(stage, output("NAME\npoolB/x@brig-20240101000000\n"), &mut config);
    assert_eq!(turn, not_synced());
    assert_eq!(config, fleet());
}

#[test]
fn switch_is_refused_where_a_server_has_no_snapshot() {
    let change = change();
    let mut config = fleet();
    let (stage, _) = change.begin();
    assert_eq!(change.advance(stage, output("NAME\n"), &mut config), not_synced());
    let (stage, _) = change.begin();
    let (stage, _) = change.advance(stage, output("NAME\npoolA/x@brig-1\n"), &mut config);
    assert_eq!(change.advance(stage, output(""), &mut config), not_synced());
    assert_eq!(config, fleet());
}

#[test]
fn switch_is_refused_where_the_owner_has_changes() {
    let change = change();
    let mut config = fleet();
    let turn = change.advance(
        SwitchStage::Diffing { against: "poolA/x@brig-1".to_string() },
        output("M\t/poolA/x/file\n"),
        &mut config,
    );
    assert_eq!(turn, not_synced());
    assert_eq!(config, fleet());
}

#[test]
fn switch_compares_tags_across_pools() {
    let change = Switch {
        dataset: "x".to_string(),
        owner: server("B"),
        target: server("A"),
        fleet: vec![server("A"), server("B")],
        config_path: "p".to_string(),
    };
    let mut config = fleet();
    let (stage, _) = change.begin();
    let (stage, _) = change.advance(stage, output("NAME\nrenamed/deep/x@brig-7\n"), &mut config);
    let (stage, step) = change.advance(stage, output("NAME\npoolB/x@brig-7\n"), &mut config);
    assert_eq!(stage, SwitchStage::Diffing { against: "poolB/x@brig-7".to_string() });
    assert_eq!(
        step,
        SwitchStep::Collect { server: server("B"), command: zfs(&["diff", "poolB/x@brig-7"]) }
    );
}

#[test]
fn switch_fails_with_the_error_of_the_step() {
    let change = change();
    let mut config = fleet();
    let session_a =
        ErrorCode::SshSessionFail { user: "root".to_string(), ip: "A.example".to_string() };
    let session_b =
        ErrorCode::SshSessionFail { user: "root".to_string(), ip: "B.example".to_string() };
    let unreachable = || SwitchEvent::Replied { reply: Reply::Unreachable };
    let failed = || SwitchEvent::Replied { reply: Reply::Failed };

    let (stage, _) = change.begin();
    assert_eq!(change.advance(stage, unreachable(), &mut config), finished(session_a.clone()));
    let (stage, _) = change.begin();
    assert_eq!(
        change.advance(stage, failed(), &mut config),
        finished(ErrorCode::ZfsCommandError {
            msg: "unable to list snapshots for poolA/x".to_string()
        })
    );
    assert_eq!(
        change.advance(
            SwitchStage::Listing { index: 1, found: vec!["poolA/x@brig-1".to_string()] },
            unreachable(),
            &mut config
        ),
        finished(session_b.clone())
    );
    assert_eq!(
        change.advance(
            SwitchStage::Diffing { against: "poolA/x@brig-1".to_string() },
            failed(),
            &mut config
        ),
        finished(ErrorCode::ZfsCommandError {
            msg: "failed to diff against poolA/x@brig-1".to_string()
        })
    );
    assert_eq!(
        change.advance(SwitchStage::Freezing, exited(false), &mut config),
        finished(ErrorCode::ReadOnlyFail { user: "root".to_string(), ip: "A.example".to_string() })
    );
    assert_eq!(
        change.advance(SwitchStage::Freezing, unreachable(), &mut config),
        finished(session_a)
    );
    assert_eq!(
        change.advance(SwitchStage::Thawing, failed(), &mut config),
        finished(ErrorCode::ReadOnlyFail { user: "root".to_string(), ip: "B.example".to_string() })
    );
    assert_eq!(
        change.advance(SwitchStage::Thawing, unreachable(), &mut config),
        finished(session_b)
    );
    assert_eq!(config, fleet());
}

#[test]
fn switch_reports_a_configuration_that_was_not_saved() {
    let change = change();
    let mut config = fleet();
    assert_eq!(
        change.advance(SwitchStage::Saving, SwitchEvent::NotSerialized, &mut config),
        finished(ErrorCode::ConfigIsInvalidJson)
    );
    assert_eq!(
        change.advance(SwitchStage::Saving, SwitchEvent::NotWritten, &mut config),
        finished(ErrorCode::ErrorWritingConfigFile { path: "./config.json".to_string() })
    );
    assert_eq!(
        change.advance(SwitchStage::Saving, exited(true), &mut config),
        finished(ErrorCode::ErrorWritingConfigFile { path: "./config.json".to_string() })
    );
}

#[test]
fn switch_does_not_commit_to_a_configuration_that_lost_the_dataset() {
    let change = change();
    let mut config = Config { servers: vec![server("A"), server("B")], datasets: vec![] };
    assert_eq!(
        change.advance(SwitchStage::Thawing, exited(true), &mut config),
        finished(ErrorCode::DatasetNotFoundInConfig { dataset: "x".to_string() })
    );
    let mut config = Config { servers: vec![server("A")], datasets: vec![dataset("x", "A")] };
    let before = config.clone();
    assert_eq!(
        change.advance(SwitchStage::Thawing, exited(true), &mut config),
        finished(ErrorCode::ServerNotFoundFromRequest { server_name: "B".to_string() })
    );
    assert_eq!(config, before);
}

#[test]
fn switch_of_a_fleet_without_servers_is_not_synced() {
    let change = Switch {
        dataset: "x".to_string(),
        owner: server("A"),
        target: server("B"),
        fleet: vec![],
        config_path: "p".to_string(),
    };
    assert_eq!(change.begin(), not_synced());
    let mut config = fleet();
    assert_eq!(
        change.advance(SwitchStage::Listing { index: 0, found: vec![] }, output("x"), &mut config),
        not_synced()
    );
}

#[test]
fn switch_needs_the_owner_among_the_servers_listed() {
    let change = Switch {
        dataset: "x".to_string(),
        owner: server("A"),
        target: server("B"),
        fleet: vec![server("B")],
        config_path: "p".to_string(),
    };
    let mut config = fleet();
    let (stage, _) = change.begin();
    assert_eq!(
        change.advance(stage, output("NAME\npoolB/x@brig-1\n"), &mut config),
        finished(ErrorCode::ServerNotFoundFromDataset {
            dataset: "x".to_string(),
            server_name: "A".to_string()
        })
    );
}
