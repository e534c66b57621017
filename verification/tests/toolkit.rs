use brig::api::{Dataset, Datasets};
use brig::config::Server;
use brig::error::ErrorCode;
use brig::remote::{Invocation, Reply};
use brig::toolkit::{
    create_snapshot_command, create_snapshot_reply, destroy_command, destroy_reply, diff_command,
    diff_reply, estimate_send_size_command, estimate_send_size_reply, get_latest_snapshot_reply,
    inventory_command, inventory_reply, list_snapshots_command, list_snapshots_reply,
    listing_rows, parse_inventory, parse_send_size, qualified_name, receive_command,
    send_command, session_error, set_readonly_command, set_readonly_reply, snapshot_name,
    spawn_reply,
};

fn server() -> Server {
    Server {
        name: "A".to_string(),
        user: "root".to_string(),
        address: "10.0.0.1".to_string(),
        pool: "tank".to_string(),
    }
}

fn output(stdout: &str, stderr: &str) -> Reply {
    Reply::Output { stdout: stdout.as_bytes().to_vec(), stderr: stderr.as_bytes().to_vec() }
}

fn zfs(args: &[&str]) -> Invocation {
    Invocation { program: "zfs".to_string(), args: args.iter().map(|a| a.to_string()).collect() }
}

fn command_error(msg: &str) -> ErrorCode {
    ErrorCode::ZfsCommandError { msg: msg.to_string() }
}

#[test]
fn session_is_opened_to_user_at_address() {
    assert_eq!(server().destination(), "root@10.0.0.1");
    assert_eq!(
        session_error(&server()),
        ErrorCode::SshSessionFail { user: "root".to_string(), ip: "10.0.0.1".to_string() }
    );
}

#[test]
fn dataset_is_qualified_by_the_pool() {
    assert_eq!(qualified_name("tank", "x"), "tank/x");
    assert_eq!(snapshot_name("tank", "x", "20240101000000"), "tank/x@brig-20240101000000");
}

#[test]
fn listing_command_sorts_by_creation() {
    assert_eq!(
        list_snapshots_command("tank", "x", true),
        zfs(&["list", "-t", "snapshot", "-o", "name", "-S", "creation", "tank/x"])
    );
    assert_eq!(
        list_snapshots_command("tank", "x", false),
        zfs(&["list", "-t", "snapshot", "-o", "name", "-s", "creation", "tank/x"])
    );
}

#[test]
fn other_commands_are_as_the_filesystem_wants_them() {
    assert_eq!(create_snapshot_command("tank/x@brig-1"), zfs(&["snapshot", "tank/x@brig-1"]));
    assert_eq!(
        estimate_send_size_command("tank/x@a", "tank/x@b"),
        zfs(&["send", "-n", "-P", "-i", "tank/x@a", "tank/x@b"])
    );
    assert_eq!(send_command("tank/x@a", "tank/x@b"), zfs(&["send", "-i", "tank/x@a", "tank/x@b"]));
    assert_eq!(receive_command("pool", "x"), zfs(&["recv", "-F", "pool/x"]));
    assert_eq!(diff_command("tank/x@a"), zfs(&["diff", "tank/x@a"]));
    assert_eq!(destroy_command("tank/x@a"), zfs(&["destroy", "tank/x@a"]));
    assert_eq!(inventory_command(), zfs(&["list", "-t", "snapshot", "-o", "name"]));
}

#[test]
fn readonly_is_set_as_a_privileged_user() {
    let on = set_readonly_command(&server(), "x", true);
    assert_eq!(on.program, "sudo");
    assert_eq!(on.args, vec!["zfs", "set", "readonly=on", "tank/x"]);
    let off = set_readonly_command(&server(), "x", false);
    assert_eq!(off.program, "sudo");
    assert_eq!(off.args, vec!["zfs", "set", "readonly=off", "tank/x"]);
}

#[test]
fn listing_rows_leave_the_header_out() {
    assert_eq!(listing_rows("NAME\ntank/x@b\ntank/x@a\n"), vec!["tank/x@b", "tank/x@a"]);
    assert_eq!(listing_rows("NAME\n"), Vec::<String>::new());
    assert_eq!(listing_rows(""), Vec::<String>::new());
}

#[test]
fn listing_reply_gives_the_names() {
    let reply = output("NAME\ntank/x@b\ntank/x@a\n", "");
    assert_eq!(
        list_snapshots_reply(&reply, &server(), "x"),
        Ok(vec!["tank/x@b".to_string(), "tank/x@a".to_string()])
    );
}

#[test]
fn listing_reply_with_error_output_is_a_failure() {
    let reply = output("NAME\ntank/x@b\n", "cannot open 'tank/x'");
    assert_eq!(
        list_snapshots_reply(&reply, &server(), "x"),
        Err(command_error("cannot open 'tank/x'"))
    );
}

#[test]
fn listing_reply_of_a_failed_command() {
    assert_eq!(
        list_snapshots_reply(&Reply::Failed, &server(), "x"),
        Err(command_error("failed to list snapshots: tank/x"))
    );
    assert_eq!(
        list_snapshots_reply(&Reply::Exited { success: true }, &server(), "x"),
        Err(command_error("failed to list snapshots: tank/x"))
    );
    assert_eq!(
        list_snapshots_reply(&Reply::Unreachable, &server(), "x"),
        Err(ErrorCode::SshSessionFail { user: "root".to_string(), ip: "10.0.0.1".to_string() })
    );
}

#[test]
fn latest_snapshot_is_the_first_row() {
    let reply = output("NAME\ntank/x@b\ntank/x@a\n", "warning");
    assert_eq!(get_latest_snapshot_reply(&reply, &server(), "x"), Ok("tank/x@b".to_string()));
}

#[test]
fn latest_snapshot_of_an_empty_listing_is_missing() {
    let missing =
        ErrorCode::NoSnapshotsFound { pool: "tank".to_string(), dataset: "x".to_string() };
    assert_eq!(get_latest_snapshot_reply(&output("NAME\n", ""), &server(), "x"), Err(missing.clone()));
    assert_eq!(get_latest_snapshot_reply(&output("", ""), &server(), "x"), Err(missing));
    assert_eq!(
        get_latest_snapshot_reply(&Reply::Failed, &server(), "x"),
        Err(command_error("unable to list snapshots for tank/x"))
    );
}

#[test]
fn snapshot_reply_goes_by_the_exit_status() {
    assert_eq!(create_snapshot_reply(&Reply::Exited { success: true }, &server(), "tank/x@n"), Ok(()));
    assert_eq!(
        create_snapshot_reply(&Reply::Exited { success: false }, &server(), "tank/x@n"),
        Err(command_error("failed to take snapshot tank/x@n"))
    );
    assert_eq!(
        create_snapshot_reply(&Reply::Failed, &server(), "tank/x@n"),
        Err(command_error("failed to take snapshot tank/x@n"))
    );
    assert_eq!(
        create_snapshot_reply(&Reply::Unreachable, &server(), "tank/x@n"),
        Err(session_error(&server()))
    );
}

#[test]
fn send_size_is_the_second_field_of_the_size_line() {
    assert_eq!(parse_send_size("incremental\ta\tb\t4096\nsize\t4096\n"), Ok(4096));
    assert_eq!(parse_send_size("size 0"), Ok(0));
    assert_eq!(parse_send_size("size   18446744073709551615   rest"), Ok(u64::MAX));
    assert_eq!(parse_send_size("sizes 7\nsize 8\n"), Ok(7));
}

#[test]
fn send_size_without_a_size_line_is_a_failure() {
    assert_eq!(
        parse_send_size("incremental\ta\tb\n"),
        Err(command_error("couldn't find size for: incremental\ta\tb\n"))
    );
    assert_eq!(parse_send_size(""), Err(command_error("couldn't find size for: ")));
    assert_eq!(parse_send_size("size\n"), Err(command_error("couldn't find size for: size\n")));
    assert_eq!(parse_send_size(" size 1"), Err(command_error("couldn't find size for:  size 1")));
}

#[test]
fn send_size_that_is_no_number_is_a_failure() {
    assert_eq!(
        parse_send_size("size\tlots\n"),
        Err(command_error("size is not a number!\ntried to parse lots\nfrom: size\tlots\n"))
    );
    assert_eq!(
        parse_send_size("size 18446744073709551616"),
        Err(command_error(
            "size is not a number!\ntried to parse 18446744073709551616\nfrom: size 18446744073709551616"
        ))
    );
}

#[test]
fn estimate_reply_reads_the_size() {
    let s = server();
    assert_eq!(estimate_send_size_reply(&output("size\t4096\n", ""), &s, "a", "b"), Ok(4096));
    assert_eq!(
        estimate_send_size_reply(&output("size\t4096\n", "boom"), &s, "a", "b"),
        Err(command_error("boom"))
    );
    assert_eq!(
        estimate_send_size_reply(&Reply::Failed, &s, "tank/x@a", "tank/x@b"),
        Err(command_error("failed to estimate size from tank/x@a to tank/x@b"))
    );
    assert_eq!(estimate_send_size_reply(&Reply::Unreachable, &s, "a", "b"), Err(session_error(&s)));
}

#[test]
fn spawn_reply_names_the_end_that_failed() {
    let s = server();
    assert_eq!(spawn_reply(&Reply::Started, &s, "send", "a", "b"), Ok(()));
    assert_eq!(
        spawn_reply(&Reply::Failed, &s, "send", "a", "b"),
        Err(command_error("failed to spawn zfs send! from a to b"))
    );
    assert_eq!(
        spawn_reply(&Reply::Failed, &s, "recv", "a", "b"),
        Err(command_error("failed to spawn zfs recv! from a to b"))
    );
    assert_eq!(spawn_reply(&Reply::Unreachable, &s, "recv", "a", "b"), Err(session_error(&s)));
}

#[test]
fn diff_reply_is_clean_where_nothing_was_written() {
    let s = server();
    assert_eq!(diff_reply(&output("", ""), &s, "tank/x@a"), Ok(true));
    assert_eq!(diff_reply(&output("M\t/tank/x/file\n", ""), &s, "tank/x@a"), Ok(false));
    assert_eq!(diff_reply(&output("", "notice"), &s, "tank/x@a"), Ok(true));
    assert_eq!(
        diff_reply(&Reply::Failed, &s, "tank/x@a"),
        Err(command_error("failed to diff against tank/x@a"))
    );
    assert_eq!(diff_reply(&Reply::Unreachable, &s, "tank/x@a"), Err(session_error(&s)));
}

#[test]
fn readonly_reply_fails_with_the_servers_login() {
    let s = server();
    let fail = ErrorCode::ReadOnlyFail { user: "root".to_string(), ip: "10.0.0.1".to_string() };
    assert_eq!(set_readonly_reply(&Reply::Exited { success: true }, &s), Ok(()));
    assert_eq!(set_readonly_reply(&Reply::Exited { success: false }, &s), Err(fail.clone()));
    assert_eq!(set_readonly_reply(&Reply::Failed, &s), Err(fail));
    assert_eq!(set_readonly_reply(&Reply::Unreachable, &s), Err(session_error(&s)));
}

#[test]
fn destroy_reply_goes_by_the_exit_status() {
    let s = server();
    assert_eq!(destroy_reply(&Reply::Exited { success: true }, &s, "tank/x@a"), Ok(()));
    assert_eq!(
        destroy_reply(&Reply::Exited { success: false }, &s, "tank/x@a"),
        Err(command_error("failed to destroy tank/x@a"))
    );
    assert_eq!(destroy_reply(&Reply::Unreachable, &s, "tank/x@a"), Err(session_error(&s)));
}

#[test]
fn inventory_parts_every_row() {
    let found = parse_inventory("10.0.0.1", "NAME\ntank/x@a  \n\n  tank/home/y@b\nnonsense\n");
    assert_eq!(
        found,
        Datasets {
            server: "10.0.0.1".to_string(),
            datasets: vec![
                Dataset {
                    pool: "tank".to_string(),
                    dataset: "x".to_string(),
                    snapshot: "a".to_string()
                },
                Dataset {
                    pool: "tank".to_string(),
                    dataset: "home/y".to_string(),
                    snapshot: "b".to_string()
                },
            ],
        }
    );
}

#[test]
fn inventory_reply_carries_the_address() {
    let s = server();
    let found = inventory_reply(&output("NAME\n", ""), &s).unwrap();
    assert_eq!(found, Datasets { server: "10.0.0.1".to_string(), datasets: vec![] });
    assert_eq!(
        inventory_reply(&Reply::Failed, &s),
        Err(command_error("failed to list snapshots on 10.0.0.1"))
    );
    assert_eq!(inventory_reply(&Reply::Unreachable, &s), Err(session_error(&s)));
}

#[test]
fn output_that_is_no_utf8_is_read_with_replacement_characters() {
    let reply = Reply::Output { stdout: b"NAME\ntank/x@caf\xe9\n".to_vec(), stderr: Vec::new() };
    assert_eq!(list_snapshots_reply(&reply, &server(), "x"), Ok(vec!["tank/x@caf\u{fffd}".to_string()]));
    let reply = Reply::Output { stdout: Vec::new(), stderr: vec![0xff, b'!'] };
    assert_eq!(list_snapshots_reply(&reply, &server(), "x"), Err(command_error("\u{fffd}!")));
    let reply = Reply::Output { stdout: "NAME\ntank/x@caf\u{e9}\n".as_bytes().to_vec(), stderr: Vec::new() };
    assert_eq!(get_latest_snapshot_reply(&reply, &server(), "x"), Ok("tank/x@caf\u{e9}".to_string()));
}
