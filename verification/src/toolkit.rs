//! The commands of the snapshot filesystem, and the reading of their output.
//!
//! Each operation has two halves: the invocation to run on a server, and the
//! value or the error that the server's reply stands for.

use crate::api::{Dataset, DatasetView, Datasets, DatasetsView};
use crate::config::{Server, ServerView};
use crate::decode::{lossy, lossy_text};
use crate::error::{seen, seen_text, seen_texts, ErrorCode, ErrorView};
use crate::remote::{Invocation, InvocationView, Reply, ReplyView};
use crate::snapshot::{full_name, parse_snapshot_name, parsed};
use crate::text::{
    field, has_prefix, joined, lemma_position_is, lines, nth_field, parse_unsigned, position,
    split_lines, texts, trim, trimmed, unsigned_value,
};
use vstd::prelude::*;

verus! {

/// `pool/dataset`: the dataset as the server with that pool names it.
pub open spec fn qualified(pool: Seq<char>, dataset: Seq<char>) -> Seq<char> {
    pool + "/"@ + dataset
}

/// `pool/dataset`.
pub fn qualified_name(pool: &str, dataset: &str) -> (out: String)
    ensures
        out@ == qualified(pool@, dataset@),
{
    let mut out = joined(pool, "/");
    out.append(dataset);
    out
}

/// `zfs` with the arguments `args`.
pub open spec fn zfs(args: Seq<Seq<char>>) -> InvocationView {
    InvocationView { program: "zfs"@, args }
}

/// The error for a server to which no session could be opened.
pub open spec fn no_session(server: ServerView) -> ErrorView {
    ErrorView::SshSessionFail { user: server.user, ip: server.address }
}

/// The error for a server to which no session could be opened.
pub fn session_error(server: &Server) -> (out: ErrorCode)
    ensures
        out@ == no_session(server@),
{
    ErrorCode::SshSessionFail { user: server.user.clone(), ip: server.address.clone() }
}

/// The error of a command, with what there is to say of it.
pub open spec fn failure(msg: Seq<char>) -> ErrorView {
    ErrorView::ZfsCommandError { msg }
}

// ---------------------------------------------------------------------------
// list
// ---------------------------------------------------------------------------
/// Lists the names of the snapshots of `pool/dataset` by creation, the newest
/// first or the oldest first.
pub open spec fn list_snapshots_invocation(
    pool: Seq<char>,
    dataset: Seq<char>,
    newest_first: bool,
) -> InvocationView {
    zfs(
        seq![
            "list"@,
            "-t"@,
            "snapshot"@,
            "-o"@,
            "name"@,
            if newest_first {
                "-S"@
            } else {
                "-s"@
            },
            "creation"@,
            qualified(pool, dataset),
        ],
    )
}

/// The command that lists the snapshots of `pool/dataset` by creation.
pub fn list_snapshots_command(pool: &str, dataset: &str, newest_first: bool) -> (out: Invocation)
    ensures
        out@ == list_snapshots_invocation(pool@, dataset@, newest_first),
{
    let order = if newest_first {
        "-S"
    } else {
        "-s"
    };
    let args = vec![
        "list".to_owned(),
        "-t".to_owned(),
        "snapshot".to_owned(),
        "-o".to_owned(),
        "name".to_owned(),
        order.to_owned(),
        "creation".to_owned(),
        qualified_name(pool, dataset),
    ];
    assert(texts(args@) =~= list_snapshots_invocation(pool@, dataset@, newest_first).args);
    Invocation { program: "zfs".to_owned(), args }
}

/// The lines of a listing after its header line.
pub open spec fn rows(stdout: Seq<char>) -> Seq<Seq<char>> {
    if lines(stdout).len() == 0 {
        lines(stdout)
    } else {
        lines(stdout).drop_first()
    }
}

/// The lines of a listing after its header line.
pub fn listing_rows(stdout: &str) -> (out: Vec<String>)
    ensures
        texts(out@) == rows(stdout@),
{
    let mut all = split_lines(stdout);
    if all.len() > 0 {
        all.remove(0);
        assert(texts(all@) =~= rows(stdout@));
    }
    all
}

/// What the reply to a listing of `dataset` on `server` stands for: the names
/// of the snapshots, in the order of the listing. Anything on the error
/// stream makes the listing a failure.
pub open spec fn listed(reply: ReplyView, server: ServerView, dataset: Seq<char>) -> Result<
    Seq<Seq<char>>,
    ErrorView,
> {
    match reply {
        ReplyView::Unreachable => Err(no_session(server)),
        ReplyView::Output { stdout, stderr } => if stderr.len() > 0 {
            Err(failure(lossy(stderr)))
        } else {
            Ok(rows(lossy(stdout)))
        },
        _ => Err(failure("failed to list snapshots: "@ + qualified(server.pool, dataset))),
    }
}

/// The names of the snapshots that the reply to a listing holds.
pub fn list_snapshots_reply(reply: &Reply, server: &Server, dataset: &str) -> (out: Result<
    Vec<String>,
    ErrorCode,
>)
    ensures
        seen_texts(out) == listed(reply@, server@, dataset@),
{
    match reply {
        Reply::Unreachable => Err(session_error(server)),
        Reply::Output { stdout, stderr } => {
            if stderr.len() > 0 {
                Err(ErrorCode::ZfsCommandError { msg: lossy_text(stderr) })
            } else {
                Ok(listing_rows(lossy_text(stdout).as_str()))
            }
        },
        _ => {
            let place = qualified_name(server.pool.as_str(), dataset);
            Err(
                ErrorCode::ZfsCommandError {
                    msg: joined("failed to list snapshots: ", place.as_str()),
                },
            )
        },
    }
}

/// What the reply to a listing of `dataset` on `server`, newest first, says of
/// the latest snapshot: its name is the first line after the header. The
/// error stream is not looked at.
pub open spec fn latest(reply: ReplyView, server: ServerView, dataset: Seq<char>) -> Result<
    Seq<char>,
    ErrorView,
> {
    match reply {
        ReplyView::Unreachable => Err(no_session(server)),
        ReplyView::Output { stdout, stderr } => if rows(lossy(stdout)).len() > 0 {
            Ok(rows(lossy(stdout))[0])
        } else {
            Err(ErrorView::NoSnapshotsFound { pool: server.pool, dataset })
        },
        _ => Err(failure("unable to list snapshots for "@ + qualified(server.pool, dataset))),
    }
}

/// The name of the latest snapshot that the reply to a listing holds.
pub fn get_latest_snapshot_reply(reply: &Reply, server: &Server, dataset: &str) -> (out: Result<
    String,
    ErrorCode,
>)
    ensures
        seen_text(out) == latest(reply@, server@, dataset@),
{
    match reply {
        Reply::Unreachable => Err(session_error(server)),
        Reply::Output { stdout, stderr } => {
            let names = listing_rows(lossy_text(stdout).as_str());
            if names.len() > 0 {
                Ok(names[0].clone())
            } else {
                Err(
                    ErrorCode::NoSnapshotsFound {
                        pool: server.pool.clone(),
                        dataset: dataset.to_owned(),
                    },
                )
            }
        },
        _ => {
            let place = qualified_name(server.pool.as_str(), dataset);
            Err(
                ErrorCode::ZfsCommandError {
                    msg: joined("unable to list snapshots for ", place.as_str()),
                },
            )
        },
    }
}

// ---------------------------------------------------------------------------
// snapshot
// ---------------------------------------------------------------------------
/// The name of the managed snapshot of `pool/dataset` taken at the time that
/// `stamp` writes: `pool/dataset@brig-stamp`.
pub open spec fn managed_name(pool: Seq<char>, dataset: Seq<char>, stamp: Seq<char>) -> Seq<char> {
    qualified(pool, dataset) + "@brig-"@ + stamp
}

/// The name of a managed snapshot is the name of the snapshot with the pool
/// and the dataset whose tag is `brig-` and the stamp.
pub proof fn lemma_managed_name(pool: Seq<char>, dataset: Seq<char>, stamp: Seq<char>)
    ensures
        managed_name(pool, dataset, stamp) == full_name(
            DatasetView { pool, dataset, snapshot: "brig-"@ + stamp },
        ),
{
    reveal_strlit("/");
    reveal_strlit("@brig-");
    reveal_strlit("brig-");
    assert("/"@ =~= seq!['/']);
    assert("@brig-"@ =~= seq!['@'] + "brig-"@);
    assert(managed_name(pool, dataset, stamp) =~= full_name(
        DatasetView { pool, dataset, snapshot: "brig-"@ + stamp },
    ));
}

/// The name of the managed snapshot of `pool/dataset` with the time `stamp`.
pub fn snapshot_name(pool: &str, dataset: &str, stamp: &str) -> (out: String)
    ensures
        out@ == managed_name(pool@, dataset@, stamp@),
{
    let mut out = qualified_name(pool, dataset);
    out.append("@brig-");
    out.append(stamp);
    out
}

/// Takes the snapshot named `name`.
pub open spec fn create_snapshot_invocation(name: Seq<char>) -> InvocationView {
    zfs(seq!["snapshot"@, name])
}

/// The command that takes the snapshot named `name`.
pub fn create_snapshot_command(name: &str) -> (out: Invocation)
    ensures
        out@ == create_snapshot_invocation(name@),
{
    let args = vec!["snapshot".to_owned(), name.to_owned()];
    assert(texts(args@) =~= create_snapshot_invocation(name@).args);
    Invocation { program: "zfs".to_owned(), args }
}

/// What the reply to the taking of the snapshot `name` on `server` stands for.
pub open spec fn created(reply: ReplyView, server: ServerView, name: Seq<char>) -> Result<
    (),
    ErrorView,
> {
    match reply {
        ReplyView::Unreachable => Err(no_session(server)),
        ReplyView::Exited { success: true } => Ok(()),
        _ => Err(failure("failed to take snapshot "@ + name)),
    }
}

/// Whether the snapshot `name` was taken, by the reply to the command.
pub fn create_snapshot_reply(reply: &Reply, server: &Server, name: &str) -> (out: Result<
    (),
    ErrorCode,
>)
    ensures
        seen(out) == created(reply@, server@, name@),
{
    match reply {
        Reply::Unreachable => Err(session_error(server)),
        Reply::Exited { success: true } => Ok(()),
        _ => Err(ErrorCode::ZfsCommandError { msg: joined("failed to take snapshot ", name) }),
    }
}

// ---------------------------------------------------------------------------
// send, dry run
// ---------------------------------------------------------------------------
/// Asks how many bytes the increment from `from` to `to` holds, sending nothing.
pub open spec fn estimate_send_size_invocation(from: Seq<char>, to: Seq<char>) -> InvocationView {
    zfs(seq!["send"@, "-n"@, "-P"@, "-i"@, from, to])
}

/// The command that asks for the size of the increment from `from` to `to`.
pub fn estimate_send_size_command(from: &str, to: &str) -> (out: Invocation)
    ensures
        out@ == estimate_send_size_invocation(from@, to@),
{
    let args = vec![
        "send".to_owned(),
        "-n".to_owned(),
        "-P".to_owned(),
        "-i".to_owned(),
        from.to_owned(),
        to.to_owned(),
    ];
    assert(texts(args@) =~= estimate_send_size_invocation(from@, to@).args);
    Invocation { program: "zfs".to_owned(), args }
}

/// The index of the first of `rows` that begins with `size`, or their number.
pub open spec fn size_row(rows: Seq<Seq<char>>) -> nat {
    position(rows.map_values(|row: Seq<char>| "size"@.is_prefix_of(row)), true)
}

/// The size that the output of a dry run reports: on the first line that
/// begins with `size`, the second field, read as an unsigned 64-bit number.
pub open spec fn reported_size(stdout: Seq<char>) -> Result<u64, ErrorView> {
    let rows = lines(stdout);
    let at = size_row(rows) as int;
    if at >= rows.len() || field(rows[at], 1) is None {
        Err(failure("couldn't find size for: "@ + stdout))
    } else {
        let found = field(rows[at], 1)->Some_0;
        match unsigned_value(found) {
            Some(size) => Ok(size),
            None => Err(
                failure(
                    "size is not a number!\ntried to parse "@ + found + "\nfrom: "@ + stdout,
                ),
            ),
        }
    }
}

/// The size that the output of a dry run reports.
pub fn parse_send_size(stdout: &str) -> (out: Result<u64, ErrorCode>)
    ensures
        seen(out) == reported_size(stdout@),
{
    let rows = split_lines(stdout);
    let ghost marks = lines(stdout@).map_values(|row: Seq<char>| "size"@.is_prefix_of(row));
    let mut at: usize = 0;
    while at < rows.len() && !has_prefix(rows[at].as_str(), "size")
        invariant
            at <= rows.len(),
            texts(rows@) == lines(stdout@),
            marks == lines(stdout@).map_values(|row: Seq<char>| "size"@.is_prefix_of(row)),
            forall|j: int| 0 <= j < at ==> !marks[j],
        decreases rows.len() - at,
    {
        assert(texts(rows@)[at as int] == rows@[at as int]@);
        at += 1;
    }
    proof {
        if at < rows.len() {
            assert(texts(rows@)[at as int] == rows@[at as int]@);
        }
        lemma_position_is(marks, true, at as int);
    }
    let found = if at < rows.len() {
        nth_field(rows[at].as_str(), 1)
    } else {
        None
    };
    match found {
        None => Err(ErrorCode::ZfsCommandError { msg: joined("couldn't find size for: ", stdout) }),
        Some(text) => match parse_unsigned(text.as_str()) {
            Some(size) => Ok(size),
            None => {
                let mut msg = joined("size is not a number!\ntried to parse ", text.as_str());
                msg.append("\nfrom: ");
                msg.append(stdout);
                Err(ErrorCode::ZfsCommandError { msg })
            },
        },
    }
}

/// What the reply to a dry run from `from` to `to` on `server` stands for:
/// the size in bytes. Anything on the error stream makes it a failure.
pub open spec fn estimated(reply: ReplyView, server: ServerView, from: Seq<char>, to: Seq<char>)
    -> Result<u64, ErrorView> {
    match reply {
        ReplyView::Unreachable => Err(no_session(server)),
        ReplyView::Output { stdout, stderr } => if stderr.len() > 0 {
            Err(failure(lossy(stderr)))
        } else {
            reported_size(lossy(stdout))
        },
        _ => Err(failure("failed to estimate size from "@ + from + " to "@ + to)),
    }
}

/// The size of the increment from `from` to `to`, by the reply to a dry run.
pub fn estimate_send_size_reply(reply: &Reply, server: &Server, from: &str, to: &str) -> (out:
    Result<u64, ErrorCode>)
    ensures
        seen(out) == estimated(reply@, server@, from@, to@),
{
    match reply {
        Reply::Unreachable => Err(session_error(server)),
        Reply::Output { stdout, stderr } => {
            if stderr.len() > 0 {
                Err(ErrorCode::ZfsCommandError { msg: lossy_text(stderr) })
            } else {
                parse_send_size(lossy_text(stdout).as_str())
            }
        },
        _ => {
            let mut msg = joined("failed to estimate size from ", from);
            msg.append(" to ");
            msg.append(to);
            Err(ErrorCode::ZfsCommandError { msg })
        },
    }
}

// ---------------------------------------------------------------------------
// send and receive
// ---------------------------------------------------------------------------
/// Sends the increment from `from` to `to` to its standard output.
pub open spec fn send_invocation(from: Seq<char>, to: Seq<char>) -> InvocationView {
    zfs(seq!["send"@, "-i"@, from, to])
}

/// The command that sends the increment from `from` to `to`.
pub fn send_command(from: &str, to: &str) -> (out: Invocation)
    ensures
        out@ == send_invocation(from@, to@),
{
    let args = vec!["send".to_owned(), "-i".to_owned(), from.to_owned(), to.to_owned()];
    assert(texts(args@) =~= send_invocation(from@, to@).args);
    Invocation { program: "zfs".to_owned(), args }
}

/// Receives a stream from its standard input into `pool/dataset`, rolling the
/// dataset back to the stream's base where it has changed since.
pub open spec fn receive_invocation(pool: Seq<char>, dataset: Seq<char>) -> InvocationView {
    zfs(seq!["recv"@, "-F"@, qualified(pool, dataset)])
}

/// The command that receives a stream into `pool/dataset`.
pub fn receive_command(pool: &str, dataset: &str) -> (out: Invocation)
    ensures
        out@ == receive_invocation(pool@, dataset@),
{
    let args = vec!["recv".to_owned(), "-F".to_owned(), qualified_name(pool, dataset)];
    assert(texts(args@) =~= receive_invocation(pool@, dataset@).args);
    Invocation { program: "zfs".to_owned(), args }
}

/// What the reply to the start of one end of a transfer from `from` to `to`
/// stands for; `end` is `send` or `recv`.
pub open spec fn started(
    reply: ReplyView,
    server: ServerView,
    end: Seq<char>,
    from: Seq<char>,
    to: Seq<char>,
) -> Result<(), ErrorView> {
    match reply {
        ReplyView::Unreachable => Err(no_session(server)),
        ReplyView::Started => Ok(()),
        _ => Err(failure("failed to spawn zfs "@ + end + "! from "@ + from + " to "@ + to)),
    }
}

/// Whether one end of a transfer was started, by the reply to its command.
pub fn spawn_reply(reply: &Reply, server: &Server, end: &str, from: &str, to: &str) -> (out:
    Result<(), ErrorCode>)
    ensures
        seen(out) == started(reply@, server@, end@, from@, to@),
{
    match reply {
        Reply::Unreachable => Err(session_error(server)),
        Reply::Started => Ok(()),
        _ => {
            let mut msg = joined("failed to spawn zfs ", end);
            msg.append("! from ");
            msg.append(from);
            msg.append(" to ");
            msg.append(to);
            Err(ErrorCode::ZfsCommandError { msg })
        },
    }
}

// ---------------------------------------------------------------------------
// diff
// ---------------------------------------------------------------------------
/// Lists what has changed in a dataset since its snapshot named `snapshot`.
pub open spec fn diff_invocation(snapshot: Seq<char>) -> InvocationView {
    zfs(seq!["diff"@, snapshot])
}

/// The command that lists what has changed since `snapshot`.
pub fn diff_command(snapshot: &str) -> (out: Invocation)
    ensures
        out@ == diff_invocation(snapshot@),
{
    let args = vec!["diff".to_owned(), snapshot.to_owned()];
    assert(texts(args@) =~= diff_invocation(snapshot@).args);
    Invocation { program: "zfs".to_owned(), args }
}

/// What the reply to a diff against `snapshot` on `server` stands for:
/// whether nothing has changed since, which is an empty standard output.
pub open spec fn unchanged(reply: ReplyView, server: ServerView, snapshot: Seq<char>) -> Result<
    bool,
    ErrorView,
> {
    match reply {
        ReplyView::Unreachable => Err(no_session(server)),
        ReplyView::Output { stdout, stderr } => Ok(stdout.len() == 0),
        _ => Err(failure("failed to diff against "@ + snapshot)),
    }
}

/// Whether nothing has changed since `snapshot`, by the reply to a diff.
pub fn diff_reply(reply: &Reply, server: &Server, snapshot: &str) -> (out: Result<bool, ErrorCode>)
    ensures
        seen(out) == unchanged(reply@, server@, snapshot@),
{
    match reply {
        Reply::Unreachable => Err(session_error(server)),
        Reply::Output { stdout, stderr } => Ok(stdout.len() == 0),
        _ => Err(ErrorCode::ZfsCommandError { msg: joined("failed to diff against ", snapshot) }),
    }
}

// ---------------------------------------------------------------------------
// set readonly
// ---------------------------------------------------------------------------
/// Makes `pool/dataset` read-only, or writable again, as a privileged user.
pub open spec fn set_readonly_invocation(pool: Seq<char>, dataset: Seq<char>, is_on: bool)
    -> InvocationView {
    InvocationView {
        program: "sudo"@,
        args: seq![
            "zfs"@,
            "set"@,
            if is_on {
                "readonly=on"@
            } else {
                "readonly=off"@
            },
            qualified(pool, dataset),
        ],
    }
}

/// The command that makes `dataset` read-only on `server`, or writable again.
pub fn set_readonly_command(server: &Server, dataset: &str, is_on: bool) -> (out: Invocation)
    ensures
        out@ == set_readonly_invocation(server@.pool, dataset@, is_on),
{
    let value = if is_on {
        "readonly=on"
    } else {
        "readonly=off"
    };
    let args = vec![
        "zfs".to_owned(),
        "set".to_owned(),
        value.to_owned(),
        qualified_name(server.pool.as_str(), dataset),
    ];
    assert(texts(args@) =~= set_readonly_invocation(server@.pool, dataset@, is_on).args);
    Invocation { program: "sudo".to_owned(), args }
}

/// What the reply to the setting of `readonly` on `server` stands for.
pub open spec fn readonly_set(reply: ReplyView, server: ServerView) -> Result<(), ErrorView> {
    match reply {
        ReplyView::Unreachable => Err(no_session(server)),
        ReplyView::Exited { success: true } => Ok(()),
        _ => Err(ErrorView::ReadOnlyFail { user: server.user, ip: server.address }),
    }
}

/// Whether `readonly` was set on `server`, by the reply to the command.
pub fn set_readonly_reply(reply: &Reply, server: &Server) -> (out: Result<(), ErrorCode>)
    ensures
        seen(out) == readonly_set(reply@, server@),
{
    match reply {
        Reply::Unreachable => Err(session_error(server)),
        Reply::Exited { success: true } => Ok(()),
        _ => Err(
            ErrorCode::ReadOnlyFail { user: server.user.clone(), ip: server.address.clone() },
        ),
    }
}

// ---------------------------------------------------------------------------
// destroy
// ---------------------------------------------------------------------------
/// Destroys the snapshot named `snapshot`.
pub open spec fn destroy_invocation(snapshot: Seq<char>) -> InvocationView {
    zfs(seq!["destroy"@, snapshot])
}

/// The command that destroys the snapshot named `snapshot`. Whether the
/// snapshot may go is for the caller to decide.
pub fn destroy_command(snapshot: &str) -> (out: Invocation)
    ensures
        out@ == destroy_invocation(snapshot@),
{
    let args = vec!["destroy".to_owned(), snapshot.to_owned()];
    assert(texts(args@) =~= destroy_invocation(snapshot@).args);
    Invocation { program: "zfs".to_owned(), args }
}

/// What the reply to the destroying of `snapshot` on `server` stands for.
pub open spec fn destroyed(reply: ReplyView, server: ServerView, snapshot: Seq<char>) -> Result<
    (),
    ErrorView,
> {
    match reply {
        ReplyView::Unreachable => Err(no_session(server)),
        ReplyView::Exited { success: true } => Ok(()),
        _ => Err(failure("failed to destroy "@ + snapshot)),
    }
}

/// Whether `snapshot` was destroyed, by the reply to the command.
pub fn destroy_reply(reply: &Reply, server: &Server, snapshot: &str) -> (out: Result<
    (),
    ErrorCode,
>)
    ensures
        seen(out) == destroyed(reply@, server@, snapshot@),
{
    match reply {
        Reply::Unreachable => Err(session_error(server)),
        Reply::Exited { success: true } => Ok(()),
        _ => Err(ErrorCode::ZfsCommandError { msg: joined("failed to destroy ", snapshot) }),
    }
}

// ---------------------------------------------------------------------------
// inventory
// ---------------------------------------------------------------------------
/// Lists the names of all snapshots of a server.
pub open spec fn inventory_invocation() -> InvocationView {
    zfs(seq!["list"@, "-t"@, "snapshot"@, "-o"@, "name"@])
}

/// The command that lists the names of all snapshots of a server.
pub fn inventory_command() -> (out: Invocation)
    ensures
        out@ == inventory_invocation(),
{
    let args = vec![
        "list".to_owned(),
        "-t".to_owned(),
        "snapshot".to_owned(),
        "-o".to_owned(),
        "name".to_owned(),
    ];
    assert(texts(args@) =~= inventory_invocation().args);
    Invocation { program: "zfs".to_owned(), args }
}

/// The snapshots that `rows` name, in order: each row, without the white
/// space around it, parted into pool, dataset and tag. A row that names no
/// snapshot is left out.
pub open spec fn inventory(rows: Seq<Seq<char>>) -> Seq<DatasetView>
    decreases rows.len(),
{
    if rows.len() == 0 {
        Seq::empty()
    } else {
        let before = inventory(rows.drop_last());
        match parsed(trim(rows.last())) {
            Some(parts) => before.push(parts),
            None => before,
        }
    }
}

/// The snapshots that the listing `stdout` of the server at `address` names.
pub fn parse_inventory(address: &str, stdout: &str) -> (out: Datasets)
    ensures
        out@ == (DatasetsView { server: address@, datasets: inventory(rows(stdout@)) }),
{
    let names = listing_rows(stdout);
    let ghost all = rows(stdout@);
    let mut datasets: Vec<Dataset> = Vec::new();
    let mut i: usize = 0;
    assert(all.take(0) == Seq::<Seq<char>>::empty());
    while i < names.len()
        invariant
            i <= names.len(),
            all == texts(names@),
            datasets@.map_values(|d: Dataset| d@) == inventory(all.take(i as int)),
        decreases names.len() - i,
    {
        let ghost upto = all.take(i + 1);
        proof {
            assert(upto.drop_last() == all.take(i as int));
            assert(upto.last() == names@[i as int]@);
        }
        let row = trimmed(names[i].as_str());
        match parse_snapshot_name(row.as_str()) {
            Some(parts) => {
                let ghost before = datasets@.map_values(|d: Dataset| d@);
                datasets.push(parts);
                assert(datasets@.map_values(|d: Dataset| d@) == before.push(parts@));
            },
            None => {},
        }
        i += 1;
    }
    assert(all.take(i as int) == all);
    Datasets { server: address.to_owned(), datasets }
}

/// What the reply to the listing of all snapshots of `server` stands for:
/// the server's address with its snapshots. The error stream is not looked at.
pub open spec fn inventoried(reply: ReplyView, server: ServerView) -> Result<
    DatasetsView,
    ErrorView,
> {
    match reply {
        ReplyView::Unreachable => Err(no_session(server)),
        ReplyView::Output { stdout, stderr } => Ok(
            DatasetsView { server: server.address, datasets: inventory(rows(lossy(stdout))) },
        ),
        _ => Err(failure("failed to list snapshots on "@ + server.address)),
    }
}

/// The snapshots of `server`, by the reply to the listing of all of them.
pub fn inventory_reply(reply: &Reply, server: &Server) -> (out: Result<Datasets, ErrorCode>)
    ensures
        match out {
            Ok(found) => inventoried(reply@, server@) == Ok::<DatasetsView, ErrorView>(found@),
            Err(e) => inventoried(reply@, server@) == Err::<DatasetsView, ErrorView>(e@),
        },
{
    match reply {
        Reply::Unreachable => Err(session_error(server)),
        Reply::Output { stdout, stderr } => Ok(
            parse_inventory(server.address.as_str(), lossy_text(stdout).as_str()),
        ),
        _ => Err(
            ErrorCode::ZfsCommandError {
                msg: joined("failed to list snapshots on ", server.address.as_str()),
            },
        ),
    }
}

} // verus!
