//! The errors that the coordinator reports, one enumeration for every component.

use crate::text::{joined, texts};
use vstd::prelude::*;

verus! {

/// An error of the coordinator. On the wire it is an object of two members:
/// `error`, the name of the variant, and `msg`, a sentence for the operator.
#[derive(Debug, PartialEq, Eq)]
pub enum ErrorCode {
    /// Reserved for requests that carry no valid credentials.
    Unauthorized,
    /// No session could be opened to `user` at `ip`.
    SshSessionFail { user: String, ip: String },
    /// The `readonly` property could not be set on the server of `user` at `ip`.
    ReadOnlyFail { user: String, ip: String },
    /// A request names a dataset that the configuration does not hold.
    DatasetNotFoundInConfig { dataset: String },
    /// A dataset names an owner that the configuration does not hold.
    ServerNotFoundFromDataset { dataset: String, server_name: String },
    /// A request names a server that the configuration does not hold.
    ServerNotFoundFromRequest { server_name: String },
    /// A command of the snapshot filesystem failed or wrote to its error stream.
    ZfsCommandError { msg: String },
    /// The configuration could not be serialized.
    ConfigIsInvalidJson,
    /// The configuration could not be written to `path`.
    ErrorWritingConfigFile { path: String },
    /// The fleet does not agree on the dataset's latest snapshot, or its owner
    /// holds changes made since.
    DatasetNotSynced { dataset: String },
    /// Owner and replica share no snapshot from which to send an increment.
    NoCommonSnapshot { dataset: String },
    /// The sending process gave no handle on its output.
    FailedToTakeStdout { to: String, from: String },
    /// The receiving process gave no handle on its input.
    FailedToTakeStdin { to: String, from: String },
    /// Reading from the sending process failed.
    FailedToReadSendOutputToBuffer,
    /// Writing to the receiving process failed.
    FailedToWriteBufferToRecvInput,
    /// The input of the receiving process could not be closed.
    FailedToShutdownOutputStream,
    /// The sending process could not be waited for.
    FailedToWaitForZfsSend,
    /// The receiving process could not be waited for.
    FailedToWaitForZfsRecv,
    /// A listing that had to hold a snapshot held none.
    NoSnapshotsFound { pool: String, dataset: String },
}

/// What an `ErrorCode` holds, as plain text.
pub enum ErrorView {
    Unauthorized,
    SshSessionFail { user: Seq<char>, ip: Seq<char> },
    ReadOnlyFail { user: Seq<char>, ip: Seq<char> },
    DatasetNotFoundInConfig { dataset: Seq<char> },
    ServerNotFoundFromDataset { dataset: Seq<char>, server_name: Seq<char> },
    ServerNotFoundFromRequest { server_name: Seq<char> },
    ZfsCommandError { msg: Seq<char> },
    ConfigIsInvalidJson,
    ErrorWritingConfigFile { path: Seq<char> },
    DatasetNotSynced { dataset: Seq<char> },
    NoCommonSnapshot { dataset: Seq<char> },
    FailedToTakeStdout { to: Seq<char>, from: Seq<char> },
    FailedToTakeStdin { to: Seq<char>, from: Seq<char> },
    FailedToReadSendOutputToBuffer,
    FailedToWriteBufferToRecvInput,
    FailedToShutdownOutputStream,
    FailedToWaitForZfsSend,
    FailedToWaitForZfsRecv,
    NoSnapshotsFound { pool: Seq<char>, dataset: Seq<char> },
}

impl View for ErrorCode {
    type V = ErrorView;

    open spec fn view(&self) -> ErrorView {
        match self {
            ErrorCode::Unauthorized => ErrorView::Unauthorized,
            ErrorCode::SshSessionFail { user, ip } => ErrorView::SshSessionFail {
                user: user@,
                ip: ip@,
            },
            ErrorCode::ReadOnlyFail { user, ip } => ErrorView::ReadOnlyFail {
                user: user@,
                ip: ip@,
            },
            ErrorCode::DatasetNotFoundInConfig { dataset } => ErrorView::DatasetNotFoundInConfig {
                dataset: dataset@,
            },
            ErrorCode::ServerNotFoundFromDataset {
                dataset,
                server_name,
            } => ErrorView::ServerNotFoundFromDataset {
                dataset: dataset@,
                server_name: server_name@,
            },
            ErrorCode::ServerNotFoundFromRequest {
                server_name,
            } => ErrorView::ServerNotFoundFromRequest {
                server_name: server_name@,
            },
            ErrorCode::ZfsCommandError { msg } => ErrorView::ZfsCommandError { msg: msg@ },
            ErrorCode::ConfigIsInvalidJson => ErrorView::ConfigIsInvalidJson,
            ErrorCode::ErrorWritingConfigFile { path } => ErrorView::ErrorWritingConfigFile {
                path: path@,
            },
            ErrorCode::DatasetNotSynced { dataset } => ErrorView::DatasetNotSynced {
                dataset: dataset@,
            },
            ErrorCode::NoCommonSnapshot { dataset } => ErrorView::NoCommonSnapshot {
                dataset: dataset@,
            },
            ErrorCode::FailedToTakeStdout { to, from } => ErrorView::FailedToTakeStdout {
                to: to@,
                from: from@,
            },
            ErrorCode::FailedToTakeStdin { to, from } => ErrorView::FailedToTakeStdin {
                to: to@,
                from: from@,
            },
            ErrorCode::FailedToReadSendOutputToBuffer => ErrorView::FailedToReadSendOutputToBuffer,
            ErrorCode::FailedToWriteBufferToRecvInput => ErrorView::FailedToWriteBufferToRecvInput,
            ErrorCode::FailedToShutdownOutputStream => ErrorView::FailedToShutdownOutputStream,
            ErrorCode::FailedToWaitForZfsSend => ErrorView::FailedToWaitForZfsSend,
            ErrorCode::FailedToWaitForZfsRecv => ErrorView::FailedToWaitForZfsRecv,
            ErrorCode::NoSnapshotsFound { pool, dataset } => ErrorView::NoSnapshotsFound {
                pool: pool@,
                dataset: dataset@,
            },
        }
    }
}

impl Clone for ErrorCode {
    fn clone(&self) -> (out: Self)
        ensures
            out == *self,
    {
        match self {
            ErrorCode::Unauthorized => ErrorCode::Unauthorized,
            ErrorCode::SshSessionFail { user, ip } => ErrorCode::SshSessionFail {
                user: user.clone(),
                ip: ip.clone(),
            },
            ErrorCode::ReadOnlyFail { user, ip } => ErrorCode::ReadOnlyFail {
                user: user.clone(),
                ip: ip.clone(),
            },
            ErrorCode::DatasetNotFoundInConfig { dataset } => ErrorCode::DatasetNotFoundInConfig {
                dataset: dataset.clone(),
            },
            ErrorCode::ServerNotFoundFromDataset {
                dataset,
                server_name,
            } => ErrorCode::ServerNotFoundFromDataset {
                dataset: dataset.clone(),
                server_name: server_name.clone(),
            },
            ErrorCode::ServerNotFoundFromRequest {
                server_name,
            } => ErrorCode::ServerNotFoundFromRequest {
                server_name: server_name.clone(),
            },
            ErrorCode::ZfsCommandError { msg } => ErrorCode::ZfsCommandError { msg: msg.clone() },
            ErrorCode::ConfigIsInvalidJson => ErrorCode::ConfigIsInvalidJson,
            ErrorCode::ErrorWritingConfigFile { path } => ErrorCode::ErrorWritingConfigFile {
                path: path.clone(),
            },
            ErrorCode::DatasetNotSynced { dataset } => ErrorCode::DatasetNotSynced {
                dataset: dataset.clone(),
            },
            ErrorCode::NoCommonSnapshot { dataset } => ErrorCode::NoCommonSnapshot {
                dataset: dataset.clone(),
            },
            ErrorCode::FailedToTakeStdout { to, from } => ErrorCode::FailedToTakeStdout {
                to: to.clone(),
                from: from.clone(),
            },
            ErrorCode::FailedToTakeStdin { to, from } => ErrorCode::FailedToTakeStdin {
                to: to.clone(),
                from: from.clone(),
            },
            ErrorCode::FailedToReadSendOutputToBuffer => ErrorCode::FailedToReadSendOutputToBuffer,
            ErrorCode::FailedToWriteBufferToRecvInput => ErrorCode::FailedToWriteBufferToRecvInput,
            ErrorCode::FailedToShutdownOutputStream => ErrorCode::FailedToShutdownOutputStream,
            ErrorCode::FailedToWaitForZfsSend => ErrorCode::FailedToWaitForZfsSend,
            ErrorCode::FailedToWaitForZfsRecv => ErrorCode::FailedToWaitForZfsRecv,
            ErrorCode::NoSnapshotsFound { pool, dataset } => ErrorCode::NoSnapshotsFound {
                pool: pool.clone(),
                dataset: dataset.clone(),
            },
        }
    }
}

impl ErrorView {
    /// The name of the variant: the member `error` on the wire.
    pub open spec fn kind(self) -> Seq<char> {
        match self {
            ErrorView::Unauthorized => "Unauthorized"@,
            ErrorView::SshSessionFail { .. } => "SshSessionFail"@,
            ErrorView::ReadOnlyFail { .. } => "ReadOnlyFail"@,
            ErrorView::DatasetNotFoundInConfig { .. } => "DatasetNotFoundInConfig"@,
            ErrorView::ServerNotFoundFromDataset { .. } => "ServerNotFoundFromDataset"@,
            ErrorView::ServerNotFoundFromRequest { .. } => "ServerNotFoundFromRequest"@,
            ErrorView::ZfsCommandError { .. } => "ZfsCommandError"@,
            ErrorView::ConfigIsInvalidJson => "ConfigIsInvalidJson"@,
            ErrorView::ErrorWritingConfigFile { .. } => "ErrorWritingConfigFile"@,
            ErrorView::DatasetNotSynced { .. } => "DatasetNotSynced"@,
            ErrorView::NoCommonSnapshot { .. } => "NoCommonSnapshot"@,
            ErrorView::FailedToTakeStdout { .. } => "FailedToTakeStdout"@,
            ErrorView::FailedToTakeStdin { .. } => "FailedToTakeStdin"@,
            ErrorView::FailedToReadSendOutputToBuffer => "FailedToReadSendOutputToBuffer"@,
            ErrorView::FailedToWriteBufferToRecvInput => "FailedToWriteBufferToRecvInput"@,
            ErrorView::FailedToShutdownOutputStream => "FailedToShutdownOutputStream"@,
            ErrorView::FailedToWaitForZfsSend => "FailedToWaitForZfsSend"@,
            ErrorView::FailedToWaitForZfsRecv => "FailedToWaitForZfsRecv"@,
            ErrorView::NoSnapshotsFound { .. } => "NoSnapshotsFound"@,
        }
    }

    /// The sentence for the operator: the member `msg` on the wire.
    pub open spec fn message(self) -> Seq<char> {
        match self {
            ErrorView::Unauthorized => "unauthorized"@,
            ErrorView::SshSessionFail { user, ip } => {
                "could not open a session to "@ + user + "@"@ + ip
            },
            ErrorView::ReadOnlyFail { user, ip } => {
                "could not set readonly as "@ + user + "@"@ + ip
            },
            ErrorView::DatasetNotFoundInConfig { dataset } => {
                "no dataset in the configuration is named "@ + dataset
            },
            ErrorView::ServerNotFoundFromDataset { dataset, server_name } => {
                "no server in the configuration is named "@ + server_name
                    + ", the owner of dataset "@ + dataset
            },
            ErrorView::ServerNotFoundFromRequest { server_name } => {
                "no server in the configuration is named "@ + server_name
            },
            ErrorView::ZfsCommandError { msg } => msg,
            ErrorView::ConfigIsInvalidJson => "the configuration could not be serialized"@,
            ErrorView::ErrorWritingConfigFile { path } => {
                "could not write the configuration to "@ + path
            },
            ErrorView::DatasetNotSynced { dataset } => {
                "the servers are not in sync on dataset "@ + dataset
            },
            ErrorView::NoCommonSnapshot { dataset } => {
                "owner and replica share no snapshot of dataset "@ + dataset
            },
            ErrorView::FailedToTakeStdout { to, from } => {
                "no output stream from the send of "@ + from + " to "@ + to
            },
            ErrorView::FailedToTakeStdin { to, from } => {
                "no input stream for the receive of "@ + from + " to "@ + to
            },
            ErrorView::FailedToReadSendOutputToBuffer => "could not read from the sending process"@,
            ErrorView::FailedToWriteBufferToRecvInput => {
                "could not write to the receiving process"@
            },
            ErrorView::FailedToShutdownOutputStream => {
                "could not close the stream to the receiving process"@
            },
            ErrorView::FailedToWaitForZfsSend => "could not wait for the sending process"@,
            ErrorView::FailedToWaitForZfsRecv => "could not wait for the receiving process"@,
            ErrorView::NoSnapshotsFound { pool, dataset } => {
                "no snapshot of "@ + pool + "/"@ + dataset
            },
        }
    }
}

impl ErrorCode {
    /// The name of the variant.
    pub fn kind(&self) -> (out: String)
        ensures
            out@ == self@.kind(),
    {
        match self {
            ErrorCode::Unauthorized => "Unauthorized".to_owned(),
            ErrorCode::SshSessionFail { .. } => "SshSessionFail".to_owned(),
            ErrorCode::ReadOnlyFail { .. } => "ReadOnlyFail".to_owned(),
            ErrorCode::DatasetNotFoundInConfig { .. } => "DatasetNotFoundInConfig".to_owned(),
            ErrorCode::ServerNotFoundFromDataset { .. } => "ServerNotFoundFromDataset".to_owned(),
            ErrorCode::ServerNotFoundFromRequest { .. } => "ServerNotFoundFromRequest".to_owned(),
            ErrorCode::ZfsCommandError { .. } => "ZfsCommandError".to_owned(),
            ErrorCode::ConfigIsInvalidJson => "ConfigIsInvalidJson".to_owned(),
            ErrorCode::ErrorWritingConfigFile { .. } => "ErrorWritingConfigFile".to_owned(),
            ErrorCode::DatasetNotSynced { .. } => "DatasetNotSynced".to_owned(),
            ErrorCode::NoCommonSnapshot { .. } => "NoCommonSnapshot".to_owned(),
            ErrorCode::FailedToTakeStdout { .. } => "FailedToTakeStdout".to_owned(),
            ErrorCode::FailedToTakeStdin { .. } => "FailedToTakeStdin".to_owned(),
            ErrorCode::FailedToReadSendOutputToBuffer => {
                "FailedToReadSendOutputToBuffer".to_owned()
            },
            ErrorCode::FailedToWriteBufferToRecvInput => {
                "FailedToWriteBufferToRecvInput".to_owned()
            },
            ErrorCode::FailedToShutdownOutputStream => "FailedToShutdownOutputStream".to_owned(),
            ErrorCode::FailedToWaitForZfsSend => "FailedToWaitForZfsSend".to_owned(),
            ErrorCode::FailedToWaitForZfsRecv => "FailedToWaitForZfsRecv".to_owned(),
            ErrorCode::NoSnapshotsFound { .. } => "NoSnapshotsFound".to_owned(),
        }
    }

    /// The sentence that tells the operator what went wrong.
    pub fn message(&self) -> (out: String)
        ensures
            out@ == self@.message(),
    {
        match self {
            ErrorCode::Unauthorized => "unauthorized".to_owned(),
            ErrorCode::SshSessionFail { user, ip } => {
                let mut out = joined("could not open a session to ", user.as_str());
                out.append("@");
                out.append(ip.as_str());
                out
            },
            ErrorCode::ReadOnlyFail { user, ip } => {
                let mut out = joined("could not set readonly as ", user.as_str());
                out.append("@");
                out.append(ip.as_str());
                out
            },
            ErrorCode::DatasetNotFoundInConfig { dataset } => {
                let mut out = joined("no dataset in the configuration is named ", dataset.as_str());
                out
            },
            ErrorCode::ServerNotFoundFromDataset { dataset, server_name } => {
                let mut out = joined(
                    "no server in the configuration is named ",
                    server_name.as_str(),
                );
                out.append(", the owner of dataset ");
                out.append(dataset.as_str());
                out
            },
            ErrorCode::ServerNotFoundFromRequest { server_name } => {
                let mut out = joined(
                    "no server in the configuration is named ",
                    server_name.as_str(),
                );
                out
            },
            ErrorCode::ZfsCommandError { msg } => msg.clone(),
            ErrorCode::ConfigIsInvalidJson => {
                "the configuration could not be serialized".to_owned()
            },
            ErrorCode::ErrorWritingConfigFile { path } => {
                let mut out = joined("could not write the configuration to ", path.as_str());
                out
            },
            ErrorCode::DatasetNotSynced { dataset } => {
                let mut out = joined("the servers are not in sync on dataset ", dataset.as_str());
                out
            },
            ErrorCode::NoCommonSnapshot { dataset } => {
                let mut out = joined(
                    "owner and replica share no snapshot of dataset ",
                    dataset.as_str(),
                );
                out
            },
            ErrorCode::FailedToTakeStdout { to, from } => {
                let mut out = joined("no output stream from the send of ", from.as_str());
                out.append(" to ");
                out.append(to.as_str());
                out
            },
            ErrorCode::FailedToTakeStdin { to, from } => {
                let mut out = joined("no input stream for the receive of ", from.as_str());
                out.append(" to ");
                out.append(to.as_str());
                out
            },
            ErrorCode::FailedToReadSendOutputToBuffer => {
                "could not read from the sending process".to_owned()
            },
            ErrorCode::FailedToWriteBufferToRecvInput => {
                "could not write to the receiving process".to_owned()
            },
            ErrorCode::FailedToShutdownOutputStream => {
                "could not close the stream to the receiving process".to_owned()
            },
            ErrorCode::FailedToWaitForZfsSend => {
                "could not wait for the sending process".to_owned()
            },
            ErrorCode::FailedToWaitForZfsRecv => {
                "could not wait for the receiving process".to_owned()
            },
            ErrorCode::NoSnapshotsFound { pool, dataset } => {
                let mut out = joined("no snapshot of ", pool.as_str());
                out.append("/");
                out.append(dataset.as_str());
                out
            },
        }
    }
}

/// A result as plain values, where the value is plain already.
pub open spec fn seen<T>(r: Result<T, ErrorCode>) -> Result<T, ErrorView> {
    match r {
        Ok(v) => Ok(v),
        Err(e) => Err(e@),
    }
}

/// A result as plain values, where the value is a string.
pub open spec fn seen_text(r: Result<String, ErrorCode>) -> Result<Seq<char>, ErrorView> {
    match r {
        Ok(v) => Ok(v@),
        Err(e) => Err(e@),
    }
}

/// A result as plain values, where the value is a list of strings.
pub open spec fn seen_texts(r: Result<Vec<String>, ErrorCode>) -> Result<
    Seq<Seq<char>>,
    ErrorView,
> {
    match r {
        Ok(v) => Ok(texts(v@)),
        Err(e) => Err(e@),
    }
}

} // verus!
