//! What the coordinator asks of a remote shell, and what comes back.
//!
//! The library opens no session and runs no command. It says which command is
//! to be run on which server, and decides on what the command answered.

use crate::config::{Server, ServerView};
use crate::text::texts;
use vstd::prelude::*;

verus! {

/// A program and its arguments.
#[derive(Debug, PartialEq, Eq)]
pub struct Invocation {
    pub program: String,
    pub args: Vec<String>,
}

/// What an `Invocation` holds, as plain text.
pub struct InvocationView {
    pub program: Seq<char>,
    pub args: Seq<Seq<char>>,
}

impl View for Invocation {
    type V = InvocationView;

    open spec fn view(&self) -> InvocationView {
        InvocationView { program: self.program@, args: texts(self.args@) }
    }
}

/// How a command on a server ended.
#[derive(Debug, PartialEq, Eq)]
pub enum Reply {
    /// No session could be opened to the server.
    Unreachable,
    /// The session was open, but the command could not be run or waited for.
    Failed,
    /// The command ran and was collected: the bytes that it wrote.
    Output { stdout: Vec<u8>, stderr: Vec<u8> },
    /// The command ran and only its exit status was taken.
    Exited { success: bool },
    /// The command was started and runs on, its streams held for later.
    Started,
}

/// What a `Reply` holds, as plain values.
pub enum ReplyView {
    Unreachable,
    Failed,
    Output { stdout: Seq<u8>, stderr: Seq<u8> },
    Exited { success: bool },
    Started,
}

impl View for Reply {
    type V = ReplyView;

    open spec fn view(&self) -> ReplyView {
        match self {
            Reply::Unreachable => ReplyView::Unreachable,
            Reply::Failed => ReplyView::Failed,
            Reply::Output { stdout, stderr } => ReplyView::Output {
                stdout: stdout@,
                stderr: stderr@,
            },
            Reply::Exited { success } => ReplyView::Exited { success: *success },
            Reply::Started => ReplyView::Started,
        }
    }
}

impl Clone for Invocation {
    fn clone(&self) -> (out: Self)
        ensures
            out@ == self@,
    {
        let mut args: Vec<String> = Vec::new();
        let mut i: usize = 0;
        while i < self.args.len()
            invariant
                i <= self.args.len(),
                args@ == self.args@.take(i as int),
            decreases self.args.len() - i,
        {
            args.push(self.args[i].clone());
            i += 1;
        }
        assert(args@ == self.args@);
        Invocation { program: self.program.clone(), args }
    }
}

impl Clone for Reply {
    fn clone(&self) -> (out: Self)
        ensures
            out@ == self@,
    {
        match self {
            Reply::Unreachable => Reply::Unreachable,
            Reply::Failed => Reply::Failed,
            Reply::Output { stdout, stderr } => Reply::Output {
                stdout: stdout.clone(),
                stderr: stderr.clone(),
            },
            Reply::Exited { success } => Reply::Exited { success: *success },
            Reply::Started => Reply::Started,
        }
    }
}

impl ServerView {
    /// Where a session to the server is opened: `user@address`.
    pub open spec fn destination(self) -> Seq<char> {
        self.user + "@"@ + self.address
    }
}

impl Server {
    /// Where a session to the server is opened: `user@address`.
    pub fn destination(&self) -> (out: String)
        ensures
            out@ == self@.destination(),
    {
        let mut out = self.user.clone();
        out.append("@");
        out.append(self.address.as_str());
        out
    }
}

} // verus!
