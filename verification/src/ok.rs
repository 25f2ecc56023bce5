//! Telling a command that ended well from one that failed.

use crate::output::{decode_lossy, utf8_lossy, ExitStatus, Output};
use vstd::prelude::*;
use vstd::string::StringExecFns;

verus! {

/// Why a process could not be started or waited for.
#[derive(Debug, Clone)]
pub struct IoError {
    pub message: String,
}

/// Why a command did not end well.
#[derive(Debug, Clone)]
pub enum CommandFailed {
    /// The process ran and ended badly. `msg` holds what it wrote to standard
    /// error, where that was asked for.
    Status { status: ExitStatus, msg: Option<String> },
    /// The process could not be started or waited for.
    IO(IoError),
}

/// A failure as plain text.
pub enum Failure {
    /// The process ran and ended badly.
    Status { status: ExitStatus, msg: Option<Seq<char>> },
    /// The process could not be run; the error's words.
    IO(Seq<char>),
}

/// Whether a result is the expected one: the same value where the command
/// ended well, the same failure where it did not.
pub open spec fn agrees<S>(got: Result<S, CommandFailed>, expected: Result<S, Failure>) -> bool {
    match (got, expected) {
        (Ok(a), Ok(b)) => a == b,
        (Err(a), Err(b)) => a@ == b,
        _ => false,
    }
}

impl CommandFailed {
    /// The failure as plain text.
    pub open spec fn view(&self) -> Failure {
        match self {
            CommandFailed::Status { status, msg } => Failure::Status {
                status: *status,
                msg: match msg {
                    Some(text) => Some(text@),
                    None => None,
                },
            },
            CommandFailed::IO(error) => Failure::IO(error.message@),
        }
    }

    /// The words that describe the failure: for a bad ending, the status and
    /// behind it, after a space, the message if there is one; for a process
    /// that could not be run, the error's own words.
    pub open spec fn rendered(&self) -> Seq<char> {
        match self {
            CommandFailed::Status { status, msg } => "Failed with code "@ + status.description@
                + match msg {
                Some(text) => " "@ + text@,
                None => Seq::empty(),
            },
            CommandFailed::IO(error) => error.message@,
        }
    }

    /// Describes the failure in words.
    pub fn message(&self) -> (text: String)
        ensures
            text@ == self.rendered(),
    {
        match self {
            CommandFailed::Status { status, msg } => {
                let mut text = String::from_str("Failed with code ");
                text.append(status.description.as_str());
                if let Some(msg) = msg {
                    text.append(" ");
                    text.append(msg.as_str());
                    assert(text@ =~= self.rendered());
                } else {
                    assert(text@ =~= self.rendered());
                }
                text
            },
            CommandFailed::IO(error) => error.message.clone(),
        }
    }
}

/// Turns the end of a command into a `Result`: `Ok` where it ended well.
pub trait OkExt: Sized {
    /// What a command that ended well hands on.
    type Success;

    /// The result to expect, with the process's standard error as the
    /// message of a bad ending where `with_msg` asks for it and there is one.
    spec fn expected(self, with_msg: bool) -> Result<Self::Success, Failure>;

    /// `Ok` where the command ended well; else the failure, with what the
    /// process wrote to standard error if that is at hand.
    fn cmd_ok(self) -> (r: Result<Self::Success, CommandFailed>)
        ensures
            agrees(r, self.expected(true)),
    ;

    /// `Ok` where the command ended well; else the failure, without any
    /// output of the process.
    fn cmd_ok_no_msg(self) -> (r: Result<Self::Success, CommandFailed>)
        ensures
            agrees(r, self.expected(false)),
    ;
}

impl OkExt for ExitStatus {
    type Success = Self;

    open spec fn expected(self, with_msg: bool) -> Result<Self, Failure> {
        if self.succeeded() {
            Ok(self)
        } else {
            Err(Failure::Status { status: self, msg: None })
        }
    }

    fn cmd_ok(self) -> (r: Result<Self, CommandFailed>) {
        self.cmd_ok_no_msg()
    }

    fn cmd_ok_no_msg(self) -> (r: Result<Self, CommandFailed>) {
        if self.success() {
            Ok(self)
        } else {
            Err(CommandFailed::Status { status: self, msg: None })
        }
    }
}

impl OkExt for Output {
    type Success = Self;

    open spec fn expected(self, with_msg: bool) -> Result<Self, Failure> {
        if self.status.succeeded() {
            Ok(self)
        } else {
            Err(
                Failure::Status {
                    status: self.status,
                    msg: if with_msg {
                        Some(utf8_lossy(self.stderr@))
                    } else {
                        None
                    },
                },
            )
        }
    }

    fn cmd_ok(self) -> (r: Result<Self, CommandFailed>) {
        if self.status.success() {
            Ok(self)
        } else {
            let msg = decode_lossy(self.stderr.as_slice());
            Err(CommandFailed::Status { status: self.status, msg: Some(msg) })
        }
    }

    fn cmd_ok_no_msg(self) -> (r: Result<Self, CommandFailed>) {
        if self.status.success() {
            Ok(self)
        } else {
            Err(CommandFailed::Status { status: self.status, msg: None })
        }
    }
}

impl OkExt for Result<ExitStatus, IoError> {
    type Success = ExitStatus;

    open spec fn expected(self, with_msg: bool) -> Result<ExitStatus, Failure> {
        match self {
            Ok(status) => status.expected(with_msg),
            Err(error) => Err(Failure::IO(error.message@)),
        }
    }

    fn cmd_ok(self) -> (r: Result<ExitStatus, CommandFailed>) {
        self.cmd_ok_no_msg()
    }

    fn cmd_ok_no_msg(self) -> (r: Result<ExitStatus, CommandFailed>) {
        match self {
            Ok(status) => status.cmd_ok(),
            Err(error) => Err(CommandFailed::IO(error)),
        }
    }
}

impl OkExt for Result<Output, IoError> {
    type Success = Output;

    open spec fn expected(self, with_msg: bool) -> Result<Output, Failure> {
        match self {
            Ok(output) => output.expected(with_msg),
            Err(error) => Err(Failure::IO(error.message@)),
        }
    }

    fn cmd_ok(self) -> (r: Result<Output, CommandFailed>) {
        match self {
            Ok(output) => output.cmd_ok(),
            Err(error) => Err(CommandFailed::IO(error)),
        }
    }

    fn cmd_ok_no_msg(self) -> (r: Result<Output, CommandFailed>) {
        match self {
            Ok(output) => output.cmd_ok_no_msg(),
            Err(error) => Err(CommandFailed::IO(error)),
        }
    }
}

} // verus!
