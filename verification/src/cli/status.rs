//! What a running server's answers say about how it is.

use super::args::Exit;
use super::http::is_success;
use vstd::prelude::*;

verus! {

/// What came of a request.
#[derive(PartialEq, Eq, Structural, Clone, Copy, Debug)]
pub enum Reply {
    /// The server answered with this status.
    Answered { status: u16 },
    /// No answer came.
    NoAnswer,
}

impl Reply {
    /// The server did what was asked.
    pub open spec fn succeeded(self) -> bool {
        self matches Reply::Answered { status } && crate::cli::http::is_success_status(status)
    }
}

/// What to make of a server's answer to the question for its health.
#[derive(PartialEq, Eq, Structural, Clone, Copy, Debug)]
pub enum HealthVerdict {
    /// It cannot be reached.
    Unreachable,
    /// It answered, but not that it is well.
    Unwell { status: u16 },
    /// It is well, and without a token that is all to be had.
    WellWithoutToken,
    /// It is well, and can be asked for its part size.
    Well,
}

/// The verdict on the answer to the question for a server's health.
pub open spec fn health_verdict(reply: Reply, has_token: bool) -> HealthVerdict {
    match reply {
        Reply::NoAnswer => HealthVerdict::Unreachable,
        Reply::Answered { status } => if !reply.succeeded() {
            HealthVerdict::Unwell { status }
        } else if has_token {
            HealthVerdict::Well
        } else {
            HealthVerdict::WellWithoutToken
        },
    }
}

/// Judges the answer to the question for a server's health.
pub fn judge_health(reply: Reply, has_token: bool) -> (r: HealthVerdict)
    ensures
        r == health_verdict(reply, has_token),
{
    match reply {
        Reply::NoAnswer => HealthVerdict::Unreachable,
        Reply::Answered { status } => {
            if !is_success(status) {
                HealthVerdict::Unwell { status }
            } else if has_token {
                HealthVerdict::Well
            } else {
                HealthVerdict::WellWithoutToken
            }
        },
    }
}

impl HealthVerdict {
    /// How the program ends on this verdict, if it does.
    pub open spec fn ending(self) -> Option<Exit> {
        match self {
            HealthVerdict::Unreachable | HealthVerdict::Unwell { .. } => Some(Exit::Failure),
            HealthVerdict::WellWithoutToken => Some(Exit::Success),
            HealthVerdict::Well => None,
        }
    }

    /// How the program ends on this verdict, if it does.
    pub fn exit(self) -> (r: Option<Exit>)
        ensures
            r == self.ending(),
    {
        match self {
            HealthVerdict::Unreachable => Some(Exit::Failure),
            HealthVerdict::Unwell { status } => Some(Exit::Failure),
            HealthVerdict::WellWithoutToken => Some(Exit::Success),
            HealthVerdict::Well => None,
        }
    }
}

/// What to make of a server's answer to the question for its part size.
#[derive(PartialEq, Eq, Structural, Clone, Copy, Debug)]
pub enum PartSizeVerdict {
    /// It told, if its answer can be read.
    Told,
    /// It refused the token.
    Unauthorized,
    /// It answered with another status.
    Refused { status: u16 },
    /// No answer came.
    NoAnswer,
}

/// The verdict on the answer to the question for a server's part size.
pub open spec fn part_size_verdict(reply: Reply) -> PartSizeVerdict {
    match reply {
        Reply::NoAnswer => PartSizeVerdict::NoAnswer,
        Reply::Answered { status } => if reply.succeeded() {
            PartSizeVerdict::Told
        } else if status == 401 {
            PartSizeVerdict::Unauthorized
        } else {
            PartSizeVerdict::Refused { status }
        },
    }
}

/// Judges the answer to the question for a server's part size.
pub fn judge_part_size(reply: Reply) -> (r: PartSizeVerdict)
    ensures
        r == part_size_verdict(reply),
{
    match reply {
        Reply::NoAnswer => PartSizeVerdict::NoAnswer,
        Reply::Answered { status } => {
            if is_success(status) {
                PartSizeVerdict::Told
            } else if status == 401 {
                PartSizeVerdict::Unauthorized
            } else {
                PartSizeVerdict::Refused { status }
            }
        },
    }
}

impl PartSizeVerdict {
    /// How the program ends on this verdict.
    pub open spec fn ending(self) -> Exit {
        match self {
            PartSizeVerdict::Told => Exit::Success,
            _ => Exit::Failure,
        }
    }

    /// How the program ends on this verdict. An answer that cannot be read
    /// does not count against the server.
    pub fn exit(self) -> (r: Exit)
        ensures
            r == self.ending(),
    {
        match self {
            PartSizeVerdict::Told => Exit::Success,
            _ => Exit::Failure,
        }
    }
}

/// How the program ends, given the answers to both questions.
pub open spec fn status_ending(health: Reply, has_token: bool, part_size: Reply) -> Exit {
    match health_verdict(health, has_token).ending() {
        Some(exit) => exit,
        None => part_size_verdict(part_size).ending(),
    }
}

/// Says how the program ends, given the answers to both questions. The second
/// counts only where it was to be asked.
pub fn status_exit(health: Reply, has_token: bool, part_size: Reply) -> (r: Exit)
    ensures
        r == status_ending(health, has_token, part_size),
{
    match judge_health(health, has_token).exit() {
        Some(exit) => exit,
        None => judge_part_size(part_size).exit(),
    }
}

/// The program ends well exactly if the server is well and, where there is a
/// token, takes it.
pub proof fn status_is_good_if_every_answer_is(health: Reply, has_token: bool, part_size: Reply)
    ensures
        status_ending(health, has_token, part_size) == Exit::Success <==> health.succeeded() && (
        !has_token || part_size.succeeded()),
        status_ending(health, has_token, part_size) != Exit::Usage,
{
}

} // verus!
