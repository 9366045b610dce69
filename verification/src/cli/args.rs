//! The command line: which command is meant, and what it was given.

use crate::text::{begins_with, same_text};
use vstd::prelude::*;

verus! {

/// How the program ends.
#[derive(PartialEq, Eq, Structural, Clone, Copy, Debug)]
pub enum Exit {
    /// It did what was asked.
    Success,
    /// It could not.
    Failure,
    /// It was not asked properly.
    Usage,
}

impl Exit {
    /// The exit status.
    pub fn code(self) -> (r: u8)
        ensures
            r == match self {
                Exit::Success => 0u8,
                Exit::Failure => 1u8,
                Exit::Usage => 2u8,
            },
    {
        match self {
            Exit::Success => 0,
            Exit::Failure => 1,
            Exit::Usage => 2,
        }
    }
}

/// What the program can be asked to do.
#[derive(PartialEq, Eq, Structural, Clone, Copy, Debug)]
pub enum Command {
    ConfigCheck,
    Status,
    Put,
    Help,
    Unknown,
}

impl Command {
    /// How the program ends on this command, where there is nothing to do but
    /// print help.
    pub fn exit(self) -> (r: Option<Exit>)
        ensures
            r == match self {
                Command::Help => Some(Exit::Success),
                Command::Unknown => Some(Exit::Usage),
                _ => None,
            },
    {
        match self {
            Command::Help => Some(Exit::Success),
            Command::Unknown => Some(Exit::Usage),
            _ => None,
        }
    }
}

/// The command that the first argument names. Without one, help is meant.
pub open spec fn command_named(first: Option<Seq<char>>) -> Command {
    match first {
        None => Command::Help,
        Some(word) => if word == "config-check"@ {
            Command::ConfigCheck
        } else if word == "status"@ {
            Command::Status
        } else if word == "put"@ {
            Command::Put
        } else if word == "-h"@ || word == "--help"@ {
            Command::Help
        } else {
            Command::Unknown
        },
    }
}

/// The command that the first argument names.
pub fn parse_command(first: Option<&str>) -> (r: Command)
    ensures
        r == command_named(
            match first {
                Some(word) => Some(word@),
                None => None,
            },
        ),
{
    match first {
        None => Command::Help,
        Some(word) => {
            if same_text(word, "config-check") {
                Command::ConfigCheck
            } else if same_text(word, "status") {
                Command::Status
            } else if same_text(word, "put") {
                Command::Put
            } else if same_text(word, "-h") || same_text(word, "--help") {
                Command::Help
            } else {
                Command::Unknown
            }
        },
    }
}

/// What is wrong with the arguments of a command.
#[derive(Debug)]
pub enum UsageError {
    /// The option `flag` stands at the end, without its value.
    MissingValue { flag: String },
    /// There is no such option.
    UnknownOption { option: String },
    /// No file was named.
    MissingFile,
}

/// The value of a `UsageError`.
pub enum UsageModel {
    MissingValue { flag: Seq<char> },
    UnknownOption { option: Seq<char> },
    MissingFile,
}

impl View for UsageError {
    type V = UsageModel;

    open spec fn view(&self) -> UsageModel {
        match *self {
            UsageError::MissingValue { flag } => UsageModel::MissingValue { flag: flag@ },
            UsageError::UnknownOption { option } => UsageModel::UnknownOption { option: option@ },
            UsageError::MissingFile => UsageModel::MissingFile,
        }
    }
}

impl UsageError {
    /// How the program ends on arguments that are wrong.
    pub fn exit(&self) -> (r: Exit)
        ensures
            r == Exit::Usage,
    {
        Exit::Usage
    }
}

/// The values of a list of arguments.
pub open spec fn words(args: Seq<String>) -> Seq<Seq<char>> {
    args.map_values(|arg: String| arg@)
}

/// The value of a text that may be missing.
pub open spec fn optional_text(text: Option<String>) -> Option<Seq<char>> {
    match text {
        Some(t) => Some(t@),
        None => None,
    }
}

/// The server to use where no option names one.
pub open spec fn configured_server(from_environment: Option<Seq<char>>) -> Seq<char> {
    match from_environment {
        Some(url) => url,
        None => "http://127.0.0.1:8080"@,
    }
}

/// The server to use where no option names one: that of the environment, or
/// the one on this machine.
pub fn default_server(from_environment: Option<String>) -> (r: String)
    ensures
        r@ == configured_server(optional_text(from_environment)),
{
    match from_environment {
        Some(url) => url,
        None => "http://127.0.0.1:8080".to_owned(),
    }
}

/// The bearer token: the program's own, or else the server's.
pub fn chosen_token(dcfs_token: Option<String>, api_token: Option<String>) -> (r: Option<String>)
    ensures
        optional_text(r) == match dcfs_token {
            Some(token) => Some(token@),
            None => optional_text(api_token),
        },
{
    match dcfs_token {
        Some(token) => Some(token),
        None => api_token,
    }
}

/// The server that `status` is to ask, where `server` is what earlier
/// arguments chose.
pub open spec fn status_server(args: Seq<Seq<char>>, server: Seq<char>) -> Result<
    Seq<char>,
    UsageModel,
>
    decreases args.len(),
{
    if args.len() == 0 {
        Ok(server)
    } else if args[0] != "--server"@ {
        Err(UsageModel::UnknownOption { option: args[0] })
    } else if args.len() == 1 {
        Err(UsageModel::MissingValue { flag: args[0] })
    } else {
        status_server(args.skip(2), args[1])
    }
}

/// The outcome of reading arguments, with the values of what is in it.
pub open spec fn outcome<R: View>(r: Result<R, UsageError>) -> Result<R::V, UsageModel> {
    match r {
        Ok(value) => Ok(value@),
        Err(e) => Err(e@),
    }
}

/// Reads the arguments of `status`.
pub fn parse_status(args: &Vec<String>, server: String) -> (r: Result<String, UsageError>)
    ensures
        outcome(r) == status_server(words(args@), server@),
{
    let ghost all = words(args@);
    let mut chosen = server;
    let mut i: usize = 0;
    assert(all.skip(0) =~= all);
    while i < args.len()
        invariant
            all == words(args@),
            i <= args.len(),
            status_server(all, server@) == status_server(all.skip(i as int), chosen@),
        decreases args.len() - i,
    {
        let arg = args[i].as_str();
        let ghost rest = all.skip(i as int);
        assert(rest[0] == arg@);
        if !same_text(arg, "--server") {
            return Err(UsageError::UnknownOption { option: arg.to_owned() });
        }
        if i + 1 >= args.len() {
            return Err(UsageError::MissingValue { flag: arg.to_owned() });
        }
        assert(rest[1] == args@[i + 1]@);
        assert(rest.skip(2) =~= all.skip(i + 2));
        chosen = args[i + 1].clone();
        i = i + 2;
    }
    assert(all.skip(i as int).len() == 0);
    Ok(chosen)
}

/// What `put` was asked to upload, and how.
#[derive(Debug)]
pub struct PutRequest {
    pub server: String,
    pub path: String,
    /// The name to store the file under, where one was given.
    pub name: Option<String>,
    /// Whether to carry on with a partial upload.
    pub resume: bool,
}

/// The value of a `PutRequest`.
pub struct PutModel {
    pub server: Seq<char>,
    pub path: Seq<char>,
    pub name: Option<Seq<char>>,
    pub resume: bool,
}

impl View for PutRequest {
    type V = PutModel;

    open spec fn view(&self) -> PutModel {
        PutModel {
            server: self.server@,
            path: self.path@,
            name: optional_text(self.name),
            resume: self.resume,
        }
    }
}

/// What `put` is asked for, where `server`, `path`, `name` and `resume` are
/// what earlier arguments chose. The last of several files, names or servers
/// counts.
pub open spec fn put_request(
    args: Seq<Seq<char>>,
    server: Seq<char>,
    path: Option<Seq<char>>,
    name: Option<Seq<char>>,
    resume: bool,
) -> Result<PutModel, UsageModel>
    decreases args.len(),
{
    if args.len() == 0 {
        match path {
            Some(path) => Ok(PutModel { server, path, name, resume }),
            None => Err(UsageModel::MissingFile),
        }
    } else if args[0] == "--server"@ || args[0] == "--name"@ {
        if args.len() == 1 {
            Err(UsageModel::MissingValue { flag: args[0] })
        } else if args[0] == "--server"@ {
            put_request(args.skip(2), args[1], path, name, resume)
        } else {
            put_request(args.skip(2), server, path, Some(args[1]), resume)
        }
    } else if args[0] == "--resume"@ {
        put_request(args.skip(1), server, path, name, true)
    } else if args[0].len() > 0 && args[0][0] == '-' {
        Err(UsageModel::UnknownOption { option: args[0] })
    } else {
        put_request(args.skip(1), server, Some(args[0]), name, resume)
    }
}

/// Reads the arguments of `put`.
pub fn parse_put(args: &Vec<String>, server: String) -> (r: Result<PutRequest, UsageError>)
    ensures
        outcome(r) == put_request(words(args@), server@, None, None, false),
{
    let ghost all = words(args@);
    let ghost wanted = put_request(all, server@, None, None, false);
    let mut chosen = server;
    let mut path: Option<String> = None;
    let mut name: Option<String> = None;
    let mut resume: bool = false;
    let mut i: usize = 0;
    assert(all.skip(0) =~= all);
    while i < args.len()
        invariant
            all == words(args@),
            i <= args.len(),
            wanted == put_request(all, server@, None, None, false),
            wanted == put_request(
                all.skip(i as int),
                chosen@,
                optional_text(path),
                optional_text(name),
                resume,
            ),
        decreases args.len() - i,
    {
        let arg = args[i].as_str();
        let ghost rest = all.skip(i as int);
        assert(rest[0] == arg@);
        assert(rest.skip(1) =~= all.skip(i + 1));
        if same_text(arg, "--server") || same_text(arg, "--name") {
            if i + 1 >= args.len() {
                return Err(UsageError::MissingValue { flag: arg.to_owned() });
            }
            assert(rest[1] == args@[i + 1]@);
            assert(rest.skip(2) =~= all.skip(i + 2));
            if same_text(arg, "--server") {
                chosen = args[i + 1].clone();
            } else {
                name = Some(args[i + 1].clone());
            }
            i = i + 2;
        } else if same_text(arg, "--resume") {
            resume = true;
            i = i + 1;
        } else if begins_with(arg, '-') {
            return Err(UsageError::UnknownOption { option: arg.to_owned() });
        } else {
            path = Some(arg.to_owned());
            i = i + 1;
        }
    }
    assert(all.skip(i as int).len() == 0);
    match path {
        Some(path) => Ok(PutRequest { server: chosen, path, name, resume }),
        None => Err(UsageError::MissingFile),
    }
}

/// An option that stands last without its value is refused, whatever stands
/// before it without an error of its own.
pub proof fn trailing_option_needs_its_value(
    args: Seq<Seq<char>>,
    server: Seq<char>,
    path: Option<Seq<char>>,
    name: Option<Seq<char>>,
    resume: bool,
    flag: Seq<char>,
)
    requires
        flag == "--server"@ || flag == "--name"@,
        put_request(args, server, path, name, resume) is Ok || put_request(
            args,
            server,
            path,
            name,
            resume,
        ) == Err::<PutModel, UsageModel>(UsageModel::MissingFile),
    ensures
        put_request(args.push(flag), server, path, name, resume) == Err::<PutModel, UsageModel>(
            UsageModel::MissingValue { flag },
        ),
    decreases args.len(),
{
    let longer = args.push(flag);
    if args.len() == 0 {
        assert(longer[0] == flag);
    } else {
        assert(longer[0] == args[0]);
        assert(longer.skip(1) =~= args.skip(1).push(flag));
        if args[0] == "--server"@ || args[0] == "--name"@ {
            assert(longer[1] == args[1]);
            assert(longer.skip(2) =~= args.skip(2).push(flag));
            if args[0] == "--server"@ {
                trailing_option_needs_its_value(args.skip(2), args[1], path, name, resume, flag);
            } else {
                trailing_option_needs_its_value(
                    args.skip(2),
                    server,
                    path,
                    Some(args[1]),
                    resume,
                    flag,
                );
            }
        } else if args[0] == "--resume"@ {
            trailing_option_needs_its_value(args.skip(1), server, path, name, true, flag);
        } else {
            trailing_option_needs_its_value(
                args.skip(1),
                server,
                Some(args[0]),
                name,
                resume,
                flag,
            );
        }
    }
}

} // verus!
