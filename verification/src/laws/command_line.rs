//! What the command line makes of its arguments, the settings of a server and
//! a server's answers, over all of them.

use crate::cli::args::{Exit, PutModel, UsageModel};
use crate::cli::config::{Blocker, ServerSettings};
use crate::cli::http::{Endpoint, NodeOperation};
use crate::cli::status::{HealthVerdict, PartSizeVerdict, Reply};
use vstd::prelude::*;

verus! {

/// Each command has its word, and help has two or none; any other word is no
/// command.
pub proof fn commands_have_their_words(first: Option<Seq<char>>)
    ensures
        ({
            let c = crate::cli::args::command_named(first);
            &&& c is ConfigCheck <==> first == Some("config-check"@)
            &&& c is Status <==> first == Some("status"@)
            &&& c is Put <==> first == Some("put"@)
            &&& c is Help <==> first is None || first == Some("-h"@) || first == Some("--help"@)
        }),
{
    reveal_strlit("config-check");
    reveal_strlit("status");
    reveal_strlit("put");
    reveal_strlit("-h");
    reveal_strlit("--help");
    assert("config-check"@.len() == 12);
    assert("status"@.len() == 6 && "status"@[0] == 's');
    assert("put"@.len() == 3);
    assert("-h"@.len() == 2);
    assert("--help"@.len() == 6 && "--help"@[0] == '-');
}

/// The server is that of the environment, and without one that of this
/// machine.
pub proof fn the_environment_names_the_server(url: Seq<char>)
    ensures
        crate::cli::args::configured_server(Some(url)) == url,
        crate::cli::args::configured_server(None) == "http://127.0.0.1:8080"@,
{
}

/// What `status` is told by the argument that comes next: a server replaces
/// the one before, an option without its value and anything else is refused,
/// and at the end the last server counts.
pub proof fn status_reads_one_argument_after_the_other(
    first: Seq<char>,
    value: Seq<char>,
    rest: Seq<Seq<char>>,
    server: Seq<char>,
)
    ensures
        crate::cli::args::status_server(Seq::empty(), server) == Ok::<Seq<char>, UsageModel>(
            server,
        ),
        first == "--server"@ ==> crate::cli::args::status_server(
            seq![first, value] + rest,
            server,
        ) == crate::cli::args::status_server(rest, value),
        first == "--server"@ ==> crate::cli::args::status_server(seq![first], server) == Err::<
            Seq<char>,
            UsageModel,
        >(UsageModel::MissingValue { flag: first }),
        first != "--server"@ ==> crate::cli::args::status_server(seq![first] + rest, server)
            == Err::<Seq<char>, UsageModel>(UsageModel::UnknownOption { option: first }),
{
    let two = seq![first, value] + rest;
    assert(two[0] == first && two[1] == value);
    assert(two.skip(2) =~= rest);
    assert((seq![first] + rest)[0] == first);
}

/// What `put` is told by the argument that comes next: a server, a name or a
/// file replaces the one before, `--resume` is noted, an option without its
/// value and an unknown one are refused, and at the end a file has to be
/// there.
pub proof fn put_reads_one_argument_after_the_other(
    first: Seq<char>,
    value: Seq<char>,
    rest: Seq<Seq<char>>,
    server: Seq<char>,
    path: Option<Seq<char>>,
    name: Option<Seq<char>>,
    resume: bool,
)
    ensures
        path is None ==> crate::cli::args::put_request(Seq::empty(), server, path, name, resume)
            == Err::<PutModel, UsageModel>(UsageModel::MissingFile),
        path is Some ==> crate::cli::args::put_request(Seq::empty(), server, path, name, resume)
            == Ok::<PutModel, UsageModel>(PutModel { server, path: path->0, name, resume }),
        first == "--server"@ ==> crate::cli::args::put_request(
            seq![first, value] + rest,
            server,
            path,
            name,
            resume,
        ) == crate::cli::args::put_request(rest, value, path, name, resume),
        first == "--name"@ ==> crate::cli::args::put_request(
            seq![first, value] + rest,
            server,
            path,
            name,
            resume,
        ) == crate::cli::args::put_request(rest, server, path, Some(value), resume),
        first == "--server"@ || first == "--name"@ ==> crate::cli::args::put_request(
            seq![first],
            server,
            path,
            name,
            resume,
        ) == Err::<PutModel, UsageModel>(UsageModel::MissingValue { flag: first }),
        first == "--resume"@ ==> crate::cli::args::put_request(
            seq![first] + rest,
            server,
            path,
            name,
            resume,
        ) == crate::cli::args::put_request(rest, server, path, name, true),
        first.len() > 0 && first[0] == '-' && first != "--server"@ && first != "--name"@ && first
            != "--resume"@ ==> crate::cli::args::put_request(
            seq![first] + rest,
            server,
            path,
            name,
            resume,
        ) == Err::<PutModel, UsageModel>(UsageModel::UnknownOption { option: first }),
        first.len() == 0 || first[0] != '-' ==> crate::cli::args::put_request(
            seq![first] + rest,
            server,
            path,
            name,
            resume,
        ) == crate::cli::args::put_request(rest, server, Some(first), name, resume),
{
    reveal_strlit("--server");
    reveal_strlit("--name");
    reveal_strlit("--resume");
    assert("--server"@.len() == 8 && "--server"@[0] == '-' && "--server"@[2] == 's');
    assert("--name"@.len() == 6 && "--name"@[0] == '-');
    assert("--resume"@.len() == 8 && "--resume"@[0] == '-' && "--resume"@[2] == 'r');
    let two = seq![first, value] + rest;
    assert(two[0] == first && two[1] == value);
    assert(two.skip(2) =~= rest);
    let one = seq![first] + rest;
    assert(one[0] == first);
    assert(one.skip(1) =~= rest);
}

/// A status says that the server did what was asked exactly from 200 to 299.
pub proof fn success_is_from_200_to_299(status: u16)
    ensures
        crate::cli::http::is_success_status(status) <==> 200 <= status && status <= 299,
{
}

/// What the server offers stands at these addresses.
pub proof fn everything_has_its_address(
    e: Endpoint,
    o: NodeOperation,
    base: Seq<char>,
    id: Seq<char>,
)
    ensures
        e is Health ==> e.path() == "/health"@,
        e is FileSystem ==> e.path() == "/api/v1/fs"@,
        e is Resolve ==> e.path() == "/api/v1/nodes/resolve"@,
        e is Root ==> e.path() == "/api/v1/nodes/root"@,
        e is Nodes ==> e.path() == "/api/v1/nodes"@,
        o is Data ==> o.address(base, id) == base + "/api/v1/nodes/"@ + id + "/data"@,
        o is Sync ==> o.address(base, id) == base + "/api/v1/nodes/"@ + id + "/sync"@,
        o is Publish ==> o.address(base, id) == base + "/api/v1/nodes/"@ + id + "/publish"@,
{
}

/// The health of a server: unreachable without an answer, unwell with any
/// status but one of success, and well otherwise, with or without a token. The
/// program ends on each but the last, well only where the server is.
pub proof fn health_is_judged_by_the_status(reply: Reply, has_token: bool, status: u16)
    ensures
        ({
            let v = crate::cli::status::health_verdict(Reply::NoAnswer, has_token);
            v is Unreachable && v.ending() == Some(Exit::Failure)
        }),
        ({
            let v = crate::cli::status::health_verdict(Reply::Answered { status }, has_token);
            if status < 200 || status > 299 {
                v == (HealthVerdict::Unwell { status }) && v.ending() == Some(Exit::Failure)
            } else if has_token {
                v is Well && v.ending() is None
            } else {
                v is WellWithoutToken && v.ending() == Some(Exit::Success)
            }
        }),
        reply.succeeded() <==> reply is Answered && 200 <= reply->status && reply->status <= 299,
{
}

/// The answer about the part size: told with a status of success, which is the
/// only good end; the token refused with 401; refused with any other.
pub proof fn part_sizes_are_judged_by_the_status(status: u16)
    ensures
        ({
            let v = crate::cli::status::part_size_verdict(Reply::NoAnswer);
            v is NoAnswer && v.ending() == Exit::Failure
        }),
        ({
            let v = crate::cli::status::part_size_verdict(Reply::Answered { status });
            if 200 <= status && status <= 299 {
                v is Told && v.ending() == Exit::Success
            } else if status == 401 {
                v is Unauthorized && v.ending() == Exit::Failure
            } else {
                v == (PartSizeVerdict::Refused { status }) && v.ending() == Exit::Failure
            }
        }),
{
}

/// The program's end is decided by the health alone where there is no token or
/// the server is not well, and else by the answer about the part size.
pub proof fn status_ends_with_the_last_answer(health: u16, has_token: bool, part_size: u16)
    ensures
        ({
            let well = 200 <= health && health <= 299;
            let told = 200 <= part_size && part_size <= 299;
            crate::cli::status::status_ending(
                Reply::Answered { status: health },
                has_token,
                Reply::Answered { status: part_size },
            ) == if well && (!has_token || told) {
                Exit::Success
            } else {
                Exit::Failure
            }
        }),
        crate::cli::status::status_ending(
            Reply::NoAnswer,
            has_token,
            Reply::Answered { status: part_size },
        ) == Exit::Failure,
        has_token ==> crate::cli::status::status_ending(
            Reply::Answered { status: health },
            has_token,
            Reply::NoAnswer,
        ) == Exit::Failure,
{
}

/// What is reported to be missing is what is missing: a master key, a token,
/// and somewhere to put objects, which is both halves of the webhook or a
/// directory; in that order and each once.
pub proof fn what_is_missing_is_reported(settings: ServerSettings)
    ensures
        ({
            let found = crate::cli::config::applying(
                crate::cli::config::all_blockers(),
                settings,
            );
            let nowhere = !(settings.discord_webhook_id && settings.discord_webhook_token)
                && settings.object_store_path is None;
            &&& found.contains(Blocker::NoMasterKey) <==> !settings.master_key
            &&& found.contains(Blocker::NoApiToken) <==> !settings.api_token
            &&& found.contains(Blocker::NoObjectStore) <==> nowhere
            &&& found.no_duplicates()
            &&& forall|i: int, j: int|
                0 <= i < j < found.len() ==> !(found[j] is NoMasterKey)
                    && !(found[i] is NoObjectStore)
        }),
{
    crate::cli::config::server_starts_if_nothing_is_missing(settings);
    crate::cli::config::lemma_applying(settings);
    let found = crate::cli::config::applying(crate::cli::config::all_blockers(), settings);
    assert(found.contains(Blocker::NoMasterKey) <==> Blocker::NoMasterKey.applies(settings));
    assert(found.contains(Blocker::NoApiToken) <==> Blocker::NoApiToken.applies(settings));
    assert(found.contains(Blocker::NoObjectStore) <==> Blocker::NoObjectStore.applies(settings));
}

/// Metadata goes to the database and its schema if there is one, and else to
/// memory; objects go to Discord if both halves of the webhook are there, and
/// else to the directory if there is one.
pub proof fn stores_are_named_as_they_are_set(settings: ServerSettings)
    ensures
        settings.database_url ==> crate::cli::config::metadata_store(settings)
            == "postgresql, schema "@ + settings.database_schema@,
        !settings.database_url ==> crate::cli::config::metadata_store(settings)
            == "in-memory (development only: lost on restart)"@,
        settings.discord_webhook_id && settings.discord_webhook_token
            ==> crate::cli::config::object_store(settings) == "discord"@,
        !(settings.discord_webhook_id && settings.discord_webhook_token) && settings.object_store_path
            is Some ==> crate::cli::config::object_store(settings)
            == settings.object_store_path->0@,
        !(settings.discord_webhook_id && settings.discord_webhook_token) && settings.object_store_path
            is None ==> crate::cli::config::object_store(settings) == "not configured"@,
{
}

} // verus!
