//! What the values of records, arguments, events and actions show: everything
//! that is in them, and nothing else.

use crate::cli::args::{PutRequest, UsageError, UsageModel};
use crate::cli::upload::{
    Action, ActionModel, Body, BodyModel, Event, EventModel, Facts, Query, QueryModel,
};
use crate::clock::Timestamp;
use crate::ident::Uuid;
use crate::records::{
    FileChunkRecord, FileVersionRecord, NodeRecord, ObjectLocatorRecord, RepositoryError,
    SessionRecord,
};
use vstd::prelude::*;

verus! {

/// The value of a node has each of its fields.
pub proof fn nodes_show_every_field(n: NodeRecord)
    ensures
        n@.id == n.id,
        n@.parent_id == n.parent_id,
        n@.name == n.name@,
        n@.kind == n.kind@,
        n@.mode == n.mode,
        n@.uid == n.uid,
        n@.gid == n.gid,
        n@.size == n.size,
        n@.atime == n.atime,
        n@.mtime == n.mtime,
        n@.ctime == n.ctime,
        n@.current_version_id == n.current_version_id,
        n@.generation == n.generation,
        n.link_target is None <==> n@.link_target is None,
        n.link_target is Some ==> n@.link_target == Some(n.link_target->0@),
{
}

/// The value of a version has each of its fields.
pub proof fn versions_show_every_field(v: FileVersionRecord)
    ensures
        v@.id == v.id,
        v@.node_id == v.node_id,
        v@.base_version_id == v.base_version_id,
        v@.state == v.state@,
        v@.size == v.size,
        v@.plaintext_hash == v.plaintext_hash@,
        v@.chunk_size == v.chunk_size,
        v@.created_at == v.created_at,
        v@.committed_at == v.committed_at,
{
}

/// The values of chunks have each of their fields, in their order.
pub proof fn chunks_show_every_field(chunks: Seq<FileChunkRecord>, k: int)
    requires
        0 <= k < chunks.len(),
    ensures
        crate::manifest::chunk_models(chunks).len() == chunks.len(),
        ({
            let shown = crate::manifest::chunk_models(chunks)[k];
            &&& shown == chunks[k]@
            &&& shown.version_id == chunks[k].version_id
            &&& shown.chunk_index == chunks[k].chunk_index
            &&& shown.logical_offset == chunks[k].logical_offset
            &&& shown.plaintext_size == chunks[k].plaintext_size
            &&& shown.plaintext_hash == chunks[k].plaintext_hash@
            &&& shown.object_id == chunks[k].object_id
        }),
{
}

/// The values of a list of nodes are theirs, in their order.
pub proof fn lists_of_nodes_show_each(nodes: Seq<NodeRecord>, k: int)
    requires
        0 <= k < nodes.len(),
    ensures
        crate::model::node_models(nodes).len() == nodes.len(),
        crate::model::node_models(nodes)[k] == nodes[k]@,
{
}

/// The values of locators and sessions have each of their fields.
pub proof fn locators_and_sessions_show_every_field(l: ObjectLocatorRecord, s: SessionRecord)
    ensures
        l@.object_id == l.object_id,
        l@.url == l.url@,
        s@.id == s.id,
        s@.label == s.label@,
        s@.created_at == s.created_at,
        s@.expires_at == s.expires_at,
{
}

/// An answer shows the record that is in it, or the very error.
pub proof fn answers_show_what_they_hold(r: Result<NodeRecord, RepositoryError>)
    ensures
        r is Ok ==> crate::model::answer(r) is Ok && crate::model::answer(r)->Ok_0 == r->Ok_0@,
        r is Err ==> crate::model::answer(r) is Err && crate::model::answer(r)->Err_0 == r->Err_0,
{
}

/// Looking up gives what the table has under the identifier, and `NotFound`
/// where it has nothing.
pub proof fn lookups_find_what_is_there<V>(table: Map<Uuid, V>, id: Uuid)
    ensures
        table.dom().contains(id) ==> crate::model::lookup(table, id) == Ok::<V, RepositoryError>(
            table[id],
        ),
        !table.dom().contains(id) ==> crate::model::lookup(table, id) == Err::<V, RepositoryError>(
            RepositoryError::NotFound,
        ),
{
}

/// An enumeration names every key, nothing else, and nothing twice.
pub proof fn enumerations_name_each_key_once(order: Seq<Uuid>, keys: Set<Uuid>)
    requires
        crate::table::enumerates(order, keys),
    ensures
        forall|k: int| 0 <= k < order.len() ==> keys.contains(#[trigger] order[k]),
        forall|id: Uuid| #[trigger]
            keys.contains(id) ==> exists|k: int| 0 <= k < order.len() && order[k] == id,
        forall|i: int, j: int| 0 <= i < j < order.len() ==> order[i] != order[j],
{
    assert forall|k: int| 0 <= k < order.len() implies keys.contains(#[trigger] order[k]) by {
        assert(order.to_set().contains(order[k]));
    }
    assert forall|id: Uuid| #[trigger] keys.contains(id) implies exists|k: int|
        0 <= k < order.len() && order[k] == id by {
        assert(order.to_set().contains(id));
    }
}

/// Of two times exactly one is the earlier, or they are the same; and what is
/// earlier has fewer seconds, or as many and fewer nanoseconds.
pub proof fn times_are_in_order(a: Timestamp, b: Timestamp, c: Timestamp)
    ensures
        a.before(b) || b.before(a) || a == b,
        !(a.before(b) && b.before(a)),
        !a.before(a),
        a.before(b) && b.before(c) ==> a.before(c),
        a.secs < b.secs ==> a.before(b),
        a.secs == b.secs ==> (a.before(b) <==> a.nanos < b.nanos),
{
}

/// The value of an event is the event.
pub proof fn events_show_what_happened(e: Event, f: Facts)
    ensures
        e matches Event::Answered { status, body } ==> {
            &&& e@ matches EventModel::Answered { status: s, body: b }
            &&& s == status
            &&& body is None <==> b is None
            &&& body is Some ==> b->0 == body->0@
        },
        e is NoAnswer <==> e@ is NoAnswer,
        e is Opened <==> e@ is Opened,
        e is CannotOpen <==> e@ is CannotOpen,
        e is CannotSeek <==> e@ is CannotSeek,
        e matches Event::Read { count } ==> e@ == (EventModel::Read { count }),
        e is CannotRead <==> e@ is CannotRead,
        e is Waited <==> e@ is Waited,
        e matches Event::Measured { size } ==> e@ == (EventModel::Measured { size }),
        e is CannotMeasure <==> e@ is CannotMeasure,
        f@.chunk_size == f.chunk_size,
        f@.size == f.size,
        f.id is None <==> f@.id is None,
        f.id is Some ==> f@.id == Some(f.id->0@),
        f.parent_id is None <==> f@.parent_id is None,
        f.parent_id is Some ==> f@.parent_id == Some(f.parent_id->0@),
{
}

/// The value of an action is the action.
pub proof fn actions_show_what_is_to_be_done(a: Action, q: Query, b: Body)
    ensures
        a matches Action::Request { method, url, query, body } ==> a@ == (ActionModel::Request {
            method,
            url: url@,
            query: query@,
            body: body@,
        }),
        a matches Action::Open { offset } ==> a@ == (ActionModel::Open { offset }),
        a matches Action::Read { from, to } ==> a@ == (ActionModel::Read { from, to: to as int }),
        a matches Action::Wait { seconds } ==> a@ == (ActionModel::Wait {
            seconds: seconds as int,
        }),
        a is Measure <==> a@ is Measure,
        a is Finish <==> a@ is Finish,
        a matches Action::GiveUp { why } ==> a@ == (ActionModel::GiveUp { why }),
        q is Nothing <==> q@ is Nothing,
        q matches Query::Path { path } ==> q@ == (QueryModel::Path { path: path@ }),
        q matches Query::Offset { offset } ==> q@ == (QueryModel::Offset { offset }),
        b is Nothing <==> b@ is Nothing,
        b matches Body::Part { len } ==> b@ == (BodyModel::Part { len }),
        b matches Body::NewFile { parent_id, name, kind, mode, uid, gid, idempotency_key } ==> b@
            == (BodyModel::NewFile {
            parent_id: parent_id@,
            name: name@,
            kind: kind@,
            mode,
            uid,
            gid,
            idempotency_key: idempotency_key@,
        }),
        b matches Body::Publication { new_parent_id, new_name, idempotency_key } ==> b@ == (
        BodyModel::Publication {
            new_parent_id: new_parent_id@,
            new_name: new_name@,
            idempotency_key: idempotency_key@,
        }),
{
}

/// The values of arguments, of what they ask for and of what is wrong with
/// them are theirs.
pub proof fn arguments_show_what_was_given(
    args: Seq<String>,
    p: PutRequest,
    e: UsageError,
    text: Option<String>,
)
    ensures
        crate::cli::args::words(args).len() == args.len(),
        forall|k: int|
            0 <= k < args.len() ==> #[trigger] crate::cli::args::words(args)[k] == args[k]@,
        text is None <==> crate::cli::args::optional_text(text) is None,
        text is Some ==> crate::cli::args::optional_text(text) == Some(text->0@),
        p@.server == p.server@,
        p@.path == p.path@,
        p.name is None <==> p@.name is None,
        p.name is Some ==> p@.name == Some(p.name->0@),
        p@.resume == p.resume,
        e matches UsageError::MissingValue { flag } ==> e@ == (UsageModel::MissingValue {
            flag: flag@,
        }),
        e matches UsageError::UnknownOption { option } ==> e@ == (UsageModel::UnknownOption {
            option: option@,
        }),
        e is MissingFile <==> e@ is MissingFile,
{
}

/// The outcome of reading arguments is what came of it.
pub proof fn outcomes_show_what_came_of_it(r: Result<String, UsageError>)
    ensures
        r is Ok ==> crate::cli::args::outcome(r) is Ok && crate::cli::args::outcome(r)->Ok_0
            == r->Ok_0@,
        r is Err ==> crate::cli::args::outcome(r) is Err && crate::cli::args::outcome(r)->Err_0
            == r->Err_0@,
{
}

} // verus!
