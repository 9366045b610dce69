//! What an upload says to the server and makes of each answer, word for word.

use crate::cli::upload::{
    ActionModel, BodyModel, EventModel, FactsModel, Failure, Method, QueryModel, Stage,
    UploadModel,
};
use crate::ident::Uuid;
use vstd::prelude::*;

verus! {

/// The request is a bare one to this address.
pub open spec fn is_bare(a: ActionModel, method: Method, url: Seq<char>) -> bool {
    a == (ActionModel::Request {
        method,
        url,
        query: QueryModel::Nothing,
        body: BodyModel::Nothing,
    })
}

/// An upload that starts knows what it was given and nothing else, and first
/// asks for the part size.
pub proof fn uploads_start_with_what_was_given(
    base: Seq<char>,
    name: Seq<char>,
    total: u64,
    resume: bool,
    key: Uuid,
)
    ensures
        ({
            let u = UploadModel::fresh(base, name, total, resume);
            &&& u.base == base && u.name == name && u.total == total && u.resume == resume
            &&& u.offset == 0 && u.filled == 0 && u.attempt == 0
            &&& u.stage is AskPartSize
            &&& is_bare(u.action(key), Method::Get, base + "/api/v1/fs"@)
        }),
{
}

/// Where the part size was asked for, an answer that can be read settles it,
/// whatever its status: what it says, or eight mebibytes. Then the final name
/// is looked up.
pub proof fn servers_tell_the_part_size(u: UploadModel, status: u16, facts: FactsModel)
    requires
        u.stage is AskPartSize,
    ensures
        ({
            let after = u.step(EventModel::Answered { status, body: Some(facts) });
            &&& facts.chunk_size is Some ==> after.part_size == facts.chunk_size->0
            &&& facts.chunk_size is None ==> after.part_size == 8388608
            &&& after == (UploadModel {
                part_size: after.part_size,
                stage: Stage::CheckFinal,
                ..u
            })
        }),
        u.step(EventModel::Answered { status, body: None }) == (UploadModel {
            stage: Stage::Failed { why: Failure::PartSizeUnreadable },
            ..u
        }),
        u.step(EventModel::NoAnswer) == (UploadModel {
            stage: Stage::Failed { why: Failure::Unreachable },
            ..u
        }),
{
}

/// The final name is looked up in the root directory. If something is there,
/// the upload fails and tells its size; if not, or if nothing is heard, the
/// hidden name is looked up.
pub proof fn the_final_name_has_to_be_free(
    u: UploadModel,
    status: u16,
    body: Option<FactsModel>,
    key: Uuid,
)
    requires
        u.stage is CheckFinal,
    ensures
        u.action(key) == (ActionModel::Request {
            method: Method::Get,
            url: u.base + "/api/v1/nodes/resolve"@,
            query: QueryModel::Path { path: "/"@ + u.name },
            body: BodyModel::Nothing,
        }),
        ({
            let after = u.step(EventModel::Answered { status, body });
            if status < 200 || status > 299 {
                after == (UploadModel { stage: Stage::FindPartial, ..u })
            } else if body is None {
                after == (UploadModel {
                    stage: Stage::Failed { why: Failure::FinalUnreadable },
                    ..u
                })
            } else if body->0.size is Some {
                after == (UploadModel {
                    stage: Stage::Failed { why: Failure::FinalExists { size: body->0.size->0 } },
                    ..u
                })
            } else {
                after == (UploadModel {
                    stage: Stage::Failed { why: Failure::FinalExists { size: 0 } },
                    ..u
                })
            }
        }),
        u.step(EventModel::NoAnswer) == (UploadModel { stage: Stage::FindPartial, ..u }),
{
}

/// The hidden name is looked up in the root directory. A partial upload that
/// is there is taken over, if that was asked for and the source is as large:
/// its identifier, its directory and its size are those of the answer. If
/// nothing is there, or nothing is heard, the root is asked for.
pub proof fn partial_uploads_are_taken_over(
    u: UploadModel,
    status: u16,
    facts: FactsModel,
    key: Uuid,
)
    requires
        u.stage is FindPartial,
    ensures
        u.action(key) == (ActionModel::Request {
            method: Method::Get,
            url: u.base + "/api/v1/nodes/resolve"@,
            query: QueryModel::Path { path: "/"@ + ("."@ + u.name + ".dcfs-uploading"@) },
            body: BodyModel::Nothing,
        }),
        ({
            let after = u.step(EventModel::Answered { status, body: Some(facts) });
            let size: u64 = if facts.size is Some {
                facts.size->0
            } else {
                0
            };
            if status < 200 || status > 299 {
                after == (UploadModel { stage: Stage::AskRoot, ..u })
            } else if !u.resume {
                after == (UploadModel {
                    stage: Stage::Failed { why: Failure::PartialExists { size } },
                    ..u
                })
            } else if size > u.total {
                after == (UploadModel {
                    stage: Stage::Failed { why: Failure::PartialTooLarge { remote_size: size } },
                    ..u
                })
            } else {
                &&& after.stage is Open
                &&& after.offset == size
                &&& facts.id is Some ==> after.node_id == facts.id->0
                &&& facts.id is None ==> after.node_id.len() == 0
                &&& facts.parent_id is Some ==> after.root_id == facts.parent_id->0
                &&& facts.parent_id is None ==> after.root_id.len() == 0
                &&& after == (UploadModel {
                    node_id: after.node_id,
                    root_id: after.root_id,
                    offset: after.offset,
                    stage: after.stage,
                    ..u
                })
            }
        }),
        u.step(EventModel::Answered { status, body: None }) == if status < 200 || status > 299 {
            UploadModel { stage: Stage::AskRoot, ..u }
        } else {
            UploadModel { stage: Stage::Failed { why: Failure::PartialUnreadable }, ..u }
        },
        u.step(EventModel::NoAnswer) == (UploadModel { stage: Stage::AskRoot, ..u }),
{
}

/// The root is asked for, and its identifier is that of the answer, whatever
/// the status.
pub proof fn servers_tell_the_root(
    u: UploadModel,
    status: u16,
    facts: FactsModel,
    key: Uuid,
)
    requires
        u.stage is AskRoot,
    ensures
        is_bare(u.action(key), Method::Get, u.base + "/api/v1/nodes/root"@),
        ({
            let after = u.step(EventModel::Answered { status, body: Some(facts) });
            &&& facts.id is Some ==> after.root_id == facts.id->0
            &&& facts.id is None ==> after.root_id.len() == 0
            &&& after == (UploadModel { root_id: after.root_id, stage: Stage::Create, ..u })
        }),
        u.step(EventModel::Answered { status, body: None }) == (UploadModel {
            stage: Stage::Failed { why: Failure::RootUnreadable },
            ..u
        }),
        u.step(EventModel::NoAnswer) == (UploadModel {
            stage: Stage::Failed { why: Failure::Unreachable },
            ..u
        }),
{
}

/// A plain file of mode 644 is made in the root under the hidden name, and the
/// upload goes to the node of the answer, from the beginning.
pub proof fn files_are_made_in_the_root(
    u: UploadModel,
    status: u16,
    facts: FactsModel,
    key: Uuid,
)
    requires
        u.stage is Create,
    ensures
        u.action(key) == (ActionModel::Request {
            method: Method::Post,
            url: u.base + "/api/v1/nodes"@,
            query: QueryModel::Nothing,
            body: BodyModel::NewFile {
                parent_id: u.root_id,
                name: crate::cli::encoding::encoded_name("."@ + u.name + ".dcfs-uploading"@),
                kind: "File"@,
                mode: 33188,
                uid: 0,
                gid: 0,
                idempotency_key: crate::ident::uuid_text(key),
            },
        }),
        ({
            let after = u.step(EventModel::Answered { status, body: Some(facts) });
            if status < 200 || status > 299 {
                after == (UploadModel {
                    stage: Stage::Failed { why: Failure::CreateRefused { status } },
                    ..u
                })
            } else {
                &&& facts.id is Some ==> after.node_id == facts.id->0
                &&& facts.id is None ==> after.node_id.len() == 0
                &&& after == (UploadModel {
                    node_id: after.node_id,
                    offset: 0,
                    stage: Stage::Open,
                    ..u
                })
            }
        }),
        u.step(EventModel::Answered { status, body: None }) == if status < 200 || status > 299 {
            UploadModel { stage: Stage::Failed { why: Failure::CreateRefused { status } }, ..u }
        } else {
            UploadModel { stage: Stage::Failed { why: Failure::CreatedUnreadable }, ..u }
        },
        u.step(EventModel::NoAnswer) == (UploadModel {
            stage: Stage::Failed { why: Failure::CreateFailed },
            ..u
        }),
{
}

/// How much is read for a part: all that is left, or as much as the part size
/// allows, whichever is less.
pub proof fn a_part_is_what_is_left_or_fits(total: u64, offset: u64, capacity: usize)
    ensures
        ({
            let n = crate::cli::upload::read_len(total, offset, capacity);
            &&& 0 <= n <= capacity
            &&& offset <= total ==> offset + n <= total
            &&& offset >= total ==> n == 0
            &&& offset < total ==> n == capacity || offset + n == total
        }),
{
}

/// The source is opened at the offset. Then a part is read, unless everything
/// is there; and where the part size allows nothing to be read, the upload
/// fails.
pub proof fn reading_starts_at_the_offset(u: UploadModel, key: Uuid)
    requires
        u.stage is Open,
    ensures
        u.action(key) == (ActionModel::Open { offset: u.offset }),
        u.step(EventModel::Opened) == if u.offset >= u.total {
            UploadModel { stage: Stage::Measure, ..u }
        } else if u.part_size as usize == 0 {
            UploadModel {
                stage: Stage::Failed { why: Failure::SourceEnded { offset: u.offset } },
                ..u
            }
        } else {
            UploadModel { filled: 0, stage: Stage::Read, ..u }
        },
        u.step(EventModel::CannotOpen) == (UploadModel {
            stage: Stage::Failed { why: Failure::CannotOpen },
            ..u
        }),
        u.step(EventModel::CannotSeek) == (UploadModel {
            stage: Stage::Failed { why: Failure::CannotSeek },
            ..u
        }),
{
}

/// A part is read up to its end: what was read is counted, and the part is
/// sent for the first time once it is full or the source ends. A source that
/// ends before the part begins fails the upload.
pub proof fn parts_are_read_until_they_are_full(u: UploadModel, count: usize, key: Uuid)
    requires
        u.wf(),
        u.stage is Read,
    ensures
        ({
            let left = u.total - u.offset;
            let end = if left <= u.part_size as usize {
                left
            } else {
                (u.part_size as usize) as int
            };
            let after = u.step(EventModel::Read { count });
            &&& u.action(key) == (ActionModel::Read { from: u.filled, to: end })
            &&& if u.filled + count > end {
                after == u
            } else if u.filled + count == 0 {
                after == (UploadModel {
                    stage: Stage::Failed { why: Failure::SourceEnded { offset: u.offset } },
                    ..u
                })
            } else if count == 0 || u.filled + count == end {
                &&& after.filled == u.filled + count
                &&& after == (UploadModel {
                    filled: after.filled,
                    attempt: 1,
                    stage: Stage::Send,
                    ..u
                })
            } else {
                &&& after.filled == u.filled + count
                &&& after == (UploadModel { filled: after.filled, ..u })
            }
        }),
        u.step(EventModel::CannotRead) == (UploadModel {
            stage: Stage::Failed { why: Failure::ReadFailed { offset: u.offset } },
            ..u
        }),
{
}

/// A part is sent to the node, with the offset and as many bytes as were read.
/// If the server takes it, the offset moves on by exactly that many, and the
/// next part is read or, with everything sent, the source is measured. If not,
/// the upload waits.
pub proof fn parts_are_sent_to_the_node(
    u: UploadModel,
    status: u16,
    body: Option<FactsModel>,
    key: Uuid,
)
    requires
        u.wf(),
        u.stage is Send,
    ensures
        u.action(key) == (ActionModel::Request {
            method: Method::Put,
            url: u.base + "/api/v1/nodes/"@ + u.node_id + "/data"@,
            query: QueryModel::Offset { offset: u.offset },
            body: BodyModel::Part { len: u.filled },
        }),
        ({
            let after = u.step(EventModel::Answered { status, body });
            if status < 200 || status > 299 {
                after == (UploadModel { stage: Stage::Wait, ..u })
            } else {
                &&& after.offset == u.offset + u.filled
                &&& if after.offset < u.total {
                    after == (UploadModel {
                        offset: after.offset,
                        filled: 0,
                        stage: Stage::Read,
                        ..u
                    })
                } else {
                    after == (UploadModel { offset: after.offset, stage: Stage::Measure, ..u })
                }
            }
        }),
        u.step(EventModel::NoAnswer) == (UploadModel { stage: Stage::Wait, ..u }),
{
}

/// After a part was not taken the upload waits five seconds for each time that
/// it was sent. Then it is sent again, unless that was the third time.
pub proof fn waiting_grows_and_ends(u: UploadModel, key: Uuid)
    requires
        u.wf(),
        u.stage is Wait,
    ensures
        u.action(key) == (ActionModel::Wait { seconds: 5 * u.attempt }),
        ({
            let after = u.step(EventModel::Waited);
            if u.attempt < 3 {
                &&& after.attempt == u.attempt + 1
                &&& after == (UploadModel { attempt: after.attempt, stage: Stage::Send, ..u })
            } else {
                after == (UploadModel {
                    stage: Stage::Failed { why: Failure::GaveUp { offset: u.offset } },
                    ..u
                })
            }
        }),
{
}

/// The source is measured; with the size that it had, the node is synced, and
/// with that done it is published under its own name in its directory; with
/// that done the upload is done. Anything else fails it.
pub proof fn the_end_is_measured_synced_and_published(
    u: UploadModel,
    size: u64,
    status: u16,
    body: Option<FactsModel>,
    key: Uuid,
)
    ensures
        u.stage is Measure ==> {
            &&& u.action(key) is Measure
            &&& u.step(EventModel::Measured { size }) == if size == u.total {
                UploadModel { stage: Stage::Sync, ..u }
            } else {
                UploadModel {
                    stage: Stage::Failed { why: Failure::SizeChanged { current: size } },
                    ..u
                }
            }
            &&& u.step(EventModel::CannotMeasure) == (UploadModel {
                stage: Stage::Failed { why: Failure::CannotMeasure },
                ..u
            })
        },
        u.stage is Sync ==> {
            &&& is_bare(
                u.action(key),
                Method::Post,
                u.base + "/api/v1/nodes/"@ + u.node_id + "/sync"@,
            )
            &&& u.step(EventModel::Answered { status, body }) == if 200 <= status <= 299 {
                UploadModel { stage: Stage::Publish, ..u }
            } else {
                UploadModel { stage: Stage::Failed { why: Failure::SyncRefused { status } }, ..u }
            }
            &&& u.step(EventModel::NoAnswer) == (UploadModel {
                stage: Stage::Failed { why: Failure::SyncFailed },
                ..u
            })
        },
        u.stage is Publish ==> {
            &&& u.action(key) == (ActionModel::Request {
                method: Method::Post,
                url: u.base + "/api/v1/nodes/"@ + u.node_id + "/publish"@,
                query: QueryModel::Nothing,
                body: BodyModel::Publication {
                    new_parent_id: u.root_id,
                    new_name: crate::cli::encoding::encoded_name(u.name),
                    idempotency_key: crate::ident::uuid_text(key),
                },
            })
            &&& u.step(EventModel::Answered { status, body }) == if 200 <= status <= 299 {
                UploadModel { stage: Stage::Done, ..u }
            } else {
                UploadModel {
                    stage: Stage::Failed { why: Failure::PublishRefused { status } },
                    ..u
                }
            }
            &&& u.step(EventModel::NoAnswer) == (UploadModel {
                stage: Stage::Failed { why: Failure::PublishFailed },
                ..u
            })
        },
        u.stage is Done ==> u.action(key) is Finish,
        u.stage matches Stage::Failed { why } ==> u.action(key) == (ActionModel::GiveUp { why }),
{
}

/// An event that does not answer what was to be done changes nothing.
pub proof fn events_out_of_turn_change_nothing(u: UploadModel, e: EventModel)
    ensures
        (e is Answered || e is NoAnswer) && (u.stage is Open || u.stage is Read || u.stage is Wait
            || u.stage is Measure || u.stage is Done || u.stage is Failed) ==> u.step(e) == u,
        (e is Opened || e is CannotOpen || e is CannotSeek) && !(u.stage is Open) ==> u.step(e)
            == u,
        (e is Read || e is CannotRead) && !(u.stage is Read) ==> u.step(e) == u,
        e is Waited && !(u.stage is Wait) ==> u.step(e) == u,
        (e is Measured || e is CannotMeasure) && !(u.stage is Measure) ==> u.step(e) == u,
{
}

/// What an answer says is looked at exactly where it can matter: the answer
/// about the part size and about the root always, that to a lookup and to the
/// making of the file if it succeeded, and no other.
pub proof fn answers_are_looked_at_where_they_matter(u: UploadModel, status: u16)
    ensures
        u.looks_at_answer(status) <==> u.stage is AskPartSize || u.stage is AskRoot || (
        u.stage is CheckFinal || u.stage is FindPartial || u.stage is Create) && 200 <= status
            && status <= 299,
{
}

/// Once the source is to be opened, the upload sticks to its node and its
/// directory: every part, the sync and the publication go to that node, and
/// the publication goes into that directory, whatever happens.
pub proof fn uploads_stick_to_their_node(u: UploadModel, events: Seq<EventModel>, key: Uuid)
    requires
        u.wf(),
        u.stage is Open,
    ensures
        ({
            let now = super::upload::run(u, events);
            &&& now.node_id == u.node_id
            &&& now.root_id == u.root_id
            &&& now.part_size == u.part_size
            &&& now.stage is Send ==> now.action(key) == (ActionModel::Request {
                method: Method::Put,
                url: u.base + "/api/v1/nodes/"@ + u.node_id + "/data"@,
                query: QueryModel::Offset { offset: now.offset },
                body: BodyModel::Part { len: now.filled },
            })
            &&& now.stage is Sync ==> is_bare(
                now.action(key),
                Method::Post,
                u.base + "/api/v1/nodes/"@ + u.node_id + "/sync"@,
            )
            &&& now.stage is Publish ==> now.action(key) == (ActionModel::Request {
                method: Method::Post,
                url: u.base + "/api/v1/nodes/"@ + u.node_id + "/publish"@,
                query: QueryModel::Nothing,
                body: BodyModel::Publication {
                    new_parent_id: u.root_id,
                    new_name: crate::cli::encoding::encoded_name(u.name),
                    idempotency_key: crate::ident::uuid_text(key),
                },
            })
        }),
{
    super::upload::uploads_stay_sound(u, events);
    lemma_sticks(u, events);
}

proof fn lemma_sticks(u: UploadModel, events: Seq<EventModel>)
    requires
        u.wf(),
        u.stage is Open,
    ensures
        ({
            let now = super::upload::run(u, events);
            &&& now.node_id == u.node_id
            &&& now.root_id == u.root_id
            &&& now.part_size == u.part_size
            &&& !(now.stage is AskPartSize) && !(now.stage is CheckFinal)
            &&& !(now.stage is FindPartial) && !(now.stage is AskRoot) && !(now.stage is Create)
        }),
    decreases events.len(),
{
    if events.len() > 0 {
        lemma_sticks(u, events.drop_last());
    }
}

/// A partial upload that is carried on with is carried on with to the end:
/// parts, sync and publication go to the node that the server named, and the
/// publication goes into the directory that the server named for it.
pub proof fn resumed_uploads_go_to_the_node_that_was_found(
    u: UploadModel,
    status: u16,
    facts: FactsModel,
    events: Seq<EventModel>,
    key: Uuid,
)
    requires
        u.wf(),
        u.stage is FindPartial,
        u.resume,
        200 <= status <= 299,
        facts.id is Some,
        facts.parent_id is Some,
        facts.size is Some,
        facts.size->0 <= u.total,
    ensures
        ({
            let found = u.step(EventModel::Answered { status, body: Some(facts) });
            let now = super::upload::run(found, events);
            let node = u.base + "/api/v1/nodes/"@ + facts.id->0;
            &&& found.offset == facts.size->0
            &&& now.stage is Send ==> (now.action(key) matches ActionModel::Request { url, .. }
                && url == node + "/data"@)
            &&& now.stage is Sync ==> (now.action(key) matches ActionModel::Request { url, .. }
                && url == node + "/sync"@)
            &&& now.stage is Publish ==> {
                &&& now.action(key) matches ActionModel::Request { url, body, .. }
                &&& url == node + "/publish"@
                &&& body matches BodyModel::Publication { new_parent_id, .. }
                &&& new_parent_id == facts.parent_id->0
            }
        }),
{
    let found = u.step(EventModel::Answered { status, body: Some(facts) });
    partial_uploads_are_taken_over(u, status, facts, key);
    assert(found.wf());
    uploads_stick_to_their_node(found, events, key);
}

/// A file that is made is uploaded to the end: parts, sync and publication go
/// to the node that the server made, and both making and publication go into
/// the root that the server named.
pub proof fn new_uploads_go_to_the_node_that_was_made(
    u: UploadModel,
    root_status: u16,
    root: FactsModel,
    status: u16,
    facts: FactsModel,
    events: Seq<EventModel>,
    key: Uuid,
)
    requires
        u.wf(),
        u.stage is AskRoot,
        200 <= status <= 299,
        root.id is Some,
        facts.id is Some,
    ensures
        ({
            let asked = u.step(EventModel::Answered { status: root_status, body: Some(root) });
            let made = asked.step(EventModel::Answered { status, body: Some(facts) });
            let now = super::upload::run(made, events);
            let node = u.base + "/api/v1/nodes/"@ + facts.id->0;
            &&& asked.action(key) matches ActionModel::Request { body: BodyModel::NewFile {
                parent_id,
                ..
            }, .. }
            &&& parent_id == root.id->0
            &&& made.offset == 0
            &&& now.stage is Send ==> (now.action(key) matches ActionModel::Request { url, .. }
                && url == node + "/data"@)
            &&& now.stage is Sync ==> (now.action(key) matches ActionModel::Request { url, .. }
                && url == node + "/sync"@)
            &&& now.stage is Publish ==> {
                &&& now.action(key) matches ActionModel::Request { url, body, .. }
                &&& url == node + "/publish"@
                &&& body matches BodyModel::Publication { new_parent_id, .. }
                &&& new_parent_id == root.id->0
            }
        }),
{
    let asked = u.step(EventModel::Answered { status: root_status, body: Some(root) });
    let made = asked.step(EventModel::Answered { status, body: Some(facts) });
    servers_tell_the_root(u, root_status, root, key);
    files_are_made_in_the_root(asked, status, facts, key);
    assert(asked.wf());
    assert(made.wf());
    uploads_stick_to_their_node(made, events, key);
}

/// While it is uploaded a file has a dot before its name and
/// ".dcfs-uploading" behind it.
pub proof fn hidden_names_wrap_the_name(name: Seq<char>)
    ensures
        crate::cli::upload::hidden(name) == seq!['.'] + name + seq![
            '.',
            'd',
            'c',
            'f',
            's',
            '-',
            'u',
            'p',
            'l',
            'o',
            'a',
            'd',
            'i',
            'n',
            'g',
        ],
{
    reveal_strlit(".");
    reveal_strlit(".dcfs-uploading");
    assert("."@ =~= seq!['.']);
    assert(".dcfs-uploading"@ =~= seq![
        '.',
        'd',
        'c',
        'f',
        's',
        '-',
        'u',
        'p',
        'l',
        'o',
        'a',
        'd',
        'i',
        'n',
        'g',
    ]);
}

/// A name can be sent exactly if neither it nor its hidden form, at four
/// digits for three bytes, is too large for memory.
pub proof fn names_that_fit_can_be_sent(name: Seq<char>)
    ensures
        crate::cli::upload::can_be_sent(name) <==> ({
            let hidden = "."@ + name + ".dcfs-uploading"@;
            &&& (4 * vstd::utf8::encode_utf8(name).len() + 2) / 3 <= isize::MAX
            &&& (4 * vstd::utf8::encode_utf8(hidden).len() + 2) / 3 <= isize::MAX
        }),
{
}

} // verus!
