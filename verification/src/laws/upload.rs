//! What holds of an upload, whatever the server, the source and the clock do.

use crate::cli::upload::{
    ActionModel, BodyModel, EventModel, FactsModel, Failure, QueryModel, Stage, UploadModel,
};
use crate::ident::Uuid;
use vstd::prelude::*;

verus! {

/// Where an upload stands after a series of events.
pub open spec fn run(u: UploadModel, events: Seq<EventModel>) -> UploadModel
    decreases events.len(),
{
    if events.len() == 0 {
        u
    } else {
        run(u, events.drop_last()).step(events.last())
    }
}

/// The server did what was asked.
pub open spec fn is_success(event: EventModel) -> bool {
    event matches EventModel::Answered { status, body }
        && crate::cli::http::is_success_status(status)
}

/// The upload is over.
pub open spec fn is_over(u: UploadModel) -> bool {
    u.stage is Done || u.stage is Failed
}

/// A piece of the file.
pub struct Part {
    pub offset: int,
    pub len: int,
}

/// The parts that the server took, in the order in which it took them.
pub open spec fn taken(u: UploadModel, events: Seq<EventModel>) -> Seq<Part>
    decreases events.len(),
{
    if events.len() == 0 {
        Seq::empty()
    } else {
        let earlier = taken(u, events.drop_last());
        let now = run(u, events.drop_last());
        if now.stage is Send && is_success(events.last()) {
            earlier.push(Part { offset: now.offset as int, len: now.filled as int })
        } else {
            earlier
        }
    }
}

/// The parts are not empty, and each starts where the one before it ends: the
/// first at `from`, the last ending at `to`.
pub open spec fn tiles(parts: Seq<Part>, from: int, to: int) -> bool {
    &&& forall|i: int| 0 <= i < parts.len() ==> (#[trigger] parts[i]).len > 0
    &&& forall|i: int|
        0 <= i < parts.len() ==> (#[trigger] parts[i]).offset == if i == 0 {
            from
        } else {
            parts[i - 1].offset + parts[i - 1].len
        }
    &&& to == if parts.len() == 0 {
        from
    } else {
        parts.last().offset + parts.last().len
    }
}

/// An upload stays sound, whatever happens, and keeps to what it was asked
/// for.
pub proof fn uploads_stay_sound(u: UploadModel, events: Seq<EventModel>)
    requires
        u.wf(),
    ensures
        run(u, events).wf(),
        run(u, events).base == u.base,
        run(u, events).name == u.name,
        run(u, events).total == u.total,
        run(u, events).resume == u.resume,
    decreases events.len(),
{
    if events.len() > 0 {
        uploads_stay_sound(u, events.drop_last());
    }
}

/// An upload that is over stays as it is.
pub proof fn ended_uploads_stay_ended(u: UploadModel, events: Seq<EventModel>)
    requires
        is_over(u),
    ensures
        run(u, events) == u,
    decreases events.len(),
{
    if events.len() > 0 {
        ended_uploads_stay_ended(u, events.drop_last());
    }
}

/// Where the final name is taken the upload fails at once, and for good: a
/// published file is never overwritten.
pub proof fn published_files_are_never_overwritten(
    u: UploadModel,
    answer: EventModel,
    later: Seq<EventModel>,
)
    requires
        u.stage is CheckFinal,
        is_success(answer),
    ensures
        run(u.step(answer), later).stage is Failed,
{
    ended_uploads_stay_ended(u.step(answer), later);
}

/// A partial upload is carried on with only if that was asked for and it is no
/// larger than the source, and then from where it ends.
pub proof fn partial_uploads_are_resumed_where_they_end(
    u: UploadModel,
    status: u16,
    facts: FactsModel,
)
    requires
        u.stage is FindPartial,
        crate::cli::http::is_success_status(status),
    ensures
        ({
            let size = crate::cli::upload::size_or_zero(facts.size);
            let after = u.step(EventModel::Answered { status, body: Some(facts) });
            &&& after.stage is Open <==> u.resume && size <= u.total
            &&& after.stage is Open ==> after.offset == size
            &&& !(after.stage is Open) ==> after.stage is Failed
            &&& u.resume && size > u.total ==> after.stage == (Stage::Failed {
                why: Failure::PartialTooLarge { remote_size: size },
            })
            &&& !u.resume ==> after.stage == (Stage::Failed {
                why: Failure::PartialExists { size },
            })
        }),
{
}

/// Reading never goes past the size that the source had, nor past the part
/// size.
pub proof fn reads_stay_within_the_source(u: UploadModel, key: Uuid)
    requires
        u.wf(),
        u.stage is Read,
    ensures
        u.action(key) matches ActionModel::Read { from, to } && from < to && u.offset + to
            <= u.total && to <= u.part_size as usize,
{
}

/// What is sent goes where the server's data ends, and never past the size
/// that the source had.
pub proof fn parts_go_where_the_data_ends(u: UploadModel, key: Uuid)
    requires
        u.wf(),
        u.stage is Send,
    ensures
        ({
            &&& u.action(key) matches ActionModel::Request { method, url, query, body }
            &&& query == (QueryModel::Offset { offset: u.offset })
            &&& body matches BodyModel::Part { len }
            &&& 0 < len
            &&& u.offset + len <= u.total
        }),
{
}

/// The parts that a server took follow each other without gap or overlap from
/// where the upload started: no part is taken twice, and nothing starts over.
pub proof fn parts_follow_each_other(u: UploadModel, events: Seq<EventModel>)
    requires
        u.wf(),
        u.stage is Open,
    ensures
        tiles(taken(u, events), u.offset as int, run(u, events).offset as int),
        run(u, events).offset <= u.total,
    decreases events.len(),
{
    lemma_open_uploads_do_not_look_back(u, events);
    if events.len() > 0 {
        let rest = events.drop_last();
        parts_follow_each_other(u, rest);
        lemma_open_uploads_do_not_look_back(u, rest);
        uploads_stay_sound(u, rest);
        let now = run(u, rest);
        lemma_offset_moves_with_the_parts(now, events.last());
        if now.stage is Send && is_success(events.last()) {
            lemma_one_more_tile(
                taken(u, rest),
                u.offset as int,
                now.offset as int,
                Part { offset: now.offset as int, len: now.filled as int },
            );
        }
    }
}

/// A published file is complete: the parts that the server took reach from
/// where the upload started to the end of the source.
pub proof fn published_files_are_complete(u: UploadModel, events: Seq<EventModel>)
    requires
        u.wf(),
        u.stage is Open,
        run(u, events).stage is Done,
    ensures
        tiles(taken(u, events), u.offset as int, u.total as int),
{
    parts_follow_each_other(u, events);
    uploads_stay_sound(u, events);
}

/// A file is published last: first the source was measured once more and still
/// had its size, then the server made everything durable, and only then did
/// the file get its name.
pub proof fn publishing_comes_last(
    base: Seq<char>,
    name: Seq<char>,
    total: u64,
    resume: bool,
    events: Seq<EventModel>,
)
    requires
        crate::cli::upload::can_be_sent(name),
        run(UploadModel::fresh(base, name, total, resume), events).stage is Done,
    ensures
        ({
            let u = UploadModel::fresh(base, name, total, resume);
            exists|i: int, j: int, k: int|
                #![trigger measured_at(u, events, i), synced_at(u, events, j), published_at(u, events, k)]
                0 <= i < j < k < events.len() && measured_at(u, events, i) && synced_at(
                    u,
                    events,
                    j,
                ) && published_at(u, events, k)
        }),
{
    let u = UploadModel::fresh(base, name, total, resume);
    let k = lemma_done_was_published(u, events);
    let j = lemma_publishing_was_synced(u, events.take(k));
    let i = lemma_syncing_was_measured(u, events.take(k).take(j));
    lemma_prefix(events, k, j);
    lemma_prefix(events, k, i);
    lemma_prefix(events.take(k), j, i);
    assert(measured_at(u, events, i));
    assert(synced_at(u, events, j));
}

/// A file is asked to be published only once the source was measured with the
/// size that it had and, after that, the server made everything durable. What
/// becomes of that request does not matter.
pub proof fn publishing_is_asked_for_last(
    base: Seq<char>,
    name: Seq<char>,
    total: u64,
    resume: bool,
    events: Seq<EventModel>,
)
    requires
        crate::cli::upload::can_be_sent(name),
        run(UploadModel::fresh(base, name, total, resume), events).stage is Publish,
    ensures
        ({
            let u = UploadModel::fresh(base, name, total, resume);
            exists|i: int, j: int|
                #![trigger measured_at(u, events, i), synced_at(u, events, j)]
                0 <= i < j < events.len() && measured_at(u, events, i) && synced_at(u, events, j)
        }),
{
    let u = UploadModel::fresh(base, name, total, resume);
    let j = lemma_publishing_was_synced(u, events);
    let i = lemma_syncing_was_measured(u, events.take(j));
    lemma_prefix(events, j, i);
    assert(measured_at(u, events, i));
}

/// Event `i` says that the source still has the size that it had, at a time
/// when the server has everything.
pub open spec fn measured_at(u: UploadModel, events: Seq<EventModel>, i: int) -> bool {
    let now = run(u, events.take(i));
    now.stage is Measure && now.offset == u.total && events[i] == (EventModel::Measured {
        size: u.total,
    })
}

/// Event `i` says that the server made everything durable.
pub open spec fn synced_at(u: UploadModel, events: Seq<EventModel>, i: int) -> bool {
    run(u, events.take(i)).stage is Sync && is_success(events[i])
}

/// Event `i` says that the server gave the file its final name.
pub open spec fn published_at(u: UploadModel, events: Seq<EventModel>, i: int) -> bool {
    run(u, events.take(i)).stage is Publish && is_success(events[i])
}

/// A part that the server does not take is sent three times, with five, ten
/// and fifteen seconds in between and after; then the upload gives up where it
/// is.
pub proof fn a_part_is_sent_at_most_three_times(
    u: UploadModel,
    first: EventModel,
    second: EventModel,
    third: EventModel,
    key: Uuid,
)
    requires
        u.wf(),
        u.stage is Send,
        u.attempt == 1,
        first is NoAnswer || first is Answered && !is_success(first),
        second is NoAnswer || second is Answered && !is_success(second),
        third is NoAnswer || third is Answered && !is_success(third),
    ensures
        ({
            let again = u.step(first).step(EventModel::Waited);
            let once_more = again.step(second).step(EventModel::Waited);
            let over = once_more.step(third).step(EventModel::Waited);
            &&& again.stage is Send && again.action(key) == u.action(key)
            &&& once_more.stage is Send && once_more.action(key) == u.action(key)
            &&& over.stage == (Stage::Failed { why: Failure::GaveUp { offset: u.offset } })
            &&& u.step(first).action(key) == (ActionModel::Wait { seconds: 5 })
            &&& again.step(second).action(key) == (ActionModel::Wait { seconds: 10 })
            &&& once_more.step(third).action(key) == (ActionModel::Wait { seconds: 15 })
        }),
{
}

/// A source that ends early is never published, and neither is one that has
/// another size in the end: only the size that it had when the upload started
/// will do.
pub proof fn changed_sources_are_not_published(
    u: UploadModel,
    size: u64,
    later: Seq<EventModel>,
)
    ensures
        u.stage is Read && u.filled == 0 ==> run(
            u.step(EventModel::Read { count: 0 }),
            later,
        ).stage == (Stage::Failed { why: Failure::SourceEnded { offset: u.offset } }),
        u.stage is Measure && size != u.total ==> run(
            u.step(EventModel::Measured { size }),
            later,
        ).stage == (Stage::Failed { why: Failure::SizeChanged { current: size } }),
{
    if u.stage is Read && u.filled == 0 {
        ended_uploads_stay_ended(u.step(EventModel::Read { count: 0 }), later);
    }
    if u.stage is Measure && size != u.total {
        ended_uploads_stay_ended(u.step(EventModel::Measured { size }), later);
    }
}

/// While it is uploaded a file has a name of its own: it is never the final
/// name, and different files have different ones.
pub proof fn hidden_names_are_their_own(name: Seq<char>, other: Seq<char>)
    ensures
        crate::cli::upload::hidden(name) != name,
        crate::cli::upload::hidden(name) == crate::cli::upload::hidden(other) ==> name == other,
        crate::cli::upload::hidden(name).len() > 0,
        crate::cli::upload::hidden(name)[0] == '.',
{
    reveal_strlit(".");
    reveal_strlit(".dcfs-uploading");
    let h = crate::cli::upload::hidden(name);
    let o = crate::cli::upload::hidden(other);
    assert(h.len() == name.len() + 16);
    if h == o {
        assert(o.len() == other.len() + 16);
        assert forall|i: int| 0 <= i < name.len() implies name[i] == other[i] by {
            assert(h[i + 1] == name[i]);
            assert(o[i + 1] == other[i]);
        }
        assert(name =~= other);
    }
}

/// A file is made under another name than the one that it is published under.
pub proof fn files_are_made_under_another_name(u: UploadModel, key: Uuid)
    requires
        u.stage is Create,
    ensures
        ({
            &&& u.action(key) matches ActionModel::Request { method, url, query, body }
            &&& body matches BodyModel::NewFile { name, .. }
            &&& name != crate::cli::encoding::encoded_name(u.name)
        }),
{
    hidden_names_are_their_own(u.name, u.name);
    let h = crate::cli::upload::hidden(u.name);
    if crate::cli::encoding::encoded_name(h) == crate::cli::encoding::encoded_name(u.name) {
        crate::cli::encoding::encoding_loses_nothing(h, u.name);
    }
}

/// The upload is past looking for a place to start.
spec fn is_under_way(u: UploadModel) -> bool {
    match u.stage {
        Stage::AskPartSize
        | Stage::CheckFinal
        | Stage::FindPartial
        | Stage::AskRoot
        | Stage::Create => false,
        _ => true,
    }
}

proof fn lemma_open_uploads_do_not_look_back(u: UploadModel, events: Seq<EventModel>)
    requires
        u.wf(),
        is_under_way(u),
        u.offset <= u.total,
    ensures
        is_under_way(run(u, events)),
        run(u, events).offset <= u.total,
    decreases events.len(),
{
    uploads_stay_sound(u, events);
    if events.len() > 0 {
        lemma_open_uploads_do_not_look_back(u, events.drop_last());
        uploads_stay_sound(u, events.drop_last());
    }
}

proof fn lemma_offset_moves_with_the_parts(u: UploadModel, event: EventModel)
    requires
        u.wf(),
        is_under_way(u),
    ensures
        u.step(event).offset == if u.stage is Send && is_success(event) {
            u.offset + u.filled
        } else {
            u.offset as int
        },
{
}

proof fn lemma_one_more_tile(parts: Seq<Part>, from: int, to: int, next: Part)
    requires
        tiles(parts, from, to),
        next.offset == to,
        next.len > 0,
    ensures
        tiles(parts.push(next), from, to + next.len),
{
    let more = parts.push(next);
    assert forall|i: int| 0 <= i < more.len() implies (#[trigger] more[i]).offset == if i == 0 {
        from
    } else {
        more[i - 1].offset + more[i - 1].len
    } by {
        if i < parts.len() {
            assert(more[i] == parts[i]);
        }
        if 0 < i {
            assert(more[i - 1] == parts[i - 1]);
        }
    }
    assert forall|i: int| 0 <= i < more.len() implies (#[trigger] more[i]).len > 0 by {
        if i < parts.len() {
            assert(more[i] == parts[i]);
        }
    }
}

proof fn lemma_done_was_published(u: UploadModel, events: Seq<EventModel>) -> (k: int)
    requires
        !(u.stage is Done),
        run(u, events).stage is Done,
    ensures
        0 <= k < events.len(),
        published_at(u, events, k),
    decreases events.len(),
{
    let rest = events.drop_last();
    assert(rest =~= events.take(events.len() - 1));
    if run(u, rest).stage is Done {
        let k = lemma_done_was_published(u, rest);
        assert(rest.take(k) =~= events.take(k));
        k
    } else {
        events.len() - 1
    }
}

proof fn lemma_publishing_was_synced(u: UploadModel, events: Seq<EventModel>) -> (j: int)
    requires
        !(u.stage is Publish),
        run(u, events).stage is Publish,
    ensures
        0 <= j < events.len(),
        synced_at(u, events, j),
    decreases events.len(),
{
    let rest = events.drop_last();
    assert(rest =~= events.take(events.len() - 1));
    if run(u, rest).stage is Publish {
        let j = lemma_publishing_was_synced(u, rest);
        assert(rest.take(j) =~= events.take(j));
        j
    } else {
        events.len() - 1
    }
}

proof fn lemma_syncing_was_measured(u: UploadModel, events: Seq<EventModel>) -> (i: int)
    requires
        u.wf(),
        !(u.stage is Sync),
        run(u, events).stage is Sync,
    ensures
        0 <= i < events.len(),
        measured_at(u, events, i),
    decreases events.len(),
{
    let rest = events.drop_last();
    assert(rest =~= events.take(events.len() - 1));
    uploads_stay_sound(u, rest);
    if run(u, rest).stage is Sync {
        let i = lemma_syncing_was_measured(u, rest);
        assert(rest.take(i) =~= events.take(i));
        i
    } else {
        events.len() - 1
    }
}

proof fn lemma_prefix(events: Seq<EventModel>, n: int, m: int)
    requires
        0 <= m < n <= events.len(),
    ensures
        events.take(n).take(m) == events.take(m),
        events.take(n)[m] == events[m],
{
    assert(events.take(n).take(m) =~= events.take(m));
}

} // verus!
