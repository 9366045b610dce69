//! What holds of garbage collection: it offers all garbage, and never
//! anything that a file or an upload still needs.

use crate::clock::Timestamp;
use crate::ident::Uuid;
use crate::model::RepositoryModel;
use crate::records::ChunkModel;
use vstd::prelude::*;

verus! {

/// A walk over all manifests offers each object that may be deleted once, and
/// no other object.
pub proof fn collection_offers_exactly_the_garbage(
    repo: RepositoryModel,
    order: Seq<Uuid>,
    older_than: Timestamp,
)
    requires
        repo.wf(),
        crate::table::enumerates(order, repo.chunks.dom()),
    ensures
        repo.collectable_in(order, older_than).no_duplicates(),
        forall|object: Uuid| #[trigger]
            repo.collectable_in(order, older_than).contains(object) <==> repo.is_collectable(
                object,
                older_than,
            ),
{
    lemma_collectable_in(repo, order, older_than);
    assert forall|object: Uuid| #[trigger]
        repo.collectable_in(order, older_than).contains(object) <==> repo.is_collectable(
            object,
            older_than,
        ) by {
        if repo.is_collectable(object, older_than) {
            let v = choose|v: Uuid| #[trigger]
                repo.is_dead(v, older_than) && repo.refers(v, object);
            assert(order.to_set().contains(v));
            assert(offered_by(repo, order, v, object, older_than));
        }
        if repo.collectable_in(order, older_than).contains(object) {
            let v = choose|v: Uuid| offered_by(repo, order, v, object, older_than);
            assert(repo.is_dead(v, older_than) && repo.refers(v, object));
        }
    }
}

/// A request for a limited number takes the first of them, all if there are
/// not more, and at least one if there is any.
pub proof fn limited_collection_takes_the_first(s: Seq<Uuid>, limit: i64)
    ensures
        crate::repository::gc::capped(s, limit).is_prefix_of(s),
        s.len() <= limit ==> crate::repository::gc::capped(s, limit) == s,
        1 <= limit < s.len() ==> crate::repository::gc::capped(s, limit).len() == limit,
        limit < 1 && s.len() > 0 ==> crate::repository::gc::capped(s, limit).len() == 1,
{
    let c = crate::repository::gc::capped(s, limit);
    assert(c =~= s.take(c.len() as int));
}

/// What the current version of a file refers to is never offered.
pub proof fn current_contents_are_never_offered(
    repo: RepositoryModel,
    v: Uuid,
    object: Uuid,
    older_than: Timestamp,
)
    requires
        repo.is_current(v),
        repo.refers(v, object),
    ensures
        !repo.is_collectable(object, older_than),
{
    assert(repo.is_live(v, older_than));
}

/// What an upload refers to is not offered as long as the upload moved since
/// `older_than`: noting its progress keeps it alive.
pub proof fn moving_uploads_are_never_offered(
    repo: RepositoryModel,
    v: Uuid,
    size: i64,
    now: Timestamp,
    object: Uuid,
    older_than: Timestamp,
)
    requires
        repo.versions.contains_key(v),
        crate::model::is_staging(repo.versions[v]),
        repo.refers(v, object),
        !now.before(older_than),
    ensures
        !repo.touch_staging_version(v, size, now).is_collectable(object, older_than),
{
    let after = repo.touch_staging_version(v, size, now);
    assert(after.is_live(v, older_than));
    assert(after.refers(v, object));
}

/// An upload that did not move since `older_than` protects nothing: what only
/// it refers to is offered.
pub proof fn abandoned_uploads_are_offered(
    repo: RepositoryModel,
    v: Uuid,
    object: Uuid,
    older_than: Timestamp,
)
    requires
        repo.wf(),
        repo.versions.contains_key(v),
        crate::model::is_staging(repo.versions[v]),
        repo.versions[v].committed_at is None,
        repo.versions[v].created_at.before(older_than),
        !repo.is_current(v),
        repo.refers(v, object),
        forall|w: Uuid| w != v ==> !#[trigger] repo.refers(w, object),
    ensures
        repo.is_collectable(object, older_than),
{
    assert(repo.is_dead(v, older_than));
    assert(!repo.is_protected(object, older_than));
}

/// Once a node is deleted, what only its contents refer to is offered.
pub proof fn contents_of_deleted_nodes_are_offered(
    repo: RepositoryModel,
    v: Uuid,
    object: Uuid,
    older_than: Timestamp,
)
    requires
        repo.wf(),
        repo.is_current(v),
        !crate::model::is_staging(repo.versions[v]),
        crate::model::settled_at(repo.versions[v]).before(older_than),
        repo.refers(v, object),
        forall|w: Uuid| w != v ==> !#[trigger] repo.refers(w, object),
    ensures
        repo.delete_node(repo.versions[v].node_id).0.is_collectable(object, older_than),
{
    let after = repo.delete_node(repo.versions[v].node_id).0;
    assert(after.is_dead(v, older_than));
    assert(after.refers(v, object));
    assert(!after.is_protected(object, older_than)) by {
        if after.is_protected(object, older_than) {
            let w = choose|w: Uuid| #[trigger]
                after.is_live(w, older_than) && after.refers(w, object);
            assert(repo.refers(w, object));
        }
    }
}

/// After an object was forgotten nothing refers to it, it is not offered
/// again, and forgetting it once more drops nothing.
pub proof fn forgotten_object_is_not_offered_again(
    repo: RepositoryModel,
    object: Uuid,
    older_than: Timestamp,
)
    ensures
        ({
            let after = repo.forget_object(object);
            &&& forall|v: Uuid| !#[trigger] after.refers(v, object)
            &&& !after.is_collectable(object, older_than)
            &&& after.references(object) == Set::<(Uuid, i64)>::empty()
            &&& after.forget_object(object) == after
        }),
{
    let after = repo.forget_object(object);
    assert(after.references(object) =~= Set::<(Uuid, i64)>::empty());
    let again = after.forget_object(object);
    assert forall|v: Uuid| after.chunks.contains_key(v) implies again.chunks[v]
        == after.chunks[v] by {
        assert(again.chunks[v] =~= after.chunks[v]);
    }
    assert(again.chunks =~= after.chunks);
}

/// Forgetting an object leaves every other one as it was: who refers to it,
/// and whether it is offered.
pub proof fn forgetting_concerns_one_object(
    repo: RepositoryModel,
    object: Uuid,
    other: Uuid,
    older_than: Timestamp,
)
    requires
        object != other,
    ensures
        ({
            let after = repo.forget_object(object);
            &&& after.references(other) == repo.references(other)
            &&& forall|v: Uuid| #[trigger] after.refers(v, other) == repo.refers(v, other)
            &&& after.is_collectable(other, older_than) == repo.is_collectable(other, older_than)
        }),
{
    let after = repo.forget_object(object);
    assert(after.references(other) =~= repo.references(other));
    assert forall|v: Uuid| #[trigger] after.refers(v, other) == repo.refers(v, other) by {
        if repo.refers(v, other) {
            let i = choose|i: i64| #[trigger]
                repo.chunks[v].contains_key(i) && repo.chunks[v][i].object_id == other;
            assert(after.chunks[v].contains_key(i) && after.chunks[v][i].object_id == other);
        }
        if after.refers(v, other) {
            let i = choose|i: i64| #[trigger]
                after.chunks[v].contains_key(i) && after.chunks[v][i].object_id == other;
            assert(repo.chunks[v].contains_key(i) && repo.chunks[v][i].object_id == other);
        }
    }
    assert forall|v: Uuid| after.is_live(v, older_than) == repo.is_live(v, older_than) by {}
    assert forall|v: Uuid| after.is_dead(v, older_than) == repo.is_dead(v, older_than) by {}
    if repo.is_protected(other, older_than) {
        let v = choose|v: Uuid| #[trigger] repo.is_live(v, older_than) && repo.refers(v, other);
        assert(after.is_live(v, older_than) && after.refers(v, other));
    }
    if after.is_protected(other, older_than) {
        let v = choose|v: Uuid| #[trigger] after.is_live(v, older_than) && after.refers(v, other);
        assert(repo.is_live(v, older_than) && repo.refers(v, other));
    }
    if repo.is_collectable(other, older_than) {
        let v = choose|v: Uuid| #[trigger] repo.is_dead(v, older_than) && repo.refers(v, other);
        assert(after.is_dead(v, older_than) && after.refers(v, other));
    }
    if after.is_collectable(other, older_than) {
        let v = choose|v: Uuid| #[trigger] after.is_dead(v, older_than) && after.refers(v, other);
        assert(repo.is_dead(v, older_than) && repo.refers(v, other));
    }
}

/// Forgetting an object that was offered takes no chunk from the current
/// contents of any file, nor from any upload that is under way.
pub proof fn forgetting_garbage_spares_live_contents(
    repo: RepositoryModel,
    object: Uuid,
    older_than: Timestamp,
    v: Uuid,
)
    requires
        repo.is_collectable(object, older_than),
        repo.is_live(v, older_than),
    ensures
        repo.forget_object(object).manifest(v) == repo.manifest(v),
{
    assert(!repo.refers(v, object));
    if repo.chunks.contains_key(v) {
        assert forall|i: i64| repo.chunks[v].contains_key(i) implies repo.chunks[v][i].object_id
            != object by {}
        assert(crate::manifest::without_object(repo.chunks[v], object) =~= repo.chunks[v]);
    }
}

/// A purge removes exactly the versions that are neither current nor recent
/// and have no chunks; every other version keeps its chunks, and no node
/// changes.
pub proof fn purge_spares_what_is_in_use(repo: RepositoryModel, older_than: Timestamp, v: Uuid)
    requires
        repo.versions.contains_key(v),
    ensures
        ({
            let after = repo.purge_empty_dead_versions(older_than);
            &&& after.nodes == repo.nodes
            &&& after.versions.contains_key(v) <==> !repo.is_empty_and_dead(v, older_than)
            &&& repo.is_current(v) ==> after.is_current(v)
            &&& after.versions.contains_key(v) ==> after.versions[v] == repo.versions[v]
                && after.manifest(v) == repo.manifest(v)
        }),
{
}

/// A second purge finds nothing to remove.
pub proof fn purging_twice_is_purging_once(repo: RepositoryModel, older_than: Timestamp)
    ensures
        ({
            let after = repo.purge_empty_dead_versions(older_than);
            &&& after.doomed(older_than) == Set::<Uuid>::empty()
            &&& after.purge_empty_dead_versions(older_than) == after
        }),
{
    let after = repo.purge_empty_dead_versions(older_than);
    assert forall|v: Uuid| !#[trigger] after.is_empty_and_dead(v, older_than) by {
        if after.is_empty_and_dead(v, older_than) {
            assert(repo.versions.contains_key(v));
            assert(repo.is_empty_and_dead(v, older_than));
        }
    }
    assert(after.doomed(older_than) =~= Set::<Uuid>::empty());
    let again = after.purge_empty_dead_versions(older_than);
    assert(again.versions =~= after.versions);
    assert(again.chunks =~= after.chunks);
}

/// A dead version goes with the last object that it refers to: once that is
/// forgotten, a purge removes the version.
pub proof fn emptied_dead_versions_are_purged(
    repo: RepositoryModel,
    v: Uuid,
    object: Uuid,
    older_than: Timestamp,
)
    requires
        repo.is_dead(v, older_than),
        forall|i: i64| #[trigger]
            repo.chunks[v].contains_key(i) ==> repo.chunks[v][i].object_id == object,
    ensures
        ({
            let after = repo.forget_object(object).purge_empty_dead_versions(older_than);
            !after.versions.contains_key(v) && !after.chunks.contains_key(v)
        }),
{
    let emptied = repo.forget_object(object);
    assert(emptied.chunks[v] =~= Map::<i64, ChunkModel>::empty());
    assert(emptied.is_empty_and_dead(v, older_than));
}

/// `a` is an earlier time than `b`.
pub open spec fn is_earlier(a: Timestamp, b: Timestamp) -> bool {
    a.secs < b.secs || a.secs == b.secs && a.nanos < b.nanos
}

/// The version `v` is in use: its node is there and shows it, or it is being
/// written and was touched no earlier than `since`.
pub open spec fn in_use(repo: RepositoryModel, v: Uuid, since: Timestamp) -> bool {
    repo.versions.dom().contains(v) && {
        let w = repo.versions[v];
        ||| repo.nodes.dom().contains(w.node_id) && repo.nodes[w.node_id].current_version_id
            == Some(v)
        ||| w.state == "staging"@ && !is_earlier(w.created_at, since)
    }
}

/// The version `v` was committed earlier than `since`, or opened earlier if it
/// never was committed.
pub open spec fn is_old(repo: RepositoryModel, v: Uuid, since: Timestamp) -> bool {
    repo.versions.dom().contains(v) && match repo.versions[v].committed_at {
        Some(at) => is_earlier(at, since),
        None => is_earlier(repo.versions[v].created_at, since),
    }
}

/// The chunk of the version `v` at the index `i` is in `object`.
pub open spec fn stands_in(repo: RepositoryModel, v: Uuid, i: i64, object: Uuid) -> bool {
    repo.chunks.dom().contains(v) && repo.chunks[v].dom().contains(i)
        && repo.chunks[v][i].object_id == object
}

proof fn lemma_words(repo: RepositoryModel, v: Uuid, object: Uuid, since: Timestamp)
    ensures
        repo.is_live(v, since) <==> in_use(repo, v, since),
        repo.is_dead(v, since) <==> repo.chunks.dom().contains(v) && is_old(repo, v, since)
            && !in_use(repo, v, since),
        repo.refers(v, object) <==> exists|i: i64| stands_in(repo, v, i, object),
{
    if repo.refers(v, object) {
        let i = choose|i: i64| #[trigger]
            repo.chunks[v].contains_key(i) && repo.chunks[v][i].object_id == object;
        assert(stands_in(repo, v, i, object));
    }
    if exists|i: i64| stands_in(repo, v, i, object) {
        let i = choose|i: i64| stands_in(repo, v, i, object);
        assert(repo.chunks[v].contains_key(i) && repo.chunks[v][i].object_id == object);
    }
}

/// An object that is offered stands in no version that is in use: not in what
/// any file shows, and not in an upload that was touched since.
pub proof fn what_is_in_use_is_never_offered(
    repo: RepositoryModel,
    order: Seq<Uuid>,
    since: Timestamp,
    object: Uuid,
    v: Uuid,
    i: i64,
)
    requires
        repo.wf(),
        crate::table::enumerates(order, repo.chunks.dom()),
        stands_in(repo, v, i, object),
        in_use(repo, v, since),
    ensures
        !repo.collectable_in(order, since).contains(object),
{
    collection_offers_exactly_the_garbage(repo, order, since);
    lemma_words(repo, v, object, since);
    assert(repo.is_live(v, since) && repo.refers(v, object));
}

/// An object is offered if an old version holds it and no version that is in
/// use does; and what is offered an old version holds.
pub proof fn what_only_old_versions_hold_is_offered(
    repo: RepositoryModel,
    order: Seq<Uuid>,
    since: Timestamp,
    object: Uuid,
)
    requires
        repo.wf(),
        crate::table::enumerates(order, repo.chunks.dom()),
        forall|v: Uuid, i: i64| #[trigger]
            stands_in(repo, v, i, object) ==> !in_use(repo, v, since),
    ensures
        repo.collectable_in(order, since).contains(object) <==> exists|v: Uuid, i: i64| #[trigger]
            stands_in(repo, v, i, object) && is_old(repo, v, since),
{
    collection_offers_exactly_the_garbage(repo, order, since);
    if repo.is_collectable(object, since) {
        let v = choose|v: Uuid| #[trigger] repo.is_dead(v, since) && repo.refers(v, object);
        lemma_words(repo, v, object, since);
        let i = choose|i: i64| stands_in(repo, v, i, object);
        assert(stands_in(repo, v, i, object) && is_old(repo, v, since));
    }
    if exists|v: Uuid, i: i64| #[trigger]
        stands_in(repo, v, i, object) && is_old(repo, v, since) {
        let (v, i) = choose|v: Uuid, i: i64| #[trigger]
            stands_in(repo, v, i, object) && is_old(repo, v, since);
        lemma_words(repo, v, object, since);
        assert(repo.is_dead(v, since) && repo.refers(v, object));
        if repo.is_protected(object, since) {
            let w = choose|w: Uuid| #[trigger] repo.is_live(w, since) && repo.refers(w, object);
            lemma_words(repo, w, object, since);
            let j = choose|j: i64| stands_in(repo, w, j, object);
            assert(stands_in(repo, w, j, object));
        }
    }
}

/// Objects are offered in the order in which the walk meets them: manifest by
/// manifest, and within one from the lowest index up. Whoever comes upon a
/// later one in an old version has come upon each earlier one before.
pub proof fn objects_are_offered_as_they_are_met(
    repo: RepositoryModel,
    order: Seq<Uuid>,
    since: Timestamp,
    a: int,
    b: int,
    k: int,
    c: i64,
)
    requires
        repo.wf(),
        0 <= a < b < repo.collectable_in(order, since).len(),
        0 <= k < order.len(),
        is_old(repo, order[k], since),
        !in_use(repo, order[k], since),
        stands_in(repo, order[k], c, repo.collectable_in(order, since)[b]),
    ensures
        exists|l: int, d: i64| #[trigger]
            stands_in(repo, order[l], d, repo.collectable_in(order, since)[a]) && 0 <= l
                < order.len() && is_old(repo, order[l], since) && (l < k || l == k && d < c),
    decreases order.len(),
{
    let rest = order.drop_last();
    let last = order.last();
    let all = repo.collectable_in(order, since);
    let earlier = repo.collectable_in(rest, since);
    let listed = crate::manifest::listing(repo.chunks[last]);
    lemma_collectable_in(repo, order, since);
    lemma_collectable_in(repo, rest, since);
    lemma_words(repo, order[k], all[b], since);
    if repo.is_dead(last, since) {
        assert(crate::model::manifest_keyed(last, repo.chunks[last]));
        crate::manifest::lemma_listing_exists(repo.chunks[last]);
        crate::repository::gc::lemma_gathered_extends(repo, earlier, listed, since);
        assert(earlier =~= all.take(earlier.len() as int));
    }
    assert(all.contains(all[a]) && all.contains(all[b]));
    if a < earlier.len() {
        assert(all[a] == earlier[a]);
    }
    if b < earlier.len() {
        assert(all[b] == earlier[b]);
    }
    if k < rest.len() {
        assert(rest[k] == order[k]);
        assert(!repo.is_protected(all[b], since)) by {
            let v = choose|v: Uuid| offered_by(repo, order, v, all[b], since);
        }
        assert(offered_by(repo, rest, rest[k], all[b], since));
        assert(earlier.contains(all[b]));
        let j = choose|j: int| 0 <= j < earlier.len() && earlier[j] == all[b];
        assert(all[j] == all[b]);
        assert(j == b);
        objects_are_offered_as_they_are_met(repo, rest, since, a, b, k, c);
        let (l, d) = choose|l: int, d: i64| #[trigger]
            stands_in(repo, rest[l], d, earlier[a]) && 0 <= l < rest.len() && is_old(
                repo,
                rest[l],
                since,
            ) && (l < k || l == k && d < c);
        assert(order[l] == rest[l]);
        assert(stands_in(repo, order[l], d, all[a]));
    } else if a < earlier.len() {
        assert(earlier.contains(all[a]));
        let v = choose|v: Uuid| offered_by(repo, rest, v, all[a], since);
        let l = choose|l: int| 0 <= l < rest.len() && rest[l] == v;
        lemma_words(repo, v, all[a], since);
        let d = choose|d: i64| stands_in(repo, v, d, all[a]);
        assert(order[l] == v);
        assert(stands_in(repo, order[l], d, all[a]));
    } else {
        assert(repo.is_dead(last, since));
        let m = repo.chunks[last];
        assert(m.contains_key(c));
        let q = choose|q: int| 0 <= q < listed.len() && #[trigger] listed[q].chunk_index == c;
        assert(m.contains_key(listed[q].chunk_index));
        lemma_gathered_in_order(repo, earlier, listed, since, a, b, q);
        let p = choose|p: int| 0 <= p < q && #[trigger] listed[p].object_id == all[a];
        assert(m.contains_key(listed[p].chunk_index));
        assert(stands_in(repo, order[k], listed[p].chunk_index, all[a]));
    }
}

proof fn lemma_gathered_in_order(
    repo: RepositoryModel,
    found: Seq<Uuid>,
    chunks: Seq<ChunkModel>,
    older_than: Timestamp,
    a: int,
    b: int,
    q: int,
)
    requires
        found.no_duplicates(),
        found.len() <= a < b < repo.gathered(found, chunks, older_than).len(),
        0 <= q < chunks.len(),
        chunks[q].object_id == repo.gathered(found, chunks, older_than)[b],
    ensures
        exists|p: int|
            0 <= p < q && #[trigger] chunks[p].object_id == repo.gathered(
                found,
                chunks,
                older_than,
            )[a],
    decreases chunks.len(),
{
    let rest = chunks.drop_last();
    let earlier = repo.gathered(found, rest, older_than);
    let all = repo.gathered(found, chunks, older_than);
    lemma_gathered(repo, found, rest, older_than);
    lemma_gathered(repo, found, chunks, older_than);
    crate::repository::gc::lemma_gathered_extends(repo, found, chunks, older_than);
    assert(found =~= all.take(found.len() as int));
    assert(!found.contains(all[a])) by {
        if found.contains(all[a]) {
            let j = choose|j: int| 0 <= j < found.len() && found[j] == all[a];
            assert(all[j] == all[a]);
        }
    }
    assert(!found.contains(all[b])) by {
        if found.contains(all[b]) {
            let j = choose|j: int| 0 <= j < found.len() && found[j] == all[b];
            assert(all[j] == all[b]);
        }
    }
    assert(all.contains(all[a]) && all.contains(all[b]));
    if b < earlier.len() && q < rest.len() {
        assert(rest[q] == chunks[q]);
        lemma_gathered_in_order(repo, found, rest, older_than, a, b, q);
        let p = choose|p: int| 0 <= p < q && #[trigger] rest[p].object_id == earlier[a];
        assert(chunks[p].object_id == all[a]);
    } else {
        assert(a < earlier.len());
        assert(all[a] == earlier[a]);
        assert(earlier.contains(all[a]));
        let p = choose|p: int| 0 <= p < rest.len() && #[trigger] rest[p].object_id == all[a];
        assert(chunks[p].object_id == all[a]);
        if q < rest.len() {
            assert(rest[q].object_id == all[b]);
            assert(earlier.contains(all[b]));
            let j = choose|j: int| 0 <= j < earlier.len() && earlier[j] == all[b];
            assert(all[j] == all[b]);
            assert(false);
        }
    }
}

/// Forgetting an object takes from every manifest the chunks that stand in it
/// and no others, counts each of them, and changes nothing else.
pub proof fn forgetting_drops_each_chunk_of_the_object(
    repo: RepositoryModel,
    object: Uuid,
    v: Uuid,
    i: i64,
)
    ensures
        ({
            let after = repo.forget_object(object);
            &&& after.chunks.dom() == repo.chunks.dom()
            &&& repo.chunks.dom().contains(v) ==> {
                &&& after.chunks[v].dom().contains(i) <==> repo.chunks[v].dom().contains(i)
                    && repo.chunks[v][i].object_id != object
                &&& after.chunks[v].dom().contains(i) ==> after.chunks[v][i] == repo.chunks[v][i]
            }
            &&& repo.references(object).contains((v, i)) <==> stands_in(repo, v, i, object)
            &&& after.nodes == repo.nodes
            &&& after.versions == repo.versions
            &&& after.sessions == repo.sessions
            &&& after.locators == repo.locators
            &&& after.root_id == repo.root_id
        }),
{
    let after = repo.forget_object(object);
    assert(after.chunks.dom() =~= repo.chunks.dom());
}

/// A purge removes a version exactly if it is old, no node shows it and it has
/// no chunk, and its manifest with it. One that was opened, or committed, no
/// earlier than `since` stays as it is, with its manifest; so does one that is
/// in use. Nothing else changes.
pub proof fn purges_remove_what_is_old_empty_and_unseen(
    repo: RepositoryModel,
    since: Timestamp,
    v: Uuid,
)
    requires
        repo.wf(),
    ensures
        ({
            let after = repo.purge_empty_dead_versions(since);
            let w = repo.versions[v];
            let seen = repo.nodes.dom().contains(w.node_id)
                && repo.nodes[w.node_id].current_version_id == Some(v);
            let empty = forall|i: i64| !#[trigger] repo.chunks[v].dom().contains(i);
            let goes = is_old(repo, v, since) && !seen && empty;
            &&& after.versions.dom().contains(v) <==> repo.versions.dom().contains(v) && !goes
            &&& after.chunks.dom().contains(v) <==> repo.chunks.dom().contains(v) && !goes
            &&& after.versions.dom().contains(v) ==> after.versions[v] == repo.versions[v]
            &&& after.chunks.dom().contains(v) ==> after.chunks[v] == repo.chunks[v]
            &&& repo.versions.dom().contains(v) && !is_old(repo, v, since)
                ==> after.versions.dom().contains(v) && after.versions[v] == repo.versions[v]
                && after.chunks.dom().contains(v) && after.chunks[v] == repo.chunks[v]
            &&& seen && repo.versions.dom().contains(v) ==> after.versions.dom().contains(v)
                && after.chunks.dom().contains(v)
            &&& repo.doomed(since).contains(v) <==> goes
            &&& after.nodes == repo.nodes
            &&& after.sessions == repo.sessions
            &&& after.locators == repo.locators
            &&& after.root_id == repo.root_id
        }),
{
    let empty = forall|i: i64| !#[trigger] repo.chunks[v].dom().contains(i);
    if repo.versions.dom().contains(v) {
        assert(repo.chunks.dom().contains(v));
        if empty {
            assert(repo.chunks[v] =~= Map::<i64, ChunkModel>::empty());
        }
    }
}

/// A purge spares an upload that is under way: a version that is being written
/// and was touched no earlier than `since` is there afterwards, as it was, as
/// long as it was not committed before.
pub proof fn purges_spare_uploads_under_way(repo: RepositoryModel, since: Timestamp, v: Uuid)
    requires
        repo.wf(),
        repo.versions.dom().contains(v),
        repo.versions[v].committed_at is None,
        in_use(repo, v, since),
    ensures
        ({
            let after = repo.purge_empty_dead_versions(since);
            &&& after.versions.dom().contains(v)
            &&& after.versions[v] == repo.versions[v]
            &&& after.chunks.dom().contains(v)
            &&& after.chunks[v] == repo.chunks[v]
        }),
{
    purges_remove_what_is_old_empty_and_unseen(repo, since, v);
}

/// The dead version `v`, among those of `order`, refers to `object`, and no
/// live version does.
spec fn offered_by(
    repo: RepositoryModel,
    order: Seq<Uuid>,
    v: Uuid,
    object: Uuid,
    older_than: Timestamp,
) -> bool {
    &&& order.contains(v)
    &&& repo.is_dead(v, older_than)
    &&& repo.refers(v, object)
    &&& !repo.is_protected(object, older_than)
}

proof fn lemma_gathered(
    repo: RepositoryModel,
    found: Seq<Uuid>,
    chunks: Seq<ChunkModel>,
    older_than: Timestamp,
)
    requires
        found.no_duplicates(),
    ensures
        repo.gathered(found, chunks, older_than).no_duplicates(),
        forall|object: Uuid| #[trigger]
            repo.gathered(found, chunks, older_than).contains(object) <==> found.contains(object)
                || !repo.is_protected(object, older_than) && exists|k: int|
                0 <= k < chunks.len() && #[trigger] chunks[k].object_id == object,
    decreases chunks.len(),
{
    if chunks.len() > 0 {
        let rest = chunks.drop_last();
        lemma_gathered(repo, found, rest, older_than);
        let earlier = repo.gathered(found, rest, older_than);
        let all = repo.gathered(found, chunks, older_than);
        let last = chunks.last().object_id;
        assert forall|object: Uuid| #[trigger] all.contains(object) <==> found.contains(object)
            || !repo.is_protected(object, older_than) && exists|k: int|
            0 <= k < chunks.len() && #[trigger] chunks[k].object_id == object by {
            assert(all.contains(object) <==> earlier.contains(object) || object == last
                && !repo.is_protected(last, older_than)) by {
                broadcast use vstd::seq_lib::group_seq_properties;

            }
            if exists|k: int| 0 <= k < rest.len() && #[trigger] rest[k].object_id == object {
                let k = choose|k: int|
                    0 <= k < rest.len() && #[trigger] rest[k].object_id == object;
                assert(chunks[k].object_id == object);
            }
            if exists|k: int| 0 <= k < chunks.len() && #[trigger] chunks[k].object_id == object {
                let k = choose|k: int|
                    0 <= k < chunks.len() && #[trigger] chunks[k].object_id == object;
                if k < rest.len() {
                    assert(rest[k].object_id == object);
                }
            }
            assert(chunks[chunks.len() - 1].object_id == last);
        }
    }
}

proof fn lemma_collectable_in(repo: RepositoryModel, order: Seq<Uuid>, older_than: Timestamp)
    requires
        repo.wf(),
    ensures
        repo.collectable_in(order, older_than).no_duplicates(),
        forall|object: Uuid| #[trigger]
            repo.collectable_in(order, older_than).contains(object) <==> exists|v: Uuid|
                offered_by(repo, order, v, object, older_than),
    decreases order.len(),
{
    let all = repo.collectable_in(order, older_than);
    if order.len() > 0 {
        let rest = order.drop_last();
        let id = order.last();
        lemma_collectable_in(repo, rest, older_than);
        let earlier = repo.collectable_in(rest, older_than);
        let dead = repo.is_dead(id, older_than);
        if dead {
            let m = repo.chunks[id];
            assert(crate::model::manifest_keyed(id, m));
            crate::manifest::lemma_listing_exists(m);
            lemma_gathered(repo, earlier, crate::manifest::listing(m), older_than);
        }
        assert forall|object: Uuid| #[trigger] all.contains(object) <==> exists|v: Uuid|
            offered_by(repo, order, v, object, older_than) by {
            if dead {
                let listed = crate::manifest::listing(repo.chunks[id]);
                lemma_listed_objects(repo.chunks[id], object);
                assert(repo.refers(id, object) <==> exists|k: int|
                    0 <= k < listed.len() && #[trigger] listed[k].object_id == object);
            }
            if exists|v: Uuid| offered_by(repo, order, v, object, older_than) {
                let v = choose|v: Uuid| offered_by(repo, order, v, object, older_than);
                if v != id {
                    let k = choose|k: int| 0 <= k < order.len() && order[k] == v;
                    assert(rest[k] == v);
                    assert(offered_by(repo, rest, v, object, older_than));
                }
            }
            if exists|v: Uuid| offered_by(repo, rest, v, object, older_than) {
                let v = choose|v: Uuid| offered_by(repo, rest, v, object, older_than);
                let k = choose|k: int| 0 <= k < rest.len() && rest[k] == v;
                assert(order[k] == v);
                assert(offered_by(repo, order, v, object, older_than));
            }
            if all.contains(object) && !earlier.contains(object) {
                assert(order[order.len() - 1] == id);
                assert(offered_by(repo, order, id, object, older_than));
            }
        }
    }
}

proof fn lemma_listed_objects(m: Map<i64, ChunkModel>, object: Uuid)
    requires
        crate::manifest::lists(crate::manifest::listing(m), m),
    ensures
        (exists|i: i64| #[trigger] m.contains_key(i) && m[i].object_id == object) <==> (exists|
            k: int,
        |
            0 <= k < crate::manifest::listing(m).len() && #[trigger] crate::manifest::listing(
                m,
            )[k].object_id == object),
{
    let listed = crate::manifest::listing(m);
    if exists|i: i64| #[trigger] m.contains_key(i) && m[i].object_id == object {
        let i = choose|i: i64| #[trigger] m.contains_key(i) && m[i].object_id == object;
        let k = choose|k: int| 0 <= k < listed.len() && #[trigger] listed[k].chunk_index == i;
        assert(m.contains_key(listed[k].chunk_index));
        assert(listed[k].object_id == object);
    }
    if exists|k: int| 0 <= k < listed.len() && #[trigger] listed[k].object_id == object {
        let k = choose|k: int| 0 <= k < listed.len() && #[trigger] listed[k].object_id == object;
        assert(m.contains_key(listed[k].chunk_index));
    }
}

} // verus!
