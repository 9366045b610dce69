//! What holds of versions and their chunks.

use crate::clock::Timestamp;
use crate::ident::Uuid;
use crate::model::RepositoryModel;
use crate::records::{ChunkModel, CommitGuard, RepositoryError, VersionModel};
use vstd::prelude::*;

verus! {

/// A version that was opened is found, is being written, has no chunks yet,
/// and leaves what the node shows of itself as it was.
pub proof fn opened_version_is_staging(
    repo: RepositoryModel,
    node_id: Uuid,
    base: Option<Uuid>,
    chunk_size: i64,
    version_id: Uuid,
    now: Timestamp,
)
    requires
        repo.nodes.contains_key(node_id),
    ensures
        ({
            let (after, r) = repo.create_staging_version(
                node_id,
                base,
                chunk_size,
                version_id,
                now,
            );
            &&& r is Ok
            &&& crate::model::lookup(after.versions, version_id) == r
            &&& after.staging_of(version_id, node_id)
            &&& after.manifest(version_id) == Map::<i64, ChunkModel>::empty()
            &&& after.nodes[node_id].current_version_id == repo.nodes[node_id].current_version_id
            &&& after.nodes[node_id].size == repo.nodes[node_id].size
        }),
{
}

/// Opening a version for writing makes every guard stale that was taken
/// before: a commit that expects an earlier generation conflicts.
pub proof fn opening_a_version_makes_earlier_guards_stale(
    repo: RepositoryModel,
    base: Option<Uuid>,
    chunk_size: i64,
    version_id: Uuid,
    opened_at: Timestamp,
    guard: CommitGuard,
    total_size: i64,
    hash: Seq<char>,
    now: Timestamp,
)
    requires
        repo.nodes.contains_key(guard.node_id),
        repo.nodes[guard.node_id].generation < i64::MAX,
        guard.expected_generation <= repo.nodes[guard.node_id].generation,
    ensures
        ({
            let after = repo.create_staging_version(
                guard.node_id,
                base,
                chunk_size,
                version_id,
                opened_at,
            ).0;
            after.commit_version(guard, total_size, hash, now) == (
                after,
                Err::<VersionModel, RepositoryError>(RepositoryError::Conflict),
            )
        }),
{
}

/// A commit goes through exactly where the node is as the guard expects it and
/// the version exists; otherwise nothing changes.
pub proof fn commit_is_all_or_nothing(
    repo: RepositoryModel,
    guard: CommitGuard,
    total_size: i64,
    hash: Seq<char>,
    now: Timestamp,
)
    ensures
        ({
            let (after, r) = repo.commit_version(guard, total_size, hash, now);
            let as_expected = repo.nodes[guard.node_id].generation == guard.expected_generation
                && repo.nodes[guard.node_id].current_version_id == guard.expected_current_version;
            &&& r is Ok <==> repo.nodes.contains_key(guard.node_id) && as_expected
                && repo.versions.contains_key(guard.version_id)
            &&& r is Err ==> after == repo
            &&& r == Err::<VersionModel, RepositoryError>(RepositoryError::Conflict)
                <==> repo.nodes.contains_key(guard.node_id) && !as_expected
        }),
{
}

/// A commit makes the version the node's current one, with its size, and keeps
/// the chunks of every version as they were.
pub proof fn committed_version_is_current(
    repo: RepositoryModel,
    guard: CommitGuard,
    total_size: i64,
    hash: Seq<char>,
    now: Timestamp,
)
    requires
        repo.wf(),
        repo.commit_version(guard, total_size, hash, now).1 is Ok,
    ensures
        ({
            let (after, r) = repo.commit_version(guard, total_size, hash, now);
            let node = after.nodes[guard.node_id];
            &&& node.current_version_id == Some(guard.version_id)
            &&& node.size == total_size
            &&& after.committed_size(node) == node.size
            &&& !after.size_is_off(guard.node_id)
            &&& crate::model::lookup(after.versions, guard.version_id) == r
            &&& r matches Ok(v)
            &&& v.state == "committed"@
            &&& v.size == total_size
            &&& v.plaintext_hash == hash
            &&& v.committed_at == Some(now)
            &&& repo.versions[guard.version_id].node_id == guard.node_id ==> after.is_current(
                guard.version_id,
            )
            &&& after.chunks == repo.chunks
        }),
{
}

/// A commit supersedes the version that was current, and touches no third one.
pub proof fn commit_supersedes_the_previous_version(
    repo: RepositoryModel,
    guard: CommitGuard,
    total_size: i64,
    hash: Seq<char>,
    now: Timestamp,
)
    requires
        repo.commit_version(guard, total_size, hash, now).1 is Ok,
    ensures
        ({
            let after = repo.commit_version(guard, total_size, hash, now).0;
            let previous = repo.nodes[guard.node_id].current_version_id;
            &&& forall|v: Uuid|
                v != guard.version_id && previous != Some(v) ==> crate::model::lookup(
                    after.versions,
                    v,
                ) == #[trigger] crate::model::lookup(repo.versions, v)
            &&& forall|p: Uuid|
                previous == Some(p) && p != guard.version_id
                    && #[trigger] repo.versions.contains_key(p) && repo.versions[p].state
                    == "committed"@ ==> after.versions[p] == (VersionModel {
                    state: "superseded"@,
                    ..repo.versions[p]
                })
        }),
{
}

/// Of two commits to a node that expect the same current version only the
/// first goes through, unless that is the very version that it commits. In
/// particular a guard commits once.
pub proof fn one_of_two_rival_commits_wins(
    repo: RepositoryModel,
    guard: CommitGuard,
    total_size: i64,
    hash: Seq<char>,
    now: Timestamp,
    other: CommitGuard,
    other_size: i64,
    other_hash: Seq<char>,
    later: Timestamp,
)
    requires
        repo.commit_version(guard, total_size, hash, now).1 is Ok,
        guard.expected_current_version != Some(guard.version_id),
        other.node_id == guard.node_id,
        other.expected_current_version == guard.expected_current_version,
    ensures
        ({
            let after = repo.commit_version(guard, total_size, hash, now).0;
            after.commit_version(other, other_size, other_hash, later) == (
                after,
                Err::<VersionModel, RepositoryError>(RepositoryError::Conflict),
            )
        }),
{
}

/// A chunk that was attached reads back at its index, replaces what was there,
/// and leaves every other chunk of every version alone.
pub proof fn attached_chunk_reads_back(repo: RepositoryModel, c: ChunkModel)
    requires
        repo.chunks.contains_key(c.version_id),
    ensures
        ({
            let (after, r) = repo.attach_chunk(c);
            &&& r is Ok
            &&& after.manifest(c.version_id).contains_key(c.chunk_index)
            &&& after.manifest(c.version_id)[c.chunk_index] == c
            &&& forall|i: i64|
                i != c.chunk_index ==> {
                    &&& #[trigger] after.manifest(c.version_id).contains_key(i)
                        == repo.manifest(c.version_id).contains_key(i)
                    &&& repo.manifest(c.version_id).contains_key(i) ==> after.manifest(
                        c.version_id,
                    )[i] == repo.manifest(c.version_id)[i]
                }
            &&& forall|v: Uuid|
                v != c.version_id ==> #[trigger] after.manifest(v) == repo.manifest(v)
        }),
{
}

/// Attaching a second chunk at the same index is the same as attaching only
/// the second.
pub proof fn attaching_again_replaces(repo: RepositoryModel, first: ChunkModel, second: ChunkModel)
    requires
        first.version_id == second.version_id,
        first.chunk_index == second.chunk_index,
    ensures
        repo.attach_chunk(first).0.attach_chunk(second) == repo.attach_chunk(second),
{
    let once = repo.attach_chunk(second).0;
    let twice = repo.attach_chunk(first).0.attach_chunk(second).0;
    if repo.chunks.contains_key(first.version_id) {
        assert(twice.chunks[first.version_id] =~= once.chunks[first.version_id]);
    }
    assert(twice.chunks =~= once.chunks);
}

/// The order in which chunks arrive does not matter.
pub proof fn chunks_may_arrive_in_any_order(repo: RepositoryModel, a: ChunkModel, b: ChunkModel)
    requires
        (a.version_id, a.chunk_index) != (b.version_id, b.chunk_index),
    ensures
        repo.attach_chunk(a).0.attach_chunk(b).0 == repo.attach_chunk(b).0.attach_chunk(a).0,
{
    let ab = repo.attach_chunk(a).0.attach_chunk(b).0;
    let ba = repo.attach_chunk(b).0.attach_chunk(a).0;
    if a.version_id == b.version_id && repo.chunks.contains_key(a.version_id) {
        assert(ab.chunks[a.version_id] =~= ba.chunks[a.version_id]);
    }
    assert(ab.chunks =~= ba.chunks);
}

/// A manifest reads back ordered by index, with each of its chunks once.
pub proof fn manifests_read_back_in_order(repo: RepositoryModel, version_id: Uuid)
    requires
        repo.wf(),
        repo.chunks.contains_key(version_id),
    ensures
        ({
            let read = crate::manifest::listing(repo.chunks[version_id]);
            &&& crate::manifest::ascending(read)
            &&& read.len() == repo.chunks[version_id].dom().len()
            &&& forall|c: ChunkModel| #[trigger]
                read.contains(c) <==> repo.chunks[version_id].contains_key(c.chunk_index)
                    && repo.chunks[version_id][c.chunk_index] == c
        }),
{
    let m = repo.chunks[version_id];
    assert(crate::model::manifest_keyed(version_id, m));
    crate::manifest::lemma_listing_exists(m);
    let read = crate::manifest::listing(m);
    assert forall|c: ChunkModel| #[trigger] read.contains(c) <==> m.contains_key(c.chunk_index)
        && m[c.chunk_index] == c by {
        if read.contains(c) {
            let k = choose|k: int| 0 <= k < read.len() && read[k] == c;
            assert(m.contains_key(read[k].chunk_index));
        }
        if m.contains_key(c.chunk_index) && m[c.chunk_index] == c {
            let k = choose|k: int|
                0 <= k < read.len() && #[trigger] read[k].chunk_index == c.chunk_index;
            assert(m.contains_key(read[k].chunk_index) && m[read[k].chunk_index] == read[k]);
        }
    }
}

/// A copy fills gaps and nothing else: what the target had stays, and every
/// chunk of the range is there afterwards, under the target's own version.
pub proof fn copy_fills_gaps_only(
    repo: RepositoryModel,
    from: Uuid,
    to: Uuid,
    first: i64,
    last: i64,
)
    ensures
        ({
            let after = repo.copy_chunk_range(from, to, first, last);
            &&& forall|i: i64| #[trigger]
                repo.manifest(to).contains_key(i) ==> after.manifest(to).contains_key(i)
                    && after.manifest(to)[i] == repo.manifest(to)[i]
            &&& forall|i: i64| #[trigger]
                repo.manifest(from).contains_key(i) && first <= i <= last && !repo.manifest(
                    to,
                ).contains_key(i) ==> after.manifest(to).contains_key(i) && after.manifest(to)[i]
                    == (ChunkModel { version_id: to, ..repo.manifest(from)[i] })
            &&& forall|i: i64| #[trigger]
                after.manifest(to).contains_key(i) && !repo.manifest(to).contains_key(i)
                    ==> repo.manifest(from).contains_key(i) && first <= i <= last
            &&& forall|v: Uuid| v != to ==> #[trigger] after.manifest(v) == repo.manifest(v)
        }),
{
}

/// Copying a range twice is the same as copying it once; the second copy
/// carries nothing over.
pub proof fn copying_twice_is_copying_once(
    repo: RepositoryModel,
    from: Uuid,
    to: Uuid,
    first: i64,
    last: i64,
)
    requires
        first <= last,
    ensures
        ({
            let after = repo.copy_chunk_range(from, to, first, last);
            &&& after.copy_chunk_range(from, to, first, last) == after
            &&& after.carried_over(from, to, first, last) == Map::<i64, ChunkModel>::empty()
        }),
{
    let after = repo.copy_chunk_range(from, to, first, last);
    copy_fills_gaps_only(repo, from, to, first, last);
    let more = after.carried_over(from, to, first, last);
    assert forall|i: i64| !#[trigger] more.contains_key(i) by {
        if from != to && after.manifest(from).contains_key(i) && first <= i <= last {
            assert(repo.manifest(from).contains_key(i));
            assert(after.manifest(to).contains_key(i) || repo.manifest(to).contains_key(i));
        }
    }
    assert(more =~= Map::<i64, ChunkModel>::empty());
    let again = after.copy_chunk_range(from, to, first, last);
    assert(again.chunks[to] =~= after.chunks[to]);
    assert(again.chunks =~= after.chunks);
}

/// Noting progress touches only a version that is being written: a committed
/// one keeps its size.
pub proof fn progress_is_noted_of_open_versions_only(
    repo: RepositoryModel,
    version_id: Uuid,
    size: i64,
    now: Timestamp,
)
    ensures
        ({
            let after = repo.touch_staging_version(version_id, size, now);
            &&& after.versions.dom() == repo.versions.dom()
            &&& forall|v: Uuid| #[trigger]
                repo.versions.contains_key(v) && !crate::model::is_staging(repo.versions[v])
                    ==> after.versions[v] == repo.versions[v]
            &&& forall|v: Uuid| #[trigger]
                repo.versions.contains_key(v) ==> after.versions[v].state
                    == repo.versions[v].state
            &&& repo.versions.contains_key(version_id) && crate::model::is_staging(
                repo.versions[version_id],
            ) ==> after.versions[version_id].size == size && after.versions[version_id].created_at
                == now
        }),
{
    let after = repo.touch_staging_version(version_id, size, now);
    assert(after.versions.dom() =~= repo.versions.dom());
}

/// After a reconciliation no size is off, and another one finds nothing to do.
pub proof fn reconciling_twice_is_reconciling_once(repo: RepositoryModel)
    requires
        repo.wf(),
    ensures
        repo.reconcile_node_sizes().nodes_off() == Set::<Uuid>::empty(),
        repo.reconcile_node_sizes().reconcile_node_sizes() == repo.reconcile_node_sizes(),
{
    let after = repo.reconcile_node_sizes();
    assert forall|id: Uuid| !#[trigger] after.size_is_off(id) by {
        if after.size_is_off(id) {
            assert(repo.nodes.contains_key(id));
            assert forall|v: Uuid| !#[trigger] repo.staging_of(v, id) by {
                assert(!after.staging_of(v, id));
            }
            assert(after.committed_size(after.nodes[id]) == repo.committed_size(repo.nodes[id]));
        }
    }
    assert(after.nodes_off() =~= Set::<Uuid>::empty());
    assert(after.reconcile_node_sizes().nodes =~= after.nodes);
}

/// A reconciliation changes no directory, no symbolic link and no file that is
/// being written.
pub proof fn reconciling_spares_open_files(repo: RepositoryModel, id: Uuid)
    requires
        repo.nodes.contains_key(id),
        repo.nodes[id].kind != "file"@ || (exists|v: Uuid| repo.staging_of(v, id)),
    ensures
        repo.reconcile_node_sizes().nodes[id] == repo.nodes[id],
{
}

} // verus!
