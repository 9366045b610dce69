//! What each request to versions, chunks, sessions and locators does to every
//! record, and what it leaves alone.

use crate::clock::Timestamp;
use crate::ident::Uuid;
use crate::model::RepositoryModel;
use crate::records::{
    ChunkModel, CommitGuard, LocatorModel, RepositoryError, SessionModel, VersionModel,
};
use crate::sessions::SessionState;
use vstd::prelude::*;

verus! {

/// A version that is opened has exactly what was given for it, is empty, being
/// written and not committed, and has an empty manifest. Its node moves on by
/// one generation. Nothing else changes.
pub proof fn opened_versions_have_what_was_given(
    repo: RepositoryModel,
    node_id: Uuid,
    base: Option<Uuid>,
    chunk_size: i64,
    version_id: Uuid,
    now: Timestamp,
)
    requires
        repo.nodes.dom().contains(node_id) ==> repo.nodes[node_id].generation < i64::MAX,
    ensures
        ({
            let (after, r) = repo.create_staging_version(
                node_id,
                base,
                chunk_size,
                version_id,
                now,
            );
            if repo.nodes.dom().contains(node_id) {
                let v = after.versions[version_id];
                let n = after.nodes[node_id];
                let o = repo.nodes[node_id];
                &&& r == Ok::<VersionModel, RepositoryError>(v)
                &&& v.id == version_id
                &&& v.node_id == node_id
                &&& v.base_version_id == base
                &&& v.state == "staging"@
                &&& v.size == 0
                &&& v.plaintext_hash.len() == 0
                &&& v.chunk_size == chunk_size
                &&& v.created_at == now
                &&& v.committed_at is None
                &&& after.versions.dom() == repo.versions.dom().insert(version_id)
                &&& forall|w: Uuid|
                    w != version_id && repo.versions.dom().contains(w)
                        ==> #[trigger] after.versions[w] == repo.versions[w]
                &&& after.chunks.dom() == repo.chunks.dom().insert(version_id)
                &&& forall|i: i64| !#[trigger] after.chunks[version_id].dom().contains(i)
                &&& forall|w: Uuid|
                    w != version_id && repo.chunks.dom().contains(w) ==> #[trigger] after.chunks[w]
                        == repo.chunks[w]
                &&& n.generation == o.generation + 1
                &&& n.id == o.id && n.parent_id == o.parent_id && n.name == o.name
                &&& n.kind == o.kind && n.mode == o.mode && n.uid == o.uid && n.gid == o.gid
                &&& n.size == o.size
                &&& n.atime == o.atime && n.mtime == o.mtime && n.ctime == o.ctime
                &&& n.current_version_id == o.current_version_id
                &&& n.link_target == o.link_target
                &&& after.nodes.dom() == repo.nodes.dom()
                &&& forall|w: Uuid|
                    w != node_id && repo.nodes.dom().contains(w) ==> #[trigger] after.nodes[w]
                        == repo.nodes[w]
                &&& after.sessions == repo.sessions
                &&& after.locators == repo.locators
                &&& after.root_id == repo.root_id
            } else {
                &&& r == Err::<VersionModel, RepositoryError>(RepositoryError::NotFound)
                &&& after == repo
            }
        }),
{
    let after = repo.create_staging_version(node_id, base, chunk_size, version_id, now).0;
    if repo.nodes.dom().contains(node_id) {
        assert(after.versions.dom() =~= repo.versions.dom().insert(version_id));
        assert(after.chunks.dom() =~= repo.chunks.dom().insert(version_id));
        assert(after.nodes.dom() =~= repo.nodes.dom());
    }
}

/// A node is being written in exactly the versions that are its own and in
/// the state "staging".
pub proof fn open_versions_are_in_staging(repo: RepositoryModel, v: Uuid, node_id: Uuid)
    ensures
        repo.staging_of(v, node_id) <==> repo.versions.dom().contains(v)
            && repo.versions[v].node_id == node_id && repo.versions[v].state == "staging"@,
{
}

/// Noting progress sets the size and the time of one version that is being
/// written to exactly what was given. Of any other, and otherwise, nothing
/// changes.
pub proof fn progress_sets_size_and_time(
    repo: RepositoryModel,
    version_id: Uuid,
    size: i64,
    now: Timestamp,
)
    ensures
        ({
            let after = repo.touch_staging_version(version_id, size, now);
            if repo.versions.dom().contains(version_id) && repo.versions[version_id].state
                == "staging"@ {
                let v = after.versions[version_id];
                let o = repo.versions[version_id];
                &&& v.size == size
                &&& v.created_at == now
                &&& v.id == o.id && v.node_id == o.node_id
                &&& v.base_version_id == o.base_version_id && v.state == o.state
                &&& v.plaintext_hash == o.plaintext_hash && v.chunk_size == o.chunk_size
                &&& v.committed_at == o.committed_at
                &&& after.versions.dom() == repo.versions.dom()
                &&& forall|w: Uuid|
                    w != version_id && repo.versions.dom().contains(w)
                        ==> #[trigger] after.versions[w] == repo.versions[w]
                &&& after.nodes == repo.nodes
                &&& after.chunks == repo.chunks
                &&& after.sessions == repo.sessions
                &&& after.locators == repo.locators
                &&& after.root_id == repo.root_id
            } else {
                after == repo
            }
        }),
{
    let after = repo.touch_staging_version(version_id, size, now);
    assert(after.versions.dom() =~= repo.versions.dom());
}

/// After a reconciliation every file that is not being written has the size of
/// its current version, or none if it has none, and everything else is as it
/// was. The nodes that were off are those whose size is another than before.
pub proof fn reconciled_files_have_the_size_of_their_contents(repo: RepositoryModel, id: Uuid)
    requires
        repo.nodes.dom().contains(id),
    ensures
        ({
            let after = repo.reconcile_node_sizes();
            let n = after.nodes[id];
            let o = repo.nodes[id];
            let open = exists|v: Uuid| #[trigger]
                repo.versions.dom().contains(v) && repo.versions[v].node_id == id
                    && repo.versions[v].state == "staging"@;
            &&& after.nodes.dom() == repo.nodes.dom()
            &&& o.kind == "file"@ && !open ==> n.size == match o.current_version_id {
                Some(v) => if repo.versions.dom().contains(v) {
                    repo.versions[v].size
                } else {
                    0
                },
                None => 0,
            }
            &&& o.kind != "file"@ || open ==> n.size == o.size
            &&& n.id == o.id && n.parent_id == o.parent_id && n.name == o.name
            &&& n.kind == o.kind && n.mode == o.mode && n.uid == o.uid && n.gid == o.gid
            &&& n.atime == o.atime && n.mtime == o.mtime && n.ctime == o.ctime
            &&& n.current_version_id == o.current_version_id
            &&& n.generation == o.generation && n.link_target == o.link_target
            &&& repo.nodes_off().contains(id) <==> n.size != o.size
            &&& after.versions == repo.versions
            &&& after.chunks == repo.chunks
            &&& after.sessions == repo.sessions
            &&& after.locators == repo.locators
            &&& after.root_id == repo.root_id
        }),
{
    let after = repo.reconcile_node_sizes();
    assert(after.nodes.dom() =~= repo.nodes.dom());
    let open = exists|v: Uuid| #[trigger]
        repo.versions.dom().contains(v) && repo.versions[v].node_id == id
            && repo.versions[v].state == "staging"@;
    if open {
        let v = choose|v: Uuid| #[trigger]
            repo.versions.dom().contains(v) && repo.versions[v].node_id == id
                && repo.versions[v].state == "staging"@;
        assert(repo.staging_of(v, id));
    } else {
        assert forall|v: Uuid| !#[trigger] repo.staging_of(v, id) by {
            if repo.staging_of(v, id) {
                assert(repo.versions.dom().contains(v));
            }
        }
    }
}

/// Only nodes that are there can be off.
pub proof fn only_known_nodes_are_off(repo: RepositoryModel, id: Uuid)
    requires
        repo.nodes_off().contains(id),
    ensures
        repo.nodes.dom().contains(id),
{
}

/// A chunk that is attached stands under its version and its index with
/// exactly what was given, and every other chunk stays. Where the version has
/// no manifest it is refused.
pub proof fn attached_chunks_have_what_was_given(repo: RepositoryModel, c: ChunkModel)
    ensures
        ({
            let (after, r) = repo.attach_chunk(c);
            if repo.chunks.dom().contains(c.version_id) {
                &&& r is Ok
                &&& after.chunks.dom() == repo.chunks.dom()
                &&& after.chunks[c.version_id].dom() == repo.chunks[c.version_id].dom().insert(
                    c.chunk_index,
                )
                &&& after.chunks[c.version_id][c.chunk_index] == c
                &&& forall|i: i64|
                    i != c.chunk_index && repo.chunks[c.version_id].dom().contains(i)
                        ==> #[trigger] after.chunks[c.version_id][i]
                        == repo.chunks[c.version_id][i]
                &&& forall|v: Uuid|
                    v != c.version_id && repo.chunks.dom().contains(v)
                        ==> #[trigger] after.chunks[v] == repo.chunks[v]
                &&& after.nodes == repo.nodes
                &&& after.versions == repo.versions
                &&& after.sessions == repo.sessions
                &&& after.locators == repo.locators
                &&& after.root_id == repo.root_id
            } else {
                &&& r == Err::<(), RepositoryError>(RepositoryError::NotFound)
                &&& after == repo
            }
        }),
{
    let after = repo.attach_chunk(c).0;
    if repo.chunks.dom().contains(c.version_id) {
        assert(after.chunks.dom() =~= repo.chunks.dom());
        assert(after.chunks[c.version_id].dom() =~= repo.chunks[c.version_id].dom().insert(
            c.chunk_index,
        ));
    }
}

/// What a list of a manifest holds: the chunks of the manifest, no others, in
/// the order of their indices.
pub proof fn lists_of_chunks_are_ordered_and_complete(
    s: Seq<ChunkModel>,
    m: Map<i64, ChunkModel>,
)
    requires
        crate::manifest::lists(s, m),
    ensures
        forall|i: int, j: int| 0 <= i < j < s.len() ==> s[i].chunk_index < s[j].chunk_index,
        forall|k: int|
            0 <= k < s.len() ==> m.dom().contains((#[trigger] s[k]).chunk_index)
                && m[s[k].chunk_index] == s[k],
        forall|i: i64| #[trigger]
            m.dom().contains(i) ==> exists|k: int| 0 <= k < s.len() && s[k] == m[i],
{
    assert forall|k: int| 0 <= k < s.len() implies m.dom().contains((#[trigger] s[k]).chunk_index)
        && m[s[k].chunk_index] == s[k] by {
        assert(m.contains_key(s[k].chunk_index));
    }
    assert forall|i: i64| #[trigger] m.dom().contains(i) implies exists|k: int|
        0 <= k < s.len() && s[k] == m[i] by {
        assert(m.contains_key(i));
        let k = choose|k: int| 0 <= k < s.len() && #[trigger] s[k].chunk_index == i;
        assert(m.contains_key(s[k].chunk_index));
        assert(s[k] == m[i]);
    }
}

/// A range of a manifest holds the chunks from the first to the last index,
/// both ends included, and no others.
pub proof fn ranges_take_in_both_ends(m: Map<i64, ChunkModel>, first: i64, last: i64, i: i64)
    ensures
        ({
            let part = crate::manifest::within(m, first, last);
            &&& part.dom().contains(i) <==> m.dom().contains(i) && first <= i && i <= last
            &&& part.dom().contains(i) ==> part[i] == m[i]
        }),
{
}

/// A copy puts into the target, at each index of the range that the source has
/// and the target lacks, the chunk of the source as one of the target's own.
/// What the target had stays, and nothing else changes.
pub proof fn copies_carry_over_what_is_missing(
    repo: RepositoryModel,
    from: Uuid,
    to: Uuid,
    first: i64,
    last: i64,
    i: i64,
)
    requires
        first <= last,
    ensures
        ({
            let after = repo.copy_chunk_range(from, to, first, last);
            let had = repo.chunks.dom().contains(to) && repo.chunks[to].dom().contains(i);
            let offered = repo.chunks.dom().contains(from) && repo.chunks[from].dom().contains(i)
                && first <= i && i <= last;
            &&& after.chunks.dom() == repo.chunks.dom().insert(to)
            &&& after.chunks[to].dom().contains(i) <==> had || offered
            &&& had ==> after.chunks[to][i] == repo.chunks[to][i]
            &&& !had && offered ==> {
                let c = after.chunks[to][i];
                let o = repo.chunks[from][i];
                &&& c.version_id == to
                &&& c.chunk_index == o.chunk_index
                &&& c.logical_offset == o.logical_offset
                &&& c.plaintext_size == o.plaintext_size
                &&& c.plaintext_hash == o.plaintext_hash
                &&& c.object_id == o.object_id
            }
            &&& repo.carried_over(from, to, first, last).dom().contains(i) <==> !had && offered
            &&& forall|v: Uuid|
                v != to && repo.chunks.dom().contains(v) ==> #[trigger] after.chunks[v]
                    == repo.chunks[v]
            &&& after.nodes == repo.nodes
            &&& after.versions == repo.versions
            &&& after.sessions == repo.sessions
            &&& after.locators == repo.locators
            &&& after.root_id == repo.root_id
        }),
{
    let after = repo.copy_chunk_range(from, to, first, last);
    assert(after.chunks.dom() =~= repo.chunks.dom().insert(to));
}

/// A copy of an empty range changes nothing.
pub proof fn copies_of_nothing_change_nothing(
    repo: RepositoryModel,
    from: Uuid,
    to: Uuid,
    first: i64,
    last: i64,
)
    requires
        last < first,
    ensures
        repo.copy_chunk_range(from, to, first, last) == repo,
{
}

/// A commit goes through exactly if the node has the generation and the
/// current version that are expected and the version is there. It then sets
/// state, size, hash and time of the version, makes it the node's current one
/// with its size, supersedes the one before if that was committed, and changes
/// nothing else.
pub proof fn commits_set_what_was_given(
    repo: RepositoryModel,
    guard: CommitGuard,
    total_size: i64,
    hash: Seq<char>,
    now: Timestamp,
)
    ensures
        ({
            let (after, r) = repo.commit_version(guard, total_size, hash, now);
            let o = repo.nodes[guard.node_id];
            if !repo.nodes.dom().contains(guard.node_id) {
                &&& r == Err::<VersionModel, RepositoryError>(RepositoryError::NotFound)
                &&& after == repo
            } else if o.generation != guard.expected_generation || o.current_version_id
                != guard.expected_current_version {
                &&& r == Err::<VersionModel, RepositoryError>(RepositoryError::Conflict)
                &&& after == repo
            } else if !repo.versions.dom().contains(guard.version_id) {
                &&& r == Err::<VersionModel, RepositoryError>(RepositoryError::NotFound)
                &&& after == repo
            } else {
                let n = after.nodes[guard.node_id];
                let v = after.versions[guard.version_id];
                let w = repo.versions[guard.version_id];
                &&& r == Ok::<VersionModel, RepositoryError>(v)
                &&& v.state == "committed"@
                &&& v.size == total_size
                &&& v.plaintext_hash == hash
                &&& v.committed_at == Some(now)
                &&& v.id == w.id && v.node_id == w.node_id
                &&& v.base_version_id == w.base_version_id && v.chunk_size == w.chunk_size
                &&& v.created_at == w.created_at
                &&& after.versions.dom() == repo.versions.dom()
                &&& forall|x: Uuid|
                    x != guard.version_id && repo.versions.dom().contains(x) ==> {
                        let a = #[trigger] after.versions[x];
                        let b = repo.versions[x];
                        &&& a.state == if o.current_version_id == Some(x) && b.state
                            == "committed"@ {
                            "superseded"@
                        } else {
                            b.state
                        }
                        &&& a.id == b.id && a.node_id == b.node_id
                        &&& a.base_version_id == b.base_version_id && a.size == b.size
                        &&& a.plaintext_hash == b.plaintext_hash && a.chunk_size == b.chunk_size
                        &&& a.created_at == b.created_at && a.committed_at == b.committed_at
                    }
                &&& n.current_version_id == Some(guard.version_id)
                &&& n.size == total_size
                &&& n.id == o.id && n.parent_id == o.parent_id && n.name == o.name
                &&& n.kind == o.kind && n.mode == o.mode && n.uid == o.uid && n.gid == o.gid
                &&& n.atime == o.atime && n.mtime == o.mtime && n.ctime == o.ctime
                &&& n.generation == o.generation && n.link_target == o.link_target
                &&& after.nodes.dom() == repo.nodes.dom()
                &&& forall|x: Uuid|
                    x != guard.node_id && repo.nodes.dom().contains(x)
                        ==> #[trigger] after.nodes[x] == repo.nodes[x]
                &&& after.chunks == repo.chunks
                &&& after.sessions == repo.sessions
                &&& after.locators == repo.locators
                &&& after.root_id == repo.root_id
            }
        }),
{
    let (after, r) = repo.commit_version(guard, total_size, hash, now);
    if r is Ok {
        assert(after.versions.dom() =~= repo.versions.dom());
        assert(after.nodes.dom() =~= repo.nodes.dom());
    }
}

/// A locator that is put stands under its object as it was given; a new
/// address is kept for a known object only; a deletion takes one away. Every
/// other locator stays, and nothing else changes.
pub proof fn locators_are_kept_as_given(
    repo: RepositoryModel,
    locator: LocatorModel,
    object: Uuid,
    url: Seq<char>,
    other: Uuid,
)
    ensures
        ({
            let put = repo.put_object_locator(locator);
            &&& put.locators.dom() == repo.locators.dom().insert(locator.object_id)
            &&& put.locators[locator.object_id] == locator
            &&& other != locator.object_id && repo.locators.dom().contains(other)
                ==> put.locators[other] == repo.locators[other]
            &&& put.nodes == repo.nodes && put.versions == repo.versions
            &&& put.chunks == repo.chunks && put.sessions == repo.sessions
            &&& put.root_id == repo.root_id
        }),
        ({
            let touched = repo.touch_object_url(object, url);
            &&& touched.locators.dom() == repo.locators.dom()
            &&& repo.locators.dom().contains(object) ==> touched.locators[object].url == url
                && touched.locators[object].object_id == object
            &&& other != object && repo.locators.dom().contains(other) ==> touched.locators[other]
                == repo.locators[other]
            &&& touched.nodes == repo.nodes && touched.versions == repo.versions
            &&& touched.chunks == repo.chunks && touched.sessions == repo.sessions
            &&& touched.root_id == repo.root_id
        }),
        ({
            let gone = repo.delete_object_locator(object);
            &&& gone.locators.dom() == repo.locators.dom().remove(object)
            &&& other != object && repo.locators.dom().contains(other) ==> gone.locators[other]
                == repo.locators[other]
            &&& gone.nodes == repo.nodes && gone.versions == repo.versions
            &&& gone.chunks == repo.chunks && gone.sessions == repo.sessions
            &&& gone.root_id == repo.root_id
        }),
{
    assert(repo.put_object_locator(locator).locators.dom() =~= repo.locators.dom().insert(
        locator.object_id,
    ));
    assert(repo.touch_object_url(object, url).locators.dom() =~= repo.locators.dom());
    assert(repo.delete_object_locator(object).locators.dom() =~= repo.locators.dom().remove(
        object,
    ));
}

/// A session that is opened stands under its token as it was given and is not
/// revoked, whatever stood there. Every other stays, and nothing else changes.
pub proof fn opened_sessions_are_as_given(
    repo: RepositoryModel,
    token: Seq<char>,
    record: SessionModel,
    other: Seq<char>,
)
    ensures
        ({
            let after = repo.create_session(token, record);
            &&& after.sessions.dom() == repo.sessions.dom().insert(token)
            &&& after.sessions[token].record == record
            &&& !after.sessions[token].revoked
            &&& other != token && repo.sessions.dom().contains(other) ==> after.sessions[other]
                == repo.sessions[other]
            &&& after.nodes == repo.nodes && after.versions == repo.versions
            &&& after.chunks == repo.chunks && after.locators == repo.locators
            &&& after.root_id == repo.root_id
        }),
{
    let after = repo.create_session(token, record);
    assert(after.sessions.dom() =~= repo.sessions.dom().insert(token));
}

/// A session is found exactly if it is there, was not revoked and expires
/// later than now; it is then the record that was kept.
pub proof fn sessions_are_found_while_they_last(
    repo: RepositoryModel,
    token: Seq<char>,
    now: Timestamp,
)
    ensures
        ({
            let e = repo.sessions[token].record.expires_at;
            let lasts = now.secs < e.secs || now.secs == e.secs && now.nanos < e.nanos;
            repo.find_session(token, now) == if repo.sessions.dom().contains(token)
                && !repo.sessions[token].revoked && lasts {
                Ok::<SessionModel, RepositoryError>(repo.sessions[token].record)
            } else {
                Err::<SessionModel, RepositoryError>(RepositoryError::NotFound)
            }
        }),
{
}

/// What revoking and purging do to the sessions: revoking marks the one of the
/// token and leaves its record; a purge drops those, and only those, that
/// expired before the time given. Changing the sessions changes nothing else.
pub proof fn sessions_are_revoked_and_purged_one_by_one(
    repo: RepositoryModel,
    sessions: Map<Seq<char>, SessionState>,
    token: Seq<char>,
    id: Uuid,
    older_than: Timestamp,
    t: Seq<char>,
)
    ensures
        crate::sessions::active(sessions, token, id) <==> sessions.dom().contains(token)
            && sessions[token].record.id == id && !sessions[token].revoked,
        ({
            let after = crate::sessions::with_revoked(sessions, token);
            &&& after.dom() == sessions.dom().insert(token)
            &&& after[token].revoked
            &&& after[token].record == sessions[token].record
            &&& t != token && sessions.dom().contains(t) ==> after[t] == sessions[t]
        }),
        ({
            let left = crate::sessions::unexpired(sessions, older_than);
            let e = sessions[t].record.expires_at;
            let expired = e.secs < older_than.secs || e.secs == older_than.secs && e.nanos
                < older_than.nanos;
            &&& left.dom().contains(t) <==> sessions.dom().contains(t) && !expired
            &&& left.dom().contains(t) ==> left[t] == sessions[t]
        }),
        ({
            let after = repo.with_sessions(sessions);
            &&& after.sessions == sessions
            &&& after.nodes == repo.nodes && after.versions == repo.versions
            &&& after.chunks == repo.chunks && after.locators == repo.locators
            &&& after.root_id == repo.root_id
        }),
{
    assert(crate::sessions::with_revoked(sessions, token).dom() =~= sessions.dom().insert(token));
}

} // verus!
