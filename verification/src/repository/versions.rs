//! Versions of file contents.

use super::MemoryMetadataRepository;
use crate::clock::{utc_now, Timestamp};
use crate::ident::{fresh_uuid, Uuid};
use crate::manifest::Manifest;
use crate::records::{CommitGuard, FileVersionRecord, NodeGuard, RepositoryError};
use crate::text::same_text;
use vstd::prelude::*;

verus! {

impl MemoryMetadataRepository {
    /// The version of `id`.
    pub fn get_version(&self, id: Uuid) -> (r: Result<FileVersionRecord, RepositoryError>)
        ensures
            crate::model::answer(r) == crate::model::lookup(self@.versions, id),
    {
        match self.versions.get(id) {
            Some(v) => Ok(v.clone()),
            None => Err(RepositoryError::NotFound),
        }
    }

    /// Opens the version `version_id` of a node at the time `now`.
    pub fn create_staging_version_at(
        &mut self,
        node_id: Uuid,
        base_version_id: Option<Uuid>,
        chunk_size: i64,
        version_id: Uuid,
        now: Timestamp,
    ) -> (r: Result<FileVersionRecord, RepositoryError>)
        requires
            old(self)@.wf(),
            old(self)@.nodes.contains_key(node_id) ==> old(self)@.nodes[node_id].generation
                < i64::MAX,
        ensures
            final(self)@.wf(),
            (final(self)@, crate::model::answer(r)) == old(self)@.create_staging_version(
                node_id,
                base_version_id,
                chunk_size,
                version_id,
                now,
            ),
    {
        match self.nodes.remove(node_id) {
            Some(n) => {
                let mut node = n;
                node.generation = node.generation + 1;
                self.nodes.insert(node_id, node);
                assert(self@.nodes =~= old(self)@.nodes.insert(node_id, node@));
                let record = FileVersionRecord {
                    id: version_id,
                    node_id,
                    base_version_id,
                    state: "staging".to_owned(),
                    size: 0,
                    plaintext_hash: String::new(),
                    chunk_size,
                    created_at: now,
                    committed_at: None,
                };
                self.versions.insert(version_id, record.clone());
                self.chunks.insert(version_id, Manifest::new());
                Ok(record)
            },
            None => {
                assert(self@.nodes =~= old(self)@.nodes);
                Err(RepositoryError::NotFound)
            },
        }
    }

    /// Opens a version of a node for writing. Every version that is opened
    /// moves the node on by one generation.
    pub fn create_staging_version(
        &mut self,
        node_id: Uuid,
        base_version_id: Option<Uuid>,
        chunk_size: i64,
    ) -> (r: Result<FileVersionRecord, RepositoryError>)
        requires
            old(self)@.wf(),
            old(self)@.nodes.contains_key(node_id) ==> old(self)@.nodes[node_id].generation
                < i64::MAX,
        ensures
            final(self)@.wf(),
            exists|version_id: Uuid, now: Timestamp|
                crate::ident::is_random_uuid(version_id) && crate::clock::is_reading(now) && (
                final(self)@,
                crate::model::answer(r),
            ) == #[trigger] old(self)@.create_staging_version(
                node_id,
                base_version_id,
                chunk_size,
                version_id,
                now,
            ),
    {
        let version_id: Uuid = fresh_uuid();
        let now = utc_now();
        self.create_staging_version_at(node_id, base_version_id, chunk_size, version_id, now)
    }

    /// Locks a node. There is one copy of this repository in one process, so
    /// whoever holds it needs no further lock.
    pub fn lock_node(&self, node_id: Uuid) -> (r: Result<NodeGuard, RepositoryError>)
        ensures
            r matches Ok(guard) && !guard.holds_lock(),
    {
        Ok(NodeGuard::unlocked())
    }

    /// Locks the garbage collector. There is only one, so it always gets the
    /// lock.
    pub fn try_lock_gc(&self) -> (r: Result<Option<NodeGuard>, RepositoryError>)
        ensures
            r matches Ok(Some(guard)) && !guard.holds_lock(),
    {
        Ok(Some(NodeGuard::unlocked()))
    }

    /// The version of a node that is being written: the latest one to be
    /// opened or touched. Where several are equally late, one of them.
    pub fn find_open_staging_version(&self, node_id: Uuid) -> (r: Result<
        FileVersionRecord,
        RepositoryError,
    >)
        requires
            self@.wf(),
        ensures
            match r {
                Ok(v) => {
                    &&& self@.staging_of(v.id, node_id)
                    &&& v@ == self@.versions[v.id]
                    &&& forall|w: Uuid| #[trigger]
                        self@.staging_of(w, node_id) ==> !v.created_at.before(
                            self@.versions[w].created_at,
                        )
                },
                Err(e) => e == RepositoryError::NotFound && forall|w: Uuid|
                    !#[trigger] self@.staging_of(w, node_id),
            },
    {
        let ids = self.versions.ids();
        let mut best: Option<&FileVersionRecord> = None;
        let mut i: usize = 0;
        while i < ids.len()
            invariant
                self@.wf(),
                crate::table::enumerates(ids@, self@.versions.dom()),
                i <= ids.len(),
                match best {
                    Some(v) => {
                        &&& self@.staging_of(v.id, node_id)
                        &&& v@ == self@.versions[v.id]
                        &&& forall|k: int|
                            0 <= k < i && self@.staging_of(#[trigger] ids@[k], node_id)
                                ==> !v.created_at.before(self@.versions[ids@[k]].created_at)
                    },
                    None => forall|k: int|
                        0 <= k < i ==> !self@.staging_of(#[trigger] ids@[k], node_id),
                },
            decreases ids.len() - i,
        {
            match self.versions.get(ids[i]) {
                Some(v) => {
                    if v.node_id == node_id && same_text(v.state.as_str(), "staging") {
                        let later: bool = match best {
                            Some(b) => !v.created_at.is_before(b.created_at),
                            None => true,
                        };
                        if later {
                            best = Some(v);
                        }
                    }
                },
                None => {},
            }
            i = i + 1;
        }
        proof {
            assert forall|w: Uuid| #[trigger] self@.staging_of(w, node_id) implies exists|k: int|
                0 <= k < ids@.len() && ids@[k] == w by {
                assert(ids@.to_set().contains(w));
            }
        }
        match best {
            Some(v) => Ok(v.clone()),
            None => Err(RepositoryError::NotFound),
        }
    }

    /// Notes at the time `now` that a version took more data.
    pub fn touch_staging_version_at(&mut self, version_id: Uuid, size: i64, now: Timestamp) -> (r:
        Result<(), RepositoryError>)
        requires
            old(self)@.wf(),
        ensures
            final(self)@.wf(),
            final(self)@ == old(self)@.touch_staging_version(version_id, size, now),
            r is Ok,
    {
        let open: bool = match self.versions.get(version_id) {
            Some(v) => same_text(v.state.as_str(), "staging"),
            None => false,
        };
        if open {
            match self.versions.remove(version_id) {
                Some(v) => {
                    let mut version = v;
                    version.size = size;
                    version.created_at = now;
                    self.versions.insert(version_id, version);
                    assert(self@.versions =~= old(self)@.versions.insert(version_id, version@));
                },
                None => {},
            }
        }
        Ok(())
    }

    /// Notes that a version took more data: its size, and that its upload is
    /// still in progress. A version that is not being written stays as it is.
    pub fn touch_staging_version(&mut self, version_id: Uuid, size: i64) -> (r: Result<
        (),
        RepositoryError,
    >)
        requires
            old(self)@.wf(),
        ensures
            final(self)@.wf(),
            exists|now: Timestamp|
                crate::clock::is_reading(now) && final(self)@
                    == #[trigger] old(self)@.touch_staging_version(version_id, size, now),
            r is Ok,
    {
        let now = utc_now();
        self.touch_staging_version_at(version_id, size, now)
    }

    /// Makes a version current at the time `now`.
    pub fn commit_version_at(
        &mut self,
        guard: CommitGuard,
        total_size: i64,
        plaintext_hash: &str,
        now: Timestamp,
    ) -> (r: Result<FileVersionRecord, RepositoryError>)
        requires
            old(self)@.wf(),
        ensures
            final(self)@.wf(),
            (final(self)@, crate::model::answer(r)) == old(self)@.commit_version(
                guard,
                total_size,
                plaintext_hash@,
                now,
            ),
    {
        let current: Option<Uuid> = match self.nodes.get(guard.node_id) {
            Some(n) => {
                if n.generation != guard.expected_generation {
                    return Err(RepositoryError::Conflict);
                }
                if n.current_version_id != guard.expected_current_version {
                    return Err(RepositoryError::Conflict);
                }
                n.current_version_id
            },
            None => {
                return Err(RepositoryError::NotFound);
            },
        };
        if !self.versions.contains(guard.version_id) {
            return Err(RepositoryError::NotFound);
        }
        if let Some(previous) = current {
            let committed: bool = match self.versions.get(previous) {
                Some(v) => same_text(v.state.as_str(), "committed"),
                None => false,
            };
            if committed {
                match self.versions.remove(previous) {
                    Some(v) => {
                        let mut version = v;
                        version.state = "superseded".to_owned();
                        self.versions.insert(previous, version);
                    },
                    None => {},
                }
            }
        }
        assert(self@.versions =~= old(self)@.superseding(current));
        match (self.versions.remove(guard.version_id), self.nodes.remove(guard.node_id)) {
            (Some(v), Some(n)) => {
                let mut version = v;
                version.state = "committed".to_owned();
                version.size = total_size;
                version.plaintext_hash = plaintext_hash.to_owned();
                version.committed_at = Some(now);
                let mut node = n;
                node.current_version_id = Some(guard.version_id);
                node.size = total_size;
                self.nodes.insert(guard.node_id, node);
                self.versions.insert(guard.version_id, version.clone());
                assert(self@.nodes =~= old(self)@.nodes.insert(guard.node_id, node@));
                assert(self@.versions =~= old(self)@.superseding(current).insert(
                    guard.version_id,
                    version@,
                ));
                Ok(version)
            },
            _ => Err(RepositoryError::NotFound),
        }
    }

    /// Makes a version the current one of its node. It is refused with
    /// `Conflict`, and nothing changes, where the node is no longer as the
    /// guard expects it.
    pub fn commit_version(&mut self, guard: CommitGuard, total_size: i64, plaintext_hash: &str) -> (r:
        Result<FileVersionRecord, RepositoryError>)
        requires
            old(self)@.wf(),
        ensures
            final(self)@.wf(),
            exists|now: Timestamp|
                crate::clock::is_reading(now) && (final(self)@, crate::model::answer(r))
                    == #[trigger] old(self)@.commit_version(
                    guard,
                    total_size,
                    plaintext_hash@,
                    now,
                ),
    {
        let now = utc_now();
        self.commit_version_at(guard, total_size, plaintext_hash, now)
    }
}

} // verus!
