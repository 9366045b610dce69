//! Manifests: which objects hold the contents of a version.

use super::MemoryMetadataRepository;
use crate::ident::Uuid;
use crate::manifest::Manifest;
use crate::records::{ChunkModel, FileChunkRecord, RepositoryError};
use vstd::prelude::*;

verus! {

impl MemoryMetadataRepository {
    /// Puts a chunk into the manifest of a version. A chunk that is there
    /// under the same index is replaced.
    pub fn attach_chunk(
        &mut self,
        version_id: Uuid,
        chunk_index: i64,
        logical_offset: i64,
        plaintext_size: i32,
        plaintext_hash: &str,
        object_id: Uuid,
    ) -> (r: Result<(), RepositoryError>)
        requires
            old(self)@.wf(),
        ensures
            final(self)@.wf(),
            (final(self)@, r) == old(self)@.attach_chunk(
                ChunkModel {
                    version_id,
                    chunk_index,
                    logical_offset,
                    plaintext_size,
                    plaintext_hash: plaintext_hash@,
                    object_id,
                },
            ),
    {
        match self.chunks.remove(version_id) {
            Some(m) => {
                let mut manifest = m;
                let record = FileChunkRecord {
                    version_id,
                    chunk_index,
                    logical_offset,
                    plaintext_size,
                    plaintext_hash: plaintext_hash.to_owned(),
                    object_id,
                };
                manifest.put(record);
                self.chunks.insert(version_id, manifest);
                assert(self@.chunks =~= old(self)@.chunks.insert(version_id, manifest@));
                Ok(())
            },
            None => {
                assert(self@.chunks =~= old(self)@.chunks);
                Err(RepositoryError::NotFound)
            },
        }
    }

    /// The chunks of a version, ordered by index.
    pub fn get_chunks(&self, version_id: Uuid) -> (r: Result<Vec<FileChunkRecord>, RepositoryError>)
        ensures
            match r {
                Ok(chunks) => self@.chunks.contains_key(version_id) && crate::manifest::lists(
                    crate::manifest::chunk_models(chunks@),
                    self@.chunks[version_id],
                ),
                Err(e) => e == RepositoryError::NotFound && !self@.chunks.contains_key(version_id),
            },
    {
        match self.chunks.get(version_id) {
            Some(m) => Ok(m.to_vec()),
            None => Err(RepositoryError::NotFound),
        }
    }

    /// The chunks of a version with an index from `first` to `last`, ordered
    /// by index.
    pub fn get_chunk_range(&self, version_id: Uuid, first: i64, last: i64) -> (r: Result<
        Vec<FileChunkRecord>,
        RepositoryError,
    >)
        ensures
            match r {
                Ok(chunks) => self@.chunks.contains_key(version_id) && crate::manifest::lists(
                    crate::manifest::chunk_models(chunks@),
                    crate::manifest::within(self@.chunks[version_id], first, last),
                ),
                Err(e) => e == RepositoryError::NotFound && !self@.chunks.contains_key(version_id),
            },
    {
        match self.chunks.get(version_id) {
            Some(m) => Ok(m.range(first, last)),
            None => Err(RepositoryError::NotFound),
        }
    }

    /// Copies the chunks with an index from `first` to `last` into the
    /// manifest of another version, and says how many were copied. An index
    /// that the other manifest has keeps its chunk.
    pub fn copy_chunk_range(
        &mut self,
        from_version: Uuid,
        to_version: Uuid,
        first: i64,
        last: i64,
    ) -> (r: Result<u64, RepositoryError>)
        requires
            old(self)@.wf(),
        ensures
            final(self)@.wf(),
            final(self)@ == old(self)@.copy_chunk_range(from_version, to_version, first, last),
            r matches Ok(copied) && copied == (if first > last {
                0
            } else {
                old(self)@.carried_over(from_version, to_version, first, last).dom().len()
            }),
    {
        if first > last {
            return Ok(0);
        }
        let carried: Vec<FileChunkRecord> = match self.chunks.get(from_version) {
            Some(m) => m.range(first, last),
            None => Vec::new(),
        };
        let ghost source = crate::manifest::within(self@.manifest(from_version), first, last);
        let ghost listed = crate::manifest::chunk_models(carried@);
        assert(crate::manifest::lists(listed, source));
        let mut target: Manifest = match self.chunks.remove(to_version) {
            Some(m) => m,
            None => Manifest::new(),
        };
        let ghost held = old(self)@.manifest(to_version);
        assert(target@ =~= held);
        let ghost mut added = Map::<i64, ChunkModel>::empty();
        let mut copied: u64 = 0;
        let mut i: usize = 0;
        while i < carried.len()
            invariant
                listed == crate::manifest::chunk_models(carried@),
                crate::manifest::lists(listed, source),
                i <= carried.len(),
                copied <= i,
                target@ == held.union_prefer_right(added),
                added.dom().finite(),
                copied == added.dom().len(),
                forall|x: i64| #[trigger]
                    added.contains_key(x) ==> source.contains_key(x) && !held.contains_key(x)
                        && added[x] == (ChunkModel { version_id: to_version, ..source[x] }),
                forall|x: i64| #[trigger]
                    added.contains_key(x) ==> exists|k: int|
                        0 <= k < i && (#[trigger] listed[k]).chunk_index == x,
                forall|k: int|
                    0 <= k < i && !held.contains_key((#[trigger] listed[k]).chunk_index)
                        ==> added.contains_key(listed[k].chunk_index),
            decreases carried.len() - i,
        {
            let c: &FileChunkRecord = &carried[i];
            let ghost x = c.chunk_index;
            assert(listed[i as int] == c@);
            assert(source.contains_key(listed[i as int].chunk_index));
            assert(!added.contains_key(x)) by {
                if added.contains_key(x) {
                    let k = choose|k: int| 0 <= k < i && (#[trigger] listed[k]).chunk_index == x;
                    assert(listed[k].chunk_index < listed[i as int].chunk_index);
                }
            }
            let ghost before = added;
            if !target.has(c.chunk_index) {
                let record = FileChunkRecord {
                    version_id: to_version,
                    chunk_index: c.chunk_index,
                    logical_offset: c.logical_offset,
                    plaintext_size: c.plaintext_size,
                    plaintext_hash: c.plaintext_hash.clone(),
                    object_id: c.object_id,
                };
                proof {
                    added = added.insert(x, record@);
                    assert(target@.insert(x, record@) =~= held.union_prefer_right(added));
                }
                target.put(record);
                copied = copied + 1;
            }
            proof {
                assert forall|y: i64| #[trigger] added.contains_key(y) implies exists|k: int|
                    0 <= k < i + 1 && (#[trigger] listed[k]).chunk_index == y by {
                    if y == x {
                        assert(listed[i as int].chunk_index == y);
                    } else {
                        assert(before.contains_key(y));
                        let k = choose|k: int|
                            0 <= k < i && (#[trigger] listed[k]).chunk_index == y;
                        assert(listed[k].chunk_index == y);
                    }
                }
            }
            i = i + 1;
        }
        proof {
            let wanted = old(self)@.carried_over(from_version, to_version, first, last);
            assert forall|x: i64| wanted.contains_key(x) == added.contains_key(x) by {
                if wanted.contains_key(x) {
                    assert(source.contains_key(x));
                    let k = choose|k: int|
                        0 <= k < listed.len() && (#[trigger] listed[k]).chunk_index == x;
                    assert(!held.contains_key(listed[k].chunk_index));
                }
            }
            assert(added =~= wanted);
            assert(target@ =~= held.union_prefer_right(wanted));
        }
        self.chunks.insert(to_version, target);
        assert(self@.chunks =~= old(self)@.chunks.insert(to_version, target@));
        Ok(copied)
    }
}

} // verus!
