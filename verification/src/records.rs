//! The records that the repository keeps, each with its view.

use crate::clock::Timestamp;
use crate::ident::Uuid;
use vstd::prelude::*;

verus! {

/// Why the repository refused a request.
#[derive(PartialEq, Eq, Structural, Clone, Copy, Debug)]
pub enum RepositoryError {
    /// What the request names is not there.
    NotFound,
    /// What the request would make is there already.
    AlreadyExists,
    /// The directory in the way still has children.
    DirectoryNotEmpty,
    /// The node has moved on since the request was prepared.
    Conflict,
}

/// A file, a directory or a symbolic link.
#[derive(Debug)]
pub struct NodeRecord {
    pub id: Uuid,
    pub parent_id: Option<Uuid>,
    pub name: Vec<u8>,
    pub kind: String,
    pub mode: i32,
    pub uid: i32,
    pub gid: i32,
    pub size: i64,
    pub atime: Timestamp,
    pub mtime: Timestamp,
    pub ctime: Timestamp,
    pub current_version_id: Option<Uuid>,
    pub generation: i64,
    pub link_target: Option<Vec<u8>>,
}

/// The value of a [`NodeRecord`].
#[verifier::ext_equal]
pub struct NodeModel {
    pub id: Uuid,
    pub parent_id: Option<Uuid>,
    pub name: Seq<u8>,
    pub kind: Seq<char>,
    pub mode: i32,
    pub uid: i32,
    pub gid: i32,
    pub size: i64,
    pub atime: Timestamp,
    pub mtime: Timestamp,
    pub ctime: Timestamp,
    pub current_version_id: Option<Uuid>,
    pub generation: i64,
    pub link_target: Option<Seq<u8>>,
}

/// The bytes of an optional byte string.
pub open spec fn optional_bytes(b: Option<Vec<u8>>) -> Option<Seq<u8>> {
    match b {
        Some(bytes) => Some(bytes@),
        None => None,
    }
}

impl View for NodeRecord {
    type V = NodeModel;

    open spec fn view(&self) -> NodeModel {
        NodeModel {
            id: self.id,
            parent_id: self.parent_id,
            name: self.name@,
            kind: self.kind@,
            mode: self.mode,
            uid: self.uid,
            gid: self.gid,
            size: self.size,
            atime: self.atime,
            mtime: self.mtime,
            ctime: self.ctime,
            current_version_id: self.current_version_id,
            generation: self.generation,
            link_target: optional_bytes(self.link_target),
        }
    }
}

/// A copy of a byte string.
pub fn copy_bytes(b: &Vec<u8>) -> (r: Vec<u8>)
    ensures
        r@ == b@,
{
    let r = b.clone();
    assert(r@ =~= b@);
    r
}

impl Clone for NodeRecord {
    fn clone(&self) -> (r: Self)
        ensures
            r@ == self@,
    {
        let link_target = match &self.link_target {
            Some(target) => Some(copy_bytes(target)),
            None => None,
        };
        NodeRecord {
            id: self.id,
            parent_id: self.parent_id,
            name: copy_bytes(&self.name),
            kind: self.kind.clone(),
            mode: self.mode,
            uid: self.uid,
            gid: self.gid,
            size: self.size,
            atime: self.atime,
            mtime: self.mtime,
            ctime: self.ctime,
            current_version_id: self.current_version_id,
            generation: self.generation,
            link_target,
        }
    }
}

/// A version of a file's contents.
#[derive(Debug)]
pub struct FileVersionRecord {
    pub id: Uuid,
    pub node_id: Uuid,
    pub base_version_id: Option<Uuid>,
    pub state: String,
    pub size: i64,
    pub plaintext_hash: String,
    pub chunk_size: i64,
    pub created_at: Timestamp,
    pub committed_at: Option<Timestamp>,
}

/// The value of a [`FileVersionRecord`].
#[verifier::ext_equal]
pub struct VersionModel {
    pub id: Uuid,
    pub node_id: Uuid,
    pub base_version_id: Option<Uuid>,
    pub state: Seq<char>,
    pub size: i64,
    pub plaintext_hash: Seq<char>,
    pub chunk_size: i64,
    pub created_at: Timestamp,
    pub committed_at: Option<Timestamp>,
}

impl View for FileVersionRecord {
    type V = VersionModel;

    open spec fn view(&self) -> VersionModel {
        VersionModel {
            id: self.id,
            node_id: self.node_id,
            base_version_id: self.base_version_id,
            state: self.state@,
            size: self.size,
            plaintext_hash: self.plaintext_hash@,
            chunk_size: self.chunk_size,
            created_at: self.created_at,
            committed_at: self.committed_at,
        }
    }
}

impl Clone for FileVersionRecord {
    fn clone(&self) -> (r: Self)
        ensures
            r@ == self@,
    {
        FileVersionRecord {
            id: self.id,
            node_id: self.node_id,
            base_version_id: self.base_version_id,
            state: self.state.clone(),
            size: self.size,
            plaintext_hash: self.plaintext_hash.clone(),
            chunk_size: self.chunk_size,
            created_at: self.created_at,
            committed_at: self.committed_at,
        }
    }
}

/// One part of a version's contents, held by a stored object.
#[derive(Debug)]
pub struct FileChunkRecord {
    pub version_id: Uuid,
    pub chunk_index: i64,
    pub logical_offset: i64,
    pub plaintext_size: i32,
    pub plaintext_hash: String,
    pub object_id: Uuid,
}

/// The value of a [`FileChunkRecord`].
#[verifier::ext_equal]
pub struct ChunkModel {
    pub version_id: Uuid,
    pub chunk_index: i64,
    pub logical_offset: i64,
    pub plaintext_size: i32,
    pub plaintext_hash: Seq<char>,
    pub object_id: Uuid,
}

impl View for FileChunkRecord {
    type V = ChunkModel;

    open spec fn view(&self) -> ChunkModel {
        ChunkModel {
            version_id: self.version_id,
            chunk_index: self.chunk_index,
            logical_offset: self.logical_offset,
            plaintext_size: self.plaintext_size,
            plaintext_hash: self.plaintext_hash@,
            object_id: self.object_id,
        }
    }
}

impl Clone for FileChunkRecord {
    fn clone(&self) -> (r: Self)
        ensures
            r@ == self@,
    {
        FileChunkRecord {
            version_id: self.version_id,
            chunk_index: self.chunk_index,
            logical_offset: self.logical_offset,
            plaintext_size: self.plaintext_size,
            plaintext_hash: self.plaintext_hash.clone(),
            object_id: self.object_id,
        }
    }
}

/// Where a stored object can be fetched from.
#[derive(Debug)]
pub struct ObjectLocatorRecord {
    pub object_id: Uuid,
    pub url: String,
}

/// The value of an [`ObjectLocatorRecord`].
#[verifier::ext_equal]
pub struct LocatorModel {
    pub object_id: Uuid,
    pub url: Seq<char>,
}

impl View for ObjectLocatorRecord {
    type V = LocatorModel;

    open spec fn view(&self) -> LocatorModel {
        LocatorModel { object_id: self.object_id, url: self.url@ }
    }
}

impl Clone for ObjectLocatorRecord {
    fn clone(&self) -> (r: Self)
        ensures
            r@ == self@,
    {
        ObjectLocatorRecord { object_id: self.object_id, url: self.url.clone() }
    }
}

/// A login session. The token itself is never kept.
#[derive(Debug)]
pub struct SessionRecord {
    pub id: Uuid,
    pub label: String,
    pub created_at: Timestamp,
    pub expires_at: Timestamp,
}

/// The value of a [`SessionRecord`].
#[verifier::ext_equal]
pub struct SessionModel {
    pub id: Uuid,
    pub label: Seq<char>,
    pub created_at: Timestamp,
    pub expires_at: Timestamp,
}

impl View for SessionRecord {
    type V = SessionModel;

    open spec fn view(&self) -> SessionModel {
        SessionModel {
            id: self.id,
            label: self.label@,
            created_at: self.created_at,
            expires_at: self.expires_at,
        }
    }
}

impl Clone for SessionRecord {
    fn clone(&self) -> (r: Self)
        ensures
            r@ == self@,
    {
        SessionRecord {
            id: self.id,
            label: self.label.clone(),
            created_at: self.created_at,
            expires_at: self.expires_at,
        }
    }
}

/// What a commit expects to find, so that it can tell that it came too late.
#[derive(Clone, Copy, Debug)]
pub struct CommitGuard {
    pub node_id: Uuid,
    pub version_id: Uuid,
    pub expected_generation: i64,
    pub expected_current_version: Option<Uuid>,
}

/// A held lock on a node, or the token that none was needed.
#[derive(Debug)]
pub struct NodeGuard {
    held: bool,
}

impl NodeGuard {
    /// Dropping the guard releases a lock.
    pub closed spec fn holds_lock(&self) -> bool {
        self.held
    }

    /// A guard that stands for no lock.
    pub fn unlocked() -> (g: NodeGuard)
        ensures
            !g.holds_lock(),
    {
        NodeGuard { held: false }
    }
}

} // verus!
