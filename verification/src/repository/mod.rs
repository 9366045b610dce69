//! The in-memory metadata repository.
//!
//! Requests that draw an identifier or read the clock come in two forms: one
//! that does so, and one with the suffix `_at` (or `with_`) that is handed what
//! was drawn and read.

pub mod access;
pub mod chunks;
pub mod gc;
pub mod nodes;
pub mod upkeep;
pub mod versions;

use crate::clock::{utc_now, Timestamp};
use crate::ident::{fresh_uuid, Uuid};
use crate::manifest::Manifest;
use crate::model::RepositoryModel;
use crate::records::{FileVersionRecord, NodeRecord, ObjectLocatorRecord};
use crate::sessions::SessionTable;
use crate::table::Table;
use vstd::prelude::*;

verus! {

/// Metadata of a file store, held in memory.
pub struct MemoryMetadataRepository {
    nodes: Table<NodeRecord>,
    versions: Table<FileVersionRecord>,
    chunks: Table<Manifest>,
    sessions: SessionTable,
    locators: Table<ObjectLocatorRecord>,
    root_id: Uuid,
}

impl View for MemoryMetadataRepository {
    type V = RepositoryModel;

    closed spec fn view(&self) -> RepositoryModel {
        RepositoryModel {
            nodes: self.nodes@,
            versions: self.versions@,
            chunks: self.chunks@,
            sessions: self.sessions@,
            locators: self.locators@,
            root_id: self.root_id,
        }
    }
}

impl MemoryMetadataRepository {
    /// The order in which the nodes are walked while nothing changes.
    pub closed spec fn node_order(&self) -> Seq<Uuid> {
        self.nodes.order()
    }

    /// The order in which the manifests are walked while nothing changes.
    pub closed spec fn manifest_order(&self) -> Seq<Uuid> {
        self.chunks.order()
    }

    /// A repository with nothing but the root directory `root_id`.
    pub fn with_root(root_id: Uuid, now: Timestamp) -> (repo: Self)
        ensures
            repo@ == RepositoryModel::fresh(root_id, now),
            repo@.wf(),
    {
        let root = NodeRecord {
            id: root_id,
            parent_id: None,
            name: Vec::new(),
            kind: "directory".to_owned(),
            mode: 0o40755,
            uid: 0,
            gid: 0,
            size: 0,
            atime: now,
            mtime: now,
            ctime: now,
            current_version_id: None,
            generation: 0,
            link_target: None,
        };
        let mut nodes: Table<NodeRecord> = Table::new();
        nodes.insert(root_id, root);
        MemoryMetadataRepository {
            nodes,
            versions: Table::new(),
            chunks: Table::new(),
            sessions: SessionTable::new(),
            locators: Table::new(),
            root_id,
        }
    }

    /// A repository with nothing but a root directory, made now under a fresh
    /// identifier.
    pub fn new() -> (repo: Self)
        ensures
            repo@.wf(),
            exists|root_id: Uuid, now: Timestamp|
                crate::ident::is_random_uuid(root_id) && crate::clock::is_reading(now) && repo@
                    == #[trigger] RepositoryModel::fresh(root_id, now),
    {
        let root_id: Uuid = fresh_uuid();
        let now = utc_now();
        Self::with_root(root_id, now)
    }
}

impl Default for MemoryMetadataRepository {
    fn default() -> (repo: Self)
        ensures
            repo@.wf(),
            exists|root_id: Uuid, now: Timestamp|
                crate::ident::is_random_uuid(root_id) && crate::clock::is_reading(now) && repo@
                    == #[trigger] RepositoryModel::fresh(root_id, now),
    {
        Self::new()
    }
}

} // verus!
