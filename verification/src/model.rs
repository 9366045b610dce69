//! What the repository holds, and what each request makes of it.
//!
//! Every request is a function from the contents before it to the contents
//! after it and the answer. Where a request draws an identifier, reads the
//! clock or meets several records that would do, what it came upon is an
//! argument.

use crate::clock::Timestamp;
use crate::ident::Uuid;
use crate::records::{
    ChunkModel, CommitGuard, LocatorModel, NodeModel, NodeRecord, RepositoryError, SessionModel,
    VersionModel,
};
use crate::sessions::SessionState;
use vstd::prelude::*;

verus! {

/// The contents of a repository.
#[verifier::ext_equal]
pub struct RepositoryModel {
    pub nodes: Map<Uuid, NodeModel>,
    pub versions: Map<Uuid, VersionModel>,
    pub chunks: Map<Uuid, Map<i64, ChunkModel>>,
    pub sessions: Map<Seq<char>, SessionState>,
    pub locators: Map<Uuid, LocatorModel>,
    pub root_id: Uuid,
}

/// An answer, with the value of the record in it.
pub open spec fn answer<R: View>(r: Result<R, RepositoryError>) -> Result<R::V, RepositoryError> {
    match r {
        Ok(record) => Ok(record@),
        Err(e) => Err(e),
    }
}

/// The record of `id`, or `NotFound`.
pub open spec fn lookup<V>(table: Map<Uuid, V>, id: Uuid) -> Result<V, RepositoryError> {
    if table.contains_key(id) {
        Ok(table[id])
    } else {
        Err(RepositoryError::NotFound)
    }
}

/// `n` lies in the directory `parent`.
pub open spec fn is_child(n: NodeModel, parent: Uuid) -> bool {
    n.parent_id == Some(parent)
}

/// `n` is the entry `name` of the directory `parent`.
pub open spec fn is_entry(n: NodeModel, parent: Uuid, name: Seq<u8>) -> bool {
    is_child(n, parent) && n.name == name
}

/// A node that was just made.
pub open spec fn new_node(
    id: Uuid,
    parent_id: Option<Uuid>,
    name: Seq<u8>,
    kind: Seq<char>,
    mode: i32,
    uid: i32,
    gid: i32,
    now: Timestamp,
) -> NodeModel {
    NodeModel {
        id,
        parent_id,
        name,
        kind,
        mode,
        uid,
        gid,
        size: 0,
        atime: now,
        mtime: now,
        ctime: now,
        current_version_id: None,
        generation: 0,
        link_target: None,
    }
}

/// A symbolic link that was just made. Its size is the length of its target.
pub open spec fn new_symlink(
    id: Uuid,
    parent_id: Uuid,
    name: Seq<u8>,
    target: Seq<u8>,
    uid: i32,
    gid: i32,
    now: Timestamp,
) -> NodeModel {
    NodeModel {
        size: target.len() as i64,
        link_target: Some(target),
        ..new_node(id, Some(parent_id), name, "symlink"@, 0o120777, uid, gid, now)
    }
}

/// `n` under another name, and nothing else about it changed but `ctime`.
pub open spec fn relocated(
    n: NodeModel,
    parent: Uuid,
    name: Seq<u8>,
    now: Timestamp,
) -> NodeModel {
    NodeModel { parent_id: Some(parent), name, ctime: now, ..n }
}

/// What an attribute update asks for. A missing field stays as it is.
pub struct AttrPatch {
    pub mode: Option<i32>,
    pub uid: Option<i32>,
    pub gid: Option<i32>,
    pub size: Option<i64>,
    pub mtime: Option<Timestamp>,
    pub atime: Option<Timestamp>,
}

/// `wanted` where it is given, else `present`.
pub open spec fn given_or<T>(wanted: Option<T>, present: T) -> T {
    match wanted {
        Some(value) => value,
        None => present,
    }
}

/// `n` with the given attributes put in.
pub open spec fn patched(n: NodeModel, patch: AttrPatch, now: Timestamp) -> NodeModel {
    NodeModel {
        mode: given_or(patch.mode, n.mode),
        uid: given_or(patch.uid, n.uid),
        gid: given_or(patch.gid, n.gid),
        size: given_or(patch.size, n.size),
        mtime: given_or(patch.mtime, n.mtime),
        atime: given_or(patch.atime, n.atime),
        ctime: now,
        ..n
    }
}

/// A version that is being written.
pub open spec fn is_staging(v: VersionModel) -> bool {
    v.state == "staging"@
}

/// A version that was just opened for writing.
pub open spec fn new_version(
    id: Uuid,
    node_id: Uuid,
    base_version_id: Option<Uuid>,
    chunk_size: i64,
    now: Timestamp,
) -> VersionModel {
    VersionModel {
        id,
        node_id,
        base_version_id,
        state: "staging"@,
        size: 0,
        plaintext_hash: Seq::empty(),
        chunk_size,
        created_at: now,
        committed_at: None,
    }
}

/// When `v` was committed, or opened if it never was.
pub open spec fn settled_at(v: VersionModel) -> Timestamp {
    given_or(v.committed_at, v.created_at)
}

/// `m` with every chunk assigned to the version `to`.
pub open spec fn reassigned(m: Map<i64, ChunkModel>, to: Uuid) -> Map<i64, ChunkModel> {
    m.map_values(|c: ChunkModel| ChunkModel { version_id: to, ..c })
}

/// Every node stands under its own identifier.
pub open spec fn nodes_keyed(nodes: Map<Uuid, NodeModel>) -> bool {
    forall|id: Uuid| #[trigger] nodes.contains_key(id) ==> nodes[id].id == id
}

/// Every version stands under its own identifier.
pub open spec fn versions_keyed(versions: Map<Uuid, VersionModel>) -> bool {
    forall|id: Uuid| #[trigger] versions.contains_key(id) ==> versions[id].id == id
}

/// Every locator stands under the identifier of its object.
pub open spec fn locators_keyed(locators: Map<Uuid, LocatorModel>) -> bool {
    forall|id: Uuid| #[trigger] locators.contains_key(id) ==> locators[id].object_id == id
}

/// Every chunk of `m` is one of the version `v` and stands under its index.
pub open spec fn manifest_keyed(v: Uuid, m: Map<i64, ChunkModel>) -> bool {
    forall|i: i64| #[trigger]
        m.contains_key(i) ==> m[i].version_id == v && m[i].chunk_index == i
}

/// Every chunk stands under its version and its index.
pub open spec fn manifests_keyed(chunks: Map<Uuid, Map<i64, ChunkModel>>) -> bool {
    forall|v: Uuid| #[trigger] chunks.contains_key(v) ==> manifest_keyed(v, chunks[v])
}

impl RepositoryModel {
    /// What holds of every repository: records stand under their own
    /// identifiers, and every version has a manifest.
    pub open spec fn wf(self) -> bool {
        &&& nodes_keyed(self.nodes)
        &&& versions_keyed(self.versions)
        &&& locators_keyed(self.locators)
        &&& manifests_keyed(self.chunks)
        &&& self.versions.dom().subset_of(self.chunks.dom())
    }

    /// A repository with nothing but its root directory.
    pub open spec fn fresh(root_id: Uuid, now: Timestamp) -> RepositoryModel {
        RepositoryModel {
            nodes: Map::empty().insert(
                root_id,
                new_node(root_id, None, Seq::empty(), "directory"@, 0o40755, 0, 0, now),
            ),
            versions: Map::empty(),
            chunks: Map::empty(),
            sessions: Map::empty(),
            locators: Map::empty(),
            root_id,
        }
    }

    /// The same repository with other nodes.
    pub open spec fn with_nodes(self, nodes: Map<Uuid, NodeModel>) -> RepositoryModel {
        RepositoryModel { nodes, ..self }
    }

    /// The same repository with `n` put in.
    pub open spec fn with_node(self, n: NodeModel) -> RepositoryModel {
        self.with_nodes(self.nodes.insert(n.id, n))
    }

    /// `id` is the entry `name` of the directory `parent`.
    pub open spec fn entry(self, id: Uuid, parent: Uuid, name: Seq<u8>) -> bool {
        self.nodes.contains_key(id) && is_entry(self.nodes[id], parent, name)
    }

    /// A node other than `id` is the entry `name` of `parent`.
    pub open spec fn in_the_way(self, v: Uuid, id: Uuid, parent: Uuid, name: Seq<u8>) -> bool {
        v != id && self.entry(v, parent, name)
    }

    /// The directory `parent` has an entry.
    pub open spec fn has_children(self, parent: Uuid) -> bool {
        exists|id: Uuid| #[trigger] self.nodes.contains_key(id) && is_child(self.nodes[id], parent)
    }

    /// No directory has two entries of the same name.
    pub open spec fn names_unique(self) -> bool {
        forall|a: Uuid, b: Uuid, parent: Uuid, name: Seq<u8>| #[trigger]
            self.entry(a, parent, name) && #[trigger] self.entry(b, parent, name) ==> a == b
    }

    // Nodes.

    /// Makes a file or a directory.
    pub open spec fn create_node(
        self,
        id: Uuid,
        parent_id: Uuid,
        name: Seq<u8>,
        kind: Seq<char>,
        mode: i32,
        uid: i32,
        gid: i32,
        now: Timestamp,
    ) -> (RepositoryModel, Result<NodeModel, RepositoryError>) {
        if self.nodes.contains_key(id) {
            (self, Err(RepositoryError::AlreadyExists))
        } else {
            let n = new_node(id, Some(parent_id), name, kind, mode, uid, gid, now);
            (self.with_node(n), Ok(n))
        }
    }

    /// Makes a symbolic link, unless its name is taken.
    pub open spec fn create_symlink(
        self,
        id: Uuid,
        parent_id: Uuid,
        name: Seq<u8>,
        target: Seq<u8>,
        uid: i32,
        gid: i32,
        now: Timestamp,
    ) -> (RepositoryModel, Result<NodeModel, RepositoryError>) {
        if self.nodes.contains_key(id) || (exists|v: Uuid| self.entry(v, parent_id, name)) {
            (self, Err(RepositoryError::AlreadyExists))
        } else {
            let n = new_symlink(id, parent_id, name, target, uid, gid, now);
            (self.with_node(n), Ok(n))
        }
    }

    /// Removes a node.
    pub open spec fn delete_node(self, id: Uuid) -> (
        RepositoryModel,
        Result<(), RepositoryError>,
    ) {
        if self.nodes.contains_key(id) {
            (self.with_nodes(self.nodes.remove(id)), Ok(()))
        } else {
            (self, Err(RepositoryError::NotFound))
        }
    }

    /// `victim` is what a rename of `id` finds at its destination: one of the
    /// nodes in the way, or nothing where none is.
    pub open spec fn finds_at_destination(
        self,
        victim: Option<Uuid>,
        id: Uuid,
        parent: Uuid,
        name: Seq<u8>,
    ) -> bool {
        match victim {
            Some(v) => self.in_the_way(v, id, parent, name),
            None => forall|v: Uuid| !#[trigger] self.in_the_way(v, id, parent, name),
        }
    }

    /// `v` is a directory that still has children.
    pub open spec fn occupied_directory(self, v: Uuid) -> bool {
        self.nodes[v].kind == "directory"@ && self.has_children(v)
    }

    /// Moves a node to another name, replacing what it finds there.
    pub open spec fn rename_node(
        self,
        id: Uuid,
        new_parent_id: Uuid,
        new_name: Seq<u8>,
        victim: Option<Uuid>,
        now: Timestamp,
    ) -> (RepositoryModel, Result<(), RepositoryError>) {
        if !self.nodes.contains_key(id) {
            (self, Err(RepositoryError::NotFound))
        } else {
            let moved = relocated(self.nodes[id], new_parent_id, new_name, now);
            match victim {
                Some(v) => if self.occupied_directory(v) {
                    (self, Err(RepositoryError::DirectoryNotEmpty))
                } else {
                    (self.with_nodes(self.nodes.remove(v).insert(id, moved)), Ok(()))
                },
                None => (self.with_nodes(self.nodes.insert(id, moved)), Ok(())),
            }
        }
    }

    /// Moves a node to a name that is free.
    pub open spec fn publish_node(
        self,
        id: Uuid,
        new_parent_id: Uuid,
        new_name: Seq<u8>,
        now: Timestamp,
    ) -> (RepositoryModel, Result<(), RepositoryError>) {
        if !self.nodes.contains_key(id) {
            (self, Err(RepositoryError::NotFound))
        } else if exists|v: Uuid| self.in_the_way(v, id, new_parent_id, new_name) {
            (self, Err(RepositoryError::AlreadyExists))
        } else {
            let moved = relocated(self.nodes[id], new_parent_id, new_name, now);
            (self.with_nodes(self.nodes.insert(id, moved)), Ok(()))
        }
    }

    /// Sets the given attributes of a node.
    pub open spec fn update_node_attr(self, id: Uuid, patch: AttrPatch, now: Timestamp) -> (
        RepositoryModel,
        Result<NodeModel, RepositoryError>,
    ) {
        if self.nodes.contains_key(id) {
            let n = patched(self.nodes[id], patch, now);
            (self.with_nodes(self.nodes.insert(id, n)), Ok(n))
        } else {
            (self, Err(RepositoryError::NotFound))
        }
    }

    /// The children of `parent` in the order of a walk over the nodes.
    pub open spec fn children_in(self, order: Seq<Uuid>, parent: Uuid) -> Seq<NodeModel>
        decreases order.len(),
    {
        if order.len() == 0 {
            Seq::empty()
        } else {
            let earlier = self.children_in(order.drop_last(), parent);
            let id = order.last();
            if self.nodes.contains_key(id) && is_child(self.nodes[id], parent) {
                earlier.push(self.nodes[id])
            } else {
                earlier
            }
        }
    }

    // Versions and their chunks.

    /// Opens a version of `node_id` for writing.
    pub open spec fn create_staging_version(
        self,
        node_id: Uuid,
        base_version_id: Option<Uuid>,
        chunk_size: i64,
        version_id: Uuid,
        now: Timestamp,
    ) -> (RepositoryModel, Result<VersionModel, RepositoryError>) {
        if self.nodes.contains_key(node_id) {
            let n = self.nodes[node_id];
            let v = new_version(version_id, node_id, base_version_id, chunk_size, now);
            (
                RepositoryModel {
                    nodes: self.nodes.insert(
                        node_id,
                        NodeModel { generation: (n.generation + 1) as i64, ..n },
                    ),
                    versions: self.versions.insert(version_id, v),
                    chunks: self.chunks.insert(version_id, Map::empty()),
                    ..self
                },
                Ok(v),
            )
        } else {
            (self, Err(RepositoryError::NotFound))
        }
    }

    /// `v` is a version of `node_id` that is being written.
    pub open spec fn staging_of(self, v: Uuid, node_id: Uuid) -> bool {
        self.versions.contains_key(v) && self.versions[v].node_id == node_id && is_staging(
            self.versions[v],
        )
    }

    /// Notes that a version took more data: its size, and that it is in use.
    pub open spec fn touch_staging_version(
        self,
        version_id: Uuid,
        size: i64,
        now: Timestamp,
    ) -> RepositoryModel {
        if self.versions.contains_key(version_id) && is_staging(self.versions[version_id]) {
            RepositoryModel {
                versions: self.versions.insert(
                    version_id,
                    VersionModel { size, created_at: now, ..self.versions[version_id] },
                ),
                ..self
            }
        } else {
            self
        }
    }

    /// The size that the committed contents of `n` have.
    pub open spec fn committed_size(self, n: NodeModel) -> i64 {
        match n.current_version_id {
            Some(v) => if self.versions.contains_key(v) {
                self.versions[v].size
            } else {
                0
            },
            None => 0,
        }
    }

    /// The node of `id` is a file that is not being written and whose size is
    /// not that of its committed contents.
    pub open spec fn size_is_off(self, id: Uuid) -> bool {
        &&& self.nodes.contains_key(id)
        &&& self.nodes[id].kind == "file"@
        &&& forall|v: Uuid| !#[trigger] self.staging_of(v, id)
        &&& self.nodes[id].size != self.committed_size(self.nodes[id])
    }

    /// The nodes whose size is off.
    pub open spec fn nodes_off(self) -> Set<Uuid> {
        Set::new(|id: Uuid| self.size_is_off(id))
    }

    /// Sets the size of every file that is off.
    pub open spec fn reconcile_node_sizes(self) -> RepositoryModel {
        self.with_nodes(
            self.nodes.map_entries(
                |id: Uuid, n: NodeModel|
                    if self.size_is_off(id) {
                        NodeModel { size: self.committed_size(n), ..n }
                    } else {
                        n
                    },
            ),
        )
    }

    /// Puts a chunk into the manifest of its version.
    pub open spec fn attach_chunk(self, c: ChunkModel) -> (
        RepositoryModel,
        Result<(), RepositoryError>,
    ) {
        if self.chunks.contains_key(c.version_id) {
            let m = self.chunks[c.version_id].insert(c.chunk_index, c);
            (RepositoryModel { chunks: self.chunks.insert(c.version_id, m), ..self }, Ok(()))
        } else {
            (self, Err(RepositoryError::NotFound))
        }
    }

    /// The manifest of `version_id`, empty where there is none.
    pub open spec fn manifest(self, version_id: Uuid) -> Map<i64, ChunkModel> {
        if self.chunks.contains_key(version_id) {
            self.chunks[version_id]
        } else {
            Map::empty()
        }
    }

    /// The chunks that a copy carries over: those in the range, assigned to
    /// the target, at indices that the target does not have.
    pub open spec fn carried_over(
        self,
        from_version: Uuid,
        to_version: Uuid,
        first: i64,
        last: i64,
    ) -> Map<i64, ChunkModel> {
        reassigned(
            crate::manifest::within(self.manifest(from_version), first, last),
            to_version,
        ).remove_keys(self.manifest(to_version).dom())
    }

    /// Copies the chunks of a range into the manifest of another version. An
    /// empty range does nothing at all.
    pub open spec fn copy_chunk_range(
        self,
        from_version: Uuid,
        to_version: Uuid,
        first: i64,
        last: i64,
    ) -> RepositoryModel {
        if first > last {
            self
        } else {
            let merged = self.manifest(to_version).union_prefer_right(
                self.carried_over(from_version, to_version, first, last),
            );
            RepositoryModel { chunks: self.chunks.insert(to_version, merged), ..self }
        }
    }

    /// The versions once `old` gives way to another current version.
    pub open spec fn superseding(self, old: Option<Uuid>) -> Map<Uuid, VersionModel> {
        match old {
            Some(v) => if self.versions.contains_key(v) && self.versions[v].state == "committed"@ {
                self.versions.insert(
                    v,
                    VersionModel { state: "superseded"@, ..self.versions[v] },
                )
            } else {
                self.versions
            },
            None => self.versions,
        }
    }

    /// Makes a version the current one of its node, if the node is still as
    /// the guard expects it.
    pub open spec fn commit_version(
        self,
        guard: CommitGuard,
        total_size: i64,
        plaintext_hash: Seq<char>,
        now: Timestamp,
    ) -> (RepositoryModel, Result<VersionModel, RepositoryError>) {
        if !self.nodes.contains_key(guard.node_id) {
            (self, Err(RepositoryError::NotFound))
        } else {
            let n = self.nodes[guard.node_id];
            if n.generation != guard.expected_generation || n.current_version_id
                != guard.expected_current_version {
                (self, Err(RepositoryError::Conflict))
            } else if !self.versions.contains_key(guard.version_id) {
                (self, Err(RepositoryError::NotFound))
            } else {
                let v = VersionModel {
                    state: "committed"@,
                    size: total_size,
                    plaintext_hash,
                    committed_at: Some(now),
                    ..self.versions[guard.version_id]
                };
                (
                    RepositoryModel {
                        nodes: self.nodes.insert(
                            guard.node_id,
                            NodeModel {
                                current_version_id: Some(guard.version_id),
                                size: total_size,
                                ..n
                            },
                        ),
                        versions: self.superseding(n.current_version_id).insert(
                            guard.version_id,
                            v,
                        ),
                        ..self
                    },
                    Ok(v),
                )
            }
        }
    }

    // Object locators.

    /// Notes where an object is, in place of what was known of it.
    pub open spec fn put_object_locator(self, locator: LocatorModel) -> RepositoryModel {
        RepositoryModel {
            locators: self.locators.insert(locator.object_id, locator),
            ..self
        }
    }

    /// Notes another address of a known object.
    pub open spec fn touch_object_url(self, object_id: Uuid, url: Seq<char>) -> RepositoryModel {
        if self.locators.contains_key(object_id) {
            self.put_object_locator(LocatorModel { object_id, url })
        } else {
            self
        }
    }

    /// Forgets where an object is.
    pub open spec fn delete_object_locator(self, object_id: Uuid) -> RepositoryModel {
        RepositoryModel { locators: self.locators.remove(object_id), ..self }
    }

    // Sessions.

    /// Opens a session under a token hash, in place of what was there.
    pub open spec fn create_session(
        self,
        token_hash: Seq<char>,
        record: SessionModel,
    ) -> RepositoryModel {
        RepositoryModel {
            sessions: self.sessions.insert(token_hash, SessionState { record, revoked: false }),
            ..self
        }
    }

    /// The session of a token hash, if it is neither revoked nor expired.
    pub open spec fn find_session(self, token_hash: Seq<char>, now: Timestamp) -> Result<
        SessionModel,
        RepositoryError,
    > {
        if self.sessions.contains_key(token_hash) && !self.sessions[token_hash].revoked
            && now.before(self.sessions[token_hash].record.expires_at) {
            Ok(self.sessions[token_hash].record)
        } else {
            Err(RepositoryError::NotFound)
        }
    }

    /// The same repository with other sessions.
    pub open spec fn with_sessions(
        self,
        sessions: Map<Seq<char>, SessionState>,
    ) -> RepositoryModel {
        RepositoryModel { sessions, ..self }
    }

    // Garbage collection.

    /// `v` is the current version of a node that still exists.
    pub open spec fn is_current(self, v: Uuid) -> bool {
        &&& self.versions.contains_key(v)
        &&& self.nodes.contains_key(self.versions[v].node_id)
        &&& self.nodes[self.versions[v].node_id].current_version_id == Some(v)
    }

    /// `v` protects its chunks: it is current, or its upload could still be in
    /// progress.
    pub open spec fn is_live(self, v: Uuid, older_than: Timestamp) -> bool {
        &&& self.versions.contains_key(v)
        &&& {
            ||| is_staging(self.versions[v]) && !self.versions[v].created_at.before(older_than)
            ||| self.is_current(v)
        }
    }

    /// The version `v` has a chunk that `object` holds.
    pub open spec fn refers(self, v: Uuid, object: Uuid) -> bool {
        self.chunks.contains_key(v) && exists|i: i64| #[trigger]
            self.chunks[v].contains_key(i) && self.chunks[v][i].object_id == object
    }

    /// A live version refers to `object`.
    pub open spec fn is_protected(self, object: Uuid, older_than: Timestamp) -> bool {
        exists|v: Uuid| #[trigger] self.is_live(v, older_than) && self.refers(v, object)
    }

    /// `v` has a manifest, is not live, and was settled before `older_than`.
    pub open spec fn is_dead(self, v: Uuid, older_than: Timestamp) -> bool {
        &&& self.chunks.contains_key(v)
        &&& self.versions.contains_key(v)
        &&& !self.is_live(v, older_than)
        &&& settled_at(self.versions[v]).before(older_than)
    }

    /// `object` may be deleted: a dead version refers to it and no live one
    /// does.
    pub open spec fn is_collectable(self, object: Uuid, older_than: Timestamp) -> bool {
        &&& !self.is_protected(object, older_than)
        &&& exists|v: Uuid| #[trigger] self.is_dead(v, older_than) && self.refers(v, object)
    }

    /// `found` with the objects of `chunks` added that may be deleted and are
    /// not in it yet.
    pub open spec fn gathered(
        self,
        found: Seq<Uuid>,
        chunks: Seq<ChunkModel>,
        older_than: Timestamp,
    ) -> Seq<Uuid>
        decreases chunks.len(),
    {
        if chunks.len() == 0 {
            found
        } else {
            let earlier = self.gathered(found, chunks.drop_last(), older_than);
            let object = chunks.last().object_id;
            if self.is_protected(object, older_than) || earlier.contains(object) {
                earlier
            } else {
                earlier.push(object)
            }
        }
    }

    /// The objects that may be deleted, in the order in which a walk over the
    /// manifests comes upon them.
    pub open spec fn collectable_in(self, order: Seq<Uuid>, older_than: Timestamp) -> Seq<Uuid>
        decreases order.len(),
    {
        if order.len() == 0 {
            Seq::empty()
        } else {
            let earlier = self.collectable_in(order.drop_last(), older_than);
            if self.is_dead(order.last(), older_than) {
                self.gathered(
                    earlier,
                    crate::manifest::listing(self.chunks[order.last()]),
                    older_than,
                )
            } else {
                earlier
            }
        }
    }

    /// The places at which manifests refer to `object`.
    pub open spec fn references(self, object: Uuid) -> Set<(Uuid, i64)> {
        Set::new(
            |at: (Uuid, i64)|
                self.chunks.contains_key(at.0) && crate::manifest::uses_of(
                    self.chunks[at.0],
                    object,
                ).contains(at.1),
        )
    }

    /// Drops every chunk that refers to `object`.
    pub open spec fn forget_object(self, object: Uuid) -> RepositoryModel {
        RepositoryModel {
            chunks: self.chunks.map_values(
                |m: Map<i64, ChunkModel>| crate::manifest::without_object(m, object),
            ),
            ..self
        }
    }

    /// `v` has no chunks left, is not current, and was settled before
    /// `older_than`.
    pub open spec fn is_empty_and_dead(self, v: Uuid, older_than: Timestamp) -> bool {
        &&& self.versions.contains_key(v)
        &&& settled_at(self.versions[v]).before(older_than)
        &&& !self.is_current(v)
        &&& self.manifest(v) == Map::<i64, ChunkModel>::empty()
    }

    /// The versions that a purge removes.
    pub open spec fn doomed(self, older_than: Timestamp) -> Set<Uuid> {
        Set::new(|v: Uuid| self.is_empty_and_dead(v, older_than))
    }

    /// Removes the versions that have no chunks and no use.
    pub open spec fn purge_empty_dead_versions(self, older_than: Timestamp) -> RepositoryModel {
        RepositoryModel {
            versions: self.versions.remove_keys(self.doomed(older_than)),
            chunks: self.chunks.remove_keys(self.doomed(older_than)),
            ..self
        }
    }
}

/// The values of a list of nodes.
pub open spec fn node_models(nodes: Seq<NodeRecord>) -> Seq<NodeModel> {
    nodes.map_values(|n: NodeRecord| n@)
}

/// At most `limit` items of `s` from position `offset` on.
pub open spec fn page<T>(s: Seq<T>, limit: nat, offset: nat) -> Seq<T> {
    if offset >= s.len() {
        Seq::empty()
    } else if offset + limit >= s.len() {
        s.subrange(offset as int, s.len() as int)
    } else {
        s.subrange(offset as int, (offset + limit) as int)
    }
}

} // verus!
