//! Files, directories and symbolic links.

use super::MemoryMetadataRepository;
use crate::clock::{utc_now, Timestamp};
use crate::ident::Uuid;
use crate::model::AttrPatch;
use crate::records::{NodeRecord, RepositoryError};
use crate::text::{same_bytes, same_text};
use vstd::prelude::*;

verus! {

impl MemoryMetadataRepository {
    /// The node of `id`.
    pub fn get_node(&self, id: Uuid) -> (r: Result<NodeRecord, RepositoryError>)
        ensures
            crate::model::answer(r) == crate::model::lookup(self@.nodes, id),
    {
        match self.nodes.get(id) {
            Some(n) => Ok(n.clone()),
            None => Err(RepositoryError::NotFound),
        }
    }

    /// The root directory.
    pub fn get_root(&self) -> (r: Result<NodeRecord, RepositoryError>)
        ensures
            crate::model::answer(r) == crate::model::lookup(self@.nodes, self@.root_id),
    {
        self.get_node(self.root_id)
    }

    /// Makes a file or a directory at the time `now`.
    pub fn create_node_at(
        &mut self,
        id: Uuid,
        parent_id: Uuid,
        name: Vec<u8>,
        kind: &str,
        mode: i32,
        uid: i32,
        gid: i32,
        now: Timestamp,
    ) -> (r: Result<NodeRecord, RepositoryError>)
        requires
            old(self)@.wf(),
        ensures
            final(self)@.wf(),
            (final(self)@, crate::model::answer(r)) == old(self)@.create_node(
                id,
                parent_id,
                name@,
                kind@,
                mode,
                uid,
                gid,
                now,
            ),
    {
        if self.nodes.contains(id) {
            return Err(RepositoryError::AlreadyExists);
        }
        let record = NodeRecord {
            id,
            parent_id: Some(parent_id),
            name,
            kind: kind.to_owned(),
            mode,
            uid,
            gid,
            size: 0,
            atime: now,
            mtime: now,
            ctime: now,
            current_version_id: None,
            generation: 0,
            link_target: None,
        };
        self.nodes.insert(id, record.clone());
        Ok(record)
    }

    /// Makes a file or a directory. Its name is not compared with the names
    /// that its directory has.
    pub fn create_node(
        &mut self,
        id: Uuid,
        parent_id: Uuid,
        name: Vec<u8>,
        kind: &str,
        mode: i32,
        uid: i32,
        gid: i32,
    ) -> (r: Result<NodeRecord, RepositoryError>)
        requires
            old(self)@.wf(),
        ensures
            final(self)@.wf(),
            exists|now: Timestamp|
                crate::clock::is_reading(now) && (final(self)@, crate::model::answer(r))
                    == #[trigger] old(self)@.create_node(
                    id,
                    parent_id,
                    name@,
                    kind@,
                    mode,
                    uid,
                    gid,
                    now,
                ),
    {
        let now = utc_now();
        self.create_node_at(id, parent_id, name, kind, mode, uid, gid, now)
    }

    /// A node other than `except` that is the entry `name` of `parent`.
    fn find_entry(&self, parent: Uuid, name: &[u8], except: Option<Uuid>) -> (r: Option<Uuid>)
        ensures
            match r {
                Some(v) => self@.entry(v, parent, name@) && except != Some(v),
                None => forall|v: Uuid| #[trigger]
                    self@.entry(v, parent, name@) ==> except == Some(v),
            },
    {
        let ids = self.nodes.ids();
        let mut i: usize = 0;
        while i < ids.len()
            invariant
                crate::table::enumerates(ids@, self@.nodes.dom()),
                i <= ids.len(),
                forall|k: int|
                    0 <= k < i && self@.entry(#[trigger] ids@[k], parent, name@) ==> except
                        == Some(ids@[k]),
            decreases ids.len() - i,
        {
            let id: Uuid = ids[i];
            match self.nodes.get(id) {
                Some(n) => {
                    if n.parent_id == Some(parent) && same_bytes(n.name.as_slice(), name) {
                        if except != Some(id) {
                            return Some(id);
                        }
                    }
                },
                None => {},
            }
            i = i + 1;
        }
        proof {
            assert forall|v: Uuid| #[trigger] self@.entry(v, parent, name@) implies except == Some(
                v,
            ) by {
                assert(ids@.to_set().contains(v));
                let k = choose|k: int| 0 <= k < ids@.len() && ids@[k] == v;
                assert(self@.entry(ids@[k], parent, name@));
            }
        }
        None
    }

    /// Whether the directory `parent` has an entry.
    fn has_child(&self, parent: Uuid) -> (r: bool)
        ensures
            r == self@.has_children(parent),
    {
        let ids = self.nodes.ids();
        let mut i: usize = 0;
        while i < ids.len()
            invariant
                crate::table::enumerates(ids@, self@.nodes.dom()),
                i <= ids.len(),
                forall|k: int|
                    0 <= k < i && self@.nodes.contains_key(#[trigger] ids@[k])
                        ==> !crate::model::is_child(self@.nodes[ids@[k]], parent),
            decreases ids.len() - i,
        {
            match self.nodes.get(ids[i]) {
                Some(n) => {
                    if n.parent_id == Some(parent) {
                        return true;
                    }
                },
                None => {},
            }
            i = i + 1;
        }
        proof {
            assert forall|v: Uuid| #[trigger] self@.nodes.contains_key(v) implies
                !crate::model::is_child(self@.nodes[v], parent) by {
                assert(ids@.to_set().contains(v));
                let k = choose|k: int| 0 <= k < ids@.len() && ids@[k] == v;
                assert(self@.nodes.contains_key(ids@[k]));
            }
        }
        false
    }

    /// The entry `name` of the directory `parent`. Where there are several,
    /// one of them.
    pub fn find_child(&self, parent_id: Uuid, name: &[u8]) -> (r: Result<
        NodeRecord,
        RepositoryError,
    >)
        requires
            self@.wf(),
        ensures
            match r {
                Ok(n) => self@.entry(n.id, parent_id, name@) && n@ == self@.nodes[n.id],
                Err(e) => e == RepositoryError::NotFound && forall|v: Uuid|
                    !#[trigger] self@.entry(v, parent_id, name@),
            },
    {
        match self.find_entry(parent_id, name, None) {
            Some(id) => self.get_node(id),
            None => Err(RepositoryError::NotFound),
        }
    }

    /// At most `limit` children of `parent_id`, from position `offset` on in
    /// the order in which the nodes are walked. That order is arbitrary, and
    /// stays the same until the repository changes.
    pub fn list_children(&self, parent_id: Uuid, limit: u32, offset: u32) -> (r: Result<
        Vec<NodeRecord>,
        RepositoryError,
    >)
        ensures
            crate::table::enumerates(self.node_order(), self@.nodes.dom()),
            r matches Ok(nodes) && crate::model::node_models(nodes@) == crate::model::page(
                self@.children_in(self.node_order(), parent_id),
                limit as nat,
                offset as nat,
            ),
    {
        let ids = self.nodes.ids();
        let mut children: Vec<NodeRecord> = Vec::new();
        let mut seen: usize = 0;
        let mut i: usize = 0;
        assert(ids@.take(0) =~= Seq::empty());
        assert(crate::model::node_models(children@) =~= crate::model::page(
            self@.children_in(ids@.take(0), parent_id),
            limit as nat,
            offset as nat,
        ));
        while i < ids.len()
            invariant
                i <= ids.len(),
                seen <= i,
                seen == self@.children_in(ids@.take(i as int), parent_id).len(),
                crate::model::node_models(children@) == crate::model::page(
                    self@.children_in(ids@.take(i as int), parent_id),
                    limit as nat,
                    offset as nat,
                ),
            decreases ids.len() - i,
        {
            let ghost earlier = self@.children_in(ids@.take(i as int), parent_id);
            assert(ids@.take(i + 1).drop_last() =~= ids@.take(i as int));
            match self.nodes.get(ids[i]) {
                Some(n) => {
                    if n.parent_id == Some(parent_id) {
                        let ghost before = children@;
                        if seen >= offset as usize && children.len() < limit as usize {
                            children.push(n.clone());
                            assert(crate::model::node_models(children@)
                                =~= crate::model::node_models(before).push(n@));
                        }
                        seen = seen + 1;
                        assert(crate::model::node_models(children@) =~= crate::model::page(
                            earlier.push(n@),
                            limit as nat,
                            offset as nat,
                        ));
                    }
                },
                None => {},
            }
            i = i + 1;
        }
        assert(ids@.take(ids@.len() as int) =~= ids@);
        Ok(children)
    }

    /// Makes a symbolic link at the time `now`.
    pub fn create_symlink_at(
        &mut self,
        id: Uuid,
        parent_id: Uuid,
        name: Vec<u8>,
        target: Vec<u8>,
        uid: i32,
        gid: i32,
        now: Timestamp,
    ) -> (r: Result<NodeRecord, RepositoryError>)
        requires
            old(self)@.wf(),
        ensures
            final(self)@.wf(),
            (final(self)@, crate::model::answer(r)) == old(self)@.create_symlink(
                id,
                parent_id,
                name@,
                target@,
                uid,
                gid,
                now,
            ),
    {
        if self.nodes.contains(id) {
            return Err(RepositoryError::AlreadyExists);
        }
        if self.find_entry(parent_id, name.as_slice(), None).is_some() {
            return Err(RepositoryError::AlreadyExists);
        }
        let record = NodeRecord {
            id,
            parent_id: Some(parent_id),
            name,
            kind: "symlink".to_owned(),
            mode: 0o120777,
            uid,
            gid,
            size: target.len() as i64,
            atime: now,
            mtime: now,
            ctime: now,
            current_version_id: None,
            generation: 0,
            link_target: Some(target),
        };
        self.nodes.insert(id, record.clone());
        Ok(record)
    }

    /// Makes a symbolic link, unless its identifier or its name is taken.
    pub fn create_symlink(
        &mut self,
        id: Uuid,
        parent_id: Uuid,
        name: Vec<u8>,
        target: Vec<u8>,
        uid: i32,
        gid: i32,
    ) -> (r: Result<NodeRecord, RepositoryError>)
        requires
            old(self)@.wf(),
        ensures
            final(self)@.wf(),
            exists|now: Timestamp|
                crate::clock::is_reading(now) && (final(self)@, crate::model::answer(r))
                    == #[trigger] old(self)@.create_symlink(
                    id,
                    parent_id,
                    name@,
                    target@,
                    uid,
                    gid,
                    now,
                ),
    {
        let now = utc_now();
        self.create_symlink_at(id, parent_id, name, target, uid, gid, now)
    }

    /// Removes a node. Its children, if it has any, stay.
    pub fn delete_node(&mut self, id: Uuid) -> (r: Result<(), RepositoryError>)
        requires
            old(self)@.wf(),
        ensures
            final(self)@.wf(),
            (final(self)@, r) == old(self)@.delete_node(id),
    {
        match self.nodes.remove(id) {
            Some(n) => Ok(()),
            None => {
                assert(self@.nodes =~= old(self)@.nodes);
                Err(RepositoryError::NotFound)
            },
        }
    }

    /// Gives the node of `id` another name at the time `now`.
    fn relocate(&mut self, id: Uuid, new_parent_id: Uuid, new_name: Vec<u8>, now: Timestamp)
        requires
            old(self)@.wf(),
            old(self)@.nodes.contains_key(id),
        ensures
            final(self)@.wf(),
            final(self)@ == old(self)@.with_nodes(
                old(self)@.nodes.insert(
                    id,
                    crate::model::relocated(
                        old(self)@.nodes[id],
                        new_parent_id,
                        new_name@,
                        now,
                    ),
                ),
            ),
    {
        match self.nodes.remove(id) {
            Some(n) => {
                let mut node = n;
                node.parent_id = Some(new_parent_id);
                node.name = new_name;
                node.ctime = now;
                self.nodes.insert(id, node);
                assert(self@.nodes =~= old(self)@.nodes.insert(id, node@));
            },
            None => {},
        }
    }

    /// Moves a node to another name at the time `now`, where `victim` is what
    /// stands there.
    pub fn replace_node(
        &mut self,
        id: Uuid,
        new_parent_id: Uuid,
        new_name: Vec<u8>,
        victim: Option<Uuid>,
        now: Timestamp,
    ) -> (r: Result<(), RepositoryError>)
        requires
            old(self)@.wf(),
            old(self)@.finds_at_destination(victim, id, new_parent_id, new_name@),
        ensures
            final(self)@.wf(),
            (final(self)@, r) == old(self)@.rename_node(id, new_parent_id, new_name@, victim, now),
    {
        if !self.nodes.contains(id) {
            return Err(RepositoryError::NotFound);
        }
        match victim {
            Some(v) => {
                let is_directory: bool = match self.nodes.get(v) {
                    Some(n) => same_text(n.kind.as_str(), "directory"),
                    None => false,
                };
                if is_directory && self.has_child(v) {
                    return Err(RepositoryError::DirectoryNotEmpty);
                }
                let replaced = self.nodes.remove(v);
            },
            None => {},
        }
        self.relocate(id, new_parent_id, new_name, now);
        Ok(())
    }

    /// Moves a node to another name at the time `now`.
    pub fn rename_node_at(
        &mut self,
        id: Uuid,
        new_parent_id: Uuid,
        new_name: Vec<u8>,
        now: Timestamp,
    ) -> (r: Result<(), RepositoryError>)
        requires
            old(self)@.wf(),
        ensures
            final(self)@.wf(),
            exists|victim: Option<Uuid>| #[trigger]
                old(self)@.finds_at_destination(victim, id, new_parent_id, new_name@) && (
                final(self)@,
                r,
            ) == old(self)@.rename_node(id, new_parent_id, new_name@, victim, now),
    {
        let victim = self.find_entry(new_parent_id, new_name.as_slice(), Some(id));
        assert(self@.finds_at_destination(victim, id, new_parent_id, new_name@));
        self.replace_node(id, new_parent_id, new_name, victim, now)
    }

    /// Moves a node to another name, replacing what stands there. A directory
    /// that still has children is not replaced. Where several nodes stand
    /// there, one of them is replaced.
    pub fn rename_node(&mut self, id: Uuid, new_parent_id: Uuid, new_name: Vec<u8>) -> (r: Result<
        (),
        RepositoryError,
    >)
        requires
            old(self)@.wf(),
        ensures
            final(self)@.wf(),
            exists|victim: Option<Uuid>, now: Timestamp|
                crate::clock::is_reading(now) && old(self)@.finds_at_destination(
                    victim,
                    id,
                    new_parent_id,
                    new_name@,
                ) && (final(self)@, r) == #[trigger] old(self)@.rename_node(
                    id,
                    new_parent_id,
                    new_name@,
                    victim,
                    now,
                ),
    {
        let now = utc_now();
        self.rename_node_at(id, new_parent_id, new_name, now)
    }

    /// Moves a node to a free name at the time `now`.
    pub fn publish_node_at(
        &mut self,
        id: Uuid,
        new_parent_id: Uuid,
        new_name: Vec<u8>,
        now: Timestamp,
    ) -> (r: Result<(), RepositoryError>)
        requires
            old(self)@.wf(),
        ensures
            final(self)@.wf(),
            (final(self)@, r) == old(self)@.publish_node(id, new_parent_id, new_name@, now),
    {
        if !self.nodes.contains(id) {
            return Err(RepositoryError::NotFound);
        }
        match self.find_entry(new_parent_id, new_name.as_slice(), Some(id)) {
            Some(v) => {
                assert(self@.in_the_way(v, id, new_parent_id, new_name@));
                return Err(RepositoryError::AlreadyExists);
            },
            None => {},
        }
        self.relocate(id, new_parent_id, new_name, now);
        Ok(())
    }

    /// Moves a node to a name that no other node has.
    pub fn publish_node(&mut self, id: Uuid, new_parent_id: Uuid, new_name: Vec<u8>) -> (r: Result<
        (),
        RepositoryError,
    >)
        requires
            old(self)@.wf(),
        ensures
            final(self)@.wf(),
            exists|now: Timestamp|
                crate::clock::is_reading(now) && (final(self)@, r)
                    == #[trigger] old(self)@.publish_node(id, new_parent_id, new_name@, now),
    {
        let now = utc_now();
        self.publish_node_at(id, new_parent_id, new_name, now)
    }

    /// Sets the given attributes of a node at the time `now`.
    pub fn update_node_attr_at(
        &mut self,
        id: Uuid,
        mode: Option<i32>,
        uid: Option<i32>,
        gid: Option<i32>,
        size: Option<i64>,
        mtime: Option<Timestamp>,
        atime: Option<Timestamp>,
        now: Timestamp,
    ) -> (r: Result<NodeRecord, RepositoryError>)
        requires
            old(self)@.wf(),
        ensures
            final(self)@.wf(),
            (final(self)@, crate::model::answer(r)) == old(self)@.update_node_attr(
                id,
                AttrPatch { mode, uid, gid, size, mtime, atime },
                now,
            ),
    {
        match self.nodes.remove(id) {
            Some(n) => {
                let mut node = n;
                if let Some(m) = mode {
                    node.mode = m;
                }
                if let Some(u) = uid {
                    node.uid = u;
                }
                if let Some(g) = gid {
                    node.gid = g;
                }
                if let Some(s) = size {
                    node.size = s;
                }
                if let Some(m) = mtime {
                    node.mtime = m;
                }
                if let Some(a) = atime {
                    node.atime = a;
                }
                node.ctime = now;
                self.nodes.insert(id, node.clone());
                assert(self@.nodes =~= old(self)@.nodes.insert(id, node@));
                Ok(node)
            },
            None => {
                assert(self@.nodes =~= old(self)@.nodes);
                Err(RepositoryError::NotFound)
            },
        }
    }

    /// Sets the given attributes of a node; what is not given stays as it is.
    pub fn update_node_attr(
        &mut self,
        id: Uuid,
        mode: Option<i32>,
        uid: Option<i32>,
        gid: Option<i32>,
        size: Option<i64>,
        mtime: Option<Timestamp>,
        atime: Option<Timestamp>,
    ) -> (r: Result<NodeRecord, RepositoryError>)
        requires
            old(self)@.wf(),
        ensures
            final(self)@.wf(),
            exists|now: Timestamp|
                crate::clock::is_reading(now) && (final(self)@, crate::model::answer(r))
                    == #[trigger] old(self)@.update_node_attr(
                    id,
                    (AttrPatch { mode, uid, gid, size, mtime, atime }),
                    now,
                ),
    {
        let now = utc_now();
        self.update_node_attr_at(id, mode, uid, gid, size, mtime, atime, now)
    }
}

} // verus!
