//! What each request to the directory tree does to every record, and what it
//! leaves alone.

use crate::clock::Timestamp;
use crate::ident::Uuid;
use crate::model::{AttrPatch, RepositoryModel};
use crate::records::{NodeModel, RepositoryError};
use vstd::prelude::*;

verus! {

/// A new repository has one node and nothing else, and that node is a plain
/// directory of mode 755 that belongs to the superuser.
pub proof fn new_repositories_are_bare(root_id: Uuid, now: Timestamp)
    ensures
        ({
            let repo = RepositoryModel::fresh(root_id, now);
            let root = repo.nodes[root_id];
            &&& repo.root_id == root_id
            &&& forall|id: Uuid| #[trigger] repo.nodes.dom().contains(id) <==> id == root_id
            &&& root.id == root_id
            &&& root.parent_id is None
            &&& root.name.len() == 0
            &&& root.kind == "directory"@
            &&& root.mode == 16877
            &&& root.uid == 0 && root.gid == 0 && root.size == 0 && root.generation == 0
            &&& root.atime == now && root.mtime == now && root.ctime == now
            &&& root.current_version_id is None
            &&& root.link_target is None
            &&& forall|id: Uuid| !#[trigger] repo.versions.dom().contains(id)
            &&& forall|id: Uuid| !#[trigger] repo.chunks.dom().contains(id)
            &&& forall|t: Seq<char>| !#[trigger] repo.sessions.dom().contains(t)
            &&& forall|id: Uuid| !#[trigger] repo.locators.dom().contains(id)
        }),
{
}

/// A node that is made has what was given for it, is empty and as old as now,
/// and nothing else changes. An identifier that is taken is refused.
pub proof fn created_nodes_have_what_was_given(
    repo: RepositoryModel,
    id: Uuid,
    parent_id: Uuid,
    name: Seq<u8>,
    kind: Seq<char>,
    mode: i32,
    uid: i32,
    gid: i32,
    now: Timestamp,
)
    ensures
        ({
            let (after, r) = repo.create_node(id, parent_id, name, kind, mode, uid, gid, now);
            let n = after.nodes[id];
            if repo.nodes.dom().contains(id) {
                &&& after == repo
                &&& r == Err::<NodeModel, RepositoryError>(RepositoryError::AlreadyExists)
            } else {
                &&& r == Ok::<NodeModel, RepositoryError>(n)
                &&& n.id == id
                &&& n.parent_id == Some(parent_id)
                &&& n.name == name
                &&& n.kind == kind
                &&& n.mode == mode && n.uid == uid && n.gid == gid
                &&& n.size == 0 && n.generation == 0
                &&& n.atime == now && n.mtime == now && n.ctime == now
                &&& n.current_version_id is None
                &&& n.link_target is None
                &&& after.nodes.dom() == repo.nodes.dom().insert(id)
                &&& forall|other: Uuid|
                    other != id && repo.nodes.dom().contains(other)
                        ==> #[trigger] after.nodes[other] == repo.nodes[other]
                &&& after.versions == repo.versions
                &&& after.chunks == repo.chunks
                &&& after.sessions == repo.sessions
                &&& after.locators == repo.locators
                &&& after.root_id == repo.root_id
            }
        }),
{
    let after = repo.create_node(id, parent_id, name, kind, mode, uid, gid, now).0;
    if !repo.nodes.dom().contains(id) {
        assert(after.nodes.dom() =~= repo.nodes.dom().insert(id));
    }
}

/// A symbolic link that is made has what was given for it and the length of
/// its target as its size, and nothing else changes. It is refused exactly if
/// its identifier is taken or a node of that name is in the directory.
pub proof fn created_links_have_what_was_given(
    repo: RepositoryModel,
    id: Uuid,
    parent_id: Uuid,
    name: Seq<u8>,
    target: Seq<u8>,
    uid: i32,
    gid: i32,
    now: Timestamp,
)
    requires
        target.len() <= i64::MAX,
    ensures
        ({
            let (after, r) = repo.create_symlink(id, parent_id, name, target, uid, gid, now);
            let n = after.nodes[id];
            let taken = exists|v: Uuid| #[trigger]
                repo.nodes.dom().contains(v) && repo.nodes[v].parent_id == Some(parent_id)
                    && repo.nodes[v].name == name;
            if repo.nodes.dom().contains(id) || taken {
                &&& after == repo
                &&& r == Err::<NodeModel, RepositoryError>(RepositoryError::AlreadyExists)
            } else {
                &&& r == Ok::<NodeModel, RepositoryError>(n)
                &&& n.id == id
                &&& n.parent_id == Some(parent_id)
                &&& n.name == name
                &&& n.kind == "symlink"@
                &&& n.link_target == Some(target)
                &&& n.size == target.len()
                &&& n.mode == 41471 && n.uid == uid && n.gid == gid
                &&& n.generation == 0
                &&& n.atime == now && n.mtime == now && n.ctime == now
                &&& n.current_version_id is None
                &&& after.nodes.dom() == repo.nodes.dom().insert(id)
                &&& forall|other: Uuid|
                    other != id && repo.nodes.dom().contains(other)
                        ==> #[trigger] after.nodes[other] == repo.nodes[other]
                &&& after.versions == repo.versions
                &&& after.chunks == repo.chunks
                &&& after.sessions == repo.sessions
                &&& after.locators == repo.locators
                &&& after.root_id == repo.root_id
            }
        }),
{
    let (after, r) = repo.create_symlink(id, parent_id, name, target, uid, gid, now);
    if exists|v: Uuid| #[trigger]
        repo.nodes.dom().contains(v) && repo.nodes[v].parent_id == Some(parent_id)
            && repo.nodes[v].name == name {
        let v = choose|v: Uuid| #[trigger]
            repo.nodes.dom().contains(v) && repo.nodes[v].parent_id == Some(parent_id)
                && repo.nodes[v].name == name;
        assert(repo.entry(v, parent_id, name));
    }
    if r is Err && !repo.nodes.dom().contains(id) {
        let v = choose|v: Uuid| repo.entry(v, parent_id, name);
        assert(repo.nodes.dom().contains(v));
    }
    if r is Ok {
        assert(after.nodes.dom() =~= repo.nodes.dom().insert(id));
    }
}

/// Deleting takes away the one node that was named, whatever it is, and
/// nothing else. One that is not there is refused.
pub proof fn deleting_takes_one_node_away(repo: RepositoryModel, id: Uuid)
    ensures
        ({
            let (after, r) = repo.delete_node(id);
            if repo.nodes.dom().contains(id) {
                &&& r is Ok
                &&& after.nodes.dom() == repo.nodes.dom().remove(id)
                &&& forall|other: Uuid|
                    other != id && repo.nodes.dom().contains(other)
                        ==> #[trigger] after.nodes[other] == repo.nodes[other]
                &&& after.versions == repo.versions
                &&& after.chunks == repo.chunks
                &&& after.sessions == repo.sessions
                &&& after.locators == repo.locators
                &&& after.root_id == repo.root_id
            } else {
                &&& r == Err::<(), RepositoryError>(RepositoryError::NotFound)
                &&& after == repo
            }
        }),
{
    let after = repo.delete_node(id).0;
    if repo.nodes.dom().contains(id) {
        assert(after.nodes.dom() =~= repo.nodes.dom().remove(id));
    }
}

/// What a rename finds at its destination is a node other than the one that
/// moves, in that directory and of that name; nothing only if there is none.
pub proof fn renames_find_what_is_there(
    repo: RepositoryModel,
    victim: Option<Uuid>,
    id: Uuid,
    parent: Uuid,
    name: Seq<u8>,
)
    ensures
        repo.finds_at_destination(victim, id, parent, name) <==> match victim {
            Some(v) => v != id && repo.nodes.dom().contains(v) && repo.nodes[v].parent_id == Some(
                parent,
            ) && repo.nodes[v].name == name,
            None => forall|v: Uuid| #[trigger]
                repo.nodes.dom().contains(v) && repo.nodes[v].parent_id == Some(parent)
                    && repo.nodes[v].name == name ==> v == id,
        },
{
    if victim is None {
        if repo.finds_at_destination(victim, id, parent, name) {
            assert forall|v: Uuid| #[trigger]
                repo.nodes.dom().contains(v) && repo.nodes[v].parent_id == Some(parent)
                    && repo.nodes[v].name == name implies v == id by {
                assert(!repo.in_the_way(v, id, parent, name));
            }
        }
        if forall|v: Uuid| #[trigger]
            repo.nodes.dom().contains(v) && repo.nodes[v].parent_id == Some(parent)
                && repo.nodes[v].name == name ==> v == id {
            assert forall|v: Uuid| !#[trigger] repo.in_the_way(v, id, parent, name) by {
                if repo.in_the_way(v, id, parent, name) {
                    assert(repo.nodes.dom().contains(v));
                }
            }
        }
    }
}

/// A rename is refused with `DirectoryNotEmpty` exactly if what it finds is a
/// directory that some node, of whatever kind, has as its parent. Otherwise it
/// goes through: the node has its new place and the time of the change,
/// keeps everything else, what was found is gone, and nothing else changes.
pub proof fn renames_replace_unless_something_is_inside(
    repo: RepositoryModel,
    id: Uuid,
    parent: Uuid,
    name: Seq<u8>,
    victim: Option<Uuid>,
    now: Timestamp,
)
    requires
        repo.finds_at_destination(victim, id, parent, name),
    ensures
        ({
            let (after, r) = repo.rename_node(id, parent, name, victim, now);
            let inside = exists|c: Uuid| #[trigger]
                repo.nodes.dom().contains(c) && victim is Some && repo.nodes[c].parent_id == victim;
            if !repo.nodes.dom().contains(id) {
                &&& r == Err::<(), RepositoryError>(RepositoryError::NotFound)
                &&& after == repo
            } else if victim is Some && repo.nodes[victim->0].kind == "directory"@ && inside {
                &&& r == Err::<(), RepositoryError>(RepositoryError::DirectoryNotEmpty)
                &&& after == repo
            } else {
                let n = after.nodes[id];
                let o = repo.nodes[id];
                &&& r is Ok
                &&& n.parent_id == Some(parent) && n.name == name && n.ctime == now
                &&& n.id == o.id && n.kind == o.kind
                &&& n.mode == o.mode && n.uid == o.uid && n.gid == o.gid && n.size == o.size
                &&& n.atime == o.atime && n.mtime == o.mtime
                &&& n.current_version_id == o.current_version_id
                &&& n.generation == o.generation && n.link_target == o.link_target
                &&& forall|v: Uuid| #[trigger]
                    after.nodes.dom().contains(v) <==> repo.nodes.dom().contains(v) && victim
                        != Some(v)
                &&& forall|v: Uuid|
                    v != id && after.nodes.dom().contains(v) ==> #[trigger] after.nodes[v]
                        == repo.nodes[v]
                &&& after.versions == repo.versions
                &&& after.chunks == repo.chunks
                &&& after.sessions == repo.sessions
                &&& after.locators == repo.locators
                &&& after.root_id == repo.root_id
            }
        }),
{
    renames_find_what_is_there(repo, victim, id, parent, name);
    if victim is Some {
        let v = victim->0;
        if exists|c: Uuid| #[trigger]
            repo.nodes.dom().contains(c) && victim is Some && repo.nodes[c].parent_id == victim {
            let c = choose|c: Uuid| #[trigger]
                repo.nodes.dom().contains(c) && victim is Some && repo.nodes[c].parent_id
                    == victim;
            assert(repo.nodes.contains_key(c) && crate::model::is_child(repo.nodes[c], v));
            assert(repo.has_children(v));
        }
        if repo.has_children(v) {
            let c = choose|c: Uuid| #[trigger]
                repo.nodes.contains_key(c) && crate::model::is_child(repo.nodes[c], v);
            assert(repo.nodes.dom().contains(c) && repo.nodes[c].parent_id == victim);
        }
    }
}

/// A rename that goes through orphans nothing: a node that had a directory as
/// its parent, and is still there, does not find that directory gone.
pub proof fn renames_orphan_nothing(
    repo: RepositoryModel,
    id: Uuid,
    parent: Uuid,
    name: Seq<u8>,
    victim: Option<Uuid>,
    now: Timestamp,
    c: Uuid,
    p: Uuid,
)
    requires
        repo.finds_at_destination(victim, id, parent, name),
        repo.rename_node(id, parent, name, victim, now).1 is Ok,
        repo.nodes.dom().contains(c),
        repo.nodes.dom().contains(p),
        repo.nodes[p].kind == "directory"@,
        repo.nodes[c].parent_id == Some(p),
    ensures
        repo.rename_node(id, parent, name, victim, now).0.nodes.dom().contains(p),
{
    renames_replace_unless_something_is_inside(repo, id, parent, name, victim, now);
    if victim == Some(p) {
        assert(repo.nodes.dom().contains(c) && repo.nodes[c].parent_id == victim);
    }
}

/// A publication is refused with `AlreadyExists` exactly if another node of
/// that name is in the directory, whatever it is. Otherwise the node has its
/// new place, and nothing else changes.
pub proof fn publications_need_a_free_name(
    repo: RepositoryModel,
    id: Uuid,
    parent: Uuid,
    name: Seq<u8>,
    now: Timestamp,
)
    ensures
        ({
            let (after, r) = repo.publish_node(id, parent, name, now);
            let taken = exists|v: Uuid| #[trigger]
                repo.nodes.dom().contains(v) && v != id && repo.nodes[v].parent_id == Some(parent)
                    && repo.nodes[v].name == name;
            if !repo.nodes.dom().contains(id) {
                &&& r == Err::<(), RepositoryError>(RepositoryError::NotFound)
                &&& after == repo
            } else if taken {
                &&& r == Err::<(), RepositoryError>(RepositoryError::AlreadyExists)
                &&& after == repo
            } else {
                let n = after.nodes[id];
                let o = repo.nodes[id];
                &&& r is Ok
                &&& n.parent_id == Some(parent) && n.name == name && n.ctime == now
                &&& n.id == o.id && n.kind == o.kind
                &&& n.mode == o.mode && n.uid == o.uid && n.gid == o.gid && n.size == o.size
                &&& n.atime == o.atime && n.mtime == o.mtime
                &&& n.current_version_id == o.current_version_id
                &&& n.generation == o.generation && n.link_target == o.link_target
                &&& after.nodes.dom() == repo.nodes.dom()
                &&& forall|v: Uuid|
                    v != id && repo.nodes.dom().contains(v) ==> #[trigger] after.nodes[v]
                        == repo.nodes[v]
                &&& after.versions == repo.versions
                &&& after.chunks == repo.chunks
                &&& after.sessions == repo.sessions
                &&& after.locators == repo.locators
                &&& after.root_id == repo.root_id
            }
        }),
{
    let (after, r) = repo.publish_node(id, parent, name, now);
    if exists|v: Uuid| #[trigger]
        repo.nodes.dom().contains(v) && v != id && repo.nodes[v].parent_id == Some(parent)
            && repo.nodes[v].name == name {
        let v = choose|v: Uuid| #[trigger]
            repo.nodes.dom().contains(v) && v != id && repo.nodes[v].parent_id == Some(parent)
                && repo.nodes[v].name == name;
        assert(repo.in_the_way(v, id, parent, name));
    }
    if exists|v: Uuid| repo.in_the_way(v, id, parent, name) {
        let v = choose|v: Uuid| repo.in_the_way(v, id, parent, name);
        assert(repo.nodes.dom().contains(v));
    }
    if r is Ok {
        assert(after.nodes.dom() =~= repo.nodes.dom());
    }
}

/// An update sets each attribute that was given to exactly what was given,
/// whatever it was before, leaves the others, and notes the time of the
/// change. Nothing else changes.
pub proof fn updates_set_what_was_given(
    repo: RepositoryModel,
    id: Uuid,
    patch: AttrPatch,
    now: Timestamp,
)
    ensures
        ({
            let (after, r) = repo.update_node_attr(id, patch, now);
            if repo.nodes.dom().contains(id) {
                let n = after.nodes[id];
                let o = repo.nodes[id];
                &&& r == Ok::<NodeModel, RepositoryError>(n)
                &&& patch.mode is Some ==> n.mode == patch.mode->0
                &&& patch.mode is None ==> n.mode == o.mode
                &&& patch.uid is Some ==> n.uid == patch.uid->0
                &&& patch.uid is None ==> n.uid == o.uid
                &&& patch.gid is Some ==> n.gid == patch.gid->0
                &&& patch.gid is None ==> n.gid == o.gid
                &&& patch.size is Some ==> n.size == patch.size->0
                &&& patch.size is None ==> n.size == o.size
                &&& patch.mtime is Some ==> n.mtime == patch.mtime->0
                &&& patch.mtime is None ==> n.mtime == o.mtime
                &&& patch.atime is Some ==> n.atime == patch.atime->0
                &&& patch.atime is None ==> n.atime == o.atime
                &&& n.ctime == now
                &&& n.id == o.id && n.parent_id == o.parent_id && n.name == o.name
                &&& n.kind == o.kind
                &&& n.current_version_id == o.current_version_id
                &&& n.generation == o.generation && n.link_target == o.link_target
                &&& after.nodes.dom() == repo.nodes.dom()
                &&& forall|v: Uuid|
                    v != id && repo.nodes.dom().contains(v) ==> #[trigger] after.nodes[v]
                        == repo.nodes[v]
                &&& after.versions == repo.versions
                &&& after.chunks == repo.chunks
                &&& after.sessions == repo.sessions
                &&& after.locators == repo.locators
                &&& after.root_id == repo.root_id
            } else {
                &&& r == Err::<NodeModel, RepositoryError>(RepositoryError::NotFound)
                &&& after == repo
            }
        }),
{
    let after = repo.update_node_attr(id, patch, now).0;
    if repo.nodes.dom().contains(id) {
        assert(after.nodes.dom() =~= repo.nodes.dom());
    }
}

/// Of two updates of the same attributes the second counts: it leaves nothing
/// of the first.
pub proof fn the_last_update_counts(
    repo: RepositoryModel,
    id: Uuid,
    first: AttrPatch,
    second: AttrPatch,
    earlier: Timestamp,
    now: Timestamp,
)
    requires
        first.mode is Some ==> second.mode is Some,
        first.uid is Some ==> second.uid is Some,
        first.gid is Some ==> second.gid is Some,
        first.size is Some ==> second.size is Some,
        first.mtime is Some ==> second.mtime is Some,
        first.atime is Some ==> second.atime is Some,
    ensures
        repo.update_node_attr(id, first, earlier).0.update_node_attr(id, second, now)
            == repo.update_node_attr(id, second, now),
{
    let twice = repo.update_node_attr(id, first, earlier).0.update_node_attr(id, second, now).0;
    let once = repo.update_node_attr(id, second, now).0;
    assert(twice.nodes =~= once.nodes);
}

/// The entries of a directory are the nodes that have it as their parent and
/// that name, and it has children exactly if some node, of whatever kind, has
/// it as its parent.
pub proof fn entries_are_nodes_with_that_parent_and_name(
    repo: RepositoryModel,
    id: Uuid,
    parent: Uuid,
    name: Seq<u8>,
)
    ensures
        repo.entry(id, parent, name) <==> repo.nodes.dom().contains(id) && repo.nodes[id].parent_id
            == Some(parent) && repo.nodes[id].name == name,
        repo.has_children(parent) <==> exists|c: Uuid| #[trigger]
            repo.nodes.dom().contains(c) && repo.nodes[c].parent_id == Some(parent),
{
    if repo.has_children(parent) {
        let c = choose|c: Uuid| #[trigger]
            repo.nodes.contains_key(c) && crate::model::is_child(repo.nodes[c], parent);
        assert(repo.nodes.dom().contains(c) && repo.nodes[c].parent_id == Some(parent));
    }
    if exists|c: Uuid| #[trigger]
        repo.nodes.dom().contains(c) && repo.nodes[c].parent_id == Some(parent) {
        let c = choose|c: Uuid| #[trigger]
            repo.nodes.dom().contains(c) && repo.nodes[c].parent_id == Some(parent);
        assert(repo.nodes.contains_key(c) && crate::model::is_child(repo.nodes[c], parent));
    }
}

/// A listing is the walk over the nodes with everything left out that has
/// another parent: the children keep the order of the walk.
pub proof fn listings_keep_the_order_of_the_walk(
    repo: RepositoryModel,
    order: Seq<Uuid>,
    parent: Uuid,
)
    ensures
        repo.children_in(order, parent) == order.filter(
            |id: Uuid| repo.nodes.dom().contains(id) && repo.nodes[id].parent_id == Some(parent),
        ).map_values(|id: Uuid| repo.nodes[id]),
    decreases order.len(),
{
    let inside = |id: Uuid|
        repo.nodes.dom().contains(id) && repo.nodes[id].parent_id == Some(parent);
    let of = |id: Uuid| repo.nodes[id];
    reveal(Seq::filter);
    if order.len() > 0 {
        listings_keep_the_order_of_the_walk(repo, order.drop_last(), parent);
        let rest = order.drop_last().filter(inside);
        assert(rest.push(order.last()).map_values(of) =~= rest.map_values(of).push(
            repo.nodes[order.last()],
        ));
    }
    assert(repo.children_in(order, parent) =~= order.filter(inside).map_values(of));
}

/// A page is the items from its offset on, as many as were asked for or as
/// there are.
pub proof fn pages_are_cut_where_they_should<T>(s: Seq<T>, limit: nat, offset: nat)
    ensures
        ({
            let p = crate::model::page(s, limit, offset);
            &&& p.len() <= limit
            &&& offset >= s.len() ==> p.len() == 0
            &&& offset < s.len() && s.len() - offset <= limit ==> p.len() == s.len() - offset
            &&& offset < s.len() && s.len() - offset > limit ==> p.len() == limit
            &&& forall|i: int| 0 <= i < p.len() ==> #[trigger] p[i] == s[offset + i]
        }),
{
}

} // verus!
