//! What holds of the directory tree, whatever is asked of it.

use crate::clock::Timestamp;
use crate::ident::Uuid;
use crate::model::{AttrPatch, RepositoryModel};
use crate::records::{CommitGuard, NodeModel, RepositoryError};
use vstd::prelude::*;

verus! {

/// A new repository holds one node, its root: a directory without a name,
/// without a parent and without children.
pub proof fn new_repository_holds_its_root(root_id: Uuid, now: Timestamp)
    ensures
        ({
            let repo = RepositoryModel::fresh(root_id, now);
            &&& repo.wf()
            &&& repo.names_unique()
            &&& crate::model::lookup(repo.nodes, repo.root_id) matches Ok(root)
            &&& root.id == root_id
            &&& root.parent_id is None
            &&& root.name.len() == 0
            &&& root.kind == "directory"@
            &&& !repo.has_children(root_id)
            &&& forall|id: Uuid| #[trigger] repo.nodes.contains_key(id) <==> id == root_id
        }),
{
    let repo = RepositoryModel::fresh(root_id, now);
    assert(repo.nodes.contains_key(root_id));
    assert(repo.versions.dom().subset_of(repo.chunks.dom()));
}

/// A node that was made is found under its identifier, and its identifier
/// cannot be used again.
pub proof fn created_node_is_found(
    repo: RepositoryModel,
    id: Uuid,
    parent_id: Uuid,
    name: Seq<u8>,
    kind: Seq<char>,
    mode: i32,
    uid: i32,
    gid: i32,
    now: Timestamp,
)
    ensures
        ({
            let (after, r) = repo.create_node(id, parent_id, name, kind, mode, uid, gid, now);
            &&& r is Ok <==> !repo.nodes.contains_key(id)
            &&& r is Ok ==> crate::model::lookup(after.nodes, id) == r
            &&& r is Ok ==> after.entry(id, parent_id, name)
            &&& forall|other: Uuid|
                other != id ==> crate::model::lookup(after.nodes, other)
                    == #[trigger] crate::model::lookup(repo.nodes, other)
            &&& forall|
                p: Uuid,
                n: Seq<u8>,
                k: Seq<char>,
                m: i32,
                u: i32,
                g: i32,
                t: Timestamp,
            |
                #[trigger] after.create_node(id, p, n, k, m, u, g, t) == (
                    after,
                    Err::<NodeModel, RepositoryError>(RepositoryError::AlreadyExists),
                )
        }),
{
}

/// A node that was deleted is not found, cannot be deleted again, and is the
/// only one that went.
pub proof fn deleted_node_is_gone(repo: RepositoryModel, id: Uuid)
    ensures
        ({
            let (after, r) = repo.delete_node(id);
            &&& r is Ok <==> repo.nodes.contains_key(id)
            &&& crate::model::lookup(after.nodes, id) == Err::<NodeModel, RepositoryError>(
                RepositoryError::NotFound,
            )
            &&& after.delete_node(id) == (after, Err::<(), RepositoryError>(RepositoryError::NotFound))
            &&& forall|other: Uuid|
                other != id ==> crate::model::lookup(after.nodes, other)
                    == #[trigger] crate::model::lookup(repo.nodes, other)
        }),
{
}

/// Making a node and deleting it leaves the repository as it was.
pub proof fn deleting_undoes_creating(
    repo: RepositoryModel,
    id: Uuid,
    parent_id: Uuid,
    name: Seq<u8>,
    kind: Seq<char>,
    mode: i32,
    uid: i32,
    gid: i32,
    now: Timestamp,
)
    requires
        !repo.nodes.contains_key(id),
    ensures
        repo.create_node(id, parent_id, name, kind, mode, uid, gid, now).0.delete_node(id) == (
            repo,
            Ok::<(), RepositoryError>(()),
        ),
{
    let after = repo.create_node(id, parent_id, name, kind, mode, uid, gid, now).0;
    assert(after.nodes.remove(id) =~= repo.nodes);
    assert(after.delete_node(id).0 =~= repo);
}

/// A rename keeps the node's identity, attributes and contents, puts it at the
/// destination, and removes at most one other node: what was there.
pub proof fn rename_moves_and_replaces(
    repo: RepositoryModel,
    id: Uuid,
    parent: Uuid,
    name: Seq<u8>,
    victim: Option<Uuid>,
    now: Timestamp,
)
    requires
        repo.finds_at_destination(victim, id, parent, name),
    ensures
        ({
            let (after, r) = repo.rename_node(id, parent, name, victim, now);
            &&& r == Err::<(), RepositoryError>(RepositoryError::NotFound)
                <==> !repo.nodes.contains_key(id)
            &&& r is Err ==> after == repo
            &&& r is Ok ==> {
                &&& after.entry(id, parent, name)
                &&& after.nodes[id] == (NodeModel {
                    parent_id: Some(parent),
                    name,
                    ctime: now,
                    ..repo.nodes[id]
                })
                &&& victim is Some ==> !after.nodes.contains_key(victim->0)
                &&& forall|other: Uuid|
                    other != id && Some(other) != victim ==> crate::model::lookup(
                        after.nodes,
                        other,
                    ) == #[trigger] crate::model::lookup(repo.nodes, other)
                &&& after == repo.with_nodes(after.nodes)
            }
        }),
{
}

/// A rename onto a directory that has children is refused, and nothing
/// changes.
pub proof fn rename_spares_occupied_directories(
    repo: RepositoryModel,
    id: Uuid,
    parent: Uuid,
    name: Seq<u8>,
    victim: Uuid,
    now: Timestamp,
)
    requires
        repo.nodes.contains_key(id),
        repo.in_the_way(victim, id, parent, name),
        repo.occupied_directory(victim),
    ensures
        repo.rename_node(id, parent, name, Some(victim), now) == (
            repo,
            Err::<(), RepositoryError>(RepositoryError::DirectoryNotEmpty),
        ),
{
}

/// Publishing a node never replaces another: where the name is taken it is
/// refused, and every other node stays as it was.
pub proof fn publish_never_replaces(
    repo: RepositoryModel,
    id: Uuid,
    parent: Uuid,
    name: Seq<u8>,
    now: Timestamp,
)
    ensures
        ({
            let (after, r) = repo.publish_node(id, parent, name, now);
            &&& r is Ok ==> after.entry(id, parent, name)
            &&& r is Err ==> after == repo
            &&& (exists|v: Uuid| repo.in_the_way(v, id, parent, name)) ==> r is Err
            &&& repo.nodes.contains_key(id) && r is Err ==> r == Err::<(), RepositoryError>(
                RepositoryError::AlreadyExists,
            )
            &&& after.nodes.dom() == repo.nodes.dom()
            &&& forall|other: Uuid|
                other != id ==> crate::model::lookup(after.nodes, other)
                    == #[trigger] crate::model::lookup(repo.nodes, other)
        }),
{
    let after = repo.publish_node(id, parent, name, now).0;
    assert(after.nodes.dom() =~= repo.nodes.dom());
}

/// Where a publication goes through, a rename would have done the same.
pub proof fn publish_is_a_rename_that_replaces_nothing(
    repo: RepositoryModel,
    id: Uuid,
    parent: Uuid,
    name: Seq<u8>,
    now: Timestamp,
)
    requires
        repo.publish_node(id, parent, name, now).1 is Ok,
    ensures
        repo.finds_at_destination(None, id, parent, name),
        repo.rename_node(id, parent, name, None, now) == repo.publish_node(id, parent, name, now),
{
}

/// An update sets what it was given and `ctime`, and nothing else of the node.
pub proof fn update_sets_only_what_was_given(
    repo: RepositoryModel,
    id: Uuid,
    patch: AttrPatch,
    now: Timestamp,
)
    requires
        repo.nodes.contains_key(id),
    ensures
        ({
            let before = repo.nodes[id];
            let (after, r) = repo.update_node_attr(id, patch, now);
            &&& r == crate::model::lookup(after.nodes, id)
            &&& r matches Ok(n)
            &&& n == (NodeModel {
                mode: n.mode,
                uid: n.uid,
                gid: n.gid,
                size: n.size,
                mtime: n.mtime,
                atime: n.atime,
                ctime: now,
                ..before
            })
            &&& patch.mode is None ==> n.mode == before.mode
            &&& patch.uid is None ==> n.uid == before.uid
            &&& patch.gid is None ==> n.gid == before.gid
            &&& patch.size is None ==> n.size == before.size
            &&& patch.mtime is None ==> n.mtime == before.mtime
            &&& patch.atime is None ==> n.atime == before.atime
            &&& after.update_node_attr(id, patch, now) == (after, r)
        }),
{
    let (after, r) = repo.update_node_attr(id, patch, now);
    let again = after.update_node_attr(id, patch, now);
    assert(again.0.nodes =~= after.nodes);
}

/// Names stay unique: no request that moves, links or removes a node gives a
/// directory two entries of one name.
pub proof fn names_stay_unique(
    repo: RepositoryModel,
    id: Uuid,
    parent: Uuid,
    name: Seq<u8>,
    target: Seq<u8>,
    uid: i32,
    gid: i32,
    victim: Option<Uuid>,
    patch: AttrPatch,
    now: Timestamp,
)
    requires
        repo.wf(),
        repo.names_unique(),
        repo.finds_at_destination(victim, id, parent, name),
    ensures
        repo.create_symlink(id, parent, name, target, uid, gid, now).0.names_unique(),
        repo.delete_node(id).0.names_unique(),
        repo.rename_node(id, parent, name, victim, now).0.names_unique(),
        repo.publish_node(id, parent, name, now).0.names_unique(),
        repo.update_node_attr(id, patch, now).0.names_unique(),
{
    lemma_unique_after_symlink(repo, id, parent, name, target, uid, gid, now);
    lemma_unique_after_removal(repo, id);
    lemma_unique_after_move(repo, id, parent, name, victim, now);
    if repo.publish_node(id, parent, name, now).1 is Ok {
        publish_is_a_rename_that_replaces_nothing(repo, id, parent, name, now);
        lemma_unique_after_move(repo, id, parent, name, None, now);
    }
    lemma_unique_after_update(repo, id, patch, now);
}

/// Making a node keeps names unique as long as its name is free. The name is
/// not looked at, so it is the caller who sees to that.
pub proof fn names_stay_unique_if_the_new_name_is_free(
    repo: RepositoryModel,
    id: Uuid,
    parent_id: Uuid,
    name: Seq<u8>,
    kind: Seq<char>,
    mode: i32,
    uid: i32,
    gid: i32,
    now: Timestamp,
)
    requires
        repo.names_unique(),
        forall|v: Uuid| !#[trigger] repo.entry(v, parent_id, name),
    ensures
        repo.create_node(id, parent_id, name, kind, mode, uid, gid, now).0.names_unique(),
{
    let after = repo.create_node(id, parent_id, name, kind, mode, uid, gid, now).0;
    assert forall|a: Uuid, b: Uuid, p: Uuid, n: Seq<u8>| #[trigger]
        after.entry(a, p, n) && #[trigger] after.entry(b, p, n) implies a == b by {
        if a != id {
            assert(repo.entry(a, p, n));
        }
        if b != id {
            assert(repo.entry(b, p, n));
        }
    }
}

/// Writing never moves a node: after a version was opened or committed, or
/// sizes were reconciled, the same nodes have the same names in the same
/// directories.
pub proof fn writing_moves_nothing(
    repo: RepositoryModel,
    node_id: Uuid,
    base: Option<Uuid>,
    chunk_size: i64,
    version_id: Uuid,
    guard: CommitGuard,
    total_size: i64,
    hash: Seq<char>,
    now: Timestamp,
    id: Uuid,
    parent: Uuid,
    name: Seq<u8>,
)
    ensures
        repo.create_staging_version(node_id, base, chunk_size, version_id, now).0.entry(
            id,
            parent,
            name,
        ) == repo.entry(id, parent, name),
        repo.commit_version(guard, total_size, hash, now).0.entry(id, parent, name) == repo.entry(
            id,
            parent,
            name,
        ),
        repo.reconcile_node_sizes().entry(id, parent, name) == repo.entry(id, parent, name),
{
}

proof fn lemma_unique_after_symlink(
    repo: RepositoryModel,
    id: Uuid,
    parent: Uuid,
    name: Seq<u8>,
    target: Seq<u8>,
    uid: i32,
    gid: i32,
    now: Timestamp,
)
    requires
        repo.names_unique(),
    ensures
        repo.create_symlink(id, parent, name, target, uid, gid, now).0.names_unique(),
{
    let (after, r) = repo.create_symlink(id, parent, name, target, uid, gid, now);
    if r is Ok {
        assert forall|a: Uuid, b: Uuid, p: Uuid, n: Seq<u8>| #[trigger]
            after.entry(a, p, n) && #[trigger] after.entry(b, p, n) implies a == b by {
            if a != id {
                assert(repo.entry(a, p, n));
            }
            if b != id {
                assert(repo.entry(b, p, n));
            }
        }
    }
}

proof fn lemma_unique_after_removal(repo: RepositoryModel, id: Uuid)
    requires
        repo.names_unique(),
    ensures
        repo.delete_node(id).0.names_unique(),
{
    let after = repo.delete_node(id).0;
    assert forall|a: Uuid, b: Uuid, p: Uuid, n: Seq<u8>| #[trigger]
        after.entry(a, p, n) && #[trigger] after.entry(b, p, n) implies a == b by {
        assert(repo.entry(a, p, n));
        assert(repo.entry(b, p, n));
    }
}

proof fn lemma_unique_after_move(
    repo: RepositoryModel,
    id: Uuid,
    parent: Uuid,
    name: Seq<u8>,
    victim: Option<Uuid>,
    now: Timestamp,
)
    requires
        repo.names_unique(),
        repo.finds_at_destination(victim, id, parent, name),
    ensures
        repo.rename_node(id, parent, name, victim, now).0.names_unique(),
{
    let (after, r) = repo.rename_node(id, parent, name, victim, now);
    if r is Ok {
        assert forall|a: Uuid, b: Uuid, p: Uuid, n: Seq<u8>| #[trigger]
            after.entry(a, p, n) && #[trigger] after.entry(b, p, n) implies a == b by {
            if a != id {
                assert(repo.entry(a, p, n));
                assert(repo.in_the_way(a, id, p, n));
            }
            if b != id {
                assert(repo.entry(b, p, n));
                assert(repo.in_the_way(b, id, p, n));
            }
            if let Some(v) = victim {
                assert(repo.entry(v, parent, name));
            }
        }
    }
}

proof fn lemma_unique_after_update(
    repo: RepositoryModel,
    id: Uuid,
    patch: AttrPatch,
    now: Timestamp,
)
    requires
        repo.names_unique(),
    ensures
        repo.update_node_attr(id, patch, now).0.names_unique(),
{
    let after = repo.update_node_attr(id, patch, now).0;
    assert forall|a: Uuid, b: Uuid, p: Uuid, n: Seq<u8>| #[trigger]
        after.entry(a, p, n) && #[trigger] after.entry(b, p, n) implies a == b by {
        assert(repo.entry(a, p, n));
        assert(repo.entry(b, p, n));
    }
}

/// A walk over all nodes lists each child of a directory once, and nothing
/// else.
pub proof fn listing_holds_each_child_once(
    repo: RepositoryModel,
    order: Seq<Uuid>,
    parent: Uuid,
)
    requires
        repo.wf(),
        crate::table::enumerates(order, repo.nodes.dom()),
    ensures
        repo.children_in(order, parent).no_duplicates(),
        forall|n: NodeModel| #[trigger]
            repo.children_in(order, parent).contains(n) <==> repo.nodes.contains_key(n.id)
                && repo.nodes[n.id] == n && crate::model::is_child(n, parent),
{
    lemma_children(repo, order, parent);
    assert forall|n: NodeModel| #[trigger]
        repo.children_in(order, parent).contains(n) <==> repo.nodes.contains_key(n.id)
            && repo.nodes[n.id] == n && crate::model::is_child(n, parent) by {
        if repo.nodes.contains_key(n.id) {
            assert(order.to_set().contains(n.id));
        }
    }
}

proof fn lemma_children(repo: RepositoryModel, order: Seq<Uuid>, parent: Uuid)
    requires
        repo.wf(),
        order.no_duplicates(),
    ensures
        repo.children_in(order, parent).no_duplicates(),
        forall|n: NodeModel| #[trigger]
            repo.children_in(order, parent).contains(n) <==> order.contains(n.id)
                && repo.nodes.contains_key(n.id) && repo.nodes[n.id] == n
                && crate::model::is_child(n, parent),
    decreases order.len(),
{
    if order.len() > 0 {
        let rest = order.drop_last();
        let id = order.last();
        lemma_children(repo, rest, parent);
        let earlier = repo.children_in(rest, parent);
        let all = repo.children_in(order, parent);
        assert(!rest.contains(id));
        assert(order =~= rest.push(id));
        assert forall|n: NodeModel| #[trigger] all.contains(n) <==> order.contains(n.id)
            && repo.nodes.contains_key(n.id) && repo.nodes[n.id] == n && crate::model::is_child(
            n,
            parent,
        ) by {
            assert(rest.push(id).contains(n.id) <==> rest.contains(n.id) || n.id == id) by {
                broadcast use vstd::seq_lib::group_seq_properties;
            }
            if all != earlier {
                assert(all.contains(n) <==> earlier.contains(n) || n == repo.nodes[id]) by {
                    broadcast use vstd::seq_lib::group_seq_properties;
                }
            }
            assert(earlier.contains(n) <==> rest.contains(n.id) && repo.nodes.contains_key(n.id)
                && repo.nodes[n.id] == n && crate::model::is_child(n, parent));
        }
        if all != earlier {
            assert(!earlier.contains(repo.nodes[id]));
            assert(all.no_duplicates());
        }
    }
}

/// Pages join up: two pages that follow each other are one page of their
/// joint length.
pub proof fn pages_join_up<T>(s: Seq<T>, first: nat, second: nat, offset: nat)
    ensures
        crate::model::page(s, first, offset) + crate::model::page(s, second, offset + first)
            == crate::model::page(s, first + second, offset),
        crate::model::page(s, first, offset).len() <= first,
{
    assert(crate::model::page(s, first, offset) + crate::model::page(s, second, offset + first)
        =~= crate::model::page(s, first + second, offset));
}

/// A page that starts at the beginning and is long enough is everything.
pub proof fn one_long_page_is_everything<T>(s: Seq<T>, limit: nat)
    requires
        s.len() <= limit,
    ensures
        crate::model::page(s, limit, 0) == s,
{
    assert(crate::model::page(s, limit, 0) =~= s);
}

} // verus!
