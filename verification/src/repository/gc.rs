//! Garbage collection: which stored objects nothing needs any more.

use super::MemoryMetadataRepository;
use crate::clock::Timestamp;
use crate::ident::Uuid;
use crate::model::RepositoryModel;
use crate::records::{ChunkModel, FileVersionRecord, RepositoryError};
use crate::text::same_text;
use vstd::prelude::*;

verus! {

/// Whether `ids` holds `id`.
pub(super) fn holds(ids: &Vec<Uuid>, id: Uuid) -> (r: bool)
    ensures
        r == ids@.contains(id),
{
    let mut i: usize = 0;
    while i < ids.len()
        invariant
            i <= ids.len(),
            forall|k: int| 0 <= k < i ==> ids@[k] != id,
        decreases ids.len() - i,
    {
        if ids[i] == id {
            return true;
        }
        i = i + 1;
    }
    false
}

/// The number of objects that a request for `limit` of them stops at. It never
/// stops before the first.
pub open spec fn stop_at(limit: i64) -> int {
    if limit < 1 {
        1
    } else {
        limit as int
    }
}

/// The first objects of `s`, as many as a request for `limit` of them takes.
pub open spec fn capped(s: Seq<Uuid>, limit: i64) -> Seq<Uuid> {
    if s.len() <= stop_at(limit) {
        s
    } else {
        s.take(stop_at(limit))
    }
}

/// Gathering only adds to the end.
pub(crate) proof fn lemma_gathered_extends(
    repo: RepositoryModel,
    found: Seq<Uuid>,
    chunks: Seq<ChunkModel>,
    older_than: Timestamp,
)
    ensures
        found.is_prefix_of(repo.gathered(found, chunks, older_than)),
    decreases chunks.len(),
{
    if chunks.len() > 0 {
        lemma_gathered_extends(repo, found, chunks.drop_last(), older_than);
        let earlier = repo.gathered(found, chunks.drop_last(), older_than);
        let all = repo.gathered(found, chunks, older_than);
        assert(found =~= all.take(found.len() as int)) by {
            assert(found =~= earlier.take(found.len() as int));
        }
    } else {
        assert(found =~= found.take(found.len() as int));
    }
}

/// What the first chunks yield is the beginning of what all of them yield.
proof fn lemma_gathered_prefix(
    repo: RepositoryModel,
    found: Seq<Uuid>,
    chunks: Seq<ChunkModel>,
    n: int,
    older_than: Timestamp,
)
    requires
        0 <= n <= chunks.len(),
    ensures
        repo.gathered(found, chunks.take(n), older_than).is_prefix_of(
            repo.gathered(found, chunks, older_than),
        ),
    decreases chunks.len(),
{
    let part = repo.gathered(found, chunks.take(n), older_than);
    let all = repo.gathered(found, chunks, older_than);
    if n == chunks.len() {
        assert(chunks.take(n) =~= chunks);
        assert(part =~= all.take(part.len() as int));
    } else {
        assert(chunks.drop_last().take(n) =~= chunks.take(n));
        lemma_gathered_prefix(repo, found, chunks.drop_last(), n, older_than);
        let earlier = repo.gathered(found, chunks.drop_last(), older_than);
        assert(part =~= earlier.take(part.len() as int));
        assert(part =~= all.take(part.len() as int));
    }
}

/// What the first manifests yield is the beginning of what all of them yield.
proof fn lemma_collectable_prefix(
    repo: RepositoryModel,
    order: Seq<Uuid>,
    n: int,
    older_than: Timestamp,
)
    requires
        0 <= n <= order.len(),
    ensures
        repo.collectable_in(order.take(n), older_than).is_prefix_of(
            repo.collectable_in(order, older_than),
        ),
    decreases order.len(),
{
    let part = repo.collectable_in(order.take(n), older_than);
    let all = repo.collectable_in(order, older_than);
    if n == order.len() {
        assert(order.take(n) =~= order);
        assert(part =~= all.take(part.len() as int));
    } else {
        assert(order.drop_last().take(n) =~= order.take(n));
        lemma_collectable_prefix(repo, order.drop_last(), n, older_than);
        let earlier = repo.collectable_in(order.drop_last(), older_than);
        assert(part =~= earlier.take(part.len() as int));
        if repo.is_dead(order.last(), older_than) {
            let listed = crate::manifest::listing(repo.chunks[order.last()]);
            lemma_gathered_extends(repo, earlier, listed, older_than);
            assert(earlier =~= all.take(earlier.len() as int));
        }
        assert(part =~= all.take(part.len() as int));
    }
}

impl MemoryMetadataRepository {
    /// Whether `version` is the current version of a node that still exists.
    fn version_is_current(&self, version: &FileVersionRecord) -> (r: bool)
        requires
            self@.wf(),
            self@.versions.contains_key(version.id),
            self@.versions[version.id] == version@,
        ensures
            r == self@.is_current(version.id),
    {
        match self.nodes.get(version.node_id) {
            Some(n) => n.current_version_id == Some(version.id),
            None => false,
        }
    }

    /// Whether the version of `id` protects its chunks.
    fn version_is_live(&self, id: Uuid, older_than: Timestamp) -> (r: bool)
        requires
            self@.wf(),
        ensures
            r == self@.is_live(id, older_than),
    {
        match self.versions.get(id) {
            Some(v) => {
                if same_text(v.state.as_str(), "staging") && !v.created_at.is_before(older_than) {
                    true
                } else {
                    self.version_is_current(v)
                }
            },
            None => false,
        }
    }

    /// Whether a version was settled before `older_than`.
    fn settled_before(version: &FileVersionRecord, older_than: Timestamp) -> (r: bool)
        ensures
            r == crate::model::settled_at(version@).before(older_than),
    {
        match version.committed_at {
            Some(at) => at.is_before(older_than),
            None => version.created_at.is_before(older_than),
        }
    }

    /// The objects that live versions refer to.
    fn protected_objects(&self, older_than: Timestamp) -> (r: Vec<Uuid>)
        requires
            self@.wf(),
        ensures
            forall|object: Uuid| #[trigger]
                r@.contains(object) <==> self@.is_protected(object, older_than),
    {
        let ids = self.versions.ids();
        let mut r: Vec<Uuid> = Vec::new();
        let mut i: usize = 0;
        while i < ids.len()
            invariant
                self@.wf(),
                crate::table::enumerates(ids@, self@.versions.dom()),
                i <= ids.len(),
                forall|object: Uuid| #[trigger]
                    r@.contains(object) ==> self@.is_protected(object, older_than),
                forall|k: int, object: Uuid|
                    0 <= k < i && self@.is_live(ids@[k], older_than) && #[trigger] self@.refers(
                        ids@[k],
                        object,
                    ) ==> r@.contains(object),
            decreases ids.len() - i,
        {
            let id: Uuid = ids[i];
            if self.version_is_live(id, older_than) {
                match self.chunks.get(id) {
                    Some(m) => {
                        let ghost start = r@;
                        let ghost listed = crate::manifest::listing(m@);
                        let n: usize = m.len();
                        let mut k: usize = 0;
                        while k < n
                            invariant
                                n == listed.len(),
                                listed == crate::manifest::listing(m@),
                                crate::manifest::lists(listed, m@),
                                self@.chunks.contains_key(id),
                                self@.chunks[id] == m@,
                                self@.is_live(id, older_than),
                                k <= n,
                                forall|object: Uuid| #[trigger]
                                    r@.contains(object) ==> self@.is_protected(object, older_than),
                                forall|object: Uuid| #[trigger]
                                    start.contains(object) ==> r@.contains(object),
                                forall|j: int|
                                    0 <= j < k ==> r@.contains((#[trigger] listed[j]).object_id),
                            decreases n - k,
                        {
                            let object: Uuid = m.at(k).object_id;
                            let ghost before = r@;
                            r.push(object);
                            proof {
                                assert(m@.contains_key(listed[k as int].chunk_index));
                                assert(self@.refers(id, object));
                                assert(r@[before.len() as int] == object);
                                assert forall|x: Uuid| #[trigger] before.contains(x) implies r@.contains(
                                    x,
                                ) by {
                                    let j = choose|j: int| 0 <= j < before.len() && before[j] == x;
                                    assert(r@[j] == x);
                                }
                                assert forall|x: Uuid| #[trigger] r@.contains(x) implies
                                    self@.is_protected(x, older_than) by {
                                    if x != object {
                                        let j = choose|j: int| 0 <= j < r@.len() && r@[j] == x;
                                        assert(before[j] == x);
                                        assert(before.contains(x));
                                    }
                                }
                                assert forall|j: int| 0 <= j < k + 1 implies r@.contains(
                                    (#[trigger] listed[j]).object_id,
                                ) by {
                                    if j < k {
                                        assert(before.contains(listed[j].object_id));
                                    }
                                }
                            }
                            k = k + 1;
                        }
                        proof {
                            assert forall|object: Uuid| self@.refers(id, object) implies r@.contains(
                                object,
                            ) by {
                                let x = choose|x: i64| #[trigger]
                                    self@.chunks[id].contains_key(x) && self@.chunks[id][x].object_id
                                        == object;
                                let j = choose|j: int|
                                    0 <= j < listed.len() && #[trigger] listed[j].chunk_index == x;
                                assert(m@.contains_key(listed[j].chunk_index));
                                assert(r@.contains(listed[j].object_id));
                            }
                            assert forall|k: int, object: Uuid|
                                0 <= k < i + 1 && self@.is_live(ids@[k], older_than)
                                    && #[trigger] self@.refers(ids@[k], object) implies r@.contains(
                                object,
                            ) by {
                                if k < i {
                                    assert(start.contains(object));
                                }
                            }
                        }
                    },
                    None => {},
                }
            }
            i = i + 1;
        }
        proof {
            assert forall|object: Uuid| self@.is_protected(object, older_than) implies
                #[trigger] r@.contains(object) by {
                let v = choose|v: Uuid| #[trigger]
                    self@.is_live(v, older_than) && self@.refers(v, object);
                assert(ids@.to_set().contains(v));
                let k = choose|k: int| 0 <= k < ids@.len() && ids@[k] == v;
                assert(self@.refers(ids@[k], object));
            }
        }
        r
    }

    /// The objects that may be deleted, in the order in which the manifests
    /// are walked: those that only versions settled before `older_than` refer
    /// to, and no live one. The walk stops at `limit` objects, but not before
    /// the first.
    pub fn collectable_objects(&self, older_than: Timestamp, limit: i64) -> (r: Result<
        Vec<Uuid>,
        RepositoryError,
    >)
        requires
            self@.wf(),
        ensures
            crate::table::enumerates(self.manifest_order(), self@.chunks.dom()),
            r matches Ok(objects) && objects@ == capped(
                self@.collectable_in(self.manifest_order(), older_than),
                limit,
            ),
    {
        let kept = self.protected_objects(older_than);
        let ids = self.chunks.ids();
        let ghost all = self@.collectable_in(ids@, older_than);
        let mut found: Vec<Uuid> = Vec::new();
        let mut i: usize = 0;
        assert(ids@.take(0) =~= Seq::empty());
        while i < ids.len()
            invariant
                self@.wf(),
                ids@ == self.manifest_order(),
                crate::table::enumerates(ids@, self@.chunks.dom()),
                all == self@.collectable_in(ids@, older_than),
                forall|object: Uuid| #[trigger]
                    kept@.contains(object) <==> self@.is_protected(object, older_than),
                i <= ids.len(),
                found@ == self@.collectable_in(ids@.take(i as int), older_than),
                found.len() < stop_at(limit),
            decreases ids.len() - i,
        {
            let id: Uuid = ids[i];
            let ghost here = ids@.take(i + 1);
            assert(here.drop_last() =~= ids@.take(i as int));
            assert(here.last() == id);
            match (self.versions.get(id), self.chunks.get(id)) {
                (Some(version), Some(m)) => {
                    if !self.version_is_live(id, older_than) && Self::settled_before(
                        version,
                        older_than,
                    ) {
                        assert(self@.is_dead(id, older_than));
                        let ghost start = found@;
                        let ghost listed = crate::manifest::listing(m@);
                        let n: usize = m.len();
                        let mut k: usize = 0;
                        assert(listed.take(0) =~= Seq::empty());
                        while k < n
                            invariant
                                self@.wf(),
                                ids@ == self.manifest_order(),
                                crate::table::enumerates(ids@, self@.chunks.dom()),
                                all == self@.collectable_in(ids@, older_than),
                                i < ids.len(),
                                here == ids@.take(i + 1),
                                here.drop_last() == ids@.take(i as int),
                                here.last() == id,
                                self@.is_dead(id, older_than),
                                self@.chunks[id] == m@,
                                start == self@.collectable_in(ids@.take(i as int), older_than),
                                n == listed.len(),
                                listed == crate::manifest::listing(m@),
                                forall|object: Uuid| #[trigger]
                                    kept@.contains(object) <==> self@.is_protected(
                                        object,
                                        older_than,
                                    ),
                                k <= n,
                                found@ == self@.gathered(start, listed.take(k as int), older_than),
                                found.len() < stop_at(limit),
                            decreases n - k,
                        {
                            let object: Uuid = m.at(k).object_id;
                            assert(listed.take(k + 1).drop_last() =~= listed.take(k as int));
                            if !holds(&kept, object) && !holds(&found, object) {
                                found.push(object);
                                assert(found@ == self@.gathered(
                                    start,
                                    listed.take(k + 1),
                                    older_than,
                                ));
                                if limit <= 0 || found.len() as u64 >= limit as u64 {
                                    proof {
                                        lemma_gathered_prefix(
                                            self@,
                                            start,
                                            listed,
                                            k + 1,
                                            older_than,
                                        );
                                        lemma_collectable_prefix(self@, ids@, i + 1, older_than);
                                        let yielded = self@.gathered(start, listed, older_than);
                                        assert(yielded == self@.collectable_in(here, older_than));
                                        assert(found@ =~= yielded.take(found@.len() as int));
                                        assert(yielded =~= all.take(yielded.len() as int));
                                        assert(found@ =~= all.take(found@.len() as int));
                                        assert(found@ =~= capped(all, limit));
                                    }
                                    return Ok(found);
                                }
                            }
                            k = k + 1;
                        }
                        assert(listed.take(n as int) =~= listed);
                    }
                },
                _ => {},
            }
            i = i + 1;
        }
        assert(ids@.take(ids@.len() as int) =~= ids@);
        Ok(found)
    }

    /// Drops every chunk that refers to an object, and says how many there
    /// were (as far as the count fits its type).
    pub fn forget_object(&mut self, object_id: Uuid) -> (r: Result<u64, RepositoryError>)
        requires
            old(self)@.wf(),
        ensures
            final(self)@.wf(),
            final(self)@ == old(self)@.forget_object(object_id),
            old(self)@.references(object_id).finite(),
            r matches Ok(removed) && (old(self)@.references(object_id).len() <= u64::MAX ==> removed
                == old(self)@.references(object_id).len()),
    {
        let ids = self.chunks.ids();
        let ghost start = self@;
        let ghost wanted = start.forget_object(object_id);
        let ghost mut seen = Set::<(Uuid, i64)>::empty();
        let mut removed: u128 = 0;
        let mut i: usize = 0;
        while i < ids.len()
            invariant
                start == old(self)@,
                start.wf(),
                wanted == start.forget_object(object_id),
                crate::table::enumerates(ids@, start.chunks.dom()),
                i <= ids.len(),
                removed <= i * 0xffff_ffff_ffff_ffff,
                seen.finite(),
                seen.len() == removed,
                forall|at: (Uuid, i64)| #[trigger]
                    seen.contains(at) <==> start.references(object_id).contains(at) && exists|
                        k: int,
                    | 0 <= k < i && ids@[k] == at.0,
                self@ == (RepositoryModel { chunks: self@.chunks, ..start }),
                self@.chunks.dom() == start.chunks.dom(),
                forall|k: int|
                    0 <= k < i ==> self@.chunks[#[trigger] ids@[k]] == wanted.chunks[ids@[k]],
                forall|k: int|
                    i <= k < ids.len() ==> self@.chunks[#[trigger] ids@[k]] == start.chunks[ids@[k]],
            decreases ids.len() - i,
        {
            let id: Uuid = ids[i];
            let ghost earlier = seen;
            let ghost before = self@.chunks;
            proof {
                assert(ids@.to_set().contains(ids@[i as int]));
                assert(start.chunks.contains_key(id));
                assert(self@.chunks[ids@[i as int]] == start.chunks[id]);
            }
            match self.chunks.remove(id) {
                Some(m) => {
                    let mut manifest = m;
                    let dropped: usize = manifest.forget(object_id);
                    proof {
                        let uses = crate::manifest::uses_of(start.chunks[id], object_id);
                        let place = |x: i64| (id, x);
                        let here = uses.map(place);
                        vstd::set_lib::lemma_map_size(uses, here, place);
                        assert forall|at: (Uuid, i64)| #[trigger] here.contains(at) <==> at.0 == id
                            && uses.contains(at.1) by {
                            if at.0 == id && uses.contains(at.1) {
                                assert(place(at.1) == at);
                            }
                        }
                        assert(seen.disjoint(here)) by {
                            assert forall|at: (Uuid, i64)| seen.contains(at) implies
                                !here.contains(at) by {
                                let k = choose|k: int| 0 <= k < i && ids@[k] == at.0;
                                assert(ids@[k] != ids@[i as int]);
                            }
                        }
                        vstd::set_lib::lemma_set_disjoint_lens(seen, here);
                        seen = seen + here;
                        assert forall|at: (Uuid, i64)| #[trigger] seen.contains(at)
                            <==> start.references(object_id).contains(at) && exists|k: int|
                            0 <= k < i + 1 && ids@[k] == at.0 by {
                            assert(seen.contains(at) == (earlier.contains(at) || here.contains(
                                at,
                            )));
                            if here.contains(at) {
                                assert(ids@[i as int] == at.0);
                            }
                        }
                    }
                    removed = removed + dropped as u128;
                    self.chunks.insert(id, manifest);
                    proof {
                        assert(self@.chunks =~= before.insert(id, manifest@));
                        assert(self@.chunks.dom() =~= start.chunks.dom());
                        assert forall|k: int| 0 <= k < i + 1 implies self@.chunks[
                            #[trigger] ids@[k]] == wanted.chunks[ids@[k]] by {
                            if k < i {
                                assert(ids@[k] != ids@[i as int]);
                            }
                        }
                        assert forall|k: int| i + 1 <= k < ids.len() implies self@.chunks[
                            #[trigger] ids@[k]] == start.chunks[ids@[k]] by {
                            assert(ids@[k] != ids@[i as int]);
                        }
                    }
                },
                None => {},
            }
            i = i + 1;
        }
        proof {
            assert forall|v: Uuid| start.chunks.contains_key(v) implies self@.chunks[v]
                == wanted.chunks[v] by {
                assert(ids@.to_set().contains(v));
                let k = choose|k: int| 0 <= k < ids@.len() && ids@[k] == v;
                assert(self@.chunks[ids@[k]] == wanted.chunks[ids@[k]]);
            }
            assert(self@.chunks =~= wanted.chunks);
            assert(seen =~= start.references(object_id)) by {
                assert forall|at: (Uuid, i64)| start.references(object_id).contains(at) implies
                    seen.contains(at) by {
                    assert(ids@.to_set().contains(at.0));
                    let k = choose|k: int| 0 <= k < ids@.len() && ids@[k] == at.0;
                    assert(0 <= k < i && ids@[k] == at.0);
                }
            }
        }
        Ok(removed as u64)
    }

    /// Removes the versions that have no chunks, are not current and were
    /// settled before `older_than`, and says how many there were.
    pub fn purge_empty_dead_versions(&mut self, older_than: Timestamp) -> (r: Result<
        u64,
        RepositoryError,
    >)
        requires
            old(self)@.wf(),
        ensures
            final(self)@.wf(),
            final(self)@ == old(self)@.purge_empty_dead_versions(older_than),
            old(self)@.doomed(older_than).finite(),
            r matches Ok(purged) && purged == old(self)@.doomed(older_than).len(),
    {
        let ids = self.versions.ids();
        let ghost start = self@;
        let mut doomed: Vec<Uuid> = Vec::new();
        let mut i: usize = 0;
        while i < ids.len()
            invariant
                start == self@,
                start.wf(),
                crate::table::enumerates(ids@, start.versions.dom()),
                i <= ids.len(),
                doomed@.no_duplicates(),
                forall|v: Uuid| #[trigger]
                    doomed@.contains(v) <==> start.is_empty_and_dead(v, older_than) && exists|
                        k: int,
                    | 0 <= k < i && ids@[k] == v,
            decreases ids.len() - i,
        {
            let id: Uuid = ids[i];
            let ghost before = doomed@;
            assert(!before.contains(id)) by {
                if before.contains(id) {
                    let k = choose|k: int| 0 <= k < i && ids@[k] == id;
                    assert(ids@[k] != ids@[i as int]);
                }
            }
            let mut purge: bool = false;
            match self.versions.get(id) {
                Some(version) => {
                    if Self::settled_before(version, older_than) && !self.version_is_current(
                        version,
                    ) {
                        purge = match self.chunks.get(id) {
                            Some(m) => {
                                let n: usize = m.len();
                                proof {
                                    if n == 0 {
                                        assert(m@.dom() =~= Set::empty());
                                        assert(m@ =~= Map::empty());
                                    }
                                }
                                n == 0
                            },
                            None => true,
                        };
                    }
                },
                None => {},
            }
            assert(purge == start.is_empty_and_dead(id, older_than));
            if purge {
                doomed.push(id);
                assert(doomed@[before.len() as int] == id);
            }
            proof {
                assert forall|v: Uuid| #[trigger] doomed@.contains(v) <==> start.is_empty_and_dead(
                    v,
                    older_than,
                ) && exists|k: int| 0 <= k < i + 1 && ids@[k] == v by {
                    if v == id {
                        assert(ids@[i as int] == v);
                    } else {
                        if doomed@.contains(v) {
                            let j = choose|j: int| 0 <= j < doomed@.len() && doomed@[j] == v;
                            assert(before[j] == v);
                            assert(before.contains(v));
                        }
                        if before.contains(v) {
                            let j = choose|j: int| 0 <= j < before.len() && before[j] == v;
                            assert(doomed@[j] == v);
                        }
                    }
                }
            }
            i = i + 1;
        }
        proof {
            assert forall|v: Uuid| start.is_empty_and_dead(v, older_than) implies
                #[trigger] doomed@.contains(v) by {
                assert(ids@.to_set().contains(v));
                let k = choose|k: int| 0 <= k < ids@.len() && ids@[k] == v;
                assert(0 <= k < i && ids@[k] == v);
            }
            assert(doomed@.to_set() =~= start.doomed(older_than));
            doomed@.unique_seq_to_set();
        }
        let mut j: usize = 0;
        assert(self@.versions =~= start.versions.remove_keys(doomed@.take(0).to_set()));
        assert(self@.chunks =~= start.chunks.remove_keys(doomed@.take(0).to_set()));
        while j < doomed.len()
            invariant
                j <= doomed.len(),
                self@ == (RepositoryModel {
                    versions: start.versions.remove_keys(doomed@.take(j as int).to_set()),
                    chunks: start.chunks.remove_keys(doomed@.take(j as int).to_set()),
                    ..start
                }),
            decreases doomed.len() - j,
        {
            let id: Uuid = doomed[j];
            proof {
                let done = doomed@.take(j as int);
                let more = doomed@.take(j + 1);
                assert(more =~= done.push(id));
                assert(more.to_set() =~= done.to_set().insert(id)) by {
                    assert forall|v: Uuid| #[trigger] more.to_set().contains(v)
                        == done.to_set().insert(id).contains(v) by {
                        if done.contains(v) {
                            let k = choose|k: int| 0 <= k < done.len() && done[k] == v;
                            assert(more[k] == v);
                        }
                        assert(more[j as int] == id);
                    }
                }
                assert(start.versions.remove_keys(done.to_set()).remove(id)
                    =~= start.versions.remove_keys(more.to_set()));
                assert(start.chunks.remove_keys(done.to_set()).remove(id)
                    =~= start.chunks.remove_keys(more.to_set()));
            }
            let version = self.versions.remove(id);
            let manifest = self.chunks.remove(id);
            j = j + 1;
        }
        assert(doomed@.take(doomed@.len() as int) =~= doomed@);
        Ok(doomed.len() as u64)
    }

    /// Removes nodes that were deleted before `older_than`. A deleted node is
    /// gone at once here, so there never is one.
    pub fn purge_deleted_nodes(&mut self, older_than: Timestamp) -> (r: Result<u64, RepositoryError>)
        ensures
            *final(self) == *old(self),
            r matches Ok(purged) && purged == 0,
    {
        Ok(0)
    }
}

} // verus!
