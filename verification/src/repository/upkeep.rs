//! Upkeep: bringing the sizes of files back in line with their contents.

use super::gc::holds;
use super::MemoryMetadataRepository;
use crate::ident::Uuid;
use crate::records::RepositoryError;
use crate::text::same_text;
use vstd::prelude::*;

verus! {

impl MemoryMetadataRepository {
    /// The nodes that have a version which is being written.
    fn nodes_being_written(&self) -> (r: Vec<Uuid>)
        ensures
            forall|id: Uuid| #[trigger]
                r@.contains(id) <==> exists|v: Uuid| self@.staging_of(v, id),
    {
        let ids = self.versions.ids();
        let mut r: Vec<Uuid> = Vec::new();
        let mut i: usize = 0;
        while i < ids.len()
            invariant
                crate::table::enumerates(ids@, self@.versions.dom()),
                i <= ids.len(),
                forall|id: Uuid| #[trigger]
                    r@.contains(id) ==> exists|v: Uuid| self@.staging_of(v, id),
                forall|k: int, id: Uuid|
                    0 <= k < i && #[trigger] self@.staging_of(ids@[k], id) ==> r@.contains(id),
            decreases ids.len() - i,
        {
            match self.versions.get(ids[i]) {
                Some(v) => {
                    if same_text(v.state.as_str(), "staging") {
                        let ghost before = r@;
                        r.push(v.node_id);
                        proof {
                            assert(r@[before.len() as int] == v.node_id);
                            assert forall|id: Uuid| before.contains(id) implies r@.contains(id) by {
                                let k = choose|k: int| 0 <= k < before.len() && before[k] == id;
                                assert(r@[k] == id);
                            }
                            assert(self@.staging_of(ids@[i as int], v.node_id));
                            assert forall|id: Uuid| #[trigger] r@.contains(id) implies exists|
                                w: Uuid,
                            | self@.staging_of(w, id) by {
                                if id != v.node_id {
                                    let k = choose|k: int| 0 <= k < r@.len() && r@[k] == id;
                                    assert(before[k] == id);
                                    assert(before.contains(id));
                                }
                            }
                        }
                    }
                },
                None => {},
            }
            i = i + 1;
        }
        proof {
            assert forall|id: Uuid, v: Uuid| #[trigger] self@.staging_of(v, id) implies r@.contains(
                id,
            ) by {
                assert(ids@.to_set().contains(v));
                let k = choose|k: int| 0 <= k < ids@.len() && ids@[k] == v;
                assert(self@.staging_of(ids@[k], id));
            }
        }
        r
    }

    /// Sets the size of every file to that of its committed contents, unless
    /// it is being written, and says how many were off.
    pub fn reconcile_node_sizes(&mut self) -> (r: Result<u64, RepositoryError>)
        requires
            old(self)@.wf(),
        ensures
            final(self)@.wf(),
            final(self)@ == old(self)@.reconcile_node_sizes(),
            old(self)@.nodes_off().finite(),
            r matches Ok(fixed) && fixed == old(self)@.nodes_off().len(),
    {
        let staging = self.nodes_being_written();
        let ids = self.nodes.ids();
        let ghost start = self@;
        let ghost mut off = Set::<Uuid>::empty();
        let mut fixed: u64 = 0;
        let mut i: usize = 0;
        while i < ids.len()
            invariant
                start == old(self)@,
                start.wf(),
                crate::table::enumerates(ids@, start.nodes.dom()),
                forall|id: Uuid| #[trigger]
                    staging@.contains(id) <==> exists|v: Uuid| start.staging_of(v, id),
                i <= ids.len(),
                fixed <= i,
                off.finite(),
                off.len() == fixed,
                forall|id: Uuid| #[trigger]
                    off.contains(id) <==> start.size_is_off(id) && exists|k: int|
                        0 <= k < i && ids@[k] == id,
                self@ == start.with_nodes(self@.nodes),
                self@.nodes.dom() == start.nodes.dom(),
                forall|id: Uuid| #[trigger]
                    start.nodes.contains_key(id) ==> self@.nodes[id] == (if off.contains(id) {
                        start.reconcile_node_sizes().nodes[id]
                    } else {
                        start.nodes[id]
                    }),
            decreases ids.len() - i,
        {
            let id: Uuid = ids[i];
            let ghost earlier = off;
            proof {
                assert(ids@.to_set().contains(ids@[i as int]));
                assert(start.nodes.contains_key(id));
                assert(!off.contains(id)) by {
                    if off.contains(id) {
                        let k = choose|k: int| 0 <= k < i && ids@[k] == id;
                        assert(ids@[k] != ids@[i as int]);
                    }
                }
            }
            match self.nodes.remove(id) {
                Some(n) => {
                    let mut node = n;
                    if same_text(node.kind.as_str(), "file") && !holds(&staging, node.id) {
                        let committed: i64 = match node.current_version_id {
                            Some(v) => match self.versions.get(v) {
                                Some(version) => version.size,
                                None => 0,
                            },
                            None => 0,
                        };
                        assert(committed == start.committed_size(start.nodes[id]));
                        if node.size != committed {
                            assert(start.size_is_off(id));
                            node.size = committed;
                            fixed = fixed + 1;
                            proof {
                                off = off.insert(id);
                            }
                        }
                    }
                    assert(off.contains(id) <==> start.size_is_off(id));
                    self.nodes.insert(id, node);
                },
                None => {},
            }
            proof {
                assert(self@.nodes.dom() =~= start.nodes.dom());
                assert forall|x: Uuid| #[trigger] off.contains(x) <==> start.size_is_off(x)
                    && exists|k: int| 0 <= k < i + 1 && ids@[k] == x by {
                    if x == id {
                        assert(ids@[i as int] == x);
                    } else {
                        assert(off.contains(x) == earlier.contains(x));
                    }
                }
            }
            i = i + 1;
        }
        proof {
            assert(off =~= start.nodes_off()) by {
                assert forall|x: Uuid| start.nodes_off().contains(x) implies off.contains(x) by {
                    assert(start.nodes.dom().contains(x));
                    assert(ids@.to_set().contains(x));
                    let k = choose|k: int| 0 <= k < ids@.len() && ids@[k] == x;
                    assert(0 <= k < i && ids@[k] == x);
                }
            }
            assert(self@.nodes =~= start.reconcile_node_sizes().nodes);
        }
        Ok(fixed)
    }
}

} // verus!
