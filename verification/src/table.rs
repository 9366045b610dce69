//! Tables of records keyed by identifier.

use crate::ident::Uuid;
use std::collections::HashMap;
use vstd::prelude::*;

verus! {

broadcast use vstd::std_specs::hash::group_hash_axioms;

/// `order` names every key of `keys` exactly once.
pub open spec fn enumerates<K>(order: Seq<K>, keys: Set<K>) -> bool {
    order.no_duplicates() && order.to_set() == keys
}

/// A hash table of records. Its view maps each identifier to the view of its
/// record.
pub struct Table<R> {
    rows: HashMap<u128, R>,
}

impl<R: View> View for Table<R> {
    type V = Map<Uuid, R::V>;

    closed spec fn view(&self) -> Map<Uuid, R::V> {
        self.rows@.map_values(|r: R| r@)
    }
}

impl<R: View> Table<R> {
    /// The order in which this table is walked. It is fixed for a given table
    /// value and says nothing of another table with the same rows.
    pub closed spec fn order(&self) -> Seq<Uuid> {
        vstd::std_specs::hash::into_iter_keys(vstd::std_specs::hash::spec_keys_iter(&self.rows))
    }

    /// An empty table.
    pub fn new() -> (t: Self)
        ensures
            t@ == Map::<Uuid, R::V>::empty(),
    {
        let t = Table { rows: HashMap::new() };
        assert(t@ =~= Map::<Uuid, R::V>::empty());
        t
    }

    /// The record of `id`.
    pub fn get(&self, id: Uuid) -> (r: Option<&R>)
        ensures
            match r {
                Some(row) => self@.contains_key(id) && row@ == self@[id],
                None => !self@.contains_key(id),
            },
    {
        self.rows.get(&id)
    }

    /// Whether there is a record of `id`.
    pub fn contains(&self, id: Uuid) -> (r: bool)
        ensures
            r == self@.contains_key(id),
    {
        self.rows.contains_key(&id)
    }

    /// Puts `row` under `id`, in place of what was there.
    pub fn insert(&mut self, id: Uuid, row: R)
        ensures
            final(self)@ == old(self)@.insert(id, row@),
    {
        self.rows.insert(id, row);
        assert(self@ =~= old(self)@.insert(id, row@));
    }

    /// Takes the record of `id` out.
    pub fn remove(&mut self, id: Uuid) -> (r: Option<R>)
        ensures
            final(self)@ == old(self)@.remove(id),
            match r {
                Some(row) => old(self)@.contains_key(id) && row@ == old(self)@[id],
                None => !old(self)@.contains_key(id),
            },
    {
        let r = self.rows.remove(&id);
        assert(self@ =~= old(self)@.remove(id));
        r
    }

    /// The identifiers, in the order in which the table is walked.
    pub fn ids(&self) -> (r: Vec<Uuid>)
        ensures
            r@ == self.order(),
            enumerates(r@, self@.dom()),
            self@.dom().finite(),
    {
        let mut r: Vec<Uuid> = Vec::new();
        for k in it: self.rows.keys()
            invariant
                r.len() == it.index(),
                forall|i: int| 0 <= i < r.len() ==> r@[i] == *it.seq()[i],
        {
            r.push(*k);
        }
        proof {
            let walk = vstd::std_specs::iter::IteratorSpec::remaining(
                &vstd::std_specs::hash::spec_keys_iter(&self.rows),
            );
            assert(r@ =~= walk.unref());
            assert(r@ =~= self.order());
            assert(self@.dom() =~= self.rows@.dom());
            assert forall|i: int, j: int| 0 <= i < j < r@.len() implies r@[i] != r@[j] by {
                assert(walk[i] != walk[j]);
            }
        }
        r
    }
}

} // verus!
