//! The manifest of a version: its chunks, ordered by index.

use crate::ident::Uuid;
use crate::records::{ChunkModel, FileChunkRecord};
use vstd::prelude::*;

verus! {

/// The values of a list of chunks.
pub open spec fn chunk_models(chunks: Seq<FileChunkRecord>) -> Seq<ChunkModel> {
    chunks.map_values(|c: FileChunkRecord| c@)
}

/// Every chunk has a greater index than the one before it.
pub open spec fn ascending(s: Seq<ChunkModel>) -> bool {
    forall|i: int, j: int| 0 <= i < j < s.len() ==> s[i].chunk_index < s[j].chunk_index
}

/// `s` lists the chunks of `m`, each once, ordered by index. A map has exactly
/// one such list.
pub open spec fn lists(s: Seq<ChunkModel>, m: Map<i64, ChunkModel>) -> bool {
    &&& ascending(s)
    &&& forall|k: int|
        0 <= k < s.len() ==> #[trigger] m.contains_key(s[k].chunk_index)
            && m[s[k].chunk_index] == s[k]
    &&& forall|i: i64| #[trigger]
        m.contains_key(i) ==> exists|k: int| 0 <= k < s.len() && #[trigger] s[k].chunk_index == i
}

/// The chunks of `m`, ordered by index.
pub open spec fn listing(m: Map<i64, ChunkModel>) -> Seq<ChunkModel> {
    choose|s: Seq<ChunkModel>| lists(s, m)
}

/// The chunks of `m` whose index lies between `first` and `last`, both
/// included.
pub open spec fn within(m: Map<i64, ChunkModel>, first: i64, last: i64) -> Map<i64, ChunkModel> {
    Map::new(|i: i64| m.contains_key(i) && first <= i <= last, |i: i64| m[i])
}

/// The indices at which `m` refers to `object`.
pub open spec fn uses_of(m: Map<i64, ChunkModel>, object: Uuid) -> Set<i64> {
    Set::new(|i: i64| m.contains_key(i) && m[i].object_id == object)
}

/// `m` without the chunks that refer to `object`.
pub open spec fn without_object(m: Map<i64, ChunkModel>, object: Uuid) -> Map<i64, ChunkModel> {
    Map::new(|i: i64| m.contains_key(i) && m[i].object_id != object, |i: i64| m[i])
}

/// Two lists of the same map are equal.
pub proof fn lemma_lists_unique(s: Seq<ChunkModel>, t: Seq<ChunkModel>, m: Map<i64, ChunkModel>)
    requires
        lists(s, m),
        lists(t, m),
    ensures
        s == t,
    decreases s.len() + t.len(),
{
    if s.len() == 0 && t.len() == 0 {
        assert(s =~= t);
    } else if s.len() == 0 {
        assert(m.contains_key(t[0].chunk_index));
    } else if t.len() == 0 {
        assert(m.contains_key(s[0].chunk_index));
    } else {
        let a = s.last();
        let b = t.last();
        assert(m.contains_key(a.chunk_index) && m.contains_key(b.chunk_index));
        let i = choose|k: int| 0 <= k < t.len() && #[trigger] t[k].chunk_index == a.chunk_index;
        let j = choose|k: int| 0 <= k < s.len() && #[trigger] s[k].chunk_index == b.chunk_index;
        assert(a.chunk_index <= b.chunk_index);
        assert(b.chunk_index <= a.chunk_index);
        assert(a == b);
        let rest = m.remove(a.chunk_index);
        assert(lists(s.drop_last(), rest)) by {
            lemma_lists_drop_last(s, m);
        }
        assert(lists(t.drop_last(), rest)) by {
            lemma_lists_drop_last(t, m);
        }
        lemma_lists_unique(s.drop_last(), t.drop_last(), rest);
        assert(s =~= s.drop_last().push(a));
        assert(t =~= t.drop_last().push(b));
    }
}

proof fn lemma_lists_drop_last(s: Seq<ChunkModel>, m: Map<i64, ChunkModel>)
    requires
        lists(s, m),
        s.len() > 0,
    ensures
        lists(s.drop_last(), m.remove(s.last().chunk_index)),
{
    let rest = m.remove(s.last().chunk_index);
    let t = s.drop_last();
    assert forall|k: int| 0 <= k < t.len() implies #[trigger] rest.contains_key(t[k].chunk_index)
        && rest[t[k].chunk_index] == t[k] by {
        assert(t[k] == s[k]);
        assert(m.contains_key(s[k].chunk_index));
    }
    assert forall|i: i64| #[trigger] rest.contains_key(i) implies exists|k: int|
        0 <= k < t.len() && #[trigger] t[k].chunk_index == i by {
        assert(m.contains_key(i));
        let k = choose|k: int| 0 <= k < s.len() && #[trigger] s[k].chunk_index == i;
        assert(t[k].chunk_index == i);
    }
}

/// A list of a map is its listing.
pub proof fn lemma_listing(s: Seq<ChunkModel>, m: Map<i64, ChunkModel>)
    requires
        lists(s, m),
    ensures
        listing(m) == s,
        lists(listing(m), m),
{
    lemma_lists_unique(s, listing(m), m);
}

/// The map from index to chunk of a list of chunks.
pub open spec fn by_index(s: Seq<ChunkModel>) -> Map<i64, ChunkModel> {
    Map::new(
        |i: i64| exists|k: int| 0 <= k < s.len() && #[trigger] s[k].chunk_index == i,
        |i: i64| s[choose|k: int| 0 <= k < s.len() && #[trigger] s[k].chunk_index == i],
    )
}

/// An ascending list lists the map that it makes, and no other.
pub proof fn lemma_by_index(s: Seq<ChunkModel>)
    requires
        ascending(s),
    ensures
        lists(s, by_index(s)),
        listing(by_index(s)) == s,
        by_index(s).dom().finite(),
        by_index(s).dom().len() == s.len(),
        forall|m: Map<i64, ChunkModel>| #[trigger] lists(s, m) ==> m == by_index(s),
{
    let made = by_index(s);
    assert forall|k: int| 0 <= k < s.len() implies #[trigger] made.contains_key(s[k].chunk_index)
        && made[s[k].chunk_index] == s[k] by {
        let j = choose|j: int|
            0 <= j < s.len() && #[trigger] s[j].chunk_index == s[k].chunk_index;
        assert(j == k);
    }
    lemma_listing(s, made);
    assert forall|m: Map<i64, ChunkModel>| #[trigger] lists(s, m) implies m == made by {
        assert forall|i: i64| m.contains_key(i) == made.contains_key(i) by {
            if m.contains_key(i) {
                let k = choose|k: int| 0 <= k < s.len() && #[trigger] s[k].chunk_index == i;
                assert(made.contains_key(s[k].chunk_index));
            }
            if made.contains_key(i) {
                let k = choose|k: int| 0 <= k < s.len() && #[trigger] s[k].chunk_index == i;
                assert(m.contains_key(s[k].chunk_index));
            }
        }
        assert forall|i: i64| m.contains_key(i) implies m[i] == made[i] by {
            let k = choose|k: int| 0 <= k < s.len() && #[trigger] s[k].chunk_index == i;
            assert(m.contains_key(s[k].chunk_index) && made.contains_key(s[k].chunk_index));
        }
        assert(m =~= made);
    }
    let indices = s.map_values(|c: ChunkModel| c.chunk_index);
    assert(made.dom() =~= indices.to_set()) by {
        assert forall|i: i64| made.dom().contains(i) == indices.to_set().contains(i) by {
            if made.dom().contains(i) {
                let k = choose|k: int| 0 <= k < s.len() && #[trigger] s[k].chunk_index == i;
                assert(indices[k] == i);
            }
            if indices.to_set().contains(i) {
                let k = choose|k: int| 0 <= k < indices.len() && indices[k] == i;
                assert(s[k].chunk_index == i);
            }
        }
    }
    assert(indices.no_duplicates()) by {
        assert forall|i: int, j: int| 0 <= i < j < indices.len() implies indices[i]
            != indices[j] by {
            assert(s[i].chunk_index < s[j].chunk_index);
        }
    }
    indices.unique_seq_to_set();
}

/// Every map that keeps its chunks under their indices has a listing.
pub proof fn lemma_listing_exists(m: Map<i64, ChunkModel>)
    requires
        forall|i: i64| #[trigger] m.contains_key(i) ==> m[i].chunk_index == i,
    ensures
        lists(listing(m), m),
        m.dom().finite(),
        listing(m).len() == m.dom().len(),
{
    let s = lemma_list_up_to(m, i64::MAX as int);
    assert(lists(s, m)) by {
        assert(m =~= Map::new(|i: i64| m.contains_key(i) && i <= i64::MAX, |i: i64| m[i]));
    }
    lemma_listing(s, m);
    lemma_by_index(s);
}

proof fn lemma_list_up_to(m: Map<i64, ChunkModel>, high: int) -> (s: Seq<ChunkModel>)
    requires
        forall|i: i64| #[trigger] m.contains_key(i) ==> m[i].chunk_index == i,
        i64::MIN - 1 <= high <= i64::MAX,
    ensures
        lists(s, Map::new(|i: i64| m.contains_key(i) && i <= high, |i: i64| m[i])),
    decreases high - i64::MIN + 1,
{
    let part = Map::new(|i: i64| m.contains_key(i) && i <= high, |i: i64| m[i]);
    if high < i64::MIN {
        assert(lists(Seq::empty(), part));
        Seq::empty()
    } else {
        let rest = lemma_list_up_to(m, high - 1);
        let below = Map::new(|i: i64| m.contains_key(i) && i <= high - 1, |i: i64| m[i]);
        let top = high as i64;
        if m.contains_key(top) {
            let s = rest.push(m[top]);
            assert forall|k: int| 0 <= k < s.len() implies #[trigger] part.contains_key(
                s[k].chunk_index,
            ) && part[s[k].chunk_index] == s[k] by {
                if k < rest.len() {
                    assert(below.contains_key(rest[k].chunk_index));
                }
            }
            assert forall|i: int, j: int| 0 <= i < j < s.len() implies s[i].chunk_index
                < s[j].chunk_index by {
                assert(below.contains_key(rest[i].chunk_index));
            }
            assert forall|i: i64| #[trigger] part.contains_key(i) implies exists|k: int|
                0 <= k < s.len() && #[trigger] s[k].chunk_index == i by {
                if i == top {
                    assert(s[rest.len() as int].chunk_index == i);
                } else {
                    assert(below.contains_key(i));
                    let k = choose|k: int|
                        0 <= k < rest.len() && #[trigger] rest[k].chunk_index == i;
                    assert(s[k].chunk_index == i);
                }
            }
            s
        } else {
            assert(part =~= below);
            rest
        }
    }
}

/// The chunks of one version. Its view maps each index to its chunk.
#[derive(Debug)]
pub struct Manifest {
    chunks: Vec<FileChunkRecord>,
}

impl View for Manifest {
    type V = Map<i64, ChunkModel>;

    closed spec fn view(&self) -> Map<i64, ChunkModel> {
        by_index(chunk_models(self.chunks@))
    }
}

/// Where `index` stands in `chunks`, or where it would have to go.
fn position(chunks: &Vec<FileChunkRecord>, index: i64) -> (r: Result<usize, usize>)
    requires
        ascending(chunk_models(chunks@)),
    ensures
        match r {
            Ok(at) => at < chunks.len() && chunks@[at as int].chunk_index == index,
            Err(at) => {
                &&& at <= chunks.len()
                &&& forall|k: int| 0 <= k < at ==> (#[trigger] chunks@[k]).chunk_index < index
                &&& forall|k: int|
                    at <= k < chunks.len() ==> index < (#[trigger] chunks@[k]).chunk_index
            },
        },
{
    let ghost s = chunk_models(chunks@);
    let mut low: usize = 0;
    let mut high: usize = chunks.len();
    while low < high
        invariant
            s == chunk_models(chunks@),
            ascending(s),
            low <= high <= chunks.len(),
            forall|k: int| 0 <= k < low ==> (#[trigger] chunks@[k]).chunk_index < index,
            forall|k: int| high <= k < chunks.len() ==> index < (#[trigger] chunks@[k]).chunk_index,
        decreases high - low,
    {
        let mid: usize = low + (high - low) / 2;
        let here: i64 = chunks[mid].chunk_index;
        assert forall|i: int, j: int| 0 <= i < j < chunks.len() implies (
        #[trigger] chunks@[i]).chunk_index < (#[trigger] chunks@[j]).chunk_index by {
            assert(s[i].chunk_index < s[j].chunk_index);
        }
        if here == index {
            return Ok(mid);
        }
        if here < index {
            low = mid + 1;
        } else {
            high = mid;
        }
    }
    Err(low)
}

impl Manifest {
    #[verifier::type_invariant]
    spec fn ordered(self) -> bool {
        ascending(chunk_models(self.chunks@))
    }

    /// A manifest without chunks.
    pub fn new() -> (m: Manifest)
        ensures
            m@ == Map::<i64, ChunkModel>::empty(),
    {
        let m = Manifest { chunks: Vec::new() };
        assert(m@ =~= Map::<i64, ChunkModel>::empty());
        m
    }

    /// Puts `record` at its index, in place of the chunk that was there.
    pub fn put(&mut self, record: FileChunkRecord)
        ensures
            final(self)@ == old(self)@.insert(record.chunk_index, record@),
    {
        proof {
            use_type_invariant(&*self);
            lemma_by_index(chunk_models(self.chunks@));
        }
        let mut chunks: Vec<FileChunkRecord> = Vec::new();
        std::mem::swap(&mut chunks, &mut self.chunks);
        let ghost before = chunk_models(chunks@);
        let ghost wanted = by_index(before).insert(record.chunk_index, record@);
        match position(&chunks, record.chunk_index) {
            Ok(at) => {
                let ghost replaced = before.update(at as int, record@);
                chunks[at] = record;
                proof {
                    assert(chunk_models(chunks@) =~= replaced);
                    lemma_put_lists(before, replaced, at as int, record@, true);
                }
            },
            Err(at) => {
                let ghost widened = before.insert(at as int, record@);
                proof {
                    assert forall|k: int| 0 <= k < at implies before[k].chunk_index
                        < record.chunk_index by {
                        assert(chunks@[k].chunk_index < record.chunk_index);
                    }
                    assert forall|k: int| at <= k < before.len() implies record.chunk_index
                        < before[k].chunk_index by {
                        assert(record.chunk_index < chunks@[k].chunk_index);
                    }
                }
                chunks.insert(at, record);
                proof {
                    assert(chunk_models(chunks@) =~= widened);
                    lemma_put_lists(before, widened, at as int, record@, false);
                }
            },
        }
        proof {
            lemma_by_index(chunk_models(chunks@));
        }
        self.chunks = chunks;
    }

    /// Whether there is a chunk at `index`.
    pub fn has(&self, index: i64) -> (r: bool)
        ensures
            r == self@.contains_key(index),
    {
        proof {
            use_type_invariant(self);
            lemma_by_index(chunk_models(self.chunks@));
        }
        let ghost s = chunk_models(self.chunks@);
        match position(&self.chunks, index) {
            Ok(at) => {
                assert(s[at as int].chunk_index == index);
                true
            },
            Err(at) => {
                proof {
                    if self@.contains_key(index) {
                        let k = choose|k: int|
                            0 <= k < s.len() && #[trigger] s[k].chunk_index == index;
                        assert(self.chunks@[k].chunk_index == index);
                    }
                }
                false
            },
        }
    }

    /// The number of chunks.
    pub fn len(&self) -> (n: usize)
        ensures
            n == self@.dom().len(),
            n == listing(self@).len(),
            self@.dom().finite(),
            lists(listing(self@), self@),
    {
        proof {
            use_type_invariant(self);
            lemma_by_index(chunk_models(self.chunks@));
        }
        self.chunks.len()
    }

    /// The chunk at position `k` of the order by index.
    pub fn at(&self, k: usize) -> (c: &FileChunkRecord)
        requires
            k < listing(self@).len(),
        ensures
            c@ == listing(self@)[k as int],
    {
        proof {
            use_type_invariant(self);
            lemma_by_index(chunk_models(self.chunks@));
        }
        &self.chunks[k]
    }

    /// The chunks with an index from `first` to `last`, ordered by index.
    pub fn range(&self, first: i64, last: i64) -> (r: Vec<FileChunkRecord>)
        ensures
            lists(chunk_models(r@), within(self@, first, last)),
    {
        proof {
            use_type_invariant(self);
            lemma_by_index(chunk_models(self.chunks@));
        }
        let ghost s = chunk_models(self.chunks@);
        let ghost wanted = within(self@, first, last);
        let mut r: Vec<FileChunkRecord> = Vec::new();
        let mut i: usize = 0;
        while i < self.chunks.len()
            invariant
                s == chunk_models(self.chunks@),
                ascending(s),
                lists(s, self@),
                wanted == within(self@, first, last),
                i <= self.chunks.len(),
                ascending(chunk_models(r@)),
                forall|k: int, j: int|
                    0 <= k < r.len() && i <= j < s.len() ==> (#[trigger] r@[k]).chunk_index < (
                    #[trigger] s[j]).chunk_index,
                forall|k: int|
                    0 <= k < r.len() ==> wanted.contains_key((#[trigger] r@[k]).chunk_index)
                        && wanted[r@[k].chunk_index] == r@[k]@,
                forall|j: int|
                    0 <= j < i && first <= (#[trigger] s[j]).chunk_index <= last ==> exists|k: int|
                        0 <= k < r.len() && (#[trigger] r@[k]).chunk_index == s[j].chunk_index,
            decreases self.chunks.len() - i,
        {
            let c: &FileChunkRecord = &self.chunks[i];
            let ghost before = r@;
            assert(s[i as int] == c@);
            assert(self@.contains_key(s[i as int].chunk_index));
            if c.chunk_index >= first && c.chunk_index <= last {
                r.push(c.clone());
                proof {
                    assert(r@.last().chunk_index == s[i as int].chunk_index);
                    assert forall|j: int|
                        0 <= j < i + 1 && first <= (#[trigger] s[j]).chunk_index
                            <= last implies exists|k: int|
                        0 <= k < r.len() && (#[trigger] r@[k]).chunk_index == s[j].chunk_index by {
                        if j < i {
                            let k = choose|k: int|
                                0 <= k < before.len() && (#[trigger] before[k]).chunk_index
                                    == s[j].chunk_index;
                            assert(r@[k].chunk_index == s[j].chunk_index);
                        }
                    }
                    let models = chunk_models(r@);
                    assert forall|x: int, y: int| 0 <= x < y < models.len() implies
                        models[x].chunk_index < models[y].chunk_index by {
                        let earlier = chunk_models(before);
                        if y < before.len() {
                            assert(earlier[x].chunk_index < earlier[y].chunk_index);
                        } else {
                            assert(before[x].chunk_index < s[i as int].chunk_index);
                        }
                    }
                    assert forall|k: int| 0 <= k < r.len() implies wanted.contains_key(
                        (#[trigger] r@[k]).chunk_index,
                    ) && wanted[r@[k].chunk_index] == r@[k]@ by {
                        if k < before.len() {
                            assert(r@[k] == before[k]);
                        }
                    }
                }
            }
            i = i + 1;
        }
        proof {
            let models = chunk_models(r@);
            assert forall|x: i64| #[trigger] wanted.contains_key(x) implies exists|k: int|
                0 <= k < models.len() && #[trigger] models[k].chunk_index == x by {
                let j = choose|j: int| 0 <= j < s.len() && #[trigger] s[j].chunk_index == x;
                let k = choose|k: int|
                    0 <= k < r.len() && (#[trigger] r@[k]).chunk_index == s[j].chunk_index;
                assert(models[k].chunk_index == x);
            }
            assert forall|k: int| 0 <= k < models.len() implies #[trigger] wanted.contains_key(
                models[k].chunk_index,
            ) && wanted[models[k].chunk_index] == models[k] by {
                assert(wanted.contains_key(r@[k].chunk_index));
            }
        }
        r
    }

    /// All chunks, ordered by index.
    pub fn to_vec(&self) -> (r: Vec<FileChunkRecord>)
        ensures
            lists(chunk_models(r@), self@),
    {
        let r = self.range(i64::MIN, i64::MAX);
        assert(within(self@, i64::MIN, i64::MAX) =~= self@);
        r
    }

    /// Drops every chunk that refers to `object` and says how many there were.
    pub fn forget(&mut self, object: Uuid) -> (removed: usize)
        ensures
            final(self)@ == without_object(old(self)@, object),
            uses_of(old(self)@, object).finite(),
            removed == uses_of(old(self)@, object).len(),
    {
        proof {
            use_type_invariant(&*self);
            lemma_by_index(chunk_models(self.chunks@));
        }
        let mut chunks: Vec<FileChunkRecord> = Vec::new();
        std::mem::swap(&mut chunks, &mut self.chunks);
        let ghost whole = by_index(chunk_models(chunks@));
        let ghost mut gone = Set::<i64>::empty();
        let total: usize = chunks.len();
        let mut removed: usize = 0;
        let mut i: usize = 0;
        while i < chunks.len()
            invariant
                i <= chunks.len(),
                ascending(chunk_models(chunks@)),
                by_index(chunk_models(chunks@)) == whole.remove_keys(gone),
                gone.subset_of(uses_of(whole, object)),
                gone.finite(),
                gone.len() == removed,
                removed + chunks.len() == total,
                forall|k: int| 0 <= k < i ==> (#[trigger] chunks@[k]).object_id != object,
            decreases chunks.len() - i,
        {
            let ghost now = chunk_models(chunks@);
            if chunks[i].object_id == object {
                let ghost index = chunks@[i as int].chunk_index;
                proof {
                    lemma_by_index(now);
                    lemma_remove_lists(now, i as int);
                    assert(by_index(now).contains_key(now[i as int].chunk_index));
                    assert(whole.contains_key(index) && whole[index].object_id == object);
                    assert(!gone.contains(index));
                    assert(whole.remove_keys(gone).remove(index) =~= whole.remove_keys(
                        gone.insert(index),
                    ));
                    gone = gone.insert(index);
                }
                let dropped = chunks.remove(i);
                removed = removed + 1;
                assert(chunk_models(chunks@) =~= now.remove(i as int));
            } else {
                i = i + 1;
            }
        }
        proof {
            let left = chunk_models(chunks@);
            lemma_by_index(left);
            assert(gone =~= uses_of(whole, object)) by {
                assert forall|x: i64| uses_of(whole, object).contains(x) implies gone.contains(
                    x,
                ) by {
                    if !gone.contains(x) {
                        assert(by_index(left).contains_key(x));
                        let k = choose|k: int|
                            0 <= k < left.len() && #[trigger] left[k].chunk_index == x;
                        assert(by_index(left).contains_key(left[k].chunk_index));
                        assert(chunks@[k].object_id == object);
                    }
                }
            }
            assert(by_index(left) =~= without_object(whole, object));
        }
        self.chunks = chunks;
        removed
    }
}

/// Taking one chunk out of an ascending list takes its index out of the map.
proof fn lemma_remove_lists(s: Seq<ChunkModel>, at: int)
    requires
        ascending(s),
        0 <= at < s.len(),
    ensures
        ascending(s.remove(at)),
        by_index(s.remove(at)) == by_index(s).remove(s[at].chunk_index),
{
    lemma_by_index(s);
    let t = s.remove(at);
    let rest = by_index(s).remove(s[at].chunk_index);
    let origin = |k: int|
        if k < at {
            k
        } else {
            k + 1
        };
    assert forall|k: int| 0 <= k < t.len() implies t[k] == s[origin(k)] && origin(k) != at && 0
        <= origin(k) < s.len() by {}
    assert(ascending(t));
    assert(lists(t, rest)) by {
        assert forall|k: int| 0 <= k < t.len() implies #[trigger] rest.contains_key(
            t[k].chunk_index,
        ) && rest[t[k].chunk_index] == t[k] by {
            assert(by_index(s).contains_key(s[origin(k)].chunk_index));
        }
        assert forall|i: i64| #[trigger] rest.contains_key(i) implies exists|k: int|
            0 <= k < t.len() && #[trigger] t[k].chunk_index == i by {
            assert(by_index(s).contains_key(i));
            let k = choose|k: int| 0 <= k < s.len() && #[trigger] s[k].chunk_index == i;
            if k < at {
                assert(t[k] == s[k]);
            } else {
                assert(t[k - 1] == s[k]);
            }
        }
    }
    lemma_by_index(t);
}

/// Writing a chunk over its own index, or between its neighbours, makes the
/// list of the map with that chunk put in.
proof fn lemma_put_lists(
    before: Seq<ChunkModel>,
    after: Seq<ChunkModel>,
    at: int,
    c: ChunkModel,
    replaces: bool,
)
    requires
        ascending(before),
        replaces ==> 0 <= at < before.len() && before[at].chunk_index == c.chunk_index && after
            == before.update(at, c),
        !replaces ==> 0 <= at <= before.len() && after == before.insert(at, c),
        !replaces ==> forall|k: int|
            0 <= k < at ==> (#[trigger] before[k]).chunk_index < c.chunk_index,
        !replaces ==> forall|k: int|
            at <= k < before.len() ==> c.chunk_index < (#[trigger] before[k]).chunk_index,
    ensures
        lists(after, by_index(before).insert(c.chunk_index, c)),
{
    lemma_by_index(before);
    let m = by_index(before);
    let wanted = m.insert(c.chunk_index, c);
    let origin = |k: int|
        if replaces || k < at {
            k
        } else {
            k - 1
        };
    let image = |k: int|
        if replaces || k < at {
            k
        } else {
            k + 1
        };
    assert(after[at] == c);
    assert forall|k: int| 0 <= k < after.len() && k != at implies after[k] == before[origin(k)]
        && 0 <= origin(k) < before.len() by {}
    assert(ascending(after));
    assert forall|k: int| 0 <= k < after.len() implies #[trigger] wanted.contains_key(
        after[k].chunk_index,
    ) && wanted[after[k].chunk_index] == after[k] by {
        if k != at {
            assert(m.contains_key(before[origin(k)].chunk_index));
            assert(after[k].chunk_index != c.chunk_index);
        }
    }
    assert forall|i: i64| #[trigger] wanted.contains_key(i) implies exists|k: int|
        0 <= k < after.len() && #[trigger] after[k].chunk_index == i by {
        if i == c.chunk_index {
            assert(after[at].chunk_index == i);
        } else {
            assert(m.contains_key(i));
            let k = choose|k: int| 0 <= k < before.len() && #[trigger] before[k].chunk_index == i;
            assert(after[image(k)] == before[k]);
        }
    }
}

} // verus!
