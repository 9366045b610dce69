//! Login sessions, keyed by the hash of their token.

use crate::clock::Timestamp;
use crate::ident::Uuid;
use crate::records::{SessionModel, SessionRecord};
use crate::text::same_text;
use vstd::prelude::*;

verus! {

/// A session and whether it was revoked.
#[verifier::ext_equal]
pub struct SessionState {
    pub record: SessionModel,
    pub revoked: bool,
}

/// One row: the token hash, its session, and the revoked flag.
#[derive(Debug)]
struct Entry {
    token_hash: String,
    record: SessionRecord,
    revoked: bool,
}

spec fn state(e: Entry) -> SessionState {
    SessionState { record: e.record@, revoked: e.revoked }
}

spec fn unique(s: Seq<Entry>) -> bool {
    forall|i: int, j: int| 0 <= i < j < s.len() ==> s[i].token_hash@ != s[j].token_hash@
}

spec fn stands_at(s: Seq<Entry>, k: int, token_hash: Seq<char>) -> bool {
    0 <= k < s.len() && s[k].token_hash@ == token_hash
}

spec fn by_token(s: Seq<Entry>) -> Map<Seq<char>, SessionState> {
    Map::new(
        |t: Seq<char>| exists|k: int| stands_at(s, k, t),
        |t: Seq<char>| state(s[choose|k: int| stands_at(s, k, t)]),
    )
}

proof fn lemma_by_token(s: Seq<Entry>)
    requires
        unique(s),
    ensures
        forall|k: int|
            0 <= k < s.len() ==> by_token(s).contains_key((#[trigger] s[k]).token_hash@)
                && by_token(s)[s[k].token_hash@] == state(s[k]),
        by_token(s).dom().finite(),
        by_token(s).dom().len() == s.len(),
{
    assert forall|k: int| 0 <= k < s.len() implies by_token(s).contains_key(
        (#[trigger] s[k]).token_hash@,
    ) && by_token(s)[s[k].token_hash@] == state(s[k]) by {
        let t = s[k].token_hash@;
        assert(stands_at(s, k, t));
        let j = choose|j: int| stands_at(s, j, t);
        assert(j == k);
    }
    let tokens = s.map_values(|e: Entry| e.token_hash@);
    assert(by_token(s).dom() =~= tokens.to_set()) by {
        assert forall|t: Seq<char>| by_token(s).dom().contains(t) == tokens.to_set().contains(
            t,
        ) by {
            if by_token(s).dom().contains(t) {
                let k = choose|k: int| stands_at(s, k, t);
                assert(tokens[k] == t);
            }
            if tokens.to_set().contains(t) {
                let k = choose|k: int| 0 <= k < tokens.len() && tokens[k] == t;
                assert(stands_at(s, k, t));
            }
        }
    }
    assert forall|i: int, j: int| 0 <= i < j < tokens.len() implies tokens[i] != tokens[j] by {
        assert(s[i].token_hash@ != s[j].token_hash@);
    }
    tokens.unique_seq_to_set();
}

/// The sessions that `m` keeps once those that expired before `older_than`
/// are dropped.
pub open spec fn unexpired(
    m: Map<Seq<char>, SessionState>,
    older_than: Timestamp,
) -> Map<Seq<char>, SessionState> {
    Map::new(
        |t: Seq<char>| m.contains_key(t) && !m[t].record.expires_at.before(older_than),
        |t: Seq<char>| m[t],
    )
}

/// `token_hash` stands for a session of `id` that was not revoked.
pub open spec fn active(
    m: Map<Seq<char>, SessionState>,
    token_hash: Seq<char>,
    id: Uuid,
) -> bool {
    m.contains_key(token_hash) && m[token_hash].record.id == id && !m[token_hash].revoked
}

/// `m` with the session of `token_hash` marked as revoked.
pub open spec fn with_revoked(
    m: Map<Seq<char>, SessionState>,
    token_hash: Seq<char>,
) -> Map<Seq<char>, SessionState> {
    m.insert(token_hash, SessionState { revoked: true, ..m[token_hash] })
}

/// The sessions. No token hash occurs twice. Its view maps each token hash to
/// its session.
#[derive(Debug)]
pub struct SessionTable {
    entries: Vec<Entry>,
}

impl View for SessionTable {
    type V = Map<Seq<char>, SessionState>;

    closed spec fn view(&self) -> Map<Seq<char>, SessionState> {
        by_token(self.entries@)
    }
}

impl SessionTable {
    #[verifier::type_invariant]
    spec fn keyed(self) -> bool {
        unique(self.entries@)
    }

    /// No sessions.
    pub fn new() -> (t: SessionTable)
        ensures
            t@ == Map::<Seq<char>, SessionState>::empty(),
    {
        let t = SessionTable { entries: Vec::new() };
        assert(t@ =~= Map::<Seq<char>, SessionState>::empty());
        t
    }

    /// The position of `token_hash`.
    fn position(&self, token_hash: &str) -> (r: Option<usize>)
        ensures
            match r {
                Some(k) => {
                    &&& k < self.entries@.len()
                    &&& self.entries@[k as int].token_hash@ == token_hash@
                    &&& self@.contains_key(token_hash@)
                    &&& self@[token_hash@] == state(self.entries@[k as int])
                },
                None => {
                    &&& !self@.contains_key(token_hash@)
                    &&& forall|k: int|
                        0 <= k < self.entries@.len() ==> (
                        #[trigger] self.entries@[k]).token_hash@ != token_hash@
                },
            },
    {
        proof {
            use_type_invariant(self);
            lemma_by_token(self.entries@);
        }
        let mut k: usize = 0;
        while k < self.entries.len()
            invariant
                k <= self.entries.len(),
                forall|i: int|
                    0 <= i < k ==> (#[trigger] self.entries@[i]).token_hash@ != token_hash@,
                forall|i: int|
                    0 <= i < self.entries@.len() ==> self@.contains_key(
                        (#[trigger] self.entries@[i]).token_hash@,
                    ) && self@[self.entries@[i].token_hash@] == state(self.entries@[i]),
            decreases self.entries.len() - k,
        {
            if same_text(self.entries[k].token_hash.as_str(), token_hash) {
                return Some(k);
            }
            k = k + 1;
        }
        None
    }

    /// The session of `token_hash`, and whether it was revoked.
    pub fn get(&self, token_hash: &str) -> (r: Option<(&SessionRecord, bool)>)
        ensures
            match r {
                Some((record, revoked)) => self@.contains_key(token_hash@)
                    && self@[token_hash@] == (SessionState { record: record@, revoked }),
                None => !self@.contains_key(token_hash@),
            },
    {
        match self.position(token_hash) {
            Some(k) => Some((&self.entries[k].record, self.entries[k].revoked)),
            None => None,
        }
    }

    /// Puts a session that is not revoked under `token_hash`, in place of what
    /// was there.
    pub fn put(&mut self, token_hash: &str, record: SessionRecord)
        ensures
            final(self)@ == old(self)@.insert(
                token_hash@,
                SessionState { record: record@, revoked: false },
            ),
    {
        let found = self.position(token_hash);
        proof {
            use_type_invariant(&*self);
            lemma_by_token(self.entries@);
        }
        let entry = Entry { token_hash: token_hash.to_owned(), record, revoked: false };
        let mut entries: Vec<Entry> = Vec::new();
        std::mem::swap(&mut entries, &mut self.entries);
        let ghost before = entries@;
        match found {
            Some(k) => {
                entries[k] = entry;
            },
            None => {
                entries.push(entry);
            },
        }
        proof {
            let after = entries@;
            assert(unique(after)) by {
                assert forall|i: int, j: int| 0 <= i < j < after.len() implies
                    after[i].token_hash@ != after[j].token_hash@ by {
                    if i < before.len() && j < before.len() {
                        assert(before[i].token_hash@ != before[j].token_hash@);
                    }
                }
            }
            lemma_by_token(after);
            let at: int = match found {
                Some(k) => k as int,
                None => before.len() as int,
            };
            let wanted = by_token(before).insert(token_hash@, state(entry));
            assert(after[at] == entry);
            assert forall|t: Seq<char>| by_token(after).contains_key(t) == wanted.contains_key(
                t,
            ) by {
                if by_token(after).contains_key(t) && t != token_hash@ {
                    let k = choose|k: int| stands_at(after, k, t);
                    assert(stands_at(before, k, t));
                }
                if wanted.contains_key(t) && t != token_hash@ {
                    let k = choose|k: int| stands_at(before, k, t);
                    assert(stands_at(after, k, t));
                }
            }
            assert forall|t: Seq<char>| wanted.contains_key(t) implies by_token(after)[t]
                == wanted[t] by {
                if t != token_hash@ {
                    let k = choose|k: int| stands_at(before, k, t);
                    assert(after[k] == before[k]);
                }
            }
            assert(by_token(after) =~= wanted);
        }
        self.entries = entries;
    }

    /// Revokes a session of `id` that is not revoked yet, and says whether
    /// there was one. Where several sessions share `id`, one of them is
    /// revoked.
    pub fn revoke(&mut self, id: Uuid) -> (r: bool)
        ensures
            r ==> exists|t: Seq<char>| #[trigger]
                active(old(self)@, t, id) && final(self)@ == with_revoked(old(self)@, t),
            !r ==> final(self)@ == old(self)@,
            !r ==> forall|t: Seq<char>| !#[trigger] active(old(self)@, t, id),
    {
        proof {
            use_type_invariant(&*self);
            lemma_by_token(self.entries@);
        }
        let mut entries: Vec<Entry> = Vec::new();
        std::mem::swap(&mut entries, &mut self.entries);
        let ghost before = entries@;
        let mut k: usize = 0;
        while k < entries.len()
            invariant
                entries@ == before,
                unique(before),
                by_token(before) == old(self)@,
                forall|i: int|
                    0 <= i < before.len() ==> by_token(before).contains_key(
                        (#[trigger] before[i]).token_hash@,
                    ) && by_token(before)[before[i].token_hash@] == state(before[i]),
                forall|i: int|
                    0 <= i < k ==> (#[trigger] before[i]).record.id != id || before[i].revoked,
            decreases entries.len() - k,
        {
            if entries[k].record.id == id && !entries[k].revoked {
                entries[k].revoked = true;
                proof {
                    let after = entries@;
                    let t = before[k as int].token_hash@;
                    assert(after[k as int].token_hash@ == t);
                    assert(unique(after)) by {
                        assert forall|i: int, j: int| 0 <= i < j < after.len() implies
                            after[i].token_hash@ != after[j].token_hash@ by {
                            assert(before[i].token_hash@ != before[j].token_hash@);
                        }
                    }
                    lemma_by_token(after);
                    let wanted = with_revoked(by_token(before), t);
                    assert forall|x: Seq<char>| by_token(after).contains_key(x)
                        == wanted.contains_key(x) by {
                        if by_token(after).contains_key(x) {
                            let j = choose|j: int| stands_at(after, j, x);
                            assert(stands_at(before, j, x));
                        }
                        if wanted.contains_key(x) {
                            let j = choose|j: int| stands_at(before, j, x);
                            assert(stands_at(after, j, x));
                        }
                    }
                    assert forall|x: Seq<char>| wanted.contains_key(x) implies by_token(after)[x]
                        == wanted[x] by {
                        let j = choose|j: int| stands_at(before, j, x);
                        if j != k {
                            assert(after[j] == before[j]);
                            assert(x != t);
                        } else {
                            assert(state(after[j]) == wanted[x]);
                        }
                    }
                    assert(by_token(after) =~= wanted);
                    assert(active(old(self)@, t, id));
                }
                self.entries = entries;
                return true;
            }
            k = k + 1;
        }
        proof {
            assert forall|t: Seq<char>| !#[trigger] active(old(self)@, t, id) by {
                if old(self)@.contains_key(t) {
                    let j = choose|j: int| stands_at(before, j, t);
                    assert(by_token(before)[before[j].token_hash@] == state(before[j]));
                }
            }
        }
        self.entries = entries;
        false
    }

    /// Drops the sessions that expired before `older_than`, and says how many
    /// there were.
    pub fn drop_expired(&mut self, older_than: Timestamp) -> (removed: usize)
        ensures
            final(self)@ == unexpired(old(self)@, older_than),
            old(self)@.dom().finite(),
            removed == old(self)@.dom().len() - final(self)@.dom().len(),
    {
        proof {
            use_type_invariant(&*self);
            lemma_by_token(self.entries@);
        }
        let mut entries: Vec<Entry> = Vec::new();
        std::mem::swap(&mut entries, &mut self.entries);
        let total: usize = entries.len();
        let ghost whole = by_token(entries@);
        let ghost mut gone = Set::<Seq<char>>::empty();
        let mut removed: usize = 0;
        let mut i: usize = 0;
        while i < entries.len()
            invariant
                i <= entries.len(),
                unique(entries@),
                by_token(entries@) == whole.remove_keys(gone),
                forall|t: Seq<char>| #[trigger]
                    gone.contains(t) ==> whole.contains_key(t) && !unexpired(
                        whole,
                        older_than,
                    ).contains_key(t),
                removed + entries.len() == total,
                forall|k: int|
                    0 <= k < i ==> !(#[trigger] entries@[k]).record.expires_at.before(older_than),
            decreases entries.len() - i,
        {
            if entries[i].record.expires_at.is_before(older_than) {
                let ghost now = entries@;
                let ghost t = now[i as int].token_hash@;
                proof {
                    lemma_by_token(now);
                    assert(by_token(now)[now[i as int].token_hash@] == state(now[i as int]));
                }
                let dropped = entries.remove(i);
                removed = removed + 1;
                proof {
                    lemma_remove_entry(now, i as int);
                    assert(entries@ == now.remove(i as int));
                    assert(whole.remove_keys(gone).remove(t) =~= whole.remove_keys(gone.insert(t)));
                    gone = gone.insert(t);
                }
            } else {
                i = i + 1;
            }
        }
        proof {
            let left = entries@;
            lemma_by_token(left);
            let wanted = unexpired(whole, older_than);
            assert forall|t: Seq<char>| by_token(left).contains_key(t) == wanted.contains_key(t) by {
                if by_token(left).contains_key(t) {
                    let k = choose|k: int| stands_at(left, k, t);
                    assert(by_token(left)[left[k].token_hash@] == state(left[k]));
                }
            }
            assert(by_token(left) =~= wanted);
        }
        self.entries = entries;
        removed
    }
}

/// Taking one row out takes its token hash out of the map.
proof fn lemma_remove_entry(s: Seq<Entry>, at: int)
    requires
        unique(s),
        0 <= at < s.len(),
    ensures
        unique(s.remove(at)),
        by_token(s.remove(at)) == by_token(s).remove(s[at].token_hash@),
{
    let t = s.remove(at);
    lemma_by_token(s);
    assert forall|i: int, j: int| 0 <= i < j < t.len() implies t[i].token_hash@
        != t[j].token_hash@ by {
        let x = if i < at {
            i
        } else {
            i + 1
        };
        let y = if j < at {
            j
        } else {
            j + 1
        };
        assert(s[x].token_hash@ != s[y].token_hash@);
    }
    lemma_by_token(t);
    let wanted = by_token(s).remove(s[at].token_hash@);
    assert forall|x: Seq<char>| by_token(t).contains_key(x) == wanted.contains_key(x) by {
        if by_token(t).contains_key(x) {
            let k = choose|k: int| stands_at(t, k, x);
            let j = if k < at {
                k
            } else {
                k + 1
            };
            assert(stands_at(s, j, x));
            assert(s[j].token_hash@ != s[at].token_hash@);
        }
        if wanted.contains_key(x) {
            let j = choose|j: int| stands_at(s, j, x);
            let k = if j < at {
                j
            } else {
                j - 1
            };
            assert(stands_at(t, k, x));
        }
    }
    assert forall|x: Seq<char>| wanted.contains_key(x) implies by_token(t)[x] == wanted[x] by {
        let j = choose|j: int| stands_at(s, j, x);
        let k = if j < at {
            j
        } else {
            j - 1
        };
        assert(t[k] == s[j]);
        assert(by_token(t)[t[k].token_hash@] == state(t[k]));
    }
    assert(by_token(t) =~= wanted);
}

} // verus!
