//! The session store: a mapping from session identifier to session
//! record, viewed as a `Map<Seq<char>, SessionView>`. The surrounding
//! server shares one store across request handlers behind a
//! reader/writer lock; every operation here is a single map step, so the
//! lock is never held across a network call.

use vstd::prelude::*;

use crate::models::{AuthState, Profile, SessionView};

verus! {

/// The store keeps its entries as a vector of (identifier, session)
/// pairs with pairwise-distinct identifiers.
pub struct SessionStore {
    entries: Vec<(String, AuthState)>,
}

/// Pairwise-distinct identifiers.
spec fn unique_keys(s: Seq<(String, AuthState)>) -> bool {
    forall|i: int, j: int| 0 <= i < j < s.len() ==> s[i].0@ != s[j].0@
}

/// The map an entry sequence denotes: later entries win, though under
/// distinct keys every entry is visible.
spec fn entries_map(s: Seq<(String, AuthState)>) -> Map<Seq<char>, SessionView>
    decreases s.len(),
{
    if s.len() == 0 {
        Map::empty()
    } else {
        entries_map(s.drop_last()).insert(s.last().0@, s.last().1@)
    }
}

/// Under distinct keys, a key is in the map exactly when some entry
/// carries it, and every entry is the one its key maps to.
proof fn lemma_entries_map(s: Seq<(String, AuthState)>)
    requires
        unique_keys(s),
    ensures
        forall|k: Seq<char>|
            entries_map(s).contains_key(k) <==> (exists|i: int|
                0 <= i < s.len() && #[trigger] s[i].0@ == k),
        forall|i: int| 0 <= i < s.len() ==> entries_map(s)[#[trigger] s[i].0@] == s[i].1@,
    decreases s.len(),
{
    if s.len() > 0 {
        let t = s.drop_last();
        let n = s.len() - 1;
        assert(forall|j: int| 0 <= j < n ==> #[trigger] t[j] == s[j]);
        assert(unique_keys(t)) by {
            assert forall|i: int, j: int| 0 <= i < j < t.len() implies t[i].0@ != t[j].0@ by {
                assert(s[i].0@ != s[j].0@);
            }
        }
        lemma_entries_map(t);
        assert forall|k: Seq<char>| entries_map(s).contains_key(k) implies (exists|i: int|
            0 <= i < s.len() && #[trigger] s[i].0@ == k) by {
            if k == s.last().0@ {
                assert(s[n].0@ == k);
            } else {
                assert(entries_map(t).contains_key(k));
                let i = choose|i: int| 0 <= i < t.len() && #[trigger] t[i].0@ == k;
                assert(s[i].0@ == k);
            }
        }
        assert forall|k: Seq<char>|
            (exists|i: int| 0 <= i < s.len() && #[trigger] s[i].0@ == k) implies entries_map(
            s,
        ).contains_key(k) by {
            let i = choose|i: int| 0 <= i < s.len() && #[trigger] s[i].0@ == k;
            if i < n {
                assert(t[i].0@ == k);
                assert(entries_map(t).contains_key(k));
            } else {
                assert(k == s.last().0@);
            }
        }
        assert forall|i: int| 0 <= i < s.len() implies entries_map(s)[#[trigger] s[i].0@]
            == s[i].1@ by {
            if i < n {
                assert(t[i].0@ == s[i].0@ && t[i].1@ == s[i].1@);
                assert(entries_map(t)[t[i].0@] == t[i].1@);
                assert(s[i].0@ != s[n].0@);
            }
        }
    }
}

impl View for SessionStore {
    type V = Map<Seq<char>, SessionView>;

    closed spec fn view(&self) -> Map<Seq<char>, SessionView> {
        entries_map(self.entries@)
    }
}

impl SessionStore {
    /// Identifiers are pairwise distinct, so each entry is the one the
    /// map associates with its identifier.
    pub closed spec fn wf(&self) -> bool {
        unique_keys(self.entries@)
    }

    /// An empty store.
    pub fn new() -> (r: SessionStore)
        ensures
            r.wf(),
            r@ == Map::<Seq<char>, SessionView>::empty(),
    {
        SessionStore { entries: Vec::new() }
    }

    /// Inserts a new session under `id`, silently overwriting a colliding
    /// entry (collisions are negligible given the identifier's entropy).
    pub fn create(&mut self, id: String, session: AuthState)
        requires
            old(self).wf(),
        ensures
            final(self).wf(),
            final(self)@ == old(self)@.insert(id@, session@),
    {
        let ghost s0 = self.entries@;
        proof {
            lemma_entries_map(s0);
        }
        let mut i: usize = 0;
        while i < self.entries.len()
            invariant
                i <= s0.len(),
                self.entries@ == s0,
                s0 == old(self).entries@,
                unique_keys(s0),
                forall|j: int| 0 <= j < i ==> s0[j].0@ != id@,
            decreases s0.len() - i,
        {
            if self.entries[i].0 == id {
                self.entries.remove(i);
                self.entries.push((id, session));
                proof {
                    lemma_entries_map(s0);
                    lemma_replace_at(s0, i as int, self.entries@, (id, session));
                    assert(entries_map(self.entries@) =~= entries_map(s0).insert(id@, session@));
                }
                return ;
            }
            i += 1;
        }
        self.entries.push((id, session));
        proof {
            lemma_entries_map(s0);
            let s1 = self.entries@;
            assert(s1.drop_last() =~= s0);
            assert(s1.last() == (id, session));
            assert(unique_keys(s1)) by {
                assert forall|a: int, b: int|
                    0 <= a < b < s1.len() implies s1[a].0@ != s1[b].0@ by {
                    if b < s1.len() - 1 {
                        assert(s1[a] == s0[a] && s1[b] == s0[b]);
                        assert(s0[a].0@ != s0[b].0@);
                    } else {
                        assert(s1[a] == s0[a] && s0[a].0@ != id@);
                    }
                }
            }
            assert(entries_map(s1) == entries_map(s1.drop_last()).insert(
                s1.last().0@,
                s1.last().1@,
            ));
            assert(entries_map(s1) == entries_map(s0).insert(id@, session@));
        }
    }

    /// Looks the session up.
    pub fn get(&self, id: &String) -> (r: Option<&AuthState>)
        requires
            self.wf(),
        ensures
            match r {
                Some(st) => self@.contains_key(id@) && st@ == self@[id@],
                None => !self@.contains_key(id@),
            },
    {
        proof {
            lemma_entries_map(self.entries@);
        }
        let mut i: usize = 0;
        while i < self.entries.len()
            invariant
                self.wf(),
                i <= self.entries@.len(),
                forall|j: int| 0 <= j < i ==> self.entries@[j].0@ != id@,
            decreases self.entries@.len() - i,
        {
            if self.entries[i].0 == *id {
                proof {
                    lemma_entries_map(self.entries@);
                    assert(self.entries@[i as int].0@ == id@);
                }
                return Some(&self.entries[i].1);
            }
            i += 1;
        }
        proof {
            lemma_entries_map(self.entries@);
            assert(!self@.contains_key(id@)) by {
                if self@.contains_key(id@) {
                    let j = choose|j: int|
                        0 <= j < self.entries@.len() && #[trigger] self.entries@[j].0@ == id@;
                }
            }
        }
        None
    }

    /// Deletes the entry if present; a no-op otherwise.
    pub fn remove(&mut self, id: &String)
        requires
            old(self).wf(),
        ensures
            final(self).wf(),
            final(self)@ == old(self)@.remove(id@),
    {
        let ghost s0 = self.entries@;
        proof {
            lemma_entries_map(s0);
        }
        let mut i: usize = 0;
        while i < self.entries.len()
            invariant
                i <= s0.len(),
                self.entries@ == s0,
                s0 == old(self).entries@,
                unique_keys(s0),
                forall|j: int| 0 <= j < i ==> s0[j].0@ != id@,
            decreases s0.len() - i,
        {
            if self.entries[i].0 == *id {
                self.entries.remove(i);
                proof {
                    lemma_entries_map(s0);
                    lemma_remove_at(s0, i as int, self.entries@);
                    assert(entries_map(self.entries@) =~= entries_map(s0).remove(id@));
                }
                return ;
            }
            i += 1;
        }
        proof {
            lemma_entries_map(s0);
            assert(!entries_map(s0).contains_key(id@)) by {
                if entries_map(s0).contains_key(id@) {
                    let j = choose|j: int| 0 <= j < s0.len() && #[trigger] s0[j].0@ == id@;
                }
            }
            assert(entries_map(s0) =~= entries_map(s0).remove(id@));
        }
    }

    /// Attaches the profile to the session, keeping its CSRF token and
    /// PKCE verifier; reports whether the session was present.
    pub fn set_profile(&mut self, id: &String, profile: Profile) -> (r: bool)
        requires
            old(self).wf(),
        ensures
            final(self).wf(),
            r == old(self)@.contains_key(id@),
            r ==> final(self)@ == old(self)@.insert(
                id@,
                SessionView { profile: Some(profile@), ..old(self)@[id@] },
            ),
            !r ==> final(self)@ == old(self)@,
    {
        let ghost s0 = self.entries@;
        proof {
            lemma_entries_map(s0);
        }
        let mut i: usize = 0;
        while i < self.entries.len()
            invariant
                i <= s0.len(),
                self.entries@ == s0,
                s0 == old(self).entries@,
                unique_keys(s0),
                forall|j: int| 0 <= j < i ==> s0[j].0@ != id@,
            decreases s0.len() - i,
        {
            if self.entries[i].0 == *id {
                let updated = self.entries[i].1.with_profile(profile);
                let key = self.entries[i].0.clone();
                self.entries.remove(i);
                self.entries.push((key, updated));
                proof {
                    lemma_entries_map(s0);
                    assert(s0[i as int].0@ == id@);
                    assert(entries_map(s0)[id@] == s0[i as int].1@);
                    lemma_replace_at(s0, i as int, self.entries@, (key, updated));
                    assert(entries_map(self.entries@) =~= entries_map(s0).insert(
                        id@,
                        SessionView { profile: Some(profile@), ..entries_map(s0)[id@] },
                    ));
                }
                return true;
            }
            i += 1;
        }
        proof {
            lemma_entries_map(s0);
            assert(!entries_map(s0).contains_key(id@)) by {
                if entries_map(s0).contains_key(id@) {
                    let j = choose|j: int| 0 <= j < s0.len() && #[trigger] s0[j].0@ == id@;
                }
            }
        }
        false
    }
}

/// Replacing the entry at `i` (moving the replacement to the back)
/// denotes inserting under its key, when the new pair carries the same
/// key as the old one.
proof fn lemma_replace_at(
    s0: Seq<(String, AuthState)>,
    i: int,
    s1: Seq<(String, AuthState)>,
    p: (String, AuthState),
)
    requires
        unique_keys(s0),
        0 <= i < s0.len(),
        p.0@ == s0[i].0@,
        s1 == s0.remove(i).push(p),
    ensures
        unique_keys(s1),
        forall|k: Seq<char>|
            entries_map(s1).contains_key(k) == entries_map(s0).insert(
                p.0@,
                p.1@,
            ).contains_key(k),
        forall|k: Seq<char>|
            entries_map(s1).contains_key(k) ==> entries_map(s1)[k] == entries_map(s0).insert(
                p.0@,
                p.1@,
            )[k],
{
    s0.remove_ensures(i);
    let rm = s0.remove(i);
    lemma_entries_map(s0);
    assert(s1[s1.len() - 1] == p);
    assert(forall|j: int| 0 <= j < rm.len() ==> #[trigger] s1[j] == rm[j]);
    assert(unique_keys(s1)) by {
        assert forall|a: int, b: int| 0 <= a < b < s1.len() implies s1[a].0@ != s1[b].0@ by {
            let a0 = if a < i {
                a
            } else {
                a + 1
            };
            assert(s1[a] == s0[a0]);
            if b < s1.len() - 1 {
                let b0 = if b < i {
                    b
                } else {
                    b + 1
                };
                assert(s1[b] == s0[b0]);
                assert(s0[a0].0@ != s0[b0].0@);
            } else {
                if a0 < i {
                    assert(s0[a0].0@ != s0[i].0@);
                } else {
                    assert(s0[i].0@ != s0[a0].0@);
                }
            }
        }
    }
    lemma_entries_map(s1);
    assert forall|k: Seq<char>|
        entries_map(s1).contains_key(k) == entries_map(s0).insert(p.0@, p.1@).contains_key(
        k,
    ) by {
        if entries_map(s1).contains_key(k) {
            let a = choose|a: int| 0 <= a < s1.len() && #[trigger] s1[a].0@ == k;
            if a < s1.len() - 1 {
                let a0 = if a < i {
                    a
                } else {
                    a + 1
                };
                assert(s1[a] == s0[a0]);
                assert(s0[a0].0@ == k);
            } else {
                assert(k == p.0@);
            }
        }
        if entries_map(s0).insert(p.0@, p.1@).contains_key(k) {
            if k == p.0@ {
                assert(s1[s1.len() - 1].0@ == k);
            } else {
                let a0 = choose|a0: int| 0 <= a0 < s0.len() && #[trigger] s0[a0].0@ == k;
                let a = if a0 < i {
                    a0
                } else {
                    a0 - 1
                };
                assert(s1[a] == s0[a0]);
                assert(s1[a].0@ == k);
            }
        }
    }
    assert forall|k: Seq<char>| entries_map(s1).contains_key(k) implies entries_map(s1)[k]
        == entries_map(s0).insert(p.0@, p.1@)[k] by {
        if k == p.0@ {
            assert(s1[s1.len() - 1].0@ == k);
            assert(entries_map(s1)[k] == p.1@);
        } else {
            let a = choose|a: int| 0 <= a < s1.len() && #[trigger] s1[a].0@ == k;
            assert(a < s1.len() - 1);
            let a0 = if a < i {
                a
            } else {
                a + 1
            };
            assert(s1[a] == s0[a0]);
            assert(entries_map(s1)[s1[a].0@] == s1[a].1@);
            assert(entries_map(s0)[s0[a0].0@] == s0[a0].1@);
        }
    }
}

/// Removing the entry at `i` denotes removing its key from the map.
proof fn lemma_remove_at(s0: Seq<(String, AuthState)>, i: int, s1: Seq<(String, AuthState)>)
    requires
        unique_keys(s0),
        0 <= i < s0.len(),
        s1 == s0.remove(i),
    ensures
        unique_keys(s1),
        forall|k: Seq<char>|
            entries_map(s1).contains_key(k) == entries_map(s0).remove(
                s0[i].0@,
            ).contains_key(k),
        forall|k: Seq<char>|
            entries_map(s1).contains_key(k) ==> entries_map(s1)[k] == entries_map(s0).remove(
                s0[i].0@,
            )[k],
{
    s0.remove_ensures(i);
    lemma_entries_map(s0);
    assert(unique_keys(s1)) by {
        assert forall|a: int, b: int| 0 <= a < b < s1.len() implies s1[a].0@ != s1[b].0@ by {
            let a0 = if a < i {
                a
            } else {
                a + 1
            };
            let b0 = if b < i {
                b
            } else {
                b + 1
            };
            assert(s1[a] == s0[a0] && s1[b] == s0[b0]);
            assert(s0[a0].0@ != s0[b0].0@);
        }
    }
    lemma_entries_map(s1);
    assert forall|k: Seq<char>|
        entries_map(s1).contains_key(k) == entries_map(s0).remove(s0[i].0@).contains_key(
        k,
    ) by {
        if entries_map(s1).contains_key(k) {
            let a = choose|a: int| 0 <= a < s1.len() && #[trigger] s1[a].0@ == k;
            let a0 = if a < i {
                a
            } else {
                a + 1
            };
            assert(s1[a] == s0[a0]);
            assert(s0[a0].0@ == k);
            if a0 < i {
                assert(s0[a0].0@ != s0[i].0@);
            } else {
                assert(s0[i].0@ != s0[a0].0@);
            }
        }
        if entries_map(s0).remove(s0[i].0@).contains_key(k) {
            let a0 = choose|a0: int| 0 <= a0 < s0.len() && #[trigger] s0[a0].0@ == k;
            let a = if a0 < i {
                a0
            } else {
                a0 - 1
            };
            assert(s1[a] == s0[a0]);
            assert(s1[a].0@ == k);
        }
    }
    assert forall|k: Seq<char>| entries_map(s1).contains_key(k) implies entries_map(s1)[k]
        == entries_map(s0).remove(s0[i].0@)[k] by {
        let a = choose|a: int| 0 <= a < s1.len() && #[trigger] s1[a].0@ == k;
        let a0 = if a < i {
            a
        } else {
            a + 1
        };
        assert(s1[a] == s0[a0]);
        assert(entries_map(s1)[s1[a].0@] == s1[a].1@);
        assert(entries_map(s0)[s0[a0].0@] == s0[a0].1@);
        if a0 < i {
            assert(s0[a0].0@ != s0[i].0@);
        } else {
            assert(s0[i].0@ != s0[a0].0@);
        }
    }
}

} // verus!
