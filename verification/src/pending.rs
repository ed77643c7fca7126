//! The whole pending state: one staged change per output name.
//!
//! Entries keep the order in which output names were first staged, and no
//! name occurs twice.

use vstd::prelude::*;
use crate::model::{PendingChange, PendingChangeView, empty_change};

verus! {

broadcast use vstd::string::group_string_axioms;

/// The entries of a pending map: output name and staged change.
pub type PendingSeq = Seq<(Seq<char>, PendingChangeView)>;

/// No output name occurs twice.
pub open spec fn keys_unique(s: PendingSeq) -> bool {
    forall|i: int, j: int| 0 <= i < j < s.len() ==> #[trigger] s[i].0 != #[trigger] s[j].0
}

/// Index of the entry for `k`, or `s.len()` when there is none.
pub open spec fn key_index_from(s: PendingSeq, k: Seq<char>, i: int) -> int
    decreases s.len() - i,
{
    if 0 <= i < s.len() && s[i].0 != k {
        key_index_from(s, k, i + 1)
    } else {
        i
    }
}

pub open spec fn key_index(s: PendingSeq, k: Seq<char>) -> int {
    key_index_from(s, k, 0)
}

/// The change staged for `k`, if any.
pub open spec fn lookup(s: PendingSeq, k: Seq<char>) -> Option<PendingChangeView> {
    let i = key_index(s, k);
    if i < s.len() {
        Some(s[i].1)
    } else {
        None
    }
}

/// `s` with the change for `k` set to `v`: replaced in place when `k` has
/// an entry, appended otherwise.
pub open spec fn insert_spec(s: PendingSeq, k: Seq<char>, v: PendingChangeView) -> PendingSeq {
    let i = key_index(s, k);
    if i < s.len() {
        s.update(i, (k, v))
    } else {
        s.push((k, v))
    }
}

pub proof fn lemma_key_index_from(s: PendingSeq, k: Seq<char>, i: int)
    requires
        0 <= i <= s.len(),
    ensures
        i <= key_index_from(s, k, i) <= s.len(),
        key_index_from(s, k, i) < s.len() ==> s[key_index_from(s, k, i)].0 == k,
        forall|j: int| i <= j < key_index_from(s, k, i) ==> #[trigger] s[j].0 != k,
    decreases s.len() - i,
{
    if i < s.len() && s[i].0 != k {
        lemma_key_index_from(s, k, i + 1);
    }
}

pub proof fn lemma_key_index(s: PendingSeq, k: Seq<char>)
    ensures
        0 <= key_index(s, k) <= s.len(),
        key_index(s, k) < s.len() ==> s[key_index(s, k)].0 == k,
        forall|j: int| 0 <= j < key_index(s, k) ==> #[trigger] s[j].0 != k,
{
    lemma_key_index_from(s, k, 0);
}

/// A staged change for `k` is found again by `lookup`, other names keep
/// theirs, and no name comes to occur twice.
pub proof fn law_insert_lookup(s: PendingSeq, k: Seq<char>, v: PendingChangeView, k2: Seq<char>)
    requires
        keys_unique(s),
    ensures
        lookup(insert_spec(s, k, v), k) == Some(v),
        k2 != k ==> lookup(insert_spec(s, k, v), k2) == lookup(s, k2),
        keys_unique(insert_spec(s, k, v)),
{
    let t = insert_spec(s, k, v);
    lemma_key_index(s, k);
    lemma_key_index(s, k2);
    lemma_key_index(t, k);
    lemma_key_index(t, k2);
    let i = key_index(s, k);
    assert(keys_unique(t)) by {
        assert forall|a: int, b: int| 0 <= a < b < t.len() implies #[trigger] t[a].0
            != #[trigger] t[b].0 by {
            if i < s.len() {
                if a == i {
                    assert(s[b].0 != s[i].0);
                } else if b == i {
                    assert(s[a].0 != s[i].0);
                } else {
                    assert(s[a].0 != s[b].0);
                }
            } else {
                if b == s.len() {
                    assert(s[a].0 != k);
                } else {
                    assert(s[a].0 != s[b].0);
                }
            }
        }
    }
    lemma_key_index(t, k);
    assert(key_index(t, k) == (if i < s.len() { i } else { s.len() as int })) by {
        let ti = key_index(t, k);
        if i < s.len() {
            if ti < i {
                assert(t[ti].0 == s[ti].0);
            }
            assert(t[i].0 == k);
        } else {
            if ti < s.len() {
                assert(t[ti].0 == s[ti].0);
            }
            assert(t[s.len() as int].0 == k);
        }
    }
    if k2 != k {
        let j2 = key_index(s, k2);
        let tj = key_index(t, k2);
        if j2 < s.len() {
            assert(t[j2].0 == k2);
            if tj < j2 {
                assert(t[tj].0 == s[tj].0 || tj == i);
            }
            assert(tj == j2);
        } else {
            if tj < t.len() {
                assert(t[tj].0 == k2);
                if tj < s.len() {
                    assert(t[tj].0 == s[tj].0 || tj == i);
                }
            }
            assert(tj >= t.len());
        }
    }
}

/// Where `insert_spec` puts the entry for `k`.
pub proof fn lemma_insert_index(s: PendingSeq, k: Seq<char>, v: PendingChangeView)
    requires
        keys_unique(s),
    ensures
        key_index(insert_spec(s, k, v), k) == (if key_index(s, k) < s.len() {
            key_index(s, k)
        } else {
            s.len() as int
        }),
{
    let t = insert_spec(s, k, v);
    lemma_key_index(s, k);
    lemma_key_index(t, k);
    let i = key_index(s, k);
    let ti = key_index(t, k);
    if i < s.len() {
        if ti < i {
            assert(t[ti].0 == s[ti].0);
        }
        assert(t[i].0 == k);
    } else {
        if ti < s.len() {
            assert(t[ti].0 == s[ti].0);
        }
        assert(t[s.len() as int].0 == k);
    }
}

/// Staging for the same name twice leaves only the second change, in the
/// place the first one took.
pub proof fn law_insert_twice(s: PendingSeq, k: Seq<char>, v1: PendingChangeView, v2: PendingChangeView)
    requires
        keys_unique(s),
    ensures
        insert_spec(insert_spec(s, k, v1), k, v2) == insert_spec(s, k, v2),
{
    lemma_key_index(s, k);
    lemma_insert_index(s, k, v1);
    let t = insert_spec(s, k, v1);
    lemma_key_index(t, k);
    assert(insert_spec(t, k, v2) =~= insert_spec(s, k, v2));
}

/// The staged changes, in the order output names were first staged.
pub struct PendingMap {
    entries: Vec<(String, PendingChange)>,
}

impl View for PendingMap {
    type V = PendingSeq;

    closed spec fn view(&self) -> PendingSeq {
        self.entries@.map_values(|e: (String, PendingChange)| (e.0@, e.1@))
    }
}

impl PendingMap {
    #[verifier::type_invariant]
    closed spec fn wf(self) -> bool {
        keys_unique(self@)
    }

    pub fn new() -> (m: Self)
        ensures
            m@ == Seq::<(Seq<char>, PendingChangeView)>::empty(),
    {
        let m = PendingMap { entries: Vec::new() };
        assert(m@ =~= Seq::<(Seq<char>, PendingChangeView)>::empty());
        m
    }

    /// No output name occurs twice.
    pub fn keys_are_unique(&self)
        ensures
            keys_unique(self@),
    {
        proof {
            use_type_invariant(self);
        }
    }

    pub fn len(&self) -> (n: usize)
        ensures
            n == self@.len(),
    {
        self.entries.len()
    }

    pub fn is_empty(&self) -> (b: bool)
        ensures
            b == (self@.len() == 0),
    {
        self.entries.len() == 0
    }

    /// Drops every staged change.
    pub fn clear(&mut self)
        ensures
            final(self)@ == Seq::<(Seq<char>, PendingChangeView)>::empty(),
    {
        self.entries = Vec::new();
        assert(self@ =~= Seq::<(Seq<char>, PendingChangeView)>::empty());
    }

    /// The `i`-th entry.
    pub fn entry_at(&self, i: usize) -> (r: (&String, &PendingChange))
        requires
            i < self@.len(),
        ensures
            (r.0@, r.1@) == self@[i as int],
    {
        let e = &self.entries[i];
        (&e.0, &e.1)
    }

    fn find(&self, name: &String) -> (i: usize)
        ensures
            i == key_index(self@, name@),
    {
        let mut i: usize = 0;
        proof {
            lemma_key_index(self@, name@);
        }
        while i < self.entries.len()
            invariant
                i <= self.entries.len(),
                self@.len() == self.entries.len(),
                forall|j: int| 0 <= j < i ==> #[trigger] self@[j].0 != name@,
                key_index(self@, name@) >= i,
            decreases self.entries.len() - i,
        {
            proof {
                lemma_key_index(self@, name@);
            }
            assert(self@[i as int].0 == self.entries@[i as int].0@);
            if self.entries[i].0 == *name {
                return i;
            }
            i += 1;
        }
        proof {
            lemma_key_index(self@, name@);
        }
        i
    }

    /// The change staged for `name`, if any.
    pub fn get(&self, name: &str) -> (r: Option<&PendingChange>)
        ensures
            match r {
                Some(c) => lookup(self@, name@) == Some(c@),
                None => lookup(self@, name@) is None,
            },
    {
        let key = String::from_str(name);
        let i = self.find(&key);
        if i < self.entries.len() {
            Some(&self.entries[i].1)
        } else {
            None
        }
    }

    /// Whether a change is staged for `name`.
    pub fn contains_key(&self, name: &str) -> (b: bool)
        ensures
            b == (lookup(self@, name@) is Some),
    {
        self.get(name).is_some()
    }

    /// A copy of the change staged for `name`, or an empty change.
    pub fn get_or_default(&self, name: &str) -> (c: PendingChange)
        ensures
            c@ == match lookup(self@, name@) {
                Some(v) => v,
                None => empty_change(),
            },
    {
        match self.get(name) {
            Some(c) => c.clone(),
            None => PendingChange::default(),
        }
    }

    /// Stages `change` for `name`, replacing any earlier change for it.
    pub fn insert(&mut self, name: String, change: PendingChange)
        ensures
            final(self)@ == insert_spec(old(self)@, name@, change@),
    {
        proof {
            use_type_invariant(&*self);
            law_insert_lookup(self@, name@, change@, name@);
        }
        let i = self.find(&name);
        let ghost old_view = self@;
        let mut entries: Vec<(String, PendingChange)> = Vec::new();
        std::mem::swap(&mut entries, &mut self.entries);
        if i < entries.len() {
            entries.set(i, (name, change));
        } else {
            entries.push((name, change));
        }
        proof {
            let nv = entries@.map_values(|e: (String, PendingChange)| (e.0@, e.1@));
            assert(nv =~= insert_spec(old_view, name@, change@));
        }
        self.entries = entries;
    }
}

} // verus!
