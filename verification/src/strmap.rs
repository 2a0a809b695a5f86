//! A map from `String` keys to values, backed by an association list with
//! unique keys. Every game ledger table and notification table is one of
//! these, so all storage reads and writes of the contract go through the
//! verified operations below.

use vstd::prelude::*;

verus! {

/// The mathematical contents of an association list: later entries shadow
/// earlier ones (the operations below keep keys unique, so nothing is ever
/// actually shadowed).
pub open spec fn alist_view<V>(s: Seq<(String, V)>) -> Map<Seq<char>, V>
    decreases s.len(),
{
    if s.len() == 0 {
        Map::empty()
    } else {
        alist_view(s.drop_last()).insert(s.last().0@, s.last().1)
    }
}

/// No two entries share a key.
pub open spec fn keys_unique<V>(s: Seq<(String, V)>) -> bool {
    forall|i: int, j: int| 0 <= i < j < s.len() ==> s[i].0@ != s[j].0@
}

/// A key is in the view exactly when some entry holds it.
pub proof fn lemma_alist_view_dom<V>(s: Seq<(String, V)>, k: Seq<char>)
    ensures
        alist_view(s).contains_key(k) <==> exists|i: int| 0 <= i < s.len() && s[i].0@ == k,
    decreases s.len(),
{
    if s.len() > 0 {
        lemma_alist_view_dom(s.drop_last(), k);
        if alist_view(s).contains_key(k) {
            if s.last().0@ != k {
                let i = choose|i: int| 0 <= i < s.drop_last().len() && s.drop_last()[i].0@ == k;
                assert(s[i].0@ == k);
            }
        }
        if exists|i: int| 0 <= i < s.len() && s[i].0@ == k {
            let i = choose|i: int| 0 <= i < s.len() && s[i].0@ == k;
            if i < s.len() - 1 {
                assert(s.drop_last()[i].0@ == k);
            }
        }
    }
}

/// With unique keys, the view maps each entry's key to that entry's value.
pub proof fn lemma_alist_view_at<V>(s: Seq<(String, V)>, i: int)
    requires
        keys_unique(s),
        0 <= i < s.len(),
    ensures
        alist_view(s).contains_key(s[i].0@),
        alist_view(s)[s[i].0@] == s[i].1,
    decreases s.len(),
{
    lemma_alist_view_dom(s, s[i].0@);
    if i < s.len() - 1 {
        assert(s.drop_last()[i] == s[i]);
        lemma_alist_view_at(s.drop_last(), i);
        assert(s.last().0@ != s[i].0@);
    }
}

/// Removing the (unique) entry holding key `k` removes `k` from the view.
proof fn lemma_alist_view_remove<V>(s: Seq<(String, V)>, i: int)
    requires
        keys_unique(s),
        0 <= i < s.len(),
    ensures
        alist_view(s.remove(i)) =~= alist_view(s).remove(s[i].0@),
    decreases s.len(),
{
    let k = s[i].0@;
    if i == s.len() - 1 {
        assert(s.remove(i) =~= s.drop_last());
        lemma_alist_view_dom(s.drop_last(), k);
        assert(forall|j: int|
            0 <= j < s.drop_last().len() ==> s.drop_last()[j].0@ != k);
        assert(!alist_view(s.drop_last()).contains_key(k));
    } else {
        let t = s.remove(i);
        assert(t.drop_last() =~= s.drop_last().remove(i));
        assert(t.last() == s.last());
        lemma_alist_view_remove(s.drop_last(), i);
        assert(s.drop_last()[i] == s[i]);
        assert(s.last().0@ != k);
        assert(alist_view(t) =~= alist_view(s).remove(k));
    }
}

/// A map from strings to values. All keys are distinct; the view is a
/// mathematical `Map<Seq<char>, V>`, and `entries` exposes the underlying
/// order of insertion for the paginated queries.
pub struct StrMap<V> {
    pairs: Vec<(String, V)>,
}

impl<V> View for StrMap<V> {
    type V = Map<Seq<char>, V>;

    closed spec fn view(&self) -> Map<Seq<char>, V> {
        alist_view(self.pairs@)
    }
}

impl<V> StrMap<V> {
    #[verifier::type_invariant]
    spec fn inv(self) -> bool {
        keys_unique(self.pairs@)
    }

    /// The entries in insertion order (oldest first).
    pub closed spec fn entries_seq(&self) -> Seq<(String, V)> {
        self.pairs@
    }

    pub fn new() -> (r: Self)
        ensures
            r@ == Map::<Seq<char>, V>::empty(),
            r.entries_seq() == Seq::<(String, V)>::empty(),
    {
        StrMap { pairs: Vec::new() }
    }

    /// Index of the entry holding `k`, if any.
    fn find(&self, k: &String) -> (r: Option<usize>)
        ensures
            match r {
                Some(i) => i < self.pairs@.len() && self.pairs@[i as int].0@ == k@,
                None => forall|j: int| 0 <= j < self.pairs@.len() ==> self.pairs@[j].0@ != k@,
            },
    {
        let n = self.pairs.len();
        for i in 0..n
            invariant
                n == self.pairs@.len(),
                forall|j: int| 0 <= j < i ==> self.pairs@[j].0@ != k@,
        {
            if self.pairs[i].0 == *k {
                return Some(i);
            }
        }
        None
    }

    pub fn contains_key(&self, k: &String) -> (r: bool)
        ensures
            r == self@.contains_key(k@),
    {
        proof {
            lemma_alist_view_dom(self.pairs@, k@);
        }
        self.find(k).is_some()
    }

    pub fn get(&self, k: &String) -> (r: Option<&V>)
        ensures
            match r {
                Some(v) => self@.contains_key(k@) && *v == self@[k@],
                None => !self@.contains_key(k@),
            },
    {
        proof {
            use_type_invariant(self);
            lemma_alist_view_dom(self.pairs@, k@);
        }
        match self.find(k) {
            Some(i) => {
                proof {
                    lemma_alist_view_at(self.pairs@, i as int);
                }
                Some(&self.pairs[i].1)
            },
            None => None,
        }
    }

    pub fn insert(&mut self, k: String, v: V)
        ensures
            final(self)@ == old(self)@.insert(k@, v),
    {
        proof {
            use_type_invariant(&*self);
        }
        let found = self.find(&k);
        let ghost s0 = self.pairs@;
        let mut pairs: Vec<(String, V)> = Vec::new();
        core::mem::swap(&mut self.pairs, &mut pairs);
        match found {
            Some(i) => {
                proof {
                    lemma_alist_view_remove(s0, i as int);
                }
                pairs.remove(i);
            },
            None => {
                proof {
                    lemma_alist_view_dom(s0, k@);
                    assert(alist_view(s0) =~= alist_view(s0).remove(k@));
                }
            },
        }
        let ghost s1 = pairs@;
        proof {
            assert(alist_view(s1) == alist_view(s0).remove(k@));
            assert(forall|j: int| 0 <= j < s1.len() ==> s1[j].0@ != k@) by {
                lemma_alist_view_dom(s1, k@);
                assert(!alist_view(s1).contains_key(k@));
                assert forall|j: int| 0 <= j < s1.len() implies s1[j].0@ != k@ by {
                    lemma_alist_view_at_weak(s1, j);
                }
            }
        }
        pairs.push((k, v));
        proof {
            assert(pairs@.drop_last() =~= s1);
            assert(alist_view(pairs@) == alist_view(s1).insert(k@, v));
            assert(alist_view(pairs@) =~= alist_view(s0).insert(k@, v));
            assert(keys_unique(pairs@));
        }
        core::mem::swap(&mut self.pairs, &mut pairs);
    }

    pub fn remove(&mut self, k: &String)
        ensures
            final(self)@ == old(self)@.remove(k@),
    {
        proof {
            use_type_invariant(&*self);
        }
        let found = self.find(k);
        let ghost s0 = self.pairs@;
        let mut pairs: Vec<(String, V)> = Vec::new();
        core::mem::swap(&mut self.pairs, &mut pairs);
        match found {
            Some(i) => {
                proof {
                    lemma_alist_view_remove(s0, i as int);
                }
                pairs.remove(i);
            },
            None => {
                proof {
                    lemma_alist_view_dom(s0, k@);
                    assert(alist_view(s0) =~= alist_view(s0).remove(k@));
                }
            },
        }
        core::mem::swap(&mut self.pairs, &mut pairs);
    }

    /// Remove and return the value under `k`, if any.
    pub fn take(&mut self, k: &String) -> (r: Option<V>)
        ensures
            match r {
                Some(v) => old(self)@.contains_key(k@) && v == old(self)@[k@] && final(self)@
                    == old(self)@.remove(k@),
                None => !old(self)@.contains_key(k@) && final(self)@ == old(self)@,
            },
    {
        proof {
            use_type_invariant(&*self);
        }
        let found = self.find(k);
        let ghost s0 = self.pairs@;
        let mut pairs: Vec<(String, V)> = Vec::new();
        core::mem::swap(&mut self.pairs, &mut pairs);
        let r = match found {
            Some(i) => {
                proof {
                    lemma_alist_view_remove(s0, i as int);
                    lemma_alist_view_at(s0, i as int);
                }
                let (_, v) = pairs.remove(i);
                Some(v)
            },
            None => {
                proof {
                    lemma_alist_view_dom(s0, k@);
                }
                None
            },
        };
        core::mem::swap(&mut self.pairs, &mut pairs);
        r
    }

    /// The entries, in insertion order, by shared reference. The order never
    /// holds a key twice, and agrees with the view.
    pub fn entries(&self) -> (r: &Vec<(String, V)>)
        ensures
            r@ == self.entries_seq(),
            keys_unique(self.entries_seq()),
            forall|i: int|
                0 <= i < self.entries_seq().len() ==> {
                    &&& self@.contains_key(#[trigger] self.entries_seq()[i].0@)
                    &&& self@[self.entries_seq()[i].0@] == self.entries_seq()[i].1
                },
            forall|k: Seq<char>|
                self@.contains_key(k) ==> exists|i: int|
                    0 <= i < self.entries_seq().len() && #[trigger] self.entries_seq()[i].0@ == k,
    {
        proof {
            use_type_invariant(self);
            assert forall|i: int| 0 <= i < self.entries_seq().len() implies {
                &&& self@.contains_key(#[trigger] self.entries_seq()[i].0@)
                &&& self@[self.entries_seq()[i].0@] == self.entries_seq()[i].1
            } by {
                lemma_alist_view_at(self.pairs@, i);
            }
            assert forall|k: Seq<char>| self@.contains_key(k) implies exists|i: int|
                0 <= i < self.entries_seq().len() && #[trigger] self.entries_seq()[i].0@ == k by {
                lemma_alist_view_dom(self.pairs@, k);
                let i = choose|i: int| 0 <= i < self.pairs@.len() && self.pairs@[i].0@ == k;
                assert(self.entries_seq()[i].0@ == k);
            }
        }
        &self.pairs
    }

    pub fn len(&self) -> (n: usize)
        ensures
            n == self.entries_seq().len(),
    {
        self.pairs.len()
    }
}

/// Every entry's key is a key of the view (used contrapositively in
/// `insert`).
proof fn lemma_alist_view_at_weak<V>(s: Seq<(String, V)>, i: int)
    requires
        0 <= i < s.len(),
    ensures
        alist_view(s).contains_key(s[i].0@),
{
    lemma_alist_view_dom(s, s[i].0@);
}

} // verus!
