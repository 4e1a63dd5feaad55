//! An ordered key/value store: the contract's persistent maps, iterated in
//! ascending key order.
use vstd::prelude::*;

verus! {

/// Key/value entries kept sorted by strictly increasing key.
#[derive(Debug)]
pub struct OrdMap<V> {
    entries: Vec<(u128, V)>,
}

pub open spec fn sorted_keys<V>(s: Seq<(u128, V)>) -> bool {
    forall|i: int, j: int| 0 <= i < j < s.len() ==> #[trigger] s[i].0 < #[trigger] s[j].0
}

pub open spec fn has_key_at<V>(s: Seq<(u128, V)>, k: u128) -> bool {
    exists|i: int| 0 <= i < s.len() && #[trigger] s[i].0 == k
}

pub open spec fn index_of_key<V>(s: Seq<(u128, V)>, k: u128) -> int {
    choose|i: int| 0 <= i < s.len() && #[trigger] s[i].0 == k
}

pub open spec fn entries_map<V>(s: Seq<(u128, V)>) -> Map<u128, V> {
    Map::new(|k: u128| has_key_at(s, k), |k: u128| s[index_of_key(s, k)].1)
}

proof fn lemma_index_unique<V>(s: Seq<(u128, V)>, i: int, k: u128)
    requires
        sorted_keys(s),
        0 <= i < s.len(),
        s[i].0 == k,
    ensures
        has_key_at(s, k),
        index_of_key(s, k) == i,
{
    assert(has_key_at(s, k));
    let j = index_of_key(s, k);
    if j < i {
        assert(s[j].0 < s[i].0);
    } else if j > i {
        assert(s[i].0 < s[j].0);
    }
}

proof fn lemma_lookup<V>(s: Seq<(u128, V)>, i: int)
    requires
        sorted_keys(s),
        0 <= i < s.len(),
    ensures
        entries_map(s).contains_key(s[i].0),
        entries_map(s)[s[i].0] == s[i].1,
{
    lemma_index_unique(s, i, s[i].0);
}

impl<V> OrdMap<V> {
    #[verifier::type_invariant]
    spec fn inv(self) -> bool {
        sorted_keys(self.entries@)
    }

    pub closed spec fn view(self) -> Map<u128, V> {
        entries_map(self.entries@)
    }

    /// Keys in ascending order.
    pub closed spec fn key_seq(self) -> Seq<u128> {
        self.entries@.map_values(|e: (u128, V)| e.0)
    }

    proof fn lemma_keys(self)
        requires
            sorted_keys(self.entries@),
        ensures
            self.key_seq().len() == self@.dom().len(),
            self@.dom().finite(),
            forall|i: int, j: int| 0 <= i < j < self.key_seq().len() ==> #[trigger] self.key_seq()[i] < #[trigger] self.key_seq()[j],
            forall|k: u128| self@.contains_key(k) <==> self.key_seq().contains(k),
    {
        let s = self.entries@;
        let ks = self.key_seq();
        assert forall|k: u128| self@.contains_key(k) <==> ks.contains(k) by {
            if self@.contains_key(k) {
                let i = index_of_key(s, k);
                assert(ks[i] == k);
            }
            if ks.contains(k) {
                let i = choose|i: int| 0 <= i < ks.len() && ks[i] == k;
                assert(s[i].0 == k);
            }
        }
        assert(ks.no_duplicates()) by {
            assert forall|i: int, j: int| 0 <= i < ks.len() && 0 <= j < ks.len() && i != j implies ks[i] != ks[j] by {
                if i < j { assert(s[i].0 < s[j].0); } else { assert(s[j].0 < s[i].0); }
            }
        }
        assert(self@.dom() =~= ks.to_set());
        ks.unique_seq_to_set();
    }

    pub fn new() -> (m: Self)
        ensures
            m@ == Map::<u128, V>::empty(),
            m.key_seq().len() == 0,
    {
        let m = OrdMap { entries: Vec::new() };
        assert(m@ =~= Map::<u128, V>::empty());
        m
    }

    /// Number of entries; also states that the ascending key list holds
    /// each key of the map exactly once.
    pub fn len(&self) -> (n: usize)
        ensures
            n == self.key_seq().len(),
            n == self@.dom().len(),
            self@.dom().finite(),
            forall|i: int, j: int| 0 <= i < j < self.key_seq().len() ==> #[trigger] self.key_seq()[i] < #[trigger] self.key_seq()[j],
            forall|k: u128| self@.contains_key(k) <==> self.key_seq().contains(k),
    {
        proof {
            use_type_invariant(self);
            self.lemma_keys();
        }
        self.entries.len()
    }

    /// The key at position `i` in ascending order.
    pub fn key_at(&self, i: usize) -> (k: u128)
        requires
            i < self.key_seq().len(),
        ensures
            k == self.key_seq()[i as int],
            self@.contains_key(k),
    {
        proof {
            use_type_invariant(self);
            lemma_lookup(self.entries@, i as int);
        }
        self.entries[i].0
    }

    /// The value at position `i` in ascending key order.
    pub fn value_at(&self, i: usize) -> (v: &V)
        requires
            i < self.key_seq().len(),
        ensures
            self@.contains_key(self.key_seq()[i as int]),
            *v == self@[self.key_seq()[i as int]],
    {
        proof {
            use_type_invariant(self);
            lemma_lookup(self.entries@, i as int);
        }
        &self.entries[i].1
    }

    fn position(&self, k: u128) -> (r: (usize, bool))
        ensures
            r.0 <= self.entries@.len(),
            forall|i: int| 0 <= i < r.0 ==> #[trigger] self.entries@[i].0 < k,
            r.1 ==> r.0 < self.entries@.len() && self.entries@[r.0 as int].0 == k,
            !r.1 ==> forall|i: int| r.0 <= i < self.entries@.len() ==> #[trigger] self.entries@[i].0 > k,
    {
        proof { use_type_invariant(self); }
        let mut i: usize = 0;
        while i < self.entries.len()
            invariant
                i <= self.entries@.len(),
                sorted_keys(self.entries@),
                forall|j: int| 0 <= j < i ==> #[trigger] self.entries@[j].0 < k,
            decreases self.entries@.len() - i,
        {
            let ki = self.entries[i].0;
            if ki == k {
                return (i, true);
            }
            if ki > k {
                proof {
                    assert forall|j: int| i <= j < self.entries@.len() implies #[trigger] self.entries@[j].0 > k by {
                        if j > i { assert(self.entries@[i as int].0 < self.entries@[j].0); }
                    }
                }
                return (i, false);
            }
            i = i + 1;
        }
        (i, false)
    }

    pub fn get(&self, k: u128) -> (r: Option<&V>)
        ensures
            match r {
                Some(v) => self@.contains_key(k) && *v == self@[k],
                None => !self@.contains_key(k),
            },
    {
        proof { use_type_invariant(self); }
        let (p, found) = self.position(k);
        if found {
            proof { lemma_lookup(self.entries@, p as int); }
            Some(&self.entries[p].1)
        } else {
            proof {
                if has_key_at(self.entries@, k) {
                    let j = index_of_key(self.entries@, k);
                    assert(self.entries@[j].0 == k);
                }
            }
            None
        }
    }

    pub fn contains_key(&self, k: u128) -> (b: bool)
        ensures
            b == self@.contains_key(k),
    {
        match self.get(k) {
            Some(_) => true,
            None => false,
        }
    }

    pub fn insert(&mut self, k: u128, v: V)
        ensures
            final(self)@ == old(self)@.insert(k, v),
    {
        proof { use_type_invariant(&*self); }
        let ghost old_s = self.entries@;
        let (p, found) = self.position(k);
        let mut es: Vec<(u128, V)> = Vec::new();
        std::mem::swap(&mut es, &mut self.entries);
        if found {
            es.set(p, (k, v));
        } else {
            es.insert(p, (k, v));
        }
        let ghost new_s = es@;
        proof {
            assert(sorted_keys(new_s)) by {
                assert forall|i: int, j: int| 0 <= i < j < new_s.len() implies #[trigger] new_s[i].0 < #[trigger] new_s[j].0 by {
                    if !found {
                        if j < p { assert(new_s[i] == old_s[i] && new_s[j] == old_s[j]); }
                        else if j == p { assert(new_s[i] == old_s[i]); }
                        else if i < p { assert(new_s[i] == old_s[i] && new_s[j] == old_s[j - 1]); }
                        else if i == p { assert(new_s[j] == old_s[j - 1]); }
                        else { assert(new_s[i] == old_s[i - 1] && new_s[j] == old_s[j - 1]); }
                    }
                }
            }
            let target = old(self)@.insert(k, v);
            assert forall|k2: u128| #[trigger] entries_map(new_s).contains_key(k2) == target.contains_key(k2)
                && (entries_map(new_s).contains_key(k2) ==> entries_map(new_s)[k2] == target[k2]) by {
                if k2 == k {
                    lemma_lookup(new_s, p as int);
                } else {
                    if has_key_at(old_s, k2) {
                        let i = index_of_key(old_s, k2);
                        lemma_lookup(old_s, i);
                        let ni = if !found && i >= p { i + 1 } else { i };
                        assert(new_s[ni] == old_s[i]);
                        lemma_lookup(new_s, ni);
                    }
                    if has_key_at(new_s, k2) {
                        let i = index_of_key(new_s, k2);
                        let oi = if !found && i > p { i - 1 } else { i };
                        if !found && i == p { assert(new_s[i].0 == k); }
                        assert(old_s[oi] == new_s[i]);
                        assert(has_key_at(old_s, k2));
                    }
                }
            }
            assert(entries_map(new_s).dom() =~= target.dom());
            assert(entries_map(new_s) =~= target);
        }
        self.entries = es;
    }

    pub fn remove(&mut self, k: u128) -> (r: Option<V>)
        ensures
            final(self)@ == old(self)@.remove(k),
            match r {
                Some(v) => old(self)@.contains_key(k) && v == old(self)@[k],
                None => !old(self)@.contains_key(k),
            },
    {
        proof { use_type_invariant(&*self); }
        let ghost old_s = self.entries@;
        let (p, found) = self.position(k);
        if found {
            proof { lemma_lookup(old_s, p as int); }
            let mut es: Vec<(u128, V)> = Vec::new();
            std::mem::swap(&mut es, &mut self.entries);
            let e = es.remove(p);
            let ghost new_s = es@;
            proof {
                assert(sorted_keys(new_s)) by {
                    assert forall|i: int, j: int| 0 <= i < j < new_s.len() implies #[trigger] new_s[i].0 < #[trigger] new_s[j].0 by {
                        if j < p { assert(new_s[i] == old_s[i] && new_s[j] == old_s[j]); }
                        else if i < p { assert(new_s[i] == old_s[i] && new_s[j] == old_s[j + 1]); }
                        else { assert(new_s[i] == old_s[i + 1] && new_s[j] == old_s[j + 1]); }
                    }
                }
                let target = old(self)@.remove(k);
                assert forall|k2: u128| #[trigger] entries_map(new_s).contains_key(k2) == target.contains_key(k2)
                    && (entries_map(new_s).contains_key(k2) ==> entries_map(new_s)[k2] == target[k2]) by {
                    if has_key_at(old_s, k2) && k2 != k {
                        let i = index_of_key(old_s, k2);
                        lemma_lookup(old_s, i);
                        assert(i != p);
                        let ni = if i > p { i - 1 } else { i };
                        assert(new_s[ni] == old_s[i]);
                        lemma_lookup(new_s, ni);
                    }
                    if has_key_at(new_s, k2) {
                        let i = index_of_key(new_s, k2);
                        let oi = if i >= p { i + 1 } else { i };
                        assert(old_s[oi] == new_s[i]);
                        lemma_lookup(old_s, oi);
                        assert(oi != p);
                    }
                }
                assert(entries_map(new_s).dom() =~= target.dom());
                assert(entries_map(new_s) =~= target);
            }
            self.entries = es;
            Some(e.1)
        } else {
            proof {
                if has_key_at(old_s, k) {
                    let j = index_of_key(old_s, k);
                    assert(old_s[j].0 == k);
                }
                assert(old(self)@.remove(k) =~= old(self)@);
            }
            None
        }
    }
}

}
