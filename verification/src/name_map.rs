use vstd::prelude::*;

use crate::text::{lemma_seq_less_irreflexive, lemma_seq_less_total, lemma_seq_less_transitive, seq_less, str_equal, str_less};

verus! {

/// Keys in strictly increasing order: no key occurs twice.
pub open spec fn keys_increasing(ks: Seq<Seq<char>>) -> bool {
    forall|i: int, j: int| 0 <= i < j < ks.len() ==> seq_less(#[trigger] ks[i], #[trigger] ks[j])
}

/// `ks` lists the keys of `m`, each once, in increasing order.
pub open spec fn enumerates_keys<V>(ks: Seq<Seq<char>>, m: Map<Seq<char>, V>) -> bool {
    &&& keys_increasing(ks)
    &&& forall|k: Seq<char>| #[trigger] m.contains_key(k) <==> ks.contains(k)
}

/// The value stored with the last pair whose key is `k`.
pub open spec fn pairs_lookup<V>(ps: Seq<(Seq<char>, V)>, k: Seq<char>) -> V
    decreases ps.len(),
{
    if ps.len() == 0 {
        arbitrary()
    } else if ps.last().0 == k {
        ps.last().1
    } else {
        pairs_lookup(ps.drop_last(), k)
    }
}

/// The map that a list of (key, value) pairs describes.
pub open spec fn pairs_map<V>(ps: Seq<(Seq<char>, V)>) -> Map<Seq<char>, V> {
    Map::new(
        |k: Seq<char>| exists|i: int| 0 <= i < ps.len() && (#[trigger] ps[i]).0 == k,
        |k: Seq<char>| pairs_lookup(ps, k),
    )
}

pub open spec fn pair_keys<V>(ps: Seq<(Seq<char>, V)>) -> Seq<Seq<char>> {
    ps.map_values(|e: (Seq<char>, V)| e.0)
}

/// In a list with increasing keys, each key is found at exactly one place.
proof fn lemma_increasing_unique<V>(ps: Seq<(Seq<char>, V)>, i: int, j: int)
    requires
        keys_increasing(pair_keys(ps)),
        0 <= i < ps.len(),
        0 <= j < ps.len(),
        ps[i].0 == ps[j].0,
    ensures
        i == j,
{
    if i < j {
        assert(seq_less(pair_keys(ps)[i], pair_keys(ps)[j]));
        lemma_seq_less_irreflexive(ps[i].0);
    } else if j < i {
        assert(seq_less(pair_keys(ps)[j], pair_keys(ps)[i]));
        lemma_seq_less_irreflexive(ps[i].0);
    }
}

/// Looking a present key up finds the value stored beside it.
proof fn lemma_pairs_map_lookup<V>(ps: Seq<(Seq<char>, V)>, i: int)
    requires
        keys_increasing(pair_keys(ps)),
        0 <= i < ps.len(),
    ensures
        pairs_map(ps).contains_key(ps[i].0),
        pairs_map(ps)[ps[i].0] == ps[i].1,
{
    let k = ps[i].0;
    assert(0 <= i < ps.len() && ps[i].0 == k);
    lemma_pairs_lookup(ps, i);
}

proof fn lemma_pairs_lookup<V>(ps: Seq<(Seq<char>, V)>, i: int)
    requires
        keys_increasing(pair_keys(ps)),
        0 <= i < ps.len(),
    ensures
        pairs_lookup(ps, ps[i].0) == ps[i].1,
    decreases ps.len(),
{
    if i < ps.len() - 1 {
        let front = ps.drop_last();
        if ps.last().0 == ps[i].0 {
            lemma_increasing_unique(ps, i, ps.len() - 1);
        }
        assert(pair_keys(front) =~= pair_keys(ps).drop_last());
        assert(front[i] == ps[i]);
        lemma_pairs_lookup(front, i);
    }
}

proof fn lemma_pairs_map_dom<V>(ps: Seq<(Seq<char>, V)>)
    ensures
        forall|k: Seq<char>| #[trigger] pairs_map(ps).contains_key(k) <==> pair_keys(ps).contains(k),
{
    assert forall|k: Seq<char>| #[trigger] pairs_map(ps).contains_key(k) <==> pair_keys(ps).contains(k) by {
        if pairs_map(ps).contains_key(k) {
            let i = choose|i: int| 0 <= i < ps.len() && (#[trigger] ps[i]).0 == k;
            assert(pair_keys(ps)[i] == k);
        }
        if pair_keys(ps).contains(k) {
            let i = choose|i: int| 0 <= i < pair_keys(ps).len() && pair_keys(ps)[i] == k;
            assert(ps[i].0 == k);
        }
    }
}

/// Adding one more pair with a new, larger key extends the map by that pair.
proof fn lemma_pairs_map_push<V>(ps: Seq<(Seq<char>, V)>)
    requires
        keys_increasing(pair_keys(ps)),
        ps.len() > 0,
    ensures
        pairs_map(ps) == pairs_map(ps.drop_last()).insert(ps.last().0, ps.last().1),
{
    let front = ps.drop_last();
    assert(pair_keys(front) =~= pair_keys(ps).drop_last());
    let lhs = pairs_map(ps);
    let rhs = pairs_map(front).insert(ps.last().0, ps.last().1);
    assert forall|k: Seq<char>| lhs.contains_key(k) <==> rhs.contains_key(k) by {
        if lhs.contains_key(k) && k != ps.last().0 {
            let i = choose|i: int| 0 <= i < ps.len() && (#[trigger] ps[i]).0 == k;
            assert(front[i].0 == k);
        }
        if rhs.contains_key(k) && k != ps.last().0 {
            let i = choose|i: int| 0 <= i < front.len() && (#[trigger] front[i]).0 == k;
            assert(ps[i].0 == k);
        }
        if k == ps.last().0 {
            assert(ps[ps.len() - 1].0 == k);
        }
    }
    assert forall|k: Seq<char>| lhs.contains_key(k) implies lhs[k] == rhs[k] by {
        let i = choose|i: int| 0 <= i < ps.len() && (#[trigger] ps[i]).0 == k;
        lemma_pairs_map_lookup(ps, i);
        if i < ps.len() - 1 {
            assert(front[i] == ps[i]);
            lemma_pairs_map_lookup(front, i);
            if k == ps.last().0 {
                lemma_increasing_unique(ps, i, ps.len() - 1);
            }
        }
    }
    assert(lhs =~= rhs);
}

/// Placing a pair at the spot where its key belongs keeps the keys increasing
/// and stores the pair in the map.
proof fn lemma_insert_keeps_order<V>(ps: Seq<(Seq<char>, V)>, p: int, pair: (Seq<char>, V), replacing: bool)
    requires
        keys_increasing(pair_keys(ps)),
        0 <= p <= ps.len(),
        forall|q: int| 0 <= q < p ==> seq_less(#[trigger] ps[q].0, pair.0),
        p < ps.len() ==> !seq_less(ps[p].0, pair.0),
        replacing <==> (p < ps.len() && ps[p].0 == pair.0),
    ensures
        keys_increasing(pair_keys(if replacing { ps.update(p, pair) } else { ps.insert(p, pair) })),
        pairs_map(if replacing { ps.update(p, pair) } else { ps.insert(p, pair) }) == pairs_map(
            ps,
        ).insert(pair.0, pair.1),
        !replacing ==> !pairs_map(ps).contains_key(pair.0),
{
    let qs = if replacing { ps.update(p, pair) } else { ps.insert(p, pair) };
    let ks = pair_keys(ps);
    let qk = pair_keys(qs);
    assert forall|q: int| p <= q < ps.len() && ps[q].0 != pair.0 implies seq_less(pair.0, #[trigger] ps[q].0) by {
        lemma_seq_less_total(ps[p].0, pair.0);
        if q > p {
            assert(seq_less(ks[p], ks[q]));
            if ps[p].0 != pair.0 {
                lemma_seq_less_transitive(pair.0, ps[p].0, ps[q].0);
            }
        }
    }
    assert forall|a: int, b: int| 0 <= a < b < qk.len() implies seq_less(#[trigger] qk[a], #[trigger] qk[b]) by {
        assert(qk[a] == qs[a].0);
        assert(qk[b] == qs[b].0);
        if replacing {
            if a != p && b != p {
                assert(seq_less(ks[a], ks[b]));
            } else if a == p {
                assert(seq_less(ks[a], ks[b]));
            }
        } else {
            if b < p {
                assert(seq_less(ks[a], ks[b]));
            } else if b == p {
            } else if a < p {
                assert(seq_less(ks[a], ks[b - 1]));
            } else if a == p {
                assert(qs[b] == ps[b - 1]);
                if ps[b - 1].0 == pair.0 {
                    if b - 1 > p {
                        assert(seq_less(ks[p], ks[b - 1]));
                        lemma_seq_less_total(ps[p].0, pair.0);
                        lemma_seq_less_transitive(ps[p].0, pair.0, ps[p].0);
                        lemma_seq_less_irreflexive(ps[p].0);
                    }
                }
            } else {
                assert(seq_less(ks[a - 1], ks[b - 1]));
            }
        }
    }
    if !replacing && pairs_map(ps).contains_key(pair.0) {
        let j = choose|j: int| 0 <= j < ps.len() && (#[trigger] ps[j]).0 == pair.0;
        if j < p {
            lemma_seq_less_irreflexive(pair.0);
        } else if j > p {
            lemma_seq_less_total(ps[p].0, pair.0);
            assert(seq_less(ks[p], ks[j]));
            lemma_seq_less_transitive(pair.0, ps[p].0, pair.0);
            lemma_seq_less_irreflexive(pair.0);
        }
    }
    let lhs = pairs_map(qs);
    let rhs = pairs_map(ps).insert(pair.0, pair.1);
    let pp = p;
    assert(qs[pp] == pair);
    assert forall|k: Seq<char>| lhs.contains_key(k) <==> rhs.contains_key(k) by {
        if lhs.contains_key(k) && k != pair.0 {
            let i = choose|i: int| 0 <= i < qs.len() && (#[trigger] qs[i]).0 == k;
            if replacing {
                assert(ps[i].0 == k);
            } else if i < p {
                assert(ps[i].0 == k);
            } else {
                assert(ps[i - 1].0 == k);
            }
        }
        if rhs.contains_key(k) && k != pair.0 {
            let i = choose|i: int| 0 <= i < ps.len() && (#[trigger] ps[i]).0 == k;
            if replacing || i < p {
                assert(qs[i].0 == k);
            } else {
                assert(qs[i + 1].0 == k);
            }
        }
        if k == pair.0 {
            assert(qs[pp].0 == k);
        }
    }
    assert forall|k: Seq<char>| lhs.contains_key(k) implies lhs[k] == rhs[k] by {
        if k == pair.0 {
            lemma_pairs_lookup(qs, pp);
        } else {
            let i = choose|i: int| 0 <= i < qs.len() && (#[trigger] qs[i]).0 == k;
            lemma_pairs_lookup(qs, i);
            if replacing || i < p {
                assert(ps[i] == qs[i]);
                lemma_pairs_lookup(ps, i);
            } else {
                assert(ps[i - 1] == qs[i]);
                lemma_pairs_lookup(ps, i - 1);
            }
        }
    }
    assert(lhs =~= rhs);
}

/// A map from names to values that keeps its names in increasing order,
/// so that walking it visits the names sorted, each once.
pub struct NameMap<V> {
    entries: Vec<(String, V)>,
}

impl<V> View for NameMap<V> {
    type V = Map<Seq<char>, V>;

    closed spec fn view(&self) -> Map<Seq<char>, V> {
        pairs_map(self.pairs())
    }
}

impl<V> NameMap<V> {
    closed spec fn pairs(self) -> Seq<(Seq<char>, V)> {
        self.entries@.map_values(|e: (String, V)| (e.0@, e.1))
    }

    /// The names of the map in the order in which it is walked.
    pub closed spec fn key_list(self) -> Seq<Seq<char>> {
        pair_keys(self.pairs())
    }

    #[verifier::type_invariant]
    closed spec fn sorted(self) -> bool {
        keys_increasing(self.key_list())
    }

    proof fn lemma_view_facts(self)
        requires
            self.sorted(),
        ensures
            enumerates_keys(self.key_list(), self@),
            self.key_list().len() == self.entries@.len(),
            forall|i: int|
                0 <= i < self.entries@.len() ==> self@.contains_key(#[trigger] self.entries@[i].0@)
                    && self@[self.entries@[i].0@] == self.entries@[i].1 && self.key_list()[i]
                    == self.entries@[i].0@,
    {
        lemma_pairs_map_dom(self.pairs());
        assert forall|i: int| 0 <= i < self.entries@.len() implies self@.contains_key(
            #[trigger] self.entries@[i].0@,
        ) && self@[self.entries@[i].0@] == self.entries@[i].1 && self.key_list()[i]
            == self.entries@[i].0@ by {
            lemma_pairs_map_lookup(self.pairs(), i);
        }
    }

    /// An empty map.
    pub fn new() -> (m: Self)
        ensures
            m@ == Map::<Seq<char>, V>::empty(),
            m.key_list() == Seq::<Seq<char>>::empty(),
    {
        let m = NameMap { entries: Vec::new() };
        assert(m.pairs() =~= Seq::<(Seq<char>, V)>::empty());
        assert(m@ =~= Map::<Seq<char>, V>::empty());
        assert(m.key_list() =~= Seq::<Seq<char>>::empty());
        m
    }

    /// The number of names in the map.
    pub fn len(&self) -> (n: usize)
        ensures
            n == self.key_list().len(),
            enumerates_keys(self.key_list(), self@),
    {
        proof {
            use_type_invariant(self);
            self.lemma_view_facts();
        }
        self.entries.len()
    }

    /// The name at place `i` of the walk.
    pub fn key_at(&self, i: usize) -> (k: &String)
        requires
            i < self.key_list().len(),
        ensures
            k@ == self.key_list()[i as int],
            self@.contains_key(k@),
    {
        proof {
            use_type_invariant(self);
            self.lemma_view_facts();
        }
        &self.entries[i].0
    }

    /// The value stored under the name at place `i` of the walk.
    pub fn value_at(&self, i: usize) -> (v: &V)
        requires
            i < self.key_list().len(),
        ensures
            *v == self@[self.key_list()[i as int]],
    {
        proof {
            use_type_invariant(self);
            self.lemma_view_facts();
        }
        &self.entries[i].1
    }

    /// The names, in increasing order.
    pub fn keys(&self) -> (ks: Vec<String>)
        ensures
            ks@.map_values(|s: String| s@) == self.key_list(),
            enumerates_keys(self.key_list(), self@),
    {
        proof {
            use_type_invariant(self);
            self.lemma_view_facts();
        }
        let mut ks: Vec<String> = Vec::new();
        let mut i: usize = 0;
        while i < self.entries.len()
            invariant
                i <= self.entries@.len(),
                self.key_list().len() == self.entries@.len(),
                forall|j: int| 0 <= j < self.entries@.len() ==> self.key_list()[j] == (#[trigger] self.entries@[j]).0@,
                ks@.map_values(|s: String| s@) == self.key_list().take(i as int),
            decreases self.entries@.len() - i,
        {
            let ghost before = ks@.map_values(|s: String| s@);
            ks.push(self.entries[i].0.clone());
            assert(ks@.map_values(|s: String| s@) =~= before.push(self.key_list()[i as int]));
            assert(self.key_list().take(i + 1) =~= self.key_list().take(i as int).push(
                self.key_list()[i as int],
            ));
            i = i + 1;
        }
        assert(self.key_list().take(i as int) =~= self.key_list());
        ks
    }

    /// The place of `key` in the walk, if it is there.
    fn find(&self, key: &str) -> (res: Option<usize>)
        ensures
            match res {
                Some(i) => i < self.key_list().len() && self.key_list()[i as int] == key@,
                None => !self@.contains_key(key@),
            },
    {
        proof {
            use_type_invariant(self);
            self.lemma_view_facts();
        }
        let mut i: usize = 0;
        while i < self.entries.len()
            invariant
                i <= self.entries@.len(),
                self.key_list().len() == self.entries@.len(),
                forall|j: int| 0 <= j < self.entries@.len() ==> self.key_list()[j] == (#[trigger] self.entries@[j]).0@,
                forall|j: int| 0 <= j < i ==> self.key_list()[j] != key@,
            decreases self.entries@.len() - i,
        {
            if str_equal(self.entries[i].0.as_str(), key) {
                return Some(i);
            }
            i = i + 1;
        }
        proof {
            if self@.contains_key(key@) {
                let j = choose|j: int| 0 <= j < self.key_list().len() && self.key_list()[j] == key@;
                assert(self.key_list()[j] != key@);
            }
        }
        None
    }

    /// Whether `key` is one of the names.
    pub fn contains_key(&self, key: &str) -> (res: bool)
        ensures
            res == self@.contains_key(key@),
    {
        proof {
            use_type_invariant(self);
            self.lemma_view_facts();
        }
        match self.find(key) {
            Some(_) => true,
            None => false,
        }
    }

    /// The value stored under `key`, if there is one.
    pub fn get(&self, key: &str) -> (res: Option<&V>)
        ensures
            match res {
                Some(v) => self@.contains_key(key@) && *v == self@[key@],
                None => !self@.contains_key(key@),
            },
    {
        proof {
            use_type_invariant(self);
            self.lemma_view_facts();
        }
        match self.find(key) {
            Some(i) => Some(&self.entries[i].1),
            None => None,
        }
    }

    /// Stores `value` under `key`, handing back the value that was there before.
    pub fn insert(&mut self, key: String, value: V) -> (previous: Option<V>)
        ensures
            final(self)@ == old(self)@.insert(key@, value),
            enumerates_keys(final(self).key_list(), final(self)@),
            match previous {
                Some(v) => old(self)@.contains_key(key@) && v == old(self)@[key@],
                None => !old(self)@.contains_key(key@),
            },
    {
        proof {
            use_type_invariant(&*self);
            self.lemma_view_facts();
        }
        let ghost old_pairs = self.pairs();
        let ghost old_map = self@;
        let mut entries: Vec<(String, V)> = Vec::new();
        std::mem::swap(&mut entries, &mut self.entries);
        assert(entries@.map_values(|e: (String, V)| (e.0@, e.1)) == old_pairs);
        let mut p: usize = 0;
        while p < entries.len() && str_less(entries[p].0.as_str(), key.as_str())
            invariant
                p <= entries@.len(),
                entries@.map_values(|e: (String, V)| (e.0@, e.1)) == old_pairs,
                forall|q: int| 0 <= q < p ==> seq_less(#[trigger] old_pairs[q].0, key@),
            decreases entries@.len() - p,
        {
            p = p + 1;
        }
        let ghost new_pair = (key@, value);
        let stopped_early = p < entries.len();
        proof {
            if stopped_early {
                assert(!seq_less(old_pairs[p as int].0, key@));
            }
        }
        let replacing = stopped_early && str_equal(entries[p].0.as_str(), key.as_str());
        let previous;
        let ghost new_pairs;
        if replacing {
            let old_entry = entries.remove(p);
            entries.insert(p, (key, value));
            previous = Some(old_entry.1);
            proof {
                new_pairs = old_pairs.update(p as int, new_pair);
                assert(entries@.map_values(|e: (String, V)| (e.0@, e.1)) =~= new_pairs);
                lemma_pairs_lookup(old_pairs, p as int);
            }
        } else {
            entries.insert(p, (key, value));
            previous = None;
            proof {
                new_pairs = old_pairs.insert(p as int, new_pair);
                assert(entries@.map_values(|e: (String, V)| (e.0@, e.1)) =~= new_pairs);
            }
        }
        proof {
            lemma_insert_keeps_order(old_pairs, p as int, new_pair, replacing);
            lemma_pairs_map_dom(new_pairs);
        }
        self.entries = entries;
        proof {
            assert(self.pairs() == new_pairs);
        }
        previous
    }

    /// Moves every entry of `other` into this map; where both hold a name,
    /// the value from `other` wins. `other` is left empty.
    pub fn append(&mut self, other: &mut NameMap<V>)
        ensures
            final(self)@ == old(self)@.union_prefer_right(old(other)@),
            enumerates_keys(final(self).key_list(), final(self)@),
            final(other)@ == Map::<Seq<char>, V>::empty(),
            final(other).key_list() == Seq::<Seq<char>>::empty(),
    {
        proof {
            use_type_invariant(&*other);
        }
        let ghost other_pairs = other.pairs();
        let ghost start = self@;
        let mut taken: Vec<(String, V)> = Vec::new();
        std::mem::swap(&mut taken, &mut other.entries);
        proof {
            assert(other.pairs() =~= Seq::<(Seq<char>, V)>::empty());
            assert(other@ =~= Map::<Seq<char>, V>::empty());
            assert(other.key_list() =~= Seq::<Seq<char>>::empty());
            assert(taken@.map_values(|e: (String, V)| (e.0@, e.1)) == other_pairs);
            assert(other_pairs.take(0) =~= Seq::<(Seq<char>, V)>::empty());
            assert(pairs_map(other_pairs.take(0)) =~= Map::<Seq<char>, V>::empty());
            assert(start.union_prefer_right(Map::<Seq<char>, V>::empty()) =~= start);
            assert(other_pairs.skip(0) =~= other_pairs);
        }
        let ghost total = other_pairs.len();
        let count = taken.len();
        let mut done: usize = 0;
        while taken.len() > 0
            invariant
                total == other_pairs.len(),
                total == count,
                done <= total,
                taken@.len() == total - done,
                keys_increasing(pair_keys(other_pairs)),
                taken@.map_values(|e: (String, V)| (e.0@, e.1)) == other_pairs.skip(done as int),
                self@ == start.union_prefer_right(pairs_map(other_pairs.take(done as int))),
            decreases taken@.len(),
        {
            let ghost rest = taken@;
            let entry = taken.remove(0);
            let ghost pair = other_pairs[done as int];
            assert(rest.map_values(|e: (String, V)| (e.0@, e.1))[0] == pair);
            assert forall|i: int| 0 <= i < taken@.len() implies (#[trigger] taken@[i]).0@ == other_pairs[done + 1 + i].0
                && taken@[i].1 == other_pairs[done + 1 + i].1 by {
                assert(taken@[i] == rest[i + 1]);
                assert(rest.map_values(|e: (String, V)| (e.0@, e.1))[i + 1] == other_pairs.skip(done as int)[i + 1]);
            }
            assert(taken@.map_values(|e: (String, V)| (e.0@, e.1)) =~= other_pairs.skip(done + 1));
            let ghost before = self@;
            self.insert(entry.0, entry.1);
            proof {
                let prefix = other_pairs.take(done + 1);
                assert(prefix.drop_last() =~= other_pairs.take(done as int));
                assert(pair_keys(prefix) =~= pair_keys(other_pairs).take(done + 1));
                lemma_pairs_map_push(prefix);
                assert(self@ =~= start.union_prefer_right(pairs_map(prefix)));
            }
            done = done + 1;
        }
        proof {
            assert(other_pairs.take(total as int) =~= other_pairs);
        }
        proof {
            use_type_invariant(&*self);
            self.lemma_view_facts();
        }
    }
}

} // verus!

verus! {

/// After `insert(k, v)`, `get(k)` finds `v`, and every other name keeps what it had.
pub proof fn law_get_after_insert<V>(before: Map<Seq<char>, V>, k: Seq<char>, v: V, other: Seq<char>)
    ensures
        before.insert(k, v).contains_key(k),
        before.insert(k, v)[k] == v,
        other != k ==> (before.insert(k, v).contains_key(other) <==> before.contains_key(other)),
        other != k && before.contains_key(other) ==> before.insert(k, v)[other] == before[other],
{
}

/// After `a.append(b)`, a name of `b` holds `b`'s value, a name only `a` had keeps
/// `a`'s value, and no other name is present.
pub proof fn law_append_prefers_incoming<V>(a: Map<Seq<char>, V>, b: Map<Seq<char>, V>, k: Seq<char>)
    ensures
        b.contains_key(k) ==> a.union_prefer_right(b).contains_key(k) && a.union_prefer_right(b)[k] == b[k],
        a.contains_key(k) && !b.contains_key(k) ==> a.union_prefer_right(b).contains_key(k)
            && a.union_prefer_right(b)[k] == a[k],
        !a.contains_key(k) && !b.contains_key(k) ==> !a.union_prefer_right(b).contains_key(k),
{
}

/// Walking a map visits each of its names once, and no other name.
pub proof fn law_walk_visits_each_name_once<V>(ks: Seq<Seq<char>>, m: Map<Seq<char>, V>)
    requires
        enumerates_keys(ks, m),
    ensures
        ks.no_duplicates(),
        forall|k: Seq<char>| m.contains_key(k) <==> ks.contains(k),
{
    assert forall|i: int, j: int| 0 <= i < ks.len() && 0 <= j < ks.len() && i != j implies ks[i] != ks[j] by {
        if i < j {
            assert(seq_less(ks[i], ks[j]));
        } else {
            assert(seq_less(ks[j], ks[i]));
        }
        lemma_seq_less_irreflexive(ks[i]);
    }
}

} // verus!
