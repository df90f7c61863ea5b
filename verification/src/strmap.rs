//! Maps and sets keyed by names, walked in name order.
//!
//! A `StrMap` holds its entries in a vector sorted strictly by `name_lt`, so
//! that no name occurs twice and entries come out in the order in which a
//! `BTreeMap<String, _>` would yield them.
use vstd::prelude::*;
use crate::text::{name_lt, name_order, NameOrder, lemma_name_lt_irreflexive, lemma_name_lt_asymmetric, lemma_name_lt_transitive};

verus! {

/// The map that a sequence of pairs builds when they are inserted one after
/// the other: a later pair replaces an earlier one with the same name.
pub open spec fn pairs_to_map<V>(ps: Seq<(Seq<char>, V)>) -> Map<Seq<char>, V>
    decreases ps.len(),
{
    if ps.len() == 0 {
        Map::empty()
    } else {
        pairs_to_map(ps.drop_last()).insert(ps.last().0, ps.last().1)
    }
}

/// The names of a sequence of pairs are strictly increasing.
pub open spec fn sorted_pairs<V>(ps: Seq<(Seq<char>, V)>) -> bool {
    forall|i: int, j: int| 0 <= i < j < ps.len() ==> name_lt(#[trigger] ps[i].0, #[trigger] ps[j].0)
}

/// A name occurs in a sequence of pairs.
pub open spec fn has_name<V>(ps: Seq<(Seq<char>, V)>, k: Seq<char>) -> bool {
    exists|i: int| 0 <= i < ps.len() && #[trigger] ps[i].0 == k
}

pub proof fn lemma_pairs_to_map_dom<V>(ps: Seq<(Seq<char>, V)>, k: Seq<char>)
    ensures
        pairs_to_map(ps).contains_key(k) <==> has_name(ps, k),
    decreases ps.len(),
{
    if ps.len() > 0 {
        let init = ps.drop_last();
        lemma_pairs_to_map_dom(init, k);
        if has_name(init, k) {
            let i = choose|i: int| 0 <= i < init.len() && #[trigger] init[i].0 == k;
            assert(ps[i].0 == k);
        }
        if has_name(ps, k) && ps.last().0 != k {
            let i = choose|i: int| 0 <= i < ps.len() && #[trigger] ps[i].0 == k;
            assert(init[i].0 == k);
        }
        if ps.last().0 == k {
            assert(ps[ps.len() - 1].0 == k);
        }
    }
}

pub proof fn lemma_pairs_to_map_finite<V>(ps: Seq<(Seq<char>, V)>)
    ensures
        pairs_to_map(ps).dom().finite(),
    decreases ps.len(),
{
    if ps.len() > 0 {
        lemma_pairs_to_map_finite(ps.drop_last());
    }
}

/// What the map holds at a name is the value of some pair with that name.
pub proof fn lemma_pairs_to_map_value_in<V>(ps: Seq<(Seq<char>, V)>, k: Seq<char>)
    requires
        pairs_to_map(ps).contains_key(k),
    ensures
        exists|i: int| 0 <= i < ps.len() && #[trigger] ps[i].0 == k && pairs_to_map(ps)[k] == ps[i].1,
    decreases ps.len(),
{
    if ps.len() == 0 {
    } else if ps.last().0 == k {
        assert(ps[ps.len() - 1].0 == k);
    } else {
        let init = ps.drop_last();
        lemma_pairs_to_map_value_in(init, k);
        let i = choose|i: int| 0 <= i < init.len() && #[trigger] init[i].0 == k && pairs_to_map(init)[k] == init[i].1;
        assert(ps[i] == init[i]);
    }
}

/// With sorted names, the map holds at each name the value paired with it.
pub proof fn lemma_sorted_pairs_value<V>(ps: Seq<(Seq<char>, V)>, i: int)
    requires
        sorted_pairs(ps),
        0 <= i < ps.len(),
    ensures
        pairs_to_map(ps).contains_key(ps[i].0),
        pairs_to_map(ps)[ps[i].0] == ps[i].1,
    decreases ps.len(),
{
    let init = ps.drop_last();
    if i == ps.len() - 1 {
    } else {
        assert(sorted_pairs(init)) by {
            assert forall|a: int, b: int| 0 <= a < b < init.len() implies name_lt(
                #[trigger] init[a].0,
                #[trigger] init[b].0,
            ) by {
                assert(init[a] == ps[a] && init[b] == ps[b]);
            }
        }
        lemma_sorted_pairs_value(init, i);
        assert(name_lt(ps[i].0, ps[ps.len() - 1].0));
        lemma_name_lt_irreflexive(ps[i].0);
        assert(init[i] == ps[i]);
    }
}

/// Two sequences of sorted pairs that hold the same pairs at every name are
/// equal once their maps are equal.
pub proof fn lemma_sorted_pairs_same_map<V>(ps: Seq<(Seq<char>, V)>, qs: Seq<(Seq<char>, V)>)
    requires
        sorted_pairs(ps),
        sorted_pairs(qs),
        pairs_to_map(ps) == pairs_to_map(qs),
    ensures
        ps == qs,
    decreases ps.len() + qs.len(),
{
    if ps.len() == 0 && qs.len() == 0 {
        assert(ps =~= qs);
    } else if ps.len() == 0 {
        lemma_sorted_pairs_value(qs, 0);
        lemma_pairs_to_map_dom(ps, qs[0].0);
    } else if qs.len() == 0 {
        lemma_sorted_pairs_value(ps, 0);
        lemma_pairs_to_map_dom(qs, ps[0].0);
    } else {
        let lp = ps.last();
        let lq = qs.last();
        lemma_sorted_pairs_value(ps, ps.len() - 1);
        lemma_sorted_pairs_value(qs, qs.len() - 1);
        lemma_pairs_to_map_dom(ps, lq.0);
        lemma_pairs_to_map_dom(qs, lp.0);
        // the largest names agree
        let i = choose|i: int| 0 <= i < ps.len() && #[trigger] ps[i].0 == lq.0;
        let j = choose|j: int| 0 <= j < qs.len() && #[trigger] qs[j].0 == lp.0;
        if i != ps.len() - 1 {
            assert(name_lt(ps[i].0, lp.0));
            if j != qs.len() - 1 {
                assert(name_lt(qs[j].0, lq.0));
                lemma_name_lt_asymmetric(lq.0, lp.0);
            } else {
                lemma_name_lt_irreflexive(lp.0);
            }
        }
        assert(lp.0 == lq.0);
        assert(lp.1 == lq.1);
        let pi = ps.drop_last();
        let qi = qs.drop_last();
        lemma_sorted_prefix(ps);
        lemma_sorted_prefix(qs);
        lemma_sorted_last_absent(ps);
        lemma_sorted_last_absent(qs);
        assert(pairs_to_map(pi) =~= pairs_to_map(ps).remove(lp.0));
        assert(pairs_to_map(qi) =~= pairs_to_map(qs).remove(lq.0));
        lemma_sorted_pairs_same_map(pi, qi);
        assert(ps =~= pi.push(lp));
        assert(qs =~= qi.push(lq));
    }
}

pub proof fn lemma_sorted_prefix<V>(ps: Seq<(Seq<char>, V)>)
    requires
        sorted_pairs(ps),
        ps.len() > 0,
    ensures
        sorted_pairs(ps.drop_last()),
{
    let init = ps.drop_last();
    assert forall|a: int, b: int| 0 <= a < b < init.len() implies name_lt(
        #[trigger] init[a].0,
        #[trigger] init[b].0,
    ) by {
        assert(init[a] == ps[a] && init[b] == ps[b]);
    }
}

/// In sorted pairs the last name does not occur before the end.
pub proof fn lemma_sorted_last_absent<V>(ps: Seq<(Seq<char>, V)>)
    requires
        sorted_pairs(ps),
        ps.len() > 0,
    ensures
        !pairs_to_map(ps.drop_last()).contains_key(ps.last().0),
{
    let init = ps.drop_last();
    lemma_pairs_to_map_dom(init, ps.last().0);
    if has_name(init, ps.last().0) {
        let i = choose|i: int| 0 <= i < init.len() && #[trigger] init[i].0 == ps.last().0;
        assert(name_lt(ps[i].0, ps[ps.len() - 1].0));
        lemma_name_lt_irreflexive(ps[i].0);
    }
}

/// A map from names to values, walked in name order.
#[derive(Debug)]
pub struct StrMap<V> {
    entries: Vec<(String, V)>,
}

impl<V> StrMap<V> {
    /// The entries as (name, value) pairs, in name order.
    pub closed spec fn pairs(&self) -> Seq<(Seq<char>, V)> {
        self.entries@.map_values(|e: (String, V)| (e.0@, e.1))
    }

    #[verifier::type_invariant]
    closed spec fn inv(self) -> bool {
        sorted_pairs(self.pairs())
    }

    /// The map from names to values.
    pub open spec fn view(&self) -> Map<Seq<char>, V> {
        pairs_to_map(self.pairs())
    }

    /// An empty map.
    pub fn new() -> (m: Self)
        ensures
            m.pairs() == Seq::<(Seq<char>, V)>::empty(),
            m@ == Map::<Seq<char>, V>::empty(),
    {
        let m = StrMap { entries: Vec::new() };
        assert(m.pairs() =~= Seq::<(Seq<char>, V)>::empty());
        m
    }

    /// Number of entries.
    pub fn len(&self) -> (n: usize)
        ensures
            n == self.pairs().len(),
            n == self@.len(),
    {
        proof {
            use_type_invariant(self);
            self.lemma_len_matches();
        }
        self.entries.len()
    }

    proof fn lemma_len_matches(&self)
        requires
            sorted_pairs(self.pairs()),
        ensures
            self@.len() == self.pairs().len(),
    {
        lemma_sorted_len(self.pairs());
    }

    /// Whether some entry has the given name.
    pub fn contains_key(&self, k: &str) -> (r: bool)
        ensures
            r == self@.contains_key(k@),
    {
        let i = self.position(k);
        i.1
    }

    /// The value stored under the given name.
    pub fn get(&self, k: &str) -> (r: Option<&V>)
        ensures
            match r {
                Some(v) => self@.contains_key(k@) && self@[k@] == *v,
                None => !self@.contains_key(k@),
            },
    {
        let (i, found) = self.position(k);
        if found {
            proof {
                use_type_invariant(self);
                lemma_sorted_pairs_value(self.pairs(), i as int);
            }
            Some(&self.entries[i].1)
        } else {
            None
        }
    }

    /// Where the name stands, or would be inserted, and whether it is there.
    fn position(&self, k: &str) -> (r: (usize, bool))
        ensures
            r.0 <= self.pairs().len(),
            forall|j: int| 0 <= j < r.0 ==> name_lt(#[trigger] self.pairs()[j].0, k@),
            r.1 ==> r.0 < self.pairs().len() && self.pairs()[r.0 as int].0 == k@,
            !r.1 ==> r.0 < self.pairs().len() ==> name_lt(k@, self.pairs()[r.0 as int].0),
            r.1 == self@.contains_key(k@),
    {
        proof {
            use_type_invariant(self);
        }
        let ghost ps = self.pairs();
        let n = self.entries.len();
        let mut i: usize = 0;
        while i < n
            invariant
                n == self.entries@.len(),
                ps == self.pairs(),
                sorted_pairs(ps),
                i <= n,
                forall|j: int| 0 <= j < i ==> name_lt(#[trigger] ps[j].0, k@),
            decreases n - i,
        {
            let o = name_order(self.entries[i].0.as_str(), k);
            assert(ps[i as int].0 == self.entries@[i as int].0@);
            match o {
                NameOrder::Before => {
                    i = i + 1;
                },
                NameOrder::Same => {
                    proof {
                        lemma_pairs_to_map_dom(ps, k@);
                    }
                    return (i, true);
                },
                NameOrder::After => {
                    proof {
                        lemma_pairs_to_map_dom(ps, k@);
                        if has_name(ps, k@) {
                            let j = choose|j: int| 0 <= j < ps.len() && #[trigger] ps[j].0 == k@;
                            if j < i {
                                lemma_name_lt_irreflexive(k@);
                            } else if j > i {
                                lemma_name_lt_asymmetric(ps[i as int].0, ps[j].0);
                            } else {
                                lemma_name_lt_irreflexive(k@);
                            }
                        }
                    }
                    return (i, false);
                },
            }
        }
        proof {
            lemma_pairs_to_map_dom(ps, k@);
            if has_name(ps, k@) {
                let j = choose|j: int| 0 <= j < ps.len() && #[trigger] ps[j].0 == k@;
                lemma_name_lt_irreflexive(k@);
            }
        }
        (i, false)
    }

    /// Stores a value under a name, replacing what was stored there.
    pub fn insert(&mut self, k: String, v: V)
        ensures
            final(self)@ == old(self)@.insert(k@, v),
            sorted_pairs(final(self).pairs()),
    {
        proof {
            use_type_invariant(&*self);
        }
        let ghost ps = self.pairs();
        let (i, found) = self.position(k.as_str());
        let ghost kv = k@;
        let mut entries: Vec<(String, V)> = Vec::new();
        std::mem::swap(&mut entries, &mut self.entries);
        assert(entries@.map_values(|e: (String, V)| (e.0@, e.1)) == ps);
        if found {
            entries.set(i, (k, v));
            proof {
                let qs = entries@.map_values(|e: (String, V)| (e.0@, e.1));
                assert(qs =~= ps.update(i as int, (kv, v)));
                lemma_update_sorted(ps, i as int, v);
                lemma_update_map(ps, i as int, v);
            }
        } else {
            entries.insert(i, (k, v));
            proof {
                let qs = entries@.map_values(|e: (String, V)| (e.0@, e.1));
                assert(qs =~= ps.insert(i as int, (kv, v)));
                lemma_insert_sorted(ps, i as int, kv, v);
                lemma_insert_map(ps, i as int, kv, v);
            }
        }
        self.entries = entries;
    }

    /// Inserts the pairs one after the other.
    pub fn extend(&mut self, items: Vec<(String, V)>)
        ensures
            final(self)@ == old(self)@.union_prefer_right(
                pairs_to_map(items@.map_values(|e: (String, V)| (e.0@, e.1))),
            ),
            sorted_pairs(final(self).pairs()),
    {
        proof {
            use_type_invariant(&*self);
        }
        let ghost start = self@;
        let ghost orig = items@;
        let ghost qs = items@.map_values(|e: (String, V)| (e.0@, e.1));
        let mut items = items;
        let ghost n = qs.len();
        assert(items.len() == n);
        assert(start =~= start.union_prefer_right(pairs_to_map(qs.take(0))));
        assert(orig.skip(0) =~= orig);
        let mut done: usize = 0;
        while items.len() > 0
            invariant
                n == qs.len(),
                n == orig.len(),
                n <= usize::MAX,
                qs == orig.map_values(|e: (String, V)| (e.0@, e.1)),
                done <= n,
                items@ == orig.skip(done as int),
                self@ == start.union_prefer_right(pairs_to_map(qs.take(done as int))),
                sorted_pairs(self.pairs()),
            decreases items@.len(),
        {
            assert(items@.len() == n - done);
            let (k, v) = items.remove(0);
            assert(orig[done as int] == (k, v));
            assert(orig.skip(done as int).remove(0) =~= orig.skip(done + 1));
            assert(qs.take(done + 1).drop_last() =~= qs.take(done as int));
            assert(qs.take(done + 1).last() == qs[done as int]);
            self.insert(k, v);
            done = done + 1;
            assert(self@ =~= start.union_prefer_right(pairs_to_map(qs.take(done as int))));
        }
        assert(qs.take(n as int) =~= qs);
    }

    /// Gives up the entries, in name order.
    pub fn into_entries(self) -> (r: Vec<(String, V)>)
        ensures
            r@.map_values(|e: (String, V)| (e.0@, e.1)) == self.pairs(),
            sorted_pairs(self.pairs()),
    {
        proof {
            use_type_invariant(&self);
        }
        self.entries
    }

    /// The entries, in name order.
    pub fn entries(&self) -> (r: &[(String, V)])
        ensures
            r@.map_values(|e: (String, V)| (e.0@, e.1)) == self.pairs(),
            sorted_pairs(self.pairs()),
    {
        proof {
            use_type_invariant(self);
        }
        self.entries.as_slice()
    }
}

pub proof fn lemma_sorted_len<V>(ps: Seq<(Seq<char>, V)>)
    requires
        sorted_pairs(ps),
    ensures
        pairs_to_map(ps).len() == ps.len(),
    decreases ps.len(),
{
    lemma_pairs_to_map_finite(ps);
    if ps.len() > 0 {
        lemma_sorted_prefix(ps);
        lemma_sorted_len(ps.drop_last());
        lemma_sorted_last_absent(ps);
        lemma_pairs_to_map_finite(ps.drop_last());
    }
}

proof fn lemma_update_sorted<V>(ps: Seq<(Seq<char>, V)>, i: int, v: V)
    requires
        sorted_pairs(ps),
        0 <= i < ps.len(),
    ensures
        sorted_pairs(ps.update(i, (ps[i].0, v))),
{
    let qs = ps.update(i, (ps[i].0, v));
    assert forall|a: int, b: int| 0 <= a < b < qs.len() implies name_lt(
        #[trigger] qs[a].0,
        #[trigger] qs[b].0,
    ) by {
        assert(qs[a].0 == ps[a].0 && qs[b].0 == ps[b].0);
    }
}

proof fn lemma_update_map<V>(ps: Seq<(Seq<char>, V)>, i: int, v: V)
    requires
        sorted_pairs(ps),
        0 <= i < ps.len(),
    ensures
        pairs_to_map(ps.update(i, (ps[i].0, v))) == pairs_to_map(ps).insert(ps[i].0, v),
{
    let k = ps[i].0;
    let qs = ps.update(i, (k, v));
    lemma_update_sorted(ps, i, v);
    let m1 = pairs_to_map(qs);
    let m2 = pairs_to_map(ps).insert(k, v);
    assert forall|x: Seq<char>| m1.contains_key(x) <==> m2.contains_key(x) by {
        lemma_pairs_to_map_dom(qs, x);
        lemma_pairs_to_map_dom(ps, x);
        if has_name(ps, x) {
            let j = choose|j: int| 0 <= j < ps.len() && #[trigger] ps[j].0 == x;
            assert(qs[j].0 == x);
        }
        if has_name(qs, x) {
            let j = choose|j: int| 0 <= j < qs.len() && #[trigger] qs[j].0 == x;
            assert(ps[j].0 == x);
        }
    }
    assert forall|x: Seq<char>| #[trigger] m1.contains_key(x) implies m1[x] == m2[x] by {
        lemma_pairs_to_map_dom(qs, x);
        let j = choose|j: int| 0 <= j < qs.len() && #[trigger] qs[j].0 == x;
        lemma_sorted_pairs_value(qs, j);
        lemma_sorted_pairs_value(ps, j);
        if j != i {
            assert(ps[j].0 == x);
            if x == k {
                if j < i {
                    assert(name_lt(ps[j].0, ps[i].0));
                } else {
                    assert(name_lt(ps[i].0, ps[j].0));
                }
                lemma_name_lt_irreflexive(x);
            }
        }
    }
    assert(m1 =~= m2);
}

proof fn lemma_insert_sorted<V>(ps: Seq<(Seq<char>, V)>, i: int, k: Seq<char>, v: V)
    requires
        sorted_pairs(ps),
        0 <= i <= ps.len(),
        forall|j: int| 0 <= j < i ==> name_lt(#[trigger] ps[j].0, k),
        i < ps.len() ==> name_lt(k, ps[i].0),
    ensures
        sorted_pairs(ps.insert(i, (k, v))),
{
    let qs = ps.insert(i, (k, v));
    assert forall|a: int, b: int| 0 <= a < b < qs.len() implies name_lt(
        #[trigger] qs[a].0,
        #[trigger] qs[b].0,
    ) by {
        if b < i {
            assert(qs[a] == ps[a] && qs[b] == ps[b]);
        } else if b == i {
            assert(qs[a] == ps[a]);
        } else if a == i {
            assert(qs[b] == ps[b - 1]);
            if b - 1 > i {
                assert(name_lt(ps[i].0, ps[b - 1].0));
                lemma_name_lt_transitive(k, ps[i].0, ps[b - 1].0);
            }
        } else if a < i {
            assert(qs[a] == ps[a] && qs[b] == ps[b - 1]);
        } else {
            assert(qs[a] == ps[a - 1] && qs[b] == ps[b - 1]);
        }
    }
}

proof fn lemma_insert_map<V>(ps: Seq<(Seq<char>, V)>, i: int, k: Seq<char>, v: V)
    requires
        sorted_pairs(ps),
        0 <= i <= ps.len(),
        forall|j: int| 0 <= j < i ==> name_lt(#[trigger] ps[j].0, k),
        i < ps.len() ==> name_lt(k, ps[i].0),
    ensures
        pairs_to_map(ps.insert(i, (k, v))) == pairs_to_map(ps).insert(k, v),
{
    let qs = ps.insert(i, (k, v));
    lemma_insert_sorted(ps, i, k, v);
    let m1 = pairs_to_map(qs);
    let m2 = pairs_to_map(ps).insert(k, v);
    assert forall|x: Seq<char>| m1.contains_key(x) <==> m2.contains_key(x) by {
        lemma_pairs_to_map_dom(qs, x);
        lemma_pairs_to_map_dom(ps, x);
        if has_name(ps, x) {
            let j = choose|j: int| 0 <= j < ps.len() && #[trigger] ps[j].0 == x;
            if j < i {
                assert(qs[j].0 == x);
            } else {
                assert(qs[j + 1].0 == x);
            }
        }
        if has_name(qs, x) {
            let j = choose|j: int| 0 <= j < qs.len() && #[trigger] qs[j].0 == x;
            if j < i {
                assert(ps[j].0 == x);
            } else if j > i {
                assert(ps[j - 1].0 == x);
            }
        }
        assert(qs[i].0 == k);
    }
    assert forall|x: Seq<char>| #[trigger] m1.contains_key(x) implies m1[x] == m2[x] by {
        lemma_pairs_to_map_dom(qs, x);
        let j = choose|j: int| 0 <= j < qs.len() && #[trigger] qs[j].0 == x;
        lemma_sorted_pairs_value(qs, j);
        if j < i {
            assert(qs[j] == ps[j]);
            lemma_sorted_pairs_value(ps, j);
            lemma_name_lt_irreflexive(x);
        } else if j > i {
            assert(qs[j] == ps[j - 1]);
            lemma_sorted_pairs_value(ps, j - 1);
            if x == k {
                assert(name_lt(qs[i].0, qs[j].0));
                lemma_name_lt_irreflexive(x);
            }
        }
    }
    assert(m1 =~= m2);
}

/// A set of names, walked in name order.
#[derive(Debug)]
pub struct StrSet {
    map: StrMap<()>,
}

impl StrSet {
    /// The names, in name order.
    pub closed spec fn names(&self) -> Seq<Seq<char>> {
        self.map.pairs().map_values(|p: (Seq<char>, ())| p.0)
    }

    /// The set of names.
    pub open spec fn view(&self) -> Set<Seq<char>> {
        self.names().to_set()
    }

    proof fn lemma_view_is_dom(&self)
        ensures
            self@ == self.map@.dom(),
    {
        assert forall|k: Seq<char>| self@.contains(k) <==> self.map@.dom().contains(k) by {
            lemma_pairs_to_map_dom(self.map.pairs(), k);
            if self.names().contains(k) {
                let i = choose|i: int| 0 <= i < self.names().len() && self.names()[i] == k;
                assert(self.map.pairs()[i].0 == k);
            }
            if has_name(self.map.pairs(), k) {
                let i = choose|i: int| 0 <= i < self.map.pairs().len() && #[trigger] self.map.pairs()[i].0 == k;
                assert(self.names()[i] == k);
            }
        }
        assert(self@ =~= self.map@.dom());
    }

    /// An empty set.
    pub fn new() -> (s: Self)
        ensures
            s.names() == Seq::<Seq<char>>::empty(),
            s@ == Set::<Seq<char>>::empty(),
    {
        let s = StrSet { map: StrMap::new() };
        assert(s.names() =~= Seq::<Seq<char>>::empty());
        proof {
            s.lemma_view_is_dom();
        }
        assert(s@ =~= Set::<Seq<char>>::empty());
        s
    }

    /// Number of names.
    pub fn len(&self) -> (n: usize)
        ensures
            n == self.names().len(),
    {
        self.map.len()
    }

    /// Whether the name is in the set.
    pub fn contains(&self, k: &str) -> (r: bool)
        ensures
            r == self@.contains(k@),
    {
        proof {
            self.lemma_view_is_dom();
        }
        self.map.contains_key(k)
    }

    /// Adds a name.
    pub fn insert(&mut self, k: String)
        ensures
            final(self)@ == old(self)@.insert(k@),
    {
        proof {
            self.lemma_view_is_dom();
        }
        self.map.insert(k, ());
        proof {
            self.lemma_view_is_dom();
        }
        assert(self@ =~= old(self)@.insert(k@));
    }

    /// Adds the names one after the other.
    pub fn extend(&mut self, items: Vec<String>)
        ensures
            final(self)@ == old(self)@.union(items@.map_values(|s: String| s@).to_set()),
    {
        let ghost start = self@;
        let ghost orig = items@;
        let mut items = items;
        let ghost n = orig.len();
        assert(items.len() == n);
        assert(orig.skip(0) =~= orig);
        assert(start =~= start.union(orig.take(0).map_values(|s: String| s@).to_set()));
        let mut done: usize = 0;
        while items.len() > 0
            invariant
                n == orig.len(),
                n <= usize::MAX,
                done <= n,
                items@ == orig.skip(done as int),
                self@ == start.union(orig.take(done as int).map_values(|s: String| s@).to_set()),
            decreases items@.len(),
        {
            assert(items@.len() == n - done);
            let k = items.remove(0);
            assert(orig[done as int] == k);
            assert(orig.skip(done as int).remove(0) =~= orig.skip(done + 1));
            let ghost before = orig.take(done as int).map_values(|s: String| s@);
            let ghost after = orig.take(done + 1).map_values(|s: String| s@);
            assert(after =~= before.push(k@));
            proof {
                before.lemma_push_to_set_commute(k@);
            }
            self.insert(k);
            done = done + 1;
            assert(self@ =~= start.union(orig.take(done as int).map_values(|s: String| s@).to_set()));
        }
        assert(orig.take(n as int) =~= orig);
    }

    /// Gives up the names, in name order.
    pub fn into_names(self) -> (r: Vec<String>)
        ensures
            r@.map_values(|s: String| s@) == self.names(),
            forall|i: int, j: int| 0 <= i < j < self.names().len() ==> name_lt(#[trigger] self.names()[i], #[trigger] self.names()[j]),
    {
        let entries = self.map.into_entries();
        let ghost ps = self.map.pairs();
        let mut names: Vec<String> = Vec::new();
        let mut rest = entries;
        let ghost orig = rest@;
        let n = rest.len();
        assert(orig.skip(0) =~= orig);
        let mut i: usize = 0;
        while i < n
            invariant
                n == orig.len(),
                i <= n,
                rest@ == orig.skip(i as int),
                orig.map_values(|e: (String, ())| (e.0@, e.1)) == ps,
                names@.len() == i,
                forall|j: int| 0 <= j < i ==> (#[trigger] names@[j])@ == ps[j].0,
            decreases n - i,
        {
            let (k, _) = rest.remove(0);
            assert(orig.skip(i as int).remove(0) =~= orig.skip(i + 1));
            assert(orig[i as int].0@ == ps[i as int].0);
            names.push(k);
            i = i + 1;
        }
        assert(names@.map_values(|s: String| s@) =~= self.names());
        names
    }
}

/// After a value is stored under a name, that name finds the value and every
/// other name finds what it found before.
pub proof fn law_str_map_read_after_write<V>(
    m: Map<Seq<char>, V>,
    k: Seq<char>,
    v: V,
    other: Seq<char>,
)
    requires
        other != k,
    ensures
        m.insert(k, v).contains_key(k),
        m.insert(k, v)[k] == v,
        m.insert(k, v).contains_key(other) == m.contains_key(other),
        m.contains_key(other) ==> m.insert(k, v)[other] == m[other],
{
}

/// The pairs that a map is built from, in name order, are determined by the
/// map: two sorted sequences of pairs with the same map are the same.
pub proof fn law_sorted_pairs_determined_by_map<V>(ps: Seq<(Seq<char>, V)>, qs: Seq<(Seq<char>, V)>)
    requires
        sorted_pairs(ps),
        sorted_pairs(qs),
        pairs_to_map(ps) == pairs_to_map(qs),
    ensures
        ps == qs,
{
    lemma_sorted_pairs_same_map(ps, qs);
}

} // verus!
