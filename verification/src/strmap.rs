//! A string-to-string map that keeps its entries in insertion order.
use vstd::prelude::*;

verus! {

/// No key occurs twice among `ps`.
pub open spec fn distinct_keys(ps: Seq<(Seq<char>, Seq<char>)>) -> bool {
    forall|i: int, j: int| 0 <= i < j < ps.len() ==> (#[trigger] ps[i]).0 != (#[trigger] ps[j]).0
}

/// The map that a sequence of key/value pairs describes.
pub open spec fn pairs_map(ps: Seq<(Seq<char>, Seq<char>)>) -> Map<Seq<char>, Seq<char>> {
    Map::new(
        |k: Seq<char>| exists|i: int| 0 <= i < ps.len() && (#[trigger] ps[i]).0 == k,
        |k: Seq<char>| ps[choose|i: int| 0 <= i < ps.len() && (#[trigger] ps[i]).0 == k].1,
    )
}

/// With distinct keys, each pair is an entry of the map it describes.
pub proof fn lemma_pairs_map(ps: Seq<(Seq<char>, Seq<char>)>)
    requires
        distinct_keys(ps),
    ensures
        forall|i: int|
            0 <= i < ps.len() ==> #[trigger] pairs_map(ps).contains_key(ps[i].0) && pairs_map(
                ps,
            )[ps[i].0] == ps[i].1,
        forall|k: Seq<char>|
            #[trigger] pairs_map(ps).contains_key(k) ==> exists|i: int|
                0 <= i < ps.len() && (#[trigger] ps[i]).0 == k,
        pairs_map(ps).dom().finite(),
        pairs_map(ps).len() == ps.len(),
{
    assert forall|i: int| 0 <= i < ps.len() implies #[trigger] pairs_map(ps).contains_key(ps[i].0)
        && pairs_map(ps)[ps[i].0] == ps[i].1 by {
        let k = ps[i].0;
        assert(exists|j: int| 0 <= j < ps.len() && (#[trigger] ps[j]).0 == k);
        let j = choose|j: int| 0 <= j < ps.len() && (#[trigger] ps[j]).0 == k;
        if j != i {
            if j < i {
                assert(ps[j].0 != ps[i].0);
            } else {
                assert(ps[i].0 != ps[j].0);
            }
        }
    }
    lemma_pairs_map_len(ps);
}

proof fn lemma_pairs_map_len(ps: Seq<(Seq<char>, Seq<char>)>)
    requires
        distinct_keys(ps),
    ensures
        pairs_map(ps).dom().finite(),
        pairs_map(ps).len() == ps.len(),
    decreases ps.len(),
{
    if ps.len() == 0 {
        assert(pairs_map(ps).dom() =~= Set::empty());
    } else {
        let q = ps.drop_last();
        assert(distinct_keys(q));
        lemma_pairs_map_len(q);
        let k = ps.last().0;
        assert(pairs_map(ps).dom() =~= pairs_map(q).dom().insert(k)) by {
            assert(ps[ps.len() - 1].0 == k);
            assert forall|x: Seq<char>| pairs_map(q).dom().contains(x) implies pairs_map(
                ps,
            ).dom().contains(x) by {
                let i = choose|i: int| 0 <= i < q.len() && (#[trigger] q[i]).0 == x;
                assert(ps[i].0 == x);
            }
            assert forall|x: Seq<char>| pairs_map(ps).dom().contains(x) && x != k implies pairs_map(
                q,
            ).dom().contains(x) by {
                let i = choose|i: int| 0 <= i < ps.len() && (#[trigger] ps[i]).0 == x;
                assert(q[i].0 == x);
            }
        }
        assert(!pairs_map(q).dom().contains(k)) by {
            if pairs_map(q).dom().contains(k) {
                let i = choose|i: int| 0 <= i < q.len() && (#[trigger] q[i]).0 == k;
                assert(ps[i].0 == ps[ps.len() - 1].0);
            }
        }
    }
}

proof fn lemma_pairs_map_push(ps: Seq<(Seq<char>, Seq<char>)>, x: (Seq<char>, Seq<char>))
    requires
        distinct_keys(ps.push(x)),
    ensures
        pairs_map(ps.push(x)) == pairs_map(ps).insert(x.0, x.1),
{
    let q = ps.push(x);
    assert(distinct_keys(ps)) by {
        assert forall|a: int, b: int| 0 <= a < b < ps.len() implies (#[trigger] ps[a]).0 != (
        #[trigger] ps[b]).0 by {
            assert(q[a].0 != q[b].0);
        }
    }
    lemma_pairs_map(q);
    lemma_pairs_map(ps);
    assert forall|k: Seq<char>| #[trigger] pairs_map(q).contains_key(k) implies pairs_map(ps).insert(
        x.0,
        x.1,
    ).contains_key(k) by {
        let j = choose|j: int| 0 <= j < q.len() && (#[trigger] q[j]).0 == k;
        if j < ps.len() {
            assert(ps[j].0 == k);
        }
    }
    assert forall|k: Seq<char>| #[trigger] pairs_map(ps).insert(x.0, x.1).contains_key(k) implies pairs_map(
        q,
    ).contains_key(k) && pairs_map(q)[k] == pairs_map(ps).insert(x.0, x.1)[k] by {
        if k == x.0 {
            assert(q[ps.len() as int].0 == k);
        } else {
            let j = choose|j: int| 0 <= j < ps.len() && (#[trigger] ps[j]).0 == k;
            assert(q[j] == ps[j]);
        }
    }
    assert(pairs_map(q) =~= pairs_map(ps).insert(x.0, x.1));
}

/// A map from strings to strings. Each key occurs once; entries keep the
/// order in which their keys were first inserted.
#[derive(Debug)]
pub struct StrMap {
    entries: Vec<(String, String)>,
}

impl Clone for StrMap {
    fn clone(&self) -> (r: Self)
        ensures
            r@ == self@,
    {
        self.copy()
    }
}

impl View for StrMap {
    type V = Map<Seq<char>, Seq<char>>;

    open spec fn view(&self) -> Map<Seq<char>, Seq<char>> {
        pairs_map(self.pairs())
    }
}

impl StrMap {
    /// The entries, in order, as pairs of character sequences.
    pub closed spec fn pairs(&self) -> Seq<(Seq<char>, Seq<char>)> {
        self.entries@.map_values(|p: (String, String)| (p.0@, p.1@))
    }

    #[verifier::type_invariant]
    closed spec fn keys_distinct(&self) -> bool {
        distinct_keys(self.pairs())
    }

    /// An empty map.
    pub fn new() -> (r: StrMap)
        ensures
            r.pairs() == Seq::<(Seq<char>, Seq<char>)>::empty(),
            r@ == Map::<Seq<char>, Seq<char>>::empty(),
    {
        let r = StrMap { entries: Vec::new() };
        assert(r.pairs() =~= Seq::<(Seq<char>, Seq<char>)>::empty());
        assert(r@ =~= Map::<Seq<char>, Seq<char>>::empty());
        r
    }

    /// The number of entries; also makes known that the keys are distinct.
    pub fn len(&self) -> (r: usize)
        ensures
            r == self.pairs().len(),
            distinct_keys(self.pairs()),
            self@ == pairs_map(self.pairs()),
            self@.len() == r,
    {
        proof {
            use_type_invariant(self);
            lemma_pairs_map(self.pairs());
        }
        self.entries.len()
    }

    /// The `i`-th entry.
    pub fn entry(&self, i: usize) -> (r: (&String, &String))
        requires
            i < self.pairs().len(),
        ensures
            (r.0@, r.1@) == self.pairs()[i as int],
    {
        let e = &self.entries[i];
        (&e.0, &e.1)
    }

    fn find(&self, key: &str) -> (r: Option<usize>)
        ensures
            match r {
                Some(i) => i < self.pairs().len() && self.pairs()[i as int].0 == key@,
                None => forall|i: int| 0 <= i < self.pairs().len() ==> (#[trigger] self.pairs()[i]).0 != key@,
            },
    {
        let n = self.entries.len();
        let mut i: usize = 0;
        while i < n
            invariant
                n == self.pairs().len(),
                i <= n,
                forall|j: int| 0 <= j < i ==> (#[trigger] self.pairs()[j]).0 != key@,
            decreases n - i,
        {
            if crate::text::str_eq(self.entries[i].0.as_str(), key) {
                return Some(i);
            }
            i = i + 1;
        }
        None
    }

    /// Whether `key` has an entry.
    pub fn contains_key(&self, key: &str) -> (r: bool)
        ensures
            r == self@.contains_key(key@),
    {
        proof {
            use_type_invariant(self);
            lemma_pairs_map(self.pairs());
        }
        self.find(key).is_some()
    }

    /// The value stored under `key`.
    pub fn get(&self, key: &str) -> (r: Option<&String>)
        ensures
            match r {
                Some(v) => self@.contains_key(key@) && v@ == self@[key@],
                None => !self@.contains_key(key@),
            },
    {
        proof {
            use_type_invariant(self);
            lemma_pairs_map(self.pairs());
        }
        match self.find(key) {
            Some(i) => Some(&self.entries[i].1),
            None => None,
        }
    }

    /// Stores every entry of `other`, replacing values already stored under its keys.
    pub fn extend(&mut self, other: &StrMap)
        ensures
            final(self)@ == old(self)@.union_prefer_right(other@),
    {
        let n = other.len();
        let ghost ops = other.pairs();
        let mut i: usize = 0;
        assert(ops.take(0) =~= Seq::<(Seq<char>, Seq<char>)>::empty());
        assert(pairs_map(ops.take(0)) =~= Map::<Seq<char>, Seq<char>>::empty());
        assert(old(self)@.union_prefer_right(pairs_map(ops.take(0))) =~= old(self)@);
        while i < n
            invariant
                n == ops.len(),
                ops == other.pairs(),
                distinct_keys(ops),
                other@ == pairs_map(ops),
                i <= n,
                self@ == old(self)@.union_prefer_right(pairs_map(ops.take(i as int))),
            decreases n - i,
        {
            let (k, v) = other.entry(i);
            self.insert(k.clone(), v.clone());
            proof {
                assert(ops.take(i + 1) =~= ops.take(i as int).push(ops[i as int]));
                assert(distinct_keys(ops.take(i + 1))) by {
                    assert forall|a: int, b: int| 0 <= a < b < ops.take(i + 1).len() implies (
                    #[trigger] ops.take(i + 1)[a]).0 != (#[trigger] ops.take(i + 1)[b]).0 by {
                        assert(ops[a].0 != ops[b].0);
                    }
                }
                lemma_pairs_map_push(ops.take(i as int), ops[i as int]);
                assert(self@ =~= old(self)@.union_prefer_right(pairs_map(ops.take(i + 1))));
            }
            i = i + 1;
        }
        assert(ops.take(n as int) =~= ops);
    }

    /// A map with the same entries.
    pub fn copy(&self) -> (r: StrMap)
        ensures
            r@ == self@,
    {
        let mut r = StrMap::new();
        r.extend(self);
        assert(r@ =~= self@);
        r
    }

    /// Stores `value` under `key`, replacing a value already stored there.
    pub fn insert(&mut self, key: String, value: String)
        ensures
            final(self)@ == old(self)@.insert(key@, value@),
            !old(self)@.contains_key(key@) ==> final(self).pairs() == old(self).pairs().push(
                (key@, value@),
            ),
    {
        proof {
            use_type_invariant(&*self);
            lemma_pairs_map(self.pairs());
        }
        let ghost old_pairs = self.pairs();
        let ghost k = key@;
        let ghost v = value@;
        let found = self.find(key.as_str());
        let mut entries: Vec<(String, String)> = Vec::new();
        std::mem::swap(&mut entries, &mut self.entries);
        assert(entries@.map_values(|p: (String, String)| (p.0@, p.1@)) == old_pairs);
        match found {
            Some(i) => {
                entries.set(i, (key, value));
                let ghost np = entries@.map_values(|p: (String, String)| (p.0@, p.1@));
                assert(np =~= old_pairs.update(i as int, (k, v)));
                assert(distinct_keys(np)) by {
                    assert forall|a: int, b: int| 0 <= a < b < np.len() implies (
                    #[trigger] np[a]).0 != (#[trigger] np[b]).0 by {
                        assert(old_pairs[a].0 != old_pairs[b].0);
                    }
                }
                proof { lemma_pairs_map(np); }
                assert(pairs_map(np) =~= pairs_map(old_pairs).insert(k, v)) by {
                    assert forall|x: Seq<char>| #[trigger] pairs_map(np).contains_key(x) implies pairs_map(old_pairs).insert(k, v).contains_key(x) by {
                        let j = choose|j: int| 0 <= j < np.len() && (#[trigger] np[j]).0 == x;
                        if j != i {
                            assert(old_pairs[j].0 == x);
                        }
                    }
                    assert forall|x: Seq<char>| #[trigger] pairs_map(old_pairs).insert(k, v).contains_key(x) implies pairs_map(np).contains_key(x) && pairs_map(np)[x] == pairs_map(old_pairs).insert(k, v)[x] by {
                        if x == k {
                            assert(np[i as int].0 == x);
                        } else {
                            let j = choose|j: int| 0 <= j < old_pairs.len() && (#[trigger] old_pairs[j]).0 == x;
                            assert(np[j] == old_pairs[j]);
                        }
                    }
                }
            },
            None => {
                entries.push((key, value));
                let ghost np = entries@.map_values(|p: (String, String)| (p.0@, p.1@));
                assert(np =~= old_pairs.push((k, v)));
                assert(distinct_keys(np)) by {
                    assert forall|a: int, b: int| 0 <= a < b < np.len() implies (
                    #[trigger] np[a]).0 != (#[trigger] np[b]).0 by {
                        if b < old_pairs.len() {
                            assert(old_pairs[a].0 != old_pairs[b].0);
                        } else {
                            assert(old_pairs[a].0 != k);
                        }
                    }
                }
                proof { lemma_pairs_map(np); }
                assert(pairs_map(np) =~= pairs_map(old_pairs).insert(k, v)) by {
                    assert forall|x: Seq<char>| #[trigger] pairs_map(np).contains_key(x) implies pairs_map(old_pairs).insert(k, v).contains_key(x) by {
                        let j = choose|j: int| 0 <= j < np.len() && (#[trigger] np[j]).0 == x;
                        if j < old_pairs.len() {
                            assert(old_pairs[j].0 == x);
                        }
                    }
                    assert forall|x: Seq<char>| #[trigger] pairs_map(old_pairs).insert(k, v).contains_key(x) implies pairs_map(np).contains_key(x) && pairs_map(np)[x] == pairs_map(old_pairs).insert(k, v)[x] by {
                        if x == k {
                            assert(np[old_pairs.len() as int].0 == x);
                        } else {
                            let j = choose|j: int| 0 <= j < old_pairs.len() && (#[trigger] old_pairs[j]).0 == x;
                            assert(np[j] == old_pairs[j]);
                        }
                    }
                }
            },
        }
        self.entries = entries;
    }
}

} // verus!
