//! A small map from strings to values, kept as a vector of pairs in which no
//! key occurs twice. It stands for the panel's `HashMap<String, _>` tables
//! (login attempts, rate-limit windows, CSRF tokens).
use vstd::prelude::*;

verus! {

/// The map that a sequence of pairs describes, later pairs winning.
pub open spec fn pairs_map<V>(s: Seq<(Seq<char>, V)>) -> Map<Seq<char>, V>
    decreases s.len(),
{
    if s.len() == 0 {
        Map::empty()
    } else {
        pairs_map(s.drop_last()).insert(s.last().0, s.last().1)
    }
}

/// No key occurs twice.
pub open spec fn keys_unique<V>(s: Seq<(Seq<char>, V)>) -> bool {
    forall|i: int, j: int| 0 <= i < j < s.len() ==> #[trigger] s[i].0 != #[trigger] s[j].0
}

pub proof fn lemma_pairs_map<V>(s: Seq<(Seq<char>, V)>)
    ensures
        pairs_map(s).dom().finite(),
        forall|k: Seq<char>|
            #[trigger] pairs_map(s).contains_key(k) <==> exists|i: int|
                0 <= i < s.len() && #[trigger] s[i].0 == k,
        keys_unique(s) ==> forall|i: int|
            0 <= i < s.len() ==> #[trigger] pairs_map(s)[s[i].0] == s[i].1,
        keys_unique(s) ==> pairs_map(s).len() == s.len(),
    decreases s.len(),
{
    if s.len() > 0 {
        let t = s.drop_last();
        lemma_pairs_map(t);
        assert forall|k: Seq<char>| #[trigger] pairs_map(s).contains_key(k) <==> exists|i: int|
            0 <= i < s.len() && #[trigger] s[i].0 == k by {
            if pairs_map(s).contains_key(k) {
                if k == s.last().0 {
                    assert(s[s.len() - 1].0 == k);
                } else {
                    let i = choose|i: int| 0 <= i < t.len() && #[trigger] t[i].0 == k;
                    assert(s[i].0 == k);
                }
            }
            if exists|i: int| 0 <= i < s.len() && #[trigger] s[i].0 == k {
                let i = choose|i: int| 0 <= i < s.len() && #[trigger] s[i].0 == k;
                if i < s.len() - 1 {
                    assert(t[i].0 == k);
                }
            }
        }
        if keys_unique(s) {
            assert(keys_unique(t)) by {
                assert forall|i: int, j: int| 0 <= i < j < t.len() implies #[trigger] t[i].0
                    != #[trigger] t[j].0 by {
                    assert(s[i].0 != s[j].0);
                }
            }
            assert forall|i: int| 0 <= i < s.len() implies #[trigger] pairs_map(s)[s[i].0]
                == s[i].1 by {
                if i < s.len() - 1 {
                    assert(s[i].0 != s[s.len() - 1].0);
                    assert(t[i] == s[i]);
                }
            }
            assert(!pairs_map(t).contains_key(s.last().0)) by {
                if pairs_map(t).contains_key(s.last().0) {
                    let i = choose|i: int| 0 <= i < t.len() && #[trigger] t[i].0 == s.last().0;
                    assert(s[i].0 != s[s.len() - 1].0);
                }
            }
        }
    }
}

/// Entries of `s` whose mark in `m` is set, in order.
pub open spec fn masked<V>(s: Seq<(Seq<char>, V)>, m: Seq<bool>) -> Seq<(Seq<char>, V)>
    decreases s.len(),
{
    if s.len() == 0 || m.len() != s.len() {
        Seq::empty()
    } else if m.last() {
        masked(s.drop_last(), m.drop_last()).push(s.last())
    } else {
        masked(s.drop_last(), m.drop_last())
    }
}

proof fn lemma_masked<V>(s: Seq<(Seq<char>, V)>, m: Seq<bool>)
    requires
        m.len() == s.len(),
        keys_unique(s),
    ensures
        keys_unique(masked(s, m)),
        forall|x: (Seq<char>, V)|
            masked(s, m).contains(x) <==> exists|i: int| 0 <= i < s.len() && m[i] && s[i] == x,
    decreases s.len(),
{
    if s.len() > 0 {
        let t = s.drop_last();
        let n = m.drop_last();
        assert(keys_unique(t)) by {
            assert forall|i: int, j: int| 0 <= i < j < t.len() implies #[trigger] t[i].0
                != #[trigger] t[j].0 by {
                assert(s[i].0 != s[j].0);
            }
        }
        lemma_masked(t, n);
        let r = masked(t, n);
        assert forall|x: (Seq<char>, V)| masked(s, m).contains(x) <==> exists|i: int|
            0 <= i < s.len() && m[i] && s[i] == x by {
            if masked(s, m).contains(x) {
                if m.last() && x == s.last() {
                    assert(m[s.len() - 1] && s[s.len() - 1] == x);
                } else {
                    if m.last() {
                        let k = choose|k: int| 0 <= k < masked(s, m).len() && masked(s, m)[k] == x;
                        assert(k < r.len());
                        assert(r[k] == x);
                        assert(r.contains(x));
                    }
                    let i = choose|i: int| 0 <= i < t.len() && n[i] && t[i] == x;
                    assert(m[i] && s[i] == x);
                }
            }
            if exists|i: int| 0 <= i < s.len() && m[i] && s[i] == x {
                let i = choose|i: int| 0 <= i < s.len() && m[i] && s[i] == x;
                if i == s.len() - 1 {
                    assert(masked(s, m)[masked(s, m).len() - 1] == x);
                } else {
                    assert(n[i] && t[i] == x);
                    assert(r.contains(x));
                    let k = choose|k: int| 0 <= k < r.len() && r[k] == x;
                    if m.last() {
                        assert(masked(s, m)[k] == x);
                    }
                }
            }
        }
        if m.last() {
            assert forall|i: int, j: int| 0 <= i < j < masked(s, m).len() implies #[trigger] masked(
                s,
                m,
            )[i].0 != #[trigger] masked(s, m)[j].0 by {
                if j == masked(s, m).len() - 1 {
                    let x = r[i];
                    assert(r.contains(x));
                    let k = choose|k: int| 0 <= k < t.len() && n[k] && t[k] == x;
                    assert(s[k].0 != s[s.len() - 1].0);
                } else {
                    assert(r[i].0 != r[j].0);
                }
            }
        }
    }
}

/// The keys and values of `v`, keys taken by their characters.
pub open spec fn pair_views<V>(v: Seq<(String, V)>) -> Seq<(Seq<char>, V)> {
    v.map_values(|e: (String, V)| (e.0@, e.1))
}

/// The map of string keys to `V`.
pub struct KeyedStore<V> {
    entries: Vec<(String, V)>,
}

impl<V> KeyedStore<V> {
    pub closed spec fn pairs(&self) -> Seq<(Seq<char>, V)> {
        pair_views(self.entries@)
    }

    /// The store's invariant: no key twice.
    #[verifier::type_invariant]
    spec fn keys_distinct(&self) -> bool {
        keys_unique(self.pairs())
    }

    /// What the store maps each key to.
    pub closed spec fn view(&self) -> Map<Seq<char>, V> {
        pairs_map(self.pairs())
    }

    pub proof fn lemma_finite(&self)
        ensures
            self.view().dom().finite(),
    {
        lemma_pairs_map(self.pairs());
    }
}

impl<V: Copy> KeyedStore<V> {
    /// An empty store.
    pub fn new() -> (r: Self)
        ensures
            r.view() == Map::<Seq<char>, V>::empty(),
    {
        let r = KeyedStore { entries: Vec::new() };
        assert(r.pairs() =~= Seq::<(Seq<char>, V)>::empty());
        r
    }

    fn find(&self, k: &str) -> (r: Option<usize>)
        ensures
            match r {
                Some(i) => i < self.entries.len() && self.pairs()[i as int].0 == k@,
                None => forall|i: int| 0 <= i < self.pairs().len() ==> self.pairs()[i].0 != k@,
            },
    {
        let mut i: usize = 0;
        while i < self.entries.len()
            invariant
                i <= self.entries.len(),
                forall|j: int| 0 <= j < i ==> self.pairs()[j].0 != k@,
            decreases self.entries.len() - i,
        {
            if crate::text::str_eq(self.entries[i].0.as_str(), k) {
                return Some(i);
            }
            i += 1;
        }
        None
    }

    /// The number of keys.
    pub fn len(&self) -> (n: usize)
        ensures
            n == self.view().len(),
    {
        proof {
            use_type_invariant(self);
            lemma_pairs_map(self.pairs());
        }
        self.entries.len()
    }

    /// The value of `k`, if it has one.
    pub fn get(&self, k: &str) -> (r: Option<V>)
        ensures
            r == (if self.view().contains_key(k@) {
                Some(self.view()[k@])
            } else {
                None
            }),
    {
        proof {
            use_type_invariant(self);
            lemma_pairs_map(self.pairs());
        }
        match self.find(k) {
            Some(i) => Some(self.entries[i].1),
            None => {
                assert(!self.view().contains_key(k@));
                None
            },
        }
    }

    /// Gives `k` the value `v`.
    pub fn set(&mut self, k: &str, v: V)
        ensures
            final(self).view() == old(self).view().insert(k@, v),
    {
        proof {
            use_type_invariant(&*self);
        }
        let ghost s = self.pairs();
        proof {
            lemma_pairs_map(s);
        }
        match self.find(k) {
            Some(i) => {
                let key = self.entries[i].0.clone();
                let ghost u = s.update(i as int, (k@, v));
                assert(pair_views(self.entries@.update(i as int, (key, v))) =~= u);
                assert(keys_unique(u)) by {
                    assert forall|a: int, b: int| 0 <= a < b < u.len() implies #[trigger] u[a].0
                        != #[trigger] u[b].0 by {
                        assert(s[a].0 != s[b].0);
                    }
                }
                let mut es: Vec<(String, V)> = Vec::new();
                std::mem::swap(&mut es, &mut self.entries);
                es.set(i, (key, v));
                self.entries = es;
                assert(self.pairs() =~= u);
                proof {
                    lemma_pairs_map(u);
                }
                assert(pairs_map(u) =~= pairs_map(s).insert(k@, v)) by {
                    assert forall|key: Seq<char>| pairs_map(u).contains_key(key)
                        <==> pairs_map(s).insert(k@, v).contains_key(key) by {
                        if pairs_map(s).contains_key(key) {
                            let j = choose|j: int| 0 <= j < s.len() && #[trigger] s[j].0 == key;
                            assert(u[j].0 == key);
                        }
                        if pairs_map(u).contains_key(key) {
                            let j = choose|j: int| 0 <= j < u.len() && #[trigger] u[j].0 == key;
                            assert(s[j].0 == key);
                        }
                        if key == k@ {
                            assert(u[i as int].0 == key);
                        }
                    }
                    assert forall|key: Seq<char>| #[trigger] pairs_map(u).contains_key(key)
                        implies pairs_map(u)[key] == pairs_map(s).insert(k@, v)[key] by {
                        let j = choose|j: int| 0 <= j < u.len() && #[trigger] u[j].0 == key;
                        assert(pairs_map(u)[u[j].0] == u[j].1);
                        if j != i {
                            assert(pairs_map(s)[s[j].0] == s[j].1);
                        }
                    }
                }
            },
            None => {
                let key = crate::text::owned(k);
                let ghost p = s.push((k@, v));
                assert(pair_views(self.entries@.push((key, v))) =~= p);
                assert(p.drop_last() =~= s);
                assert(keys_unique(p)) by {
                    assert forall|a: int, b: int| 0 <= a < b < p.len() implies #[trigger] p[a].0
                        != #[trigger] p[b].0 by {
                        if b < s.len() {
                            assert(s[a].0 != s[b].0);
                        } else {
                            assert(s[a].0 != k@);
                        }
                    }
                }
                let mut es: Vec<(String, V)> = Vec::new();
                std::mem::swap(&mut es, &mut self.entries);
                es.push((key, v));
                self.entries = es;
                assert(self.pairs() =~= p);
            },
        }
    }

    fn keep_marked(&mut self, m: &Vec<bool>)
        requires
            m.len() == old(self).entries.len(),
        ensures
            final(self).pairs() == masked(old(self).pairs(), m@),
    {
        proof {
            use_type_invariant(&*self);
        }
        let ghost s = self.pairs();
        let mut out: Vec<(String, V)> = Vec::new();
        let mut i: usize = 0;
        while i < self.entries.len()
            invariant
                i <= self.entries.len(),
                m.len() == self.entries.len(),
                s == self.pairs(),
                pair_views(out@) == masked(
                    s.take(i as int),
                    m@.take(i as int),
                ),
            decreases self.entries.len() - i,
        {
            assert(s.take(i + 1).drop_last() =~= s.take(i as int));
            assert(m@.take(i + 1).drop_last() =~= m@.take(i as int));
            if m[i] {
                let key = self.entries[i].0.clone();
                let val = self.entries[i].1;
                out.push((key, val));
            }
            assert(pair_views(out@) =~= masked(
                s.take(i + 1),
                m@.take(i + 1),
            ));
            i += 1;
        }
        assert(s.take(i as int) =~= s);
        assert(m@.take(i as int) =~= m@);
        proof {
            lemma_masked(s, m@);
        }
        self.entries = out;
    }

    /// Drops every key whose value fails `f`; `p` is what `f` computes.
    pub fn retain<F: Fn(&V) -> bool>(&mut self, f: F, Ghost(p): Ghost<spec_fn(V) -> bool>)
        requires
            forall|v: V| #[trigger] f.requires((&v,)),
            forall|v: V, b: bool| f.ensures((&v,), b) ==> b == p(v),
        ensures
            final(self).view() == Map::new(
                |k: Seq<char>| old(self).view().contains_key(k) && p(old(self).view()[k]),
                |k: Seq<char>| old(self).view()[k],
            ),
    {
        proof {
            use_type_invariant(&*self);
        }
        let ghost s = self.pairs();
        let mut m: Vec<bool> = Vec::new();
        let mut i: usize = 0;
        while i < self.entries.len()
            invariant
                i <= self.entries.len(),
                m.len() == i,
                s == self.pairs(),
                forall|v: V| #[trigger] f.requires((&v,)),
                forall|v: V, b: bool| f.ensures((&v,), b) ==> b == p(v),
                forall|j: int| 0 <= j < i ==> m@[j] == p(#[trigger] s[j].1),
            decreases self.entries.len() - i,
        {
            let b = f(&self.entries[i].1);
            m.push(b);
            i += 1;
        }
        self.keep_marked(&m);
        proof {
            let r = masked(s, m@);
            lemma_masked(s, m@);
            lemma_pairs_map(s);
            lemma_pairs_map(r);
            let want = Map::new(
                |k: Seq<char>| pairs_map(s).contains_key(k) && p(pairs_map(s)[k]),
                |k: Seq<char>| pairs_map(s)[k],
            );
            assert forall|k: Seq<char>| pairs_map(r).contains_key(k) <==> want.contains_key(k) by {
                if pairs_map(r).contains_key(k) {
                    let j = choose|j: int| 0 <= j < r.len() && #[trigger] r[j].0 == k;
                    assert(r.contains(r[j]));
                    let a = choose|a: int| 0 <= a < s.len() && m@[a] && s[a] == r[j];
                    assert(pairs_map(s)[s[a].0] == s[a].1);
                    assert(s[a].0 == k);
                }
                if want.contains_key(k) {
                    let a = choose|a: int| 0 <= a < s.len() && #[trigger] s[a].0 == k;
                    assert(pairs_map(s)[s[a].0] == s[a].1);
                    assert(m@[a]);
                    assert(r.contains(s[a]));
                    let j = choose|j: int| 0 <= j < r.len() && r[j] == s[a];
                    assert(r[j].0 == k);
                }
            }
            assert forall|k: Seq<char>| #[trigger] pairs_map(r).contains_key(k) implies pairs_map(
                r,
            )[k] == want[k] by {
                let j = choose|j: int| 0 <= j < r.len() && #[trigger] r[j].0 == k;
                assert(r.contains(r[j]));
                let a = choose|a: int| 0 <= a < s.len() && m@[a] && s[a] == r[j];
                assert(pairs_map(s)[s[a].0] == s[a].1);
                assert(pairs_map(r)[r[j].0] == r[j].1);
            }
            assert(pairs_map(r) =~= want);
        }
    }

    /// Whether every value satisfies `f`; `p` is what `f` computes.
    pub fn all<F: Fn(&V) -> bool>(&self, f: F, Ghost(p): Ghost<spec_fn(V) -> bool>) -> (r: bool)
        requires
            forall|v: V| #[trigger] f.requires((&v,)),
            forall|v: V, b: bool| f.ensures((&v,), b) ==> b == p(v),
        ensures
            r == (forall|k: Seq<char>| #[trigger] self.view().contains_key(k) ==> p(self.view()[k])),
    {
        proof {
            use_type_invariant(self);
        }
        let ghost s = self.pairs();
        proof {
            lemma_pairs_map(s);
        }
        let mut i: usize = 0;
        while i < self.entries.len()
            invariant
                i <= self.entries.len(),
                s == self.pairs(),
                keys_unique(s),
                forall|v: V| #[trigger] f.requires((&v,)),
                forall|v: V, b: bool| f.ensures((&v,), b) ==> b == p(v),
                forall|j: int| 0 <= j < i ==> p(#[trigger] s[j].1),
            decreases self.entries.len() - i,
        {
            let b = f(&self.entries[i].1);
            if !b {
                proof {
                    lemma_pairs_map(s);
                }
                assert(s[i as int] == (self.entries@[i as int].0@, self.entries@[i as int].1));
                assert(pairs_map(s)[s[i as int].0] == s[i as int].1);
                assert(pairs_map(s).contains_key(s[i as int].0));
                assert(!p(s[i as int].1));
                assert(self.view().contains_key(s[i as int].0) && !p(self.view()[s[i as int].0]));
                return false;
            }
            i += 1;
        }
        assert forall|k: Seq<char>| #[trigger] self.view().contains_key(k) implies p(
            self.view()[k],
        ) by {
            let j = choose|j: int| 0 <= j < s.len() && #[trigger] s[j].0 == k;
            assert(pairs_map(s)[s[j].0] == s[j].1);
        }
        true
    }

    /// Removes `k` and its value.
    pub fn remove(&mut self, k: &str)
        ensures
            final(self).view() == old(self).view().remove(k@),
    {
        proof {
            use_type_invariant(&*self);
        }
        let ghost s = self.pairs();
        let mut m: Vec<bool> = Vec::new();
        let mut i: usize = 0;
        while i < self.entries.len()
            invariant
                i <= self.entries.len(),
                m.len() == i,
                s == self.pairs(),
                forall|j: int| 0 <= j < i ==> m@[j] == (#[trigger] s[j].0 != k@),
            decreases self.entries.len() - i,
        {
            let b = !crate::text::str_eq(self.entries[i].0.as_str(), k);
            m.push(b);
            i += 1;
        }
        self.keep_marked(&m);
        proof {
            let r = masked(s, m@);
            lemma_masked(s, m@);
            lemma_pairs_map(s);
            lemma_pairs_map(r);
            let want = pairs_map(s).remove(k@);
            assert forall|key: Seq<char>| pairs_map(r).contains_key(key) <==> want.contains_key(
                key,
            ) by {
                if pairs_map(r).contains_key(key) {
                    let j = choose|j: int| 0 <= j < r.len() && #[trigger] r[j].0 == key;
                    assert(r.contains(r[j]));
                    let a = choose|a: int| 0 <= a < s.len() && m@[a] && s[a] == r[j];
                    assert(s[a].0 == key);
                }
                if want.contains_key(key) {
                    let a = choose|a: int| 0 <= a < s.len() && #[trigger] s[a].0 == key;
                    assert(m@[a]);
                    assert(r.contains(s[a]));
                    let j = choose|j: int| 0 <= j < r.len() && r[j] == s[a];
                    assert(r[j].0 == key);
                }
            }
            assert forall|key: Seq<char>| #[trigger] pairs_map(r).contains_key(key) implies pairs_map(
                r,
            )[key] == want[key] by {
                let j = choose|j: int| 0 <= j < r.len() && #[trigger] r[j].0 == key;
                assert(r.contains(r[j]));
                let a = choose|a: int| 0 <= a < s.len() && m@[a] && s[a] == r[j];
                assert(pairs_map(s)[s[a].0] == s[a].1);
                assert(pairs_map(r)[r[j].0] == r[j].1);
            }
            assert(pairs_map(r) =~= want);
        }
    }

    /// The entries, in no particular order.
    pub fn entries(&self) -> (r: Vec<(String, V)>)
        ensures
            pair_views(r@) == self.pairs(),
            keys_unique(pair_views(r@)),
            pairs_map(pair_views(r@)) == self.view(),
    {
        proof {
            use_type_invariant(self);
        }
        let mut out: Vec<(String, V)> = Vec::new();
        let mut i: usize = 0;
        while i < self.entries.len()
            invariant
                i <= self.entries.len(),
                pair_views(out@) == self.pairs().take(i as int),
            decreases self.entries.len() - i,
        {
            let ghost before = out@;
            assert(pair_views(before).len() == before.len());
            assert(before.len() == i);
            let key = self.entries[i].0.clone();
            out.push((key, self.entries[i].1));
            assert(self.pairs()[i as int] == (self.entries@[i as int].0@, self.entries@[i as int].1));
            assert(out@ == before.push((key, self.entries@[i as int].1)));
            assert forall|j: int| 0 <= j < i + 1 implies #[trigger] pair_views(out@)[j] == self.pairs().take(i + 1)[j] by {
                if j < i {
                    assert(out@[j] == before[j]);
                    assert(pair_views(before)[j] == self.pairs().take(
                        i as int,
                    )[j]);
                }
            }
            assert(pair_views(out@) =~= self.pairs().take(i + 1));
            i += 1;
        }
        assert(self.pairs().take(i as int) =~= self.pairs());
        out
    }
}

} // verus!
