//! A finite map from strings to values, kept as a list of entries with
//! unique keys.
use vstd::prelude::*;

use crate::text::{
    lemma_lex_irreflexive, lemma_lex_total, lemma_lex_transitive, lemma_views_push, lex_lt, lex_less,
    owned, str_eq, views,
};

verus! {

/// The table a list of entries stands for; a later entry of the same key
/// would win, but keys are kept unique.
pub open spec fn table_view<V>(e: Seq<(String, V)>) -> Map<Seq<char>, V>
    decreases e.len(),
{
    if e.len() == 0 {
        Map::empty()
    } else {
        table_view::<V>(e.drop_last()).insert(e.last().0@, e.last().1)
    }
}

/// No key occurs twice.
pub open spec fn keys_unique<V>(e: Seq<(String, V)>) -> bool {
    forall|i: int, j: int|
        0 <= i < e.len() && 0 <= j < e.len() && i != j ==> (#[trigger] e[i]).0@ != (
        #[trigger] e[j]).0@
}

proof fn lemma_table_dom<V>(e: Seq<(String, V)>, k: Seq<char>)
    ensures
        table_view(e).contains_key(k) <==> exists|i: int| 0 <= i < e.len() && (#[trigger] e[i]).0@
            == k,
    decreases e.len(),
{
    if e.len() > 0 {
        lemma_table_dom(e.drop_last(), k);
        if table_view(e).contains_key(k) && e.last().0@ != k {
            let i = choose|i: int| 0 <= i < e.len() - 1 && (#[trigger] e.drop_last()[i]).0@ == k;
            assert(e[i] == e.drop_last()[i]);
        }
        if exists|i: int| 0 <= i < e.len() && (#[trigger] e[i]).0@ == k {
            let i = choose|i: int| 0 <= i < e.len() && (#[trigger] e[i]).0@ == k;
            if i < e.len() - 1 {
                assert(e.drop_last()[i] == e[i]);
            }
        }
    }
}

proof fn lemma_table_at<V>(e: Seq<(String, V)>, i: int)
    requires
        keys_unique(e),
        0 <= i < e.len(),
    ensures
        table_view(e).contains_key(e[i].0@),
        table_view(e)[e[i].0@] == e[i].1,
    decreases e.len(),
{
    if i < e.len() - 1 {
        let d = e.drop_last();
        assert(d[i] == e[i]);
        assert(keys_unique(d)) by {
            assert forall|a: int, b: int|
                0 <= a < d.len() && 0 <= b < d.len() && a != b implies (#[trigger] d[a]).0@ != (
                #[trigger] d[b]).0@ by {
                assert(d[a] == e[a] && d[b] == e[b]);
            }
        }
        lemma_table_at(d, i);
        assert(e.last() == e[e.len() - 1]);
    }
}

proof fn lemma_table_update<V>(e: Seq<(String, V)>, i: int, x: (String, V))
    requires
        keys_unique(e),
        0 <= i < e.len(),
        x.0@ == e[i].0@,
    ensures
        keys_unique(e.update(i, x)),
        table_view(e.update(i, x)) == table_view(e).insert(x.0@, x.1),
{
    let f = e.update(i, x);
    assert(keys_unique(f)) by {
        assert forall|a: int, b: int|
            0 <= a < f.len() && 0 <= b < f.len() && a != b implies (#[trigger] f[a]).0@ != (
            #[trigger] f[b]).0@ by {
            assert(f[a].0@ == e[a].0@ && f[b].0@ == e[b].0@);
        }
    }
    let lhs = table_view(f);
    let rhs = table_view(e).insert(x.0@, x.1);
    assert forall|k: Seq<char>| #[trigger] lhs.contains_key(k) <==> rhs.contains_key(k) by {
        lemma_table_dom(f, k);
        lemma_table_dom(e, k);
        if exists|j: int| 0 <= j < e.len() && (#[trigger] e[j]).0@ == k {
            let j = choose|j: int| 0 <= j < e.len() && (#[trigger] e[j]).0@ == k;
            assert(f[j].0@ == k);
        }
        if exists|j: int| 0 <= j < f.len() && (#[trigger] f[j]).0@ == k {
            let j = choose|j: int| 0 <= j < f.len() && (#[trigger] f[j]).0@ == k;
            assert(e[j].0@ == k);
        }
    }
    assert forall|k: Seq<char>| #[trigger] lhs.contains_key(k) implies lhs[k] == rhs[k] by {
        lemma_table_dom(f, k);
        let j = choose|j: int| 0 <= j < f.len() && (#[trigger] f[j]).0@ == k;
        lemma_table_at(f, j);
        if j != i {
            assert(f[j] == e[j]);
            lemma_table_at(e, j);
        }
    }
    assert(lhs =~= rhs);
}

proof fn lemma_table_push<V>(e: Seq<(String, V)>, x: (String, V))
    requires
        keys_unique(e),
        !table_view(e).contains_key(x.0@),
    ensures
        keys_unique(e.push(x)),
        table_view(e.push(x)) == table_view(e).insert(x.0@, x.1),
{
    let f = e.push(x);
    assert(f.drop_last() =~= e);
    assert(keys_unique(f)) by {
        assert forall|a: int, b: int|
            0 <= a < f.len() && 0 <= b < f.len() && a != b implies (#[trigger] f[a]).0@ != (
            #[trigger] f[b]).0@ by {
            if a == e.len() {
                lemma_table_dom(e, x.0@);
                assert(f[b] == e[b]);
            } else if b == e.len() {
                lemma_table_dom(e, x.0@);
                assert(f[a] == e[a]);
            } else {
                assert(f[a] == e[a] && f[b] == e[b]);
            }
        }
    }
}

proof fn lemma_table_remove<V>(e: Seq<(String, V)>, i: int)
    requires
        keys_unique(e),
        0 <= i < e.len(),
    ensures
        keys_unique(e.remove(i)),
        table_view(e.remove(i)) == table_view(e).remove(e[i].0@),
{
    let f = e.remove(i);
    assert(keys_unique(f)) by {
        assert forall|a: int, b: int|
            0 <= a < f.len() && 0 <= b < f.len() && a != b implies (#[trigger] f[a]).0@ != (
            #[trigger] f[b]).0@ by {
            let a2 = if a < i {
                a
            } else {
                a + 1
            };
            let b2 = if b < i {
                b
            } else {
                b + 1
            };
            assert(f[a] == e[a2] && f[b] == e[b2]);
        }
    }
    let lhs = table_view(f);
    let rhs = table_view(e).remove(e[i].0@);
    assert forall|k: Seq<char>| #[trigger] lhs.contains_key(k) <==> rhs.contains_key(k) by {
        lemma_table_dom(f, k);
        lemma_table_dom(e, k);
        if exists|j: int| 0 <= j < f.len() && (#[trigger] f[j]).0@ == k {
            let j = choose|j: int| 0 <= j < f.len() && (#[trigger] f[j]).0@ == k;
            let j2 = if j < i {
                j
            } else {
                j + 1
            };
            assert(f[j] == e[j2]);
        }
        if k != e[i].0@ && exists|j: int| 0 <= j < e.len() && (#[trigger] e[j]).0@ == k {
            let j = choose|j: int| 0 <= j < e.len() && (#[trigger] e[j]).0@ == k;
            let j1 = if j < i {
                j
            } else {
                j - 1
            };
            assert(f[j1] == e[j]);
        }
    }
    assert forall|k: Seq<char>| #[trigger] lhs.contains_key(k) implies lhs[k] == rhs[k] by {
        lemma_table_dom(f, k);
        let j = choose|j: int| 0 <= j < f.len() && (#[trigger] f[j]).0@ == k;
        lemma_table_at(f, j);
        let j2 = if j < i {
            j
        } else {
            j + 1
        };
        assert(f[j] == e[j2]);
        lemma_table_at(e, j2);
    }
    assert(lhs =~= rhs);
}

/// A finite map from strings to values.
#[derive(Debug)]
pub struct Table<V> {
    entries: Vec<(String, V)>,
}

impl<V> View for Table<V> {
    type V = Map<Seq<char>, V>;

    closed spec fn view(&self) -> Map<Seq<char>, V> {
        table_view(self.entries@)
    }
}

proof fn lemma_table_len<V>(e: Seq<(String, V)>)
    requires
        keys_unique(e),
    ensures
        table_view(e).dom().finite(),
        table_view(e).len() == e.len(),
    decreases e.len(),
{
    if e.len() > 0 {
        let d = e.drop_last();
        assert(keys_unique(d)) by {
            assert forall|a: int, b: int|
                0 <= a < d.len() && 0 <= b < d.len() && a != b implies (#[trigger] d[a]).0@ != (
                #[trigger] d[b]).0@ by {
                assert(d[a] == e[a] && d[b] == e[b]);
            }
        }
        lemma_table_len(d);
        lemma_table_dom(d, e.last().0@);
        if table_view(d).contains_key(e.last().0@) {
            let j = choose|j: int| 0 <= j < d.len() && (#[trigger] d[j]).0@ == e.last().0@;
            assert(d[j] == e[j]);
            assert(e[e.len() - 1] == e.last());
        }
    }
}

impl<V> Table<V> {
    #[verifier::type_invariant]
    closed spec fn wf(self) -> bool {
        keys_unique(self.entries@)
    }

    /// An empty table.
    pub fn new() -> (r: Self)
        ensures
            r@ == Map::<Seq<char>, V>::empty(),
    {
        let r = Table { entries: Vec::new() };
        assert(r@ =~= Map::<Seq<char>, V>::empty());
        r
    }

    fn index_of(&self, key: &str) -> (r: Option<usize>)
        ensures
            match r {
                Some(i) => i < self.entries@.len() && self.entries@[i as int].0@ == key@,
                None => !self@.contains_key(key@),
            },
    {
        let mut i: usize = 0;
        while i < self.entries.len()
            invariant
                i <= self.entries@.len(),
                forall|j: int| 0 <= j < i ==> (#[trigger] self.entries@[j]).0@ != key@,
            decreases self.entries.len() - i,
        {
            if str_eq(self.entries[i].0.as_str(), key) {
                return Some(i);
            }
            i = i + 1;
        }
        proof {
            lemma_table_dom(self.entries@, key@);
        }
        None
    }

    /// The number of entries.
    pub fn len(&self) -> (r: usize)
        ensures
            self@.dom().finite(),
            r == self@.len(),
    {
        proof {
            use_type_invariant(self);
            lemma_table_len(self.entries@);
        }
        self.entries.len()
    }

    /// The value of `key`, if it has one.
    pub fn get(&self, key: &str) -> (r: Option<&V>)
        ensures
            match r {
                Some(v) => self@.contains_key(key@) && self@[key@] == *v,
                None => !self@.contains_key(key@),
            },
    {
        proof {
            use_type_invariant(self);
        }
        match self.index_of(key) {
            Some(i) => {
                proof {
                    lemma_table_at(self.entries@, i as int);
                }
                Some(&self.entries[i].1)
            },
            None => None,
        }
    }

    /// Whether `key` has a value.
    pub fn contains_key(&self, key: &str) -> (r: bool)
        ensures
            r == self@.contains_key(key@),
    {
        self.get(key).is_some()
    }

    /// Give `key` the value `value`, replacing an earlier one.
    pub fn insert(&mut self, key: &str, value: V)
        ensures
            final(self)@ == old(self)@.insert(key@, value),
    {
        proof {
            use_type_invariant(&*self);
        }
        let x = (owned(key), value);
        match self.index_of(key) {
            Some(i) => {
                proof {
                    lemma_table_update(self.entries@, i as int, x);
                }
                let mut entries: Vec<(String, V)> = Vec::new();
                std::mem::swap(&mut entries, &mut self.entries);
                entries.set(i, x);
                self.entries = entries;
            },
            None => {
                proof {
                    lemma_table_push(self.entries@, x);
                }
                let mut entries: Vec<(String, V)> = Vec::new();
                std::mem::swap(&mut entries, &mut self.entries);
                entries.push(x);
                self.entries = entries;
            },
        }
    }

    /// Take the value of `key` out of the table.
    pub fn remove(&mut self, key: &str) -> (r: Option<V>)
        ensures
            final(self)@ == old(self)@.remove(key@),
            match r {
                Some(v) => old(self)@.contains_key(key@) && old(self)@[key@] == v,
                None => !old(self)@.contains_key(key@),
            },
    {
        proof {
            use_type_invariant(&*self);
        }
        match self.index_of(key) {
            Some(i) => {
                proof {
                    lemma_table_remove(self.entries@, i as int);
                    lemma_table_at(self.entries@, i as int);
                }
                let mut entries: Vec<(String, V)> = Vec::new();
                std::mem::swap(&mut entries, &mut self.entries);
                let (_, v) = entries.remove(i);
                self.entries = entries;
                Some(v)
            },
            None => {
                assert(self@.remove(key@) =~= self@);
                None
            },
        }
    }

    /// The keys, each once.
    pub fn keys(&self) -> (r: Vec<String>)
        ensures
            views(r@).to_set() == self@.dom(),
            views(r@).no_duplicates(),
    {
        proof {
            use_type_invariant(self);
        }
        let mut r: Vec<String> = Vec::new();
        let mut i: usize = 0;
        while i < self.entries.len()
            invariant
                i <= self.entries@.len(),
                keys_unique(self.entries@),
                views(r@) == self.entries@.subrange(0, i as int).map_values(|x: (String, V)| x.0@),
            decreases self.entries.len() - i,
        {
            let ghost before = r@;
            let x = owned(self.entries[i].0.as_str());
            r.push(x);
            proof {
                lemma_views_push(before, x);
                assert(self.entries@.subrange(0, i + 1).map_values(|x: (String, V)| x.0@)
                    =~= self.entries@.subrange(0, i as int).map_values(|x: (String, V)| x.0@).push(
                    self.entries@[i as int].0@,
                ));
            }
            i = i + 1;
        }
        let ghost ks = views(r@);
        assert(self.entries@.subrange(0, i as int) =~= self.entries@);
        assert forall|k: Seq<char>| ks.to_set().contains(k) <==> self@.dom().contains(k) by {
            lemma_table_dom(self.entries@, k);
            if ks.contains(k) {
                let j = choose|j: int| 0 <= j < ks.len() && ks[j] == k;
                assert(self.entries@[j].0@ == k);
            }
            if exists|j: int| 0 <= j < self.entries@.len() && (#[trigger] self.entries@[j]).0@
                == k {
                let j = choose|j: int|
                    0 <= j < self.entries@.len() && (#[trigger] self.entries@[j]).0@ == k;
                assert(ks[j] == k);
            }
        }
        assert(ks.to_set() =~= self@.dom());
        assert(ks.no_duplicates()) by {
            assert forall|a: int, b: int|
                0 <= a < ks.len() && 0 <= b < ks.len() && a != b implies ks[a] != ks[b] by {
                assert(ks[a] == self.entries@[a].0@ && ks[b] == self.entries@[b].0@);
            }
        }
        r
    }
}

/// Whether `s` lists exactly the strings of `keys`, in strictly increasing
/// order.
pub open spec fn arranges(s: Seq<Seq<char>>, keys: Set<Seq<char>>) -> bool {
    &&& forall|i: int, j: int| 0 <= i < j < s.len() ==> lex_lt(#[trigger] s[i], #[trigger] s[j])
    &&& forall|i: int| 0 <= i < s.len() ==> keys.contains(#[trigger] s[i])
    &&& forall|k: Seq<char>| #[trigger] keys.contains(k) ==> s.contains(k)
}

/// The strings of `keys` in increasing order.
pub open spec fn in_order(keys: Set<Seq<char>>) -> Seq<Seq<char>> {
    choose|s: Seq<Seq<char>>| arranges(s, keys)
}

/// A set is arranged in increasing order in one way only.
pub proof fn lemma_arrangement_unique(a: Seq<Seq<char>>, b: Seq<Seq<char>>, keys: Set<Seq<char>>)
    requires
        arranges(a, keys),
        arranges(b, keys),
    ensures
        a == b,
    decreases a.len(),
{
    if a.len() == 0 {
        if b.len() > 0 {
            assert(keys.contains(b[0]));
            assert(a.contains(b[0]));
        }
        assert(a =~= b);
    } else {
        assert(keys.contains(a[0]));
        assert(b.contains(a[0]));
        let j = choose|j: int| 0 <= j < b.len() && b[j] == a[0];
        assert(keys.contains(b[0]));
        assert(a.contains(b[0]));
        let i = choose|i: int| 0 <= i < a.len() && a[i] == b[0];
        if j > 0 {
            assert(lex_lt(b[0], b[j]));
            if i > 0 {
                assert(lex_lt(a[0], a[i]));
                lemma_lex_total(a[0], b[0]);
            } else {
                lemma_lex_irreflexive(b[0]);
            }
        }
        assert(a[0] == b[0]);
        let k2 = keys.remove(a[0]);
        let a2 = a.drop_first();
        let b2 = b.drop_first();
        assert forall|x: int| 0 <= x < a2.len() implies k2.contains(#[trigger] a2[x]) by {
            assert(a2[x] == a[x + 1]);
            assert(lex_lt(a[0], a[x + 1]));
            lemma_lex_irreflexive(a[0]);
        }
        assert forall|x: int| 0 <= x < b2.len() implies k2.contains(#[trigger] b2[x]) by {
            assert(b2[x] == b[x + 1]);
            assert(lex_lt(b[0], b[x + 1]));
            lemma_lex_irreflexive(b[0]);
        }
        assert forall|k: Seq<char>| #[trigger] k2.contains(k) implies a2.contains(k) && b2.contains(k) by {
            assert(keys.contains(k));
            let x = choose|x: int| 0 <= x < a.len() && a[x] == k;
            let y = choose|y: int| 0 <= y < b.len() && b[y] == k;
            assert(a2[x - 1] == k);
            assert(b2[y - 1] == k);
        }
        assert forall|x: int, y: int| 0 <= x < y < a2.len() implies lex_lt(#[trigger] a2[x], #[trigger] a2[y]) by {
            assert(a2[x] == a[x + 1] && a2[y] == a[y + 1]);
        }
        assert forall|x: int, y: int| 0 <= x < y < b2.len() implies lex_lt(#[trigger] b2[x], #[trigger] b2[y]) by {
            assert(b2[x] == b[x + 1] && b2[y] == b[y + 1]);
        }
        lemma_arrangement_unique(a2, b2, k2);
        assert(a =~= b) by {
            assert forall|x: int| 0 <= x < a.len() implies a[x] == b[x] by {
                if x > 0 {
                    assert(a[x] == a2[x - 1] && b[x] == b2[x - 1]);
                }
            }
        }
    }
}

impl<V> Table<V> {
    /// The keys in increasing order.
    pub fn ordered_keys(&self) -> (r: Vec<String>)
        ensures
            views(r@) == in_order(self@.dom()),
            arranges(views(r@), self@.dom()),
    {
        let keys = self.keys();
        let ghost ks = views(keys@);
        let mut out: Vec<String> = Vec::new();
        let mut i: usize = 0;
        assert(arranges(views(out@), ks.subrange(0, 0).to_set())) by {
            assert(views(out@) =~= Seq::<Seq<char>>::empty());
        }
        while i < keys.len()
            invariant
                i <= keys@.len(),
                ks == views(keys@),
                ks.no_duplicates(),
                arranges(views(out@), ks.subrange(0, i as int).to_set()),
            decreases keys.len() - i,
        {
            let x = &keys[i];
            let ghost o = views(out@);
            let ghost before_set = ks.subrange(0, i as int).to_set();
            assert(ks[i as int] == x@);
            let mut p: usize = 0;
            while p < out.len() && !lex_less(x.as_str(), out[p].as_str())
                invariant
                    p <= out@.len(),
                    o == views(out@),
                    forall|q: int| 0 <= q < p ==> !lex_lt(x@, #[trigger] o[q]),
                decreases out.len() - p,
            {
                assert(o[p as int] == out@[p as int]@);
                p = p + 1;
            }
            proof {
                if p < out.len() {
                    assert(o[p as int] == out@[p as int]@);
                }
            }
            // x is new: the earlier keys are the ones already placed.
            assert forall|q: int| 0 <= q < o.len() implies #[trigger] o[q] != x@ by {
                assert(before_set.contains(o[q]));
                let s0 = ks.subrange(0, i as int);
                assert(s0.contains(o[q]));
                let z = choose|z: int| 0 <= z < s0.len() && s0[z] == o[q];
                assert(ks[z] == o[q]);
            }
            let y = owned(x.as_str());
            let ghost ob = out@;
            out.insert(p, y);
            proof {
                let n = views(out@);
                assert(n =~= o.insert(p as int, x@)) by {
                    assert forall|q: int| 0 <= q < n.len() implies n[q] == o.insert(p as int, x@)[q] by {
                        assert(n[q] == out@[q]@);
                    }
                }
                let after_set = ks.subrange(0, i + 1).to_set();
                assert(after_set =~= before_set.insert(x@)) by {
                    assert(ks.subrange(0, i + 1) =~= ks.subrange(0, i as int).push(x@));
                    assert forall|k: Seq<char>| after_set.contains(k) <==> before_set.insert(x@).contains(k) by {
                        let s1 = ks.subrange(0, i + 1);
                        let s0 = ks.subrange(0, i as int);
                        if s1.contains(k) {
                            let z = choose|z: int| 0 <= z < s1.len() && s1[z] == k;
                            if z < i {
                                assert(s0[z] == k);
                            }
                        }
                        if before_set.contains(k) {
                            let z = choose|z: int| 0 <= z < s0.len() && s0[z] == k;
                            assert(s1[z] == k);
                        }
                        if k == x@ {
                            assert(ks.subrange(0, i + 1)[i as int] == k);
                        }
                    }
                }
                assert forall|q: int| 0 <= q < p implies lex_lt(#[trigger] o[q], x@) by {
                    lemma_lex_total(o[q], x@);
                }
                assert forall|q: int| p <= q < o.len() implies lex_lt(x@, #[trigger] o[q]) by {
                    if q > p {
                        lemma_lex_transitive(x@, o[p as int], o[q]);
                    }
                }
                assert forall|a: int, b: int| 0 <= a < b < n.len() implies lex_lt(#[trigger] n[a], #[trigger] n[b]) by {
                    if b < p {
                        assert(n[a] == o[a] && n[b] == o[b]);
                    } else if b == p {
                        assert(n[a] == o[a] && n[b] == x@);
                    } else if a < p {
                        assert(n[a] == o[a] && n[b] == o[b - 1]);
                        lemma_lex_transitive(o[a], x@, o[b - 1]);
                    } else if a == p {
                        assert(n[a] == x@ && n[b] == o[b - 1]);
                    } else {
                        assert(n[a] == o[a - 1] && n[b] == o[b - 1]);
                    }
                }
                assert forall|q: int| 0 <= q < n.len() implies after_set.contains(#[trigger] n[q]) by {
                    if q < p {
                        assert(n[q] == o[q]);
                    } else if q > p {
                        assert(n[q] == o[q - 1]);
                    }
                }
                assert forall|k: Seq<char>| #[trigger] after_set.contains(k) implies n.contains(k) by {
                    if k == x@ {
                        assert(n[p as int] == k);
                    } else {
                        assert(o.contains(k));
                        let z = choose|z: int| 0 <= z < o.len() && o[z] == k;
                        if z < p {
                            assert(n[z] == k);
                        } else {
                            assert(n[z + 1] == k);
                        }
                    }
                }
            }
            i = i + 1;
        }
        proof {
            assert(ks.subrange(0, i as int) =~= ks);
            assert(ks.to_set() =~= self@.dom());
            assert(arranges(views(out@), self@.dom()));
            lemma_arrangement_unique(views(out@), in_order(self@.dom()), self@.dom());
        }
        out
    }
}

} // verus!
