//! Request headers, keyed by lower-case name.
use vstd::prelude::*;

use crate::text::{owned, str_eq};

verus! {

/// The value of the first entry named `name`, if any.
pub open spec fn lookup(entries: Seq<(String, String)>, name: Seq<char>) -> Option<Seq<char>>
    decreases entries.len(),
{
    if entries.len() == 0 {
        None
    } else if entries[0].0@ == name {
        Some(entries[0].1@)
    } else {
        lookup(entries.drop_first(), name)
    }
}

/// Index of the first entry named `name`, or the length when there is none.
pub open spec fn entry_index(entries: Seq<(String, String)>, name: Seq<char>) -> int
    decreases entries.len(),
{
    if entries.len() == 0 {
        0
    } else if entries[0].0@ == name {
        0
    } else {
        1 + entry_index(entries.drop_first(), name)
    }
}

/// `entry_index` and `lookup` are pinned by the first position named `name`.
pub proof fn lemma_entry_at(entries: Seq<(String, String)>, name: Seq<char>, k: int)
    requires
        0 <= k <= entries.len(),
        forall|j: int| 0 <= j < k ==> (#[trigger] entries[j]).0@ != name,
        k < entries.len() ==> entries[k].0@ == name,
    ensures
        entry_index(entries, name) == k,
        lookup(entries, name) == (if k < entries.len() {
            Some(entries[k].1@)
        } else {
            None
        }),
    decreases k,
{
    if k > 0 {
        let t = entries.drop_first();
        assert forall|j: int| 0 <= j < k - 1 implies (#[trigger] t[j]).0@ != name by {
            assert(t[j] == entries[j + 1]);
        }
        lemma_entry_at(t, name, k - 1);
    }
}

/// The views of a list of string pairs.
pub open spec fn pair_views(v: Seq<(String, String)>) -> Seq<(Seq<char>, Seq<char>)> {
    v.map_values(|p: (String, String)| (p.0@, p.1@))
}

/// Append the pair `(name, value)`.
pub fn push_pair(v: &mut Vec<(String, String)>, name: &str, value: &str)
    ensures
        pair_views(final(v)@) == pair_views(old(v)@).push((name@, value@)),
{
    v.push((owned(name), owned(value)));
    assert(pair_views(v@) =~= pair_views(old(v)@).push((name@, value@)));
}

/// HTTP request headers, names lower-case as the Fetch API hands them over.
#[derive(Debug, Clone)]
pub struct HeaderMap {
    entries: Vec<(String, String)>,
}

impl View for HeaderMap {
    type V = Seq<(String, String)>;

    closed spec fn view(&self) -> Seq<(String, String)> {
        self.entries@
    }
}

impl HeaderMap {
    /// The value of header `name`, as a view.
    pub open spec fn spec_get(self, name: Seq<char>) -> Option<Seq<char>> {
        lookup(self@, name)
    }

    /// No headers.
    pub fn new() -> (r: Self)
        ensures
            r@.len() == 0,
    {
        HeaderMap { entries: Vec::new() }
    }

    /// Set header `name` to `value`, replacing an earlier value.
    pub fn insert(&mut self, name: &str, value: &str)
        ensures
            entry_index(old(self)@, name@) < old(self)@.len() ==> pair_views(final(self)@)
                == pair_views(old(self)@).update(entry_index(old(self)@, name@), (name@, value@)),
            entry_index(old(self)@, name@) >= old(self)@.len() ==> pair_views(final(self)@)
                == pair_views(old(self)@).push((name@, value@)),
            final(self).spec_get(name@) == Some(value@),
            forall|other: Seq<char>|
                other != name@ ==> #[trigger] final(self).spec_get(other) == old(self).spec_get(
                    other,
                ),
    {
        let mut i: usize = 0;
        while i < self.entries.len()
            invariant
                i <= self.entries@.len(),
                self.entries@ == old(self).entries@,
                forall|j: int| 0 <= j < i ==> (#[trigger] self.entries@[j]).0@ != name@,
            decreases self.entries.len() - i,
        {
            if str_eq(self.entries[i].0.as_str(), name) {
                let ghost before = self.entries@;
                self.entries.set(i, (owned(name), owned(value)));
                proof {
                    lemma_entry_at(before, name@, i as int);
                    assert(pair_views(self.entries@) =~= pair_views(before).update(
                        i as int,
                        (name@, value@),
                    ));
                    lemma_entry_at(self.entries@, name@, i as int);
                    assert forall|other: Seq<char>| other != name@ implies #[trigger] lookup(
                        self.entries@,
                        other,
                    ) == lookup(before, other) by {
                        let k = entry_index(before, other);
                        lemma_entry_index(before, other);
                        lemma_entry_at(before, other, k);
                        assert(k != i);
                        assert forall|j: int| 0 <= j < k implies (
                        #[trigger] self.entries@[j]).0@ != other by {
                            if j != i {
                                assert(self.entries@[j] == before[j]);
                            }
                        }
                        if k < before.len() {
                            assert(self.entries@[k] == before[k]);
                        }
                        lemma_entry_at(self.entries@, other, k);
                    }
                }
                return ;
            }
            i = i + 1;
        }
        let ghost before = self.entries@;
        self.entries.push((owned(name), owned(value)));
        proof {
            lemma_entry_at(before, name@, i as int);
            assert(pair_views(self.entries@) =~= pair_views(before).push((name@, value@)));
            lemma_entry_at(self.entries@, name@, i as int);
            assert forall|other: Seq<char>| other != name@ implies #[trigger] lookup(
                self.entries@,
                other,
            ) == lookup(before, other) by {
                let k = entry_index(before, other);
                lemma_entry_index(before, other);
                lemma_entry_at(before, other, k);
                if k < before.len() {
                    assert forall|j: int| 0 <= j < k implies (#[trigger] self.entries@[j]).0@
                        != other by {
                        assert(self.entries@[j] == before[j]);
                    }
                    assert(self.entries@[k] == before[k]);
                    lemma_entry_at(self.entries@, other, k);
                } else {
                    assert forall|j: int| 0 <= j < self.entries@.len() implies (
                    #[trigger] self.entries@[j]).0@ != other by {
                        if j < before.len() {
                            assert(self.entries@[j] == before[j]);
                        }
                    }
                    lemma_entry_at(self.entries@, other, self.entries@.len() as int);
                }
            }
        }
    }

    /// The value of header `name`, if any.
    pub fn get(&self, name: &str) -> (r: Option<&String>)
        ensures
            match r {
                Some(v) => self.spec_get(name@) == Some(v@),
                None => self.spec_get(name@).is_none(),
            },
    {
        let mut i: usize = 0;
        while i < self.entries.len()
            invariant
                i <= self.entries@.len(),
                forall|j: int| 0 <= j < i ==> (#[trigger] self.entries@[j]).0@ != name@,
            decreases self.entries.len() - i,
        {
            if str_eq(self.entries[i].0.as_str(), name) {
                proof {
                    lemma_entry_at(self.entries@, name@, i as int);
                }
                return Some(&self.entries[i].1);
            }
            i = i + 1;
        }
        proof {
            lemma_entry_at(self.entries@, name@, i as int);
        }
        None
    }

    /// Every entry, in order.
    pub fn pairs(&self) -> (r: Vec<(String, String)>)
        ensures
            pair_views(r@) == pair_views(self@),
    {
        let mut r: Vec<(String, String)> = Vec::new();
        let mut i: usize = 0;
        while i < self.entries.len()
            invariant
                i <= self.entries@.len(),
                pair_views(r@) == pair_views(self.entries@.subrange(0, i as int)),
            decreases self.entries.len() - i,
        {
            let (k, v) = &self.entries[i];
            push_pair(&mut r, k.as_str(), v.as_str());
            i = i + 1;
            assert(pair_views(self.entries@.subrange(0, i as int)) =~= pair_views(
                self.entries@.subrange(0, i - 1 as int),
            ).push((k@, v@)));
        }
        assert(self.entries@.subrange(0, i as int) =~= self.entries@);
        r
    }

    /// Whether header `name` is present.
    pub fn contains_key(&self, name: &str) -> (r: bool)
        ensures
            r == self.spec_get(name@).is_some(),
    {
        self.get(name).is_some()
    }
}

/// `entry_index` is the first position named `name`.
pub proof fn lemma_entry_index(entries: Seq<(String, String)>, name: Seq<char>)
    ensures
        0 <= entry_index(entries, name) <= entries.len(),
        forall|j: int| 0 <= j < entry_index(entries, name) ==> (#[trigger] entries[j]).0@ != name,
        entry_index(entries, name) < entries.len() ==> entries[entry_index(entries, name)].0@
            == name,
    decreases entries.len(),
{
    if entries.len() > 0 && entries[0].0@ != name {
        let t = entries.drop_first();
        lemma_entry_index(t, name);
        assert forall|j: int| 0 <= j < entry_index(entries, name) implies (
        #[trigger] entries[j]).0@ != name by {
            if j > 0 {
                assert(entries[j] == t[j - 1]);
            }
        }
    }
}

} // verus!
