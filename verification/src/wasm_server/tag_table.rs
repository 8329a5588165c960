//! A table from names to tag sets: what each tool, resource or prompt is
//! tagged with, and which tags each session has switched on or off.
use vstd::prelude::*;

use crate::table::Table;
use crate::text::{lemma_views_prefix, lemma_views_push, owned, str_eq, views};

verus! {

/// The set of tags a list holds.
pub open spec fn tag_set(tags: Seq<String>) -> Set<Seq<char>> {
    views(tags).to_set()
}

/// A finite table from names to tag sets.
#[derive(Debug)]
pub struct TagTable {
    table: Table<Vec<String>>,
}

impl View for TagTable {
    type V = Map<Seq<char>, Set<Seq<char>>>;

    closed spec fn view(&self) -> Map<Seq<char>, Set<Seq<char>>> {
        self.table@.map_values(|v: Vec<String>| tag_set(v@))
    }
}

/// The tags of `key` in `t`, none when it has no entry.
pub open spec fn tags_in(t: Map<Seq<char>, Set<Seq<char>>>, key: Seq<char>) -> Set<Seq<char>> {
    if t.contains_key(key) {
        t[key]
    } else {
        Set::empty()
    }
}

fn clone_tags(v: &Vec<String>) -> (r: Vec<String>)
    ensures
        views(r@) == views(v@),
{
    let mut r: Vec<String> = Vec::new();
    let mut i: usize = 0;
    while i < v.len()
        invariant
            i <= v@.len(),
            views(r@) == views(v@.subrange(0, i as int)),
        decreases v.len() - i,
    {
        let ghost before = r@;
        let x = owned(v[i].as_str());
        r.push(x);
        proof {
            lemma_views_push(before, x);
            lemma_views_prefix(v@, i as int);
        }
        i = i + 1;
    }
    assert(v@.subrange(0, v@.len() as int) =~= v@);
    r
}

/// Whether `s` is among `tags`.
pub fn has_tag(tags: &Vec<String>, s: &str) -> (r: bool)
    ensures
        r == tag_set(tags@).contains(s@),
{
    let mut i: usize = 0;
    while i < tags.len()
        invariant
            i <= tags@.len(),
            forall|j: int| 0 <= j < i ==> (#[trigger] tags@[j])@ != s@,
        decreases tags.len() - i,
    {
        if str_eq(tags[i].as_str(), s) {
            assert(views(tags@)[i as int] == s@);
            return true;
        }
        i = i + 1;
    }
    proof {
        if tag_set(tags@).contains(s@) {
            let j = choose|j: int| 0 <= j < views(tags@).len() && views(tags@)[j] == s@;
            assert(tags@[j]@ == s@);
        }
    }
    false
}

/// Whether any of `component` is among `tags`.
pub fn any_tag(component: &[String], tags: &Vec<String>) -> (r: bool)
    ensures
        r == exists|i: int|
            0 <= i < component@.len() && tag_set(tags@).contains(#[trigger] component@[i]@),
{
    let mut i: usize = 0;
    while i < component.len()
        invariant
            i <= component@.len(),
            forall|j: int| 0 <= j < i ==> !tag_set(tags@).contains(#[trigger] component@[j]@),
        decreases component.len() - i,
    {
        if has_tag(tags, component[i].as_str()) {
            return true;
        }
        i = i + 1;
    }
    false
}

/// `tags` with each of `more` added.
fn union_tags(tags: &Vec<String>, more: &[String]) -> (r: Vec<String>)
    ensures
        tag_set(r@) == tag_set(tags@).union(tag_set(more@)),
{
    let mut r = clone_tags(tags);
    let mut i: usize = 0;
    while i < more.len()
        invariant
            i <= more@.len(),
            views(r@) == views(tags@) + views(more@.subrange(0, i as int)),
        decreases more.len() - i,
    {
        let ghost before = r@;
        let x = owned(more[i].as_str());
        r.push(x);
        proof {
            lemma_views_push(before, x);
            lemma_views_prefix(more@, i as int);
            assert(views(r@) =~= views(tags@) + views(more@.subrange(0, i + 1)));
        }
        i = i + 1;
    }
    assert(more@.subrange(0, more@.len() as int) =~= more@);
    assert(tag_set(r@) =~= tag_set(tags@).union(tag_set(more@))) by {
        assert forall|x: Seq<char>| tag_set(r@).contains(x) <==> tag_set(tags@).union(
            tag_set(more@),
        ).contains(x) by {
            let a = views(tags@);
            let b = views(more@);
            if tag_set(r@).contains(x) {
                let j = choose|j: int| 0 <= j < (a + b).len() && (a + b)[j] == x;
                if j < a.len() {
                    assert(a[j] == x);
                } else {
                    assert(b[j - a.len()] == x);
                }
            }
            if a.contains(x) {
                let j = choose|j: int| 0 <= j < a.len() && a[j] == x;
                assert((a + b)[j] == x);
            }
            if b.contains(x) {
                let j = choose|j: int| 0 <= j < b.len() && b[j] == x;
                assert((a + b)[a.len() + j] == x);
            }
        }
    }
    r
}

/// `tags` without any of `less`.
fn remove_tags(tags: &Vec<String>, less: &[String]) -> (r: Vec<String>)
    ensures
        tag_set(r@) == tag_set(tags@).difference(views(less@).to_set()),
{
    let mut r: Vec<String> = Vec::new();
    let mut i: usize = 0;
    while i < tags.len()
        invariant
            i <= tags@.len(),
            tag_set(r@) == tag_set(tags@.subrange(0, i as int)).difference(views(less@).to_set()),
        decreases tags.len() - i,
    {
        let t = tags[i].as_str();
        let mut drop = false;
        let mut j: usize = 0;
        while j < less.len()
            invariant
                j <= less@.len(),
                drop == exists|k: int| 0 <= k < j && (#[trigger] less@[k])@ == t@,
            decreases less.len() - j,
        {
            if str_eq(less[j].as_str(), t) {
                drop = true;
            }
            j = j + 1;
        }
        proof {
            if drop {
                let k = choose|k: int| 0 <= k < less@.len() && (#[trigger] less@[k])@ == t@;
                assert(views(less@)[k] == t@);
            }
            if views(less@).to_set().contains(t@) {
                let k = choose|k: int| 0 <= k < views(less@).len() && views(less@)[k] == t@;
                assert(less@[k]@ == t@);
            }
        }
        let ghost before = r@;
        if !drop {
            let x = owned(t);
            r.push(x);
            proof {
                lemma_views_push(before, x);
                views(before).lemma_push_to_set_commute(t@);
            }
        }
        proof {
            lemma_views_prefix(tags@, i as int);
            views(tags@.subrange(0, i as int)).lemma_push_to_set_commute(t@);
        }
        i = i + 1;
        proof {
            let new_set = tag_set(tags@.subrange(0, i as int));
            assert(tag_set(r@) =~= new_set.difference(views(less@).to_set()));
        }
    }
    assert(tags@.subrange(0, tags@.len() as int) =~= tags@);
    r
}

impl TagTable {
    /// An empty table.
    pub fn new() -> (r: Self)
        ensures
            r@ == Map::<Seq<char>, Set<Seq<char>>>::empty(),
    {
        let r = TagTable { table: Table::new() };
        assert(r@ =~= Map::<Seq<char>, Set<Seq<char>>>::empty());
        r
    }

    /// The tags of `key`, if it has an entry.
    pub fn get(&self, key: &str) -> (r: Option<&Vec<String>>)
        ensures
            match r {
                Some(v) => self@.contains_key(key@) && self@[key@] == tag_set(v@),
                None => !self@.contains_key(key@),
            },
    {
        self.table.get(key)
    }

    /// Whether `key` has an entry.
    pub fn contains_key(&self, key: &str) -> (r: bool)
        ensures
            r == self@.contains_key(key@),
    {
        self.table.contains_key(key)
    }

    /// Give `key` exactly `tags`.
    pub fn set(&mut self, key: &str, tags: &[String])
        ensures
            final(self)@ == old(self)@.insert(key@, tag_set(tags@)),
    {
        let mut v: Vec<String> = Vec::new();
        let mut j: usize = 0;
        while j < tags.len()
            invariant
                j <= tags@.len(),
                views(v@) == views(tags@.subrange(0, j as int)),
            decreases tags.len() - j,
        {
            let ghost before = v@;
            let x = owned(tags[j].as_str());
            v.push(x);
            proof {
                lemma_views_push(before, x);
                lemma_views_prefix(tags@, j as int);
            }
            j = j + 1;
        }
        assert(tags@.subrange(0, tags@.len() as int) =~= tags@);
        self.put(key, v);
    }

    fn put(&mut self, key: &str, tags: Vec<String>)
        ensures
            final(self)@ == old(self)@.insert(key@, tag_set(tags@)),
    {
        let ghost t = tag_set(tags@);
        self.table.insert(key, tags);
        assert(self@ =~= old(self)@.insert(key@, t));
    }

    /// Add `tags` to those of `key`, creating its entry when it has none.
    pub fn add(&mut self, key: &str, tags: &[String])
        ensures
            final(self)@ == old(self)@.insert(key@, tags_in(old(self)@, key@).union(tag_set(tags@))),
    {
        let merged = match self.get(key) {
            Some(current) => union_tags(current, tags),
            None => {
                let empty: Vec<String> = Vec::new();
                let r = union_tags(&empty, tags);
                assert(tag_set(empty@) =~= Set::empty());
                r
            },
        };
        self.put(key, merged);
    }

    /// Take `tags` out of those of `key`; a key without an entry keeps none.
    pub fn subtract(&mut self, key: &str, tags: &[String])
        ensures
            old(self)@.contains_key(key@) ==> final(self)@ == old(self)@.insert(
                key@,
                old(self)@[key@].difference(views(tags@).to_set()),
            ),
            !old(self)@.contains_key(key@) ==> final(self)@ == old(self)@,
    {
        let kept = match self.get(key) {
            Some(current) => remove_tags(current, tags),
            None => return ,
        };
        self.put(key, kept);
    }

    /// Drop the entry of `key`.
    pub fn remove(&mut self, key: &str)
        ensures
            final(self)@ == old(self)@.remove(key@),
    {
        let _ = self.table.remove(key);
        assert(self@ =~= old(self)@.remove(key@));
    }

    /// The keys with an entry, each once.
    pub fn keys(&self) -> (r: Vec<String>)
        ensures
            views(r@).to_set() == self@.dom(),
            views(r@).no_duplicates(),
    {
        self.table.keys()
    }
}

} // verus!
