//! Matching a resource URI against a template whose `{param}` segments
//! stand for any non-empty segment.
use vstd::prelude::*;

use crate::text::{chars_eq, chars_of, find_char, find_char_exec, slice_chars};

verus! {

/// `s` cut at every `c`, as `str::split` cuts it.
pub open spec fn split(s: Seq<char>, c: char) -> Seq<Seq<char>>
    decreases s.len(),
{
    let k = find_char(s, c);
    if k < s.len() {
        seq![s.subrange(0, k as int)] + split(s.subrange(k + 1int, s.len() as int), c)
    } else {
        seq![s]
    }
}

/// The views of a list of character vectors.
pub open spec fn vec_views(v: Seq<Vec<char>>) -> Seq<Seq<char>> {
    v.map_values(|x: Vec<char>| x@)
}

/// `v` cut at every `c`.
pub fn split_chars(v: &Vec<char>, c: char) -> (r: Vec<Vec<char>>)
    ensures
        vec_views(r@) == split(v@, c),
    decreases v.len(),
{
    let k = find_char_exec(v, c);
    if k < v.len() {
        let head = slice_chars(v, 0, k);
        let tail = slice_chars(v, k + 1, v.len());
        let rest = split_chars(&tail, c);
        let mut r: Vec<Vec<char>> = Vec::new();
        r.push(head);
        let mut i: usize = 0;
        while i < rest.len()
            invariant
                i <= rest@.len(),
                vec_views(r@) == seq![v@.subrange(0, k as int)] + vec_views(rest@).subrange(
                    0,
                    i as int,
                ),
            decreases rest.len() - i,
        {
            let x = slice_chars(&rest[i], 0, rest[i].len());
            let ghost before = r@;
            r.push(x);
            proof {
                assert(rest@[i as int]@.subrange(0, rest@[i as int]@.len() as int) =~= rest@[i as int]@);
                assert(vec_views(r@) =~= vec_views(before).push(x@));
                assert(vec_views(rest@).subrange(0, i + 1) =~= vec_views(rest@).subrange(
                    0,
                    i as int,
                ).push(rest@[i as int]@));
            }
            i = i + 1;
        }
        assert(vec_views(rest@).subrange(0, rest@.len() as int) =~= vec_views(rest@));
        r
    } else {
        let whole = slice_chars(v, 0, v.len());
        assert(v@.subrange(0, v@.len() as int) =~= v@);
        let r = vec![whole];
        assert(vec_views(r@) =~= seq![v@]);
        r
    }
}

/// Whether template segment `t` admits URI segment `u`: a `{param}`
/// segment admits any non-empty one, any other only itself.
pub open spec fn segment_matches(t: Seq<char>, u: Seq<char>) -> bool {
    if t.len() > 0 && t[0] == '{' && t.last() == '}' {
        u.len() > 0
    } else {
        t == u
    }
}

/// Whether `uri` fits `template`: as many `/`-separated segments, each
/// admitted by its template segment.
pub open spec fn spec_matches_template(template: Seq<char>, uri: Seq<char>) -> bool {
    let t = split(template, '/');
    let u = split(uri, '/');
    t.len() == u.len() && forall|i: int| 0 <= i < t.len() ==> segment_matches(#[trigger] t[i], u[i])
}

/// Whether `uri` fits `template`, whose `{param}` segments each stand for
/// any non-empty path segment.
pub fn matches_template(template: &str, uri: &str) -> (r: bool)
    ensures
        r == spec_matches_template(template@, uri@),
{
    let t = split_chars(&chars_of(template), '/');
    let u = split_chars(&chars_of(uri), '/');
    if t.len() != u.len() {
        return false;
    }
    let mut i: usize = 0;
    while i < t.len()
        invariant
            i <= t@.len(),
            t@.len() == u@.len(),
            vec_views(t@) == split(template@, '/'),
            vec_views(u@) == split(uri@, '/'),
            forall|j: int| 0 <= j < i ==> segment_matches(#[trigger] vec_views(t@)[j], vec_views(u@)[j]),
        decreases t.len() - i,
    {
        let ts = &t[i];
        let us = &u[i];
        let ok = if ts.len() > 0 && ts[0] == '{' && ts[ts.len() - 1] == '}' {
            us.len() > 0
        } else {
            chars_eq(ts, us)
        };
        assert(vec_views(t@)[i as int] == ts@ && vec_views(u@)[i as int] == us@);
        if !ok {
            return false;
        }
        i = i + 1;
    }
    true
}

} // verus!
