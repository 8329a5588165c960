//! The arguments of the `#[server(...)]` attribute: `name`, `version` and
//! `description`, each a string literal.
use vstd::prelude::*;

use crate::text::owned;

verus! {

/// Parsed server attributes.
#[derive(Debug)]
pub struct ServerArgs {
    /// Server name; `mcp-server` when not given.
    pub name: String,
    /// Server version; `1.0.0` when not given.
    pub version: String,
    /// Description, if given.
    pub description: Option<String>,
}

/// The value the last `key = "..."` pair gives, if any.
pub open spec fn last_value(pairs: Seq<(Seq<char>, Seq<char>)>, key: Seq<char>) -> Option<Seq<char>>
    decreases pairs.len(),
{
    if pairs.len() == 0 {
        None
    } else if pairs.last().0 == key {
        Some(pairs.last().1)
    } else {
        last_value(pairs.drop_last(), key)
    }
}

/// The views of `key = "value"` pairs.
pub open spec fn arg_views(pairs: Seq<(String, String)>) -> Seq<(Seq<char>, Seq<char>)> {
    pairs.map_values(|p: (String, String)| (p.0@, p.1@))
}

impl ServerArgs {
    /// The arguments written as `key = "value"` pairs: a later pair of the
    /// same key wins, other keys are ignored, and a missing name or version
    /// takes its default.
    pub fn from_pairs(pairs: &[(String, String)]) -> (r: Self)
        ensures
            r.name@ == match last_value(arg_views(pairs@), "name"@) {
                Some(v) => v,
                None => "mcp-server"@,
            },
            r.version@ == match last_value(arg_views(pairs@), "version"@) {
                Some(v) => v,
                None => "1.0.0"@,
            },
            match last_value(arg_views(pairs@), "description"@) {
                Some(v) => r.description matches Some(d) && d@ == v,
                None => r.description is None,
            },
    {
        let mut name: Option<String> = None;
        let mut version: Option<String> = None;
        let mut description: Option<String> = None;
        let mut i: usize = 0;
        while i < pairs.len()
            invariant
                i <= pairs@.len(),
                crate::wasi::http::opt_view(name) == last_value(
                    arg_views(pairs@.subrange(0, i as int)),
                    "name"@,
                ),
                crate::wasi::http::opt_view(version) == last_value(
                    arg_views(pairs@.subrange(0, i as int)),
                    "version"@,
                ),
                crate::wasi::http::opt_view(description) == last_value(
                    arg_views(pairs@.subrange(0, i as int)),
                    "description"@,
                ),
            decreases pairs.len() - i,
        {
            let (k, v) = &pairs[i];
            let key = k.as_str();
            if crate::text::str_eq(key, "name") {
                name = Some(owned(v.as_str()));
            } else if crate::text::str_eq(key, "version") {
                version = Some(owned(v.as_str()));
            } else if crate::text::str_eq(key, "description") {
                description = Some(owned(v.as_str()));
            }
            proof {
                reveal_strlit("name");
                reveal_strlit("version");
                reveal_strlit("description");
                assert("name"@ != "version"@ && "name"@ != "description"@ && "version"@
                    != "description"@) by {
                    assert("name"@.len() == 4 && "version"@.len() == 7 && "description"@.len()
                        == 11);
                }
                let a = arg_views(pairs@.subrange(0, i + 1));
                assert(a.drop_last() =~= arg_views(pairs@.subrange(0, i as int)));
                assert(a.last() == (k@, v@));
            }
            i = i + 1;
        }
        assert(pairs@.subrange(0, pairs@.len() as int) =~= pairs@);
        ServerArgs {
            name: match name {
                Some(n) => n,
                None => owned("mcp-server"),
            },
            version: match version {
                Some(v) => v,
                None => owned("1.0.0"),
            },
            description,
        }
    }
}

} // verus!
