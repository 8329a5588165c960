//! Server composition: mounting servers under prefixes, minting the names
//! they are exposed under, and routing a name back to its mount.
//!
//! Tools and prompts are exposed as `{prefix}_{name}`, resources as
//! `{prefix}://{uri}`. A name is routed to the mount whose prefix it starts
//! with, the longest one should two qualify, so a prefix may itself hold `_`.
use vstd::prelude::*;
use vstd::utf8::{char_is_scalar, encode_scalar, encode_utf8, has_width_1_encoding, has_width_2_encoding, has_width_3_encoding};

use crate::table::in_order;
use crate::text::{chars_of, has_prefix, matches_at, owned, push_str, string_of};
use crate::wasm_server::server::{
    argument_views, server_capabilities, opt_chars, prompt_answer, read_answer, ArgumentsShape, Capabilities, McpServer,
    PromptArgument, PromptInfo, PromptView, Registrations, ResourceInfo, ResourceTemplateInfo,
    ResourceView, ServerError, TemplateView, ToolInfo, ToolView,
};

verus! {

/// Whether `c` may appear in a prefix: ASCII letters and digits, `_`, `-`,
/// `.`, so the names a prefix mints stay valid MCP tool names.
pub open spec fn prefix_char(c: char) -> bool {
    ('a' <= c && c <= 'z') || ('A' <= c && c <= 'Z') || ('0' <= c && c <= '9') || c == '_' || c
        == '-' || c == '.'
}

/// Whether every character of `p` may appear in a prefix.
pub open spec fn prefix_chars(p: Seq<char>) -> bool {
    forall|i: int| 0 <= i < p.len() ==> prefix_char(#[trigger] p[i])
}

/// Whether `a` extends `b` by `_` and more: `b_...`.
pub open spec fn nests_under(a: Seq<char>, b: Seq<char>) -> bool {
    has_prefix(a, b) && a.len() > b.len() && a[b.len() as int] == '_'
}

/// Why a prefix is refused next to those already mounted, if it is.
pub open spec fn spec_validate_prefix(prefix: Seq<char>, mounted: Seq<Seq<char>>) -> Option<
    Seq<char>,
> {
    if encode_utf8(prefix).len() == 0 || encode_utf8(prefix).len() > 64 {
        Some("prefix '"@ + prefix + "' must be between 1 and 64 characters"@)
    } else if !prefix_chars(prefix) {
        Some(
            "prefix '"@ + prefix
                + "' may contain only A-Z a-z 0-9 _ - . so that the names it mints stay valid MCP tool names"@,
        )
    } else {
        first_conflict(prefix, mounted)
    }
}

/// The refusal the first conflicting mounted prefix causes, if any.
pub open spec fn first_conflict(prefix: Seq<char>, mounted: Seq<Seq<char>>) -> Option<Seq<char>>
    decreases mounted.len(),
{
    if mounted.len() == 0 {
        None
    } else {
        let other = mounted[0];
        if other == prefix {
            Some(
                "duplicate prefix '"@ + prefix
                    + "' - each mounted server must have a unique prefix"@,
            )
        } else if nests_under(prefix, other) || nests_under(other, prefix) {
            Some(
                "prefix '"@ + prefix + "' nests with already-mounted '"@ + other
                    + "'; one could mint the same tool name as the other and silently shadow it"@,
            )
        } else {
            first_conflict(prefix, mounted.drop_first())
        }
    }
}

/// Whether a set of mounted prefixes may stand together: each valid, none
/// equal to or nesting with another.
pub open spec fn mounts_valid(p: Seq<Seq<char>>) -> bool {
    &&& forall|i: int| 0 <= i < p.len() ==> prefix_chars(#[trigger] p[i])
    &&& forall|i: int, j: int|
        0 <= i < p.len() && 0 <= j < p.len() && i != j ==> #[trigger] p[i] != #[trigger] p[j]
            && !nests_under(p[i], p[j])
}

proof fn lemma_no_conflict(prefix: Seq<char>, mounted: Seq<Seq<char>>)
    ensures
        first_conflict(prefix, mounted) is None <==> forall|j: int|
            0 <= j < mounted.len() ==> #[trigger] mounted[j] != prefix && !nests_under(
                prefix,
                mounted[j],
            ) && !nests_under(mounted[j], prefix),
    decreases mounted.len(),
{
    if mounted.len() > 0 {
        lemma_no_conflict(prefix, mounted.drop_first());
        if first_conflict(prefix, mounted) is None {
            assert forall|j: int| 0 <= j < mounted.len() implies #[trigger] mounted[j] != prefix
                && !nests_under(prefix, mounted[j]) && !nests_under(mounted[j], prefix) by {
                if j > 0 {
                    assert(mounted[j] == mounted.drop_first()[j - 1]);
                }
            }
        } else {
            if mounted[0] != prefix && !nests_under(prefix, mounted[0]) && !nests_under(
                mounted[0],
                prefix,
            ) {
                let j = choose|j: int|
                    0 <= j < mounted.len() - 1 && !(#[trigger] mounted.drop_first()[j] != prefix
                        && !nests_under(prefix, mounted.drop_first()[j]) && !nests_under(
                        mounted.drop_first()[j],
                        prefix,
                    ));
                assert(mounted.drop_first()[j] == mounted[j + 1]);
            }
        }
    }
}

/// Whether byte `b` may appear in a prefix: an ASCII letter or digit, `_`,
/// `-` or `.`.
pub open spec fn prefix_byte(b: u8) -> bool {
    (0x61 <= b <= 0x7A) || (0x41 <= b <= 0x5A) || (0x30 <= b <= 0x39) || b == 0x5F || b == 0x2D
        || b == 0x2E
}

/// The first byte a character is written with in UTF-8 is a prefix byte
/// exactly when the character is a prefix character, which is then written
/// with that one byte.
proof fn lemma_first_byte(c: char)
    ensures
        encode_scalar(c as u32).len() >= 1,
        prefix_byte(encode_scalar(c as u32)[0]) <==> prefix_char(c),
        prefix_char(c) ==> encode_scalar(c as u32) =~= seq![c as u32 as u8],
{
    let v = c as u32;
    char_is_scalar(c);
    if has_width_1_encoding(v) {
        assert((v & 0x7F) == v) by (bit_vector)
            requires
                v <= 0x7F,
        ;
    } else {
        assert(!prefix_char(c));
        let b = encode_scalar(v)[0];
        if has_width_2_encoding(v) {
            let x = ((v >> 6) & 0x1F) as u8;
            assert(0xC0u8 | x >= 0xC0) by (bit_vector);
        } else if has_width_3_encoding(v) {
            let x = ((v >> 12) & 0x0F) as u8;
            assert(0xE0u8 | x >= 0xC0) by (bit_vector);
        } else {
            let x = ((v >> 18) & 0x7) as u8;
            assert(0xF0u8 | x >= 0xC0) by (bit_vector);
        }
        assert(b >= 0xC0);
    }
}

/// The UTF-8 bytes of `p` are all prefix bytes exactly when its characters
/// are all prefix characters, one byte each.
proof fn lemma_prefix_bytes(p: Seq<char>)
    ensures
        prefix_chars(p) <==> forall|i: int|
            0 <= i < encode_utf8(p).len() ==> prefix_byte(#[trigger] encode_utf8(p)[i]),
        prefix_chars(p) ==> encode_utf8(p).len() == p.len(),
    decreases p.len(),
{
    if p.len() > 0 {
        let rest = p.drop_first();
        lemma_prefix_bytes(rest);
        lemma_first_byte(p[0]);
        let head = encode_scalar(p[0] as u32);
        let e = encode_utf8(p);
        assert(e == head + encode_utf8(rest));
        if prefix_chars(p) {
            assert(prefix_chars(rest)) by {
                assert forall|i: int| 0 <= i < rest.len() implies prefix_char(#[trigger] rest[i]) by {
                    assert(rest[i] == p[i + 1]);
                }
            }
            assert(prefix_char(p[0]));
            assert forall|i: int| 0 <= i < e.len() implies prefix_byte(#[trigger] e[i]) by {
                if i >= 1 {
                    assert(e[i] == encode_utf8(rest)[i - 1]);
                }
            }
        } else if forall|i: int| 0 <= i < e.len() ==> prefix_byte(#[trigger] e[i]) {
            assert(prefix_byte(e[0]));
            assert(prefix_char(p[0]));
            assert forall|i: int|
                0 <= i < encode_utf8(rest).len() implies prefix_byte(#[trigger] encode_utf8(rest)[i]) by {
                assert(e[i + 1] == encode_utf8(rest)[i]);
            }
            assert forall|i: int| 0 <= i < p.len() implies prefix_char(#[trigger] p[i]) by {
                if i >= 1 {
                    assert(p[i] == rest[i - 1]);
                }
            }
            assert(false);
        }
    }
}

/// The prefixes `validate_prefix` accepts next to those mounted are exactly
/// those of 1 to 64 bytes, each byte an ASCII letter or digit, `_`, `-` or
/// `.`, that equal no mounted prefix and nest with none (`x` beside
/// `x_...`).
pub proof fn law_accepted_prefixes(prefix: Seq<char>, mounted: Seq<Seq<char>>)
    ensures
        spec_validate_prefix(prefix, mounted) is None <==> {
            &&& 1 <= encode_utf8(prefix).len() <= 64
            &&& forall|i: int|
                0 <= i < encode_utf8(prefix).len() ==> prefix_byte(#[trigger] encode_utf8(prefix)[i])
            &&& forall|j: int|
                0 <= j < mounted.len() ==> #[trigger] mounted[j] != prefix && !nests_under(
                    prefix,
                    mounted[j],
                ) && !nests_under(mounted[j], prefix)
        },
{
    lemma_prefix_bytes(prefix);
    lemma_no_conflict(prefix, mounted);
}

/// `name` minted under `prefix`: `{prefix}_{name}`.
pub open spec fn spec_prefix_name(prefix: Seq<char>, name: Seq<char>) -> Seq<char> {
    prefix + "_"@ + name
}

/// `uri` minted under `prefix`: `{prefix}://{uri}`.
pub open spec fn spec_prefix_uri(prefix: Seq<char>, uri: Seq<char>) -> Seq<char> {
    prefix + "://"@ + uri
}

/// Whether `name` is `prefix`, `separator`, then something.
pub open spec fn routes_to(name: Seq<char>, prefix: Seq<char>, separator: Seq<char>) -> bool {
    has_prefix(name, prefix) && has_prefix(name.subrange(prefix.len() as int, name.len() as int), separator)
}

/// What remains of `name` once `prefix` and `separator` are stripped.
pub open spec fn rest_after(name: Seq<char>, prefix: Seq<char>, separator: Seq<char>) -> Seq<char> {
    name.subrange((prefix.len() + separator.len()) as int, name.len() as int)
}

/// Whether mount `i` is where `name` routes: its prefix (then
/// `separator`) starts `name`, no routing prefix is longer, and none after
/// it is as long.
pub open spec fn best_route(prefixes: Seq<Seq<char>>, name: Seq<char>, separator: Seq<char>, i: int) -> bool {
    &&& 0 <= i < prefixes.len()
    &&& routes_to(name, prefixes[i], separator)
    &&& forall|j: int|
        0 <= j < prefixes.len() && routes_to(name, #[trigger] prefixes[j], separator) ==> (j < i
            ==> encode_utf8(prefixes[j]).len() <= encode_utf8(prefixes[i]).len()) && (j > i
            ==> encode_utf8(prefixes[j]).len() < encode_utf8(prefixes[i]).len())
}

/// The mount `name` routes to, if any.
pub open spec fn routed_mount(prefixes: Seq<Seq<char>>, name: Seq<char>, separator: Seq<char>) -> Option<
    int,
> {
    if exists|i: int| best_route(prefixes, name, separator, i) {
        Some(choose|i: int| best_route(prefixes, name, separator, i))
    } else {
        None
    }
}

/// At most one mount is where a name routes.
pub proof fn lemma_best_route_unique(
    prefixes: Seq<Seq<char>>,
    name: Seq<char>,
    separator: Seq<char>,
    i: int,
    k: int,
)
    requires
        best_route(prefixes, name, separator, i),
        best_route(prefixes, name, separator, k),
    ensures
        i == k,
{
    if i < k {
        assert(routes_to(name, prefixes[k], separator));
        assert(routes_to(name, prefixes[i], separator));
    } else if k < i {
        assert(routes_to(name, prefixes[k], separator));
        assert(routes_to(name, prefixes[i], separator));
    }
}

/// A mount of the composite: a prefix and its server.
#[derive(Debug)]
pub struct Mounted<S> {
    /// The prefix.
    pub prefix: String,
    /// The server.
    pub server: S,
}

/// The prefixes of a list of mounts.
pub open spec fn mount_prefixes<S>(m: Seq<Mounted<S>>) -> Seq<Seq<char>> {
    m.map_values(|x: Mounted<S>| x.prefix@)
}

/// Builder of a composite server.
#[derive(Debug)]
pub struct CompositeServerBuilder<S> {
    name: String,
    version: String,
    description: Option<String>,
    instructions: Option<String>,
    mounted: Vec<Mounted<S>>,
}

/// A composite server: mounts under prefixes.
#[derive(Debug)]
pub struct CompositeServer<S> {
    name: String,
    version: String,
    description: Option<String>,
    instructions: Option<String>,
    mounted: Vec<Mounted<S>>,
}

/// A composite server or its builder, as values.
pub struct CompositeView {
    /// Server name.
    pub name: Seq<char>,
    /// Server version.
    pub version: Seq<char>,
    /// Description.
    pub description: Option<Seq<char>>,
    /// `instructions` of the `initialize` handshake.
    pub instructions: Option<Seq<char>>,
    /// Mounted prefixes, in mounting order.
    pub prefixes: Seq<Seq<char>>,
}

/// The view of an optional string.
pub open spec fn opt_str(s: Option<String>) -> Option<Seq<char>> {
    match s {
        Some(v) => Some(v@),
        None => None,
    }
}

impl<S> View for CompositeServerBuilder<S> {
    type V = CompositeView;

    closed spec fn view(&self) -> CompositeView {
        CompositeView {
            name: self.name@,
            version: self.version@,
            description: opt_str(self.description),
            instructions: opt_str(self.instructions),
            prefixes: mount_prefixes(self.mounted@),
        }
    }
}

impl<S> View for CompositeServer<S> {
    type V = CompositeView;

    closed spec fn view(&self) -> CompositeView {
        CompositeView {
            name: self.name@,
            version: self.version@,
            description: opt_str(self.description),
            instructions: opt_str(self.instructions),
            prefixes: mount_prefixes(self.mounted@),
        }
    }
}

impl<S> CompositeServerBuilder<S> {
    #[verifier::type_invariant]
    closed spec fn wf(self) -> bool {
        mounts_valid(mount_prefixes(self.mounted@))
    }

    /// The mounted servers, in mounting order: the `i`-th stands under
    /// the `i`-th prefix.
    pub closed spec fn servers(self) -> Seq<S> {
        self.mounted@.map_values(|m: Mounted<S>| m.server)
    }

    /// There is one server for each prefix.
    pub proof fn lemma_servers_match_prefixes(self)
        ensures
            self.servers().len() == self@.prefixes.len(),
    {
    }

    /// A builder with nothing mounted.
    pub fn new(name: &str, version: &str) -> (r: Self)
        ensures
            r@.name == name@,
            r@.version == version@,
            r@.description is None,
            r@.instructions is None,
            r@.prefixes.len() == 0,
            r.servers() == Seq::<S>::empty(),
    {
        let r = CompositeServerBuilder {
            name: owned(name),
            version: owned(version),
            description: None,
            instructions: None,
            mounted: Vec::new(),
        };
        assert(mount_prefixes(r.mounted@) =~= Seq::empty());
        assert(r.servers() =~= Seq::<S>::empty());
        r
    }

    /// Set the description.
    pub fn description(self, description: &str) -> (r: Self)
        ensures
            r@.description == Some(description@),
            r@.name == self@.name,
            r@.version == self@.version,
            r@.instructions == self@.instructions,
            r@.prefixes == self@.prefixes,
            r.servers() == self.servers(),
    {
        proof {
            use_type_invariant(&self);
        }
        let mut s = self;
        s.description = Some(owned(description));
        s
    }

    /// Set the `instructions` of the `initialize` handshake; the mounted
    /// servers' own are not merged.
    pub fn instructions(self, instructions: &str) -> (r: Self)
        ensures
            r@.instructions == Some(instructions@),
            r@.name == self@.name,
            r@.version == self@.version,
            r@.description == self@.description,
            r@.prefixes == self@.prefixes,
            r.servers() == self.servers(),
    {
        proof {
            use_type_invariant(&self);
        }
        let mut s = self;
        s.instructions = Some(owned(instructions));
        s
    }

    /// Check a prefix before mounting: 1 to 64 bytes of `A-Z a-z 0-9 _ - .`,
    /// not mounted yet, and not nesting with a mounted one (`x` next to
    /// `x_y` could mint the same name twice).
    pub fn validate_prefix(&self, prefix: &str) -> (r: Result<(), String>)
        ensures
            match spec_validate_prefix(prefix@, self@.prefixes) {
                None => r is Ok,
                Some(m) => r matches Err(e) && e@ == m,
            },
    {
        let n = prefix.as_bytes().len();
        if n == 0 || n > 64 {
            let mut m = owned("prefix '");
            push_str(&mut m, prefix);
            push_str(&mut m, "' must be between 1 and 64 characters");
            return Err(m);
        }
        let chars = chars_of(prefix);
        let mut i: usize = 0;
        while i < chars.len()
            invariant
                i <= chars@.len(),
                chars@ == prefix@,
                0 < encode_utf8(prefix@).len() <= 64,
                forall|j: int| 0 <= j < i ==> prefix_char(#[trigger] chars@[j]),
            decreases chars.len() - i,
        {
            let c = chars[i];
            if !(('a' <= c && c <= 'z') || ('A' <= c && c <= 'Z') || ('0' <= c && c <= '9') || c
                == '_' || c == '-' || c == '.') {
                assert(!prefix_char(prefix@[i as int]));
                let mut m = owned("prefix '");
                push_str(&mut m, prefix);
                push_str(
                    &mut m,
                    "' may contain only A-Z a-z 0-9 _ - . so that the names it mints stay valid MCP tool names",
                );
                return Err(m);
            }
            i = i + 1;
        }
        let mut k: usize = 0;
        assert(self@.prefixes.subrange(0, self@.prefixes.len() as int) =~= self@.prefixes);
        while k < self.mounted.len()
            invariant
                k <= self.mounted@.len(),
                chars@ == prefix@,
                0 < encode_utf8(prefix@).len() <= 64,
                prefix_chars(prefix@),
                first_conflict(prefix@, self@.prefixes) == first_conflict(
                    prefix@,
                    self@.prefixes.subrange(k as int, self@.prefixes.len() as int),
                ),
            decreases self.mounted.len() - k,
        {
            let ghost rest = self@.prefixes.subrange(k as int, self@.prefixes.len() as int);
            assert(rest[0] == self.mounted@[k as int].prefix@);
            assert(rest.drop_first() =~= self@.prefixes.subrange(
                k + 1,
                self@.prefixes.len() as int,
            ));
            let other = self.mounted[k].prefix.as_str();
            if crate::text::str_eq(other, prefix) {
                let mut m = owned("duplicate prefix '");
                push_str(&mut m, prefix);
                push_str(&mut m, "' - each mounted server must have a unique prefix");
                return Err(m);
            }
            let oc = chars_of(other);
            let nests = nests_exec(&chars, &oc) || nests_exec(&oc, &chars);
            if nests {
                let mut m = owned("prefix '");
                push_str(&mut m, prefix);
                push_str(&mut m, "' nests with already-mounted '");
                push_str(&mut m, other);
                push_str(
                    &mut m,
                    "'; one could mint the same tool name as the other and silently shadow it",
                );
                return Err(m);
            }
            k = k + 1;
        }
        proof {
            assert(self@.prefixes.subrange(
                self@.prefixes.len() as int,
                self@.prefixes.len() as int,
            ) =~= Seq::empty());
        }
        Ok(())
    }

    /// Mount `server` under `prefix`, or say why the prefix is refused.
    pub fn try_mount(self, server: S, prefix: &str) -> (r: Result<Self, String>)
        ensures
            match spec_validate_prefix(prefix@, self@.prefixes) {
                None => r matches Ok(b) && b@.prefixes == self@.prefixes.push(prefix@)
                    && b.servers() == self.servers().push(server) && b@.name == self@.name && b@.version == self@.version && b@.description == self@.description && b@.instructions == self@.instructions,
                Some(m) => r matches Err(e) && e@ == m,
            },
    {
        match self.validate_prefix(prefix) {
            Err(e) => Err(e),
            Ok(()) => Ok(self.mount(server, prefix)),
        }
    }

    /// Mount `server` under `prefix`, which must be one `try_mount` takes.
    pub fn mount(self, server: S, prefix: &str) -> (r: Self)
        requires
            spec_validate_prefix(prefix@, self@.prefixes) is None,
        ensures
            r@.prefixes == self@.prefixes.push(prefix@),
            r.servers() == self.servers().push(server),
            r@.name == self@.name,
            r@.version == self@.version,
            r@.description == self@.description,
            r@.instructions == self@.instructions,
    {
        proof {
            use_type_invariant(&self);
        }
        let ghost before = self.mounted@;
        let ghost self_servers = self.servers();
        let ghost server_view = server;
        let mut s = self;
        proof {
            lemma_no_conflict(prefix@, mount_prefixes(before));
        }
        let mut mounted: Vec<Mounted<S>> = Vec::new();
        std::mem::swap(&mut mounted, &mut s.mounted);
        mounted.push(Mounted { prefix: owned(prefix), server });
        proof {
            let p = mount_prefixes(mounted@);
            assert(p =~= mount_prefixes(before).push(prefix@));
            assert(mounts_valid(p)) by {
                let q = mount_prefixes(before);
                assert forall|i: int, j: int|
                    0 <= i < p.len() && 0 <= j < p.len() && i != j implies #[trigger] p[i]
                    != #[trigger] p[j] && !nests_under(p[i], p[j]) by {
                    if i == q.len() {
                        assert(q[j] == p[j]);
                    } else if j == q.len() {
                        assert(q[i] == p[i]);
                    } else {
                        assert(q[i] == p[i] && q[j] == p[j]);
                    }
                }
                assert forall|i: int| 0 <= i < p.len() implies prefix_chars(#[trigger] p[i]) by {
                    if i < q.len() {
                        assert(q[i] == p[i]);
                    }
                }
            }
        }
        s.mounted = mounted;
        assert(s.servers() =~= self_servers.push(server_view));
        s
    }

    /// The composite server.
    pub fn build(self) -> (r: CompositeServer<S>)
        ensures
            r@.prefixes == self@.prefixes,
            r.servers() == self.servers(),
            r@.name == self@.name,
            r@.version == self@.version,
            r@.description == self@.description,
            r@.instructions == self@.instructions,
    {
        proof {
            use_type_invariant(&self);
        }
        CompositeServer {
            name: self.name,
            version: self.version,
            description: self.description,
            instructions: self.instructions,
            mounted: self.mounted,
        }
    }
}

/// Whether `a` extends `b` by `_` and more.
fn nests_exec(a: &Vec<char>, b: &Vec<char>) -> (r: bool)
    ensures
        r == nests_under(a@, b@),
{
    if b.len() < a.len() && matches_at(a, 0, b) {
        proof {
            assert(a@.subrange(0, b@.len() as int) =~= a@.subrange(0, (0 + b@.len()) as int));
        }
        a[b.len()] == '_'
    } else {
        proof {
            assert(a@.subrange(0, b@.len() as int) =~= a@.subrange(0, (0 + b@.len()) as int));
        }
        false
    }
}

impl<S> CompositeServer<S> {
    #[verifier::type_invariant]
    closed spec fn wf(self) -> bool {
        mounts_valid(mount_prefixes(self.mounted@))
    }

    /// A builder with nothing mounted.
    pub fn builder(name: &str, version: &str) -> (r: CompositeServerBuilder<S>)
        ensures
            r@.name == name@,
            r@.version == version@,
            r@.prefixes.len() == 0,
    {
        CompositeServerBuilder::new(name, version)
    }

    /// The number of mounted servers.
    pub fn server_count(&self) -> (r: usize)
        ensures
            r == self@.prefixes.len(),
            mounts_valid(self@.prefixes),
    {
        proof {
            use_type_invariant(self);
        }
        self.mounted.len()
    }

    /// The mounted prefixes, in mounting order.
    pub fn prefixes(&self) -> (r: Vec<&str>)
        ensures
            r@.map_values(|p: &str| p@) == self@.prefixes,
    {
        let mut r: Vec<&str> = Vec::new();
        let mut i: usize = 0;
        while i < self.mounted.len()
            invariant
                i <= self.mounted@.len(),
                r@.map_values(|p: &str| p@) == self@.prefixes.subrange(0, i as int),
            decreases self.mounted.len() - i,
        {
            let ghost before = r@;
            let x = self.mounted[i].prefix.as_str();
            r.push(x);
            proof {
                assert(r@.map_values(|p: &str| p@) =~= before.map_values(|p: &str| p@).push(x@));
                assert(self@.prefixes.subrange(0, i + 1) =~= self@.prefixes.subrange(
                    0,
                    i as int,
                ).push(self@.prefixes[i as int]));
            }
            i = i + 1;
        }
        assert(self@.prefixes.subrange(0, i as int) =~= self@.prefixes);
        r
    }

    /// The mounted servers, in mounting order: the `i`-th stands under
    /// the `i`-th prefix.
    pub closed spec fn servers(self) -> Seq<S> {
        self.mounted@.map_values(|m: Mounted<S>| m.server)
    }

    /// There is one server for each prefix.
    pub proof fn lemma_servers_match_prefixes(self)
        ensures
            self.servers().len() == self@.prefixes.len(),
    {
    }

    /// The server mounted at position `i`.
    pub fn server(&self, i: usize) -> (r: &S)
        requires
            i < self@.prefixes.len(),
        ensures
            *r == self.servers()[i as int],
    {
        &self.mounted[i].server
    }

    /// A tool or prompt name minted under `prefix`.
    pub fn prefix_name(prefix: &str, name: &str) -> (r: String)
        ensures
            r@ == spec_prefix_name(prefix@, name@),
    {
        let mut r = owned(prefix);
        push_str(&mut r, "_");
        push_str(&mut r, name);
        r
    }

    /// A resource URI or URI template minted under `prefix`.
    pub fn prefix_uri(prefix: &str, uri: &str) -> (r: String)
        ensures
            r@ == spec_prefix_uri(prefix@, uri@),
    {
        let mut r = owned(prefix);
        push_str(&mut r, "://");
        push_str(&mut r, uri);
        r
    }

    /// The mount `name` belongs to, with the name that mount knows: among
    /// the mounts whose prefix `name` starts with (then `separator`), the
    /// one with the longest prefix, the last of them should two tie.
    pub fn route(&self, name: &str, separator: &str) -> (r: Option<(usize, String)>)
        ensures
            match r {
                Some((i, rest)) => routed_mount(self@.prefixes, name@, separator@) == Some(i as int)
                    && rest@ == rest_after(name@, self@.prefixes[i as int], separator@),
                None => routed_mount(self@.prefixes, name@, separator@) is None,
            },
            match r {
                Some((i, rest)) => {
                    &&& i < self@.prefixes.len()
                    &&& routes_to(name@, self@.prefixes[i as int], separator@)
                    &&& rest@ == rest_after(name@, self@.prefixes[i as int], separator@)
                    &&& forall|j: int|
                        0 <= j < self@.prefixes.len() && routes_to(
                            name@,
                            #[trigger] self@.prefixes[j],
                            separator@,
                        ) ==> (j < i ==> encode_utf8(self@.prefixes[j]).len()
                            <= encode_utf8(self@.prefixes[i as int]).len()) && (j > i
                            ==> encode_utf8(self@.prefixes[j]).len()
                            < encode_utf8(self@.prefixes[i as int]).len())
                },
                None => forall|j: int|
                    0 <= j < self@.prefixes.len() ==> !routes_to(
                        name@,
                        #[trigger] self@.prefixes[j],
                        separator@,
                    ),
            },
    {
        let nc = chars_of(name);
        let sc = chars_of(separator);
        let mut best: Option<(usize, usize)> = None;
        let mut i: usize = 0;
        while i < self.mounted.len()
            invariant
                i <= self.mounted@.len(),
                nc@ == name@,
                sc@ == separator@,
                self@.prefixes == mount_prefixes(self.mounted@),
                match best {
                    Some((b, start)) => {
                        &&& b < i
                        &&& routes_to(name@, self@.prefixes[b as int], separator@)
                        &&& start == self@.prefixes[b as int].len() + separator@.len()
                        &&& forall|j: int|
                            0 <= j < i && routes_to(
                                name@,
                                #[trigger] self@.prefixes[j],
                                separator@,
                            ) ==> encode_utf8(self@.prefixes[j]).len()
                                <= encode_utf8(self@.prefixes[b as int]).len() && (j > b
                                ==> encode_utf8(self@.prefixes[j]).len()
                                < encode_utf8(self@.prefixes[b as int]).len())
                    },
                    None => forall|j: int|
                        0 <= j < i ==> !routes_to(
                            name@,
                            #[trigger] self@.prefixes[j],
                            separator@,
                        ),
                },
            decreases self.mounted.len() - i,
        {
            let p = self.mounted[i].prefix.as_str();
            let pc = chars_of(p);
            assert(self@.prefixes[i as int] == p@);
            if matches_at(&nc, 0, &pc) && matches_at(&nc, pc.len(), &sc) {
                proof {
                    assert(nc@.subrange(0, (0 + pc@.len()) as int) =~= nc@.subrange(0, pc@.len() as int));
                    let tail = nc@.subrange(pc@.len() as int, nc@.len() as int);
                    assert(tail.subrange(0, sc@.len() as int) =~= nc@.subrange(
                        pc@.len() as int,
                        (pc@.len() + sc@.len()) as int,
                    ));
                }
                let better = match best {
                    Some((b, _)) => self.mounted[b].prefix.as_str().as_bytes().len() <= p.as_bytes().len(),
                    None => true,
                };
                if better {
                    best = Some((i, pc.len() + sc.len()));
                }
            } else {
                proof {
                    if routes_to(name@, p@, separator@) {
                        let tail = nc@.subrange(pc@.len() as int, nc@.len() as int);
                        assert(nc@.subrange(0, (0 + pc@.len()) as int) =~= nc@.subrange(
                            0,
                            pc@.len() as int,
                        ));
                        assert(tail.subrange(0, sc@.len() as int) =~= nc@.subrange(
                            pc@.len() as int,
                            (pc@.len() + sc@.len()) as int,
                        ));
                    }
                }
            }
            i = i + 1;
        }
        match best {
            Some((b, start)) => {
                proof {
                    assert(start <= nc@.len());
                    assert(best_route(self@.prefixes, name@, separator@, b as int));
                    let c = choose|c: int| best_route(self@.prefixes, name@, separator@, c);
                    lemma_best_route_unique(self@.prefixes, name@, separator@, b as int, c);
                }
                let rest = string_of(&nc, start, nc.len());
                Some((b, rest))
            },
            None => None,
        }
    }
}

/// A name minted under a mount's prefix routes back to that mount, with the
/// original name: valid prefixes never let two mounts claim one name.
pub proof fn law_minted_names_route_back(
    prefixes: Seq<Seq<char>>,
    i: int,
    name: Seq<char>,
    j: int,
)
    requires
        mounts_valid(prefixes),
        0 <= i < prefixes.len(),
        0 <= j < prefixes.len(),
    ensures
        routes_to(spec_prefix_name(prefixes[i], name), prefixes[i], "_"@),
        rest_after(spec_prefix_name(prefixes[i], name), prefixes[i], "_"@) == name,
        routes_to(spec_prefix_uri(prefixes[i], name), prefixes[i], "://"@),
        rest_after(spec_prefix_uri(prefixes[i], name), prefixes[i], "://"@) == name,
        routes_to(spec_prefix_name(prefixes[i], name), prefixes[j], "_"@) ==> j == i,
        routes_to(spec_prefix_uri(prefixes[i], name), prefixes[j], "://"@) ==> j == i,
{
    reveal_strlit("_");
    reveal_strlit("://");
    let p = prefixes[i];
    let q = prefixes[j];
    let n1 = spec_prefix_name(p, name);
    let n2 = spec_prefix_uri(p, name);
    assert(n1.subrange(0, p.len() as int) =~= p);
    assert(n1.subrange(p.len() as int, n1.len() as int).subrange(0, 1) =~= "_"@);
    assert(n1.subrange(p.len() + 1int, n1.len() as int) =~= name);
    assert(n2.subrange(0, p.len() as int) =~= p);
    assert(n2.subrange(p.len() as int, n2.len() as int).subrange(0, 3) =~= "://"@);
    assert(n2.subrange(p.len() + 3int, n2.len() as int) =~= name);
    if j != i {
        assert(q != p && !nests_under(q, p) && !nests_under(p, q));
        if routes_to(n1, q, "_"@) {
            if q.len() < p.len() {
                assert(n1[q.len() as int] == '_') by {
                    let tail = n1.subrange(q.len() as int, n1.len() as int);
                    assert(tail.subrange(0, 1) == "_"@);
                    assert(tail.subrange(0, 1)[0] == tail[0]);
                }
                assert(p.subrange(0, q.len() as int) =~= q) by {
                    assert(n1.subrange(0, q.len() as int) =~= q);
                }
                assert(p[q.len() as int] == n1[q.len() as int]);
                assert(nests_under(p, q));
            } else if q.len() > p.len() {
                assert(q[p.len() as int] == n1[p.len() as int]);
                assert(n1[p.len() as int] == '_');
                assert(q.subrange(0, p.len() as int) =~= p) by {
                    assert forall|k: int| 0 <= k < p.len() implies q[k] == p[k] by {
                        assert(q[k] == n1.subrange(0, q.len() as int)[k]);
                    }
                }
                assert(nests_under(q, p));
            } else {
                assert(q =~= p) by {
                    assert forall|k: int| 0 <= k < p.len() implies q[k] == p[k] by {
                        assert(q[k] == n1.subrange(0, q.len() as int)[k]);
                    }
                }
            }
        }
        if routes_to(n2, q, "://"@) {
            if q.len() < p.len() {
                assert(n2[q.len() as int] == ':') by {
                    let tail = n2.subrange(q.len() as int, n2.len() as int);
                    assert(tail.subrange(0, 3) == "://"@);
                    assert(tail.subrange(0, 3)[0] == tail[0]);
                }
                assert(p[q.len() as int] == n2[q.len() as int]);
                assert(!prefix_char(p[q.len() as int]));
                assert(prefix_chars(p));
            } else if q.len() > p.len() {
                assert(q[p.len() as int] == n2[p.len() as int]) by {
                    assert(q[p.len() as int] == n2.subrange(0, q.len() as int)[p.len() as int]);
                }
                assert(n2[p.len() as int] == ':');
                assert(prefix_chars(q));
            } else {
                assert(q =~= p) by {
                    assert forall|k: int| 0 <= k < p.len() implies q[k] == p[k] by {
                        assert(q[k] == n2.subrange(0, q.len() as int)[k]);
                    }
                }
            }
        }
    }
}

/// `s` copied.
fn copy_opt(s: &Option<String>) -> (r: Option<String>)
    ensures
        opt_chars(r) == opt_chars(*s),
{
    match s {
        Some(v) => Some(owned(v.as_str())),
        None => None,
    }
}

/// `v` copied.
fn copy_arguments(v: &Option<Vec<PromptArgument>>) -> (r: Option<Vec<PromptArgument>>)
    ensures
        match (r, *v) {
            (Some(a), Some(b)) => argument_views(a@) == argument_views(b@),
            (None, None) => true,
            _ => false,
        },
{
    match v {
        None => None,
        Some(args) => {
            let mut out: Vec<PromptArgument> = Vec::new();
            let mut i: usize = 0;
            while i < args.len()
                invariant
                    i <= args@.len(),
                    argument_views(out@) == argument_views(args@).subrange(0, i as int),
                decreases args.len() - i,
            {
                let a = &args[i];
                let c = PromptArgument {
                    name: owned(a.name.as_str()),
                    description: copy_opt(&a.description),
                    required: a.required,
                };
                let ghost before = out@;
                out.push(c);
                proof {
                    assert(argument_views(out@) =~= argument_views(before).push(c@));
                    assert(argument_views(args@).subrange(0, i + 1) =~= argument_views(args@).subrange(
                        0,
                        i as int,
                    ).push(a@));
                }
                i = i + 1;
            }
            assert(argument_views(args@).subrange(0, i as int) =~= argument_views(args@));
            Some(out)
        },
    }
}

/// A tool as a mount under `prefix` exposes it: its name minted under the
/// prefix.
pub open spec fn exposed_tool(prefix: Seq<char>, t: ToolView) -> ToolView {
    ToolView { name: spec_prefix_name(prefix, t.name), ..t }
}

/// A resource as a mount under `prefix` exposes it.
pub open spec fn exposed_resource(prefix: Seq<char>, r: ResourceView) -> ResourceView {
    ResourceView { uri: spec_prefix_uri(prefix, r.uri), ..r }
}

/// A resource template as a mount under `prefix` exposes it.
pub open spec fn exposed_template(prefix: Seq<char>, t: TemplateView) -> TemplateView {
    TemplateView { uri_template: spec_prefix_uri(prefix, t.uri_template), ..t }
}

/// A prompt as a mount under `prefix` exposes it.
pub open spec fn exposed_prompt(prefix: Seq<char>, p: PromptView) -> PromptView {
    PromptView { name: spec_prefix_name(prefix, p.name), ..p }
}

/// The tools of a server, in the order it lists them, exposed under
/// `prefix`.
pub open spec fn tool_block<H>(prefix: Seq<char>, r: Registrations<H>) -> Seq<ToolView> {
    in_order(r.tools.dom()).map_values(|k: Seq<char>| exposed_tool(prefix, r.tools[k].0))
}

/// The resources of a server, in listing order, exposed under `prefix`.
pub open spec fn resource_block<H>(prefix: Seq<char>, r: Registrations<H>) -> Seq<ResourceView> {
    in_order(r.resources.dom()).map_values(|k: Seq<char>| exposed_resource(prefix, r.resources[k].0))
}

/// The resource templates of a server, in listing order, exposed under
/// `prefix`.
pub open spec fn template_block<H>(prefix: Seq<char>, r: Registrations<H>) -> Seq<TemplateView> {
    in_order(r.templates.dom()).map_values(|k: Seq<char>| exposed_template(prefix, r.templates[k].0))
}

/// The prompts of a server, in listing order, exposed under `prefix`.
pub open spec fn prompt_block<H>(prefix: Seq<char>, r: Registrations<H>) -> Seq<PromptView> {
    in_order(r.prompts.dom()).map_values(|k: Seq<char>| exposed_prompt(prefix, r.prompts[k].0))
}

/// What the composite advertises: each capability that any mount has.
pub open spec fn composite_capabilities<H>(servers: Seq<McpServer<H>>) -> Capabilities {
    Capabilities {
        tools: exists|i: int| 0 <= i < servers.len() && (#[trigger] servers[i])@.registered.tools.dom().len() > 0,
        resources: exists|i: int|
            0 <= i < servers.len() && ((#[trigger] servers[i])@.registered.resources.dom().len() > 0
                || servers[i]@.registered.templates.dom().len() > 0),
        prompts: exists|i: int| 0 <= i < servers.len() && (#[trigger] servers[i])@.registered.prompts.dom().len() > 0,
    }
}

/// The views of a list.
pub open spec fn item_views<T: View>(v: Seq<T>) -> Seq<T::V> {
    v.map_values(|x: T| x@)
}

impl<H> CompositeServer<McpServer<H>> {
    /// Capabilities: each one any mount has.
    pub fn server_capabilities(&self) -> (r: Capabilities)
        ensures
            r == composite_capabilities(self.servers()),
    {
        let mut tools = false;
        let mut resources = false;
        let mut prompts = false;
        let ghost sv = self.servers();
        let mut i: usize = 0;
        while i < self.mounted.len()
            invariant
                i <= self.mounted@.len(),
                sv == self.servers(),
                sv.len() == self.mounted@.len(),
                tools == exists|j: int| 0 <= j < i && (#[trigger] sv[j])@.registered.tools.dom().len() > 0,
                resources == exists|j: int|
                    0 <= j < i && ((#[trigger] sv[j])@.registered.resources.dom().len() > 0
                        || sv[j]@.registered.templates.dom().len() > 0),
                prompts == exists|j: int| 0 <= j < i && (#[trigger] sv[j])@.registered.prompts.dom().len() > 0,
            decreases self.mounted.len() - i,
        {
            let c = self.mounted[i].server.capabilities();
            assert(sv[i as int] == self.mounted@[i as int].server);
            tools = tools || c.tools;
            resources = resources || c.resources;
            prompts = prompts || c.prompts;
            i = i + 1;
        }
        Capabilities { tools, resources, prompts }
    }

    /// The tools of every mount, in mounting order, each under its mount's
    /// prefix.
    pub fn list_tools(&self) -> (r: Vec<ToolInfo>)
        ensures
            item_views(r@) == Seq::new(
                self@.prefixes.len(),
                |i: int| tool_block(self@.prefixes[i], self.servers()[i]@.registered),
            ).flatten(),
    {
        let ghost blocks = Seq::new(
            self@.prefixes.len(),
            |i: int| tool_block(self@.prefixes[i], self.servers()[i]@.registered),
        );
        let mut r: Vec<ToolInfo> = Vec::new();
        let mut i: usize = 0;
        assert(blocks.subrange(0, 0).flatten() =~= Seq::<ToolView>::empty());
        while i < self.mounted.len()
            invariant
                i <= self.mounted@.len(),
                self@.prefixes == mount_prefixes(self.mounted@),
                blocks == Seq::new(
                    self@.prefixes.len(),
                    |i: int| tool_block(self@.prefixes[i], self.servers()[i]@.registered),
                ),
                item_views(r@) == blocks.subrange(0, i as int).flatten(),
            decreases self.mounted.len() - i,
        {
            let m = &self.mounted[i];
            let listed = m.server.tools();
            let ghost start = item_views(r@);
            let ghost reg = m.server@.registered;
            let mut k: usize = 0;
            while k < listed.len()
                invariant
                    k <= listed@.len(),
                    listed@.len() == in_order(reg.tools.dom()).len(),
                    forall|q: int| 0 <= q < listed@.len() ==> (#[trigger] listed@[q])@ == reg.tools[in_order(reg.tools.dom())[q]].0,
                    item_views(r@) == start + tool_block(m.prefix@, reg).subrange(0, k as int),
                decreases listed.len() - k,
            {
                let t = listed[k];
                let ghost before = r@;
                let info = ToolInfo {
                    name: CompositeServer::<McpServer<H>>::prefix_name(m.prefix.as_str(), t.name.as_str()),
                    description: copy_opt(&t.description),
                    input_schema: owned(t.input_schema.as_str()),
                };
                r.push(info);
                proof {
                    assert(item_views(r@) =~= item_views(before).push(info@));
                    assert(tool_block(m.prefix@, reg).subrange(0, k + 1) =~= tool_block(m.prefix@, reg).subrange(0, k as int).push(info@));
                }
                k = k + 1;
            }
            proof {
                assert(tool_block(m.prefix@, reg).subrange(0, k as int) =~= tool_block(m.prefix@, reg));
                assert(self.servers()[i as int] == m.server);
                assert(blocks[i as int] == tool_block(m.prefix@, reg));
                assert(blocks.subrange(0, i + 1) =~= blocks.subrange(0, i as int).push(blocks[i as int]));
                blocks.subrange(0, i as int).lemma_flatten_push(blocks[i as int]);
            }
            i = i + 1;
        }
        assert(blocks.subrange(0, i as int) =~= blocks);
        r
    }

    /// The resources of every mount, in mounting order, each under its
    /// mount's prefix.
    pub fn list_resources(&self) -> (r: Vec<ResourceInfo>)
        ensures
            item_views(r@) == Seq::new(
                self@.prefixes.len(),
                |i: int| resource_block(self@.prefixes[i], self.servers()[i]@.registered),
            ).flatten(),
    {
        let ghost blocks = Seq::new(
            self@.prefixes.len(),
            |i: int| resource_block(self@.prefixes[i], self.servers()[i]@.registered),
        );
        let mut r: Vec<ResourceInfo> = Vec::new();
        let mut i: usize = 0;
        assert(blocks.subrange(0, 0).flatten() =~= Seq::<ResourceView>::empty());
        while i < self.mounted.len()
            invariant
                i <= self.mounted@.len(),
                self@.prefixes == mount_prefixes(self.mounted@),
                blocks == Seq::new(
                    self@.prefixes.len(),
                    |i: int| resource_block(self@.prefixes[i], self.servers()[i]@.registered),
                ),
                item_views(r@) == blocks.subrange(0, i as int).flatten(),
            decreases self.mounted.len() - i,
        {
            let m = &self.mounted[i];
            let listed = m.server.resources();
            let ghost start = item_views(r@);
            let ghost reg = m.server@.registered;
            let mut k: usize = 0;
            while k < listed.len()
                invariant
                    k <= listed@.len(),
                    listed@.len() == in_order(reg.resources.dom()).len(),
                    forall|q: int| 0 <= q < listed@.len() ==> (#[trigger] listed@[q])@ == reg.resources[in_order(reg.resources.dom())[q]].0,
                    item_views(r@) == start + resource_block(m.prefix@, reg).subrange(0, k as int),
                decreases listed.len() - k,
            {
                let t = listed[k];
                let ghost before = r@;
                let info = ResourceInfo {
                    uri: CompositeServer::<McpServer<H>>::prefix_uri(m.prefix.as_str(), t.uri.as_str()),
                    name: owned(t.name.as_str()),
                    description: copy_opt(&t.description),
                };
                r.push(info);
                proof {
                    assert(item_views(r@) =~= item_views(before).push(info@));
                    assert(resource_block(m.prefix@, reg).subrange(0, k + 1) =~= resource_block(m.prefix@, reg).subrange(0, k as int).push(info@));
                }
                k = k + 1;
            }
            proof {
                assert(resource_block(m.prefix@, reg).subrange(0, k as int) =~= resource_block(m.prefix@, reg));
                assert(self.servers()[i as int] == m.server);
                assert(blocks[i as int] == resource_block(m.prefix@, reg));
                assert(blocks.subrange(0, i + 1) =~= blocks.subrange(0, i as int).push(blocks[i as int]));
                blocks.subrange(0, i as int).lemma_flatten_push(blocks[i as int]);
            }
            i = i + 1;
        }
        assert(blocks.subrange(0, i as int) =~= blocks);
        r
    }

    /// The resource templates of every mount, in mounting order, each
    /// under its mount's prefix.
    pub fn list_resource_templates(&self) -> (r: Vec<ResourceTemplateInfo>)
        ensures
            item_views(r@) == Seq::new(
                self@.prefixes.len(),
                |i: int| template_block(self@.prefixes[i], self.servers()[i]@.registered),
            ).flatten(),
    {
        let ghost blocks = Seq::new(
            self@.prefixes.len(),
            |i: int| template_block(self@.prefixes[i], self.servers()[i]@.registered),
        );
        let mut r: Vec<ResourceTemplateInfo> = Vec::new();
        let mut i: usize = 0;
        assert(blocks.subrange(0, 0).flatten() =~= Seq::<TemplateView>::empty());
        while i < self.mounted.len()
            invariant
                i <= self.mounted@.len(),
                self@.prefixes == mount_prefixes(self.mounted@),
                blocks == Seq::new(
                    self@.prefixes.len(),
                    |i: int| template_block(self@.prefixes[i], self.servers()[i]@.registered),
                ),
                item_views(r@) == blocks.subrange(0, i as int).flatten(),
            decreases self.mounted.len() - i,
        {
            let m = &self.mounted[i];
            let listed = m.server.resource_templates();
            let ghost start = item_views(r@);
            let ghost reg = m.server@.registered;
            let mut k: usize = 0;
            while k < listed.len()
                invariant
                    k <= listed@.len(),
                    listed@.len() == in_order(reg.templates.dom()).len(),
                    forall|q: int| 0 <= q < listed@.len() ==> (#[trigger] listed@[q])@ == reg.templates[in_order(reg.templates.dom())[q]].0,
                    item_views(r@) == start + template_block(m.prefix@, reg).subrange(0, k as int),
                decreases listed.len() - k,
            {
                let t = listed[k];
                let ghost before = r@;
                let info = ResourceTemplateInfo {
                    uri_template: CompositeServer::<McpServer<H>>::prefix_uri(
                        m.prefix.as_str(),
                        t.uri_template.as_str(),
                    ),
                    name: owned(t.name.as_str()),
                    description: copy_opt(&t.description),
                };
                r.push(info);
                proof {
                    assert(item_views(r@) =~= item_views(before).push(info@));
                    assert(template_block(m.prefix@, reg).subrange(0, k + 1) =~= template_block(m.prefix@, reg).subrange(0, k as int).push(info@));
                }
                k = k + 1;
            }
            proof {
                assert(template_block(m.prefix@, reg).subrange(0, k as int) =~= template_block(m.prefix@, reg));
                assert(self.servers()[i as int] == m.server);
                assert(blocks[i as int] == template_block(m.prefix@, reg));
                assert(blocks.subrange(0, i + 1) =~= blocks.subrange(0, i as int).push(blocks[i as int]));
                blocks.subrange(0, i as int).lemma_flatten_push(blocks[i as int]);
            }
            i = i + 1;
        }
        assert(blocks.subrange(0, i as int) =~= blocks);
        r
    }

    /// The prompts of every mount, in mounting order, each under its
    /// mount's prefix.
    pub fn list_prompts(&self) -> (r: Vec<PromptInfo>)
        ensures
            item_views(r@) == Seq::new(
                self@.prefixes.len(),
                |i: int| prompt_block(self@.prefixes[i], self.servers()[i]@.registered),
            ).flatten(),
    {
        let ghost blocks = Seq::new(
            self@.prefixes.len(),
            |i: int| prompt_block(self@.prefixes[i], self.servers()[i]@.registered),
        );
        let mut r: Vec<PromptInfo> = Vec::new();
        let mut i: usize = 0;
        assert(blocks.subrange(0, 0).flatten() =~= Seq::<PromptView>::empty());
        while i < self.mounted.len()
            invariant
                i <= self.mounted@.len(),
                self@.prefixes == mount_prefixes(self.mounted@),
                blocks == Seq::new(
                    self@.prefixes.len(),
                    |i: int| prompt_block(self@.prefixes[i], self.servers()[i]@.registered),
                ),
                item_views(r@) == blocks.subrange(0, i as int).flatten(),
            decreases self.mounted.len() - i,
        {
            let m = &self.mounted[i];
            let listed = m.server.prompts();
            let ghost start = item_views(r@);
            let ghost reg = m.server@.registered;
            let mut k: usize = 0;
            while k < listed.len()
                invariant
                    k <= listed@.len(),
                    listed@.len() == in_order(reg.prompts.dom()).len(),
                    forall|q: int| 0 <= q < listed@.len() ==> (#[trigger] listed@[q])@ == reg.prompts[in_order(reg.prompts.dom())[q]].0,
                    item_views(r@) == start + prompt_block(m.prefix@, reg).subrange(0, k as int),
                decreases listed.len() - k,
            {
                let t = listed[k];
                let ghost before = r@;
                let info = PromptInfo {
                    name: CompositeServer::<McpServer<H>>::prefix_name(m.prefix.as_str(), t.name.as_str()),
                    description: copy_opt(&t.description),
                    arguments: copy_arguments(&t.arguments),
                };
                r.push(info);
                proof {
                    assert(item_views(r@) =~= item_views(before).push(info@));
                    assert(prompt_block(m.prefix@, reg).subrange(0, k + 1) =~= prompt_block(m.prefix@, reg).subrange(0, k as int).push(info@));
                }
                k = k + 1;
            }
            proof {
                assert(prompt_block(m.prefix@, reg).subrange(0, k as int) =~= prompt_block(m.prefix@, reg));
                assert(self.servers()[i as int] == m.server);
                assert(blocks[i as int] == prompt_block(m.prefix@, reg));
                assert(blocks.subrange(0, i + 1) =~= blocks.subrange(0, i as int).push(blocks[i as int]));
                blocks.subrange(0, i as int).lemma_flatten_push(blocks[i as int]);
            }
            i = i + 1;
        }
        assert(blocks.subrange(0, i as int) =~= blocks);
        r
    }

    /// The handler of the tool `name` names: the mount it routes to (by
    /// `_`), then that mount's tool. Not found, either way, is reported
    /// under the name the client asked for.
    pub fn tool_handler(&self, name: &str) -> (r: Result<&H, ServerError>)
        ensures
            match routed_mount(self@.prefixes, name@, "_"@) {
                Some(i) => {
                    let reg = self.servers()[i]@.registered;
                    let original = rest_after(name@, self@.prefixes[i], "_"@);
                    if reg.tools.contains_key(original) {
                        r matches Ok(h) && *h == reg.tools[original].1
                    } else {
                        r matches Err(ServerError::ToolNotFound(n)) && n@ == name@
                    }
                },
                None => r matches Err(ServerError::ToolNotFound(n)) && n@ == name@,
            },
    {
        match self.route(name, "_") {
            None => Err(ServerError::ToolNotFound(owned(name))),
            Some((i, original)) => {
                assert(self.servers()[i as int] == self.mounted@[i as int].server);
                match self.mounted[i].server.tool_handler(original.as_str()) {
                    Ok(h) => Ok(h),
                    Err(_) => Err(ServerError::ToolNotFound(owned(name))),
                }
            },
        }
    }

    /// The handler that reads `uri`: the mount it routes to (by `://`),
    /// then that mount's resource or template (`template_matches` speaks
    /// of that mount's templates). Not found is reported under the URI the
    /// client asked for.
    pub fn resource_handler(&self, uri: &str, template_matches: &[bool]) -> (r: Result<&H, ServerError>)
        ensures
            match routed_mount(self@.prefixes, uri@, "://"@) {
                Some(i) => match read_answer(
                    self.servers()[i]@.registered,
                    rest_after(uri@, self@.prefixes[i], "://"@),
                    template_matches@,
                ) {
                    Some(h0) => r matches Ok(h) && *h == h0,
                    None => r matches Err(ServerError::ResourceNotFound(u)) && u@ == uri@,
                },
                None => r matches Err(ServerError::ResourceNotFound(u)) && u@ == uri@,
            },
    {
        match self.route(uri, "://") {
            None => Err(ServerError::ResourceNotFound(owned(uri))),
            Some((i, original)) => {
                assert(self.servers()[i as int] == self.mounted@[i as int].server);
                match self.mounted[i].server.resource_handler(original.as_str(), template_matches) {
                    Ok(h) => Ok(h),
                    Err(_) => Err(ServerError::ResourceNotFound(owned(uri))),
                }
            },
        }
    }

    /// The handler of the prompt `name` names, once the request's arguments
    /// are held to what it declares. Not found is reported under the name
    /// the client asked for; other refusals pass through.
    pub fn prompt_handler(&self, name: &str, args: &ArgumentsShape) -> (r: Result<&H, ServerError>)
        ensures
            match routed_mount(self@.prefixes, name@, "_"@) {
                Some(i) => match prompt_answer(
                    self.servers()[i]@.registered,
                    rest_after(name@, self@.prefixes[i], "_"@),
                    *args,
                ) {
                    Ok(h0) => r matches Ok(h) && *h == h0,
                    Err(None) => r matches Err(ServerError::PromptNotFound(n)) && n@ == name@,
                    Err(Some(m)) => r matches Err(ServerError::InvalidParams(e)) && e@ == m,
                },
                None => r matches Err(ServerError::PromptNotFound(n)) && n@ == name@,
            },
    {
        match self.route(name, "_") {
            None => Err(ServerError::PromptNotFound(owned(name))),
            Some((i, original)) => {
                assert(self.servers()[i as int] == self.mounted@[i as int].server);
                match self.mounted[i].server.prompt_handler(original.as_str(), args) {
                    Ok(h) => Ok(h),
                    Err(ServerError::PromptNotFound(_)) => Err(ServerError::PromptNotFound(owned(name))),
                    Err(e) => Err(e),
                }
            },
        }
    }
    /// The URIs of what mount `i` read, as the client sees them: each
    /// prefixed with the mount's prefix, so that the client reads back the
    /// URI it asked for.
    pub fn echo_uris(&self, i: usize, uris: &[String]) -> (r: Vec<String>)
        requires
            i < self@.prefixes.len(),
        ensures
            r@.len() == uris@.len(),
            forall|k: int|
                0 <= k < uris@.len() ==> #[trigger] r@[k]@ == spec_prefix_uri(
                    self@.prefixes[i as int],
                    uris@[k]@,
                ),
    {
        let prefix = self.mounted[i].prefix.as_str();
        assert(prefix@ == self@.prefixes[i as int]);
        let mut r: Vec<String> = Vec::new();
        let mut k: usize = 0;
        while k < uris.len()
            invariant
                k <= uris@.len(),
                prefix@ == self@.prefixes[i as int],
                r@.len() == k,
                forall|j: int|
                    0 <= j < k ==> #[trigger] r@[j]@ == spec_prefix_uri(prefix@, uris@[j]@),
            decreases uris.len() - k,
        {
            r.push(Self::prefix_uri(prefix, uris[k].as_str()));
            k = k + 1;
        }
        r
    }

    /// The URIs that content blocks from mount `i` link to, as the client
    /// sees them: a URI the mount serves itself (`template_matches[k]`
    /// speaks of its templates for the `k`-th URI) is prefixed so that it
    /// routes back there; any other is left as it is.
    pub fn prefix_served_uris(&self, i: usize, uris: &[String], template_matches: &[Vec<bool>]) -> (r:
        Vec<String>)
        requires
            i < self@.prefixes.len(),
            template_matches@.len() == uris@.len(),
        ensures
            r@.len() == uris@.len(),
            forall|k: int|
                0 <= k < uris@.len() ==> #[trigger] r@[k]@ == if read_answer(
                    self.servers()[i as int]@.registered,
                    uris@[k]@,
                    template_matches@[k]@,
                ) is Some {
                    spec_prefix_uri(self@.prefixes[i as int], uris@[k]@)
                } else {
                    uris@[k]@
                },
    {
        let prefix = self.mounted[i].prefix.as_str();
        let server = &self.mounted[i].server;
        assert(prefix@ == self@.prefixes[i as int]);
        assert(*server == self.servers()[i as int]);
        let mut r: Vec<String> = Vec::new();
        let mut k: usize = 0;
        while k < uris.len()
            invariant
                k <= uris@.len(),
                template_matches@.len() == uris@.len(),
                prefix@ == self@.prefixes[i as int],
                *server == self.servers()[i as int],
                r@.len() == k,
                forall|j: int|
                    0 <= j < k ==> #[trigger] r@[j]@ == if read_answer(
                        server@.registered,
                        uris@[j]@,
                        template_matches@[j]@,
                    ) is Some {
                        spec_prefix_uri(prefix@, uris@[j]@)
                    } else {
                        uris@[j]@
                    },
            decreases uris.len() - k,
        {
            let u = uris[k].as_str();
            if server.serves(u, template_matches[k].as_slice()) {
                r.push(Self::prefix_uri(prefix, u));
            } else {
                r.push(owned(u));
            }
            k = k + 1;
        }
        r
    }
}

/// Every name the composite mints for a mount is answered by that mount,
/// under the name the mount knows: with valid prefixes a minted tool or
/// prompt name, or resource URI, routes to its own mount and no other.
pub proof fn law_minted_names_reach_their_mount(prefixes: Seq<Seq<char>>, i: int, name: Seq<char>)
    requires
        mounts_valid(prefixes),
        0 <= i < prefixes.len(),
    ensures
        routed_mount(prefixes, spec_prefix_name(prefixes[i], name), "_"@) == Some(i),
        routed_mount(prefixes, spec_prefix_uri(prefixes[i], name), "://"@) == Some(i),
        rest_after(spec_prefix_name(prefixes[i], name), prefixes[i], "_"@) == name,
        rest_after(spec_prefix_uri(prefixes[i], name), prefixes[i], "://"@) == name,
{
    let n1 = spec_prefix_name(prefixes[i], name);
    let n2 = spec_prefix_uri(prefixes[i], name);
    assert forall|j: int| 0 <= j < prefixes.len() implies (routes_to(n1, #[trigger] prefixes[j], "_"@)
        ==> j == i) && (routes_to(n2, prefixes[j], "://"@) ==> j == i) by {
        law_minted_names_route_back(prefixes, i, name, j);
    }
    law_minted_names_route_back(prefixes, i, name, i);
    assert(best_route(prefixes, n1, "_"@, i));
    assert(best_route(prefixes, n2, "://"@, i));
    let c1 = choose|c: int| best_route(prefixes, n1, "_"@, c);
    lemma_best_route_unique(prefixes, n1, "_"@, i, c1);
    let c2 = choose|c: int| best_route(prefixes, n2, "://"@, c);
    lemma_best_route_unique(prefixes, n2, "://"@, i, c2);
}

/// The composite's capabilities join those of its mounts: each flag any
/// mount advertises on its own (`McpServer::capabilities`), the composite
/// advertises too, and the composite advertises none that no mount has.
pub proof fn law_capabilities_join_the_mounts<H>(servers: Seq<McpServer<H>>)
    ensures
        forall|i: int|
            0 <= i < servers.len() ==> (server_capabilities((#[trigger] servers[i])@.registered).tools
                ==> composite_capabilities(servers).tools) && (server_capabilities(
                servers[i]@.registered,
            ).resources ==> composite_capabilities(servers).resources) && (server_capabilities(
                servers[i]@.registered,
            ).prompts ==> composite_capabilities(servers).prompts),
        composite_capabilities(servers).tools ==> exists|i: int|
            0 <= i < servers.len() && server_capabilities(
                (#[trigger] servers[i])@.registered,
            ).tools,
        composite_capabilities(servers).resources ==> exists|i: int|
            0 <= i < servers.len() && server_capabilities(
                (#[trigger] servers[i])@.registered,
            ).resources,
        composite_capabilities(servers).prompts ==> exists|i: int|
            0 <= i < servers.len() && server_capabilities(
                (#[trigger] servers[i])@.registered,
            ).prompts,
{
}

} // verus!
