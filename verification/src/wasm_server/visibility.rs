//! Progressive disclosure: which tools, resources and prompts a session
//! sees, decided by tags.
//!
//! Components carry tags; global filters hide every component carrying one
//! of theirs; a session may switch tags on (showing what the global filters
//! hide) or off (hiding what they show).
use vstd::prelude::*;

use crate::table::in_order;
use crate::text::{lemma_views_push, owned, views};
use crate::wasm_server::server::{
    first_match, prompt_answer, read_answer, ArgumentsShape, McpServer, Registrations, ServerError,
    ToolInfo,
};
use crate::wasm_server::tag_table::{any_tag, tag_set, tags_in, TagTable};

verus! {

/// The views of a list of string slices.
pub open spec fn str_views(s: Seq<&str>) -> Seq<Seq<char>> {
    s.map_values(|x: &str| x@)
}

/// A tag-based component filter.
#[derive(Debug)]
pub struct ComponentFilter {
    /// Tags to match.
    pub tags: Vec<String>,
}

/// Whether any of `component` is in `tags`.
pub open spec fn any_in(component: Seq<Seq<char>>, tags: Set<Seq<char>>) -> bool {
    exists|i: int| 0 <= i < component.len() && tags.contains(#[trigger] component[i])
}

impl Default for ComponentFilter {
    fn default() -> (r: Self)
        ensures
            r.tags@.len() == 0,
    {
        ComponentFilter { tags: Vec::new() }
    }
}

impl ComponentFilter {
    /// The set of tags the filter matches.
    pub open spec fn tag_set(self) -> Set<Seq<char>> {
        tag_set(self.tags@)
    }

    /// An empty filter, which matches nothing.
    pub fn new() -> (r: Self)
        ensures
            r.tag_set() == Set::<Seq<char>>::empty(),
    {
        let r = ComponentFilter { tags: Vec::new() };
        assert(r.tag_set() =~= Set::<Seq<char>>::empty());
        r
    }

    /// A filter matching components with any of `tags`.
    pub fn with_tags(tags: &[&str]) -> (r: Self)
        ensures
            r.tag_set() == str_views(tags@).to_set(),
    {
        let mut v: Vec<String> = Vec::new();
        let mut i: usize = 0;
        while i < tags.len()
            invariant
                i <= tags@.len(),
                views(v@) == str_views(tags@.subrange(0, i as int)),
            decreases tags.len() - i,
        {
            let ghost before = v@;
            let x = owned(tags[i]);
            v.push(x);
            proof {
                lemma_views_push(before, x);
                assert(str_views(tags@.subrange(0, i + 1)) =~= str_views(
                    tags@.subrange(0, i as int),
                ).push(tags@[i as int]@));
            }
            i = i + 1;
        }
        assert(tags@.subrange(0, tags@.len() as int) =~= tags@);
        ComponentFilter { tags: v }
    }

    /// Whether the filter matches a component with `component_tags`: does
    /// it share a tag with them?
    pub fn matches(&self, component_tags: &[String]) -> (r: bool)
        ensures
            r == any_in(views(component_tags@), self.tag_set()),
    {
        let r = any_tag(component_tags, &self.tags);
        proof {
            if r {
                let i = choose|i: int|
                    0 <= i < component_tags@.len() && tag_set(self.tags@).contains(
                        #[trigger] component_tags@[i]@,
                    );
                assert(views(component_tags@)[i] == component_tags@[i]@);
            }
            if any_in(views(component_tags@), self.tag_set()) {
                let i = choose|i: int|
                    0 <= i < views(component_tags@).len() && self.tag_set().contains(
                        #[trigger] views(component_tags@)[i],
                    );
                assert(views(component_tags@)[i] == component_tags@[i]@);
            }
        }
        r
    }
}

/// The visibility rules, as values.
pub struct VisibilityView {
    /// Tag sets of the global filters.
    pub global: Seq<Set<Seq<char>>>,
    /// Tags each session switched on.
    pub enabled: Map<Seq<char>, Set<Seq<char>>>,
    /// Tags each session switched off.
    pub disabled: Map<Seq<char>, Set<Seq<char>>>,
    /// Tags of each tool.
    pub tools: Map<Seq<char>, Set<Seq<char>>>,
    /// Tags of each resource URI or URI template.
    pub resources: Map<Seq<char>, Set<Seq<char>>>,
    /// Tags of each prompt.
    pub prompts: Map<Seq<char>, Set<Seq<char>>>,
}

/// Whether a global filter hides a component with `component` tags.
pub open spec fn globally_hidden(global: Seq<Set<Seq<char>>>, component: Seq<Seq<char>>) -> bool {
    exists|i: int| 0 <= i < global.len() && any_in(component, #[trigger] global[i])
}

/// Whether a component with `component` tags is visible to `session`.
///
/// A component no global filter hides is shown, unless the session switched
/// off one of its tags; one a global filter hides is shown only if the
/// session switched on one of its tags.
pub open spec fn spec_is_visible(
    v: VisibilityView,
    component: Seq<Seq<char>>,
    session: Option<Seq<char>>,
) -> bool {
    if !globally_hidden(v.global, component) {
        !(session matches Some(s) && v.disabled.contains_key(s) && any_in(component, v.disabled[s]))
    } else {
        session matches Some(s) && v.enabled.contains_key(s) && any_in(component, v.enabled[s])
    }
}

/// The rules after a session switches `tags` on: they join its switched-on
/// tags and leave its switched-off ones.
pub open spec fn spec_enable(v: VisibilityView, s: Seq<char>, tags: Set<Seq<char>>) -> VisibilityView {
    VisibilityView {
        enabled: v.enabled.insert(s, tags_in(v.enabled, s).union(tags)),
        disabled: if v.disabled.contains_key(s) {
            v.disabled.insert(s, v.disabled[s].difference(tags))
        } else {
            v.disabled
        },
        ..v
    }
}

/// The rules after a session switches `tags` off.
pub open spec fn spec_disable(v: VisibilityView, s: Seq<char>, tags: Set<Seq<char>>) -> VisibilityView {
    VisibilityView {
        disabled: v.disabled.insert(s, tags_in(v.disabled, s).union(tags)),
        enabled: if v.enabled.contains_key(s) {
            v.enabled.insert(s, v.enabled[s].difference(tags))
        } else {
            v.enabled
        },
        ..v
    }
}

/// The rules after a session's overrides are dropped.
pub open spec fn spec_clear(v: VisibilityView, s: Seq<char>) -> VisibilityView {
    VisibilityView { enabled: v.enabled.remove(s), disabled: v.disabled.remove(s), ..v }
}

/// The sessions that have overrides.
pub open spec fn active_sessions(v: VisibilityView) -> Set<Seq<char>> {
    v.enabled.dom().union(v.disabled.dom())
}

/// Tag-based visibility rules for a server's components.
#[derive(Debug)]
pub struct VisibilityLayer {
    global_disabled: Vec<ComponentFilter>,
    session_enabled: TagTable,
    session_disabled: TagTable,
    tool_tags: TagTable,
    resource_tags: TagTable,
    prompt_tags: TagTable,
}

impl View for VisibilityLayer {
    type V = VisibilityView;

    closed spec fn view(&self) -> VisibilityView {
        VisibilityView {
            global: self.global_disabled@.map_values(|f: ComponentFilter| f.tag_set()),
            enabled: self.session_enabled@,
            disabled: self.session_disabled@,
            tools: self.tool_tags@,
            resources: self.resource_tags@,
            prompts: self.prompt_tags@,
        }
    }
}

/// The guard of a session's visibility overrides; handing it back to
/// [`VisibilityLayer::end_session`] drops them.
#[derive(Debug)]
pub struct VisibilitySessionGuard {
    session_id: String,
}

impl VisibilitySessionGuard {
    /// The session id, as a value.
    pub closed spec fn id(self) -> Seq<char> {
        self.session_id@
    }

    /// The session this guard manages.
    pub fn session_id(&self) -> (r: &str)
        ensures
            r@ == self.id(),
    {
        self.session_id.as_str()
    }
}

impl VisibilityLayer {
    /// No filters, no overrides, no tags.
    pub fn new() -> (r: Self)
        ensures
            r@.global.len() == 0,
            r@.enabled == Map::<Seq<char>, Set<Seq<char>>>::empty(),
            r@.disabled == Map::<Seq<char>, Set<Seq<char>>>::empty(),
            r@.tools == Map::<Seq<char>, Set<Seq<char>>>::empty(),
            r@.resources == Map::<Seq<char>, Set<Seq<char>>>::empty(),
            r@.prompts == Map::<Seq<char>, Set<Seq<char>>>::empty(),
    {
        VisibilityLayer {
            global_disabled: Vec::new(),
            session_enabled: TagTable::new(),
            session_disabled: TagTable::new(),
            tool_tags: TagTable::new(),
            resource_tags: TagTable::new(),
            prompt_tags: TagTable::new(),
        }
    }

    /// Tag a tool, replacing its earlier tags.
    pub fn with_tool_tags(self, tool_name: &str, tags: &[String]) -> (r: Self)
        ensures
            r@ == (VisibilityView {
                tools: self@.tools.insert(tool_name@, tag_set(tags@)),
                ..self@
            }),
    {
        let mut s = self;
        s.tool_tags.set(tool_name, tags);
        s
    }

    /// Tag a resource URI or URI template, replacing its earlier tags.
    pub fn with_resource_tags(self, uri: &str, tags: &[String]) -> (r: Self)
        ensures
            r@ == (VisibilityView {
                resources: self@.resources.insert(uri@, tag_set(tags@)),
                ..self@
            }),
    {
        let mut s = self;
        s.resource_tags.set(uri, tags);
        s
    }

    /// Tag a prompt, replacing its earlier tags.
    pub fn with_prompt_tags(self, prompt_name: &str, tags: &[String]) -> (r: Self)
        ensures
            r@ == (VisibilityView {
                prompts: self@.prompts.insert(prompt_name@, tag_set(tags@)),
                ..self@
            }),
    {
        let mut s = self;
        s.prompt_tags.set(prompt_name, tags);
        s
    }

    /// Hide components matching `filter` globally.
    pub fn with_disabled(self, filter: ComponentFilter) -> (r: Self)
        ensures
            r@ == (VisibilityView { global: self@.global.push(filter.tag_set()), ..self@ }),
    {
        let mut s = self;
        let ghost before = s.global_disabled@;
        let ghost fs = filter.tag_set();
        s.global_disabled.push(filter);
        assert(s.global_disabled@.map_values(|f: ComponentFilter| f.tag_set()) =~= before.map_values(
            |f: ComponentFilter| f.tag_set(),
        ).push(fs));
        s
    }

    /// Hide components with any of `tags` globally.
    pub fn disable_tags(self, tags: &[&str]) -> (r: Self)
        ensures
            r@ == (VisibilityView { global: self@.global.push(str_views(tags@).to_set()), ..self@ }),
    {
        self.with_disabled(ComponentFilter::with_tags(tags))
    }

    /// Switch `tags` on for a session.
    pub fn enable_for_session(&mut self, session_id: &str, tags: &[String])
        ensures
            final(self)@ == spec_enable(old(self)@, session_id@, tag_set(tags@)),
    {
        self.session_enabled.add(session_id, tags);
        self.session_disabled.subtract(session_id, tags);
        assert(final(self)@.disabled =~= spec_enable(
            old(self)@,
            session_id@,
            tag_set(tags@),
        ).disabled);
    }

    /// Switch `tags` off for a session.
    pub fn disable_for_session(&mut self, session_id: &str, tags: &[String])
        ensures
            final(self)@ == spec_disable(old(self)@, session_id@, tag_set(tags@)),
    {
        self.session_disabled.add(session_id, tags);
        self.session_enabled.subtract(session_id, tags);
    }

    /// Drop a session's overrides.
    pub fn clear_session(&mut self, session_id: &str)
        ensures
            final(self)@ == spec_clear(old(self)@, session_id@),
    {
        self.session_enabled.remove(session_id);
        self.session_disabled.remove(session_id);
    }

    /// A guard for a session's overrides.
    pub fn session_guard(&self, session_id: &str) -> (r: VisibilitySessionGuard)
        ensures
            r.id() == session_id@,
    {
        VisibilitySessionGuard { session_id: owned(session_id) }
    }

    /// End the session a guard manages: its overrides are dropped.
    pub fn end_session(&mut self, guard: VisibilitySessionGuard)
        ensures
            final(self)@ == spec_clear(old(self)@, guard.id()),
    {
        self.clear_session(guard.session_id.as_str());
    }

    /// The number of sessions with overrides.
    pub fn active_sessions_count(&self) -> (r: usize)
        ensures
            r == active_sessions(self@).len(),
    {
        let a = self.session_enabled.keys();
        let b = self.session_disabled.keys();
        let mut all = a;
        let mut i: usize = 0;
        while i < b.len()
            invariant
                i <= b@.len(),
                views(b@).to_set() == self@.disabled.dom(),
                views(b@).no_duplicates(),
                views(all@).no_duplicates(),
                views(all@).to_set() == self@.enabled.dom().union(
                    views(b@.subrange(0, i as int)).to_set(),
                ),
            decreases b.len() - i,
        {
            let key = b[i].as_str();
            let present = self.session_enabled.contains_key(key);
            proof {
                crate::text::lemma_views_prefix(b@, i as int);
                views(b@.subrange(0, i as int)).lemma_push_to_set_commute(b@[i as int]@);
            }
            if !present {
                let ghost before = all@;
                let x = owned(key);
                proof {
                    assert(!views(before).to_set().contains(key@)) by {
                        if views(b@.subrange(0, i as int)).to_set().contains(key@) {
                            let j = choose|j: int|
                                0 <= j < views(b@.subrange(0, i as int)).len() && views(
                                    b@.subrange(0, i as int),
                                )[j] == key@;
                            assert(views(b@)[j] == views(b@)[i as int]);
                        }
                    }
                }
                all.push(x);
                proof {
                    lemma_views_push(before, x);
                    views(before).lemma_push_to_set_commute(key@);
                    assert(views(all@).no_duplicates()) by {
                        assert forall|p: int, q: int|
                            0 <= p < views(all@).len() && 0 <= q < views(all@).len() && p != q implies views(
                            all@,
                        )[p] != views(all@)[q] by {
                            if p == before.len() {
                                assert(views(before).contains(views(before)[q]));
                            } else if q == before.len() {
                                assert(views(before).contains(views(before)[p]));
                            }
                        }
                    }
                }
            }
            i = i + 1;
        }
        proof {
            assert(b@.subrange(0, b@.len() as int) =~= b@);
            views(all@).unique_seq_to_set();
            assert(views(all@).to_set() =~= active_sessions(self@));
        }
        all.len()
    }

    /// Whether a component with `component_tags` is visible to `session_id`.
    pub fn is_visible(&self, component_tags: &[String], session_id: Option<&str>) -> (r: bool)
        ensures
            r == spec_is_visible(
                self@,
                views(component_tags@),
                match session_id {
                    Some(s) => Some(s@),
                    None => None,
                },
            ),
    {
        let mut hidden = false;
        let mut i: usize = 0;
        while i < self.global_disabled.len()
            invariant
                i <= self.global_disabled@.len(),
                self@.global.len() == self.global_disabled@.len(),
                hidden == exists|j: int|
                    0 <= j < i && any_in(views(component_tags@), #[trigger] self@.global[j]),
            decreases self.global_disabled.len() - i,
        {
            if self.global_disabled[i].matches(component_tags) {
                hidden = true;
            }
            assert(self@.global[i as int] == self.global_disabled@[i as int].tag_set());
            i = i + 1;
        }
        let ghost comp = views(component_tags@);
        if !hidden {
            match session_id {
                Some(sid) => match self.session_disabled.get(sid) {
                    Some(tags) => {
                        let r = any_tag(component_tags, tags);
                        proof {
                            if r {
                                let k = choose|k: int|
                                    0 <= k < component_tags@.len() && tag_set(tags@).contains(
                                        #[trigger] component_tags@[k]@,
                                    );
                                assert(comp[k] == component_tags@[k]@);
                            }
                            if any_in(comp, self@.disabled[sid@]) {
                                let k = choose|k: int|
                                    0 <= k < comp.len() && self@.disabled[sid@].contains(
                                        #[trigger] comp[k],
                                    );
                                assert(comp[k] == component_tags@[k]@);
                            }
                        }
                        !r
                    },
                    None => true,
                },
                None => true,
            }
        } else {
            match session_id {
                Some(sid) => match self.session_enabled.get(sid) {
                    Some(tags) => {
                        let r = any_tag(component_tags, tags);
                        proof {
                            if r {
                                let k = choose|k: int|
                                    0 <= k < component_tags@.len() && tag_set(tags@).contains(
                                        #[trigger] component_tags@[k]@,
                                    );
                                assert(comp[k] == component_tags@[k]@);
                            }
                            if any_in(comp, self@.enabled[sid@]) {
                                let k = choose|k: int|
                                    0 <= k < comp.len() && self@.enabled[sid@].contains(
                                        #[trigger] comp[k],
                                    );
                                assert(comp[k] == component_tags@[k]@);
                            }
                        }
                        r
                    },
                    None => false,
                },
                None => false,
            }
        }
    }
}

/// Switching tags on for a session shows it every component all of whose
/// tags are among them, whatever the global filters say.
pub proof fn law_enable_shows(
    v: VisibilityView,
    s: Seq<char>,
    tags: Set<Seq<char>>,
    component: Seq<Seq<char>>,
)
    requires
        component.len() > 0,
        forall|i: int| 0 <= i < component.len() ==> tags.contains(#[trigger] component[i]),
    ensures
        spec_is_visible(spec_enable(v, s, tags), component, Some(s)),
{
    let w = spec_enable(v, s, tags);
    assert(tags.contains(component[0]));
    assert(w.enabled[s].contains(component[0]));
    if w.disabled.contains_key(s) && any_in(component, w.disabled[s]) {
        let k = choose|k: int| 0 <= k < component.len() && w.disabled[s].contains(
            #[trigger] component[k],
        );
        assert(tags.contains(component[k]));
    }
}

/// Switching tags off for a session hides from it every component all of
/// whose tags are among them.
pub proof fn law_disable_hides(
    v: VisibilityView,
    s: Seq<char>,
    tags: Set<Seq<char>>,
    component: Seq<Seq<char>>,
)
    requires
        component.len() > 0,
        forall|i: int| 0 <= i < component.len() ==> tags.contains(#[trigger] component[i]),
    ensures
        !spec_is_visible(spec_disable(v, s, tags), component, Some(s)),
{
    let w = spec_disable(v, s, tags);
    assert(tags.contains(component[0]));
    assert(w.disabled[s].contains(component[0]));
    if w.enabled.contains_key(s) && any_in(component, w.enabled[s]) {
        let k = choose|k: int| 0 <= k < component.len() && w.enabled[s].contains(
            #[trigger] component[k],
        );
        assert(tags.contains(component[k]));
    }
}

/// A session's overrides touch no other session, nor the global rules.
pub proof fn law_sessions_are_isolated(
    v: VisibilityView,
    s: Seq<char>,
    other: Option<Seq<char>>,
    tags: Set<Seq<char>>,
    component: Seq<Seq<char>>,
)
    requires
        other != Some(s),
    ensures
        spec_is_visible(spec_enable(v, s, tags), component, other) == spec_is_visible(
            v,
            component,
            other,
        ),
        spec_is_visible(spec_disable(v, s, tags), component, other) == spec_is_visible(
            v,
            component,
            other,
        ),
        spec_is_visible(spec_clear(v, s), component, other) == spec_is_visible(v, component, other),
{
    match other {
        Some(o) => {
            let e = spec_enable(v, s, tags);
            let d = spec_disable(v, s, tags);
            assert(e.global == v.global && d.global == v.global);
            assert(e.enabled.contains_key(o) == v.enabled.contains_key(o));
            assert(e.disabled.contains_key(o) == v.disabled.contains_key(o));
            assert(d.enabled.contains_key(o) == v.enabled.contains_key(o));
            assert(d.disabled.contains_key(o) == v.disabled.contains_key(o));
            if v.enabled.contains_key(o) {
                assert(e.enabled[o] == v.enabled[o]);
                assert(d.enabled[o] == v.enabled[o]);
            }
            if v.disabled.contains_key(o) {
                assert(e.disabled[o] == v.disabled[o]);
                assert(d.disabled[o] == v.disabled[o]);
            }
        },
        None => {},
    }
}

/// Once a session's overrides are dropped it sees what the global rules
/// show, and it no longer counts as active.
pub proof fn law_clear_restores_global_rules(
    v: VisibilityView,
    s: Seq<char>,
    component: Seq<Seq<char>>,
)
    ensures
        spec_is_visible(spec_clear(v, s), component, Some(s)) == spec_is_visible(
            v,
            component,
            None,
        ),
        !active_sessions(spec_clear(v, s)).contains(s),
        active_sessions(spec_clear(v, s)) == active_sessions(v).remove(s),
{
    assert(active_sessions(spec_clear(v, s)) =~= active_sessions(v).remove(s));
}

/// Whether two tag sets share a tag.
pub open spec fn shares_tag(a: Set<Seq<char>>, b: Set<Seq<char>>) -> bool {
    exists|t: Seq<char>| a.contains(t) && #[trigger] b.contains(t)
}

/// Whether a component tagged `tags` is visible to `session`:
/// [`spec_is_visible`] stated over the component's tag set.
pub open spec fn shows(v: VisibilityView, tags: Set<Seq<char>>, session: Option<Seq<char>>) -> bool {
    if !(exists|i: int| 0 <= i < v.global.len() && shares_tag(tags, #[trigger] v.global[i])) {
        !(session matches Some(s) && v.disabled.contains_key(s) && shares_tag(tags, v.disabled[s]))
    } else {
        session matches Some(s) && v.enabled.contains_key(s) && shares_tag(tags, v.enabled[s])
    }
}

proof fn lemma_any_in_shares(c: Seq<Seq<char>>, t: Set<Seq<char>>)
    ensures
        any_in(c, t) == shares_tag(c.to_set(), t),
{
    if any_in(c, t) {
        let i = choose|i: int| 0 <= i < c.len() && t.contains(#[trigger] c[i]);
        assert(c.to_set().contains(c[i]));
    }
    if shares_tag(c.to_set(), t) {
        let x = choose|x: Seq<char>| c.to_set().contains(x) && #[trigger] t.contains(x);
        assert(c.contains(x));
        let i = choose|i: int| 0 <= i < c.len() && c[i] == x;
        assert(t.contains(c[i]));
    }
}

/// Visibility depends on a component's tags only as a set.
proof fn lemma_shows(v: VisibilityView, c: Seq<Seq<char>>, session: Option<Seq<char>>)
    ensures
        spec_is_visible(v, c, session) == shows(v, c.to_set(), session),
{
    assert forall|i: int| 0 <= i < v.global.len() implies any_in(c, #[trigger] v.global[i])
        == shares_tag(c.to_set(), v.global[i]) by {
        lemma_any_in_shares(c, v.global[i]);
    }
    if let Some(s) = session {
        if v.disabled.contains_key(s) {
            lemma_any_in_shares(c, v.disabled[s]);
        }
        if v.enabled.contains_key(s) {
            lemma_any_in_shares(c, v.enabled[s]);
        }
    }
}

/// The optional view of an optional string slice.
pub open spec fn opt_view(s: Option<&str>) -> Option<Seq<char>> {
    match s {
        Some(v) => Some(v@),
        None => None,
    }
}

/// The tags a resource URI is judged by: its own, else those of the first
/// template (in listing order) that `m` says it is read through, else none.
pub open spec fn resource_tags_for<H>(
    v: VisibilityView,
    r: Registrations<H>,
    uri: Seq<char>,
    m: Seq<bool>,
) -> Set<Seq<char>> {
    if v.resources.contains_key(uri) {
        v.resources[uri]
    } else {
        let order = in_order(r.templates.dom());
        match first_match(m, order.len() as int, 0) {
            Some(i) => tags_in(v.resources, order[i]),
            None => Set::empty(),
        }
    }
}

/// The keys of a listing that `session` sees.
pub open spec fn visible_keys(
    v: VisibilityView,
    keys: Seq<Seq<char>>,
    tags: Map<Seq<char>, Set<Seq<char>>>,
    session: Option<Seq<char>>,
) -> Seq<Seq<char>> {
    keys.filter(|k: Seq<char>| shows(v, tags_in(tags, k), session))
}

impl VisibilityLayer {
    /// Whether a component tagged `tags` (by a tag table entry) is visible.
    fn shows_tags(&self, tags: Option<&Vec<String>>, session_id: Option<&str>) -> (r: bool)
        ensures
            r == shows(
                self@,
                match tags {
                    Some(t) => tag_set(t@),
                    None => Set::empty(),
                },
                opt_view(session_id),
            ),
    {
        let empty: Vec<String> = Vec::new();
        let t: &Vec<String> = match tags {
            Some(t) => t,
            None => &empty,
        };
        let r = self.is_visible(t.as_slice(), session_id);
        proof {
            lemma_shows(self@, views(t@), opt_view(session_id));
            if tags.is_none() {
                assert(views(t@).to_set() =~= Set::<Seq<char>>::empty());
            }
        }
        r
    }

    /// Whether the tool `name` is visible to `session_id`.
    pub fn tool_visible(&self, name: &str, session_id: Option<&str>) -> (r: bool)
        ensures
            r == shows(self@, tags_in(self@.tools, name@), opt_view(session_id)),
    {
        self.shows_tags(self.tool_tags.get(name), session_id)
    }

    /// Whether the prompt `name` is visible to `session_id`.
    pub fn prompt_visible(&self, name: &str, session_id: Option<&str>) -> (r: bool)
        ensures
            r == shows(self@, tags_in(self@.prompts, name@), opt_view(session_id)),
    {
        self.shows_tags(self.prompt_tags.get(name), session_id)
    }

    /// Whether the resource or template keyed `key` is visible, by its own
    /// tags.
    pub fn resource_visible(&self, key: &str, session_id: Option<&str>) -> (r: bool)
        ensures
            r == shows(self@, tags_in(self@.resources, key@), opt_view(session_id)),
    {
        self.shows_tags(self.resource_tags.get(key), session_id)
    }

    /// The tools of `server` that `session_id` sees, in listing order.
    pub fn visible_tools<'a, H>(&self, server: &'a McpServer<H>, session_id: Option<&str>) -> (r: Vec<
        &'a ToolInfo,
    >)
        ensures
            r@.len() == visible_keys(
                self@,
                in_order(server@.registered.tools.dom()),
                self@.tools,
                opt_view(session_id),
            ).len(),
            forall|i: int|
                0 <= i < r@.len() ==> (#[trigger] r@[i])@ == server@.registered.tools[visible_keys(
                    self@,
                    in_order(server@.registered.tools.dom()),
                    self@.tools,
                    opt_view(session_id),
                )[i]].0,
    {
        let listed = server.tools();
        let ghost order = in_order(server@.registered.tools.dom());
        let ghost pred = |k: Seq<char>| shows(self@, tags_in(self@.tools, k), opt_view(session_id));
        let mut r: Vec<&ToolInfo> = Vec::new();
        let mut i: usize = 0;
        proof {
            reveal(Seq::filter);
            assert(order.subrange(0, 0).filter(pred) =~= Seq::<Seq<char>>::empty());
        }
        while i < listed.len()
            invariant
                i <= listed@.len(),
                listed@.len() == order.len(),
                order == in_order(server@.registered.tools.dom()),
                pred == (|k: Seq<char>| shows(self@, tags_in(self@.tools, k), opt_view(session_id))),
                forall|q: int| 0 <= q < listed@.len() ==> (#[trigger] listed@[q])@ == server@.registered.tools[order[q]].0,
                forall|q: int| 0 <= q < listed@.len() ==> (#[trigger] listed@[q]).name@ == order[q],
                r@.len() == order.subrange(0, i as int).filter(pred).len(),
                forall|q: int|
                    0 <= q < r@.len() ==> (#[trigger] r@[q])@ == server@.registered.tools[order.subrange(
                        0,
                        i as int,
                    ).filter(pred)[q]].0,
            decreases listed.len() - i,
        {
            let t = listed[i];
            let ghost before = order.subrange(0, i as int).filter(pred);
            proof {
                reveal(Seq::filter);
                assert(order.subrange(0, i + 1).drop_last() =~= order.subrange(0, i as int));
                assert(order.subrange(0, i + 1).last() == order[i as int]);
            }
            if self.tool_visible(t.name.as_str(), session_id) {
                r.push(t);
                proof {
                    assert(pred(order[i as int]));
                    assert(order.subrange(0, i + 1).filter(pred) == before.push(order[i as int]));
                }
            } else {
                proof {
                    assert(!pred(order[i as int]));
                    assert(order.subrange(0, i + 1).filter(pred) == before);
                }
            }
            i = i + 1;
        }
        proof {
            assert(order.subrange(0, i as int) =~= order);
        }
        r
    }

    /// The handler of tool `name` for `session_id`: a tool the session
    /// does not see is refused exactly as an unknown one is.
    pub fn tool_handler<'a, H>(&self, server: &'a McpServer<H>, name: &str, session_id: Option<&str>) -> (r:
        Result<&'a H, ServerError>)
        ensures
            shows(self@, tags_in(self@.tools, name@), opt_view(session_id))
                && server@.registered.tools.contains_key(name@) ==> (r matches Ok(h) && *h
                == server@.registered.tools[name@].1),
            !(shows(self@, tags_in(self@.tools, name@), opt_view(session_id))
                && server@.registered.tools.contains_key(name@)) ==> (r matches Err(
                ServerError::ToolNotFound(n),
            ) && n@ == name@),
    {
        if !self.tool_visible(name, session_id) {
            return Err(ServerError::ToolNotFound(owned(name)));
        }
        server.tool_handler(name)
    }

    /// The handler of prompt `name` for `session_id`: a prompt the session
    /// does not see is refused exactly as an unknown one is.
    pub fn prompt_handler<'a, H>(
        &self,
        server: &'a McpServer<H>,
        name: &str,
        args: &ArgumentsShape,
        session_id: Option<&str>,
    ) -> (r: Result<&'a H, ServerError>)
        ensures
            !shows(self@, tags_in(self@.prompts, name@), opt_view(session_id)) ==> (r matches Err(
                ServerError::PromptNotFound(n),
            ) && n@ == name@),
            shows(self@, tags_in(self@.prompts, name@), opt_view(session_id)) ==> match prompt_answer(
                server@.registered,
                name@,
                *args,
            ) {
                Ok(h0) => r matches Ok(h) && *h == h0,
                Err(None) => r matches Err(ServerError::PromptNotFound(n)) && n@ == name@,
                Err(Some(m)) => r matches Err(ServerError::InvalidParams(e)) && e@ == m,
            },
    {
        if !self.prompt_visible(name, session_id) {
            return Err(ServerError::PromptNotFound(owned(name)));
        }
        server.prompt_handler(name, args)
    }

    /// The handler that reads `uri` for `session_id`, judged by the tags of
    /// the resource, or of the template it is read through; a resource the
    /// session does not see is refused exactly as an unknown one is.
    pub fn resource_handler<'a, H>(
        &self,
        server: &'a McpServer<H>,
        uri: &str,
        template_matches: &[bool],
        session_id: Option<&str>,
    ) -> (r: Result<&'a H, ServerError>)
        ensures
            !shows(
                self@,
                resource_tags_for(self@, server@.registered, uri@, template_matches@),
                opt_view(session_id),
            ) ==> (r matches Err(ServerError::ResourceNotFound(u)) && u@ == uri@),
            shows(
                self@,
                resource_tags_for(self@, server@.registered, uri@, template_matches@),
                opt_view(session_id),
            ) ==> match read_answer(server@.registered, uri@, template_matches@) {
                Some(h0) => r matches Ok(h) && *h == h0,
                None => r matches Err(ServerError::ResourceNotFound(u)) && u@ == uri@,
            },
    {
        let visible = match self.resource_tags.get(uri) {
            Some(tags) => self.shows_tags(Some(tags), session_id),
            None => {
                let templates = server.resource_templates();
                let ghost order = in_order(server@.registered.templates.dom());
                let mut i: usize = 0;
                while i < templates.len() && !(i < template_matches.len() && template_matches[i])
                    invariant
                        i <= templates@.len(),
                        templates@.len() == order.len(),
                        first_match(template_matches@, order.len() as int, 0) == first_match(
                            template_matches@,
                            order.len() as int,
                            i as int,
                        ),
                    decreases templates.len() - i,
                {
                    i = i + 1;
                }
                if i < templates.len() {
                    assert(first_match(template_matches@, order.len() as int, i as int) == Some(i as int));
                    assert(templates@[i as int].uri_template@ == order[i as int]);
                    self.resource_visible(templates[i].uri_template.as_str(), session_id)
                } else {
                    self.shows_tags(None, session_id)
                }
            },
        };
        if !visible {
            return Err(ServerError::ResourceNotFound(owned(uri)));
        }
        server.resource_handler(uri, template_matches)
    }
}

/// A tool a session does not see is not listed to it, and a tool it sees
/// is listed when registered: the listing is the registered names the
/// session sees. (A call of a hidden tool is answered as for an unknown
/// one; see [`VisibilityLayer::tool_handler`].)
pub proof fn law_listing_shows_exactly_the_visible(
    v: VisibilityView,
    keys: Seq<Seq<char>>,
    session: Option<Seq<char>>,
    name: Seq<char>,
)
    ensures
        !shows(v, tags_in(v.tools, name), session) ==> !visible_keys(v, keys, v.tools, session).contains(
            name,
        ),
        shows(v, tags_in(v.tools, name), session) && keys.contains(name) ==> visible_keys(
            v,
            keys,
            v.tools,
            session,
        ).contains(name),
{
    let pred = |k: Seq<char>| shows(v, tags_in(v.tools, k), session);
    let f = keys.filter(pred);
    if f.contains(name) {
        let i = choose|i: int| 0 <= i < f.len() && f[i] == name;
        keys.lemma_filter_pred(pred, i);
    }
    if keys.contains(name) && pred(name) {
        let i = choose|i: int| 0 <= i < keys.len() && keys[i] == name;
        keys.lemma_filter_contains(pred, i);
    }
}

} // verus!
