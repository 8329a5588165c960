//! An in-memory test client for MCP servers: the server, the identity its
//! calls are made under (session, user, roles, metadata), what it lists,
//! and assertions over that.
//!
//! Each assertion's condition is its precondition: where a failed
//! assertion would stop a test, a caller here must show the condition
//! holds.
use vstd::prelude::*;

use crate::table::{arranges, in_order, Table};
use crate::text::{owned, views};
use crate::wasm_server::server::{
    ArgumentsShape, McpServer, PromptInfo, ResourceInfo, ServerError, ServerView, ToolInfo,
};

verus! {

/// In-memory test client wrapping a server.
#[derive(Debug)]
pub struct McpTestClient<H> {
    server: McpServer<H>,
    session_id: Option<String>,
    user_id: Option<String>,
    roles: Vec<String>,
    metadata: Table<String>,
}

/// A test client, as values.
pub struct TestClientView<H> {
    /// The server.
    pub server: ServerView<H>,
    /// Session the calls belong to.
    pub session_id: Option<Seq<char>>,
    /// User the calls are made by.
    pub user_id: Option<Seq<char>>,
    /// Roles of that user, in the order given.
    pub roles: Seq<Seq<char>>,
    /// Further metadata.
    pub metadata: Map<Seq<char>, String>,
}

/// The view of an optional string.
pub open spec fn opt_view(s: Option<String>) -> Option<Seq<char>> {
    match s {
        Some(v) => Some(v@),
        None => None,
    }
}

impl<H> View for McpTestClient<H> {
    type V = TestClientView<H>;

    closed spec fn view(&self) -> TestClientView<H> {
        TestClientView {
            server: self.server@,
            session_id: opt_view(self.session_id),
            user_id: opt_view(self.user_id),
            roles: views(self.roles@),
            metadata: self.metadata@,
        }
    }
}

impl<H> McpTestClient<H> {
    /// A client for `server`, with no session, user, roles or metadata.
    pub fn new(server: McpServer<H>) -> (r: Self)
        ensures
            r@.server == server@,
            r@.session_id is None,
            r@.user_id is None,
            r@.roles.len() == 0,
            r@.metadata == Map::<Seq<char>, String>::empty(),
    {
        let r = McpTestClient {
            server,
            session_id: None,
            user_id: None,
            roles: Vec::new(),
            metadata: Table::new(),
        };
        assert(views(r.roles@) =~= Seq::<Seq<char>>::empty());
        r
    }

    /// Make the calls in session `session_id`.
    pub fn with_session(self, session_id: &str) -> (r: Self)
        ensures
            r@ == (TestClientView { session_id: Some(session_id@), ..self@ }),
    {
        let mut c = self;
        c.session_id = Some(owned(session_id));
        c
    }

    /// Make the calls as user `user_id`.
    pub fn with_user(self, user_id: &str) -> (r: Self)
        ensures
            r@ == (TestClientView { user_id: Some(user_id@), ..self@ }),
    {
        let mut c = self;
        c.user_id = Some(owned(user_id));
        c
    }

    /// Add a role.
    pub fn with_role(self, role: &str) -> (r: Self)
        ensures
            r@ == (TestClientView { roles: self@.roles.push(role@), ..self@ }),
    {
        let mut c = self;
        let x = owned(role);
        let ghost before = c.roles@;
        c.roles.push(x);
        proof {
            crate::text::lemma_views_push(before, x);
        }
        c
    }

    /// Replace the roles.
    pub fn with_roles(self, roles: Vec<String>) -> (r: Self)
        ensures
            r@ == (TestClientView { roles: views(roles@), ..self@ }),
    {
        let mut c = self;
        c.roles = roles;
        c
    }

    /// Set metadata `key` to `value`, replacing an earlier value.
    pub fn with_metadata(self, key: &str, value: &str) -> (r: Self)
        ensures
            r@.server == self@.server,
            r@.session_id == self@.session_id,
            r@.user_id == self@.user_id,
            r@.roles == self@.roles,
            r@.metadata.contains_key(key@),
            r@.metadata[key@]@ == value@,
            forall|k: Seq<char>|
                k != key@ ==> (#[trigger] r@.metadata.contains_key(k) == self@.metadata.contains_key(k))
                    && (self@.metadata.contains_key(k) ==> r@.metadata[k] == self@.metadata[k]),
    {
        let mut c = self;
        c.metadata.insert(key, owned(value));
        c
    }

    /// The session the calls belong to, if set.
    pub fn session_id(&self) -> (r: Option<&String>)
        ensures
            match r {
                Some(s) => self@.session_id == Some(s@),
                None => self@.session_id is None,
            },
    {
        self.session_id.as_ref()
    }

    /// The user the calls are made by, if set.
    pub fn user_id(&self) -> (r: Option<&String>)
        ensures
            match r {
                Some(s) => self@.user_id == Some(s@),
                None => self@.user_id is None,
            },
    {
        self.user_id.as_ref()
    }

    /// The roles, in the order given.
    pub fn roles(&self) -> (r: &[String])
        ensures
            views(r@) == self@.roles,
    {
        self.roles.as_slice()
    }

    /// The server.
    pub fn server(&self) -> (r: &McpServer<H>)
        ensures
            r@ == self@.server,
    {
        &self.server
    }

    /// The server's name and version.
    pub fn server_info(&self) -> (r: (&str, &str))
        ensures
            r.0@ == self@.server.name,
            r.1@ == self@.server.version,
    {
        (self.server.name(), self.server.version())
    }

    /// The server's name.
    pub fn server_name(&self) -> (r: &str)
        ensures
            r@ == self@.server.name,
    {
        self.server.name()
    }

    /// The server's version.
    pub fn server_version(&self) -> (r: &str)
        ensures
            r@ == self@.server.version,
    {
        self.server.version()
    }

    /// The tools, ordered by name.
    pub fn list_tools(&self) -> (r: Vec<&ToolInfo>)
        ensures
            r@.len() == in_order(self@.server.registered.tools.dom()).len(),
            forall|i: int|
                0 <= i < r@.len() ==> (#[trigger] r@[i])@ == self@.server.registered.tools[in_order(
                    self@.server.registered.tools.dom(),
                )[i]].0,
    {
        self.server.tools()
    }

    /// The resources, ordered by URI.
    pub fn list_resources(&self) -> (r: Vec<&ResourceInfo>)
        ensures
            r@.len() == in_order(self@.server.registered.resources.dom()).len(),
            forall|i: int|
                0 <= i < r@.len() ==> (#[trigger] r@[i])@ == self@.server.registered.resources[in_order(
                    self@.server.registered.resources.dom(),
                )[i]].0,
    {
        self.server.resources()
    }

    /// The prompts, ordered by name.
    pub fn list_prompts(&self) -> (r: Vec<&PromptInfo>)
        ensures
            r@.len() == in_order(self@.server.registered.prompts.dom()).len(),
            forall|i: int|
                0 <= i < r@.len() ==> (#[trigger] r@[i])@ == self@.server.registered.prompts[in_order(
                    self@.server.registered.prompts.dom(),
                )[i]].0,
    {
        self.server.prompts()
    }

    /// The tool `name`, which must exist.
    pub fn assert_tool_exists(&self, name: &str) -> (r: &ToolInfo)
        requires
            self@.server.registered.tools.contains_key(name@),
        ensures
            r@ == self@.server.registered.tools[name@].0,
    {
        let listed = self.server.tools();
        let ghost order = in_order(self@.server.registered.tools.dom());
        let mut i: usize = 0;
        while i < listed.len() && !crate::text::str_eq(listed[i].name.as_str(), name)
            invariant
                i <= listed@.len(),
                listed@.len() == order.len(),
                arranges(order, self@.server.registered.tools.dom()),
                forall|q: int| 0 <= q < listed@.len() ==> (#[trigger] listed@[q]).name@ == order[q],
                forall|q: int| 0 <= q < i ==> order[q] != name@,
            decreases listed.len() - i,
        {
            i = i + 1;
        }
        proof {
            if i == listed.len() {
                assert(self@.server.registered.tools.dom().contains(name@));
                assert(order.contains(name@));
                let q = choose|q: int| 0 <= q < order.len() && order[q] == name@;
                assert(false);
            }
        }
        listed[i]
    }

    /// The resource `uri`, which must exist.
    pub fn assert_resource_exists(&self, uri: &str) -> (r: &ResourceInfo)
        requires
            self@.server.registered.resources.contains_key(uri@),
        ensures
            r@ == self@.server.registered.resources[uri@].0,
    {
        let listed = self.server.resources();
        let ghost order = in_order(self@.server.registered.resources.dom());
        let mut i: usize = 0;
        while i < listed.len() && !crate::text::str_eq(listed[i].uri.as_str(), uri)
            invariant
                i <= listed@.len(),
                listed@.len() == order.len(),
                arranges(order, self@.server.registered.resources.dom()),
                forall|q: int| 0 <= q < listed@.len() ==> (#[trigger] listed@[q]).uri@ == order[q],
                forall|q: int| 0 <= q < i ==> order[q] != uri@,
            decreases listed.len() - i,
        {
            i = i + 1;
        }
        proof {
            if i == listed.len() {
                assert(self@.server.registered.resources.dom().contains(uri@));
                assert(order.contains(uri@));
                let q = choose|q: int| 0 <= q < order.len() && order[q] == uri@;
                assert(false);
            }
        }
        listed[i]
    }

    /// The prompt `name`, which must exist.
    pub fn assert_prompt_exists(&self, name: &str) -> (r: &PromptInfo)
        requires
            self@.server.registered.prompts.contains_key(name@),
        ensures
            r@ == self@.server.registered.prompts[name@].0,
    {
        let listed = self.server.prompts();
        let ghost order = in_order(self@.server.registered.prompts.dom());
        let mut i: usize = 0;
        while i < listed.len() && !crate::text::str_eq(listed[i].name.as_str(), name)
            invariant
                i <= listed@.len(),
                listed@.len() == order.len(),
                arranges(order, self@.server.registered.prompts.dom()),
                forall|q: int| 0 <= q < listed@.len() ==> (#[trigger] listed@[q]).name@ == order[q],
                forall|q: int| 0 <= q < i ==> order[q] != name@,
            decreases listed.len() - i,
        {
            i = i + 1;
        }
        proof {
            if i == listed.len() {
                assert(self@.server.registered.prompts.dom().contains(name@));
                assert(order.contains(name@));
                let q = choose|q: int| 0 <= q < order.len() && order[q] == name@;
                assert(false);
            }
        }
        listed[i]
    }

    /// Whether tool `name` exists.
    pub fn has_tool(&self, name: &str) -> (r: bool)
        ensures
            r == self@.server.registered.tools.contains_key(name@),
    {
        self.server.tool_handler(name).is_ok()
    }

    /// Whether resource `uri` exists (as a static resource).
    pub fn has_resource(&self, uri: &str) -> (r: bool)
        ensures
            r == self@.server.registered.resources.contains_key(uri@),
    {
        self.server.has_resource(uri)
    }

    /// Whether prompt `name` exists.
    pub fn has_prompt(&self, name: &str) -> (r: bool)
        ensures
            r == self@.server.registered.prompts.contains_key(name@),
    {
        match self.server.prompt_handler(name, &ArgumentsShape::NotAnObject) {
            Err(ServerError::PromptNotFound(_)) => false,
            _ => true,
        }
    }

    /// The number of tools.
    pub fn tool_count(&self) -> (r: usize)
        ensures
            r == self@.server.registered.tools.dom().len(),
    {
        self.server.tool_count()
    }

    /// The number of resources.
    pub fn resource_count(&self) -> (r: usize)
        ensures
            r == self@.server.registered.resources.dom().len(),
    {
        self.server.resource_count()
    }

    /// The number of prompts.
    pub fn prompt_count(&self) -> (r: usize)
        ensures
            r == self@.server.registered.prompts.dom().len(),
    {
        self.server.prompt_count()
    }

    /// No tool `name` exists.
    pub fn assert_tool_not_exists(&self, name: &str)
        requires
            !self@.server.registered.tools.contains_key(name@),
    {
    }

    /// Exactly `expected` tools exist.
    pub fn assert_tool_count(&self, expected: usize)
        requires
            self@.server.registered.tools.dom().len() == expected,
    {
    }

    /// Exactly `expected` resources exist.
    pub fn assert_resource_count(&self, expected: usize)
        requires
            self@.server.registered.resources.dom().len() == expected,
    {
    }

    /// Exactly `expected` prompts exist.
    pub fn assert_prompt_count(&self, expected: usize)
        requires
            self@.server.registered.prompts.dom().len() == expected,
    {
    }
}

} // verus!
