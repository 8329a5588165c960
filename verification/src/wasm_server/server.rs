//! The MCP server for WASM: what it has registered, what it advertises, and
//! which handler answers a call.
//!
//! Handlers are carried as values of the type parameter `H` and handed out
//! to the caller that runs them. Tools, resources, resource templates and
//! prompts are keyed by name (by URI for resources, by URI template for
//! templates); registering a key again replaces the earlier entry. Listings
//! come in increasing order of their keys.
use vstd::prelude::*;

use crate::table::{arranges, in_order, Table};
use crate::text::{lex_lt, owned, push_str};
use crate::wasm_server::error_codes::INVALID_PARAMS;

verus! {

/// A tool as it is advertised.
#[derive(Debug)]
pub struct ToolInfo {
    /// Tool name.
    pub name: String,
    /// What the tool does.
    pub description: Option<String>,
    /// JSON Schema of its arguments, as JSON text.
    pub input_schema: String,
}

/// A static resource as it is advertised.
#[derive(Debug)]
pub struct ResourceInfo {
    /// Resource URI.
    pub uri: String,
    /// Resource name.
    pub name: String,
    /// What the resource holds.
    pub description: Option<String>,
}

/// A resource template as it is advertised.
#[derive(Debug)]
pub struct ResourceTemplateInfo {
    /// RFC 6570 URI template.
    pub uri_template: String,
    /// Template name.
    pub name: String,
    /// What the resources hold.
    pub description: Option<String>,
}

/// An argument a prompt declares.
#[derive(Debug)]
pub struct PromptArgument {
    /// Argument name.
    pub name: String,
    /// What the argument is for.
    pub description: Option<String>,
    /// Whether a request must supply it.
    pub required: Option<bool>,
}

/// A prompt as it is advertised.
#[derive(Debug)]
pub struct PromptInfo {
    /// Prompt name.
    pub name: String,
    /// What the prompt produces.
    pub description: Option<String>,
    /// Declared arguments; `None` when it declares none.
    pub arguments: Option<Vec<PromptArgument>>,
}

/// Something registered, with its handler.
#[derive(Debug)]
pub struct Registered<I, H> {
    /// What is advertised.
    pub info: I,
    /// What answers it.
    pub handler: H,
}

/// The optional view of an optional string.
pub open spec fn opt_chars(s: Option<String>) -> Option<Seq<char>> {
    match s {
        Some(v) => Some(v@),
        None => None,
    }
}

/// A tool, as values.
pub struct ToolView {
    /// Tool name.
    pub name: Seq<char>,
    /// Description.
    pub description: Option<Seq<char>>,
    /// Argument schema.
    pub input_schema: Seq<char>,
}

impl View for ToolInfo {
    type V = ToolView;

    open spec fn view(&self) -> ToolView {
        ToolView {
            name: self.name@,
            description: opt_chars(self.description),
            input_schema: self.input_schema@,
        }
    }
}

/// A resource, as values.
pub struct ResourceView {
    /// URI.
    pub uri: Seq<char>,
    /// Name.
    pub name: Seq<char>,
    /// Description.
    pub description: Option<Seq<char>>,
}

impl View for ResourceInfo {
    type V = ResourceView;

    open spec fn view(&self) -> ResourceView {
        ResourceView { uri: self.uri@, name: self.name@, description: opt_chars(self.description) }
    }
}

/// A resource template, as values.
pub struct TemplateView {
    /// URI template.
    pub uri_template: Seq<char>,
    /// Name.
    pub name: Seq<char>,
    /// Description.
    pub description: Option<Seq<char>>,
}

impl View for ResourceTemplateInfo {
    type V = TemplateView;

    open spec fn view(&self) -> TemplateView {
        TemplateView {
            uri_template: self.uri_template@,
            name: self.name@,
            description: opt_chars(self.description),
        }
    }
}

/// A prompt argument, as values.
pub struct ArgumentView {
    /// Name.
    pub name: Seq<char>,
    /// Description.
    pub description: Option<Seq<char>>,
    /// Whether it is required.
    pub required: Option<bool>,
}

impl View for PromptArgument {
    type V = ArgumentView;

    open spec fn view(&self) -> ArgumentView {
        ArgumentView {
            name: self.name@,
            description: opt_chars(self.description),
            required: self.required,
        }
    }
}

/// A prompt, as values.
pub struct PromptView {
    /// Name.
    pub name: Seq<char>,
    /// Description.
    pub description: Option<Seq<char>>,
    /// Declared arguments.
    pub arguments: Option<Seq<ArgumentView>>,
}

/// The views of a list of prompt arguments.
pub open spec fn argument_views(v: Seq<PromptArgument>) -> Seq<ArgumentView> {
    v.map_values(|a: PromptArgument| a@)
}

impl View for PromptInfo {
    type V = PromptView;

    open spec fn view(&self) -> PromptView {
        PromptView {
            name: self.name@,
            description: opt_chars(self.description),
            arguments: match self.arguments {
                Some(a) => Some(argument_views(a@)),
                None => None,
            },
        }
    }
}

/// A server's registrations, as values: each key with what is advertised
/// and its handler.
pub struct Registrations<H> {
    /// Tools by name.
    pub tools: Map<Seq<char>, (ToolView, H)>,
    /// Resources by URI.
    pub resources: Map<Seq<char>, (ResourceView, H)>,
    /// Resource templates by URI template.
    pub templates: Map<Seq<char>, (TemplateView, H)>,
    /// Prompts by name.
    pub prompts: Map<Seq<char>, (PromptView, H)>,
}

/// Registered entries, as values.
pub open spec fn entries<I: View, H>(t: Map<Seq<char>, Registered<I, H>>) -> Map<Seq<char>, (I::V, H)> {
    t.map_values(|r: Registered<I, H>| (r.info@, r.handler))
}

/// What a server advertises it can do.
#[derive(Debug, Clone, Copy, PartialEq, Eq)]
pub struct Capabilities {
    /// It has tools.
    pub tools: bool,
    /// It has resources or resource templates.
    pub resources: bool,
    /// It has prompts.
    pub prompts: bool,
}

/// Why a call found nothing to answer it.
#[derive(Debug)]
pub enum ServerError {
    /// No tool of this name.
    ToolNotFound(String),
    /// No resource or template answers this URI.
    ResourceNotFound(String),
    /// No prompt of this name.
    PromptNotFound(String),
    /// The request's parameters do not fit what was called.
    InvalidParams(String),
}

/// The JSON-RPC error code of each error.
pub open spec fn error_code(e: ServerError) -> i32 {
    match e {
        ServerError::ResourceNotFound(_) => -32002i32,
        _ => INVALID_PARAMS,
    }
}

impl ServerError {
    /// The JSON-RPC error code: `-32002` for a missing resource, invalid
    /// params (`-32602`) otherwise.
    pub fn code(&self) -> (r: i32)
        ensures
            r == error_code(*self),
    {
        match self {
            ServerError::ResourceNotFound(_) => -32002,
            _ => INVALID_PARAMS,
        }
    }
}

/// The tables of a server or builder.
#[derive(Debug)]
struct Tables<H> {
    tools: Table<Registered<ToolInfo, H>>,
    resources: Table<Registered<ResourceInfo, H>>,
    templates: Table<Registered<ResourceTemplateInfo, H>>,
    prompts: Table<Registered<PromptInfo, H>>,
}

impl<H> Tables<H> {
    spec fn view(&self) -> Registrations<H> {
        Registrations {
            tools: entries(self.tools@),
            resources: entries(self.resources@),
            templates: entries(self.templates@),
            prompts: entries(self.prompts@),
        }
    }

    /// Each entry is advertised under its own key.
    spec fn keyed(&self) -> bool {
        &&& forall|k: Seq<char>| #[trigger] self.tools@.contains_key(k) ==> self.tools@[k].info.name@ == k
        &&& forall|k: Seq<char>| #[trigger] self.resources@.contains_key(k) ==> self.resources@[k].info.uri@ == k
        &&& forall|k: Seq<char>| #[trigger] self.templates@.contains_key(k) ==> self.templates@[k].info.uri_template@ == k
        &&& forall|k: Seq<char>| #[trigger] self.prompts@.contains_key(k) ==> self.prompts@[k].info.name@ == k
    }
}

/// Whether every registration is advertised under its own key.
pub open spec fn keyed<H>(r: Registrations<H>) -> bool {
    &&& forall|k: Seq<char>| #[trigger] r.tools.contains_key(k) ==> r.tools[k].0.name == k
    &&& forall|k: Seq<char>| #[trigger] r.resources.contains_key(k) ==> r.resources[k].0.uri == k
    &&& forall|k: Seq<char>| #[trigger] r.templates.contains_key(k) ==> r.templates[k].0.uri_template == k
    &&& forall|k: Seq<char>| #[trigger] r.prompts.contains_key(k) ==> r.prompts[k].0.name == k
}

/// Builder for an [`McpServer`].
#[derive(Debug)]
pub struct McpServerBuilder<H> {
    name: String,
    version: String,
    description: Option<String>,
    instructions: Option<String>,
    tables: Tables<H>,
}

/// A builder or server, as values.
pub struct ServerView<H> {
    /// Server name.
    pub name: Seq<char>,
    /// Server version.
    pub version: Seq<char>,
    /// Server description.
    pub description: Option<Seq<char>>,
    /// Instructions for clients.
    pub instructions: Option<Seq<char>>,
    /// What is registered.
    pub registered: Registrations<H>,
}

impl<H> View for McpServerBuilder<H> {
    type V = ServerView<H>;

    closed spec fn view(&self) -> ServerView<H> {
        ServerView {
            name: self.name@,
            version: self.version@,
            description: opt_chars(self.description),
            instructions: opt_chars(self.instructions),
            registered: self.tables.view(),
        }
    }
}

/// Nothing registered.
pub open spec fn no_registrations<H>() -> Registrations<H> {
    Registrations {
        tools: Map::empty(),
        resources: Map::empty(),
        templates: Map::empty(),
        prompts: Map::empty(),
    }
}

impl<H> McpServerBuilder<H> {
    #[verifier::type_invariant]
    closed spec fn wf(self) -> bool {
        self.tables.keyed()
    }

    /// A builder for server `name`, version `version`, with nothing
    /// registered.
    pub fn new(name: &str, version: &str) -> (r: Self)
        ensures
            r@ == (ServerView::<H> {
                name: name@,
                version: version@,
                description: None,
                instructions: None,
                registered: no_registrations(),
            }),
    {
        let r = McpServerBuilder {
            name: owned(name),
            version: owned(version),
            description: None,
            instructions: None,
            tables: Tables {
                tools: Table::new(),
                resources: Table::new(),
                templates: Table::new(),
                prompts: Table::new(),
            },
        };
        assert(r@.registered.tools =~= Map::empty());
        assert(r@.registered.resources =~= Map::empty());
        assert(r@.registered.templates =~= Map::empty());
        assert(r@.registered.prompts =~= Map::empty());
        r
    }

    /// Set the server description.
    pub fn description(self, description: &str) -> (r: Self)
        ensures
            r@ == (ServerView { description: Some(description@), ..self@ }),
    {
        proof {
            use_type_invariant(&self);
        }
        let mut b = self;
        b.description = Some(owned(description));
        b
    }

    /// Set the instructions given to clients.
    pub fn instructions(self, instructions: &str) -> (r: Self)
        ensures
            r@ == (ServerView { instructions: Some(instructions@), ..self@ }),
    {
        proof {
            use_type_invariant(&self);
        }
        let mut b = self;
        b.instructions = Some(owned(instructions));
        b
    }

    /// Register tool `name`, whose arguments follow `input_schema`.
    pub fn tool(self, name: &str, description: &str, input_schema: &str, handler: H) -> (r: Self)
        ensures
            r@ == (ServerView {
                registered: Registrations {
                    tools: self@.registered.tools.insert(
                        name@,
                        (
                            ToolView {
                                name: name@,
                                description: Some(description@),
                                input_schema: input_schema@,
                            },
                            handler,
                        ),
                    ),
                    ..self@.registered
                },
                ..self@
            }),
    {
        proof {
            use_type_invariant(&self);
        }
        let info = ToolInfo {
            name: owned(name),
            description: Some(owned(description)),
            input_schema: owned(input_schema),
        };
        let mut b = self;
        let mut t = Table::new();
        std::mem::swap(&mut t, &mut b.tables.tools);
        let ghost old_t = t@;
        t.insert(name, Registered { info, handler });
        proof {
            assert(entries(t@) =~= entries(old_t).insert(name@, (info@, handler)));
        }
        b.tables.tools = t;
        b
    }

    /// Register the static resource at `uri`.
    pub fn resource(self, uri: &str, name: &str, description: &str, handler: H) -> (r: Self)
        ensures
            r@ == (ServerView {
                registered: Registrations {
                    resources: self@.registered.resources.insert(
                        uri@,
                        (
                            ResourceView { uri: uri@, name: name@, description: Some(description@) },
                            handler,
                        ),
                    ),
                    ..self@.registered
                },
                ..self@
            }),
    {
        proof {
            use_type_invariant(&self);
        }
        let info = ResourceInfo {
            uri: owned(uri),
            name: owned(name),
            description: Some(owned(description)),
        };
        let mut b = self;
        let mut t = Table::new();
        std::mem::swap(&mut t, &mut b.tables.resources);
        let ghost old_t = t@;
        t.insert(uri, Registered { info, handler });
        proof {
            assert(entries(t@) =~= entries(old_t).insert(uri@, (info@, handler)));
        }
        b.tables.resources = t;
        b
    }

    /// Register the resource template `uri_template`, for dynamic
    /// resources.
    pub fn resource_template(self, uri_template: &str, name: &str, description: &str, handler: H) -> (r:
        Self)
        ensures
            r@ == (ServerView {
                registered: Registrations {
                    templates: self@.registered.templates.insert(
                        uri_template@,
                        (
                            TemplateView {
                                uri_template: uri_template@,
                                name: name@,
                                description: Some(description@),
                            },
                            handler,
                        ),
                    ),
                    ..self@.registered
                },
                ..self@
            }),
    {
        proof {
            use_type_invariant(&self);
        }
        let info = ResourceTemplateInfo {
            uri_template: owned(uri_template),
            name: owned(name),
            description: Some(owned(description)),
        };
        let mut b = self;
        let mut t = Table::new();
        std::mem::swap(&mut t, &mut b.tables.templates);
        let ghost old_t = t@;
        t.insert(uri_template, Registered { info, handler });
        proof {
            assert(entries(t@) =~= entries(old_t).insert(uri_template@, (info@, handler)));
        }
        b.tables.templates = t;
        b
    }

    /// Register prompt `name` with the arguments it declares (advertised
    /// as none when the list is empty).
    pub fn prompt(self, name: &str, description: &str, arguments: Vec<PromptArgument>, handler: H) -> (r:
        Self)
        ensures
            r@ == (ServerView {
                registered: Registrations {
                    prompts: self@.registered.prompts.insert(
                        name@,
                        (
                            PromptView {
                                name: name@,
                                description: Some(description@),
                                arguments: if arguments@.len() == 0 {
                                    None
                                } else {
                                    Some(argument_views(arguments@))
                                },
                            },
                            handler,
                        ),
                    ),
                    ..self@.registered
                },
                ..self@
            }),
    {
        proof {
            use_type_invariant(&self);
        }
        let info = PromptInfo {
            name: owned(name),
            description: Some(owned(description)),
            arguments: if arguments.len() == 0 {
                None
            } else {
                Some(arguments)
            },
        };
        let mut b = self;
        let mut t = Table::new();
        std::mem::swap(&mut t, &mut b.tables.prompts);
        let ghost old_t = t@;
        t.insert(name, Registered { info, handler });
        proof {
            assert(entries(t@) =~= entries(old_t).insert(name@, (info@, handler)));
        }
        b.tables.prompts = t;
        b
    }

    /// The server, with what was registered.
    pub fn build(self) -> (r: McpServer<H>)
        ensures
            r@ == self@,
    {
        proof {
            use_type_invariant(&self);
        }
        McpServer {
            name: self.name,
            version: self.version,
            description: self.description,
            instructions: self.instructions,
            tables: self.tables,
        }
    }
}

/// What a server with these registrations advertises.
pub open spec fn server_capabilities<H>(r: Registrations<H>) -> Capabilities {
    Capabilities {
        tools: r.tools.dom().len() > 0,
        resources: r.resources.dom().len() > 0 || r.templates.dom().len() > 0,
        prompts: r.prompts.dom().len() > 0,
    }
}

/// A built MCP server.
#[derive(Debug)]
pub struct McpServer<H> {
    name: String,
    version: String,
    description: Option<String>,
    instructions: Option<String>,
    tables: Tables<H>,
}

impl<H> View for McpServer<H> {
    type V = ServerView<H>;

    closed spec fn view(&self) -> ServerView<H> {
        ServerView {
            name: self.name@,
            version: self.version@,
            description: opt_chars(self.description),
            instructions: opt_chars(self.instructions),
            registered: self.tables.view(),
        }
    }
}

/// The registered entries of a table, in increasing order of their keys.
fn listing<I: View, H>(t: &Table<Registered<I, H>>) -> (r: Vec<&I>)
    ensures
        arranges(in_order(entries(t@).dom()), entries(t@).dom()),
        r@.len() == in_order(entries(t@).dom()).len(),
        forall|i: int|
            0 <= i < r@.len() ==> (#[trigger] r@[i])@ == entries(t@)[in_order(entries(t@).dom())[i]].0,
{
    let keys = t.ordered_keys();
    let ghost order = in_order(entries(t@).dom());
    assert(entries(t@).dom() =~= t@.dom());
    let mut r: Vec<&I> = Vec::new();
    let mut i: usize = 0;
    while i < keys.len()
        invariant
            i <= keys@.len(),
            crate::text::views(keys@) == order,
            arranges(order, t@.dom()),
            entries(t@).dom() == t@.dom(),
            r@.len() == i,
            forall|j: int| 0 <= j < i ==> (#[trigger] r@[j])@ == entries(t@)[order[j]].0,
        decreases keys.len() - i,
    {
        assert(order[i as int] == keys@[i as int]@);
        assert(t@.dom().contains(order[i as int]));
        match t.get(keys[i].as_str()) {
            Some(reg) => {
                r.push(&reg.info);
            },
            None => {
                assert(false);
            },
        }
        i = i + 1;
    }
    r
}


/// Whether `matched` says the `i`-th template matches.
pub open spec fn matched(m: Seq<bool>, i: int) -> bool {
    0 <= i < m.len() && m[i]
}

/// The first of templates `i..n` that `m` says matches.
pub open spec fn first_match(m: Seq<bool>, n: int, i: int) -> Option<int>
    decreases n - i,
{
    if i < 0 || i >= n {
        None
    } else if matched(m, i) {
        Some(i)
    } else {
        first_match(m, n, i + 1)
    }
}

/// The handler that reads `uri`: the static resource registered under it,
/// else the first template, in increasing order, that `m` says matches
/// (one flag per template; a missing flag is no match).
pub open spec fn read_answer<H>(r: Registrations<H>, uri: Seq<char>, m: Seq<bool>) -> Option<H> {
    if r.resources.contains_key(uri) {
        Some(r.resources[uri].1)
    } else {
        let order = in_order(r.templates.dom());
        match first_match(m, order.len() as int, 0) {
            Some(i) => Some(r.templates[order[i]].1),
            None => None,
        }
    }
}

/// The handler of prompt `name` for a request with arguments `a`, or why
/// there is none: `Err(None)` for an unknown prompt, `Err(Some(m))` for
/// arguments that do not fit it.
pub open spec fn prompt_answer<H>(r: Registrations<H>, name: Seq<char>, a: ArgumentsShape) -> Result<
    H,
    Option<Seq<char>>,
> {
    if !r.prompts.contains_key(name) {
        Err(None)
    } else {
        match argument_problem(r.prompts[name].0, a) {
            Some(m) => Err(Some(m)),
            None => Ok(r.prompts[name].1),
        }
    }
}

/// The arguments of a `prompts/get` request, as far as the check needs
/// them.
#[derive(Debug)]
pub enum ArgumentsShape {
    /// No arguments (absent or `null`).
    Absent,
    /// An object, with these member names.
    Object(Vec<String>),
    /// Something other than an object.
    NotAnObject,
}

/// The argument names a request supplies.
pub open spec fn supplied(a: ArgumentsShape) -> Seq<Seq<char>> {
    match a {
        ArgumentsShape::Object(keys) => crate::text::views(keys@),
        _ => Seq::empty(),
    }
}

/// The first required argument from index `i` on that the request does
/// not supply.
pub open spec fn first_missing(args: Seq<ArgumentView>, names: Seq<Seq<char>>, i: int) -> Option<int>
    decreases args.len() - i,
{
    if i < 0 || i >= args.len() {
        None
    } else if args[i].required == Some(true) && !names.contains(args[i].name) {
        Some(i)
    } else {
        first_missing(args, names, i + 1)
    }
}

/// Why a `prompts/get` request's arguments do not fit the prompt, if they
/// do not: they must be an object holding every required argument.
pub open spec fn argument_problem(p: PromptView, a: ArgumentsShape) -> Option<Seq<char>> {
    match a {
        ArgumentsShape::NotAnObject => Some("prompts/get 'arguments' must be an object"@),
        _ => {
            let declared = match p.arguments {
                Some(v) => v,
                None => Seq::empty(),
            };
            match first_missing(declared, supplied(a), 0) {
                Some(i) => Some("prompt '"@ + p.name + "' requires argument '"@ + declared[i].name
                    + "'"@),
                None => None,
            }
        },
    }
}

/// `first_missing` finds the first position from `i` on whose argument is
/// required and not supplied, and none only when there is none.
proof fn lemma_first_missing(args: Seq<ArgumentView>, names: Seq<Seq<char>>, i: int)
    requires
        0 <= i <= args.len(),
    ensures
        match first_missing(args, names, i) {
            Some(k) => i <= k < args.len() && args[k].required == Some(true) && !names.contains(
                args[k].name,
            ) && forall|j: int|
                i <= j < k ==> !((#[trigger] args[j]).required == Some(true) && !names.contains(
                    args[j].name,
                )),
            None => forall|j: int|
                i <= j < args.len() ==> !((#[trigger] args[j]).required == Some(true)
                    && !names.contains(args[j].name)),
        },
    decreases args.len() - i,
{
    if i < args.len() {
        lemma_first_missing(args, names, i + 1);
    }
}

/// The prompt arguments a request must supply are exactly those declared
/// with `required: Some(true)`: a request whose arguments are absent or an
/// object is refused exactly when such an argument is not among its
/// members, and then the refusal names the first of them. An argument
/// declared without `required`, or with `required: Some(false)`, never
/// causes a refusal. Arguments that are not an object are always refused.
pub proof fn law_only_required_arguments_are_demanded(p: PromptView, a: ArgumentsShape)
    ensures
        a is NotAnObject ==> argument_problem(p, a) == Some(
            "prompts/get 'arguments' must be an object"@,
        ),
        !(a is NotAnObject) ==> (argument_problem(p, a) is None <==> forall|i: int|
            0 <= i < declared_arguments(p).len() && (#[trigger] declared_arguments(
                p,
            )[i]).required == Some(true) ==> given_names(a).contains(declared_arguments(p)[i].name)),
        !(a is NotAnObject) ==> (argument_problem(p, a) matches Some(m) ==> exists|i: int|
            0 <= i < declared_arguments(p).len() && (#[trigger] declared_arguments(p)[i]).required
                == Some(true) && !given_names(a).contains(declared_arguments(p)[i].name) && m
                == "prompt '"@ + p.name + "' requires argument '"@ + declared_arguments(p)[i].name
                + "'"@ && forall|j: int|
                0 <= j < i ==> !((#[trigger] declared_arguments(p)[j]).required == Some(true)
                    && !given_names(a).contains(declared_arguments(p)[j].name))),
{
    if !(a is NotAnObject) {
        let declared = declared_arguments(p);
        let given = given_names(a);
        assert(supplied(a) =~= given);
        lemma_first_missing(declared, given, 0);
        match first_missing(declared, given, 0) {
            Some(k) => {
                let m = "prompt '"@ + p.name + "' requires argument '"@ + declared[k].name + "'"@;
                assert(argument_problem(p, a) == Some(m));
                assert(0 <= k < declared.len() && declared[k].required == Some(true)
                    && !given.contains(declared[k].name) && m == "prompt '"@ + p.name
                    + "' requires argument '"@ + declared[k].name + "'"@ && forall|j: int|
                    0 <= j < k ==> !((#[trigger] declared[j]).required == Some(true)
                        && !given.contains(declared[j].name)));
            },
            None => {
                assert(argument_problem(p, a) is None);
                assert forall|i: int|
                    0 <= i < declared.len() && (#[trigger] declared[i]).required == Some(
                        true,
                    ) implies given.contains(declared[i].name) by {
                    assert(!(declared[i].required == Some(true) && !given.contains(
                        declared[i].name,
                    )));
                }
            },
        }
    }
}

/// The arguments a prompt declares (none when it declares no list).
pub open spec fn declared_arguments(p: PromptView) -> Seq<ArgumentView> {
    match p.arguments {
        Some(v) => v,
        None => Seq::empty(),
    }
}

/// The member names of a request's arguments (none when they are absent).
pub open spec fn given_names(a: ArgumentsShape) -> Seq<Seq<char>> {
    match a {
        ArgumentsShape::Object(keys) => crate::text::views(keys@),
        _ => Seq::empty(),
    }
}

/// Hold a `prompts/get` request to the arguments the prompt declares, so a
/// request missing a required one is refused before its handler runs.
pub fn check_prompt_arguments(prompt: &PromptInfo, args: &ArgumentsShape) -> (r: Result<(), ServerError>)
    ensures
        match argument_problem(prompt@, *args) {
            Some(m) => r matches Err(ServerError::InvalidParams(e)) && e@ == m,
            None => r is Ok,
        },
{
    let names: Vec<String> = match args {
        ArgumentsShape::NotAnObject => {
            return Err(ServerError::InvalidParams(owned("prompts/get 'arguments' must be an object")));
        },
        ArgumentsShape::Object(keys) => crate::text::clone_strings(keys.as_slice()),
        ArgumentsShape::Absent => Vec::new(),
    };
    assert(crate::text::views(names@) =~= supplied(*args));
    let declared: &[PromptArgument] = match &prompt.arguments {
        Some(v) => v.as_slice(),
        None => &[],
    };
    let ghost dv = argument_views(declared@);
    assert(dv == match prompt@.arguments {
        Some(v) => v,
        None => Seq::<ArgumentView>::empty(),
    }) by {
        if prompt.arguments.is_none() {
            assert(dv =~= Seq::<ArgumentView>::empty());
        }
    }
    let mut i: usize = 0;
    while i < declared.len()
        invariant
            i <= declared@.len(),
            dv == argument_views(declared@),
            dv == match prompt@.arguments {
                Some(v) => v,
                None => Seq::<ArgumentView>::empty(),
            },
            !(*args matches ArgumentsShape::NotAnObject),
            crate::text::views(names@) == supplied(*args),
            first_missing(dv, supplied(*args), 0) == first_missing(dv, supplied(*args), i as int),
        decreases declared.len() - i,
    {
        let a = &declared[i];
        assert(dv[i as int] == a@);
        if a.required == Some(true) && !crate::text::contains_str(&names, a.name.as_str()) {
            assert(first_missing(dv, supplied(*args), i as int) == Some(i as int));
            let mut m = owned("prompt '");
            push_str(&mut m, prompt.name.as_str());
            push_str(&mut m, "' requires argument '");
            push_str(&mut m, a.name.as_str());
            push_str(&mut m, "'");
            return Err(ServerError::InvalidParams(m));
        }
        i = i + 1;
    }
    Ok(())
}

impl<H> McpServer<H> {
    #[verifier::type_invariant]
    closed spec fn wf(self) -> bool {
        self.tables.keyed()
    }

    /// A builder for server `name`, version `version`.
    pub fn builder(name: &str, version: &str) -> (r: McpServerBuilder<H>)
        ensures
            r@ == (ServerView::<H> {
                name: name@,
                version: version@,
                description: None,
                instructions: None,
                registered: no_registrations(),
            }),
    {
        McpServerBuilder::new(name, version)
    }

    /// Server name.
    pub fn name(&self) -> (r: &str)
        ensures
            r@ == self@.name,
    {
        self.name.as_str()
    }

    /// Server version.
    pub fn version(&self) -> (r: &str)
        ensures
            r@ == self@.version,
    {
        self.version.as_str()
    }

    /// Server description.
    pub fn description(&self) -> (r: Option<&String>)
        ensures
            match r {
                Some(d) => self@.description == Some(d@),
                None => self@.description is None,
            },
    {
        self.description.as_ref()
    }

    /// Instructions for clients.
    pub fn instructions(&self) -> (r: Option<&String>)
        ensures
            match r {
                Some(d) => self@.instructions == Some(d@),
                None => self@.instructions is None,
            },
    {
        self.instructions.as_ref()
    }

    /// What the server advertises: tools, resources (static or templated)
    /// and prompts, each when it has any.
    pub fn capabilities(&self) -> (r: Capabilities)
        ensures
            r == server_capabilities(self@.registered),
    {
        let t = &self.tables;
        assert(entries(t.tools@).dom() =~= t.tools@.dom());
        assert(entries(t.resources@).dom() =~= t.resources@.dom());
        assert(entries(t.templates@).dom() =~= t.templates@.dom());
        assert(entries(t.prompts@).dom() =~= t.prompts@.dom());
        Capabilities {
            tools: t.tools.len() > 0,
            resources: t.resources.len() > 0 || t.templates.len() > 0,
            prompts: t.prompts.len() > 0,
        }
    }

    /// The registered tools, ordered by name.
    pub fn tools(&self) -> (r: Vec<&ToolInfo>)
        ensures
            r@.len() == in_order(self@.registered.tools.dom()).len(),
            forall|i: int|
                0 <= i < r@.len() ==> (#[trigger] r@[i])@ == self@.registered.tools[in_order(
                    self@.registered.tools.dom(),
                )[i]].0,
            arranges(in_order(self@.registered.tools.dom()), self@.registered.tools.dom()),
            forall|i: int|
                0 <= i < r@.len() ==> (#[trigger] r@[i]).name@ == in_order(
                    self@.registered.tools.dom(),
                )[i],
            forall|i: int, j: int|
                0 <= i < j < r@.len() ==> lex_lt((#[trigger] r@[i]).name@, (#[trigger] r@[j]).name@),
    {
        proof {
            use_type_invariant(self);
        }
        let r = listing(&self.tables.tools);
        proof {
            let order = in_order(self@.registered.tools.dom());
            assert forall|i: int| 0 <= i < r@.len() implies (#[trigger] r@[i]).name@ == order[i] by {
                assert(self.tables.tools@.contains_key(order[i]));
            }
        }
        r
    }

    /// The registered resources, ordered by URI.
    pub fn resources(&self) -> (r: Vec<&ResourceInfo>)
        ensures
            r@.len() == in_order(self@.registered.resources.dom()).len(),
            forall|i: int|
                0 <= i < r@.len() ==> (#[trigger] r@[i])@ == self@.registered.resources[in_order(
                    self@.registered.resources.dom(),
                )[i]].0,
            arranges(in_order(self@.registered.resources.dom()), self@.registered.resources.dom()),
            forall|i: int|
                0 <= i < r@.len() ==> (#[trigger] r@[i]).uri@ == in_order(
                    self@.registered.resources.dom(),
                )[i],
            forall|i: int, j: int|
                0 <= i < j < r@.len() ==> lex_lt((#[trigger] r@[i]).uri@, (#[trigger] r@[j]).uri@),
    {
        proof {
            use_type_invariant(self);
        }
        let r = listing(&self.tables.resources);
        proof {
            let order = in_order(self@.registered.resources.dom());
            assert forall|i: int| 0 <= i < r@.len() implies (#[trigger] r@[i]).uri@ == order[i] by {
                assert(self.tables.resources@.contains_key(order[i]));
            }
        }
        r
    }

    /// The registered resource templates, ordered by URI template.
    pub fn resource_templates(&self) -> (r: Vec<&ResourceTemplateInfo>)
        ensures
            r@.len() == in_order(self@.registered.templates.dom()).len(),
            forall|i: int|
                0 <= i < r@.len() ==> (#[trigger] r@[i])@ == self@.registered.templates[in_order(
                    self@.registered.templates.dom(),
                )[i]].0,
            arranges(in_order(self@.registered.templates.dom()), self@.registered.templates.dom()),
            forall|i: int|
                0 <= i < r@.len() ==> (#[trigger] r@[i]).uri_template@ == in_order(
                    self@.registered.templates.dom(),
                )[i],
            forall|i: int, j: int|
                0 <= i < j < r@.len() ==> lex_lt((#[trigger] r@[i]).uri_template@, (#[trigger] r@[j]).uri_template@),
    {
        proof {
            use_type_invariant(self);
        }
        let r = listing(&self.tables.templates);
        proof {
            let order = in_order(self@.registered.templates.dom());
            assert forall|i: int| 0 <= i < r@.len() implies (#[trigger] r@[i]).uri_template@ == order[i] by {
                assert(self.tables.templates@.contains_key(order[i]));
            }
        }
        r
    }

    /// The registered prompts, ordered by name.
    pub fn prompts(&self) -> (r: Vec<&PromptInfo>)
        ensures
            r@.len() == in_order(self@.registered.prompts.dom()).len(),
            forall|i: int|
                0 <= i < r@.len() ==> (#[trigger] r@[i])@ == self@.registered.prompts[in_order(
                    self@.registered.prompts.dom(),
                )[i]].0,
            arranges(in_order(self@.registered.prompts.dom()), self@.registered.prompts.dom()),
            forall|i: int|
                0 <= i < r@.len() ==> (#[trigger] r@[i]).name@ == in_order(
                    self@.registered.prompts.dom(),
                )[i],
            forall|i: int, j: int|
                0 <= i < j < r@.len() ==> lex_lt((#[trigger] r@[i]).name@, (#[trigger] r@[j]).name@),
    {
        proof {
            use_type_invariant(self);
        }
        let r = listing(&self.tables.prompts);
        proof {
            let order = in_order(self@.registered.prompts.dom());
            assert forall|i: int| 0 <= i < r@.len() implies (#[trigger] r@[i]).name@ == order[i] by {
                assert(self.tables.prompts@.contains_key(order[i]));
            }
        }
        r
    }

    /// Whether a static resource is registered under `uri`.
    pub fn has_resource(&self, uri: &str) -> (r: bool)
        ensures
            r == self@.registered.resources.contains_key(uri@),
    {
        assert(entries(self.tables.resources@).dom() =~= self.tables.resources@.dom());
        self.tables.resources.get(uri).is_some()
    }

    /// The number of registered tools.
    pub fn tool_count(&self) -> (r: usize)
        ensures
            r == self@.registered.tools.dom().len(),
    {
        let r = self.tables.tools.len();
        assert(entries(self.tables.tools@).dom() =~= self.tables.tools@.dom());
        r
    }

    /// The number of registered resources.
    pub fn resource_count(&self) -> (r: usize)
        ensures
            r == self@.registered.resources.dom().len(),
    {
        let r = self.tables.resources.len();
        assert(entries(self.tables.resources@).dom() =~= self.tables.resources@.dom());
        r
    }

    /// The number of registered prompts.
    pub fn prompt_count(&self) -> (r: usize)
        ensures
            r == self@.registered.prompts.dom().len(),
    {
        let r = self.tables.prompts.len();
        assert(entries(self.tables.prompts@).dom() =~= self.tables.prompts@.dom());
        r
    }

    /// The handler of tool `name`.
    pub fn tool_handler(&self, name: &str) -> (r: Result<&H, ServerError>)
        ensures
            self@.registered.tools.contains_key(name@) ==> (r matches Ok(h) && *h
                == self@.registered.tools[name@].1),
            !self@.registered.tools.contains_key(name@) ==> (r matches Err(
                ServerError::ToolNotFound(n),
            ) && n@ == name@),
    {
        assert(entries(self.tables.tools@).dom() =~= self.tables.tools@.dom());
        match self.tables.tools.get(name) {
            Some(reg) => Ok(&reg.handler),
            None => Err(ServerError::ToolNotFound(owned(name))),
        }
    }

    /// The handler that reads `uri`; see [`read_answer`].
    pub fn resource_handler(&self, uri: &str, template_matches: &[bool]) -> (r: Result<&H, ServerError>)
        ensures
            match read_answer(self@.registered, uri@, template_matches@) {
                Some(h0) => r matches Ok(h) && *h == h0,
                None => r matches Err(ServerError::ResourceNotFound(u)) && u@ == uri@,
            },
    {
        assert(entries(self.tables.resources@).dom() =~= self.tables.resources@.dom());
        if let Some(reg) = self.tables.resources.get(uri) {
            return Ok(&reg.handler);
        }
        let keys = self.tables.templates.ordered_keys();
        let ghost t = self.tables.templates@;
        let ghost order = in_order(entries(t).dom());
        assert(entries(t).dom() =~= t.dom());
        let mut i: usize = 0;
        while i < keys.len()
            invariant
                i <= keys@.len(),
                crate::text::views(keys@) == order,
                order == in_order(self@.registered.templates.dom()),
                arranges(order, t.dom()),
                t == self.tables.templates@,
                entries(t).dom() == t.dom(),
                !self@.registered.resources.contains_key(uri@),
                first_match(template_matches@, order.len() as int, 0) == first_match(
                    template_matches@,
                    order.len() as int,
                    i as int,
                ),
            decreases keys.len() - i,
        {
            if i < template_matches.len() && template_matches[i] {
                assert(order[i as int] == keys@[i as int]@);
                assert(t.dom().contains(order[i as int]));
                assert(first_match(template_matches@, order.len() as int, i as int) == Some(i as int));
                match self.tables.templates.get(keys[i].as_str()) {
                    Some(reg) => {
                        return Ok(&reg.handler);
                    },
                    None => {
                        assert(false);
                    },
                }
            }
            i = i + 1;
        }
        Err(ServerError::ResourceNotFound(owned(uri)))
    }

    /// Whether the server reads `uri` itself: a static resource, or a
    /// template that `template_matches` says matches it.
    pub fn serves(&self, uri: &str, template_matches: &[bool]) -> (r: bool)
        ensures
            r == read_answer(self@.registered, uri@, template_matches@) is Some,
    {
        self.resource_handler(uri, template_matches).is_ok()
    }

    /// The handler of prompt `name`, once the request's arguments are held
    /// to what the prompt declares.
    pub fn prompt_handler(&self, name: &str, args: &ArgumentsShape) -> (r: Result<&H, ServerError>)
        ensures
            match prompt_answer(self@.registered, name@, *args) {
                Ok(h0) => r matches Ok(h) && *h == h0,
                Err(None) => r matches Err(ServerError::PromptNotFound(n)) && n@ == name@,
                Err(Some(m)) => r matches Err(ServerError::InvalidParams(e)) && e@ == m,
            },
    {
        assert(entries(self.tables.prompts@).dom() =~= self.tables.prompts@.dom());
        match self.tables.prompts.get(name) {
            Some(reg) => match check_prompt_arguments(&reg.info, args) {
                Ok(()) => Ok(&reg.handler),
                Err(e) => Err(e),
            },
            None => Err(ServerError::PromptNotFound(owned(name))),
        }
    }
}

} // verus!
