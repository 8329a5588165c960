use turbomcp_wasm::wasm_server::visibility::VisibilityLayer;
use turbomcp_wasm::wasm_server::composite::CompositeServer;
use turbomcp_wasm::wasm_server::server::{
    check_prompt_arguments, ArgumentsShape, Capabilities, McpServer, PromptArgument, PromptInfo,
    ServerError,
};

fn arg(name: &str, required: Option<bool>) -> PromptArgument {
    PromptArgument {
        name: name.to_string(),
        description: None,
        required,
    }
}

fn server() -> McpServer<&'static str> {
    McpServer::builder("server-test", "1.0.0")
        .description("A test server")
        .tool("echo", "Echo", "{\"type\":\"object\"}", "echo-handler")
        .resource("config://app", "config", "App config", "config-handler")
        .resource_template("db://{table}/rows/{id}.json", "row", "A row", "row-handler")
        .resource_template("file:///{path}", "file", "A file", "file-handler")
        .prompt(
            "greet",
            "Greeting",
            vec![arg("name", Some(true)), arg("tone", Some(false))],
            "greet-handler",
        )
        .build()
}

#[test]
fn listings_are_ordered() {
    let ordered = McpServer::builder("order", "1.0.0")
        .tool("b", "B", "{}", 2)
        .tool("a", "A", "{}", 1)
        .tool("c", "C", "{}", 3)
        .build();
    let names: Vec<&str> = ordered.tools().iter().map(|t| t.name.as_str()).collect();
    assert_eq!(names, ["a", "b", "c"]);

    let server = server();
    let templates: Vec<&str> = server
        .resource_templates()
        .iter()
        .map(|t| t.uri_template.as_str())
        .collect();
    assert_eq!(templates, ["db://{table}/rows/{id}.json", "file:///{path}"]);
    assert_eq!(server.resources()[0].uri, "config://app");
    assert_eq!(server.prompts()[0].name, "greet");
}

#[test]
fn registering_again_replaces() {
    let server = McpServer::builder("again", "1.0.0")
        .tool("echo", "first", "{}", 1)
        .tool("echo", "second", "{}", 2)
        .build();
    assert_eq!(server.tools().len(), 1);
    assert_eq!(server.tools()[0].description.as_deref(), Some("second"));
    assert_eq!(*server.tool_handler("echo").unwrap(), 2);
}

#[test]
fn server_info_and_capabilities() {
    let server = server();
    assert_eq!(server.name(), "server-test");
    assert_eq!(server.version(), "1.0.0");
    assert_eq!(server.description().map(|d| d.as_str()), Some("A test server"));
    assert!(server.instructions().is_none());
    assert_eq!(
        server.capabilities(),
        Capabilities {
            tools: true,
            resources: true,
            prompts: true,
        }
    );

    let bare: McpServer<u8> = McpServer::builder("bare", "0.1.0")
        .instructions("Ask nicely")
        .resource_template("x://{id}", "x", "X", 1)
        .build();
    assert_eq!(bare.instructions().map(|d| d.as_str()), Some("Ask nicely"));
    assert_eq!(
        bare.capabilities(),
        Capabilities {
            tools: false,
            resources: true,
            prompts: false,
        }
    );
}

#[test]
fn unknown_tool_is_invalid_params() {
    let server = server();
    assert_eq!(*server.tool_handler("echo").unwrap(), "echo-handler");
    let err = server.tool_handler("nope").unwrap_err();
    assert!(matches!(&err, ServerError::ToolNotFound(name) if name == "nope"));
    assert_eq!(err.code(), -32602);
}

#[test]
fn resources_are_read_exactly_first_then_by_template() {
    let server = server();
    assert_eq!(
        *server.resource_handler("config://app", &[true, true]).unwrap(),
        "config-handler"
    );
    assert_eq!(
        *server.resource_handler("file:///src/lib.rs", &[false, true]).unwrap(),
        "file-handler"
    );
    assert_eq!(
        *server.resource_handler("db://users/rows/7.json", &[true, true]).unwrap(),
        "row-handler"
    );
}

#[test]
fn unknown_resource_is_resource_not_found() {
    let server = server();
    let err = server.resource_handler("config://missing", &[false, false]).unwrap_err();
    assert!(matches!(&err, ServerError::ResourceNotFound(uri) if uri == "config://missing"));
    assert_eq!(err.code(), -32002);
    assert!(server.resource_handler("config://missing", &[]).is_err());
}

#[test]
fn prompt_arguments_are_checked_before_the_handler_runs() {
    let server = server();

    let missing = server.prompt_handler("greet", &ArgumentsShape::Absent).unwrap_err();
    assert!(matches!(&missing, ServerError::InvalidParams(m)
        if m == "prompt 'greet' requires argument 'name'"));
    assert_eq!(missing.code(), -32602);

    let only_tone = ArgumentsShape::Object(vec!["tone".to_string()]);
    assert!(server.prompt_handler("greet", &only_tone).is_err());

    let not_object = server
        .prompt_handler("greet", &ArgumentsShape::NotAnObject)
        .unwrap_err();
    assert!(matches!(&not_object, ServerError::InvalidParams(m)
        if m == "prompts/get 'arguments' must be an object"));

    let ok = ArgumentsShape::Object(vec!["name".to_string()]);
    assert_eq!(*server.prompt_handler("greet", &ok).unwrap(), "greet-handler");

    let unknown = server.prompt_handler("nope", &ok).unwrap_err();
    assert!(matches!(&unknown, ServerError::PromptNotFound(n) if n == "nope"));
    assert_eq!(unknown.code(), -32602);
}

#[test]
fn prompts_without_required_arguments_take_anything_but_a_non_object() {
    let prompt = PromptInfo {
        name: "free".to_string(),
        description: None,
        arguments: None,
    };
    assert!(check_prompt_arguments(&prompt, &ArgumentsShape::Absent).is_ok());
    assert!(check_prompt_arguments(&prompt, &ArgumentsShape::Object(Vec::new())).is_ok());
    assert!(check_prompt_arguments(&prompt, &ArgumentsShape::NotAnObject).is_err());

    let server: McpServer<u8> = McpServer::builder("p", "1")
        .prompt("free", "Free", Vec::new(), 1)
        .build();
    assert!(server.prompts()[0].arguments.is_none());
}


fn weather() -> McpServer<&'static str> {
    McpServer::builder("weather", "1.0.0")
        .tool("get_forecast", "Forecast", "{}", "forecast")
        .resource("api/stations", "stations", "Stations", "stations")
        .resource_template("api/{city}", "city", "City", "city")
        .prompt("brief", "Brief", vec![arg("city", Some(true))], "brief")
        .build()
}

fn news() -> McpServer<&'static str> {
    McpServer::builder("news", "1.0.0")
        .tool("get_headlines", "Headlines", "{}", "headlines")
        .build()
}

fn composite() -> CompositeServer<McpServer<&'static str>> {
    CompositeServer::builder("main", "1.0.0")
        .mount(weather(), "weather")
        .mount(news(), "news")
        .build()
}

#[test]
fn composite_lists_every_mount_under_its_prefix() {
    let c = composite();
    let tools: Vec<String> = c.list_tools().into_iter().map(|t| t.name).collect();
    assert_eq!(tools, ["weather_get_forecast", "news_get_headlines"]);
    let resources: Vec<String> = c.list_resources().into_iter().map(|r| r.uri).collect();
    assert_eq!(resources, ["weather://api/stations"]);
    let templates: Vec<String> = c
        .list_resource_templates()
        .into_iter()
        .map(|t| t.uri_template)
        .collect();
    assert_eq!(templates, ["weather://api/{city}"]);
    let prompts = c.list_prompts();
    assert_eq!(prompts.len(), 1);
    assert_eq!(prompts[0].name, "weather_brief");
    assert_eq!(prompts[0].arguments.as_ref().unwrap()[0].name, "city");
}

#[test]
fn composite_capabilities_are_those_of_any_mount() {
    let c = composite();
    assert_eq!(
        c.server_capabilities(),
        Capabilities {
            tools: true,
            resources: true,
            prompts: true,
        }
    );
    let only_news: CompositeServer<McpServer<&'static str>> = CompositeServer::builder("main", "1.0.0")
        .mount(news(), "news")
        .build();
    assert_eq!(
        only_news.server_capabilities(),
        Capabilities {
            tools: true,
            resources: false,
            prompts: false,
        }
    );
}

#[test]
fn composite_calls_reach_the_mount_that_listed_them() {
    let c = composite();
    assert_eq!(*c.tool_handler("weather_get_forecast").unwrap(), "forecast");
    assert_eq!(*c.tool_handler("news_get_headlines").unwrap(), "headlines");
    let err = c.tool_handler("news_get_forecast").unwrap_err();
    assert!(matches!(&err, ServerError::ToolNotFound(n) if n == "news_get_forecast"));
    assert!(matches!(c.tool_handler("sports_scores").unwrap_err(), ServerError::ToolNotFound(_)));

    assert_eq!(*c.resource_handler("weather://api/stations", &[]).unwrap(), "stations");
    assert_eq!(*c.resource_handler("weather://api/paris", &[true]).unwrap(), "city");
    let missing = c.resource_handler("weather://api/paris", &[false]).unwrap_err();
    assert!(matches!(&missing, ServerError::ResourceNotFound(u) if u == "weather://api/paris"));

    let ok = ArgumentsShape::Object(vec!["city".to_string()]);
    assert_eq!(*c.prompt_handler("weather_brief", &ok).unwrap(), "brief");
    let refused = c.prompt_handler("weather_brief", &ArgumentsShape::Absent).unwrap_err();
    assert!(matches!(&refused, ServerError::InvalidParams(m)
        if m == "prompt 'brief' requires argument 'city'"));
    let unknown = c.prompt_handler("news_brief", &ok).unwrap_err();
    assert!(matches!(&unknown, ServerError::PromptNotFound(n) if n == "news_brief"));
}

#[test]
fn a_server_serves_its_own_resources() {
    let w = weather();
    assert!(w.serves("api/stations", &[]));
    assert!(w.serves("api/rome", &[true]));
    assert!(!w.serves("https://example.com/page", &[false]));
}

fn strings(v: &[&str]) -> Vec<String> {
    v.iter().map(|s| s.to_string()).collect()
}

fn admin_server() -> McpServer<&'static str> {
    McpServer::builder("vis", "1.0.0")
        .tool("public_tool", "Public", "{}", "public")
        .tool("admin_tool", "Admin", "{}", "admin")
        .resource("config://secret", "secret", "Secret", "secret")
        .resource_template("docs://{page}", "docs", "Docs", "docs")
        .prompt("admin_prompt", "Admin prompt", Vec::new(), "admin-prompt")
        .build()
}

fn admin_layer() -> VisibilityLayer {
    VisibilityLayer::new()
        .with_tool_tags("admin_tool", &strings(&["admin"]))
        .with_resource_tags("config://secret", &strings(&["admin"]))
        .with_resource_tags("docs://{page}", &strings(&["admin"]))
        .with_prompt_tags("admin_prompt", &strings(&["admin"]))
        .disable_tags(&["admin"])
}

#[test]
fn hidden_tools_are_unlisted_and_indistinguishable_from_unknown() {
    let server = admin_server();
    let layer = admin_layer();
    let names: Vec<&str> = layer
        .visible_tools(&server, None)
        .iter()
        .map(|t| t.name.as_str())
        .collect();
    assert_eq!(names, ["public_tool"]);

    let hidden = layer.tool_handler(&server, "admin_tool", None).unwrap_err();
    let unknown = layer.tool_handler(&server, "no_such_tool", None).unwrap_err();
    assert!(matches!(&hidden, ServerError::ToolNotFound(n) if n == "admin_tool"));
    assert!(matches!(&unknown, ServerError::ToolNotFound(n) if n == "no_such_tool"));
    assert_eq!(hidden.code(), unknown.code());
    assert_eq!(*layer.tool_handler(&server, "public_tool", None).unwrap(), "public");
}

#[test]
fn session_overrides_apply_to_listing_and_calls_alike() {
    let server = admin_server();
    let mut layer = admin_layer();
    layer.enable_for_session("s1", &strings(&["admin"]));
    let names: Vec<&str> = layer
        .visible_tools(&server, Some("s1"))
        .iter()
        .map(|t| t.name.as_str())
        .collect();
    assert_eq!(names, ["admin_tool", "public_tool"]);
    assert_eq!(*layer.tool_handler(&server, "admin_tool", Some("s1")).unwrap(), "admin");
    assert!(layer.tool_handler(&server, "admin_tool", Some("s2")).is_err());

    let ok = ArgumentsShape::Absent;
    assert!(layer.prompt_handler(&server, "admin_prompt", &ok, None).is_err());
    assert_eq!(
        *layer.prompt_handler(&server, "admin_prompt", &ok, Some("s1")).unwrap(),
        "admin-prompt"
    );
}

#[test]
fn resources_are_judged_by_their_own_tags_or_their_template() {
    let server = admin_server();
    let mut layer = admin_layer();
    let secret = layer.resource_handler(&server, "config://secret", &[], None).unwrap_err();
    assert!(matches!(&secret, ServerError::ResourceNotFound(u) if u == "config://secret"));
    let page = layer.resource_handler(&server, "docs://intro", &[true], None).unwrap_err();
    assert!(matches!(&page, ServerError::ResourceNotFound(_)));

    layer.enable_for_session("s1", &strings(&["admin"]));
    assert_eq!(
        *layer.resource_handler(&server, "docs://intro", &[true], Some("s1")).unwrap(),
        "docs"
    );
    assert!(layer.resource_handler(&server, "docs://intro", &[false], Some("s1")).is_err());
}

fn create_test_weather_server() -> McpServer<&'static str> {
    McpServer::builder("weather", "1.0.0")
        .description("Weather service")
        .tool("get_forecast", "Get weather forecast", "{}", "forecast")
        .resource("api/current", "current", "Current", "current")
        .build()
}

fn create_test_news_server() -> McpServer<&'static str> {
    McpServer::builder("news", "1.0.0")
        .description("News service")
        .tool("get_headlines", "Get news headlines", "{}", "headlines")
        .build()
}

fn test_composite() -> CompositeServer<McpServer<&'static str>> {
    CompositeServer::builder("main", "1.0.0")
        .mount(create_test_weather_server(), "weather")
        .mount(create_test_news_server(), "news")
        .build()
}

#[test]
fn test_list_tools_prefixed() {
    let tools = test_composite().list_tools();
    let tool_names: Vec<&str> = tools.iter().map(|t| t.name.as_str()).collect();

    assert_eq!(tool_names.len(), 2);
    assert!(tool_names.contains(&"weather_get_forecast"));
    assert!(tool_names.contains(&"news_get_headlines"));
}

#[test]
fn test_aggregate_capabilities() {
    let caps = CompositeServer::builder("main", "1.0.0")
        .mount(create_test_news_server(), "news")
        .build()
        .server_capabilities();
    assert!(caps.tools);
    assert!(!caps.resources);
    assert!(!caps.prompts);
}

#[test]
fn read_contents_echo_the_uri_the_client_asked_for() {
    let c = composite();
    let echoed = c.echo_uris(0, &["api/stations".to_string(), "other".to_string()]);
    assert_eq!(echoed, ["weather://api/stations", "weather://other"]);
}

#[test]
fn content_links_are_prefixed_only_where_the_mount_serves_them() {
    let c = composite();
    let uris = [
        "api/stations".to_string(),
        "https://example.com/x".to_string(),
        "api/paris".to_string(),
    ];
    let linked = c.prefix_served_uris(0, &uris, &[vec![false], vec![false], vec![true]]);
    assert_eq!(
        linked,
        ["weather://api/stations", "https://example.com/x", "weather://api/paris"]
    );
}

#[test]
fn each_server_stands_under_the_prefix_it_was_mounted_with() {
    let c = composite();
    assert_eq!(c.prefixes(), ["weather", "news"]);
    assert_eq!(c.server(0).name(), "weather");
    assert_eq!(c.server(1).name(), "news");
    let (i, original) = c.route("news_get_headlines", "_").unwrap();
    assert_eq!(c.server(i).name(), "news");
    assert_eq!(original, "get_headlines");
}
