use turbomcp_wasm::wasm_server::server::McpServer;

const OBJECT_SCHEMA: &str = "{\"type\":\"object\"}";

#[test]
fn test_tool_string_return() {
    let server: McpServer<&str> = McpServer::builder("test", "1.0.0")
        .tool("greet", "Say hello", OBJECT_SCHEMA, "greet")
        .build();

    assert_eq!(server.tools().len(), 1);
    let tool = &server.tools()[0];
    assert_eq!(tool.name, "greet");
    assert_eq!(tool.description.as_deref(), Some("Say hello"));
}

#[test]
fn test_tool_numeric_operations() {
    let server: McpServer<&str> = McpServer::builder("calc", "1.0.0")
        .tool("add", "Add two numbers", OBJECT_SCHEMA, "add")
        .tool("multiply", "Multiply two numbers", OBJECT_SCHEMA, "multiply")
        .tool("divide", "Divide two numbers", OBJECT_SCHEMA, "divide")
        .build();

    assert_eq!(server.tools().len(), 3);
}

#[test]
fn test_tool_error_handling() {
    let server: McpServer<&str> = McpServer::builder("calc", "1.0.0")
        .tool("divide", "Divide two numbers", OBJECT_SCHEMA, "divide")
        .build();

    assert_eq!(server.tools().len(), 1);
}

#[test]
fn test_tool_json_response() {
    let server: McpServer<&str> = McpServer::builder("search", "1.0.0")
        .tool("search", "Search items", OBJECT_SCHEMA, "search")
        .build();

    assert_eq!(server.tools().len(), 1);
}

#[test]
fn test_tool_no_args() {
    let server: McpServer<&str> = McpServer::builder("time", "1.0.0")
        .tool("time", "Get current time", OBJECT_SCHEMA, "time")
        .build();

    assert_eq!(server.tools().len(), 1);
    let tool = &server.tools()[0];
    assert_eq!(tool.input_schema, OBJECT_SCHEMA);
}

#[test]
fn test_multiple_tools() {
    let server: McpServer<&str> = McpServer::builder("multi", "1.0.0")
        .tool("tool1", "First tool", OBJECT_SCHEMA, "tool1")
        .tool("tool2", "Second tool", OBJECT_SCHEMA, "tool2")
        .tool("tool3", "Third tool", OBJECT_SCHEMA, "tool3")
        .build();

    assert_eq!(server.tools().len(), 3);
}

#[test]
fn test_resource_registration() {
    let server: McpServer<&str> = McpServer::builder("config", "1.0.0")
        .resource("config://app", "Config", "Application configuration", "config")
        .build();

    assert_eq!(server.resources().len(), 1);
    let resource = &server.resources()[0];
    assert_eq!(resource.uri, "config://app");
    assert_eq!(resource.name, "Config");
}

#[test]
fn test_resource_template() {
    let server: McpServer<&str> = McpServer::builder("users", "1.0.0")
        .resource_template("user://{id}", "User", "User profile by ID", "user")
        .build();

    assert_eq!(server.resource_templates().len(), 1);
    let template = &server.resource_templates()[0];
    assert_eq!(template.uri_template, "user://{id}");
}

#[test]
fn test_prompt_no_args() {
    let server: McpServer<&str> = McpServer::builder("chat", "1.0.0")
        .prompt("greeting", "Default greeting", Vec::new(), "greeting")
        .build();

    assert_eq!(server.prompts().len(), 1);
    let prompt = &server.prompts()[0];
    assert_eq!(prompt.name, "greeting");
    assert!(prompt.arguments.is_none());
}

#[test]
fn test_server_metadata() {
    let server: McpServer<&str> = McpServer::builder("my-server", "2.0.0")
        .description("A test server")
        .instructions("Use this server for testing")
        .build();

    assert!(server.tools().is_empty());
    assert!(server.resources().is_empty());
    assert!(server.prompts().is_empty());
    assert_eq!(server.name(), "my-server");
    assert_eq!(server.version(), "2.0.0");
    assert_eq!(server.instructions().map(|s| s.as_str()), Some("Use this server for testing"));
}
