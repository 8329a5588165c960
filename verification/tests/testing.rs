use turbomcp_wasm::testing::McpTestClient;
use turbomcp_wasm::wasm_server::server::McpServer;

fn create_test_server() -> McpServer<&'static str> {
    McpServer::builder("test-server", "1.0.0")
        .description("A test server")
        .tool("greet", "Say hello", "{\"type\":\"object\"}", "greet")
        .tool("add", "Add two numbers", "{\"type\":\"object\"}", "add")
        .build()
}

#[test]
fn testing_test_server_info() {
    let server = create_test_server();
    let client = McpTestClient::new(server);
    assert_eq!(client.server_name(), "test-server");
    assert_eq!(client.server_version(), "1.0.0");
    assert_eq!(client.server_info(), ("test-server", "1.0.0"));
}

#[test]
fn test_list_tools() {
    let server = create_test_server();
    let client = McpTestClient::new(server);
    let tools = client.list_tools();
    assert_eq!(tools.len(), 2);
    assert_eq!(tools[0].name, "add");
    assert_eq!(tools[1].name, "greet");
    assert!(client.list_resources().is_empty());
    assert!(client.list_prompts().is_empty());
}

#[test]
fn test_assert_tool_exists() {
    let server = create_test_server();
    let client = McpTestClient::new(server);
    let tool = client.assert_tool_exists("greet");
    assert_eq!(tool.name, "greet");
    assert_eq!(tool.description.as_deref(), Some("Say hello"));
}

#[test]
fn test_assert_tool_not_exists() {
    let server = create_test_server();
    let client = McpTestClient::new(server);
    assert!(!client.has_tool("nonexistent"));
    assert!(client.has_tool("greet"));
    client.assert_tool_not_exists("nonexistent");
}

#[test]
fn test_assert_tool_count() {
    let server = create_test_server();
    let client = McpTestClient::new(server);
    assert_eq!(client.tool_count(), 2);
    assert_eq!(client.resource_count(), 0);
    assert_eq!(client.prompt_count(), 0);
    client.assert_tool_count(2);
    client.assert_resource_count(0);
    client.assert_prompt_count(0);
}

#[test]
fn test_with_session() {
    let server = create_test_server();
    let client = McpTestClient::new(server).with_session("test-session-123");
    assert_eq!(client.session_id(), Some(&"test-session-123".to_string()));
}

#[test]
fn test_with_user() {
    let server = create_test_server();
    let client = McpTestClient::new(server).with_user("user-456");
    assert_eq!(client.user_id(), Some(&"user-456".to_string()));
}

#[test]
fn test_with_roles() {
    let server = create_test_server();
    let client =
        McpTestClient::new(server).with_roles(vec!["admin".to_string(), "user".to_string()]);
    assert_eq!(client.roles(), ["admin", "user"]);
    let more = client.with_role("auditor");
    assert_eq!(more.roles(), ["admin", "user", "auditor"]);
}

#[test]
fn resources_and_prompts_can_be_asserted_too() {
    let server: McpServer<u8> = McpServer::builder("s", "1")
        .resource("config://app", "config", "App config", 1)
        .prompt("greeting", "Greeting", Vec::new(), 2)
        .build();
    let client = McpTestClient::new(server).with_metadata("tenant", "acme");
    assert_eq!(client.assert_resource_exists("config://app").name, "config");
    assert_eq!(client.assert_prompt_exists("greeting").name, "greeting");
    assert_eq!(client.server().tools().len(), 0);
    assert!(client.has_resource("config://app"));
    assert!(!client.has_resource("config://other"));
    assert!(client.has_prompt("greeting"));
    assert!(!client.has_prompt("farewell"));
    assert_eq!((client.tool_count(), client.resource_count(), client.prompt_count()), (0, 1, 1));
}
