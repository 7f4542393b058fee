use anda_engine::directory::{EngineInformation, RemoteEngines};
use anda_engine::model::FunctionDefinition;
use anda_engine::registry::DefinitionRegistry;
use anda_engine::router::{classify, route_agent, route_remote, route_tool, CallClass, Target};
use candid::Principal;

fn def(name: &str) -> FunctionDefinition {
    FunctionDefinition {
        name: name.to_string(),
        description: String::new(),
        parameters: serde_json::Value::Null,
        strict: None,
    }
}

fn registry(list: &[&str]) -> DefinitionRegistry {
    let mut reg = DefinitionRegistry::new();
    for n in list {
        reg.add(def(n)).unwrap();
    }
    reg
}

fn directory() -> RemoteEngines {
    let mut dir = RemoteEngines::new();
    dir.insert(
        "x1".to_string(),
        EngineInformation {
            id: Principal::anonymous(),
            name: "peer".to_string(),
            endpoint: "https://peer/rpc".to_string(),
            agent_definitions: vec![def("helper")],
            tool_definitions: vec![def("lookup")],
        },
    );
    dir.insert(
        "x".to_string(),
        EngineInformation {
            id: Principal::anonymous(),
            name: "short".to_string(),
            endpoint: "https://short/rpc".to_string(),
            agent_definitions: vec![],
            tool_definitions: vec![def("1lookup")],
        },
    );
    dir
}

fn remote(endpoint: &str, name: &str) -> Target {
    Target::Remote { endpoint: endpoint.to_string(), name: name.to_string() }
}

fn local(name: &str) -> Target {
    Target::Local { name: name.to_string() }
}

fn missing(name: &str) -> Target {
    Target::NotFound { name: name.to_string() }
}

#[test]
fn classify_by_membership_and_tag() {
    let tools = registry(&["weather", "both"]);
    let agents = registry(&["planner", "both"]);
    assert_eq!(classify("weather", &tools, &agents), CallClass::Tool);
    assert_eq!(classify("RT_x1lookup", &tools, &agents), CallClass::Tool);
    assert_eq!(classify("RT_", &tools, &agents), CallClass::Tool);
    assert_eq!(classify("both", &tools, &agents), CallClass::Tool);
    assert_eq!(classify("planner", &tools, &agents), CallClass::Agent);
    assert_eq!(classify("LA_planner", &tools, &agents), CallClass::Agent);
    assert_eq!(classify("LA_nobody", &tools, &agents), CallClass::Agent);
    assert_eq!(classify("RA_x1helper", &tools, &agents), CallClass::Agent);
    assert_eq!(classify("hallucinated", &tools, &agents), CallClass::Unknown);
    assert_eq!(classify("rt_x1lookup", &tools, &agents), CallClass::Unknown);
    assert_eq!(classify("", &tools, &agents), CallClass::Unknown);
}

#[test]
fn remote_tool_routes_to_longest_prefix() {
    let tools = registry(&["weather"]);
    let dir = directory();
    assert_eq!(route_tool("RT_x1lookup", &tools, &dir), remote("https://peer/rpc", "lookup"));
    assert_eq!(route_tool("RT_x2lookup", &tools, &dir), remote("https://short/rpc", "2lookup"));
    assert_eq!(route_tool("RT_x1", &tools, &dir), remote("https://peer/rpc", ""));
    assert_eq!(route_remote("x1lookup", &dir), Some(remote("https://peer/rpc", "lookup")));
    assert_eq!(route_remote("zz", &dir), None);
}

#[test]
fn remote_tag_without_matching_prefix_is_not_found() {
    let tools = registry(&["weather", "RT_zzz"]);
    let agents = registry(&["planner", "RA_zzz"]);
    let dir = directory();
    assert_eq!(route_tool("RT_zzz", &tools, &dir), missing("RT_zzz"));
    assert_eq!(route_tool("RT_", &tools, &dir), missing("RT_"));
    assert_eq!(route_agent("RA_zzz", &agents, &dir), missing("RA_zzz"));
}

#[test]
fn local_tool_route() {
    let tools = registry(&["weather"]);
    let dir = directory();
    assert_eq!(route_tool("weather", &tools, &dir), local("weather"));
    assert_eq!(route_tool("planner", &tools, &dir), missing("planner"));
    assert_eq!(route_tool("LA_weather", &tools, &dir), missing("LA_weather"));
    assert_eq!(route_tool("RA_x1helper", &tools, &dir), missing("RA_x1helper"));
}

#[test]
fn agent_routes() {
    let agents = registry(&["planner"]);
    let dir = directory();
    assert_eq!(route_agent("planner", &agents, &dir), local("planner"));
    assert_eq!(route_agent("LA_planner", &agents, &dir), local("planner"));
    assert_eq!(route_agent("LA_nobody", &agents, &dir), missing("nobody"));
    assert_eq!(route_agent("nobody", &agents, &dir), missing("nobody"));
    assert_eq!(route_agent("RA_x1helper", &agents, &dir), remote("https://peer/rpc", "helper"));
    assert_eq!(route_agent("RT_x1lookup", &agents, &dir), missing("RT_x1lookup"));
}

#[test]
fn empty_directory_serves_no_remote_name() {
    let tools = registry(&[]);
    let dir = RemoteEngines::new();
    assert_eq!(route_tool("RT_x1lookup", &tools, &dir), missing("RT_x1lookup"));
    assert_eq!(route_tool("anything", &tools, &dir), missing("anything"));
}
