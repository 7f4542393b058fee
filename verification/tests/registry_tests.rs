use anda_engine::directory::{EngineInformation, RemoteEngines};
use anda_engine::model::FunctionDefinition;
use anda_engine::registry::{is_wanted, DefinitionRegistry, RegistryError};
use candid::Principal;

fn def(name: &str) -> FunctionDefinition {
    FunctionDefinition {
        name: name.to_string(),
        description: format!("does {}", name),
        parameters: serde_json::Value::Null,
        strict: None,
    }
}

fn names(defs: &[FunctionDefinition]) -> Vec<String> {
    defs.iter().map(|d| d.name.clone()).collect()
}

fn engine(name: &str, endpoint: &str, tools: &[&str], agents: &[&str]) -> EngineInformation {
    EngineInformation {
        id: Principal::anonymous(),
        name: name.to_string(),
        endpoint: endpoint.to_string(),
        agent_definitions: agents.iter().map(|n| def(n)).collect(),
        tool_definitions: tools.iter().map(|n| def(n)).collect(),
    }
}

#[test]
fn registry_lists_definitions_in_name_order() {
    let mut reg = DefinitionRegistry::new();
    assert_eq!(reg.len(), 0);
    assert_eq!(reg.add(def("weather")), Ok(()));
    assert_eq!(reg.add(def("calc")), Ok(()));
    assert_eq!(reg.add(def("search")), Ok(()));
    assert_eq!(reg.len(), 3);
    assert_eq!(names(&reg.definitions(None)), vec!["calc", "search", "weather"]);
}

#[test]
fn registry_refuses_a_name_twice() {
    let mut reg = DefinitionRegistry::new();
    assert_eq!(reg.add(def("weather")), Ok(()));
    assert_eq!(
        reg.add(def("weather")),
        Err(RegistryError::AlreadyExists("weather".to_string()))
    );
    assert_eq!(reg.len(), 1);
}

#[test]
fn registry_membership_is_exact() {
    let mut reg = DefinitionRegistry::new();
    reg.add(def("weather")).unwrap();
    assert!(reg.contains("weather"));
    assert!(!reg.contains("weathe"));
    assert!(!reg.contains("weather2"));
    assert!(!reg.contains(""));
    assert_eq!(reg.definition("weather"), Some(def("weather")));
    assert_eq!(reg.definition("calc"), None);
}

#[test]
fn registry_filters_by_name() {
    let mut reg = DefinitionRegistry::new();
    for n in ["a", "b", "c"] {
        reg.add(def(n)).unwrap();
    }
    assert_eq!(names(&reg.definitions(Some(&["c", "a", "zz"]))), vec!["a", "c"]);
    assert!(reg.definitions(Some(&[])).is_empty());
    assert!(reg.definitions(Some(&["zz"])).is_empty());
    assert!(is_wanted(None, "a"));
    assert!(is_wanted(Some(&["a"]), "a"));
    assert!(!is_wanted(Some(&["a"]), "b"));
}

#[test]
fn registry_keeps_parameters_of_a_definition() {
    let mut schema = serde_json::Map::new();
    schema.insert("type".to_string(), serde_json::Value::String("object".to_string()));
    let given = FunctionDefinition {
        name: "weather".to_string(),
        description: "forecast".to_string(),
        parameters: serde_json::Value::Object(schema),
        strict: Some(true),
    };
    let mut reg = DefinitionRegistry::new();
    reg.add(given.clone()).unwrap();
    let listed = reg.definitions(None);
    assert_eq!(listed.len(), 1);
    assert_eq!(listed[0], given);
    assert_ne!(listed[0].parameters, serde_json::Value::Null);
}

#[test]
fn name_with_prefix_prepends() {
    let d = def("lookup").name_with_prefix("RT_x1");
    assert_eq!(d.name, "RT_x1lookup");
    assert_eq!(d.description, "does lookup");
    let e = def("lookup").name_with_prefix("");
    assert_eq!(e.name, "lookup");
}

#[test]
fn directory_walks_in_prefix_order() {
    let mut dir = RemoteEngines::new();
    assert!(dir.insert("x1".to_string(), engine("one", "https://one", &["a"], &[])).is_none());
    assert!(dir.insert("a9".to_string(), engine("nine", "https://nine", &["b"], &[])).is_none());
    assert!(dir.insert("m".to_string(), engine("em", "https://em", &["c"], &[])).is_none());
    assert_eq!(dir.len(), 3);
    assert_eq!(dir.prefix_at(0), "a9");
    assert_eq!(dir.prefix_at(1), "m");
    assert_eq!(dir.prefix_at(2), "x1");
    assert_eq!(dir.engine_at(0).name, "nine");
    assert_eq!(dir.engine_at(2).name, "one");
}

#[test]
fn directory_replaces_under_the_same_prefix() {
    let mut dir = RemoteEngines::new();
    dir.insert("x1".to_string(), engine("old", "https://old", &[], &[]));
    let previous = dir.insert("x1".to_string(), engine("new", "https://new", &[], &[]));
    assert_eq!(previous.map(|e| e.name), Some("old".to_string()));
    assert_eq!(dir.len(), 1);
    assert_eq!(dir.engine_at(0).name, "new");
}

#[test]
fn directory_finds_first_endpoint_and_longest_prefix() {
    let mut dir = RemoteEngines::new();
    dir.insert("x".to_string(), engine("short", "https://peer/rpc", &[], &[]));
    dir.insert("x1".to_string(), engine("long", "https://peer/rpc", &[], &[]));
    dir.insert("y".to_string(), engine("other", "https://other", &[], &[]));
    assert_eq!(dir.find_endpoint("https://peer/rpc"), Some(0));
    assert_eq!(dir.find_endpoint("https://other"), Some(2));
    assert_eq!(dir.find_endpoint("https://nobody"), None);
    assert_eq!(dir.longest_match("x1lookup"), Some(1));
    assert_eq!(dir.longest_match("x2lookup"), Some(0));
    assert_eq!(dir.longest_match("ylookup"), Some(2));
    assert_eq!(dir.longest_match("zlookup"), None);
    assert_eq!(dir.longest_match(""), None);
}
