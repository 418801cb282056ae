use service::utils;

const CONFIG: &str = r#"[
  {"method": "GET", "path": "/api/users/", "response": {"success": true, "data": {"id": 7}}, "wait": 250},
  {"method": "POST", "path": "/api/users/", "response": {"success": false, "data": "denied"}},
  {"method": "GET", "path": "/api/users/", "response": {"success": true, "data": "shadowed"}}
]"#;

#[test]
fn registry_lookup_returns_the_stored_payload() {
    let apis = utils::apis(CONFIG).ok().unwrap();
    let resp = apis.response("POST", "/api/users/").unwrap();
    assert!(!resp.success);
    assert_eq!(resp.data, "\"denied\"");
}

#[test]
fn registry_miss_returns_nothing() {
    let apis = utils::apis(CONFIG).ok().unwrap();
    assert!(apis.response("GET", "/nowhere").is_none());
    assert!(apis.response("PUT", "/api/users/").is_none());
}

#[test]
fn duplicate_routes_resolve_to_the_first_inserted_entry() {
    let apis = utils::apis(CONFIG).ok().unwrap();
    let resp = apis.response("GET", "/api/users/").unwrap();
    assert!(resp.success);
    assert_eq!(resp.data, "{\"id\": 7}");
    let first = apis.find("GET", "/api/users/").unwrap();
    assert_eq!(first, 0);
}

#[test]
fn wait_values_are_read_per_entry() {
    let apis = utils::apis(CONFIG).ok().unwrap();
    let slow = apis.find("GET", "/api/users/").unwrap();
    assert_eq!(apis.entry(slow).wait, Some(250));
    let fast = apis.find("POST", "/api/users/").unwrap();
    assert_eq!(apis.entry(fast).wait, None);
}

#[test]
fn wait_null_counts_as_absent() {
    let cfg = r#"[{"method":"GET","path":"/a","response":{"success":true,"data":1},"wait":null}]"#;
    let apis = utils::apis(cfg).ok().unwrap();
    assert_eq!(apis.entry(0).wait, None);
}

#[test]
fn escaped_route_names_are_decoded() {
    let cfg = r#"[{"method":"GET","path":"/café","response":{"success":true,"data":null}}]"#;
    let apis = utils::apis(cfg).ok().unwrap();
    assert!(apis.response("GET", "/café").is_some());
}

#[test]
fn malformed_configurations_are_rejected_whole() {
    assert!(utils::apis("not json").is_err());
    assert!(utils::apis("{}").is_err());
    assert!(utils::apis("[{}]").is_err());
    assert!(utils::apis(r#"[{"method":"GET","path":"/a"}]"#).is_err());
    assert!(utils::apis(r#"[{"method":"GET","path":"/a","response":{"data":1}}]"#).is_err());
    assert!(utils::apis(r#"[{"method":"GET","path":"/a","response":{"success":true}}]"#).is_err());
    assert!(
        utils::apis(r#"[{"method":"GET","path":"/a","response":{"success":true,"data":1},"wait":-1}]"#)
            .is_err()
    );
    assert!(
        utils::apis(r#"[{"method":"GET","path":"/a","response":{"success":true,"data":1},"wait":1.5}]"#)
            .is_err()
    );
}

#[test]
fn wait_values_cover_the_full_u64_range_and_no_more() {
    let max = r#"[{"method":"GET","path":"/a","response":{"success":true,"data":1},"wait":18446744073709551615}]"#;
    let apis = utils::apis(max).ok().unwrap();
    assert_eq!(apis.entry(0).wait, Some(u64::MAX));
    let over = r#"[{"method":"GET","path":"/a","response":{"success":true,"data":1},"wait":18446744073709551616}]"#;
    assert!(utils::apis(over).is_err());
}

#[test]
fn empty_configuration_yields_an_empty_registry() {
    let apis = utils::apis("[]").ok().unwrap();
    assert!(apis.response("GET", "/").is_none());
}

#[test]
fn read_env_lowers_or_defaults() {
    assert_eq!(utils::read_env(Some(String::from("PROD"))), "prod");
    assert_eq!(utils::read_env(None), "local");
}

#[test]
fn read_port_env_parses_or_defaults() {
    assert_eq!(utils::read_port_env(None), Some(8000));
    assert_eq!(utils::read_port_env(Some("9000")), Some(9000));
    assert_eq!(utils::read_port_env(Some("+80")), Some(80));
    assert_eq!(utils::read_port_env(Some("0")), Some(0));
    assert_eq!(utils::read_port_env(Some("70000")), None);
    assert_eq!(utils::read_port_env(Some("abc")), None);
    assert_eq!(utils::read_port_env(Some("")), None);
}

#[test]
fn is_traced_needs_either_signal() {
    assert!(utils::is_traced(true, false));
    assert!(utils::is_traced(false, true));
    assert!(!utils::is_traced(false, false));
}
