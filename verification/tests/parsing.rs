use plugin_host::api::{PluginContext, UIPosition};
use plugin_host::loader::{
    context_json, hook_response_from_raw, status_outcome, tool_definitions_from_raw,
    tool_result_from_raw, LoaderError,
};
use plugin_host::manifest::manifest_from_str;
use plugin_host::registry::{PluginRegistry, RegistryError};

fn ok<T, E>(r: Result<T, E>) -> T {
    match r {
        Ok(t) => t,
        Err(_) => panic!("unexpected error"),
    }
}

#[test]
fn status_zero_is_success() {
    assert!(status_outcome(0, None).is_ok());
    assert!(status_outcome(0, Some("ignored".to_string())).is_ok());
}

#[test]
fn status_nonzero_prefers_the_plugin_message() {
    match status_outcome(7, Some("we broke".to_string())) {
        Err(m) => assert_eq!(m, "we broke"),
        Ok(()) => panic!("expected failure"),
    }
}

#[test]
fn status_nonzero_without_message_names_the_code() {
    match status_outcome(5, None) {
        Err(m) => assert_eq!(m, "Unknown error (code: 5)"),
        Ok(()) => panic!("expected failure"),
    }
    match status_outcome(-3, None) {
        Err(m) => assert_eq!(m, "Unknown error (code: -3)"),
        Ok(()) => panic!("expected failure"),
    }
}

#[test]
fn null_tool_result_is_a_synthetic_failure() {
    let r = ok(tool_result_from_raw(None));
    assert!(!r.success);
    assert!(r.data.is_null());
    assert_eq!(r.error.as_deref(), Some("Plugin returned null"));
}

#[test]
fn tool_result_parses_success_data_and_error() {
    let raw = "{\"success\":false,\"data\":null,\"error\":\"tool exploded\"}";
    let r = ok(tool_result_from_raw(Some(raw.to_string())));
    assert!(!r.success);
    assert!(r.data.is_null());
    assert_eq!(r.error.as_deref(), Some("tool exploded"));

    let raw2 = "{\"success\":true,\"data\":[1,2],\"error\":null}";
    let r2 = ok(tool_result_from_raw(Some(raw2.to_string())));
    assert!(r2.success);
    assert_eq!(r2.data, serde_json::from_str::<serde_json::Value>("[1,2]").unwrap());
    assert!(r2.error.is_none());
}

#[test]
fn malformed_tool_result_is_a_json_error() {
    assert!(matches!(
        tool_result_from_raw(Some("not json".to_string())),
        Err(LoaderError::JsonError(_))
    ));
    assert!(matches!(
        tool_result_from_raw(Some("{\"data\":null}".to_string())),
        Err(LoaderError::JsonError(_))
    ));
    assert!(matches!(
        tool_result_from_raw(Some("{\"success\":true,\"error\":null}".to_string())),
        Err(LoaderError::JsonError(_))
    ));
}

#[test]
fn null_tool_list_means_no_tools() {
    let ts = ok(tool_definitions_from_raw(None));
    assert!(ts.is_empty());
}

#[test]
fn tool_list_parses_each_definition() {
    let raw = "[{\"pluginId\":\"p\",\"name\":\"t1\",\"description\":\"d1\",\"parameters\":{}},\
               {\"pluginId\":\"p\",\"name\":\"t2\",\"description\":\"d2\",\"parameters\":null}]";
    let ts = ok(tool_definitions_from_raw(Some(raw.to_string())));
    assert_eq!(ts.len(), 2);
    assert_eq!(ts[0].name, "t1");
    assert_eq!(ts[1].description, "d2");
    assert!(matches!(
        tool_definitions_from_raw(Some("{\"not\":\"an array\"}".to_string())),
        Err(LoaderError::JsonError(_))
    ));
    assert!(matches!(
        tool_definitions_from_raw(Some("[{\"name\":\"t\"}]".to_string())),
        Err(LoaderError::JsonError(_))
    ));
}

#[test]
fn hook_response_null_means_no_answer() {
    assert_eq!(ok(hook_response_from_raw(None)), None);
    let r = ok(hook_response_from_raw(Some("{\"action\":\"open\"}".to_string())));
    let v = r.expect("a response");
    assert_eq!(v.get("action").and_then(|a| a.as_str()), Some("open"));
    assert!(matches!(
        hook_response_from_raw(Some("{{{".to_string())),
        Err(LoaderError::JsonError(_))
    ));
}

#[test]
fn context_marshals_to_the_exact_wire_text() {
    let ctx = PluginContext {
        plugin_id: "echo".to_string(),
        data_dir: "/plugins/echo/data".to_string(),
        config: serde_json::Value::Object(serde_json::Map::new()),
    };
    let t = context_json(&ctx);
    assert_eq!(
        t,
        "{\"plugin_id\":\"echo\",\"data_dir\":\"/plugins/echo/data\",\"config\":{}}"
    );
    // the wire text parses back to the same pieces
    let v: serde_json::Value = serde_json::from_str(&t).unwrap();
    assert_eq!(v.get("plugin_id").and_then(|x| x.as_str()), Some("echo"));
}

#[test]
fn manifest_requires_its_six_string_fields() {
    let good = "{\"id\":\"a\",\"name\":\"n\",\"version\":\"1\",\"author\":\"me\",\
                \"description\":\"d\",\"main\":\"a.so\"}";
    let m = ok(manifest_from_str(good));
    assert_eq!(m.id, "a");
    assert_eq!(m.main, "a.so");
    assert!(m.ui.is_none());
    assert!(m.permissions.is_empty());
    assert!(m.tools.is_empty());
    assert!(m.hooks.is_empty());

    let missing_id = "{\"name\":\"n\",\"version\":\"1\",\"author\":\"me\",\
                      \"description\":\"d\",\"main\":\"a.so\"}";
    assert!(manifest_from_str(missing_id).is_err());
    assert!(manifest_from_str("not json at all").is_err());
    let wrong_type = "{\"id\":7,\"name\":\"n\",\"version\":\"1\",\"author\":\"me\",\
                      \"description\":\"d\",\"main\":\"a.so\"}";
    assert!(manifest_from_str(wrong_type).is_err());
}

#[test]
fn manifest_reads_ui_permissions_tools_and_hooks() {
    let text = "{\"id\":\"a\",\"name\":\"n\",\"version\":\"1\",\"author\":\"me\",\
                \"description\":\"d\",\"main\":\"a.so\",\
                \"ui\":{\"panel\":\"panel.html\",\"position\":\"sidebar\",\
                \"windows\":{\"console\":{\"path\":\"c.html\"}}},\
                \"permissions\":[\"fs\",\"net\"],\
                \"tools\":[{\"name\":\"t\",\"description\":\"d\"}],\
                \"hooks\":[\"on_file_open\"]}";
    let m = ok(manifest_from_str(text));
    let ui = m.ui.expect("a ui");
    assert_eq!(ui.panel, "panel.html");
    assert!(matches!(ui.position, UIPosition::Sidebar));
    assert!(ui.windows.is_some());
    assert_eq!(m.permissions, vec!["fs".to_string(), "net".to_string()]);
    assert_eq!(m.tools.len(), 1);
    assert_eq!(m.tools[0].name, "t");
    assert!(m.tools[0].parameters.is_null());
    assert_eq!(m.hooks, vec!["on_file_open".to_string()]);

    let bad_position = "{\"id\":\"a\",\"name\":\"n\",\"version\":\"1\",\"author\":\"me\",\
                        \"description\":\"d\",\"main\":\"a.so\",\
                        \"ui\":{\"panel\":\"p\",\"position\":\"ceiling\"}}";
    assert!(manifest_from_str(bad_position).is_err());
    let bad_hooks = "{\"id\":\"a\",\"name\":\"n\",\"version\":\"1\",\"author\":\"me\",\
                     \"description\":\"d\",\"main\":\"a.so\",\"hooks\":[1]}";
    assert!(manifest_from_str(bad_hooks).is_err());
}

fn manifest_text(id: &str) -> String {
    format!(
        "{{\"id\":\"{}\",\"name\":\"n\",\"version\":\"1\",\"author\":\"me\",\
         \"description\":\"d\",\"main\":\"{}.so\"}}",
        id, id
    )
}

#[test]
fn registry_scan_merges_persisted_state() {
    let state = "{\"plugins\":{\"a\":{\"enabled\":true,\"config\":{\"k\":1}},\
                 \"gone\":{\"enabled\":true,\"config\":{}}}}";
    let found = vec![
        ("/p/a".to_string(), manifest_text("a")),
        ("/p/b".to_string(), manifest_text("b")),
        ("/p/junk".to_string(), "{ not a manifest".to_string()),
    ];
    let reg = ok(PluginRegistry::new("/p".to_string(), found, Some(state)));
    let infos = reg.list();
    assert_eq!(infos.len(), 2);
    let a = ok(reg.get("a"));
    assert!(a.enabled);
    assert_eq!(a.config.get("k").and_then(|v| v.as_i64()), Some(1));
    assert_eq!(a.lib_path, "/p/a/a.so");
    let b = ok(reg.get("b"));
    assert!(!b.enabled);
    assert_eq!(b.config, serde_json::Value::Object(serde_json::Map::new()));
    assert!(reg.get("gone").is_err());
}

#[test]
fn registry_rejects_a_broken_state_file() {
    let found = vec![("/p/a".to_string(), manifest_text("a"))];
    assert!(matches!(
        PluginRegistry::new("/p".to_string(), found.clone(), Some("{{{")),
        Err(RegistryError::Json(_))
    ));
    let bad_record = "{\"plugins\":{\"a\":{\"enabled\":\"yes\",\"config\":{}}}}";
    assert!(matches!(
        PluginRegistry::new("/p".to_string(), found, Some(bad_record)),
        Err(RegistryError::Json(_))
    ));
}

#[test]
fn registry_register_and_unregister_round_trip() {
    let mut reg = ok(PluginRegistry::new("/p".to_string(), Vec::new(), None));
    let m = ok(manifest_from_str(&manifest_text("a")));
    let info = ok(reg.register(m, "/p/a".to_string()));
    assert_eq!(info.id, "a");
    assert!(!info.enabled);
    assert!(reg.contains_id("a"));

    let m2 = ok(manifest_from_str(&manifest_text("a")));
    match reg.register(m2, "/p/a".to_string()) {
        Err(RegistryError::PluginExists(id)) => assert_eq!(id, "a"),
        _ => panic!("expected the duplicate error"),
    }

    ok(reg.set_enabled("a", true));
    assert_eq!(reg.enabled_plugins(), vec!["a".to_string()]);
    let cfg: serde_json::Value = serde_json::from_str("{\"x\":true}").unwrap();
    ok(reg.set_config("a", cfg.clone()));
    assert_eq!(ok(reg.get("a")).config, cfg);

    ok(reg.unregister("a"));
    assert!(!reg.contains_id("a"));
    match reg.unregister("a") {
        Err(RegistryError::PluginNotFound(id)) => assert_eq!(id, "a"),
        _ => panic!("expected the not-found error"),
    }
    match reg.set_enabled("a", true) {
        Err(e) => assert_eq!(e.message(), "plugin 'a' does not exist"),
        Ok(()) => panic!("expected the not-found error"),
    }
}

#[test]
fn registry_state_text_is_exact_and_parses_back() {
    let mut reg = ok(PluginRegistry::new("/p".to_string(), Vec::new(), None));
    let m = ok(manifest_from_str(&manifest_text("a")));
    ok(reg.register(m, "/p/a".to_string()));
    ok(reg.set_enabled("a", true));
    let text = reg.state_json();
    assert_eq!(text, "{\"plugins\":{\"a\":{\"enabled\":true,\"config\":{}}}}");

    // and the merge reads the flag back on the next start
    let found = vec![("/p/a".to_string(), manifest_text("a"))];
    let reg2 = ok(PluginRegistry::new("/p".to_string(), found, Some(&text)));
    assert!(ok(reg2.get("a")).enabled);
}

#[test]
fn registry_refresh_drops_what_disappeared_from_disk() {
    let found = vec![
        ("/p/a".to_string(), manifest_text("a")),
        ("/p/b".to_string(), manifest_text("b")),
    ];
    let mut reg = ok(PluginRegistry::new("/p".to_string(), found, None));
    assert_eq!(reg.list().len(), 2);

    let rescan = vec![("/p/b".to_string(), manifest_text("b"))];
    ok(reg.refresh(rescan, None));
    assert!(!reg.contains_id("a"));
    assert!(reg.contains_id("b"));
    assert_eq!(reg.state_file_path(), "/p/registry.json");
}
