use plugin_host::api::ToolCall;
use plugin_host::loader::{tool_definitions_from_raw, tool_result_from_raw, tool_call_json};
use plugin_host::manager::{
    collect_hook_results, merge_tool_lists, EnableOutcome, ManagerError, PluginManager,
};
use plugin_host::registry::PluginRegistry;

fn ok<T, E>(r: Result<T, E>) -> T {
    match r {
        Ok(t) => t,
        Err(_) => panic!("unexpected error"),
    }
}

fn manifest_text(id: &str, main: &str, hooks: &[&str]) -> String {
    let hook_list = hooks
        .iter()
        .map(|h| format!("\"{}\"", h))
        .collect::<Vec<_>>()
        .join(",");
    format!(
        "{{\"id\":\"{}\",\"name\":\"{} plugin\",\"version\":\"1.0.0\",\"author\":\"test\",\
         \"description\":\"a test plugin\",\"main\":\"{}\",\"hooks\":[{}]}}",
        id, id, main, hook_list
    )
}

fn manager_with(found: Vec<(String, String)>, state: Option<&str>) -> PluginManager {
    let reg = ok(PluginRegistry::new("/plugins".to_string(), found, state));
    PluginManager::new(reg)
}

fn enable(m: &mut PluginManager, id: &str) {
    let _t = ok(m.enable_begin(id, true));
    ok(m.enable_finish(id, EnableOutcome::Initialized));
}

fn disable(m: &mut PluginManager, id: &str) {
    let _needs_shutdown = m.disable_begin(id);
    let _ = m.disable_finish(id, None);
}

#[test]
fn enabled_flag_and_loader_agree_around_every_operation() {
    let found = vec![("/plugins/echo".to_string(), manifest_text("echo", "echo.so", &[]))];
    let mut m = manager_with(found, None);
    assert!(m.is_consistent());

    enable(&mut m, "echo");
    assert!(m.is_consistent());
    assert!(m.is_loaded("echo"));

    disable(&mut m, "echo");
    assert!(m.is_consistent());
    assert!(!m.is_loaded("echo"));

    let _ = ok(m.uninstall_finish("echo"));
    assert!(m.is_consistent());
}

#[test]
fn enable_with_missing_module_changes_nothing() {
    let found = vec![("/plugins/echo".to_string(), manifest_text("echo", "echo.so", &[]))];
    let mut m = manager_with(found, None);

    let r = m.enable_begin("echo", false);
    assert!(matches!(r, Err(ManagerError::LibraryNotFound(_))));
    if let Err(e) = m.enable_begin("echo", false) {
        assert_eq!(e.message(), "dynamic library file not found: /plugins/echo/echo.so");
    }
    assert!(!m.is_loaded("echo"));
    let infos = m.list();
    assert_eq!(infos.len(), 1);
    assert!(!infos[0].enabled);
    assert!(m.is_consistent());
}

#[test]
fn failed_initialize_rolls_the_load_back() {
    let found = vec![("/plugins/echo".to_string(), manifest_text("echo", "echo.so", &[]))];
    let mut m = manager_with(found, None);

    let _t = ok(m.enable_begin("echo", true));
    let r = m.enable_finish("echo", EnableOutcome::InitFailed("init exploded".to_string()));
    assert!(matches!(r, Err(ManagerError::Loader(_))));
    assert!(!m.is_loaded("echo"));
    let info = ok(m.get("echo"));
    assert!(!info.enabled);
    assert!(m.is_consistent());
}

#[test]
fn disable_always_clears_subscriptions_even_when_already_disabled() {
    let found = vec![
        ("/plugins/echo".to_string(), manifest_text("echo", "echo.so", &["file-opened"])),
    ];
    let mut m = manager_with(found, None);
    enable(&mut m, "echo");
    assert_eq!(m.hook_listeners("file-opened"), vec!["echo".to_string()]);

    disable(&mut m, "echo");
    assert!(m.hook_listeners("file-opened").is_empty());

    // a second disable of the already-disabled plugin still reports no
    // subscriptions afterwards
    disable(&mut m, "echo");
    assert!(m.hook_listeners("file-opened").is_empty());
}

#[test]
fn uninstall_of_enabled_plugin_leaves_nothing() {
    let found = vec![("/plugins/echo".to_string(), manifest_text("echo", "echo.so", &[]))];
    let mut m = manager_with(found, None);
    enable(&mut m, "echo");

    disable(&mut m, "echo");
    let dir = ok(m.uninstall_finish("echo"));
    assert_eq!(dir, "/plugins/echo");
    assert!(!m.is_loaded("echo"));
    assert!(m.get("echo").is_err());
    assert!(m.list().is_empty());
}

#[test]
fn install_enable_list_and_restart_round_trip() {
    let mut m = manager_with(Vec::new(), None);

    // install: the host extracted the package, the manager registers it
    let text = manifest_text("echo", "echo.so", &[]);
    let manifest = ok(plugin_host::manifest::manifest_from_str(&text));
    let (replace, dir) = m.install_begin("echo");
    assert!(!replace);
    assert_eq!(dir, "/plugins/echo");
    let info = ok(m.install_finish(manifest, dir));
    assert!(!info.enabled);
    let infos = m.list();
    assert_eq!(infos.len(), 1);
    assert_eq!(infos[0].id, "echo");
    assert!(!infos[0].enabled);

    enable(&mut m, "echo");
    let infos = m.list();
    assert!(infos[0].enabled);

    // simulate a process restart with the same plugins directory: the
    // persisted state file decides which plugins come back enabled
    let state = m.state_json();
    let found = vec![
        ("/plugins/echo".to_string(), manifest_text("echo", "echo.so", &[])),
        ("/plugins/other".to_string(), manifest_text("other", "other.so", &[])),
    ];
    let mut m2 = manager_with(found, Some(&state));
    let pending = m2.enabled_plugin_ids();
    assert_eq!(pending, vec!["echo".to_string()]);
    for id in pending {
        let _t = ok(m2.enable_begin(&id, true));
        ok(m2.enable_finish(&id, EnableOutcome::Initialized));
    }
    assert!(m2.is_loaded("echo"));
    assert!(!m2.is_loaded("other"));
    assert!(m2.is_consistent());
}

#[test]
fn restore_failure_forces_the_flag_back_to_disabled() {
    let state = "{\"plugins\":{\"echo\":{\"enabled\":true,\"config\":{}}}}";
    let found = vec![("/plugins/echo".to_string(), manifest_text("echo", "echo.so", &[]))];
    let mut m = manager_with(found, Some(state));
    assert_eq!(m.enabled_plugin_ids(), vec!["echo".to_string()]);
    assert!(!m.is_consistent());

    // the module file is gone, so the restore fails and the flag is reset
    let r = m.enable_begin("echo", false);
    assert!(r.is_err());
    m.force_disable("echo");
    assert!(m.is_consistent());
}

#[test]
fn execute_tool_against_disabled_plugin_is_refused_up_front() {
    let found = vec![("/plugins/echo".to_string(), manifest_text("echo", "echo.so", &[]))];
    let m = manager_with(found, None);

    let r = m.execute_tool_begin("echo");
    match r {
        Err(ManagerError::PluginNotEnabled(id)) => assert_eq!(id, "echo"),
        _ => panic!("expected the not-enabled error"),
    }
    if let Err(e) = m.execute_tool_begin("echo") {
        assert_eq!(e.message(), "plugin 'echo' is not enabled");
    }
}

#[test]
fn hook_broadcast_collects_exactly_the_answering_plugin() {
    let found = vec![
        ("/plugins/a".to_string(), manifest_text("a", "a.so", &["file-opened"])),
        ("/plugins/b".to_string(), manifest_text("b", "b.so", &["file-opened"])),
    ];
    let mut m = manager_with(found, None);
    enable(&mut m, "a");
    enable(&mut m, "b");

    let mut listeners = m.hook_listeners("file-opened");
    listeners.sort();
    assert_eq!(listeners, vec!["a".to_string(), "b".to_string()]);

    // plugin a answers, plugin b returns null
    let answer = serde_json::Value::String("seen".to_string());
    let responses: Vec<(String, Option<serde_json::Value>)> = listeners
        .into_iter()
        .map(|id| {
            if id == "a" {
                (id, Some(answer.clone()))
            } else {
                (id, None)
            }
        })
        .collect();
    let results = collect_hook_results(responses);
    assert_eq!(results.len(), 1);
    assert_eq!(results[0].plugin_id, "a");
    assert_eq!(results[0].data, answer);
}

#[test]
fn echo_plugin_lifecycle_scenario() {
    let mut m = manager_with(Vec::new(), None);

    // install plugin A
    let text = manifest_text("echo", "echo.so", &["app-started"]);
    let manifest = ok(plugin_host::manifest::manifest_from_str(&text));
    let (_replace, dir) = m.install_begin("echo");
    let _info = ok(m.install_finish(manifest, dir));

    // enable it
    enable(&mut m, "echo");
    assert!(m.is_loaded("echo"));
    assert_eq!(m.hook_listeners("app-started"), vec!["echo".to_string()]);

    // the live plugin reports one tool named "hello"
    let raw_tools = "[{\"pluginId\":\"echo\",\"name\":\"hello\",\"description\":\"says hello\",\
                     \"parameters\":{\"type\":\"object\",\"properties\":{}}}]";
    let tools = ok(tool_definitions_from_raw(Some(raw_tools.to_string())));
    let all = merge_tool_lists(vec![tools]);
    assert!(all.iter().any(|t| t.name == "hello" && t.plugin_id == "echo"));

    // executing the tool: admission passes, the call is marshalled, and the
    // plugin's fixed payload comes back as success
    ok(m.execute_tool_begin("echo"));
    let call = ToolCall {
        name: "hello".to_string(),
        arguments: serde_json::Value::Object(serde_json::Map::new()),
    };
    let sent = tool_call_json(&call);
    assert_eq!(sent, "{\"name\":\"hello\",\"arguments\":{}}");
    let raw_result = "{\"success\":true,\"data\":{\"message\":\"Hello from echo\"},\"error\":null}";
    let result = ok(tool_result_from_raw(Some(raw_result.to_string())));
    assert!(result.success);
    assert!(result.error.is_none());
    assert_eq!(
        result.data.get("message").and_then(|v| v.as_str()),
        Some("Hello from echo")
    );

    // disable, then the same call is refused before any native work
    disable(&mut m, "echo");
    assert!(matches!(
        m.execute_tool_begin("echo"),
        Err(ManagerError::PluginNotEnabled(_))
    ));
}

#[test]
fn reinstall_replaces_the_previous_copy() {
    let found = vec![("/plugins/echo".to_string(), manifest_text("echo", "echo.so", &[]))];
    let mut m = manager_with(found, None);

    // installing over an existing id: the manager reports the conflict and
    // the host uninstalls the old copy first
    let text = manifest_text("echo", "echo2.so", &[]);
    let manifest = ok(plugin_host::manifest::manifest_from_str(&text));
    let (replace, dir) = m.install_begin("echo");
    assert!(replace);
    disable(&mut m, "echo");
    let _ = ok(m.uninstall_finish("echo"));
    let info = ok(m.install_finish(manifest, dir));
    assert_eq!(info.id, "echo");
    assert!(!info.enabled);
}

#[test]
fn shutdown_failure_aborts_the_disable_but_clears_subscriptions() {
    let found = vec![
        ("/plugins/echo".to_string(), manifest_text("echo", "echo.so", &["file-opened"])),
    ];
    let mut m = manager_with(found, None);
    enable(&mut m, "echo");

    let needs_shutdown = m.disable_begin("echo");
    assert!(needs_shutdown);
    let r = m.disable_finish("echo", Some("stuck".to_string()));
    match r {
        Err(ManagerError::Loader(e)) => {
            assert_eq!(e.message(), "plugin shutdown failed: stuck");
        },
        _ => panic!("expected the shutdown failure"),
    }
    // the module stays loaded and flagged, but its subscriptions are gone
    assert!(m.is_loaded("echo"));
    assert!(m.hook_listeners("file-opened").is_empty());
}

#[test]
fn failed_reenable_resets_the_flag_and_stays_consistent() {
    let found = vec![("/plugins/echo".to_string(), manifest_text("echo", "echo.so", &[]))];
    let mut m = manager_with(found, None);
    enable(&mut m, "echo");
    assert!(m.is_loaded("echo"));

    // re-enabling replaces the module; when its initialize fails, the load
    // is rolled back and the flag goes back to disabled
    let _t = ok(m.enable_begin("echo", true));
    let r = m.enable_finish("echo", EnableOutcome::InitFailed("broken".to_string()));
    assert!(r.is_err());
    assert!(!m.is_loaded("echo"));
    assert!(!ok(m.get("echo")).enabled);
    assert!(m.is_consistent());
}

#[test]
fn uninstall_after_failed_shutdown_still_releases_the_module() {
    let found = vec![
        ("/plugins/echo".to_string(), manifest_text("echo", "echo.so", &["file-opened"])),
    ];
    let mut m = manager_with(found, None);
    enable(&mut m, "echo");

    // the plugin refuses to shut down, but uninstall is best effort: the
    // entry, the load record and the subscriptions all go
    let needs_shutdown = m.disable_begin("echo");
    assert!(needs_shutdown);
    assert!(m.disable_finish("echo", Some("stuck".to_string())).is_err());
    assert!(m.is_loaded("echo"));

    let dir = ok(m.uninstall_finish("echo"));
    assert_eq!(dir, "/plugins/echo");
    assert!(!m.is_loaded("echo"));
    assert!(m.get("echo").is_err());
    assert!(m.hook_listeners("file-opened").is_empty());
    assert!(m.is_consistent());
}

#[test]
fn window_config_succeeds_exactly_for_declared_windows() {
    let with_ui = "{\"id\":\"ui\",\"name\":\"n\",\"version\":\"1\",\"author\":\"a\",\
                   \"description\":\"d\",\"main\":\"ui.so\",\
                   \"ui\":{\"panel\":\"p.html\",\"position\":\"floating\",\
                   \"windows\":{\"console\":{\"path\":\"c.html\"}}}}";
    let found = vec![
        ("/plugins/ui".to_string(), with_ui.to_string()),
        ("/plugins/bare".to_string(), manifest_text("bare", "bare.so", &[])),
    ];
    let m = manager_with(found, None);

    let (dir, w) = ok(m.get_plugin_window_config("ui", "console"));
    assert_eq!(dir, "/plugins/ui");
    assert_eq!(w.get("path").and_then(|p| p.as_str()), Some("c.html"));

    assert!(matches!(
        m.get_plugin_window_config("ui", "no-such-window"),
        Err(ManagerError::InvalidPackage(_))
    ));
    assert!(matches!(
        m.get_plugin_window_config("bare", "console"),
        Err(ManagerError::InvalidPackage(_))
    ));
    assert!(matches!(
        m.get_plugin_window_config("missing", "console"),
        Err(ManagerError::Registry(_))
    ));
}
