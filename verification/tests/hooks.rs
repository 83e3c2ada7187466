use plugin_host::hooks::HookDispatcher;
use plugin_host::manager::collect_hook_results;

#[test]
fn test_register_and_unregister() {
    let mut dispatcher = HookDispatcher::new();

    dispatcher.register("on_file_open", "pdf-reader");
    dispatcher.register("on_file_open", "image-viewer");
    dispatcher.register("on_text_select", "pdf-reader");

    assert_eq!(dispatcher.get_listeners("on_file_open").len(), 2);
    assert_eq!(dispatcher.get_listeners("on_text_select").len(), 1);

    dispatcher.unregister("on_file_open", "image-viewer");
    assert_eq!(dispatcher.get_listeners("on_file_open").len(), 1);

    dispatcher.unregister_all("pdf-reader");
    assert!(dispatcher.get_listeners("on_file_open").is_empty());
    assert!(dispatcher.get_listeners("on_text_select").is_empty());
}

#[test]
fn register_is_idempotent() {
    let mut d = HookDispatcher::new();
    d.register("on_app_start", "a");
    d.register("on_app_start", "a");
    assert_eq!(d.get_listeners("on_app_start").len(), 1);
}

#[test]
fn register_many_subscribes_each_hook() {
    let mut d = HookDispatcher::new();
    let hooks = vec!["on_app_start".to_string(), "on_app_close".to_string()];
    d.register_many(&hooks, "a");
    assert_eq!(d.get_listeners("on_app_start"), vec!["a".to_string()]);
    assert_eq!(d.get_listeners("on_app_close"), vec!["a".to_string()]);
    let mut ph = d.get_plugin_hooks("a");
    ph.sort();
    assert_eq!(ph, vec!["on_app_close".to_string(), "on_app_start".to_string()]);
}

#[test]
fn has_listeners_follows_registration() {
    let mut d = HookDispatcher::new();
    assert!(!d.has_listeners("on_file_open"));
    d.register("on_file_open", "a");
    assert!(d.has_listeners("on_file_open"));
    d.unregister("on_file_open", "a");
    assert!(!d.has_listeners("on_file_open"));
}

#[test]
fn list_hooks_names_every_subscribed_hook() {
    let mut d = HookDispatcher::new();
    d.register("on_file_open", "a");
    d.register("on_text_select", "b");
    let mut hooks = d.list_hooks();
    hooks.sort();
    assert_eq!(hooks, vec!["on_file_open".to_string(), "on_text_select".to_string()]);
}

#[test]
fn clear_forgets_everything() {
    let mut d = HookDispatcher::new();
    d.register("on_file_open", "a");
    d.register("on_app_start", "b");
    d.clear();
    assert!(d.list_hooks().is_empty());
    assert!(d.get_plugin_hooks("a").is_empty());
    assert!(d.get_plugin_hooks("b").is_empty());
}

#[test]
fn unregister_all_leaves_other_plugins_alone() {
    let mut d = HookDispatcher::new();
    d.register("on_file_open", "a");
    d.register("on_file_open", "b");
    d.register("on_app_start", "a");
    d.unregister_all("a");
    assert_eq!(d.get_listeners("on_file_open"), vec!["b".to_string()]);
    assert!(d.get_listeners("on_app_start").is_empty());
    assert!(d.get_plugin_hooks("a").is_empty());
}

#[test]
fn collector_keeps_only_answered_subscribers_in_order() {
    let v1 = serde_json::Value::String("first".to_string());
    let v2 = serde_json::Value::Bool(true);
    let responses = vec![
        ("a".to_string(), Some(v1.clone())),
        ("b".to_string(), None),
        ("c".to_string(), Some(v2.clone())),
    ];
    let results = collect_hook_results(responses);
    assert_eq!(results.len(), 2);
    assert_eq!(results[0].plugin_id, "a");
    assert_eq!(results[0].data, v1);
    assert_eq!(results[1].plugin_id, "c");
    assert_eq!(results[1].data, v2);
}
