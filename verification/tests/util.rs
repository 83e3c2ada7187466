use base64::Engine;
use plugin_host::agent_config::{ConfigManager, NotesPermissions, Permissions};
use plugin_host::bridge::{format_command_result, roots_from_value, truncate, BridgeConfig};
use plugin_host::command::{
    CommandError, CommandExecutor, CommandPlan, CommandSpec, LsCommand, NativeCommand,
};
use plugin_host::path_utils::PathUtils;
use plugin_host::history::{CommandRecord, HistoryStore};
use plugin_host::jsonio::json_quote;
use plugin_host::numfmt::{i32_to_dec, u64_to_dec};
use plugin_host::requests::{RequestState, RequestStore};
use plugin_host::urlbuild::{plugin_window_url, window_label};

fn ok<T, E>(r: Result<T, E>) -> T {
    match r {
        Ok(t) => t,
        Err(_) => panic!("unexpected error"),
    }
}

#[test]
fn decimal_rendering_matches_std() {
    assert_eq!(u64_to_dec(0), "0");
    assert_eq!(u64_to_dec(7), "7");
    assert_eq!(u64_to_dec(12345), "12345");
    assert_eq!(u64_to_dec(u64::MAX), u64::MAX.to_string());
    assert_eq!(i32_to_dec(-7), "-7");
    assert_eq!(i32_to_dec(i32::MIN), i32::MIN.to_string());
    assert_eq!(i32_to_dec(42), "42");
}

#[test]
fn truncate_keeps_short_texts_and_marks_cut_ones() {
    assert_eq!(truncate("hello", 10), "hello");
    assert_eq!(truncate("hello", 5), "hello");
    assert_eq!(truncate("hello there", 5), "hell…");
    assert_eq!(truncate("hello", 1), "…");
    assert_eq!(truncate("hello", 0), "");
    // character-based, so multi-byte text is cut between characters
    assert_eq!(truncate("日本語テキスト", 4), "日本語…");
}

#[test]
fn command_result_text_carries_both_streams() {
    let r = format_command_result("completed", "ls: List directory /tmp", "a.txt\nb.txt", "");
    assert_eq!(
        r,
        "status: completed\n\ncommand: ls: List directory /tmp\n\nstdout (truncated):\na.txt\nb.txt"
    );
    let r2 = format_command_result("failed", "ls", "", "no such dir");
    assert_eq!(r2, "status: failed\n\ncommand: ls\n\nstderr (truncated):\nno such dir");
}

#[test]
fn native_command_builder_accumulates() {
    let c = NativeCommand::new("ls")
        .with_args(vec!["-a".to_string(), "-1".to_string()])
        .working_dir("/tmp");
    assert_eq!(c.program, "ls");
    assert_eq!(c.args, vec!["-a".to_string(), "-1".to_string()]);
    assert_eq!(c.working_dir.as_deref(), Some("/tmp"));
}

#[test]
fn plan_resolution_prefers_the_platform_variant() {
    let unix = NativeCommand::new("ls");
    let windows = NativeCommand::new("cmd");
    let plan = CommandPlan::new("ls", "List directory", "lists", unix).with_windows(windows);
    assert_eq!(ok(plan.resolve(true)).program, "cmd");
    assert_eq!(ok(plan.resolve(false)).program, "ls");

    let unix_only = CommandPlan::new("ls", "List directory", "lists", NativeCommand::new("ls"));
    // without a Windows variant the Unix command is the fallback
    assert_eq!(ok(unix_only.resolve(true)).program, "ls");
}

#[test]
fn ls_command_plans_both_platforms() {
    let cmd = LsCommand::new("/tmp".to_string(), true, true);
    assert_eq!(cmd.name(), "ls");
    assert!(cmd.requires_approval());
    assert_eq!(cmd.description(), "List directory /tmp (include hidden)");
    let plan = cmd.build_plan();
    assert_eq!(plan.unix.program, "ls");
    assert_eq!(plan.unix.args, vec!["-a".to_string(), "-1".to_string()]);
    assert_eq!(plan.unix.working_dir.as_deref(), Some("/tmp"));
    let w = plan.windows.expect("a windows variant");
    assert_eq!(w.program, "cmd");
    assert_eq!(
        w.args,
        vec!["/C".to_string(), "dir".to_string(), "/b".to_string(), "/a".to_string()]
    );

    let plain = LsCommand::new("/tmp".to_string(), false, false);
    assert!(!plain.requires_approval());
    assert_eq!(plain.build_plan().unix.args, vec!["-1".to_string()]);
}

#[test]
fn command_error_messages_name_the_command() {
    let e = CommandError::Unauthorized {
        command_id: "ls".to_string(),
        reason: "outside the roots".to_string(),
    };
    assert_eq!(e.message(), "command 'ls' is not authorized: outside the roots");
    let u = CommandError::UnsupportedPlatform { command_id: "ls".to_string() };
    assert_eq!(u.message(), "command 'ls' is not supported on this platform");
    let l = CommandError::LaunchFailure {
        command_id: "ls".to_string(),
        source: "no binary".to_string(),
    };
    assert_eq!(l.message(), "failed to spawn command 'ls': no binary");
}

#[test]
fn bridge_roots_gate_paths_component_wise() {
    let mut cfg = BridgeConfig::from_roots(vec!["/home/me".to_string()]);
    assert!(cfg.is_allowed("/home/me"));
    assert!(cfg.is_allowed("/home/me/docs/x.txt"));
    // a string prefix that is not a path prefix stays outside
    assert!(!cfg.is_allowed("/home/meow"));
    assert!(!cfg.is_allowed("/etc"));

    cfg.ensure_root("/tmp/work");
    assert!(cfg.is_allowed("/tmp/work/sub"));
    // already covered: nothing is added
    cfg.ensure_root("/home/me/docs");
    assert_eq!(cfg.allowed_roots(), vec!["/home/me".to_string(), "/tmp/work".to_string()]);
    assert_eq!(cfg.allowed_root_paths(), cfg.allowed_roots());

    let root = BridgeConfig::from_roots(vec!["/".to_string()]);
    assert!(root.is_allowed("/anything"));
}

#[test]
fn configured_roots_are_trimmed_and_filtered() {
    let v: serde_json::Value =
        serde_json::from_str("{\"allowed_roots\":[\"  /a \",\"\",\"   \",\"/b\"]}").unwrap();
    let roots = roots_from_value(&v).expect("roots");
    assert_eq!(roots, vec!["/a".to_string(), "/b".to_string()]);

    let empty: serde_json::Value = serde_json::from_str("{\"allowed_roots\":[\" \"]}").unwrap();
    assert!(roots_from_value(&empty).is_none());
    let missing: serde_json::Value = serde_json::from_str("{}").unwrap();
    assert!(roots_from_value(&missing).is_none());
    let ill: serde_json::Value = serde_json::from_str("{\"allowed_roots\":[1]}").unwrap();
    assert!(roots_from_value(&ill).is_none());
}

#[test]
fn history_names_its_file_and_bounds_its_records() {
    let store = HistoryStore::new("/data/command-log.json".to_string(), 2);
    assert_eq!(store.file_name(), "command-log.json");
    assert_eq!(
        store.public_path("bridge"),
        "plugin://localhost/bridge/data/command-log.json"
    );
    let rootish = HistoryStore::new("/data/".to_string(), 2);
    assert_eq!(rootish.file_name(), "command-history.json");

    let plan = CommandPlan::new("ls", "List directory", "lists", NativeCommand::new("ls"));
    let native = NativeCommand::new("ls");
    let output = plugin_host::command::CommandOutput {
        success: true,
        status_code: 0,
        stdout: "x".to_string(),
        stderr: String::new(),
    };
    let mut history = Vec::new();
    for stamp in ["t1", "t2", "t3"] {
        let rec = CommandRecord::from_execution(&plan, &native, &output, stamp.to_string());
        history = store.appended(history, rec);
    }
    assert_eq!(history.len(), 2);
    assert_eq!(history[0].timestamp, "t2");
    assert_eq!(history[1].timestamp, "t3");
    assert_eq!(history[0].id, "ls");
    assert!(history[0].success);
}

#[test]
fn permissions_default_to_denied_and_follow_the_config() {
    let cfg: serde_json::Value = serde_json::from_str(
        "{\"permissions\":{\"notes\":{\"read\":true,\"create\":false,\"edit\":true,\
         \"delete\":false}}}",
    )
    .unwrap();
    let mgr = ConfigManager::new(&cfg);
    assert!(mgr.can_read_notes());
    assert!(!mgr.can_create_notes());
    assert!(mgr.can_edit_notes());
    assert!(!mgr.can_delete_notes());

    let incomplete: serde_json::Value =
        serde_json::from_str("{\"permissions\":{\"notes\":{\"read\":true}}}").unwrap();
    let denied = ConfigManager::new(&incomplete);
    assert!(!denied.can_read_notes());

    let mut mgr2 = ConfigManager::new(&serde_json::Value::Null);
    assert!(!mgr2.can_read_notes());
    let granted = Permissions {
        notes: NotesPermissions { read: true, create: true, edit: false, delete: false },
    };
    ok(mgr2.update_permissions(granted));
    assert!(mgr2.can_create_notes());
    assert_eq!(mgr2.get_permissions().notes.read, true);
}

#[test]
fn request_store_walks_the_request_lifecycle() {
    let mut store = RequestStore::new();
    let req = store.create_request("list_directory", "/tmp", true, "2024-01-01T00:00:00Z");
    assert_eq!(req.id.len(), 36);
    assert_eq!(req.state, RequestState::Pending);
    assert_eq!(req.state.state_name(), "pending");
    assert_eq!(req.message.as_deref(), Some("waiting for user approval"));

    let other = store.create_request("list_directory", "/etc", false, "2024-01-01T00:00:01Z");
    assert_ne!(req.id, other.id);
    assert_eq!(store.list().len(), 2);

    let updated = ok(store.update(
        &req.id,
        RequestState::Completed,
        Some("done".to_string()),
        Some("a.txt".to_string()),
        None,
        "2024-01-01T00:00:02Z",
    ));
    assert_eq!(updated.state, RequestState::Completed);
    assert_eq!(updated.stdout.as_deref(), Some("a.txt"));
    assert_eq!(updated.updated_at, "2024-01-01T00:00:02Z");
    assert_eq!(updated.created_at, "2024-01-01T00:00:00Z");

    let got = store.get(&req.id).expect("the request");
    assert_eq!(got.state, RequestState::Completed);
    assert!(store.get("no-such-id").is_none());
    assert!(store
        .update("no-such-id", RequestState::Failed, None, None, None, "t")
        .is_err());
}

#[test]
fn window_urls_encode_the_initial_data() {
    assert_eq!(
        window_label("echo", "console", 1700000000123),
        "plugin-echo-console-1700000000123"
    );

    assert_eq!(
        plugin_window_url("echo", "ui/console.html", None),
        "plugin://localhost/echo/ui/console.html"
    );

    let data: serde_json::Value =
        serde_json::from_str("{\"path\":\"/tmp/a b\",\"n\":1}").unwrap();
    let url = plugin_window_url("echo", "ui/console.html", Some(&data));
    let expected_state = base64::engine::general_purpose::URL_SAFE_NO_PAD
        .encode(serde_json::to_string(&data).unwrap().as_bytes());
    assert_eq!(
        url,
        format!(
            "plugin://localhost/echo/ui/console.html?path=%2Ftmp%2Fa%20b&state={}",
            expected_state
        )
    );

    let no_path: serde_json::Value = serde_json::from_str("{\"n\":1}").unwrap();
    let url2 = plugin_window_url("echo", "p.html", Some(&no_path));
    let expected_state2 = base64::engine::general_purpose::URL_SAFE_NO_PAD
        .encode(serde_json::to_string(&no_path).unwrap().as_bytes());
    assert_eq!(
        url2,
        format!("plugin://localhost/echo/p.html?state={}", expected_state2)
    );
}

#[test]
fn json_quoting_escapes_like_the_serializer() {
    assert_eq!(json_quote("plain"), "\"plain\"");
    assert_eq!(json_quote("with \"quotes\""), "\"with \\\"quotes\\\"\"");
    assert_eq!(
        json_quote("line\nbreak"),
        serde_json::to_string(&serde_json::Value::String("line\nbreak".to_string())).unwrap()
    );
}

#[test]
fn path_expansion_handles_the_tilde() {
    assert_eq!(PathUtils::expand_path("~/docs", Some("/home/me")), "/home/me/docs");
    assert_eq!(PathUtils::expand_path("~", Some("/home/me")), "/home/me");
    assert_eq!(PathUtils::expand_path("/abs/path", Some("/home/me")), "/abs/path");
    assert_eq!(PathUtils::expand_path("~/docs", None), "~/docs");

    assert_eq!(
        ok(PathUtils::resolve_directory(Some("  ~/x "), Some("/h"), "/cwd")),
        "/h/x"
    );
    assert!(PathUtils::resolve_directory(Some("   "), Some("/h"), "/cwd").is_err());
    assert_eq!(ok(PathUtils::resolve_directory(None, Some("/h"), "/cwd")), "/cwd");
}

struct DenyAll;

impl plugin_host::command::CommandInterceptor for DenyAll {
    fn before_execute(
        &self,
        plan: &CommandPlan,
        _native: &NativeCommand,
    ) -> Result<(), CommandError> {
        Err(CommandError::Unauthorized {
            command_id: plan.id.clone(),
            reason: "denied by policy".to_string(),
        })
    }

    fn after_execute(
        &self,
        _plan: &CommandPlan,
        _native: &NativeCommand,
        _output: &plugin_host::command::CommandOutput,
    ) {
    }
}

#[test]
fn executor_interceptors_can_veto_a_command() {
    let plan = CommandPlan::new("ls", "List directory", "lists", NativeCommand::new("ls"));
    let native = ok(plan.resolve(false));

    let empty = CommandExecutor::new();
    assert!(empty.authorize(&plan, &native).is_ok());

    let mut guarded = CommandExecutor::new();
    guarded.register(Box::new(DenyAll));
    match guarded.authorize(&plan, &native) {
        Err(CommandError::Unauthorized { command_id, reason }) => {
            assert_eq!(command_id, "ls");
            assert_eq!(reason, "denied by policy");
        },
        _ => panic!("expected the veto"),
    }
}
