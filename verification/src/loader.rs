//! The loader's verified half. The host opens native modules and resolves
//! their entry points; this module owns the table of loaded plugin ids, turns
//! entry-point status codes into errors, and parses every string a plugin
//! returns. A plugin id is recorded here exactly while the host holds an
//! initialized module for it.

use vstd::prelude::*;

use crate::api::{PluginContext, ToolCall, ToolDefinition, ToolResult};
use crate::jsonio::{
    json_get, json_is_null, json_of, json_quoted, json_text_of, null_value, parse_json,
    value_as_array, value_as_bool, value_as_str, value_get, value_is_null, value_to_text,
    json_quote,
};
use crate::numfmt::{i32_to_dec, int_dec_str_of};
use crate::strutil::{clone_strs, contains_str, distinct_strs, push_unique, remove_str, seq_has_str};

verus! {

/// What can go wrong between the host and a native module.
pub enum LoaderError {
    /// The dynamic library could not be opened.
    LibraryLoad(String),
    /// A required entry point was missing: its name and the resolver's text.
    SymbolNotFound(String, String),
    /// The plugin id is not currently loaded.
    PluginNotLoaded(String),
    /// `initialize` returned a non-zero status; the plugin's own message when
    /// it gave one.
    InitializeFailed(String),
    /// `shutdown` returned a non-zero status.
    ShutdownFailed(String),
    /// A string crossing the boundary was not the JSON it had to be.
    JsonError(String),
}

impl LoaderError {
    /// A plain rendering for the consuming application.
    pub fn message(&self) -> (r: String)
        ensures
            r@ == match *self {
                LoaderError::LibraryLoad(ref s) => "failed to load dynamic library: "@ + s@,
                LoaderError::SymbolNotFound(ref n, ref d) => "missing exported function '"@ + n@
                    + "': "@ + d@,
                LoaderError::PluginNotLoaded(ref id) => "plugin '"@ + id@ + "' is not loaded"@,
                LoaderError::InitializeFailed(ref m) => "plugin initialization failed: "@ + m@,
                LoaderError::ShutdownFailed(ref m) => "plugin shutdown failed: "@ + m@,
                LoaderError::JsonError(ref m) => "JSON serialization failed: "@ + m@,
            },
    {
        match self {
            LoaderError::LibraryLoad(s) => {
                let mut r = String::from_str("failed to load dynamic library: ");
                r.append(s.as_str());
                r
            },
            LoaderError::SymbolNotFound(n, d) => {
                let mut r = String::from_str("missing exported function '");
                r.append(n.as_str());
                r.append("': ");
                r.append(d.as_str());
                r
            },
            LoaderError::PluginNotLoaded(id) => {
                let mut r = String::from_str("plugin '");
                r.append(id.as_str());
                r.append("' is not loaded");
                r
            },
            LoaderError::InitializeFailed(m) => {
                let mut r = String::from_str("plugin initialization failed: ");
                r.append(m.as_str());
                r
            },
            LoaderError::ShutdownFailed(m) => {
                let mut r = String::from_str("plugin shutdown failed: ");
                r.append(m.as_str());
                r
            },
            LoaderError::JsonError(m) => {
                let mut r = String::from_str("JSON serialization failed: ");
                r.append(m.as_str());
                r
            },
        }
    }
}

/// The table of plugin ids whose native module the host currently holds.
pub struct PluginLoader {
    loaded: Vec<String>,
}

impl PluginLoader {
    /// No id is recorded twice.
    pub closed spec fn wf(self) -> bool {
        distinct_strs(self.loaded@)
    }

    /// True when a module for `id` is currently held.
    pub closed spec fn loaded_spec(self, id: Seq<char>) -> bool {
        seq_has_str(self.loaded@, id)
    }

    /// An empty table.
    pub fn new() -> (r: PluginLoader)
        ensures
            r.wf(),
            forall|id: Seq<char>| !r.loaded_spec(id),
    {
        PluginLoader { loaded: Vec::new() }
    }

    /// Whether `plugin_id` is currently loaded.
    pub fn is_loaded(&self, plugin_id: &str) -> (r: bool)
        ensures
            r == self.loaded_spec(plugin_id@),
    {
        contains_str(&self.loaded, plugin_id)
    }

    /// Records that the host now holds an initialized module for `plugin_id`.
    pub fn record_load(&mut self, plugin_id: &str)
        requires
            old(self).wf(),
        ensures
            final(self).wf(),
            forall|id: Seq<char>|
                final(self).loaded_spec(id) <==> (old(self).loaded_spec(id) || id == plugin_id@),
    {
        push_unique(&mut self.loaded, plugin_id);
    }

    /// Drops the record for `plugin_id`; an error when it was not loaded.
    pub fn unload(&mut self, plugin_id: &str) -> (r: Result<(), LoaderError>)
        requires
            old(self).wf(),
        ensures
            final(self).wf(),
            forall|id: Seq<char>|
                final(self).loaded_spec(id) <==> (old(self).loaded_spec(id) && id != plugin_id@),
            match r {
                Ok(()) => old(self).loaded_spec(plugin_id@),
                Err(e) => !old(self).loaded_spec(plugin_id@) && (e matches
                    LoaderError::PluginNotLoaded(p) && p@ == plugin_id@),
            },
    {
        if contains_str(&self.loaded, plugin_id) {
            remove_str(&mut self.loaded, plugin_id);
            Ok(())
        } else {
            proof {
                assert forall|id: Seq<char>|
                    seq_has_str(self.loaded@, id) <==> (seq_has_str(self.loaded@, id) && id
                        != plugin_id@) by {}
            }
            Err(LoaderError::PluginNotLoaded(plugin_id.to_owned()))
        }
    }

    /// The ids currently loaded, without duplicates.
    pub fn loaded_plugins(&self) -> (r: Vec<String>)
        requires
            self.wf(),
        ensures
            distinct_strs(r@),
            forall|id: Seq<char>| seq_has_str(r@, id) <==> self.loaded_spec(id),
    {
        clone_strs(&self.loaded)
    }
}

/// The message reported for a non-zero entry-point status: the plugin's own
/// last-error text when it offered one, else a generic line naming the code.
pub open spec fn status_message(status: int, last_error: Option<String>) -> Seq<char> {
    match last_error {
        Some(m) => m@,
        None => "Unknown error (code: "@ + int_dec_str_of(status) + ")"@,
    }
}

/// Interprets an entry-point status code: zero is success, anything else is
/// failure with `status_message`.
pub fn status_outcome(status: i32, last_error: Option<String>) -> (r: Result<(), String>)
    ensures
        match r {
            Ok(()) => status == 0,
            Err(m) => status != 0 && m@ == status_message(status as int, last_error),
        },
{
    if status == 0 {
        Ok(())
    } else {
        match last_error {
            Some(m) => Err(m),
            None => {
                let mut s = String::from_str("Unknown error (code: ");
                let d = i32_to_dec(status);
                s.append(d.as_str());
                s.append(")");
                proof {
                    assert(s@ =~= "Unknown error (code: "@ + int_dec_str_of(status as int)
                        + ")"@);
                }
                Err(s)
            },
        }
    }
}

/// The outcome of a plugin's `initialize` call.
pub fn initialize_outcome(status: i32, last_error: Option<String>) -> (r: Result<
    (),
    LoaderError,
>)
    ensures
        match r {
            Ok(()) => status == 0,
            Err(e) => status != 0 && (e matches LoaderError::InitializeFailed(m) && m@
                == status_message(status as int, last_error)),
        },
{
    match status_outcome(status, last_error) {
        Ok(()) => Ok(()),
        Err(m) => Err(LoaderError::InitializeFailed(m)),
    }
}

/// The outcome of a plugin's `shutdown` call.
pub fn shutdown_outcome(status: i32, last_error: Option<String>) -> (r: Result<(), LoaderError>)
    ensures
        match r {
            Ok(()) => status == 0,
            Err(e) => status != 0 && (e matches LoaderError::ShutdownFailed(m) && m@
                == status_message(status as int, last_error)),
        },
{
    match status_outcome(status, last_error) {
        Ok(()) => Ok(()),
        Err(m) => Err(LoaderError::ShutdownFailed(m)),
    }
}

/// The exact text marshalled to a plugin's `initialize` entry point.
pub open spec fn context_json_spec(ctx: PluginContext) -> Seq<char> {
    "{\"plugin_id\":"@ + json_quoted(ctx.plugin_id@) + ",\"data_dir\":"@ + json_quoted(
        ctx.data_dir@,
    ) + ",\"config\":"@ + json_text_of(ctx.config) + "}"@
}

/// Serializes a `PluginContext` for the boundary.
pub fn context_json(ctx: &PluginContext) -> (r: String)
    ensures
        r@ == context_json_spec(*ctx),
{
    let cfg = value_to_text(&ctx.config);
    let mut s = String::from_str("{\"plugin_id\":");
    let qid = json_quote(ctx.plugin_id.as_str());
    s.append(qid.as_str());
    s.append(",\"data_dir\":");
    let qdir = json_quote(ctx.data_dir.as_str());
    s.append(qdir.as_str());
    s.append(",\"config\":");
    s.append(cfg.as_str());
    s.append("}");
    proof {
        assert(s@ =~= context_json_spec(*ctx));
    }
    s
}

/// The exact text marshalled to a plugin's `execute_tool` entry point.
pub open spec fn tool_call_json_spec(call: ToolCall) -> Seq<char> {
    "{\"name\":"@ + json_quoted(call.name@) + ",\"arguments\":"@ + json_text_of(call.arguments)
        + "}"@
}

/// Serializes a `ToolCall` for the boundary.
pub fn tool_call_json(call: &ToolCall) -> (r: String)
    ensures
        r@ == tool_call_json_spec(*call),
{
    let args = value_to_text(&call.arguments);
    let mut s = String::from_str("{\"name\":");
    let qname = json_quote(call.name.as_str());
    s.append(qname.as_str());
    s.append(",\"arguments\":");
    s.append(args.as_str());
    s.append("}");
    proof {
        assert(s@ =~= tool_call_json_spec(*call));
    }
    s
}

/// The string member of `v` under `k`, when `v` holds one there.
pub open spec fn json_str_field(v: serde_json::Value, k: Seq<char>) -> Option<Seq<char>> {
    match json_get(v, k) {
        Some(f) => crate::jsonio::json_as_str(f),
        None => None,
    }
}

/// The boolean member of `v` under `k`, when `v` holds one there.
pub open spec fn json_bool_field(v: serde_json::Value, k: Seq<char>) -> Option<bool> {
    match json_get(v, k) {
        Some(f) => crate::jsonio::json_as_bool(f),
        None => None,
    }
}

/// Whether `v` has the shape of a serialized `ToolResult`: a boolean
/// `success`, a `data` member, and an `error` that is absent, null, or a
/// string.
pub open spec fn tool_result_shape(v: serde_json::Value) -> bool {
    &&& json_bool_field(v, "success"@) is Some
    &&& json_get(v, "data"@) is Some
    &&& match json_get(v, "error"@) {
        None => true,
        Some(e) => json_is_null(e) || crate::jsonio::json_as_str(e) is Some,
    }
}

/// The error text of a serialized `ToolResult`: absent or null mean none.
pub open spec fn tool_result_error_of(v: serde_json::Value) -> Option<Seq<char>> {
    match json_get(v, "error"@) {
        None => None,
        Some(e) => crate::jsonio::json_as_str(e),
    }
}

/// Turns what `execute_tool` returned into a `ToolResult`. A null return is a
/// synthetic failure, never success; a non-JSON or ill-shaped return is an
/// error.
pub fn tool_result_from_raw(raw: Option<String>) -> (r: Result<ToolResult, LoaderError>)
    ensures
        match raw {
            None => r matches Ok(t) && !t.success && json_is_null(t.data) && (t.error matches Some(
                m,
            ) && m@ == "Plugin returned null"@),
            Some(s) => match json_of(s@) {
                None => r matches Err(e) && e matches LoaderError::JsonError(_),
                Some(v) => if tool_result_shape(v) {
                    r matches Ok(t) && Some(t.success) == json_bool_field(v, "success"@) && Some(
                        t.data,
                    ) == json_get(v, "data"@) && match tool_result_error_of(v) {
                        Some(m) => t.error matches Some(em) && em@ == m,
                        None => t.error is None,
                    }
                } else {
                    r matches Err(e) && e matches LoaderError::JsonError(_)
                },
            },
        },
{
    let s = match raw {
        None => {
            return Ok(
                ToolResult {
                    success: false,
                    data: null_value(),
                    error: Some(String::from_str("Plugin returned null")),
                },
            );
        },
        Some(s) => s,
    };
    let v = match parse_json(s.as_str()) {
        Ok(v) => v,
        Err(m) => {
            return Err(LoaderError::JsonError(m));
        },
    };
    let success = match value_get(&v, "success") {
        Some(f) => match value_as_bool(f) {
            Some(b) => b,
            None => {
                return Err(LoaderError::JsonError(String::from_str("invalid tool result")));
            },
        },
        None => {
            return Err(LoaderError::JsonError(String::from_str("invalid tool result")));
        },
    };
    let data = match value_get(&v, "data") {
        Some(d) => crate::jsonio::value_clone(d),
        None => {
            return Err(LoaderError::JsonError(String::from_str("invalid tool result")));
        },
    };
    let error = match value_get(&v, "error") {
        None => None,
        Some(e) => {
            if value_is_null(e) {
                match value_as_str(e) {
                    Some(m) => Some(m),
                    None => None,
                }
            } else {
                match value_as_str(e) {
                    Some(m) => Some(m),
                    None => {
                        return Err(
                            LoaderError::JsonError(String::from_str("invalid tool result")),
                        );
                    },
                }
            }
        },
    };
    Ok(ToolResult { success, data, error })
}

/// Whether `v` has the shape of one serialized `ToolDefinition`.
pub open spec fn tool_def_shape(v: serde_json::Value) -> bool {
    &&& json_str_field(v, "pluginId"@) is Some
    &&& json_str_field(v, "name"@) is Some
    &&& json_str_field(v, "description"@) is Some
    &&& json_get(v, "parameters"@) is Some
}

/// True when `t` is the `ToolDefinition` that `v` serializes.
pub open spec fn tool_def_matches(v: serde_json::Value, t: ToolDefinition) -> bool {
    &&& json_str_field(v, "pluginId"@) == Some(t.plugin_id@)
    &&& json_str_field(v, "name"@) == Some(t.name@)
    &&& json_str_field(v, "description"@) == Some(t.description@)
    &&& json_get(v, "parameters"@) == Some(t.parameters)
}

/// Parses one serialized tool definition.
fn tool_def_from_value(v: &serde_json::Value) -> (r: Result<ToolDefinition, LoaderError>)
    ensures
        match r {
            Ok(t) => tool_def_shape(*v) && tool_def_matches(*v, t),
            Err(e) => !tool_def_shape(*v) && e matches LoaderError::JsonError(_),
        },
{
    let plugin_id = match value_get(v, "pluginId") {
        Some(f) => match value_as_str(f) {
            Some(s) => s,
            None => {
                return Err(LoaderError::JsonError(String::from_str("invalid tool definition")));
            },
        },
        None => {
            return Err(LoaderError::JsonError(String::from_str("invalid tool definition")));
        },
    };
    let name = match value_get(v, "name") {
        Some(f) => match value_as_str(f) {
            Some(s) => s,
            None => {
                return Err(LoaderError::JsonError(String::from_str("invalid tool definition")));
            },
        },
        None => {
            return Err(LoaderError::JsonError(String::from_str("invalid tool definition")));
        },
    };
    let description = match value_get(v, "description") {
        Some(f) => match value_as_str(f) {
            Some(s) => s,
            None => {
                return Err(LoaderError::JsonError(String::from_str("invalid tool definition")));
            },
        },
        None => {
            return Err(LoaderError::JsonError(String::from_str("invalid tool definition")));
        },
    };
    let parameters = match value_get(v, "parameters") {
        Some(p) => crate::jsonio::value_clone(p),
        None => {
            return Err(LoaderError::JsonError(String::from_str("invalid tool definition")));
        },
    };
    Ok(ToolDefinition { plugin_id, name, description, parameters })
}

/// Turns what `get_tools` returned into tool definitions. A null return means
/// the plugin offers no tools; anything else must be a JSON array of
/// well-shaped definitions.
#[verifier::loop_isolation(false)]
pub fn tool_definitions_from_raw(raw: Option<String>) -> (r: Result<
    Vec<ToolDefinition>,
    LoaderError,
>)
    ensures
        match raw {
            None => r matches Ok(ts) && ts@.len() == 0,
            Some(s) => match json_of(s@) {
                None => r matches Err(e) && e matches LoaderError::JsonError(_),
                Some(v) => match crate::jsonio::json_as_array(v) {
                    None => r matches Err(e) && e matches LoaderError::JsonError(_),
                    Some(elems) => if forall|i: int|
                        0 <= i < elems.len() ==> tool_def_shape(#[trigger] elems[i]) {
                        r matches Ok(ts) && ts@.len() == elems.len() && (forall|i: int|
                            0 <= i < elems.len() ==> tool_def_matches(elems[i], #[trigger] ts@[i]))
                    } else {
                        r matches Err(e) && e matches LoaderError::JsonError(_)
                    },
                },
            },
        },
{
    let s = match raw {
        None => {
            return Ok(Vec::new());
        },
        Some(s) => s,
    };
    let v = match parse_json(s.as_str()) {
        Ok(v) => v,
        Err(m) => {
            return Err(LoaderError::JsonError(m));
        },
    };
    let elems = match value_as_array(&v) {
        Some(a) => a,
        None => {
            return Err(LoaderError::JsonError(String::from_str("invalid tool list")));
        },
    };
    let ghost evs = crate::jsonio::json_as_array(v).unwrap();
    let mut out: Vec<ToolDefinition> = Vec::new();
    let mut i: usize = 0;
    while i < elems.len()
        invariant
            i <= elems@.len(),
            elems@ == evs,
            out@.len() == i,
            forall|j: int| 0 <= j < i ==> tool_def_shape(#[trigger] evs[j]),
            forall|j: int| 0 <= j < i ==> tool_def_matches(evs[j], #[trigger] out@[j]),
        decreases elems@.len() - i,
    {
        match tool_def_from_value(&elems[i]) {
            Ok(t) => {
                out.push(t);
            },
            Err(e) => {
                return Err(e);
            },
        }
        i += 1;
    }
    Ok(out)
}

/// Turns what `on_hook` returned into an optional response. A null return
/// means "no response", not an error; a non-JSON return is an error.
pub fn hook_response_from_raw(raw: Option<String>) -> (r: Result<
    Option<serde_json::Value>,
    LoaderError,
>)
    ensures
        match raw {
            None => r matches Ok(o) && o is None,
            Some(s) => match json_of(s@) {
                None => r matches Err(e) && e matches LoaderError::JsonError(_),
                Some(v) => r matches Ok(o) && o == Some(v),
            },
        },
{
    match raw {
        None => Ok(None),
        Some(s) => match parse_json(s.as_str()) {
            Ok(v) => Ok(Some(v)),
            Err(m) => Err(LoaderError::JsonError(m)),
        },
    }
}

} // verus!
