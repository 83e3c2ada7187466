//! The data shapes that cross the host/plugin boundary. They travel as
//! serialized JSON text; inside the host they are plain values, with JSON
//! payloads carried as `serde_json::Value` behind the wrappers in `jsonio`.

use vstd::prelude::*;

use crate::jsonio::{json_is_null, null_value};

verus! {

/// Handed to a plugin's initialize entry point: its id, its private data
/// directory, and its current configuration.
pub struct PluginContext {
    pub plugin_id: String,
    pub data_dir: String,
    pub config: serde_json::Value,
}

/// A tool invocation: the tool's name and its JSON arguments.
pub struct ToolCall {
    pub name: String,
    pub arguments: serde_json::Value,
}

/// What a tool invocation returned. `success` and `error` are mutually
/// exclusive in well-formed results, but the boundary cannot enforce that, so
/// readers must treat an inconsistent pair as the error case.
pub struct ToolResult {
    pub success: bool,
    pub data: serde_json::Value,
    pub error: Option<String>,
}

impl ToolResult {
    /// A successful result carrying `data`.
    pub fn success(data: serde_json::Value) -> (r: ToolResult)
        ensures
            r.success,
            r.data == data,
            r.error is None,
    {
        ToolResult { success: true, data, error: None }
    }

    /// A failed result carrying `message` and a null payload.
    pub fn error(message: &str) -> (r: ToolResult)
        ensures
            !r.success,
            json_is_null(r.data),
            r.error matches Some(m) && m@ == message@,
    {
        ToolResult { success: false, data: null_value(), error: Some(message.to_owned()) }
    }
}

/// A tool a live plugin offers: owner plugin, name, description, and a
/// JSON-Schema-shaped parameter descriptor.
pub struct ToolDefinition {
    pub plugin_id: String,
    pub name: String,
    pub description: String,
    pub parameters: serde_json::Value,
}

/// Where a plugin's panel is shown.
#[derive(PartialEq, Eq, Structural, Clone, Copy, Debug)]
pub enum UIPosition {
    Sidebar,
    Toolbar,
    Floating,
}

/// A plugin's optional UI declaration.
pub struct PluginUI {
    /// Panel path, relative to the plugin directory.
    pub panel: String,
    pub position: UIPosition,
    /// Window descriptors keyed by name, kept as raw JSON.
    pub windows: Option<serde_json::Value>,
}

impl PluginUI {
    /// A value-equal copy.
    pub fn duplicate(&self) -> (r: PluginUI)
        ensures
            r == *self,
    {
        PluginUI {
            panel: self.panel.clone(),
            position: self.position,
            windows: match &self.windows {
                Some(w) => Some(crate::jsonio::value_clone(w)),
                None => None,
            },
        }
    }
}

/// A tool statically declared in a manifest; informational only, live
/// discovery always asks the plugin itself.
pub struct ManifestTool {
    pub name: String,
    pub description: String,
    pub parameters: serde_json::Value,
}

/// The declarative description of a plugin, read once from its manifest file
/// at install time and immutable afterwards.
pub struct PluginManifest {
    pub id: String,
    pub name: String,
    pub version: String,
    pub author: String,
    pub description: String,
    /// File name of the native module to load.
    pub main: String,
    pub ui: Option<PluginUI>,
    pub permissions: Vec<String>,
    pub tools: Vec<ManifestTool>,
    pub hooks: Vec<String>,
}

/// Runtime summary of an installed plugin.
pub struct PluginInfo {
    pub id: String,
    pub name: String,
    pub version: String,
    pub author: String,
    pub description: String,
    pub enabled: bool,
    pub ui: Option<PluginUI>,
    pub dir: String,
}

/// A hook handler's reply: an action tag plus whatever else it sent along.
pub struct HookResponse {
    pub action: String,
    pub data: serde_json::Value,
}

} // verus!
