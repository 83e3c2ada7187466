//! Parsing a plugin's manifest out of JSON. The host reads the file; this
//! module decides validity: six required string fields, an optional UI
//! declaration, and optional permission, tool and hook lists.

use vstd::prelude::*;

use crate::api::{ManifestTool, PluginManifest, PluginUI, UIPosition};
use crate::jsonio::{
    json_as_array, json_as_bool, json_as_str, json_get, json_is_null, json_of, parse_json,
    value_as_array, value_as_str, value_get, value_is_null,
};
use crate::loader::json_str_field;

verus! {

/// The UI position a position word denotes, if any.
pub open spec fn position_of(s: Seq<char>) -> Option<UIPosition> {
    if s == "sidebar"@ {
        Some(UIPosition::Sidebar)
    } else if s == "toolbar"@ {
        Some(UIPosition::Toolbar)
    } else if s == "floating"@ {
        Some(UIPosition::Floating)
    } else {
        None
    }
}

/// Whether `u` is a well-formed UI declaration: a `panel` string, a known
/// `position` word, and anything (or nothing) under `windows`.
pub open spec fn ui_shape(u: serde_json::Value) -> bool {
    &&& json_str_field(u, "panel"@) is Some
    &&& match json_str_field(u, "position"@) {
        Some(p) => position_of(p) is Some,
        None => false,
    }
}

/// The window descriptors of a UI declaration: absent or null mean none.
pub open spec fn windows_of(u: serde_json::Value) -> Option<serde_json::Value> {
    match json_get(u, "windows"@) {
        None => None,
        Some(w) => if json_is_null(w) {
            None
        } else {
            Some(w)
        },
    }
}

/// True when `p` is the `PluginUI` that `u` declares.
pub open spec fn ui_matches(u: serde_json::Value, p: PluginUI) -> bool {
    &&& json_str_field(u, "panel"@) == Some(p.panel@)
    &&& match json_str_field(u, "position"@) {
        Some(w) => position_of(w) == Some(p.position),
        None => false,
    }
    &&& windows_of(u) == p.windows
}

/// Whether the optional member `k` of `v` is a list of strings; an absent
/// member counts as the empty list.
pub open spec fn str_list_field_ok(v: serde_json::Value, k: Seq<char>) -> bool {
    match json_get(v, k) {
        None => true,
        Some(f) => match json_as_array(f) {
            None => false,
            Some(elems) => forall|i: int|
                0 <= i < elems.len() ==> json_as_str(#[trigger] elems[i]) is Some,
        },
    }
}

/// True when `out` holds exactly the strings of the list member `k` of `v`.
pub open spec fn str_list_field_matches(
    v: serde_json::Value,
    k: Seq<char>,
    out: Seq<String>,
) -> bool {
    match json_get(v, k) {
        None => out.len() == 0,
        Some(f) => match json_as_array(f) {
            None => false,
            Some(elems) => out.len() == elems.len() && forall|i: int|
                0 <= i < elems.len() ==> json_as_str(#[trigger] elems[i]) == Some(out[i]@),
        },
    }
}

/// Whether `t` is a well-formed statically declared tool: `name` and
/// `description` strings; `parameters` free-form and optional.
pub open spec fn mtool_shape(t: serde_json::Value) -> bool {
    json_str_field(t, "name"@) is Some && json_str_field(t, "description"@) is Some
}

/// True when `m` is the `ManifestTool` that `t` declares; a missing
/// `parameters` member becomes the null value.
pub open spec fn mtool_matches(t: serde_json::Value, m: ManifestTool) -> bool {
    &&& json_str_field(t, "name"@) == Some(m.name@)
    &&& json_str_field(t, "description"@) == Some(m.description@)
    &&& match json_get(t, "parameters"@) {
        Some(p) => m.parameters == p,
        None => json_is_null(m.parameters),
    }
}

/// Whether the optional `tools` member is a list of well-formed declarations.
pub open spec fn tools_field_ok(v: serde_json::Value) -> bool {
    match json_get(v, "tools"@) {
        None => true,
        Some(f) => match json_as_array(f) {
            None => false,
            Some(elems) => forall|i: int| 0 <= i < elems.len() ==> mtool_shape(#[trigger] elems[i]),
        },
    }
}

/// True when `out` holds exactly the declared tools of `v`.
pub open spec fn tools_field_matches(v: serde_json::Value, out: Seq<ManifestTool>) -> bool {
    match json_get(v, "tools"@) {
        None => out.len() == 0,
        Some(f) => match json_as_array(f) {
            None => false,
            Some(elems) => out.len() == elems.len() && forall|i: int|
                0 <= i < elems.len() ==> mtool_matches(#[trigger] elems[i], out[i]),
        },
    }
}

/// Whether `v` is a valid manifest.
pub open spec fn manifest_shape(v: serde_json::Value) -> bool {
    &&& json_str_field(v, "id"@) is Some
    &&& json_str_field(v, "name"@) is Some
    &&& json_str_field(v, "version"@) is Some
    &&& json_str_field(v, "author"@) is Some
    &&& json_str_field(v, "description"@) is Some
    &&& json_str_field(v, "main"@) is Some
    &&& match json_get(v, "ui"@) {
        None => true,
        Some(u) => json_is_null(u) || ui_shape(u),
    }
    &&& str_list_field_ok(v, "permissions"@)
    &&& str_list_field_ok(v, "hooks"@)
    &&& tools_field_ok(v)
}

/// True when `m` is the manifest that `v` declares.
pub open spec fn manifest_matches(v: serde_json::Value, m: PluginManifest) -> bool {
    &&& json_str_field(v, "id"@) == Some(m.id@)
    &&& json_str_field(v, "name"@) == Some(m.name@)
    &&& json_str_field(v, "version"@) == Some(m.version@)
    &&& json_str_field(v, "author"@) == Some(m.author@)
    &&& json_str_field(v, "description"@) == Some(m.description@)
    &&& json_str_field(v, "main"@) == Some(m.main@)
    &&& match json_get(v, "ui"@) {
        None => m.ui is None,
        Some(u) => if json_is_null(u) {
            m.ui is None
        } else {
            m.ui matches Some(p) && ui_matches(u, p)
        },
    }
    &&& str_list_field_matches(v, "permissions"@, m.permissions@)
    &&& str_list_field_matches(v, "hooks"@, m.hooks@)
    &&& tools_field_matches(v, m.tools@)
}

/// Reads the required string member `k` of `v`.
fn get_str_field(v: &serde_json::Value, key: &str) -> (r: Option<String>)
    ensures
        match r {
            Some(s) => json_str_field(*v, key@) == Some(s@),
            None => json_str_field(*v, key@) is None,
        },
{
    match value_get(v, key) {
        Some(f) => value_as_str(f),
        None => None,
    }
}

/// Reads an optional string-list member.
#[verifier::loop_isolation(false)]
fn get_str_list(v: &serde_json::Value, key: &str) -> (r: Option<Vec<String>>)
    ensures
        match r {
            Some(out) => str_list_field_ok(*v, key@) && str_list_field_matches(*v, key@, out@),
            None => !str_list_field_ok(*v, key@),
        },
{
    let f = match value_get(v, key) {
        None => {
            return Some(Vec::new());
        },
        Some(f) => f,
    };
    let elems = match value_as_array(f) {
        Some(a) => a,
        None => {
            return None;
        },
    };
    let ghost evs = json_as_array(*f).unwrap();
    let mut out: Vec<String> = Vec::new();
    let mut i: usize = 0;
    while i < elems.len()
        invariant
            i <= elems@.len(),
            elems@ == evs,
            out@.len() == i,
            forall|j: int| 0 <= j < i ==> json_as_str(#[trigger] evs[j]) == Some(out@[j]@),
        decreases elems@.len() - i,
    {
        match value_as_str(&elems[i]) {
            Some(s) => {
                out.push(s);
            },
            None => {
                return None;
            },
        }
        i += 1;
    }
    Some(out)
}

/// Reads the optional `tools` member.
#[verifier::loop_isolation(false)]
fn get_tools(v: &serde_json::Value) -> (r: Option<Vec<ManifestTool>>)
    ensures
        match r {
            Some(out) => tools_field_ok(*v) && tools_field_matches(*v, out@),
            None => !tools_field_ok(*v),
        },
{
    let f = match value_get(v, "tools") {
        None => {
            return Some(Vec::new());
        },
        Some(f) => f,
    };
    let elems = match value_as_array(f) {
        Some(a) => a,
        None => {
            return None;
        },
    };
    let ghost evs = json_as_array(*f).unwrap();
    let mut out: Vec<ManifestTool> = Vec::new();
    let mut i: usize = 0;
    while i < elems.len()
        invariant
            i <= elems@.len(),
            elems@ == evs,
            out@.len() == i,
            forall|j: int| 0 <= j < i ==> mtool_shape(#[trigger] evs[j]),
            forall|j: int| 0 <= j < i ==> mtool_matches(#[trigger] evs[j], out@[j]),
        decreases elems@.len() - i,
    {
        let t = &elems[i];
        let name = match get_str_field(t, "name") {
            Some(s) => s,
            None => {
                return None;
            },
        };
        let description = match get_str_field(t, "description") {
            Some(s) => s,
            None => {
                return None;
            },
        };
        let parameters = match value_get(t, "parameters") {
            Some(p) => crate::jsonio::value_clone(p),
            None => crate::jsonio::null_value(),
        };
        out.push(ManifestTool { name, description, parameters });
        i += 1;
    }
    Some(out)
}

/// Reads the optional `ui` member.
fn get_ui(v: &serde_json::Value) -> (r: Result<Option<PluginUI>, ()>)
    ensures
        match r {
            Ok(opt) => match json_get(*v, "ui"@) {
                None => opt is None,
                Some(u) => if json_is_null(u) {
                    opt is None
                } else {
                    ui_shape(u) && (opt matches Some(p) && ui_matches(u, p))
                },
            },
            Err(()) => match json_get(*v, "ui"@) {
                None => false,
                Some(u) => !json_is_null(u) && !ui_shape(u),
            },
        },
{
    let u = match value_get(v, "ui") {
        None => {
            return Ok(None);
        },
        Some(u) => u,
    };
    if value_is_null(u) {
        return Ok(None);
    }
    let panel = match get_str_field(u, "panel") {
        Some(s) => s,
        None => {
            return Err(());
        },
    };
    let pos_word = match get_str_field(u, "position") {
        Some(s) => s,
        None => {
            return Err(());
        },
    };
    let position = if crate::strutil::str_eq(pos_word.as_str(), "sidebar") {
        UIPosition::Sidebar
    } else if crate::strutil::str_eq(pos_word.as_str(), "toolbar") {
        UIPosition::Toolbar
    } else if crate::strutil::str_eq(pos_word.as_str(), "floating") {
        UIPosition::Floating
    } else {
        return Err(());
    };
    let windows = match value_get(u, "windows") {
        None => None,
        Some(w) => if value_is_null(w) {
            None
        } else {
            Some(crate::jsonio::value_clone(w))
        },
    };
    Ok(Some(PluginUI { panel, position, windows }))
}

/// Decides whether `v` declares a valid manifest, and reads it out when it
/// does.
pub fn manifest_from_value(v: &serde_json::Value) -> (r: Result<PluginManifest, String>)
    ensures
        match r {
            Ok(m) => manifest_shape(*v) && manifest_matches(*v, m),
            Err(_) => !manifest_shape(*v),
        },
{
    let id = match get_str_field(v, "id") {
        Some(s) => s,
        None => {
            return Err(String::from_str("manifest: missing or invalid 'id'"));
        },
    };
    let name = match get_str_field(v, "name") {
        Some(s) => s,
        None => {
            return Err(String::from_str("manifest: missing or invalid 'name'"));
        },
    };
    let version = match get_str_field(v, "version") {
        Some(s) => s,
        None => {
            return Err(String::from_str("manifest: missing or invalid 'version'"));
        },
    };
    let author = match get_str_field(v, "author") {
        Some(s) => s,
        None => {
            return Err(String::from_str("manifest: missing or invalid 'author'"));
        },
    };
    let description = match get_str_field(v, "description") {
        Some(s) => s,
        None => {
            return Err(String::from_str("manifest: missing or invalid 'description'"));
        },
    };
    let main = match get_str_field(v, "main") {
        Some(s) => s,
        None => {
            return Err(String::from_str("manifest: missing or invalid 'main'"));
        },
    };
    let ui = match get_ui(v) {
        Ok(u) => u,
        Err(()) => {
            return Err(String::from_str("manifest: invalid 'ui'"));
        },
    };
    let permissions = match get_str_list(v, "permissions") {
        Some(p) => p,
        None => {
            return Err(String::from_str("manifest: invalid 'permissions'"));
        },
    };
    let hooks = match get_str_list(v, "hooks") {
        Some(h) => h,
        None => {
            return Err(String::from_str("manifest: invalid 'hooks'"));
        },
    };
    let tools = match get_tools(v) {
        Some(t) => t,
        None => {
            return Err(String::from_str("manifest: invalid 'tools'"));
        },
    };
    Ok(PluginManifest { id, name, version, author, description, main, ui, permissions, tools, hooks })
}

/// Whether the text `t` is a valid manifest file.
pub open spec fn text_manifest_shape(t: Seq<char>) -> bool {
    match json_of(t) {
        None => false,
        Some(v) => manifest_shape(v),
    }
}

/// The id declared by a valid manifest text.
pub open spec fn text_manifest_id(t: Seq<char>) -> Seq<char> {
    json_str_field(json_of(t).unwrap(), "id"@).unwrap()
}

/// Parses a manifest file's text.
pub fn manifest_from_str(s: &str) -> (r: Result<PluginManifest, String>)
    ensures
        match r {
            Ok(m) => text_manifest_shape(s@) && manifest_matches(json_of(s@).unwrap(), m)
                && m.id@ == text_manifest_id(s@),
            Err(_) => !text_manifest_shape(s@),
        },
{
    let v = match parse_json(s) {
        Ok(v) => v,
        Err(m) => {
            return Err(m);
        },
    };
    manifest_from_value(&v)
}

} // verus!
