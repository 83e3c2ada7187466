//! Building the URL and label under which a plugin window opens. The host
//! creates the actual window; this module assembles the `plugin://` URL,
//! encoding the optional initial data into its query.

use vstd::prelude::*;

use base64::Engine;

use crate::jsonio::{json_as_str, json_get, json_text_of, value_as_str, value_get, value_to_text};
use crate::numfmt::{dec_str_of, u64_to_dec};

verus! {

/// The URL-safe, unpadded base64 text of `s`'s bytes.
pub uninterp spec fn b64_url_of(s: Seq<char>) -> Seq<char>;

/// Relies on base64's `URL_SAFE_NO_PAD` engine: the encoding depends on the
/// input alone.
#[verifier::external_body]
pub fn b64_url_nopad(s: &str) -> (r: String)
    ensures
        r@ == b64_url_of(s@),
{
    base64::engine::general_purpose::URL_SAFE_NO_PAD.encode(s.as_bytes())
}

/// The percent-encoded form of `s`.
pub uninterp spec fn url_encoded(s: Seq<char>) -> Seq<char>;

/// Relies on `urlencoding::encode`: the encoding depends on the input alone.
#[verifier::external_body]
pub fn url_encode(s: &str) -> (r: String)
    ensures
        r@ == url_encoded(s@),
{
    urlencoding::encode(s).into_owned()
}

/// The label a plugin window is registered under: plugin id, window name and
/// a clock reading, so labels never collide.
pub fn window_label(plugin_id: &str, window_name: &str, stamp: u64) -> (r: String)
    ensures
        r@ == "plugin-"@ + plugin_id@ + "-"@ + window_name@ + "-"@ + dec_str_of(stamp as nat),
{
    let mut r = String::from_str("plugin-");
    r.append(plugin_id);
    r.append("-");
    r.append(window_name);
    r.append("-");
    let d = u64_to_dec(stamp);
    r.append(d.as_str());
    r
}

/// The URL of a plugin window: the page under the `plugin://` protocol, a
/// `path` query member when the initial data names one, and the whole
/// initial data carried as base64 under `state`.
pub open spec fn window_url_text(
    plugin_id: Seq<char>,
    html_path: Seq<char>,
    path_q: Option<Seq<char>>,
    state_q: Option<Seq<char>>,
) -> Seq<char> {
    let base = "plugin://localhost/"@ + plugin_id + "/"@ + html_path;
    match (path_q, state_q) {
        (Option::None, Option::None) => base,
        (Option::Some(p), Option::None) => base + "?path="@ + url_encoded(p),
        (Option::None, Option::Some(s)) => base + "?state="@ + b64_url_of(s),
        (Option::Some(p), Option::Some(s)) => base + "?path="@ + url_encoded(p) + "&state="@
            + b64_url_of(s),
    }
}

/// Assembles a plugin window's URL. Of the initial data, its `path` member
/// (when it is a string) rides percent-encoded, and its full serialized
/// text rides base64-encoded.
pub fn plugin_window_url(plugin_id: &str, html_path: &str, data: Option<&serde_json::Value>) -> (r:
    String)
    ensures
        r@ == match data {
            None => window_url_text(plugin_id@, html_path@, None, None),
            Some(d) => window_url_text(
                plugin_id@,
                html_path@,
                match json_get(*d, "path"@) {
                    Some(f) => json_as_str(f),
                    None => None,
                },
                Some(json_text_of(*d)),
            ),
        },
{
    let mut base = String::from_str("plugin://localhost/");
    base.append(plugin_id);
    base.append("/");
    base.append(html_path);
    let d = match data {
        None => {
            return base;
        },
        Some(d) => d,
    };
    let path_q: Option<String> = match value_get(d, "path") {
        Some(f) => value_as_str(f),
        None => None,
    };
    let state = value_to_text(d);
    match path_q {
        Option::None => {
            base.append("?state=");
            let e = b64_url_nopad(state.as_str());
            base.append(e.as_str());
            base
        },
        Option::Some(p) => {
            base.append("?path=");
            let e = url_encode(p.as_str());
            base.append(e.as_str());
            base.append("&state=");
            let e2 = b64_url_nopad(state.as_str());
            base.append(e2.as_str());
            base
        },
    }
}

} // verus!
