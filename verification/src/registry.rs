//! The registry: the durable catalog of installed plugins. The host reads
//! manifest files and the persisted state file and hands their texts in; the
//! registry decides what exists, merges persisted enabled flags and
//! configuration, and renders the state text the host writes back after
//! every mutation.

use vstd::prelude::*;

use crate::api::{PluginInfo, PluginManifest};
use crate::jsonio::{
    empty_object, json_get, json_of, json_quoted, json_text_of, parse_json, value_as_bool,
    value_clone, value_get, value_to_text, json_quote,
};
use crate::loader::json_bool_field;
use crate::manifest::{manifest_from_str, manifest_matches, text_manifest_id, text_manifest_shape};
use crate::strutil::{distinct_strs, seq_has_str, str_eq};

verus! {

/// What can go wrong inside the registry.
pub enum RegistryError {
    /// No plugin with this id is registered.
    PluginNotFound(String),
    /// A plugin with this id is already registered.
    PluginExists(String),
    /// A manifest file did not declare a valid manifest.
    InvalidManifest(String),
    /// The host reported an I/O failure.
    Io(String),
    /// The persisted state file was not the JSON it had to be.
    Json(String),
}

impl RegistryError {
    /// A plain rendering for the consuming application.
    pub fn message(&self) -> (r: String)
        ensures
            r@ == match *self {
                RegistryError::PluginNotFound(ref id) => "plugin '"@ + id@ + "' does not exist"@,
                RegistryError::PluginExists(ref id) => "plugin '"@ + id@ + "' already exists"@,
                RegistryError::InvalidManifest(ref m) => "invalid manifest: "@ + m@,
                RegistryError::Io(ref m) => "IO error: "@ + m@,
                RegistryError::Json(ref m) => "JSON parse error: "@ + m@,
            },
    {
        match self {
            RegistryError::PluginNotFound(id) => {
                let mut r = String::from_str("plugin '");
                r.append(id.as_str());
                r.append("' does not exist");
                r
            },
            RegistryError::PluginExists(id) => {
                let mut r = String::from_str("plugin '");
                r.append(id.as_str());
                r.append("' already exists");
                r
            },
            RegistryError::InvalidManifest(m) => {
                let mut r = String::from_str("invalid manifest: ");
                r.append(m.as_str());
                r
            },
            RegistryError::Io(m) => {
                let mut r = String::from_str("IO error: ");
                r.append(m.as_str());
                r
            },
            RegistryError::Json(m) => {
                let mut r = String::from_str("JSON parse error: ");
                r.append(m.as_str());
                r
            },
        }
    }
}

/// One registered plugin: its manifest plus where it lives, whether it is
/// enabled, and its configuration.
pub struct PluginEntry {
    pub manifest: PluginManifest,
    /// Absolute plugin directory.
    pub dir: String,
    /// Absolute path of the native module file.
    pub lib_path: String,
    pub enabled: bool,
    /// Arbitrary JSON configuration.
    pub config: serde_json::Value,
}

/// True when `info` reports exactly the entry `e`.
pub open spec fn info_matches(info: PluginInfo, e: PluginEntry) -> bool {
    &&& info.id@ == e.manifest.id@
    &&& info.name@ == e.manifest.name@
    &&& info.version@ == e.manifest.version@
    &&& info.author@ == e.manifest.author@
    &&& info.description@ == e.manifest.description@
    &&& info.enabled == e.enabled
    &&& info.ui == e.manifest.ui
    &&& info.dir@ == e.dir@
}

impl PluginEntry {
    /// The runtime summary of this entry.
    pub fn to_info(&self) -> (r: PluginInfo)
        ensures
            info_matches(r, *self),
    {
        PluginInfo {
            id: self.manifest.id.clone(),
            name: self.manifest.name.clone(),
            version: self.manifest.version.clone(),
            author: self.manifest.author.clone(),
            description: self.manifest.description.clone(),
            enabled: self.enabled,
            ui: match &self.manifest.ui {
                Some(u) => Some(u.duplicate()),
                None => None,
            },
            dir: self.dir.clone(),
        }
    }
}

/// The persisted record for `id` inside a parsed state file, when both exist.
pub open spec fn state_record_of(st: Option<serde_json::Value>, id: Seq<char>) -> Option<
    serde_json::Value,
> {
    match st {
        None => None,
        Some(s) => match json_get(s, "plugins"@) {
            None => None,
            Some(p) => json_get(p, id),
        },
    }
}

/// Whether a persisted record has its required members.
pub open spec fn record_ok(rec: serde_json::Value) -> bool {
    json_bool_field(rec, "enabled"@) is Some && json_get(rec, "config"@) is Some
}

/// Whether the record for `id` is absent or well formed.
pub open spec fn record_good(st: Option<serde_json::Value>, id: Seq<char>) -> bool {
    match state_record_of(st, id) {
        None => true,
        Some(rec) => record_ok(rec),
    }
}

/// True when the entry `e` is what scanning the pair `(dir, text)` under the
/// persisted state `st` must produce.
pub open spec fn entry_from_found(
    e: PluginEntry,
    dir: Seq<char>,
    text: Seq<char>,
    st: Option<serde_json::Value>,
) -> bool {
    &&& text_manifest_shape(text)
    &&& manifest_matches(json_of(text).unwrap(), e.manifest)
    &&& e.dir@ == dir
    &&& e.lib_path@ == dir + "/"@ + e.manifest.main@
    &&& match state_record_of(st, e.manifest.id@) {
        None => e.enabled == false && Some(e.config) == json_of("{}"@),
        Some(rec) => Some(e.enabled) == json_bool_field(rec, "enabled"@) && Some(e.config)
            == json_get(rec, "config"@),
    }
}

/// The member text persisted for one entry.
pub open spec fn entry_member_text(e: PluginEntry) -> Seq<char> {
    json_quoted(e.manifest.id@) + ":{\"enabled\":"@ + (if e.enabled {
        "true"@
    } else {
        "false"@
    }) + ",\"config\":"@ + json_text_of(e.config) + "}"@
}

/// The comma-joined member texts of all entries, in order.
pub open spec fn entries_members_text(es: Seq<PluginEntry>) -> Seq<char>
    decreases es.len(),
{
    if es.len() == 0 {
        Seq::empty()
    } else if es.len() == 1 {
        entry_member_text(es[0])
    } else {
        entries_members_text(es.drop_last()) + ","@ + entry_member_text(es.last())
    }
}

/// The full persisted state text.
pub open spec fn state_json_spec(es: Seq<PluginEntry>) -> Seq<char> {
    "{\"plugins\":{"@ + entries_members_text(es) + "}}"@
}

/// The parsed state file, when a text was given and parses.
pub open spec fn parsed_state(state_text: Option<&str>) -> Option<serde_json::Value> {
    match state_text {
        None => None,
        Some(t) => json_of(t@),
    }
}

/// Whether every valid manifest among `found` has an absent or well-formed
/// persisted record.
pub open spec fn records_good(
    found: Seq<(String, String)>,
    st: Option<serde_json::Value>,
) -> bool {
    forall|j: int|
        0 <= j < found.len() && text_manifest_shape(#[trigger] found[j].1@) ==> record_good(
            st,
            text_manifest_id(found[j].1@),
        )
}

/// True when some pair among the first `upto` of `found` holds a valid
/// manifest declaring `id`.
pub open spec fn found_has_id(found: Seq<(String, String)>, upto: int, id: Seq<char>) -> bool {
    exists|j: int|
        0 <= j < upto && text_manifest_shape(#[trigger] found[j].1@) && text_manifest_id(
            found[j].1@,
        ) == id
}

/// The catalog itself: the plugins root and the registered entries.
pub struct PluginRegistry {
    pub plugins_dir: String,
    pub entries: Vec<PluginEntry>,
}

impl PluginRegistry {
    /// Every id is registered at most once.
    pub open spec fn wf(self) -> bool {
        forall|i: int, j: int|
            0 <= i < j < self.entries@.len() ==> self.entries@[i].manifest.id@
                != self.entries@[j].manifest.id@
    }

    /// True when a plugin with this id is registered.
    pub open spec fn has_id(self, id: Seq<char>) -> bool {
        exists|i: int| 0 <= i < self.entries@.len() && self.entries@[i].manifest.id@ == id
    }

    /// The position of the entry for `id`; meaningful when `has_id` holds.
    pub open spec fn idx_of(self, id: Seq<char>) -> int {
        choose|i: int| 0 <= i < self.entries@.len() && self.entries@[i].manifest.id@ == id
    }

    /// The entry for `id`; meaningful when `has_id` holds.
    pub open spec fn entry_of(self, id: Seq<char>) -> PluginEntry {
        self.entries@[self.idx_of(id)]
    }

    /// Whether the plugin `id` is registered and flagged enabled.
    pub open spec fn enabled_of(self, id: Seq<char>) -> bool {
        self.has_id(id) && self.entry_of(id).enabled
    }

    /// Registration is unchanged for every id but `id`.
    pub open spec fn preserves_others(self, other: PluginRegistry, id: Seq<char>) -> bool {
        forall|x: Seq<char>|
            #![trigger self.has_id(x)]
            #![trigger other.has_id(x)]
            x != id ==> (self.has_id(x) <==> other.has_id(x)) && (self.has_id(x)
                ==> other.entry_of(x) == self.entry_of(x))
    }

    /// The entry at a position is the entry its id resolves to.
    pub proof fn lemma_entry_at(self, i: int)
        requires
            self.wf(),
            0 <= i < self.entries@.len(),
        ensures
            self.has_id(self.entries@[i].manifest.id@),
            self.idx_of(self.entries@[i].manifest.id@) == i,
            self.entry_of(self.entries@[i].manifest.id@) == self.entries@[i],
    {
        let id = self.entries@[i].manifest.id@;
        assert(self.has_id(id));
        let j = self.idx_of(id);
        assert(0 <= j < self.entries@.len() && self.entries@[j].manifest.id@ == id);
        if i != j {
            assert(self.entries@[i].manifest.id@ != self.entries@[j].manifest.id@);
        }
    }

    /// Index of the entry for `id`, if one exists.
    fn find_index(&self, id: &str) -> (r: Option<usize>)
        requires
            self.wf(),
        ensures
            match r {
                Some(i) => self.has_id(id@) && i == self.idx_of(id@) && i < self.entries@.len()
                    && self.entries@[i as int].manifest.id@ == id@,
                None => !self.has_id(id@),
            },
    {
        let mut i: usize = 0;
        while i < self.entries.len()
            invariant
                self.wf(),
                i <= self.entries@.len(),
                forall|j: int| 0 <= j < i ==> self.entries@[j].manifest.id@ != id@,
            decreases self.entries@.len() - i,
        {
            if str_eq(self.entries[i].manifest.id.as_str(), id) {
                proof {
                    self.lemma_entry_at(i as int);
                }
                return Some(i);
            }
            i += 1;
        }
        None
    }

    /// Registers a new plugin, disabled and with an empty configuration; an
    /// error when the id is already present.
    pub fn register(&mut self, manifest: PluginManifest, plugin_dir: String) -> (r: Result<
        PluginInfo,
        RegistryError,
    >)
        requires
            old(self).wf(),
        ensures
            final(self).wf(),
            final(self).plugins_dir == old(self).plugins_dir,
            match r {
                Ok(info) => {
                    &&& !old(self).has_id(manifest.id@)
                    &&& forall|x: Seq<char>|
                        final(self).has_id(x) <==> (old(self).has_id(x) || x == manifest.id@)
                    &&& old(self).preserves_others(*final(self), manifest.id@)
                    &&& final(self).entry_of(manifest.id@).manifest == manifest
                    &&& final(self).entry_of(manifest.id@).dir@ == plugin_dir@
                    &&& final(self).entry_of(manifest.id@).lib_path@ == plugin_dir@ + "/"@
                        + manifest.main@
                    &&& final(self).entry_of(manifest.id@).enabled == false
                    &&& Some(final(self).entry_of(manifest.id@).config) == json_of("{}"@)
                    &&& info_matches(info, final(self).entry_of(manifest.id@))
                },
                Err(e) => old(self).has_id(manifest.id@) && *final(self) == *old(self) && (
                e matches RegistryError::PluginExists(p) && p@ == manifest.id@),
            },
    {
        if let Some(_) = self.find_index(manifest.id.as_str()) {
            let id = manifest.id.clone();
            return Err(RegistryError::PluginExists(id));
        }
        let mut lib_path = plugin_dir.clone();
        lib_path.append("/");
        lib_path.append(manifest.main.as_str());
        let entry = PluginEntry {
            manifest,
            dir: plugin_dir,
            lib_path,
            enabled: false,
            config: empty_object(),
        };
        let info = entry.to_info();
        let ghost mid = manifest.id@;
        let ghost pre = *self;
        self.entries.push(entry);
        proof {
            let n = pre.entries@.len() as int;
            assert(self.entries@[n].manifest.id@ == mid);
            assert forall|i: int, j: int|
                0 <= i < j < self.entries@.len() implies self.entries@[i].manifest.id@
                != self.entries@[j].manifest.id@ by {
                if j < n {
                    assert(self.entries@[i] == pre.entries@[i]);
                    assert(self.entries@[j] == pre.entries@[j]);
                } else {
                    assert(self.entries@[i] == pre.entries@[i]);
                    pre.lemma_entry_at(i);
                    assert(!pre.has_id(mid));
                }
            }
            self.lemma_entry_at(n);
            assert forall|x: Seq<char>|
                final(self).has_id(x) <==> (pre.has_id(x) || x == mid) by {
                if pre.has_id(x) {
                    let i = pre.idx_of(x);
                    assert(self.entries@[i].manifest.id@ == x);
                }
                if self.has_id(x) && x != mid {
                    let i = choose|i: int|
                        0 <= i < self.entries@.len() && self.entries@[i].manifest.id@ == x;
                    assert(i != n);
                    assert(pre.entries@[i].manifest.id@ == x);
                }
            }
            assert forall|x: Seq<char>| x != mid && pre.has_id(x) implies self.has_id(x)
                && self.entry_of(x) == pre.entry_of(x) by {
                let i = pre.idx_of(x);
                assert(self.entries@[i].manifest.id@ == x);
                self.lemma_entry_at(i);
            }
        }
        Ok(info)
    }

    /// Removes the entry for `id`; an error when it is absent.
    pub fn unregister(&mut self, id: &str) -> (r: Result<(), RegistryError>)
        requires
            old(self).wf(),
        ensures
            final(self).wf(),
            final(self).plugins_dir == old(self).plugins_dir,
            match r {
                Ok(()) => {
                    &&& old(self).has_id(id@)
                    &&& !final(self).has_id(id@)
                    &&& forall|x: Seq<char>|
                        final(self).has_id(x) <==> (old(self).has_id(x) && x != id@)
                    &&& old(self).preserves_others(*final(self), id@)
                },
                Err(e) => !old(self).has_id(id@) && *final(self) == *old(self) && (e matches
                    RegistryError::PluginNotFound(p) && p@ == id@),
            },
    {
        let ghost pre = *self;
        match self.find_index(id) {
            Some(i) => {
                self.entries.remove(i);
                proof {
                    let n = pre.entries@.len() as int;
                    assert forall|a: int, b: int|
                        0 <= a < b < self.entries@.len() implies self.entries@[a].manifest.id@
                        != self.entries@[b].manifest.id@ by {
                        let a0 = if a < i {
                            a
                        } else {
                            a + 1
                        };
                        let b0 = if b < i {
                            b
                        } else {
                            b + 1
                        };
                        assert(self.entries@[a] == pre.entries@[a0]);
                        assert(self.entries@[b] == pre.entries@[b0]);
                    }
                    assert forall|x: Seq<char>|
                        final(self).has_id(x) <==> (pre.has_id(x) && x != id@) by {
                        if self.has_id(x) {
                            let a = choose|a: int|
                                0 <= a < self.entries@.len() && self.entries@[a].manifest.id@
                                    == x;
                            let a0 = if a < i {
                                a
                            } else {
                                a + 1
                            };
                            assert(pre.entries@[a0] == self.entries@[a]);
                            assert(pre.has_id(x));
                            pre.lemma_entry_at(a0);
                            assert(x != id@);
                        }
                        if pre.has_id(x) && x != id@ {
                            let a = pre.idx_of(x);
                            assert(a != i);
                            if a < i {
                                assert(self.entries@[a] == pre.entries@[a]);
                            } else {
                                assert(self.entries@[a - 1] == pre.entries@[a]);
                            }
                        }
                    }
                    assert forall|x: Seq<char>| x != id@ && pre.has_id(x) implies self.has_id(x)
                        && self.entry_of(x) == pre.entry_of(x) by {
                        let a = pre.idx_of(x);
                        assert(a != i);
                        if a < i {
                            assert(self.entries@[a] == pre.entries@[a]);
                            self.lemma_entry_at(a);
                        } else {
                            assert(self.entries@[a - 1] == pre.entries@[a]);
                            self.lemma_entry_at(a - 1);
                        }
                    }
                }
                Ok(())
            },
            None => Err(RegistryError::PluginNotFound(id.to_owned())),
        }
    }

    /// Replaces the entry at `i`, keeping order; the caller says what changed.
    fn replace_at(&mut self, i: usize, entry: PluginEntry)
        requires
            old(self).wf(),
            i < old(self).entries@.len(),
            entry.manifest.id@ == old(self).entries@[i as int].manifest.id@,
        ensures
            final(self).wf(),
            final(self).plugins_dir == old(self).plugins_dir,
            final(self).entries@ == old(self).entries@.update(i as int, entry),
    {
        let ghost pre = *self;
        let _ = self.entries.remove(i);
        self.entries.insert(i, entry);
        proof {
            assert(self.entries@ =~= pre.entries@.update(i as int, entry));
            assert forall|a: int, b: int|
                0 <= a < b < self.entries@.len() implies self.entries@[a].manifest.id@
                != self.entries@[b].manifest.id@ by {
                assert(pre.entries@[a].manifest.id@ != pre.entries@[b].manifest.id@);
            }
        }
    }

    /// After updating position `i` with an entry of the same id, every other
    /// id resolves as before.
    proof fn lemma_update_preserves(pre: PluginRegistry, post: PluginRegistry, i: int)
        requires
            pre.wf(),
            0 <= i < pre.entries@.len(),
            post.entries@ == pre.entries@.update(
                i,
                post.entries@[i],
            ),
            post.entries@[i].manifest.id@ == pre.entries@[i].manifest.id@,
        ensures
            post.wf(),
            forall|x: Seq<char>|
                #![trigger post.has_id(x)]
                #![trigger pre.has_id(x)]
                post.has_id(x) <==> pre.has_id(x),
            pre.preserves_others(post, pre.entries@[i].manifest.id@),
            post.has_id(pre.entries@[i].manifest.id@),
            post.entry_of(pre.entries@[i].manifest.id@) == post.entries@[i],
    {
        let id = pre.entries@[i].manifest.id@;
        assert forall|a: int, b: int|
            0 <= a < b < post.entries@.len() implies post.entries@[a].manifest.id@
            != post.entries@[b].manifest.id@ by {
            assert(post.entries@[a].manifest.id@ == pre.entries@[a].manifest.id@);
            assert(post.entries@[b].manifest.id@ == pre.entries@[b].manifest.id@);
        }
        assert forall|x: Seq<char>| post.has_id(x) <==> pre.has_id(x) by {
            if post.has_id(x) {
                let a = choose|a: int|
                    0 <= a < post.entries@.len() && post.entries@[a].manifest.id@ == x;
                assert(pre.entries@[a].manifest.id@ == x);
            }
            if pre.has_id(x) {
                let a = choose|a: int|
                    0 <= a < pre.entries@.len() && pre.entries@[a].manifest.id@ == x;
                assert(post.entries@[a].manifest.id@ == x);
            }
        }
        assert forall|x: Seq<char>| x != id && pre.has_id(x) implies post.has_id(x)
            && post.entry_of(x) == pre.entry_of(x) by {
            let a = pre.idx_of(x);
            assert(a != i);
            assert(post.entries@[a] == pre.entries@[a]);
            post.lemma_entry_at(a);
        }
        post.lemma_entry_at(i);
    }

    /// Flags the plugin enabled or disabled; an error when it is absent.
    pub fn set_enabled(&mut self, id: &str, enabled: bool) -> (r: Result<(), RegistryError>)
        requires
            old(self).wf(),
        ensures
            final(self).wf(),
            final(self).plugins_dir == old(self).plugins_dir,
            match r {
                Ok(()) => {
                    &&& old(self).has_id(id@)
                    &&& forall|x: Seq<char>|
                        final(self).has_id(x) <==> old(self).has_id(x)
                    &&& old(self).preserves_others(*final(self), id@)
                    &&& final(self).has_id(id@)
                    &&& final(self).entry_of(id@) == PluginEntry {
                        enabled,
                        ..old(self).entry_of(id@)
                    }
                },
                Err(e) => !old(self).has_id(id@) && *final(self) == *old(self) && (e matches
                    RegistryError::PluginNotFound(p) && p@ == id@),
            },
    {
        let ghost pre = *self;
        match self.find_index(id) {
            Some(i) => {
                let mut entry = self.entries.remove(i);
                entry.enabled = enabled;
                self.entries.insert(i, entry);
                proof {
                    assert(self.entries@ =~= pre.entries@.update(
                        i as int,
                        self.entries@[i as int],
                    ));
                    Self::lemma_update_preserves(pre, *self, i as int);
                }
                Ok(())
            },
            None => Err(RegistryError::PluginNotFound(id.to_owned())),
        }
    }

    /// Replaces the plugin's configuration; an error when it is absent.
    pub fn set_config(&mut self, id: &str, config: serde_json::Value) -> (r: Result<
        (),
        RegistryError,
    >)
        requires
            old(self).wf(),
        ensures
            final(self).wf(),
            final(self).plugins_dir == old(self).plugins_dir,
            match r {
                Ok(()) => {
                    &&& old(self).has_id(id@)
                    &&& forall|x: Seq<char>|
                        final(self).has_id(x) <==> old(self).has_id(x)
                    &&& old(self).preserves_others(*final(self), id@)
                    &&& final(self).has_id(id@)
                    &&& final(self).entry_of(id@) == PluginEntry {
                        config,
                        ..old(self).entry_of(id@)
                    }
                },
                Err(e) => !old(self).has_id(id@) && *final(self) == *old(self) && (e matches
                    RegistryError::PluginNotFound(p) && p@ == id@),
            },
    {
        let ghost pre = *self;
        match self.find_index(id) {
            Some(i) => {
                let mut entry = self.entries.remove(i);
                entry.config = config;
                self.entries.insert(i, entry);
                proof {
                    assert(self.entries@ =~= pre.entries@.update(
                        i as int,
                        self.entries@[i as int],
                    ));
                    Self::lemma_update_preserves(pre, *self, i as int);
                }
                Ok(())
            },
            None => Err(RegistryError::PluginNotFound(id.to_owned())),
        }
    }

    /// The entry for `id`; an error when it is absent.
    pub fn get(&self, id: &str) -> (r: Result<&PluginEntry, RegistryError>)
        requires
            self.wf(),
        ensures
            match r {
                Ok(e) => self.has_id(id@) && *e == self.entry_of(id@),
                Err(e) => !self.has_id(id@) && (e matches RegistryError::PluginNotFound(p) && p@
                    == id@),
            },
    {
        match self.find_index(id) {
            Some(i) => Ok(&self.entries[i]),
            None => Err(RegistryError::PluginNotFound(id.to_owned())),
        }
    }

    /// Whether a plugin with this id is registered.
    pub fn contains_id(&self, id: &str) -> (r: bool)
        requires
            self.wf(),
        ensures
            r == self.has_id(id@),
    {
        match self.find_index(id) {
            Some(_) => true,
            None => false,
        }
    }

    /// A summary of every registered plugin, in registration order.
    pub fn list(&self) -> (r: Vec<PluginInfo>)
        ensures
            r@.len() == self.entries@.len(),
            forall|i: int| 0 <= i < r@.len() ==> info_matches(#[trigger] r@[i], self.entries@[i]),
    {
        let mut out: Vec<PluginInfo> = Vec::new();
        let mut i: usize = 0;
        while i < self.entries.len()
            invariant
                i <= self.entries@.len(),
                out@.len() == i,
                forall|j: int|
                    0 <= j < i ==> info_matches(#[trigger] out@[j], self.entries@[j]),
            decreases self.entries@.len() - i,
        {
            out.push(self.entries[i].to_info());
            i += 1;
        }
        out
    }

    /// The ids of the plugins flagged enabled.
    pub fn enabled_plugins(&self) -> (r: Vec<String>)
        requires
            self.wf(),
        ensures
            distinct_strs(r@),
            forall|x: Seq<char>| seq_has_str(r@, x) <==> self.enabled_of(x),
    {
        let mut out: Vec<String> = Vec::new();
        let mut i: usize = 0;
        while i < self.entries.len()
            invariant
                self.wf(),
                i <= self.entries@.len(),
                forall|x: Seq<char>|
                    seq_has_str(out@, x) <==> exists|j: int|
                        0 <= j < i && self.entries@[j].manifest.id@ == x
                            && self.entries@[j].enabled,
                distinct_strs(out@),
            decreases self.entries@.len() - i,
        {
            let ghost preout = out@;
            if self.entries[i].enabled {
                out.push(self.entries[i].manifest.id.clone());
                proof {
                    assert forall|x: Seq<char>|
                        seq_has_str(out@, x) <==> exists|j: int|
                            0 <= j < i + 1 && self.entries@[j].manifest.id@ == x
                                && self.entries@[j].enabled by {
                        if seq_has_str(out@, x) {
                            let a = choose|a: int| 0 <= a < out@.len() && out@[a]@ == x;
                            if a < preout.len() {
                                assert(seq_has_str(preout, x));
                            } else {
                                assert(x == self.entries@[i as int].manifest.id@);
                            }
                        }
                        if exists|j: int|
                            0 <= j < i + 1 && self.entries@[j].manifest.id@ == x
                                && self.entries@[j].enabled {
                            let j = choose|j: int|
                                0 <= j < i + 1 && self.entries@[j].manifest.id@ == x
                                    && self.entries@[j].enabled;
                            if j < i {
                                assert(seq_has_str(preout, x));
                                let a = choose|a: int|
                                    0 <= a < preout.len() && preout[a]@ == x;
                                assert(out@[a]@ == x);
                            } else {
                                assert(out@[out@.len() - 1]@ == x);
                            }
                        }
                    }
                    assert forall|a: int, b: int|
                        0 <= a < b < out@.len() implies out@[a]@ != out@[b]@ by {
                        if b == out@.len() - 1 {
                            if out@[a]@ == out@[b]@ {
                                assert(seq_has_str(preout, out@[b]@));
                                let j = choose|j: int|
                                    0 <= j < i && self.entries@[j].manifest.id@ == out@[b]@
                                        && self.entries@[j].enabled;
                                assert(self.entries@[j].manifest.id@ == self.entries@[
                                    i as int
                                ].manifest.id@);
                            }
                        }
                    }
                }
            } else {
                proof {
                    assert forall|x: Seq<char>|
                        seq_has_str(out@, x) <==> exists|j: int|
                            0 <= j < i + 1 && self.entries@[j].manifest.id@ == x
                                && self.entries@[j].enabled by {
                        if exists|j: int|
                            0 <= j < i + 1 && self.entries@[j].manifest.id@ == x
                                && self.entries@[j].enabled {
                            let j = choose|j: int|
                                0 <= j < i + 1 && self.entries@[j].manifest.id@ == x
                                    && self.entries@[j].enabled;
                            assert(j < i);
                        }
                    }
                }
            }
            i += 1;
        }
        proof {
            assert forall|x: Seq<char>| seq_has_str(out@, x) <==> self.enabled_of(x) by {
                if exists|j: int|
                    0 <= j < self.entries@.len() && self.entries@[j].manifest.id@ == x
                        && self.entries@[j].enabled {
                    let j = choose|j: int|
                        0 <= j < self.entries@.len() && self.entries@[j].manifest.id@ == x
                            && self.entries@[j].enabled;
                    self.lemma_entry_at(j);
                }
                if self.enabled_of(x) {
                    let j = self.idx_of(x);
                    assert(0 <= j < self.entries@.len() && self.entries@[j].manifest.id@ == x
                        && self.entries@[j].enabled);
                }
            }
        }
        out
    }

    /// The path of the persisted state file, directly under the plugins root.
    pub fn state_file_path(&self) -> (r: String)
        ensures
            r@ == self.plugins_dir@ + "/registry.json"@,
    {
        let mut r = self.plugins_dir.clone();
        r.append("/registry.json");
        r
    }

    /// Renders the state text the host must persist after every mutation.
    pub fn state_json(&self) -> (r: String)
        ensures
            r@ == state_json_spec(self.entries@),
    {
        let mut acc = String::from_str("{\"plugins\":{");
        let mut i: usize = 0;
        while i < self.entries.len()
            invariant
                i <= self.entries@.len(),
                acc@ == "{\"plugins\":{"@ + entries_members_text(self.entries@.subrange(0, i as int)),
            decreases self.entries@.len() - i,
        {
            let ghost preacc = acc@;
            if i > 0 {
                acc.append(",");
            }
            let e = &self.entries[i];
            let q = json_quote(e.manifest.id.as_str());
            acc.append(q.as_str());
            acc.append(":{\"enabled\":");
            if e.enabled {
                acc.append("true");
            } else {
                acc.append("false");
            }
            acc.append(",\"config\":");
            let cfg = value_to_text(&e.config);
            acc.append(cfg.as_str());
            acc.append("}");
            proof {
                let sub1 = self.entries@.subrange(0, i + 1 as int);
                assert(sub1.drop_last() =~= self.entries@.subrange(0, i as int));
                assert(sub1.last() == self.entries@[i as int]);
                if i == 0 {
                    assert(acc@ =~= "{\"plugins\":{"@ + entries_members_text(sub1));
                } else {
                    assert(entries_members_text(sub1) == entries_members_text(sub1.drop_last())
                        + ","@ + entry_member_text(sub1.last()));
                    assert(acc@ =~= "{\"plugins\":{"@ + entries_members_text(sub1));
                }
            }
            i += 1;
        }
        acc.append("}}");
        proof {
            assert(self.entries@.subrange(0, self.entries@.len() as int) =~= self.entries@);
            assert(acc@ =~= state_json_spec(self.entries@));
        }
        acc
    }

    /// Builds the registry from what the host found on disk: for each plugin
    /// directory its manifest file's text, plus the state file's text when
    /// one existed. Pairs whose text is no valid manifest are skipped; a
    /// later pair declaring an already-seen id replaces the earlier one;
    /// persisted enabled flags and configuration are merged in, with
    /// disabled and an empty configuration as the defaults.
    #[verifier::loop_isolation(false)]
    pub fn new(
        plugins_dir: String,
        found: Vec<(String, String)>,
        state_text: Option<&str>,
    ) -> (r: Result<PluginRegistry, RegistryError>)
        ensures
            r is Ok <==> ((state_text matches Some(t) ==> json_of(t@) is Some) && records_good(
                found@,
                parsed_state(state_text),
            )),
            match r {
                Ok(reg) => {
                    &&& reg.wf()
                    &&& reg.plugins_dir == plugins_dir
                    &&& forall|x: Seq<char>|
                        reg.has_id(x) <==> found_has_id(found@, found@.len() as int, x)
                    &&& forall|x: Seq<char>|
                        reg.has_id(x) ==> exists|j: int|
                            0 <= j < found@.len() && text_manifest_shape(#[trigger] found@[j].1@)
                                && text_manifest_id(found@[j].1@) == x && entry_from_found(
                                reg.entry_of(x),
                                found@[j].0@,
                                found@[j].1@,
                                parsed_state(state_text),
                            )
                },
                Err(e) => e matches RegistryError::Json(_),
            },
    {
        let st: Option<serde_json::Value> = match state_text {
            None => None,
            Some(t) => match parse_json(t) {
                Ok(v) => Some(v),
                Err(m) => {
                    return Err(RegistryError::Json(m));
                },
            },
        };
        let ghost stv = parsed_state(state_text);
        proof {
            assert(st == stv);
        }
        let mut reg = PluginRegistry { plugins_dir, entries: Vec::new() };
        let mut i: usize = 0;
        while i < found.len()
            invariant
                reg.wf(),
                reg.plugins_dir == plugins_dir,
                i <= found@.len(),
                forall|x: Seq<char>| reg.has_id(x) <==> found_has_id(found@, i as int, x),
                forall|x: Seq<char>|
                    reg.has_id(x) ==> exists|j: int|
                        0 <= j < i && text_manifest_shape(#[trigger] found@[j].1@)
                            && text_manifest_id(found@[j].1@) == x && entry_from_found(
                            reg.entry_of(x),
                            found@[j].0@,
                            found@[j].1@,
                            stv,
                        ),
                forall|j: int|
                    0 <= j < i && text_manifest_shape(#[trigger] found@[j].1@) ==> record_good(
                        stv,
                        text_manifest_id(found@[j].1@),
                    ),
            decreases found@.len() - i,
        {
            let ghost prereg = reg;
            match manifest_from_str(found[i].1.as_str()) {
                Err(_) => {
                    proof {
                        assert forall|x: Seq<char>|
                            reg.has_id(x) <==> found_has_id(found@, i + 1, x) by {
                            if found_has_id(found@, i + 1, x) {
                                let j = choose|j: int|
                                    0 <= j < i + 1 && text_manifest_shape(#[trigger] found@[j].1@)
                                        && text_manifest_id(found@[j].1@) == x;
                                assert(j < i);
                                assert(found_has_id(found@, i as int, x));
                            }
                        }
                    }
                },
                Ok(m) => {
                    let ghost mid = m.id@;
                    let rec: Option<&serde_json::Value> = match &st {
                        None => None,
                        Some(s) => match value_get(s, "plugins") {
                            None => None,
                            Some(p) => value_get(p, m.id.as_str()),
                        },
                    };
                    proof {
                        match rec {
                            Some(rv) => {
                                assert(state_record_of(stv, mid) == Some(*rv));
                            },
                            None => {
                                assert(state_record_of(stv, mid) is None);
                            },
                        }
                    }
                    let enabled: bool;
                    let config: serde_json::Value;
                    match rec {
                        None => {
                            enabled = false;
                            config = empty_object();
                        },
                        Some(rv) => {
                            enabled = match value_get(rv, "enabled") {
                                Some(f) => match value_as_bool(f) {
                                    Some(b) => b,
                                    None => {
                                        return Err(
                                            RegistryError::Json(
                                                String::from_str("invalid registry state entry"),
                                            ),
                                        );
                                    },
                                },
                                None => {
                                    return Err(
                                        RegistryError::Json(
                                            String::from_str("invalid registry state entry"),
                                        ),
                                    );
                                },
                            };
                            config = match value_get(rv, "config") {
                                Some(c) => value_clone(c),
                                None => {
                                    return Err(
                                        RegistryError::Json(
                                            String::from_str("invalid registry state entry"),
                                        ),
                                    );
                                },
                            };
                        },
                    }
                    let dir = found[i].0.clone();
                    let mut lib_path = dir.clone();
                    lib_path.append("/");
                    lib_path.append(m.main.as_str());
                    let entry = PluginEntry { manifest: m, dir, lib_path, enabled, config };
                    proof {
                        assert(entry_from_found(entry, found@[i as int].0@, found@[i as int].1@, stv));
                    }
                    match reg.find_index(entry.manifest.id.as_str()) {
                        Some(k) => {
                            reg.replace_at(k, entry);
                            proof {
                                assert(reg.entries@ == prereg.entries@.update(
                                    k as int,
                                    reg.entries@[k as int],
                                ));
                                PluginRegistry::lemma_update_preserves(prereg, reg, k as int);
                            }
                        },
                        None => {
                            reg.entries.push(entry);
                            proof {
                                let n = prereg.entries@.len() as int;
                                assert(reg.entries@[n].manifest.id@ == mid);
                                assert forall|a: int, b: int|
                                    0 <= a < b < reg.entries@.len() implies reg.entries@[
                                    a].manifest.id@ != reg.entries@[b].manifest.id@ by {
                                    if b < n {
                                        assert(reg.entries@[a] == prereg.entries@[a]);
                                        assert(reg.entries@[b] == prereg.entries@[b]);
                                    } else {
                                        assert(reg.entries@[a] == prereg.entries@[a]);
                                        prereg.lemma_entry_at(a);
                                        assert(!prereg.has_id(mid));
                                    }
                                }
                                reg.lemma_entry_at(n);
                                assert forall|x: Seq<char>|
                                    reg.has_id(x) <==> (prereg.has_id(x) || x == mid) by {
                                    if prereg.has_id(x) {
                                        let a = prereg.idx_of(x);
                                        assert(reg.entries@[a].manifest.id@ == x);
                                    }
                                    if reg.has_id(x) && x != mid {
                                        let a = choose|a: int|
                                            0 <= a < reg.entries@.len() && reg.entries@[
                                            a].manifest.id@ == x;
                                        assert(a != n);
                                        assert(prereg.entries@[a].manifest.id@ == x);
                                    }
                                }
                                assert forall|x: Seq<char>|
                                    x != mid && prereg.has_id(x) implies reg.has_id(x)
                                    && reg.entry_of(x) == prereg.entry_of(x) by {
                                    let a = prereg.idx_of(x);
                                    assert(reg.entries@[a].manifest.id@ == x);
                                    reg.lemma_entry_at(a);
                                }
                            }
                        },
                    }
                    proof {
                        assert(reg.has_id(mid));
                        assert(reg.entry_of(mid) == entry);
                        assert forall|x: Seq<char>|
                            reg.has_id(x) <==> found_has_id(found@, i + 1, x) by {
                            if reg.has_id(x) {
                                if x == mid {
                                    assert(text_manifest_shape(found@[i as int].1@)
                                        && text_manifest_id(found@[i as int].1@) == x);
                                } else {
                                    assert(prereg.has_id(x));
                                    let j = choose|j: int|
                                        0 <= j < i && text_manifest_shape(
                                            #[trigger] found@[j].1@,
                                        ) && text_manifest_id(found@[j].1@) == x;
                                    assert(found_has_id(found@, i + 1, x));
                                }
                            }
                            if found_has_id(found@, i + 1, x) {
                                let j = choose|j: int|
                                    0 <= j < i + 1 && text_manifest_shape(#[trigger] found@[j].1@)
                                        && text_manifest_id(found@[j].1@) == x;
                                if j < i {
                                    assert(found_has_id(found@, i as int, x));
                                    assert(prereg.has_id(x));
                                    if x != mid {
                                        assert(reg.has_id(x));
                                    }
                                } else {
                                    assert(x == mid);
                                }
                            }
                        }
                        assert forall|x: Seq<char>| reg.has_id(x) implies exists|j: int|
                            0 <= j < i + 1 && text_manifest_shape(#[trigger] found@[j].1@)
                                && text_manifest_id(found@[j].1@) == x && entry_from_found(
                                reg.entry_of(x),
                                found@[j].0@,
                                found@[j].1@,
                                stv,
                            ) by {
                            if x == mid {
                                assert(text_manifest_shape(found@[i as int].1@)
                                    && text_manifest_id(found@[i as int].1@) == x
                                    && entry_from_found(
                                    reg.entry_of(x),
                                    found@[i as int].0@,
                                    found@[i as int].1@,
                                    stv,
                                ));
                            } else {
                                assert(prereg.has_id(x));
                                let j = choose|j: int|
                                    0 <= j < i && text_manifest_shape(#[trigger] found@[j].1@)
                                        && text_manifest_id(found@[j].1@) == x
                                        && entry_from_found(
                                        prereg.entry_of(x),
                                        found@[j].0@,
                                        found@[j].1@,
                                        stv,
                                    );
                                assert(reg.entry_of(x) == prereg.entry_of(x));
                            }
                        }
                    }
                },
            }
            i += 1;
        }
        proof {
            assert(found@.subrange(0, found@.len() as int) =~= found@);
        }
        Ok(reg)
    }

    /// Clears the catalog and rebuilds it from a fresh scan; on a state-file
    /// failure the catalog stays empty, as a fresh scan found nothing usable.
    pub fn refresh(&mut self, found: Vec<(String, String)>, state_text: Option<&str>) -> (r:
        Result<(), RegistryError>)
        ensures
            final(self).wf(),
            final(self).plugins_dir == old(self).plugins_dir,
            r is Ok <==> ((state_text matches Some(t) ==> json_of(t@) is Some) && records_good(
                found@,
                parsed_state(state_text),
            )),
            match r {
                Ok(()) => {
                    &&& forall|x: Seq<char>|
                        final(self).has_id(x) <==> found_has_id(found@, found@.len() as int, x)
                    &&& forall|x: Seq<char>|
                        final(self).has_id(x) ==> exists|j: int|
                            0 <= j < found@.len() && text_manifest_shape(#[trigger] found@[j].1@)
                                && text_manifest_id(found@[j].1@) == x && entry_from_found(
                                final(self).entry_of(x),
                                found@[j].0@,
                                found@[j].1@,
                                parsed_state(state_text),
                            )
                },
                Err(e) => e matches RegistryError::Json(_) && final(self).entries@.len() == 0,
            },
    {
        self.entries = Vec::new();
        match PluginRegistry::new(self.plugins_dir.clone(), found, state_text) {
            Ok(reg) => {
                self.entries = reg.entries;
                proof {
                    assert(final(self).entries@ == reg.entries@);
                    assert forall|x: Seq<char>|
                        final(self).has_id(x) <==> reg.has_id(x) by {}
                    assert forall|x: Seq<char>| final(self).has_id(x) implies final(self).entry_of(
                        x,
                    ) == reg.entry_of(x) by {
                        let a = choose|a: int|
                            0 <= a < reg.entries@.len() && reg.entries@[a].manifest.id@ == x;
                        reg.lemma_entry_at(a);
                        self.lemma_entry_at(a);
                    }
                }
                Ok(())
            },
            Err(e) => Err(e),
        }
    }
}

} // verus!
