//! The manager: the one component allowed to touch the loader table, the
//! registry and the hook dispatcher in a single logical operation. Operations
//! that need outside work (opening a native module, calling an entry point,
//! touching the file system) are split into a begin half that decides and a
//! finish half that takes the outcome, and every completed operation
//! preserves the central agreement: a plugin id is flagged enabled in the
//! registry exactly while the loader table holds it. Only re-reading the
//! catalog from disk (`refresh`, or a fresh start over a persisted state)
//! can reintroduce a mismatch, which the startup restoration then resolves.

use vstd::prelude::*;

use crate::api::{PluginInfo, PluginManifest, ToolDefinition};
use crate::hooks::{HookDispatcher, HookResult};
use crate::jsonio::{value_clone, value_get, value_is_object};
use crate::loader::{LoaderError, PluginLoader};
use crate::registry::{info_matches, PluginEntry, PluginRegistry, RegistryError};
use crate::strutil::{clone_strs, distinct_strs, seq_has_str};

verus! {

/// What can go wrong in a manager operation.
pub enum ManagerError {
    Registry(RegistryError),
    Loader(LoaderError),
    /// The host reported an I/O failure.
    Io(String),
    /// The host reported a failure extracting a plugin package.
    Zip(String),
    /// A text crossing the boundary was not the JSON it had to be.
    Json(String),
    /// The plugin package or its declared UI is unusable.
    InvalidPackage(String),
    /// A tool was executed against a plugin that is not enabled.
    PluginNotEnabled(String),
    /// The plugin's native module file does not exist.
    LibraryNotFound(String),
}

impl ManagerError {
    /// A plain rendering for the consuming application.
    pub fn message(&self) -> (r: String)
        ensures
            r@ == match *self {
                ManagerError::Registry(ref e) => "registry error: "@ + match *e {
                    RegistryError::PluginNotFound(ref id) => "plugin '"@ + id@
                        + "' does not exist"@,
                    RegistryError::PluginExists(ref id) => "plugin '"@ + id@
                        + "' already exists"@,
                    RegistryError::InvalidManifest(ref m) => "invalid manifest: "@ + m@,
                    RegistryError::Io(ref m) => "IO error: "@ + m@,
                    RegistryError::Json(ref m) => "JSON parse error: "@ + m@,
                },
                ManagerError::Loader(ref e) => "loader error: "@ + match *e {
                    LoaderError::LibraryLoad(ref s) => "failed to load dynamic library: "@ + s@,
                    LoaderError::SymbolNotFound(ref n, ref d) => "missing exported function '"@
                        + n@ + "': "@ + d@,
                    LoaderError::PluginNotLoaded(ref id) => "plugin '"@ + id@
                        + "' is not loaded"@,
                    LoaderError::InitializeFailed(ref m) => "plugin initialization failed: "@
                        + m@,
                    LoaderError::ShutdownFailed(ref m) => "plugin shutdown failed: "@ + m@,
                    LoaderError::JsonError(ref m) => "JSON serialization failed: "@ + m@,
                },
                ManagerError::Io(ref m) => "IO error: "@ + m@,
                ManagerError::Zip(ref m) => "ZIP extraction failed: "@ + m@,
                ManagerError::Json(ref m) => "JSON parse error: "@ + m@,
                ManagerError::InvalidPackage(ref m) => "invalid plugin package: "@ + m@,
                ManagerError::PluginNotEnabled(ref id) => "plugin '"@ + id@ + "' is not enabled"@,
                ManagerError::LibraryNotFound(ref p) => "dynamic library file not found: "@ + p@,
            },
    {
        match self {
            ManagerError::Registry(e) => {
                let mut r = String::from_str("registry error: ");
                let inner = e.message();
                r.append(inner.as_str());
                r
            },
            ManagerError::Loader(e) => {
                let mut r = String::from_str("loader error: ");
                let inner = e.message();
                r.append(inner.as_str());
                r
            },
            ManagerError::Io(m) => {
                let mut r = String::from_str("IO error: ");
                r.append(m.as_str());
                r
            },
            ManagerError::Zip(m) => {
                let mut r = String::from_str("ZIP extraction failed: ");
                r.append(m.as_str());
                r
            },
            ManagerError::Json(m) => {
                let mut r = String::from_str("JSON parse error: ");
                r.append(m.as_str());
                r
            },
            ManagerError::InvalidPackage(m) => {
                let mut r = String::from_str("invalid plugin package: ");
                r.append(m.as_str());
                r
            },
            ManagerError::PluginNotEnabled(id) => {
                let mut r = String::from_str("plugin '");
                r.append(id.as_str());
                r.append("' is not enabled");
                r
            },
            ManagerError::LibraryNotFound(p) => {
                let mut r = String::from_str("dynamic library file not found: ");
                r.append(p.as_str());
                r
            },
        }
    }
}

/// What the host needs to enable a plugin: where the module is, and the
/// context to initialize it with.
pub struct EnableTicket {
    pub plugin_id: String,
    /// Path of the native module to open.
    pub lib_path: String,
    /// The plugin's private data directory, to be created on demand.
    pub data_dir: String,
    /// The plugin's current configuration.
    pub config: serde_json::Value,
    /// The hooks the manifest asks to receive.
    pub hooks: Vec<String>,
}

/// How the host's half of an enable went.
pub enum EnableOutcome {
    /// The module could not be opened or was missing an entry point.
    LoadFailed(LoaderError),
    /// The module was opened but `initialize` failed; the host must have
    /// released the module again (rollback).
    InitFailed(String),
    /// The module was opened and `initialize` returned success.
    Initialized,
}

/// The orchestrator: one loader table, one registry, one dispatcher.
pub struct PluginManager {
    loader: PluginLoader,
    registry: PluginRegistry,
    hooks: HookDispatcher,
}

impl PluginManager {
    /// The registry's ids are unique, the dispatcher's maps mirror each
    /// other, and hook subscriptions exist only for loaded plugins.
    pub closed spec fn wf(self) -> bool {
        &&& self.registry.wf()
        &&& self.loader.wf()
        &&& self.hooks.wf()
        &&& forall|h: Seq<char>, p: Seq<char>|
            self.hooks.subscribed(h, p) ==> self.loader.loaded_spec(p)
    }

    /// True when a plugin with this id is registered.
    pub closed spec fn registered(self, id: Seq<char>) -> bool {
        self.registry.has_id(id)
    }

    /// True when the plugin is registered and flagged enabled.
    pub open spec fn enabled(self, id: Seq<char>) -> bool {
        self.registered(id) && self.entry_of(id).enabled
    }

    /// True when the loader table holds the plugin.
    pub closed spec fn loaded(self, id: Seq<char>) -> bool {
        self.loader.loaded_spec(id)
    }

    /// True when the plugin is subscribed to the hook.
    pub closed spec fn subscribed(self, hook: Seq<char>, id: Seq<char>) -> bool {
        self.hooks.subscribed(hook, id)
    }

    /// The registry entry for a registered id.
    pub closed spec fn entry_of(self, id: Seq<char>) -> PluginEntry {
        self.registry.entry_of(id)
    }

    /// The registry this manager wraps.
    pub closed spec fn reg(self) -> PluginRegistry {
        self.registry
    }

    /// Every plugin id is flagged enabled exactly when its module is loaded.
    pub open spec fn consistent(self) -> bool {
        forall|id: Seq<char>| #![trigger self.enabled(id)] #![trigger self.loaded(id)]
            self.enabled(id) <==> self.loaded(id)
    }

    /// Wraps a freshly scanned registry; nothing is loaded or subscribed yet.
    /// Restoring the plugins flagged enabled is the host's next step, through
    /// `enabled_plugin_ids` and the enable protocol.
    pub fn new(registry: PluginRegistry) -> (r: PluginManager)
        requires
            registry.wf(),
        ensures
            r.wf(),
            r.reg() == registry,
            forall|id: Seq<char>| !r.loaded(id),
            forall|h: Seq<char>, p: Seq<char>| !r.subscribed(h, p),
    {
        PluginManager { loader: PluginLoader::new(), registry, hooks: HookDispatcher::new() }
    }

    /// The ids currently flagged enabled, for startup restoration and
    /// teardown.
    pub fn enabled_plugin_ids(&self) -> (r: Vec<String>)
        requires
            self.wf(),
        ensures
            distinct_strs(r@),
            forall|x: Seq<char>| seq_has_str(r@, x) <==> self.enabled(x),
    {
        let r = self.registry.enabled_plugins();
        proof {
            assert forall|x: Seq<char>| seq_has_str(r@, x) <==> self.enabled(x) by {
                assert(self.enabled(x) == self.registry.enabled_of(x));
            }
        }
        r
    }

    /// The ids whose modules are currently loaded.
    pub fn loaded_plugin_ids(&self) -> (r: Vec<String>)
        requires
            self.wf(),
        ensures
            distinct_strs(r@),
            forall|x: Seq<char>| seq_has_str(r@, x) <==> self.loaded(x),
    {
        self.loader.loaded_plugins()
    }

    /// Whether the plugin's module is currently loaded.
    pub fn is_loaded(&self, plugin_id: &str) -> (r: bool)
        ensures
            r == self.loaded(plugin_id@),
    {
        self.loader.is_loaded(plugin_id)
    }

    /// Forces the registry flag back to disabled after a failed restore, so
    /// no plugin stays marked enabled without being loaded. Absent ids are
    /// ignored.
    pub fn force_disable(&mut self, plugin_id: &str)
        requires
            old(self).wf(),
        ensures
            final(self).wf(),
            !final(self).enabled(plugin_id@),
            final(self).registered(plugin_id@) == old(self).registered(plugin_id@),
            forall|x: Seq<char>|
                #![trigger final(self).registered(x)]
                x != plugin_id@ ==> final(self).registered(x) == old(self).registered(x) && (old(self).registered(x) ==> final(self).entry_of(x) == old(self).entry_of(x)),
            forall|x: Seq<char>| final(self).enabled(x) == (old(self).enabled(x) && x != plugin_id@),
            forall|x: Seq<char>| final(self).loaded(x) == old(self).loaded(x),
            forall|h: Seq<char>, p: Seq<char>|
                final(self).subscribed(h, p) == old(self).subscribed(h, p),
            old(self).consistent() && !old(self).loaded(plugin_id@) ==> final(self).consistent(),
    {
        let _ = self.registry.set_enabled(plugin_id, false);
        proof {
            assert forall|x: Seq<char>|
                final(self).enabled(x) == (old(self).enabled(x) && x != plugin_id@) by {}
        }
    }

    /// Decides an enable: the id must be registered and the host must have
    /// found the module file. On success the host opens the module, creates
    /// the data directory, initializes the plugin with this ticket's context,
    /// and reports back through `enable_finish`.
    pub fn enable_begin(&self, plugin_id: &str, module_exists: bool) -> (r: Result<
        EnableTicket,
        ManagerError,
    >)
        requires
            self.wf(),
        ensures
            r is Ok <==> (self.registered(plugin_id@) && module_exists),
            match r {
                Ok(t) => {
                    &&& t.plugin_id@ == plugin_id@
                    &&& t.lib_path@ == self.entry_of(plugin_id@).lib_path@
                    &&& t.data_dir@ == self.entry_of(plugin_id@).dir@ + "/data"@
                    &&& t.config == self.entry_of(plugin_id@).config
                    &&& t.hooks@.len() == self.entry_of(plugin_id@).manifest.hooks@.len()
                    &&& forall|i: int|
                        0 <= i < t.hooks@.len() ==> #[trigger] t.hooks@[i]@ == self.entry_of(
                            plugin_id@,
                        ).manifest.hooks@[i]@
                },
                Err(e) => if !self.registered(plugin_id@) {
                    e matches ManagerError::Registry(re) && re matches
                        RegistryError::PluginNotFound(p) && p@ == plugin_id@
                } else {
                    e matches ManagerError::LibraryNotFound(p) && p@ == self.entry_of(
                        plugin_id@,
                    ).lib_path@
                },
            },
    {
        let entry = match self.registry.get(plugin_id) {
            Ok(e) => e,
            Err(e) => {
                return Err(ManagerError::Registry(e));
            },
        };
        if !module_exists {
            return Err(ManagerError::LibraryNotFound(entry.lib_path.clone()));
        }
        let mut data_dir = entry.dir.clone();
        data_dir.append("/data");
        Ok(
            EnableTicket {
                plugin_id: plugin_id.to_owned(),
                lib_path: entry.lib_path.clone(),
                data_dir,
                config: value_clone(&entry.config),
                hooks: clone_strs(&entry.manifest.hooks),
            },
        )
    }

    /// Records the host's half of an enable. On `Initialized` the plugin
    /// becomes loaded, its manifest hooks are subscribed, and the registry
    /// flag goes to enabled. On `InitFailed` the loader table holds no entry
    /// for the id afterwards — the rollback — its subscriptions are cleared,
    /// and the flag goes to disabled, so the flag and the table agree again.
    /// On `LoadFailed` nothing changes.
    pub fn enable_finish(&mut self, plugin_id: &str, outcome: EnableOutcome) -> (r: Result<
        (),
        ManagerError,
    >)
        requires
            old(self).wf(),
        ensures
            final(self).wf(),
            !old(self).registered(plugin_id@) ==> *final(self) == *old(self) && (r matches Err(e)
                && e matches ManagerError::Registry(re) && re matches
                RegistryError::PluginNotFound(p) && p@ == plugin_id@),
            old(self).registered(plugin_id@) ==> match outcome {
                EnableOutcome::LoadFailed(le) => *final(self) == *old(self) && (r matches Err(e)
                    && e matches ManagerError::Loader(x) && x == le),
                EnableOutcome::InitFailed(m) => {
                    &&& !final(self).loaded(plugin_id@)
                    &&& forall|x: Seq<char>|
                        x != plugin_id@ ==> final(self).loaded(x) == old(self).loaded(x)
                    &&& !final(self).enabled(plugin_id@)
                    &&& forall|x: Seq<char>|
                        #![trigger final(self).registered(x)]
                        final(self).registered(x) == old(self).registered(x) && (x != plugin_id@
                            && old(self).registered(x) ==> final(self).entry_of(x) == old(self).entry_of(x))
                    &&& final(self).entry_of(plugin_id@) == PluginEntry {
                        enabled: false,
                        ..old(self).entry_of(plugin_id@)
                    }
                    &&& forall|h: Seq<char>, p: Seq<char>|
                        final(self).subscribed(h, p) == (old(self).subscribed(h, p) && p
                            != plugin_id@)
                    &&& r matches Err(e) && e matches ManagerError::Loader(le) && (le matches
                        LoaderError::InitializeFailed(im) && im@ == m@)
                },
                EnableOutcome::Initialized => {
                    &&& r is Ok
                    &&& forall|x: Seq<char>|
                        final(self).loaded(x) == (old(self).loaded(x) || x == plugin_id@)
                    &&& forall|x: Seq<char>|
                        final(self).enabled(x) == (old(self).enabled(x) || x == plugin_id@)
                    &&& forall|x: Seq<char>|
                        #![trigger final(self).registered(x)]
                        final(self).registered(x) == old(self).registered(x) && (x != plugin_id@
                            && old(self).registered(x) ==> final(self).entry_of(x) == old(self).entry_of(x))
                    &&& final(self).entry_of(plugin_id@) == PluginEntry {
                        enabled: true,
                        ..old(self).entry_of(plugin_id@)
                    }
                    &&& forall|h: Seq<char>, p: Seq<char>|
                        final(self).subscribed(h, p) == (old(self).subscribed(h, p) || (p
                            == plugin_id@ && seq_has_str(
                            old(self).entry_of(plugin_id@).manifest.hooks@,
                            h,
                        )))
                },
            },
            old(self).consistent() ==> final(self).consistent(),
    {
        let ghost pre = *self;
        if !self.registry.contains_id(plugin_id) {
            return Err(
                ManagerError::Registry(RegistryError::PluginNotFound(plugin_id.to_owned())),
            );
        }
        match outcome {
            EnableOutcome::LoadFailed(le) => Err(ManagerError::Loader(le)),
            EnableOutcome::InitFailed(m) => {
                // roll the load back: the host has released the module, so
                // neither the table nor the dispatcher may keep the id, and
                // the flag goes to disabled so no plugin stays marked
                // enabled without being loaded
                let _ = self.loader.unload(plugin_id);
                self.hooks.unregister_all(plugin_id);
                let _ = self.registry.set_enabled(plugin_id, false);
                proof {
                    if pre.consistent() {
                        assert forall|x: Seq<char>|
                            #![trigger self.enabled(x)]
                            #![trigger self.loaded(x)]
                            self.enabled(x) <==> self.loaded(x) by {
                            assert(pre.enabled(x) <==> pre.loaded(x));
                            if x == plugin_id@ {
                                assert(!self.loader.loaded_spec(x));
                                assert(!self.registry.enabled_of(x));
                            } else {
                                assert(self.registry.enabled_of(x)
                                    == pre.registry.enabled_of(x));
                            }
                        }
                        assert(self.consistent());
                    }
                }
                Err(ManagerError::Loader(LoaderError::InitializeFailed(m)))
            },
            EnableOutcome::Initialized => {
                self.loader.record_load(plugin_id);
                let hooks_list = match self.registry.get(plugin_id) {
                    Ok(e) => clone_strs(&e.manifest.hooks),
                    Err(_) => {
                        proof {
                            assert(false);
                        }
                        Vec::new()
                    },
                };
                self.hooks.register_many(&hooks_list, plugin_id);
                let _ = self.registry.set_enabled(plugin_id, true);
                proof {
                    if pre.consistent() {
                        assert forall|x: Seq<char>|
                            #![trigger self.enabled(x)]
                            #![trigger self.loaded(x)]
                            self.enabled(x) <==> self.loaded(x) by {
                            assert(pre.enabled(x) <==> pre.loaded(x));
                            assert(self.loader.loaded_spec(x) == (pre.loader.loaded_spec(x) || x
                                == plugin_id@));
                            if x == plugin_id@ {
                                assert(self.registry.has_id(x));
                                assert(self.registry.entry_of(x).enabled);
                            } else {
                                assert(self.registry.enabled_of(x)
                                    == pre.registry.enabled_of(x));
                            }
                        }
                        assert(self.consistent());
                    }
                }
                Ok(())
            },
        }
    }
}

impl PluginManager {
    /// First half of a disable: every hook subscription of the plugin is
    /// dropped — even when it was already disabled — and the host learns
    /// whether it must call the module's shutdown entry point.
    pub fn disable_begin(&mut self, plugin_id: &str) -> (needs_shutdown: bool)
        requires
            old(self).wf(),
        ensures
            final(self).wf(),
            needs_shutdown == old(self).loaded(plugin_id@),
            forall|h: Seq<char>, p: Seq<char>|
                final(self).subscribed(h, p) == (old(self).subscribed(h, p) && p != plugin_id@),
            final(self).reg() == old(self).reg(),
            forall|x: Seq<char>|
                #![trigger final(self).registered(x)]
                final(self).registered(x) == old(self).registered(x) && (old(self).registered(x)
                    ==> final(self).entry_of(x) == old(self).entry_of(x)),
            forall|x: Seq<char>| final(self).enabled(x) == old(self).enabled(x),
            forall|x: Seq<char>| final(self).loaded(x) == old(self).loaded(x),
            old(self).consistent() ==> final(self).consistent(),
    {
        self.hooks.unregister_all(plugin_id);
        proof {
            assert(self.registry == old(self).registry);
            assert forall|x: Seq<char>|
                #![trigger self.registered(x)]
                self.registered(x) == old(self).registered(x) && (old(self).registered(x)
                    ==> self.entry_of(x) == old(self).entry_of(x)) by {
                assert(self.registry.has_id(x) == old(self).registry.has_id(x));
            }
            if old(self).consistent() {
                assert forall|x: Seq<char>|
                    #![trigger self.enabled(x)]
                    #![trigger self.loaded(x)]
                    self.enabled(x) <==> self.loaded(x) by {
                    assert(old(self).enabled(x) <==> old(self).loaded(x));
                    assert(self.registry == old(self).registry);
                }
                assert(self.consistent());
            }
        }
        self.loader.is_loaded(plugin_id)
    }

    /// Second half of a disable. When the host reports a shutdown failure
    /// the module stays loaded and flagged, as the error aborts the
    /// operation; otherwise the module leaves the loader table and the
    /// registry flag goes to disabled. An unregistered id is an error either
    /// way, after the table was cleaned.
    pub fn disable_finish(&mut self, plugin_id: &str, shutdown_error: Option<String>) -> (r:
        Result<(), ManagerError>)
        requires
            old(self).wf(),
        ensures
            final(self).wf(),
            forall|h: Seq<char>, p: Seq<char>|
                final(self).subscribed(h, p) == (old(self).subscribed(h, p) && p != plugin_id@),
            match shutdown_error {
                Some(m) => {
                    &&& final(self).reg() == old(self).reg()
                    &&& forall|x: Seq<char>|
                        #![trigger final(self).registered(x)]
                        final(self).registered(x) == old(self).registered(x) && (old(self).registered(
                            x,
                        ) ==> final(self).entry_of(x) == old(self).entry_of(x))
                    &&& forall|x: Seq<char>| final(self).enabled(x) == old(self).enabled(x)
                    &&& forall|x: Seq<char>| final(self).loaded(x) == old(self).loaded(x)
                    &&& r matches Err(e) && e matches ManagerError::Loader(le) && (le matches
                        LoaderError::ShutdownFailed(sm) && sm@ == m@)
                },
                None => {
                    &&& !final(self).loaded(plugin_id@)
                    &&& forall|x: Seq<char>|
                        x != plugin_id@ ==> final(self).loaded(x) == old(self).loaded(x)
                    &&& forall|x: Seq<char>|
                        #![trigger final(self).registered(x)]
                        final(self).registered(x) == old(self).registered(x) && (x != plugin_id@
                            && old(self).registered(x) ==> final(self).entry_of(x) == old(self).entry_of(x))
                    &&& if old(self).registered(plugin_id@) {
                        r is Ok && !final(self).enabled(plugin_id@) && final(self).entry_of(
                            plugin_id@,
                        ) == PluginEntry { enabled: false, ..old(self).entry_of(plugin_id@) }
                    } else {
                        r matches Err(e) && e matches ManagerError::Registry(re) && (re matches
                            RegistryError::PluginNotFound(p) && p@ == plugin_id@)
                    }
                },
            },
            old(self).consistent() && shutdown_error is None ==> final(self).consistent(),
            old(self).consistent() && shutdown_error is Some ==> final(self).consistent(),
    {
        let ghost pre = *self;
        self.hooks.unregister_all(plugin_id);
        match shutdown_error {
            Some(m) => {
                proof {
                    if pre.consistent() {
                        assert forall|x: Seq<char>|
                            #![trigger self.enabled(x)]
                            #![trigger self.loaded(x)]
                            self.enabled(x) <==> self.loaded(x) by {
                            assert(pre.enabled(x) <==> pre.loaded(x));
                            assert(self.registry == pre.registry);
                        }
                        assert(self.consistent());
                    }
                }
                Err(ManagerError::Loader(LoaderError::ShutdownFailed(m)))
            },
            None => {
                let _ = self.loader.unload(plugin_id);
                let set_result = self.registry.set_enabled(plugin_id, false);
                proof {
                    if pre.consistent() {
                        assert forall|x: Seq<char>|
                            #![trigger self.enabled(x)]
                            #![trigger self.loaded(x)]
                            self.enabled(x) <==> self.loaded(x) by {
                            assert(pre.enabled(x) <==> pre.loaded(x));
                            if x == plugin_id@ {
                                assert(!self.loader.loaded_spec(x));
                                assert(!self.registry.enabled_of(x));
                            } else {
                                assert(self.registry.enabled_of(x)
                                    == pre.registry.enabled_of(x));
                            }
                        }
                        assert(self.consistent());
                    }
                }
                match set_result {
                    Ok(()) => Ok(()),
                    Err(e) => Err(ManagerError::Registry(e)),
                }
            },
        }
    }

    /// Removes the plugin from the registry and hands the host the directory
    /// it must delete. The host runs the disable protocol first, ignoring
    /// its errors — uninstall is best effort about shutdown — and by now
    /// must drop the module handle whatever shutdown said, as the files are
    /// about to go; so the id also leaves the loader table and the
    /// dispatcher here.
    pub fn uninstall_finish(&mut self, plugin_id: &str) -> (r: Result<String, ManagerError>)
        requires
            old(self).wf(),
        ensures
            final(self).wf(),
            match r {
                Ok(dir) => {
                    &&& old(self).registered(plugin_id@)
                    &&& dir@ == old(self).entry_of(plugin_id@).dir@
                    &&& !final(self).registered(plugin_id@)
                    &&& forall|x: Seq<char>|
                        #![trigger final(self).registered(x)]
                        final(self).registered(x) == (old(self).registered(x) && x != plugin_id@)
                            && (x != plugin_id@ && old(self).registered(x) ==> final(self).entry_of(x) == old(self).entry_of(x))
                    &&& !final(self).loaded(plugin_id@)
                    &&& forall|x: Seq<char>|
                        x != plugin_id@ ==> final(self).loaded(x) == old(self).loaded(x)
                    &&& forall|h: Seq<char>, p: Seq<char>|
                        final(self).subscribed(h, p) == (old(self).subscribed(h, p) && p
                            != plugin_id@)
                },
                Err(e) => !old(self).registered(plugin_id@) && *final(self) == *old(self) && (
                e matches ManagerError::Registry(re) && re matches RegistryError::PluginNotFound(
                    p,
                ) && p@ == plugin_id@),
            },
            old(self).consistent() ==> final(self).consistent(),
    {
        let dir = match self.registry.get(plugin_id) {
            Ok(e) => e.dir.clone(),
            Err(e) => {
                return Err(ManagerError::Registry(e));
            },
        };
        match self.registry.unregister(plugin_id) {
            Ok(()) => {
                self.hooks.unregister_all(plugin_id);
                let _ = self.loader.unload(plugin_id);
                proof {
                    if old(self).consistent() {
                        assert forall|x: Seq<char>|
                            #![trigger self.enabled(x)]
                            #![trigger self.loaded(x)]
                            self.enabled(x) <==> self.loaded(x) by {
                            assert(old(self).enabled(x) <==> old(self).loaded(x));
                            if x != plugin_id@ {
                                assert(self.registry.enabled_of(x) == old(self).registry.enabled_of(x));
                            } else {
                                assert(!self.registry.has_id(x));
                                assert(!self.loader.loaded_spec(x));
                            }
                        }
                        assert(self.consistent());
                    }
                }
                Ok(dir)
            },
            Err(e) => Err(ManagerError::Registry(e)),
        }
    }

    /// Decides an install for a manifest already read out of the package:
    /// whether an existing copy must be uninstalled first, and the directory
    /// the host must extract into.
    pub fn install_begin(&self, manifest_id: &str) -> (r: (bool, String))
        requires
            self.wf(),
        ensures
            r.0 == self.registered(manifest_id@),
            r.1@ == self.reg().plugins_dir@ + "/"@ + manifest_id@,
    {
        let replace = self.registry.contains_id(manifest_id);
        let mut dir = self.registry.plugins_dir.clone();
        dir.append("/");
        dir.append(manifest_id);
        (replace, dir)
    }

    /// Registers the freshly extracted plugin, disabled and with an empty
    /// configuration.
    pub fn install_finish(&mut self, manifest: PluginManifest, plugin_dir: String) -> (r: Result<
        PluginInfo,
        ManagerError,
    >)
        requires
            old(self).wf(),
        ensures
            final(self).wf(),
            forall|h: Seq<char>, p: Seq<char>|
                final(self).subscribed(h, p) == old(self).subscribed(h, p),
            forall|x: Seq<char>| final(self).loaded(x) == old(self).loaded(x),
            match r {
                Ok(info) => {
                    &&& !old(self).registered(manifest.id@)
                    &&& forall|x: Seq<char>|
                        #![trigger final(self).registered(x)]
                        final(self).registered(x) == (old(self).registered(x) || x == manifest.id@)
                            && (x != manifest.id@ && old(self).registered(x) ==> final(self).entry_of(x) == old(self).entry_of(x))
                    &&& final(self).entry_of(manifest.id@).manifest == manifest
                    &&& final(self).entry_of(manifest.id@).enabled == false
                    &&& final(self).entry_of(manifest.id@).dir@ == plugin_dir@
                    &&& info_matches(info, final(self).entry_of(manifest.id@))
                    &&& !final(self).enabled(manifest.id@)
                },
                Err(e) => old(self).registered(manifest.id@) && *final(self) == *old(self) && (
                e matches ManagerError::Registry(re) && re matches RegistryError::PluginExists(p)
                    && p@ == manifest.id@),
            },
            old(self).consistent() && !old(self).loaded(manifest.id@) ==> final(self).consistent(),
    {
        let ghost mid = manifest.id@;
        match self.registry.register(manifest, plugin_dir) {
            Ok(info) => {
                proof {
                    if old(self).consistent() && !old(self).loaded(mid) {
                        assert forall|x: Seq<char>|
                            #![trigger self.enabled(x)]
                            #![trigger self.loaded(x)]
                            self.enabled(x) <==> self.loaded(x) by {
                            assert(old(self).enabled(x) <==> old(self).loaded(x));
                            if x == mid {
                                assert(!self.registry.entry_of(x).enabled);
                            } else {
                                assert(self.registry.enabled_of(x) == old(self).registry.enabled_of(x));
                            }
                        }
                        assert(self.consistent());
                    }
                }
                Ok(info)
            },
            Err(e) => Err(ManagerError::Registry(e)),
        }
    }

    /// The admission test in front of tool execution: a tool may only run
    /// against a currently loaded plugin, and a disabled plugin yields this
    /// error without any native call being possible.
    pub fn execute_tool_begin(&self, plugin_id: &str) -> (r: Result<(), ManagerError>)
        ensures
            r is Ok <==> self.loaded(plugin_id@),
            r matches Err(e) ==> e matches ManagerError::PluginNotEnabled(p) && p@ == plugin_id@,
    {
        if self.loader.is_loaded(plugin_id) {
            Ok(())
        } else {
            Err(ManagerError::PluginNotEnabled(plugin_id.to_owned()))
        }
    }

    /// The current subscribers of a hook, in no promised order.
    pub fn hook_listeners(&self, hook_name: &str) -> (r: Vec<String>)
        requires
            self.wf(),
        ensures
            distinct_strs(r@),
            forall|p: Seq<char>| seq_has_str(r@, p) <==> self.subscribed(hook_name@, p),
    {
        self.hooks.get_listeners(hook_name)
    }

    /// The runtime summary of one plugin.
    pub fn get(&self, plugin_id: &str) -> (r: Result<PluginInfo, ManagerError>)
        requires
            self.wf(),
        ensures
            match r {
                Ok(info) => self.registered(plugin_id@) && info_matches(
                    info,
                    self.entry_of(plugin_id@),
                ),
                Err(e) => !self.registered(plugin_id@) && (e matches ManagerError::Registry(re)
                    && re matches RegistryError::PluginNotFound(p) && p@ == plugin_id@),
            },
    {
        match self.registry.get(plugin_id) {
            Ok(e) => Ok(e.to_info()),
            Err(e) => Err(ManagerError::Registry(e)),
        }
    }

    /// Summaries of every registered plugin.
    pub fn list(&self) -> (r: Vec<PluginInfo>)
        ensures
            r@.len() == self.reg().entries@.len(),
            forall|i: int|
                0 <= i < r@.len() ==> info_matches(#[trigger] r@[i], self.reg().entries@[i]),
    {
        self.registry.list()
    }

    /// Listing reflects registration: every entry the catalog holds belongs
    /// to a registered id and is the entry that id resolves to, every
    /// registered id appears among the entries, and no id appears twice.
    /// This ties `list`, stated positionally over the entries, to the
    /// lifecycle operations, stated over `registered` and `entry_of`.
    pub proof fn lemma_list_reflects_registry(self)
        requires
            self.wf(),
        ensures
            forall|i: int|
                #![trigger self.reg().entries@[i]]
                0 <= i < self.reg().entries@.len() ==> self.registered(
                    self.reg().entries@[i].manifest.id@,
                ) && self.entry_of(self.reg().entries@[i].manifest.id@)
                    == self.reg().entries@[i],
            forall|x: Seq<char>|
                self.registered(x) ==> exists|i: int|
                    0 <= i < self.reg().entries@.len() && (#[trigger] self.reg().entries@[
                    i]).manifest.id@ == x,
            forall|i: int, j: int|
                0 <= i < j < self.reg().entries@.len() ==> self.reg().entries@[i].manifest.id@
                    != self.reg().entries@[j].manifest.id@,
    {
        assert forall|i: int|
            0 <= i < self.reg().entries@.len() implies self.registered(
            #[trigger] self.reg().entries@[i].manifest.id@,
        ) && self.entry_of(self.reg().entries@[i].manifest.id@) == self.reg().entries@[i] by {
            self.registry.lemma_entry_at(i);
        }
        assert forall|x: Seq<char>| self.registered(x) implies exists|i: int|
            0 <= i < self.reg().entries@.len() && (#[trigger] self.reg().entries@[
            i]).manifest.id@ == x by {
            let i = self.registry.idx_of(x);
            assert(self.reg().entries@[i].manifest.id@ == x);
        }
    }

    /// Replaces a plugin's configuration.
    pub fn set_config(&mut self, plugin_id: &str, config: serde_json::Value) -> (r: Result<
        (),
        ManagerError,
    >)
        requires
            old(self).wf(),
        ensures
            final(self).wf(),
            forall|h: Seq<char>, p: Seq<char>|
                final(self).subscribed(h, p) == old(self).subscribed(h, p),
            forall|x: Seq<char>| final(self).loaded(x) == old(self).loaded(x),
            forall|x: Seq<char>| final(self).enabled(x) == old(self).enabled(x),
            match r {
                Ok(()) => old(self).registered(plugin_id@) && final(self).registered(plugin_id@)
                    && final(self).entry_of(plugin_id@) == PluginEntry {
                    config,
                    ..old(self).entry_of(plugin_id@)
                } && (forall|x: Seq<char>|
                    #![trigger final(self).registered(x)]
                    final(self).registered(x) == old(self).registered(x) && (x != plugin_id@
                        && old(self).registered(x) ==> final(self).entry_of(x) == old(self).entry_of(x))),
                Err(e) => !old(self).registered(plugin_id@) && *final(self) == *old(self) && (
                e matches ManagerError::Registry(re) && re matches RegistryError::PluginNotFound(
                    p,
                ) && p@ == plugin_id@),
            },
            old(self).consistent() ==> final(self).consistent(),
    {
        let ghost pre = *self;
        match self.registry.set_config(plugin_id, config) {
            Ok(()) => {
                proof {
                    assert forall|x: Seq<char>|
                        self.enabled(x) == pre.enabled(x) by {
                        if x == plugin_id@ {
                            assert(self.registry.entry_of(x).enabled == pre.registry.entry_of(
                                x,
                            ).enabled);
                        } else {
                            assert(self.registry.enabled_of(x) == pre.registry.enabled_of(x));
                        }
                    }
                    if pre.consistent() {
                        assert forall|x: Seq<char>|
                            #![trigger self.enabled(x)]
                            #![trigger self.loaded(x)]
                            self.enabled(x) <==> self.loaded(x) by {
                            assert(pre.enabled(x) <==> pre.loaded(x));
                            assert(self.enabled(x) == pre.enabled(x));
                        }
                        assert(self.consistent());
                    }
                }
                Ok(())
            },
            Err(e) => Err(ManagerError::Registry(e)),
        }
    }

    /// The full path of a UI file inside a plugin's directory; the host
    /// reads the file.
    pub fn plugin_ui_path(&self, plugin_id: &str, ui_path: &str) -> (r: Result<
        String,
        ManagerError,
    >)
        requires
            self.wf(),
        ensures
            match r {
                Ok(p) => self.registered(plugin_id@) && p@ == self.entry_of(plugin_id@).dir@
                    + "/"@ + ui_path@,
                Err(e) => !self.registered(plugin_id@) && (e matches ManagerError::Registry(re)
                    && re matches RegistryError::PluginNotFound(p) && p@ == plugin_id@),
            },
    {
        match self.registry.get(plugin_id) {
            Ok(e) => {
                let mut p = e.dir.clone();
                p.append("/");
                p.append(ui_path);
                Ok(p)
            },
            Err(e) => Err(ManagerError::Registry(e)),
        }
    }

    /// The plugin's directory and the raw descriptor of one of its declared
    /// windows.
    pub fn get_plugin_window_config(&self, plugin_id: &str, window_name: &str) -> (r: Result<
        (String, serde_json::Value),
        ManagerError,
    >)
        requires
            self.wf(),
        ensures
            r is Ok <==> (self.registered(plugin_id@) && (self.entry_of(
                plugin_id@,
            ).manifest.ui matches Some(u) && (u.windows matches Some(ws)
                && crate::jsonio::json_is_object(ws) && crate::jsonio::json_get(
                ws,
                window_name@,
            ) is Some))),
            match r {
                Ok((dir, w)) => {
                    &&& self.registered(plugin_id@)
                    &&& dir@ == self.entry_of(plugin_id@).dir@
                    &&& self.entry_of(plugin_id@).manifest.ui matches Some(u) && (u.windows
                        matches Some(ws) && crate::jsonio::json_is_object(ws) && crate::jsonio::json_get(
                        ws,
                        window_name@,
                    ) == Some(w))
                },
                Err(e) => if !self.registered(plugin_id@) {
                    e matches ManagerError::Registry(re) && re matches
                        RegistryError::PluginNotFound(p) && p@ == plugin_id@
                } else {
                    e matches ManagerError::InvalidPackage(_)
                },
            },
    {
        let entry = match self.registry.get(plugin_id) {
            Ok(e) => e,
            Err(e) => {
                return Err(ManagerError::Registry(e));
            },
        };
        let ui = match &entry.manifest.ui {
            Some(u) => u,
            None => {
                return Err(
                    ManagerError::InvalidPackage(String::from_str("plugin has no UI declaration")),
                );
            },
        };
        let windows = match &ui.windows {
            Some(w) => w,
            None => {
                return Err(
                    ManagerError::InvalidPackage(
                        String::from_str("plugin declares no windows"),
                    ),
                );
            },
        };
        if !value_is_object(windows) {
            return Err(
                ManagerError::InvalidPackage(
                    String::from_str("plugin window declaration is not an object"),
                ),
            );
        }
        match value_get(windows, window_name) {
            Some(w) => Ok((entry.dir.clone(), value_clone(w))),
            None => Err(
                ManagerError::InvalidPackage(String::from_str("plugin declares no such window")),
            ),
        }
    }

    /// The state text the host persists after every mutating operation.
    pub fn state_json(&self) -> (r: String)
        ensures
            r@ == crate::registry::state_json_spec(self.reg().entries@),
    {
        self.registry.state_json()
    }

    /// Where the state text lives, under the plugins root.
    pub fn state_file_path(&self) -> (r: String)
        ensures
            r@ == self.reg().plugins_dir@ + "/registry.json"@,
    {
        self.registry.state_file_path()
    }

    /// The plugins root directory.
    pub fn plugins_dir(&self) -> (r: &str)
        ensures
            r@ == self.reg().plugins_dir@,
    {
        self.registry.plugins_dir.as_str()
    }

    /// Rebuilds the registry from a fresh scan; the loader table and the
    /// dispatcher keep their state, as only the catalog is re-read.
    pub fn refresh(
        &mut self,
        found: Vec<(String, String)>,
        state_text: Option<&str>,
    ) -> (r: Result<(), ManagerError>)
        requires
            old(self).wf(),
        ensures
            final(self).wf(),
            forall|h: Seq<char>, p: Seq<char>|
                final(self).subscribed(h, p) == old(self).subscribed(h, p),
            forall|x: Seq<char>| final(self).loaded(x) == old(self).loaded(x),
            r is Ok <==> ((state_text matches Some(t) ==> crate::jsonio::json_of(t@) is Some)
                && crate::registry::records_good(
                found@,
                crate::registry::parsed_state(state_text),
            )),
            match r {
                Ok(()) => forall|x: Seq<char>|
                    final(self).registered(x) <==> crate::registry::found_has_id(
                        found@,
                        found@.len() as int,
                        x,
                    ),
                Err(e) => e matches ManagerError::Json(_),
            },
    {
        match self.registry.refresh(found, state_text) {
            Ok(()) => Ok(()),
            Err(e) => match e {
                RegistryError::Json(m) => Err(ManagerError::Json(m)),
                _ => Err(ManagerError::Json(String::new())),
            },
        }
    }

    /// Runtime check of the central invariant: every registered plugin is
    /// flagged enabled exactly when its module is loaded.
    pub fn is_consistent(&self) -> (r: bool)
        requires
            self.wf(),
        ensures
            r == self.consistent(),
    {
        let enabled_ids = self.registry.enabled_plugins();
        proof {
            assert forall|x: Seq<char>|
                seq_has_str(enabled_ids@, x) <==> self.enabled(x) by {
                assert(self.enabled(x) == self.registry.enabled_of(x));
            }
        }
        let mut i: usize = 0;
        while i < enabled_ids.len()
            invariant
                self.wf(),
                i <= enabled_ids@.len(),
                forall|x: Seq<char>| seq_has_str(enabled_ids@, x) <==> self.enabled(x),
                forall|j: int| 0 <= j < i ==> self.loaded(#[trigger] enabled_ids@[j]@),
            decreases enabled_ids@.len() - i,
        {
            if !self.loader.is_loaded(enabled_ids[i].as_str()) {
                proof {
                    assert(seq_has_str(enabled_ids@, enabled_ids@[i as int]@));
                    assert(self.enabled(enabled_ids@[i as int]@));
                    assert(!self.loaded(enabled_ids@[i as int]@));
                }
                return false;
            }
            i += 1;
        }
        let loaded_ids = self.loader.loaded_plugins();
        let mut k: usize = 0;
        while k < loaded_ids.len()
            invariant
                self.wf(),
                k <= loaded_ids@.len(),
                forall|x: Seq<char>| seq_has_str(loaded_ids@, x) <==> self.loaded(x),
                forall|x: Seq<char>| seq_has_str(enabled_ids@, x) <==> self.enabled(x),
                forall|j: int| 0 <= j < enabled_ids@.len() ==> self.loaded(
                    #[trigger] enabled_ids@[j]@,
                ),
                forall|j: int| 0 <= j < k ==> self.enabled(#[trigger] loaded_ids@[j]@),
            decreases loaded_ids@.len() - k,
        {
            let id = loaded_ids[k].as_str();
            let flagged = match self.registry.get(id) {
                Ok(e) => e.enabled,
                Err(_) => false,
            };
            if !flagged {
                proof {
                    assert(seq_has_str(loaded_ids@, loaded_ids@[k as int]@));
                    assert(self.loaded(loaded_ids@[k as int]@));
                    assert(!self.enabled(loaded_ids@[k as int]@));
                }
                return false;
            }
            k += 1;
        }
        proof {
            assert forall|x: Seq<char>| self.enabled(x) <==> self.loaded(x) by {
                if self.enabled(x) {
                    assert(seq_has_str(enabled_ids@, x));
                    let j = choose|j: int|
                        0 <= j < enabled_ids@.len() && enabled_ids@[j]@ == x;
                    assert(self.loaded(x));
                }
                if self.loaded(x) {
                    assert(seq_has_str(loaded_ids@, x));
                    let j = choose|j: int| 0 <= j < loaded_ids@.len() && loaded_ids@[j]@ == x;
                    assert(self.enabled(x));
                }
            }
        }
        true
    }
}

/// Keeps, in order, the responses of the subscribers that answered: a pair
/// per subscriber that returned a value, nothing for those that returned
/// null.
pub open spec fn collected(rs: Seq<(String, Option<serde_json::Value>)>) -> Seq<
    (Seq<char>, serde_json::Value),
>
    decreases rs.len(),
{
    if rs.len() == 0 {
        Seq::empty()
    } else {
        collected(rs.drop_last()) + match rs.last().1 {
            Some(v) => seq![(rs.last().0@, v)],
            None => Seq::empty(),
        }
    }
}

/// The fan-out collector: hook broadcast is fire-and-collect, a subscriber
/// that returned null (or whose call the host dropped as failed) is silently
/// omitted from the result list.
pub fn collect_hook_results(responses: Vec<(String, Option<serde_json::Value>)>) -> (r: Vec<
    HookResult,
>)
    ensures
        r@.len() == collected(responses@).len(),
        forall|i: int|
            0 <= i < r@.len() ==> (#[trigger] r@[i].plugin_id@, r@[i].data) == collected(
                responses@,
            )[i],
{
    let mut out: Vec<HookResult> = Vec::new();
    let mut i: usize = 0;
    while i < responses.len()
        invariant
            i <= responses@.len(),
            out@.len() == collected(responses@.subrange(0, i as int)).len(),
            forall|j: int|
                0 <= j < out@.len() ==> (#[trigger] out@[j].plugin_id@, out@[j].data) == collected(
                    responses@.subrange(0, i as int),
                )[j],
        decreases responses@.len() - i,
    {
        let ghost presub = responses@.subrange(0, i as int);
        let (id, resp) = (&responses[i].0, &responses[i].1);
        match resp {
            Some(v) => {
                out.push(HookResult { plugin_id: id.clone(), data: value_clone(v) });
            },
            None => {},
        }
        proof {
            let sub1 = responses@.subrange(0, i + 1 as int);
            assert(sub1.drop_last() =~= presub);
            assert(sub1.last() == responses@[i as int]);
        }
        i += 1;
    }
    proof {
        assert(responses@.subrange(0, responses@.len() as int) =~= responses@);
    }
    out
}

/// The concatenation of per-plugin tool lists, in order.
pub open spec fn merged_tools(lists: Seq<Vec<ToolDefinition>>) -> Seq<ToolDefinition>
    decreases lists.len(),
{
    if lists.len() == 0 {
        Seq::empty()
    } else {
        merged_tools(lists.drop_last()) + lists.last()@
    }
}

/// Flattens the tool lists the host gathered from each loaded plugin.
pub fn merge_tool_lists(lists: Vec<Vec<ToolDefinition>>) -> (r: Vec<ToolDefinition>)
    ensures
        r@ == merged_tools(lists@),
{
    let mut out: Vec<ToolDefinition> = Vec::new();
    let mut i: usize = 0;
    while i < lists.len()
        invariant
            i <= lists@.len(),
            out@ == merged_tools(lists@.subrange(0, i as int)),
        decreases lists@.len() - i,
    {
        let ghost presub = lists@.subrange(0, i as int);
        let mut j: usize = 0;
        let inner = &lists[i];
        while j < inner.len()
            invariant
                j <= inner@.len(),
                inner@ == lists@[i as int]@,
                i < lists@.len(),
                out@ == merged_tools(lists@.subrange(0, i as int)) + inner@.subrange(0, j as int),
            decreases inner@.len() - j,
        {
            let t = &inner[j];
            out.push(
                ToolDefinition {
                    plugin_id: t.plugin_id.clone(),
                    name: t.name.clone(),
                    description: t.description.clone(),
                    parameters: value_clone(&t.parameters),
                },
            );
            proof {
                assert(inner@.subrange(0, j + 1 as int) =~= inner@.subrange(0, j as int).push(
                    inner@[j as int],
                ));
                assert(out@ =~= merged_tools(lists@.subrange(0, i as int)) + inner@.subrange(
                    0,
                    j + 1 as int,
                ));
            }
            j += 1;
        }
        proof {
            let sub1 = lists@.subrange(0, i + 1 as int);
            assert(sub1.drop_last() =~= presub);
            assert(sub1.last() == lists@[i as int]);
            assert(inner@.subrange(0, inner@.len() as int) =~= inner@);
            assert(out@ =~= merged_tools(sub1));
        }
        i += 1;
    }
    proof {
        assert(lists@.subrange(0, lists@.len() as int) =~= lists@);
    }
    out
}

} // verus!
