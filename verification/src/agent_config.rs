//! Permission configuration for the notes-automation plugin: which notes
//! operations the user has granted. Everything defaults to denied until the
//! configuration says otherwise.

use vstd::prelude::*;

use crate::jsonio::{json_get, value_as_bool, value_get};
use crate::loader::json_bool_field;

verus! {

/// Permissions over the system notes application.
#[derive(PartialEq, Eq, Structural, Clone, Copy, Debug)]
pub struct NotesPermissions {
    pub read: bool,
    pub create: bool,
    pub edit: bool,
    pub delete: bool,
}

impl Default for NotesPermissions {
    /// Everything denied until the user grants it.
    fn default() -> (r: NotesPermissions)
        ensures
            (!r.read && !r.create && !r.edit && !r.delete),
    {
        NotesPermissions { read: false, create: false, edit: false, delete: false }
    }
}

/// The plugin's whole permission set.
#[derive(PartialEq, Eq, Structural, Clone, Copy, Debug)]
pub struct Permissions {
    pub notes: NotesPermissions,
}

impl Default for Permissions {
    /// Everything denied until the user grants it.
    fn default() -> (r: Permissions)
        ensures
            (!r.notes.read && !r.notes.create && !r.notes.edit && !r.notes.delete),
    {
        Permissions {
            notes: NotesPermissions { read: false, create: false, edit: false, delete: false },
        }
    }
}

/// The `permissions.notes` member of a configuration, when it exists.
pub open spec fn notes_member_of(config: serde_json::Value) -> Option<serde_json::Value> {
    match json_get(config, "permissions"@) {
        None => None,
        Some(p) => json_get(p, "notes"@),
    }
}

/// Whether a configuration declares a complete permission set: all four
/// notes flags present as booleans.
pub open spec fn permissions_shape(config: serde_json::Value) -> bool {
    match notes_member_of(config) {
        None => false,
        Some(n) => json_bool_field(n, "read"@) is Some && json_bool_field(n, "create"@) is Some
            && json_bool_field(n, "edit"@) is Some && json_bool_field(n, "delete"@) is Some,
    }
}

/// True when `p` holds exactly the flags the configuration declares.
pub open spec fn permissions_match(config: serde_json::Value, p: Permissions) -> bool {
    match notes_member_of(config) {
        None => false,
        Some(n) => Some(p.notes.read) == json_bool_field(n, "read"@) && Some(p.notes.create)
            == json_bool_field(n, "create"@) && Some(p.notes.edit) == json_bool_field(n, "edit"@)
            && Some(p.notes.delete) == json_bool_field(n, "delete"@),
    }
}

/// Holds the granted permissions, read once from the plugin's configuration.
pub struct ConfigManager {
    permissions: Permissions,
}

impl ConfigManager {
    /// The permissions currently held.
    pub closed spec fn perms_spec(self) -> Permissions {
        self.permissions
    }

    /// Reads the permission set out of the configuration; an incomplete or
    /// ill-typed declaration falls back to everything denied.
    pub fn new(config: &serde_json::Value) -> (r: ConfigManager)
        ensures
            if permissions_shape(*config) {
                permissions_match(*config, r.perms_spec())
            } else {
                r.perms_spec() == Permissions {
                    notes: NotesPermissions {
                        read: false,
                        create: false,
                        edit: false,
                        delete: false,
                    },
                }
            },
    {
        let fallback = Permissions {
            notes: NotesPermissions { read: false, create: false, edit: false, delete: false },
        };
        let notes_v = match value_get(config, "permissions") {
            Some(p) => match value_get(p, "notes") {
                Some(n) => n,
                None => {
                    return ConfigManager { permissions: fallback };
                },
            },
            None => {
                return ConfigManager { permissions: fallback };
            },
        };
        let read = match value_get(notes_v, "read") {
            Some(f) => match value_as_bool(f) {
                Some(b) => b,
                None => {
                    return ConfigManager { permissions: fallback };
                },
            },
            None => {
                return ConfigManager { permissions: fallback };
            },
        };
        let create = match value_get(notes_v, "create") {
            Some(f) => match value_as_bool(f) {
                Some(b) => b,
                None => {
                    return ConfigManager { permissions: fallback };
                },
            },
            None => {
                return ConfigManager { permissions: fallback };
            },
        };
        let edit = match value_get(notes_v, "edit") {
            Some(f) => match value_as_bool(f) {
                Some(b) => b,
                None => {
                    return ConfigManager { permissions: fallback };
                },
            },
            None => {
                return ConfigManager { permissions: fallback };
            },
        };
        let delete = match value_get(notes_v, "delete") {
            Some(f) => match value_as_bool(f) {
                Some(b) => b,
                None => {
                    return ConfigManager { permissions: fallback };
                },
            },
            None => {
                return ConfigManager { permissions: fallback };
            },
        };
        ConfigManager { permissions: Permissions { notes: NotesPermissions { read, create, edit, delete } } }
    }

    /// The granted permissions.
    pub fn get_permissions(&self) -> (r: Permissions)
        ensures
            r == self.perms_spec(),
    {
        self.permissions
    }

    /// Replaces the granted permissions.
    pub fn update_permissions(&mut self, permissions: Permissions) -> (r: Result<(), String>)
        ensures
            final(self).perms_spec() == permissions,
            r is Ok,
    {
        self.permissions = permissions;
        Ok(())
    }

    /// Whether notes may be read.
    pub fn can_read_notes(&self) -> (r: bool)
        ensures
            r == self.perms_spec().notes.read,
    {
        self.permissions.notes.read
    }

    /// Whether notes may be created.
    pub fn can_create_notes(&self) -> (r: bool)
        ensures
            r == self.perms_spec().notes.create,
    {
        self.permissions.notes.create
    }

    /// Whether notes may be edited.
    pub fn can_edit_notes(&self) -> (r: bool)
        ensures
            r == self.perms_spec().notes.edit,
    {
        self.permissions.notes.edit
    }

    /// Whether notes may be deleted.
    pub fn can_delete_notes(&self) -> (r: bool)
        ensures
            r == self.perms_spec().notes.delete,
    {
        self.permissions.notes.delete
    }
}

} // verus!
