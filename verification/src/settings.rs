//! Application settings: their defaults, what is written to the settings
//! file (never the API key, which lives in the system keyring), and how a
//! load combines the file with the keyring.
use vstd::prelude::*;

use crate::text::owned;

verus! {

/// How much the agent may do without asking.
#[derive(Debug, Clone, Copy, PartialEq, Eq, Structural)]
pub enum PermissionLevel {
    /// Risky operations ask for confirmation.
    Default,
    /// Operations run on their own; changes are reviewed.
    Review,
    /// Everything runs without asking.
    Full,
}

impl Default for PermissionLevel {
    fn default() -> (r: Self)
        ensures
            r == PermissionLevel::Default,
    {
        PermissionLevel::Default
    }
}

/// The application settings.
#[derive(Debug)]
pub struct Settings {
    pub api_key: String,
    pub model: String,
    pub permission_level: PermissionLevel,
    pub working_dir: String,
}

/// Settings as (API key, model, permission level, working directory).
pub open spec fn settings_view(s: Settings) -> (Seq<char>, Seq<char>, PermissionLevel, Seq<char>) {
    (s.api_key@, s.model@, s.permission_level, s.working_dir@)
}

/// The default settings: no key, the `deepseek-v4-flash` model, the default
/// permission level, no working directory.
pub open spec fn default_settings() -> (Seq<char>, Seq<char>, PermissionLevel, Seq<char>) {
    (Seq::empty(), "deepseek-v4-flash"@, PermissionLevel::Default, Seq::empty())
}

impl Default for Settings {
    fn default() -> (r: Self)
        ensures
            settings_view(r) == default_settings(),
    {
        Settings {
            api_key: String::new(),
            model: owned("deepseek-v4-flash"),
            permission_level: PermissionLevel::Default,
            working_dir: String::new(),
        }
    }
}

impl Settings {
    /// A copy of the settings.
    pub fn duplicate(&self) -> (r: Settings)
        ensures
            settings_view(r) == settings_view(*self),
    {
        Settings {
            api_key: self.api_key.clone(),
            model: self.model.clone(),
            permission_level: self.permission_level,
            working_dir: self.working_dir.clone(),
        }
    }

    /// What is written to the settings file: everything but the API key,
    /// which is left empty.
    pub fn for_file(&self) -> (r: Settings)
        ensures
            settings_view(r) == (
                Seq::<char>::empty(),
                self.model@,
                self.permission_level,
                self.working_dir@,
            ),
    {
        Settings {
            api_key: String::new(),
            model: self.model.clone(),
            permission_level: self.permission_level,
            working_dir: self.working_dir.clone(),
        }
    }
}

/// What a save does to the keyring entry.
#[derive(Debug)]
pub enum KeyringUpdate {
    /// An empty key removes the stored one.
    Delete,
    /// Any other key is stored.
    Store(String),
}

/// The keyring change a save makes for the given key.
pub fn keyring_update(api_key: &str) -> (r: KeyringUpdate)
    ensures
        r is Delete <==> api_key@.len() == 0,
        r matches KeyringUpdate::Store(k) ==> k@ == api_key@,
{
    if api_key.is_empty() {
        KeyringUpdate::Delete
    } else {
        KeyringUpdate::Store(owned(api_key))
    }
}

/// What was found where the settings file should be.
#[derive(Debug)]
pub enum SettingsFile {
    /// There is no settings file.
    Missing,
    /// The file exists but could not be read.
    Unreadable,
    /// The file was read but is not valid settings.
    Malformed,
    /// The settings the file holds.
    Parsed(Settings),
}

/// The settings a load gives: the file's settings (the defaults when the
/// file is missing, unreadable or malformed), with the keyring's key in
/// place of the stored one when the keyring has one. An unreadable file
/// gives the bare defaults: the keyring is not consulted then.
pub open spec fn loaded_settings_spec(file: SettingsFile, keyring_key: Option<Seq<char>>) -> (
    Seq<char>,
    Seq<char>,
    PermissionLevel,
    Seq<char>,
) {
    let base = match file {
        SettingsFile::Parsed(s) => settings_view(s),
        _ => default_settings(),
    };
    match (file, keyring_key) {
        (SettingsFile::Unreadable, _) => base,
        (_, Some(k)) => (k, base.1, base.2, base.3),
        (_, None) => base,
    }
}

/// Combines what was found on disk with the key read from the keyring.
pub fn loaded_settings(file: SettingsFile, keyring_key: Option<String>) -> (r: Settings)
    ensures
        settings_view(r) == loaded_settings_spec(
            file,
            match keyring_key {
                Some(k) => Some(k@),
                None => None,
            },
        ),
{
    let unreadable = match &file {
        SettingsFile::Unreadable => true,
        _ => false,
    };
    let mut s = match file {
        SettingsFile::Parsed(s) => s,
        _ => Settings::default(),
    };
    if !unreadable {
        match keyring_key {
            Some(k) => {
                s.api_key = k;
            },
            None => {},
        }
    }
    s
}

/// The key the keyring holds after a save of the given key: none for an
/// empty key, else that key.
pub open spec fn keyring_after_save(api_key: Seq<char>) -> Option<Seq<char>> {
    if api_key.len() == 0 {
        None
    } else {
        Some(api_key)
    }
}

/// Saving settings and loading them back gives the same settings: the file
/// holds everything but the key (`file` is what was written, read back),
/// the keyring holds the key.
pub proof fn lemma_save_then_load(s: Settings, file: Settings)
    requires
        settings_view(file) == (
            Seq::<char>::empty(),
            s.model@,
            s.permission_level,
            s.working_dir@,
        ),
    ensures
        loaded_settings_spec(SettingsFile::Parsed(file), keyring_after_save(s.api_key@))
            == settings_view(s),
{
}

} // verus!
