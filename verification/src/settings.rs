//! Named application settings: store keys, schema-version policy, the
//! platform-owned shell preferences, and the migration-chain decisions.
//!
//! Settings files and their backups are **never for secrets**. Use an OS
//! credential store or another purpose-built secrets facility instead.

use vstd::prelude::*;
use vstd::string::StrSliceExecFns;

use crate::text::str_eq;

verus! {

/// A byte allowed in a store key: ASCII lowercase, digit, `-`, or `_`.
pub open spec fn spec_store_key_char(c: char) -> bool {
    ('a' <= c && c <= 'z') || ('0' <= c && c <= '9') || c == '-' || c == '_'
}

/// Whether `key` is a valid store key: non-empty and made of allowed
/// characters only. Uppercase is rejected because the key becomes a filename,
/// and case-insensitive filesystems would let two spellings share one file.
pub open spec fn spec_valid_store_key(key: Seq<char>) -> bool {
    key.len() > 0 && forall|i: int| 0 <= i < key.len() ==> spec_store_key_char(#[trigger] key[i])
}

/// Settings faults the library itself decides.
#[derive(Debug, Clone, PartialEq, Eq)]
pub enum SettingsError {
    /// A key could escape the config directory, or alias another key on a
    /// case-insensitive filesystem.
    InvalidStoreKey(String),
    /// A migration edge required to reach the current schema is absent.
    MissingMigration {
        /// Version reached by the chain.
        found: u32,
        /// Version required by this build.
        current: u32,
    },
    /// A migration edge is invalid.
    InvalidMigrationEdge {
        /// Source schema version.
        from: u32,
        /// Destination schema version.
        to: u32,
    },
}

/// Name of one physical settings store.
///
/// Store identity is the resulting filename, so one filename has exactly one
/// owner and schema, while one schema type may serve several keys.
#[derive(Debug, Clone, PartialEq, Eq, Hash)]
pub struct StoreKey(String);

impl View for StoreKey {
    type V = Seq<char>;

    closed spec fn view(&self) -> Seq<char> {
        self.0@
    }
}

/// Filename stem of the platform-owned shell-preferences store. Reserved: an
/// application store may not claim it.
pub const SHELL_PREFERENCES_KEY: &'static str = "shell-preferences";

/// Whether `key` is a valid store key.
fn valid_store_key(key: &str) -> (valid: bool)
    ensures
        valid == spec_valid_store_key(key@),
{
    let n = key.unicode_len();
    if n == 0 {
        return false;
    }
    let mut i: usize = 0;
    while i < n
        invariant
            n == key@.len(),
            i <= n,
            forall|j: int| 0 <= j < i ==> spec_store_key_char(#[trigger] key@[j]),
        decreases n - i,
    {
        let c = key.get_char(i);
        if !(('a' <= c && c <= 'z') || ('0' <= c && c <= '9') || c == '-' || c == '_') {
            assert(!spec_store_key_char(key@[i as int]));
            return false;
        }
        i = i + 1;
    }
    true
}

impl StoreKey {
    /// Conventional primary application settings store (`settings.toml`).
    #[allow(non_snake_case)]
    pub fn PRIMARY() -> (key: Self)
        ensures
            key@ == "settings"@,
    {
        StoreKey("settings".to_owned())
    }

    /// Create a named store key: ASCII lowercase letters, digits, `-`, and `_`
    /// only, and not empty.
    pub fn new(key: &str) -> (result: Result<Self, SettingsError>)
        ensures
            match result {
                Ok(store) => spec_valid_store_key(key@) && store@ == key@,
                Err(SettingsError::InvalidStoreKey(raw)) => !spec_valid_store_key(key@) && raw@
                    == key@,
                Err(_) => false,
            },
    {
        if valid_store_key(key) {
            Ok(StoreKey(key.to_owned()))
        } else {
            Err(SettingsError::InvalidStoreKey(key.to_owned()))
        }
    }

    /// Bare key without the `.toml` suffix.
    pub fn as_str(&self) -> (text: &str)
        ensures
            text@ == self@,
    {
        self.0.as_str()
    }

    /// The store's file name: the key and `.toml`.
    pub fn filename(&self) -> (name: String)
        ensures
            name@ == self@ + ".toml"@,
    {
        let mut name = self.0.clone();
        name.append(".toml");
        name
    }
}

/// The key of the platform-owned shell-preferences store.
pub fn shell_preferences_key() -> (key: StoreKey)
    ensures
        key@ == "shell-preferences"@,
{
    StoreKey(SHELL_PREFERENCES_KEY.to_owned())
}

/// Whether `key` is the reserved shell-preferences key.
pub fn is_shell_preferences_key(key: &StoreKey) -> (reserved: bool)
    ensures
        reserved == (key@ == "shell-preferences"@),
{
    str_eq(key.0.as_str(), SHELL_PREFERENCES_KEY)
}

/// Behavior when disk contains a schema newer than this build understands.
#[derive(Debug, Clone, Copy, PartialEq, Eq)]
#[non_exhaustive]
pub enum FutureVersionPolicy {
    /// Preserve the file byte-for-byte and reject every update (default).
    RefuseToWrite,
    /// Load defaults and allow a later explicit update to replace the file.
    Overwrite,
}

impl Default for FutureVersionPolicy {
    fn default() -> (policy: Self)
        ensures
            policy == FutureVersionPolicy::RefuseToWrite,
    {
        FutureVersionPolicy::RefuseToWrite
    }
}

/// Persisted shell theme preference.
#[derive(Debug, Clone, Copy, PartialEq, Eq)]
pub enum ThemeMode {
    /// Follow the operating-system appearance.
    System,
    /// Force light appearance.
    Light,
    /// Force dark appearance.
    Dark,
}

impl Default for ThemeMode {
    fn default() -> (mode: Self)
        ensures
            mode == ThemeMode::System,
    {
        ThemeMode::System
    }
}

impl ThemeMode {
    /// The persisted spelling: `system`, `light`, or `dark`.
    pub fn as_str(self) -> (text: &'static str)
        ensures
            text@ == match self {
                ThemeMode::System => "system"@,
                ThemeMode::Light => "light"@,
                ThemeMode::Dark => "dark"@,
            },
    {
        match self {
            ThemeMode::System => "system",
            ThemeMode::Light => "light",
            ThemeMode::Dark => "dark",
        }
    }
}

/// Platform-owned theme and locale preferences.
///
/// This settings file and its backups are **never for secrets**.
#[derive(Debug, Clone, PartialEq, Eq)]
pub struct ShellPreferences {
    /// System/light/dark appearance mode.
    pub theme_mode: ThemeMode,
    /// Selected named theme, if any.
    pub theme_name: Option<String>,
    /// Selected locale, if any.
    pub locale: Option<String>,
}

impl Default for ShellPreferences {
    fn default() -> (preferences: Self)
        ensures
            preferences.theme_mode == ThemeMode::System,
            preferences.theme_name is None,
            preferences.locale is None,
    {
        ShellPreferences { theme_mode: ThemeMode::System, theme_name: None, locale: None }
    }
}

impl ShellPreferences {
    /// Current on-disk schema version of the shell-preferences store.
    pub fn schema_version() -> (version: u32)
        ensures
            version == 1,
    {
        1
    }
}

// ---------------------------------------------------------------------------
// The migration chain.
// ---------------------------------------------------------------------------

/// The next step when walking registered migration edges from `version`
/// toward `current`.
#[derive(Debug, Clone, Copy, PartialEq, Eq)]
pub enum MigrationStep {
    /// The document is at the current version.
    Done,
    /// Run edge `index` next.
    Apply(usize),
    /// No edge leaves `version`.
    Missing,
    /// The first edge leaving `version` does not move strictly forward within
    /// the current version.
    Invalid(usize),
}

/// The first edge leaving `version`, at or after `from`.
pub open spec fn first_edge_from(edges: Seq<(u32, u32)>, version: u32, from: int) -> Option<int>
    decreases edges.len() - from,
{
    if from < 0 || from >= edges.len() {
        None
    } else if edges[from].0 == version {
        Some(from)
    } else {
        first_edge_from(edges, version, from + 1)
    }
}

/// The decision at `version`: done at the current version; otherwise the
/// first registered edge leaving it, which must move strictly forward and not
/// past `current`.
pub open spec fn spec_next_migration(edges: Seq<(u32, u32)>, version: u32, current: u32) -> MigrationStep {
    if version >= current {
        MigrationStep::Done
    } else {
        match first_edge_from(edges, version, 0) {
            None => MigrationStep::Missing,
            Some(i) => if edges[i].1 <= edges[i].0 || edges[i].1 > current {
                MigrationStep::Invalid(i as usize)
            } else {
                MigrationStep::Apply(i as usize)
            },
        }
    }
}

proof fn lemma_first_edge_from_is_the_first(edges: Seq<(u32, u32)>, version: u32, from: int)
    requires
        0 <= from,
    ensures
        match first_edge_from(edges, version, from) {
            Some(i) => from <= i < edges.len() && edges[i].0 == version && forall|j: int|
                from <= j < i ==> (#[trigger] edges[j]).0 != version,
            None => forall|j: int| from <= j < edges.len() ==> (#[trigger] edges[j]).0 != version,
        },
    decreases edges.len() - from,
{
    if from < edges.len() && edges[from].0 != version {
        lemma_first_edge_from_is_the_first(edges, version, from + 1);
    }
}

/// Below the current version, the decision names the first registered edge
/// whose source is `version`, whatever order the edges were registered in,
/// and is `Missing` exactly when no edge leaves `version`. An applied edge
/// moves strictly forward and not past `current`; a named edge that does not
/// is reported invalid. At or above the current version the walk is done.
pub proof fn lemma_migration_follows_the_first_edge_leaving_the_version(
    edges: Seq<(u32, u32)>,
    version: u32,
    current: u32,
)
    ensures
        version >= current ==> spec_next_migration(edges, version, current) == MigrationStep::Done,
        version < current ==> (spec_next_migration(edges, version, current) == MigrationStep::Missing
            <==> forall|j: int| 0 <= j < edges.len() ==> (#[trigger] edges[j]).0 != version),
        version < current ==> forall|i: int|
            0 <= i < edges.len() && (#[trigger] edges[i]).0 == version && (forall|j: int|
                0 <= j < i ==> (#[trigger] edges[j]).0 != version) ==> if version < edges[i].1
                <= current {
                spec_next_migration(edges, version, current) == MigrationStep::Apply(i as usize)
            } else {
                spec_next_migration(edges, version, current) == MigrationStep::Invalid(i as usize)
            },
{
    lemma_first_edge_from_is_the_first(edges, version, 0);
    if version < current {
        assert forall|i: int|
            0 <= i < edges.len() && (#[trigger] edges[i]).0 == version && (forall|j: int|
                0 <= j < i ==> (#[trigger] edges[j]).0 != version) implies first_edge_from(
            edges,
            version,
            0,
        ) == Some(i) by {
            match first_edge_from(edges, version, 0) {
                Some(k) => {
                    if k < i {
                        assert(edges[k].0 != version);
                    } else if k > i {
                        assert(edges[i].0 != version);
                    }
                },
                None => {
                    assert(edges[i].0 != version);
                },
            }
        }
        if spec_next_migration(edges, version, current) == MigrationStep::Missing {
            assert(first_edge_from(edges, version, 0) is None);
        }
    }
}

/// Decide the next migration step from `version` toward `current` over the
/// registered `(from, to)` edges. The caller runs the chosen edge, stamps the
/// new version, and asks again; every applied edge strictly raises the
/// version and never passes `current`, so the walk ends.
pub fn next_migration(edges: &[(u32, u32)], version: u32, current: u32) -> (step: MigrationStep)
    ensures
        step == spec_next_migration(edges@, version, current),
        step matches MigrationStep::Apply(i) ==> i < edges@.len() && version < edges@[i as int].1
            <= current,
        step matches MigrationStep::Invalid(i) ==> i < edges@.len(),
{
    if version >= current {
        return MigrationStep::Done;
    }
    let mut i: usize = 0;
    while i < edges.len()
        invariant
            version < current,
            i <= edges@.len(),
            first_edge_from(edges@, version, 0) == first_edge_from(edges@, version, i as int),
        decreases edges@.len() - i,
    {
        let (from, to) = edges[i];
        if from == version {
            assert(first_edge_from(edges@, version, 0) == Some(i as int));
            assert(edges@[i as int].0 == from && edges@[i as int].1 == to);
            if to <= from || to > current {
                return MigrationStep::Invalid(i);
            }
            return MigrationStep::Apply(i);
        }
        i = i + 1;
    }
    MigrationStep::Missing
}

/// The fault a non-applying step stands for, if any.
pub fn migration_fault(edges: &[(u32, u32)], step: MigrationStep, version: u32, current: u32) -> (fault:
    Option<SettingsError>)
    requires
        step matches MigrationStep::Invalid(i) ==> i < edges@.len(),
    ensures
        fault == match step {
            MigrationStep::Missing => Some(SettingsError::MissingMigration { found: version, current }),
            MigrationStep::Invalid(i) => Some(
                SettingsError::InvalidMigrationEdge {
                    from: edges@[i as int].0,
                    to: edges@[i as int].1,
                },
            ),
            _ => None,
        },
{
    match step {
        MigrationStep::Missing => Some(SettingsError::MissingMigration { found: version, current }),
        MigrationStep::Invalid(i) => {
            let (from, to) = edges[i];
            Some(SettingsError::InvalidMigrationEdge { from, to })
        },
        _ => None,
    }
}

} // verus!
