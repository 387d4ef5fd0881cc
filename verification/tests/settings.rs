use neutron_components_app::settings::{
    migration_fault, next_migration, shell_preferences_key, FutureVersionPolicy, MigrationStep,
    SettingsError, ShellPreferences, StoreKey, ThemeMode, SHELL_PREFERENCES_KEY,
};

#[test]
fn store_keys_accept_lowercase_digits_dash_and_underscore_only() {
    assert_eq!(StoreKey::new("settings").expect("valid").as_str(), "settings");
    assert_eq!(StoreKey::new("a-b_2").expect("valid").as_str(), "a-b_2");
    for bad in ["", "Settings", "a b", "a/b", "../x", "é"] {
        assert_eq!(StoreKey::new(bad), Err(SettingsError::InvalidStoreKey(bad.to_string())), "{bad:?}");
    }
}

#[test]
fn a_store_key_names_its_toml_file() {
    assert_eq!(StoreKey::PRIMARY().as_str(), "settings");
    assert_eq!(StoreKey::PRIMARY().filename(), "settings.toml");
    assert_eq!(shell_preferences_key().as_str(), SHELL_PREFERENCES_KEY);
    assert_eq!(shell_preferences_key().filename(), "shell-preferences.toml");
}

#[test]
fn defaults_are_conservative() {
    assert_eq!(FutureVersionPolicy::default(), FutureVersionPolicy::RefuseToWrite);
    assert_eq!(ThemeMode::default(), ThemeMode::System);
    let preferences = ShellPreferences::default();
    assert_eq!(preferences.theme_mode, ThemeMode::System);
    assert_eq!(preferences.theme_name, None);
    assert_eq!(preferences.locale, None);
    assert_eq!(ShellPreferences::schema_version(), 1);
    assert_eq!(ThemeMode::Dark.as_str(), "dark");
}

#[test]
fn the_migration_walk_follows_registered_edges_to_the_current_version() {
    let edges = [(1, 2), (2, 4), (4, 5)];
    let mut version = 1;
    let mut applied = Vec::new();
    loop {
        match next_migration(&edges, version, 5) {
            MigrationStep::Apply(i) => {
                applied.push(i);
                version = edges[i].1;
            }
            MigrationStep::Done => break,
            other => panic!("unexpected step {other:?}"),
        }
    }
    assert_eq!(applied, vec![0, 1, 2]);
    assert_eq!(version, 5);
    assert_eq!(next_migration(&edges, 5, 5), MigrationStep::Done);
    assert_eq!(next_migration(&edges, 7, 5), MigrationStep::Done);
}

#[test]
fn a_gap_or_a_backward_edge_stops_the_walk_with_its_fault() {
    let gap = [(1, 2)];
    let step = next_migration(&gap, 2, 3);
    assert_eq!(step, MigrationStep::Missing);
    assert_eq!(migration_fault(&gap, step, 2, 3), Some(SettingsError::MissingMigration { found: 2, current: 3 }));

    let backward = [(2, 1)];
    let step = next_migration(&backward, 2, 3);
    assert_eq!(step, MigrationStep::Invalid(0));
    assert_eq!(migration_fault(&backward, step, 2, 3), Some(SettingsError::InvalidMigrationEdge { from: 2, to: 1 }));

    let overshoot = [(1, 9)];
    assert_eq!(next_migration(&overshoot, 1, 3), MigrationStep::Invalid(0));
    assert_eq!(migration_fault(&overshoot, MigrationStep::Done, 3, 3), None);
}

#[test]
fn the_first_edge_leaving_a_version_is_the_one_taken() {
    let edges = [(1, 3), (1, 2), (2, 3)];
    assert_eq!(next_migration(&edges, 1, 3), MigrationStep::Apply(0));
}
