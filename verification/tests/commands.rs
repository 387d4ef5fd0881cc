use neutron_components_app::commands::binding::{CommandBinding, ParseVerdicts};
use neutron_components_app::commands::faults::{CommandFault, CommandFaults};
use neutron_components_app::commands::keys::{KeyFault, MenuKey, MenuSectionKey};
use neutron_components_app::commands::standard::{
    feature_command_ids, framework_command_ids, is_standard_command, settings_binding,
    settings_label, standard_menu_keys, DesktopPlatform, StandardFeatures, ABOUT_COMMAND_ID,
    CLOSE_WINDOW_COMMAND_ID, DELETE_COMMAND_ID, DELETE_NEXT_WORD_COMMAND_ID,
    DELETE_PREVIOUS_WORD_COMMAND_ID, FIND_COMMAND_ID, HIDE_APP_COMMAND_ID, MINIMIZE_COMMAND_ID,
    OPEN_SETTINGS_COMMAND_ID, QUIT_COMMAND_ID, UNDO_COMMAND_ID,
};
use neutron_components_app::commands::{menu_flags, CommandId, MenuFlags, RegistrationEffect};

fn probe() -> CommandId {
    CommandId::new("test.binding")
}

/// Every chord and the key context parsed.
fn all_parse() -> ParseVerdicts {
    ParseVerdicts { chords: [true, true, true], context: true }
}

fn faults(binding: CommandBinding, verdicts: ParseVerdicts) -> Vec<CommandFault> {
    let mut faults = Vec::new();
    binding.validate(probe(), verdicts, &mut faults);
    faults
}

#[test]
fn unbound_declares_nothing_on_any_platform() {
    let binding = CommandBinding::unbound();
    assert!(binding.is_unbound());
    for platform in DesktopPlatform::ALL() {
        assert_eq!(binding.for_platform(platform), None);
    }
    // With nothing declared, even a parser that rejected everything has
    // nothing to fault.
    let rejecting = ParseVerdicts { chords: [false, false, false], context: false };
    assert!(faults(binding, rejecting).is_empty(), "nothing to parse, nothing to fault");
}

#[test]
fn platform_projection_selects_one_chord_per_host() {
    let binding = CommandBinding::platform("cmd-q", "ctrl-q");
    assert_eq!(binding.for_platform(DesktopPlatform::MacOs), Some("cmd-q"));
    assert_eq!(binding.for_platform(DesktopPlatform::Windows), Some("ctrl-q"));
    assert_eq!(binding.for_platform(DesktopPlatform::Linux), Some("ctrl-q"));
    assert!(!binding.is_unbound());

    let mac_only = CommandBinding::macos_only("cmd-h");
    assert_eq!(mac_only.for_platform(DesktopPlatform::MacOs), Some("cmd-h"));
    assert_eq!(mac_only.for_platform(DesktopPlatform::Windows), None);
    assert_eq!(mac_only.for_platform(DesktopPlatform::Linux), None);
}

#[test]
fn every_platform_chord_is_parsed_on_every_host() {
    // Valid where this test runs, invalid on the other two: the fault must
    // still be reported for every platform's chord.
    let binding = CommandBinding::new(Some("cmd-k"), Some("ctrl-nope-k"), Some("bogus-k"));
    let verdicts = ParseVerdicts { chords: [true, false, false], context: true };

    assert_eq!(
        faults(binding, verdicts),
        vec![
            CommandFault::InvalidBinding {
                command: probe(),
                platform: DesktopPlatform::Windows,
                binding: "ctrl-nope-k",
            },
            CommandFault::InvalidBinding {
                command: probe(),
                platform: DesktopPlatform::Linux,
                binding: "bogus-k",
            },
        ],
    );
}

#[test]
fn key_context_is_parsed_and_reported_separately() {
    assert!(faults(CommandBinding::same("ctrl-k").key_context("StoryView && !Editor"), all_parse())
        .is_empty());
    assert_eq!(
        faults(
            CommandBinding::same("ctrl-k").key_context("StoryView &&"),
            ParseVerdicts { chords: [true, true, true], context: false },
        ),
        vec![CommandFault::InvalidKeyContext { command: probe(), context: "StoryView &&" }],
    );
    assert_eq!(
        CommandBinding::same("ctrl-k").context(),
        None,
        "standard commands bind globally unless a context is declared",
    );
}

#[test]
fn faults_empty_collection_is_not_constructible() {
    assert!(CommandFaults::new(Vec::new()).is_none());
}

#[test]
fn collection_preserves_order_and_renders_every_fault() {
    let faults = CommandFaults::new(vec![
        CommandFault::DuplicateCommand { command: CommandId::new("app.quit") },
        CommandFault::UnknownCommand {
            menu: MenuKey::EDIT(),
            command: CommandId::new("edit.ghost"),
        },
    ])
    .expect("non-empty input yields a collection");

    assert_eq!(faults.len(), 2);
    assert_eq!(
        faults.to_text(),
        "2 command declaration errors: duplicate command id `app.quit`; \
         menu `Edit` references undeclared command `edit.ghost`",
    );
}

#[test]
fn binding_faults_name_the_offending_platform() {
    let fault = CommandFault::InvalidBinding {
        command: CommandId::new("app.quit"),
        platform: DesktopPlatform::Windows,
        binding: "ctrl-nope-q",
    };

    assert_eq!(fault.to_text(), "invalid Windows binding `ctrl-nope-q` for command `app.quit`");
}

#[test]
fn framework_constants_are_valid() {
    for key in MenuKey::FRAMEWORK() {
        MenuKey::new(key.as_str()).expect("framework menu key passes validation");
    }
    for key in MenuSectionKey::FRAMEWORK() {
        MenuSectionKey::new(key.as_str()).expect("framework section key passes validation");
    }
}

#[test]
fn invalid_text_is_rejected_with_its_reason() {
    assert_eq!(MenuKey::new(""), Err(KeyFault::Empty));
    assert_eq!(MenuKey::new(" Tools"), Err(KeyFault::Untrimmed));
    assert_eq!(MenuKey::new("Tools "), Err(KeyFault::Untrimmed));
    assert_eq!(MenuKey::new("To\nols"), Err(KeyFault::ControlCharacter));
    assert_eq!(MenuSectionKey::new(""), Err(KeyFault::Empty));
    assert_eq!(
        MenuSectionKey::new("locale\t"),
        Err(KeyFault::Untrimmed),
        "a trailing tab is both untrimmed and control; the trim rule is \
         checked first, so it is the reported reason",
    );
    assert_eq!(MenuSectionKey::new("loc\u{7}ale"), Err(KeyFault::ControlCharacter));
}

#[test]
fn valid_application_keys_round_trip() {
    assert_eq!(
        MenuKey::new("Tools").expect("valid").as_str(),
        "Tools",
        "an application key keeps its exact text",
    );
    assert_eq!(MenuSectionKey::new("story.locale").expect("valid").as_str(), "story.locale");
}

#[test]
fn dock_is_distinguishable_from_menu_bar_keys() {
    assert!(MenuKey::DOCK().is_dock());
    assert!(!MenuKey::APP().is_dock());
    assert!(!MenuKey::new("Dockyard").expect("valid").is_dock(), "a prefix match is not the dock key");
}

#[test]
fn registration_effect_routes_by_liveness_and_existing_id() {
    // Before go-live: batch pass handles everything.
    assert_eq!(RegistrationEffect::of(false, false), RegistrationEffect::Deferred);
    assert_eq!(RegistrationEffect::of(false, true), RegistrationEffect::Deferred);
    // After go-live: new id appends, existing id rebuilds (drops stale chord).
    assert_eq!(RegistrationEffect::of(true, false), RegistrationEffect::Append);
    assert_eq!(RegistrationEffect::of(true, true), RegistrationEffect::Rebuild);
}

#[test]
fn menu_flags_defaults_and_inversion() {
    // Absent predicates: unchecked, enabled.
    assert_eq!(menu_flags(None, None), MenuFlags { checked: false, disabled: false });
    // Checked true, disabled is the inverse of enabled.
    assert_eq!(menu_flags(Some(true), Some(false)), MenuFlags { checked: true, disabled: true });
    assert_eq!(menu_flags(Some(false), Some(true)), MenuFlags { checked: false, disabled: false });
}

#[test]
fn standard_plan_uses_native_desktop_conventions() {
    assert_eq!(
        standard_menu_keys(DesktopPlatform::MacOs, false),
        vec![MenuKey::APP(), MenuKey::EDIT(), MenuKey::WINDOW()]
    );
    assert_eq!(
        standard_menu_keys(DesktopPlatform::Windows, true),
        vec![MenuKey::FILE(), MenuKey::EDIT(), MenuKey::VIEW(), MenuKey::WINDOW(), MenuKey::HELP()]
    );
    assert_eq!(
        standard_menu_keys(DesktopPlatform::Linux, false),
        vec![MenuKey::FILE(), MenuKey::EDIT(), MenuKey::WINDOW(), MenuKey::HELP()]
    );
}

#[test]
fn settings_labels_and_bindings_match_platform() {
    assert_eq!(settings_label(DesktopPlatform::MacOs), "Settings…");
    assert_eq!(settings_label(DesktopPlatform::Windows), "Settings");
    assert_eq!(settings_label(DesktopPlatform::Linux), "Preferences");
    assert_eq!(settings_binding(DesktopPlatform::MacOs), "cmd-,");
    assert_eq!(settings_binding(DesktopPlatform::Windows), "ctrl-,");
    assert_eq!(settings_binding(DesktopPlatform::Linux), "ctrl-,");
}

#[test]
fn standard_command_membership_is_host_independent() {
    assert!(is_standard_command(HIDE_APP_COMMAND_ID()));
    assert!(is_standard_command(MINIMIZE_COMMAND_ID()));
    assert!(is_standard_command(QUIT_COMMAND_ID()));
    assert!(is_standard_command(UNDO_COMMAND_ID()));
    assert!(is_standard_command(CLOSE_WINDOW_COMMAND_ID()));
    assert!(is_standard_command(DELETE_COMMAND_ID()));
    assert!(is_standard_command(DELETE_PREVIOUS_WORD_COMMAND_ID()));
    assert!(is_standard_command(DELETE_NEXT_WORD_COMMAND_ID()));
    assert!(is_standard_command(FIND_COMMAND_ID()));

    // Settings/About are conditional features, not entries in
    // `framework_command_ids`, but they are still framework-owned ids.
    assert!(is_standard_command(OPEN_SETTINGS_COMMAND_ID()));
    assert!(is_standard_command(ABOUT_COMMAND_ID()));

    assert!(!is_standard_command(CommandId::new("app.not_standard")));
}

#[test]
fn framework_ids_follow_the_platform_and_features_add_their_commands() {
    let mac: Vec<&str> = framework_command_ids(DesktopPlatform::MacOs).iter().map(|c| c.as_str()).collect();
    assert_eq!(mac.len(), 17);
    assert_eq!(mac[0], "app.quit");
    assert_eq!(mac[1], "app.hide");
    assert_eq!(mac[16], "window.close");
    let linux: Vec<&str> = framework_command_ids(DesktopPlatform::Linux).iter().map(|c| c.as_str()).collect();
    assert_eq!(linux.len(), 12);
    assert!(!linux.contains(&"app.hide"));
    let features = StandardFeatures { settings: true, about: true, theme: false };
    let ids: Vec<&str> = feature_command_ids(features).iter().map(|c| c.as_str()).collect();
    assert_eq!(ids, vec!["app.settings", "app.about"]);
    assert!(feature_command_ids(StandardFeatures::default()).is_empty());
}

#[test]
fn every_fault_variant_renders_its_diagnostic() {
    let edit = MenuKey::EDIT();
    let theme = MenuSectionKey::THEME();
    let cases = vec![
        (CommandFault::InvalidKeyContext { command: probe(), context: "x &&" },
         "invalid key context `x &&` for command `test.binding`"),
        (CommandFault::InvalidMenuKey { raw: " Tools", fault: KeyFault::Untrimmed },
         "invalid menu key ` Tools`: has leading or trailing whitespace"),
        (CommandFault::DuplicateMenuKey { menu: edit }, "duplicate top-level menu `Edit`"),
        (CommandFault::MissingSectionProvider { menu: edit, section: theme },
         "menu `Edit` reserves section `appearance` with no declared provider"),
        (CommandFault::DuplicateSectionProvider { section: theme },
         "duplicate provider for menu section `appearance`"),
        (CommandFault::DuplicateSectionSlot { section: theme },
         "menu section `appearance` is reserved more than once"),
        (CommandFault::SectionInDock { section: theme },
         "menu section `appearance` cannot be reserved in the dock menu"),
        (CommandFault::RepeatedCommandInMenu { menu: edit, command: probe() },
         "menu `Edit` references command `test.binding` more than once"),
        (CommandFault::StrandedStandardFeature { menu: MenuKey::HELP(), feature: "About" },
         "hiding menu `Help` strands the enabled About feature, which this platform places there"),
        (CommandFault::InvalidStandardEdit { menu: edit, reason: "nope" },
         "invalid standard-menu edit for `Edit`: nope"),
    ];
    for (fault, text) in cases {
        assert_eq!(fault.to_text(), text);
    }
}
