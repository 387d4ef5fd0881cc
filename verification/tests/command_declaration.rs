use neutron_components_app::commands::binding::{CommandBinding, ParseVerdicts};
use neutron_components_app::commands::declaration::{CommandsDeclaration, DeclaredCommand};
use neutron_components_app::commands::faults::CommandFault;
use neutron_components_app::commands::keys::{MenuKey, MenuSectionKey};
use neutron_components_app::commands::menu_model::{Menu, MenuBar, MenuNode, StandardLayout};
use neutron_components_app::commands::standard::{
    framework_command_ids, DesktopPlatform, StandardFeatures, ABOUT_COMMAND_ID,
    OPEN_SETTINGS_COMMAND_ID, QUIT_COMMAND_ID,
};
use neutron_components_app::commands::CommandId;

fn alpha() -> CommandId {
    CommandId::new("test.alpha")
}

fn beta() -> CommandId {
    CommandId::new("test.beta")
}

fn parsed() -> ParseVerdicts {
    ParseVerdicts { chords: [true, true, true], context: true }
}

fn command(id: CommandId) -> DeclaredCommand {
    DeclaredCommand::new(id, id.as_str(), CommandBinding::unbound(), parsed())
}

fn faults(declaration: &CommandsDeclaration, platform: DesktopPlatform) -> Vec<CommandFault> {
    declaration
        .validate(platform)
        .expect_err("expected declaration faults")
        .iter()
        .copied()
        .collect()
}

#[test]
fn duplicate_command_ids_are_declaration_errors() {
    let declaration = CommandsDeclaration::new()
        .menu_bar(MenuBar::none())
        .command(command(alpha()))
        .command(command(alpha()));

    assert_eq!(
        faults(&declaration, DesktopPlatform::Linux),
        vec![CommandFault::DuplicateCommand { command: alpha() }],
    );
}

#[test]
fn duplicate_section_providers_are_declaration_errors() {
    let declaration = CommandsDeclaration::new()
        .menu_bar(MenuBar::none())
        .section(MenuSectionKey::THEME())
        .section(MenuSectionKey::THEME());

    assert_eq!(
        faults(&declaration, DesktopPlatform::Linux),
        vec![CommandFault::DuplicateSectionProvider { section: MenuSectionKey::THEME() }],
    );
}

#[test]
fn every_independent_fault_is_reported_in_declaration_order() {
    let declaration = CommandsDeclaration::new()
        .command(DeclaredCommand::new(
            alpha(),
            "declaration_test::Alpha",
            CommandBinding::new(None, Some("ctrl-nope-x"), None),
            ParseVerdicts { chords: [true, false, true], context: true },
        ))
        .menu_bar(MenuBar::custom(vec![Menu::keyed(MenuKey::EDIT()).command(beta())]));

    assert_eq!(
        faults(&declaration, DesktopPlatform::Linux),
        vec![
            CommandFault::InvalidBinding {
                command: alpha(),
                platform: DesktopPlatform::Windows,
                binding: "ctrl-nope-x",
            },
            CommandFault::UnknownCommand { menu: MenuKey::EDIT(), command: beta() },
        ],
        "validation does not stop at the first fault",
    );
}

#[test]
fn the_default_declaration_is_valid_on_every_platform() {
    for platform in DesktopPlatform::ALL() {
        let outline = CommandsDeclaration::new().validate(platform).unwrap_or_else(|faults| {
            panic!("default declaration is invalid on {:?}: {}", platform, faults.to_text())
        });
        assert!(!outline.menus().is_empty(), "the default standard bar projects menus on {:?}", platform);
    }
}

#[test]
fn the_standard_layout_references_only_framework_seeded_commands() {
    for platform in DesktopPlatform::ALL() {
        let seeded = framework_command_ids(platform);
        let outline = CommandsDeclaration::new().validate(platform).expect("the default declaration is valid");
        for menu in outline.menus() {
            for node in menu.nodes() {
                if let MenuNode::Command(id) = node {
                    assert!(
                        seeded.contains(id),
                        "{:?} standard menus reference {:?}, which the framework never installs",
                        platform,
                        id,
                    );
                }
            }
        }
    }
}

#[test]
fn optional_standard_references_require_an_app_declared_command() {
    let layout = StandardLayout::new().with_about().with_settings();
    let faults = CommandsDeclaration::new()
        .menu_bar(MenuBar::from_standard_layout(layout))
        .validate(DesktopPlatform::MacOs)
        .expect_err("opting in without declaring the commands is a fault");

    let unknown: Vec<CommandId> = faults
        .iter()
        .filter_map(|fault| match fault {
            CommandFault::UnknownCommand { command, .. } => Some(*command),
            _ => None,
        })
        .collect();
    assert_eq!(unknown, vec![ABOUT_COMMAND_ID(), OPEN_SETTINGS_COMMAND_ID()]);
}

#[test]
fn an_app_command_may_not_shadow_a_framework_command() {
    let faults = faults(
        &CommandsDeclaration::new().command(command(QUIT_COMMAND_ID())).menu_bar(MenuBar::none()),
        DesktopPlatform::MacOs,
    );
    assert_eq!(faults, vec![CommandFault::DuplicateCommand { command: QUIT_COMMAND_ID() }]);
}

#[test]
fn resolved_features_seed_their_commands_and_the_appearance_slot() {
    let features = StandardFeatures { settings: true, about: true, theme: true };
    let declaration = CommandsDeclaration::new().standard_features(features);
    for platform in DesktopPlatform::ALL() {
        let outline = declaration.validate(platform).expect("the seeded vocabulary resolves every reference");
        let slots = outline.section_slots();
        assert_eq!(slots.len(), 1);
        assert_eq!(slots[0].1, MenuSectionKey::THEME());
    }
    // A second Appearance provider collides with the seeded one.
    assert_eq!(
        faults(&declaration.section(MenuSectionKey::THEME()), DesktopPlatform::Linux),
        vec![CommandFault::DuplicateSectionProvider { section: MenuSectionKey::THEME() }],
    );
}

fn all_features() -> StandardFeatures {
    StandardFeatures { settings: true, about: true, theme: true }
}

#[test]
fn standard_feature_commands_appear_only_once_the_declaration_resolves_them() {
    for platform in DesktopPlatform::ALL() {
        let bare = CommandsDeclaration::new()
            .validate(platform)
            .expect("the default declaration is valid");
        assert!(
            !bare.command_ids().contains(&ABOUT_COMMAND_ID()),
            "About is projected only when the feature resolves on {platform:?}",
        );
        assert!(
            !bare.command_ids().contains(&OPEN_SETTINGS_COMMAND_ID()),
            "Settings is projected only when a Settings surface exists on {platform:?}",
        );

        let resolved = CommandsDeclaration::new()
            .standard_features(all_features())
            .validate(platform)
            .unwrap_or_else(|faults| {
                panic!("resolved features must validate on {platform:?}: {:?}", faults)
            });
        assert!(
            resolved.command_ids().contains(&ABOUT_COMMAND_ID()),
            "About is a desktop convention on {platform:?}",
        );
        assert!(
            resolved.command_ids().contains(&OPEN_SETTINGS_COMMAND_ID()),
            "a declared Settings surface activates the standard command on {platform:?}",
        );
        assert!(
            resolved
                .section_slots()
                .iter()
                .any(|(_, section)| *section == MenuSectionKey::THEME()),
            "the theme convention reserves its Appearance slot on {platform:?}",
        );
    }
}

#[test]
fn each_standard_feature_is_projected_independently() {
    let settings_only = StandardFeatures { settings: true, ..StandardFeatures::default() };
    for platform in DesktopPlatform::ALL() {
        let outline = CommandsDeclaration::new()
            .standard_features(settings_only)
            .validate(platform)
            .expect("a Settings-only declaration is valid");
        assert!(outline.command_ids().contains(&OPEN_SETTINGS_COMMAND_ID()));
        assert!(!outline.command_ids().contains(&ABOUT_COMMAND_ID()));
        assert!(outline.section_slots().is_empty());
    }
}

#[test]
fn hiding_a_menu_strands_a_feature_the_declaration_resolved() {
    for platform in DesktopPlatform::ALL() {
        let layout = StandardLayout::new().hide_menu(MenuKey::HELP());
        let result = CommandsDeclaration::new()
            .standard_features(all_features())
            .menu_bar(MenuBar::from_standard_layout(layout))
            .validate(platform);

        match platform {
            DesktopPlatform::MacOs => {
                result.unwrap_or_else(|faults| {
                    panic!("macOS does not place About in Help: {:?}", faults)
                });
            }
            DesktopPlatform::Windows | DesktopPlatform::Linux => {
                let faults = result.expect_err("About loses its only placement");
                assert_eq!(
                    faults.iter().copied().collect::<Vec<_>>(),
                    vec![CommandFault::StrandedStandardFeature {
                        menu: MenuKey::HELP(),
                        feature: "About",
                    }],
                );
            }
        }
    }
}
