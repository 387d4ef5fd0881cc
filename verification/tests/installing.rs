use neutron_components_app::commands::binding::{CommandBinding, ParseVerdicts};
use neutron_components_app::commands::declaration::{CommandsDeclaration, DeclaredCommand};
use neutron_components_app::commands::keys::MenuKey;
use neutron_components_app::commands::menu::MenuPlanNode;
use neutron_components_app::commands::menu_model::{Menu, MenuBar};
use neutron_components_app::commands::standard::{
    feature_commands, framework_command_ids, framework_commands, DesktopPlatform,
    StandardFeatures,
};
use neutron_components_app::commands::{CommandId, CommandScope, MenuPlacement};

fn alpha() -> CommandId {
    CommandId::new("test.alpha")
}

#[test]
fn scope_follows_the_constructor_not_a_flag() {
    assert_eq!(DeclaredCommand::app(CommandId::new("a"), "declared_test::Alpha").scope(), CommandScope::App);
    assert_eq!(DeclaredCommand::window(CommandId::new("b"), "declared_test::Beta").scope(), CommandScope::Window);
}

#[test]
fn lowering_projects_the_platform_chord_and_placement() {
    let command = DeclaredCommand::app(CommandId::new("a"), "declared_test::Alpha")
        .label("Alpha")
        .binding_with(
            CommandBinding::platform("cmd-1", "ctrl-1"),
            ParseVerdicts { chords: [true, true, true], context: true },
        );
    let lowered = command.lower(DesktopPlatform::Windows, &[MenuPlacement::new(MenuKey::EDIT().as_str(), 0, 0)]);

    assert_eq!(lowered.label(), "Alpha");
    assert_eq!(lowered.scope(), CommandScope::App);
    assert_eq!(
        lowered.default_binding(),
        Some("ctrl-1"),
        "the requested platform's chord is installed, not the host's",
    );
    assert_eq!(lowered.placement().map(|placement| placement.menu), Some(MenuKey::EDIT().as_str()));
}

#[test]
fn an_unbound_platform_drops_the_key_context_too() {
    let command = DeclaredCommand::window(alpha(), "declared_test::Alpha").binding_with(
        CommandBinding::macos_only("cmd-k").key_context("Editor"),
        ParseVerdicts { chords: [true, true, true], context: true },
    );
    let mac = command.lower(DesktopPlatform::MacOs, &[]);
    assert_eq!(mac.default_binding(), Some("cmd-k"));
    assert_eq!(mac.binding_context(), Some("Editor"));
    let linux = command.lower(DesktopPlatform::Linux, &[]);
    assert_eq!(linux.default_binding(), None);
    assert_eq!(linux.binding_context(), None);
    assert_eq!(linux.label(), "test.alpha", "an unlabelled command shows its id");
}

#[test]
fn the_framework_commands_carry_the_framework_ids_and_chords() {
    for platform in DesktopPlatform::ALL() {
        let commands = framework_commands(platform, platform);
        let mut ids: Vec<CommandId> = commands.iter().map(|c| c.id()).collect();
        let mut expected = framework_command_ids(platform);
        ids.sort_by_key(|id| id.as_str());
        expected.sort_by_key(|id| id.as_str());
        assert_eq!(ids, expected);
        assert!(commands.iter().all(|c| c.placements().is_empty()));
    }
    let mac = framework_commands(DesktopPlatform::MacOs, DesktopPlatform::MacOs);
    assert_eq!(mac.len(), 17);
    assert_eq!(mac[0].label(), "Hide");
    assert_eq!(mac[0].default_binding(), Some("cmd-h"));
    assert_eq!(mac[3].label(), "Quit");
    assert_eq!(mac[3].default_binding(), Some("cmd-q"));
    let linux = framework_commands(DesktopPlatform::Linux, DesktopPlatform::Linux);
    assert_eq!(linux.len(), 12);
    assert_eq!(linux[0].default_binding(), Some("ctrl-q"));
    assert_eq!(linux[11].label(), "Close Window");
    assert_eq!(linux[11].default_binding(), Some("ctrl-w"));
    assert_eq!(linux[1].scope(), CommandScope::Window);
}

#[test]
fn a_build_for_another_host_installs_no_macos_only_commands() {
    for host in [DesktopPlatform::Linux, DesktopPlatform::Windows] {
        let commands = framework_commands(DesktopPlatform::MacOs, host);
        assert_eq!(commands.len(), 12, "Hide, Hide Others, Show All, Minimize and Zoom need a macOS build");
        assert_eq!(commands[0].label(), "Quit");
        assert_eq!(commands[0].default_binding(), Some("cmd-q"), "the chords still follow the platform");
        assert_eq!(commands[11].default_binding(), Some("cmd-w"));
    }
    assert_eq!(framework_commands(DesktopPlatform::Linux, DesktopPlatform::MacOs).len(), 12);
}

#[test]
fn feature_commands_follow_the_resolved_features() {
    let both = StandardFeatures { settings: true, about: true, theme: false };
    let commands = feature_commands(DesktopPlatform::Linux, both);
    assert_eq!(commands.len(), 2);
    assert_eq!(commands[0].label(), "Preferences");
    assert_eq!(commands[0].default_binding(), Some("ctrl-,"));
    assert_eq!(commands[1].label(), "About");
    assert!(feature_commands(DesktopPlatform::MacOs, StandardFeatures::default()).is_empty());
}

#[test]
fn installing_lowers_commands_and_the_plan_that_projects_the_declared_menus() {
    let declaration = CommandsDeclaration::new()
        .command(DeclaredCommand::app(alpha(), "declared_test::Alpha").label("Alpha"))
        .menu_bar(MenuBar::custom(vec![
            Menu::keyed(MenuKey::EDIT()).command(CommandId::new("edit.copy")).separator().command(alpha()),
            Menu::keyed(MenuKey::WINDOW()).command(alpha()),
        ]));
    let (plan, commands) = declaration.lower_for_install(DesktopPlatform::Linux, DesktopPlatform::Linux).expect("valid");
    assert_eq!(commands.len(), 13, "twelve framework commands, then the declared one");
    assert_eq!(commands[12].id(), alpha());
    assert_eq!(
        commands[12].placements(),
        &[MenuPlacement::new("Edit", 1, 0), MenuPlacement::new("Window", 0, 0)],
    );
    let outline = plan.outline(&commands);
    assert_eq!(
        outline[0].nodes,
        vec![
            MenuPlanNode::Command(CommandId::new("edit.copy")),
            MenuPlanNode::Separator,
            MenuPlanNode::Command(alpha()),
        ],
    );
    assert_eq!(outline[1].nodes, vec![MenuPlanNode::Command(alpha())]);
}

#[test]
fn installing_an_invalid_declaration_lowers_nothing() {
    let declaration = CommandsDeclaration::new()
        .command(DeclaredCommand::app(alpha(), "declared_test::Alpha"))
        .command(DeclaredCommand::app(alpha(), "declared_test::Alpha"));
    assert!(declaration.lower_for_install(DesktopPlatform::Linux, DesktopPlatform::Linux).is_err());
}
