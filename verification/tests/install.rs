use neutron_components_app::commands::declaration::{
    CommandsDeclaration, DeclaredCommand, InstallError,
};
use neutron_components_app::commands::faults::CommandFault;
use neutron_components_app::commands::install::{
    incompatible_action, install_declared_commands, register_command, replace_command,
    replace_declared_command,
};
use neutron_components_app::commands::keys::MenuKey;
use neutron_components_app::commands::menu::MenuPlanNode;
use neutron_components_app::commands::menu_model::{Menu, MenuBar};
use neutron_components_app::commands::registry::{CommandError, CommandRegistry, KeymapVerdict};
use neutron_components_app::commands::standard::{DesktopPlatform, QUIT_COMMAND_ID};
use neutron_components_app::commands::{CommandId, CommandScope, MenuPlacement, RuntimeCommand};

const PARSES: KeymapVerdict = KeymapVerdict { keystroke: true, context: true };

const ALPHA_ACTION: &str = "declaration_test::Alpha";
const BETA_ACTION: &str = "declaration_test::Beta";

fn alpha() -> CommandId {
    CommandId::new("test.alpha")
}

fn beta() -> CommandId {
    CommandId::new("test.beta")
}

fn cmd(id: &'static str, action: &'static str) -> RuntimeCommand {
    RuntimeCommand::new(CommandId::new(id), id, CommandScope::App, action)
}

fn registrations(registry: &CommandRegistry, id: CommandId) -> usize {
    registry.commands().iter().filter(|command| command.id() == id).count()
}

fn two_commands() -> CommandsDeclaration {
    CommandsDeclaration::new()
        .command(DeclaredCommand::app(alpha(), ALPHA_ACTION).label("Alpha"))
        .command(DeclaredCommand::window(beta(), BETA_ACTION).label("Beta"))
}

/// Every lowered command's binding parses.
fn parsing_verdicts(declaration: &CommandsDeclaration, platform: DesktopPlatform) -> Vec<KeymapVerdict> {
    match declaration.lower_for_install(platform, platform) {
        Ok((_, commands)) => vec![PARSES; commands.len()],
        Err(_) => Vec::new(),
    }
}

fn install(
    declaration: &CommandsDeclaration,
    platform: DesktopPlatform,
    registry: &mut CommandRegistry,
) -> Result<neutron_components_app::commands::menu::MenuPlan, InstallError> {
    let verdicts = parsing_verdicts(declaration, platform);
    declaration.install(platform, platform, registry, &verdicts)
}

#[test]
fn a_collision_on_a_later_command_installs_nothing() {
    let mut registry = CommandRegistry::new();
    registry
        .register(RuntimeCommand::new(beta(), "Existing", CommandScope::Window, BETA_ACTION), PARSES)
        .expect("the pre-existing command registers");
    let before = registry.commands().len();

    let declaration = two_commands().menu_bar(MenuBar::none());
    let result = install(&declaration, DesktopPlatform::Linux, &mut registry);
    match result {
        Err(InstallError::Runtime(CommandError::Duplicate { command })) => assert_eq!(command, beta()),
        _ => panic!("colliding with a live command is a runtime failure"),
    }

    assert_eq!(registry.commands().len(), before, "the first command of a rejected batch is not registered");
    assert_eq!(registrations(&registry, alpha()), 0);
    assert_eq!(registry.get(beta()).expect("registered").label(), "Existing", "the live command is untouched");
    assert!(registry.plan().is_none(), "a rejected install never projects");
}

#[test]
fn two_commands_sharing_one_action_type_install_nothing() {
    let mut registry = CommandRegistry::new();
    let declaration = CommandsDeclaration::new()
        .command(DeclaredCommand::app(alpha(), ALPHA_ACTION))
        .command(DeclaredCommand::app(beta(), ALPHA_ACTION))
        .menu_bar(MenuBar::none());

    match install(&declaration, DesktopPlatform::Linux, &mut registry) {
        Err(InstallError::Runtime(CommandError::IncompatibleAction { command, action })) => {
            assert_eq!(command, beta(), "the second command in the batch is blamed");
            assert_eq!(action, ALPHA_ACTION);
        },
        _ => panic!("two ids sharing one action type is a runtime failure"),
    }
    assert!(registry.commands().is_empty(), "a rejected batch registers nothing");
}

#[test]
fn installing_a_multi_menu_command_registers_it_once_with_every_placement() {
    let mut registry = CommandRegistry::new();
    let declaration = CommandsDeclaration::new()
        .command(DeclaredCommand::app(alpha(), ALPHA_ACTION))
        .menu_bar(MenuBar::custom(vec![
            Menu::keyed(MenuKey::EDIT()).command(alpha()),
            Menu::keyed(MenuKey::WINDOW()).command(alpha()),
        ]));
    let plan = install(&declaration, DesktopPlatform::Linux, &mut registry)
        .expect("a repeated projection is valid");

    assert_eq!(registrations(&registry, alpha()), 1, "a command projected twice is still one command");
    assert_eq!(
        registry.get(alpha()).expect("registered").placements(),
        [MenuPlacement::new("Edit", 0, 0), MenuPlacement::new("Window", 0, 0)],
    );
    assert_eq!(
        registry.get(alpha()).expect("registered").placement(),
        Some(MenuPlacement::new("Edit", 0, 0)),
        "the compatibility accessor still reports the first placement",
    );

    let projected = plan.outline(registry.commands());
    assert_eq!(projected[0].nodes, vec![MenuPlanNode::Command(alpha())]);
    assert_eq!(projected[1].nodes, vec![MenuPlanNode::Command(alpha())]);
}

#[test]
fn installing_a_shadowing_app_command_registers_nothing() {
    let mut registry = CommandRegistry::new();
    let declaration = CommandsDeclaration::new()
        .command(DeclaredCommand::app(QUIT_COMMAND_ID(), ALPHA_ACTION))
        .menu_bar(MenuBar::none());

    match install(&declaration, DesktopPlatform::MacOs, &mut registry) {
        Err(InstallError::Declaration(faults)) => assert!(faults.iter().any(|fault| matches!(
            fault,
            CommandFault::DuplicateCommand { command } if *command == QUIT_COMMAND_ID()
        ))),
        _ => panic!("shadowing a framework command is a declaration fault"),
    }
    assert!(registry.commands().is_empty(), "a rejected declaration registers nothing");
}

#[test]
fn installing_registers_the_framework_vocabulary_before_the_declared_commands() {
    let mut registry = CommandRegistry::new();
    let declaration = two_commands().menu_bar(MenuBar::none());
    install(&declaration, DesktopPlatform::Linux, &mut registry).expect("a valid declaration installs");

    let ids: Vec<&str> = registry.commands().iter().map(|command| command.id().as_str()).collect();
    assert_eq!(ids.first(), Some(&"app.quit"));
    assert_eq!(&ids[ids.len() - 2..], &["test.alpha", "test.beta"]);
    assert_eq!(registry.get(alpha()).unwrap().action_name(), ALPHA_ACTION);
    assert_eq!(registry.get(beta()).unwrap().scope(), CommandScope::Window);
}

#[test]
fn a_binding_the_toolkit_rejects_installs_nothing() {
    let mut registry = CommandRegistry::new();
    let commands = vec![cmd("one", "probe::One"), cmd("two", "probe::Two").with_binding("cmd-??")];
    let verdicts = [PARSES, KeymapVerdict { keystroke: false, context: true }];
    assert_eq!(
        install_declared_commands(&mut registry, commands, &verdicts),
        Err(CommandError::InvalidBinding { command: CommandId::new("two"), binding: "cmd-??" }),
    );
    assert!(registry.commands().is_empty());
}

#[test]
fn a_batch_repeating_an_id_installs_nothing() {
    let mut registry = CommandRegistry::new();
    let commands = vec![cmd("one", "probe::One"), cmd("one", "probe::Two")];
    assert_eq!(
        install_declared_commands(&mut registry, commands, &[PARSES, PARSES]),
        Err(CommandError::Duplicate { command: CommandId::new("one") }),
    );
    assert!(registry.commands().is_empty());
}

#[test]
fn register_command_rejects_a_different_id_for_an_owned_action() {
    let mut registry = CommandRegistry::new();
    register_command(
        &mut registry,
        &DeclaredCommand::app(CommandId::new("owns.alpha"), ALPHA_ACTION),
        DesktopPlatform::Linux,
        PARSES,
    )
    .expect("the first registration succeeds");

    let error = register_command(
        &mut registry,
        &DeclaredCommand::app(CommandId::new("claims.alpha"), ALPHA_ACTION),
        DesktopPlatform::Linux,
        PARSES,
    )
    .expect_err("a second id may not claim an already-owned action type");

    assert_eq!(
        error,
        CommandError::IncompatibleAction { command: CommandId::new("claims.alpha"), action: ALPHA_ACTION },
    );
    assert!(registry.get(CommandId::new("claims.alpha")).is_none(), "the rejected registration left no trace");
    assert!(registry.get(CommandId::new("owns.alpha")).is_some(), "the original registration is untouched");
}

#[test]
fn register_command_rejects_a_registered_id() {
    let mut registry = CommandRegistry::new();
    register_command(&mut registry, &DeclaredCommand::app(alpha(), ALPHA_ACTION), DesktopPlatform::Linux, PARSES)
        .unwrap();
    assert_eq!(
        register_command(&mut registry, &DeclaredCommand::app(alpha(), ALPHA_ACTION), DesktopPlatform::Linux, PARSES),
        Err(CommandError::Duplicate { command: alpha() }),
    );
    assert_eq!(registry.commands().len(), 1);
}

#[test]
fn replace_command_is_last_wins_for_one_id() {
    let mut registry = CommandRegistry::new();
    register_command(
        &mut registry,
        &DeclaredCommand::app(CommandId::new("replace.probe"), ALPHA_ACTION).label("First"),
        DesktopPlatform::Linux,
        PARSES,
    )
    .expect("the first registration succeeds");
    for label in ["Second", "Third"] {
        replace_command(
            &mut registry,
            &DeclaredCommand::app(CommandId::new("replace.probe"), ALPHA_ACTION).label(label),
            DesktopPlatform::Linux,
            PARSES,
        )
        .expect("replacing the same id/action succeeds");
    }
    assert_eq!(registry.commands().len(), 1, "one entry for the id");
    assert_eq!(registry.get(CommandId::new("replace.probe")).unwrap().label(), "Third");
}

#[test]
fn replace_command_rejects_a_different_action_for_an_existing_id() {
    let mut registry = CommandRegistry::new();
    register_command(
        &mut registry,
        &DeclaredCommand::app(CommandId::new("stable.id"), ALPHA_ACTION),
        DesktopPlatform::Linux,
        PARSES,
    )
    .expect("the first registration succeeds");

    let error = replace_command(
        &mut registry,
        &DeclaredCommand::app(CommandId::new("stable.id"), BETA_ACTION),
        DesktopPlatform::Linux,
        PARSES,
    )
    .expect_err("a stable id may not change its action type");

    assert!(matches!(
        error,
        CommandError::IncompatibleAction { command, .. } if command == CommandId::new("stable.id")
    ));
    assert_eq!(
        registry.get(CommandId::new("stable.id")).unwrap().action_name(),
        ALPHA_ACTION,
        "the rejected replace left the original action type in place",
    );
}

#[test]
fn replace_command_rejects_a_scope_change_for_an_existing_id() {
    let mut registry = CommandRegistry::new();
    register_command(
        &mut registry,
        &DeclaredCommand::app(CommandId::new("stable.scope"), ALPHA_ACTION),
        DesktopPlatform::Linux,
        PARSES,
    )
    .expect("the first registration succeeds");

    let error = replace_command(
        &mut registry,
        &DeclaredCommand::window(CommandId::new("stable.scope"), ALPHA_ACTION),
        DesktopPlatform::Linux,
        PARSES,
    )
    .expect_err("a stable id may not change its dispatch scope");

    assert!(matches!(
        error,
        CommandError::IncompatibleAction { command, .. } if command == CommandId::new("stable.scope")
    ));
    assert_eq!(
        registry.get(CommandId::new("stable.scope")).unwrap().scope(),
        CommandScope::App,
        "the rejected replace left the original scope in place",
    );
}

#[test]
fn replace_command_accepts_the_same_id_and_action_after_a_scope_rejection() {
    let mut registry = CommandRegistry::new();
    register_command(
        &mut registry,
        &DeclaredCommand::app(CommandId::new("stable.scope2"), ALPHA_ACTION).label("First"),
        DesktopPlatform::Linux,
        PARSES,
    )
    .expect("the first registration succeeds");
    let _ = replace_command(
        &mut registry,
        &DeclaredCommand::window(CommandId::new("stable.scope2"), ALPHA_ACTION),
        DesktopPlatform::Linux,
        PARSES,
    );
    replace_command(
        &mut registry,
        &DeclaredCommand::app(CommandId::new("stable.scope2"), ALPHA_ACTION).label("Second"),
        DesktopPlatform::Linux,
        PARSES,
    )
    .expect("a compatible replace still succeeds after a rejected one");

    assert_eq!(registry.commands().len(), 1);
    assert_eq!(registry.get(CommandId::new("stable.scope2")).unwrap().label(), "Second");
}

#[test]
fn replace_command_rejects_a_framework_owned_standard_id() {
    let mut registry = CommandRegistry::new();
    register_command(
        &mut registry,
        &DeclaredCommand::app(QUIT_COMMAND_ID(), ALPHA_ACTION).label("First"),
        DesktopPlatform::Linux,
        PARSES,
    )
    .expect("registering directly under the id still succeeds");

    let error = replace_command(
        &mut registry,
        &DeclaredCommand::app(QUIT_COMMAND_ID(), BETA_ACTION),
        DesktopPlatform::Linux,
        PARSES,
    )
    .expect_err("replace_command must reject every framework-owned standard id");

    assert_eq!(error, CommandError::FrameworkOwned { command: QUIT_COMMAND_ID() });
    let entry = registry.get(QUIT_COMMAND_ID()).unwrap();
    assert_eq!(entry.action_name(), ALPHA_ACTION, "the rejected replace left the original entry untouched");
    assert_eq!(entry.label(), "First");
}

#[test]
fn replace_declared_command_preserves_existing_menu_placements() {
    let mut registry = CommandRegistry::new();
    let original = cmd("placed.probe", ALPHA_ACTION)
        .with_binding("cmd-p")
        .with_placement(MenuPlacement::new("App", 0, 0))
        .with_placement(MenuPlacement::new("Edit", 1, 2))
        .with_placement(MenuPlacement::new("Dock", 0, 0));
    install_declared_commands(&mut registry, vec![original], &[PARSES]).expect("initial install succeeds");
    let original_placements = registry.get(CommandId::new("placed.probe")).unwrap().placements().to_vec();
    assert_eq!(original_placements.len(), 3, "the probe installs three placements, including the dock");

    let replacement = RuntimeCommand::new(CommandId::new("placed.probe"), "Replaced", CommandScope::App, ALPHA_ACTION)
        .with_binding("cmd-shift-p");
    replace_declared_command(&mut registry, replacement, PARSES).expect("replace succeeds");

    let replaced = registry.get(CommandId::new("placed.probe")).unwrap();
    assert_eq!(replaced.label(), "Replaced", "the replacement's label took effect");
    assert_eq!(replaced.default_binding(), Some("cmd-shift-p"), "the replacement's binding took effect");
    assert_eq!(
        replaced.placements(),
        original_placements.as_slice(),
        "replacing must keep every existing placement, dock included",
    );
}

#[test]
fn replace_declared_command_keeps_no_placements_for_an_absent_id() {
    let mut registry = CommandRegistry::new();
    let command = cmd("fresh.probe", ALPHA_ACTION).with_binding("cmd-f");
    replace_declared_command(&mut registry, command, PARSES)
        .expect("replace registers an absent id instead of failing");
    assert!(
        registry.get(CommandId::new("fresh.probe")).unwrap().placements().is_empty(),
        "there was no existing registration, so there is nothing to carry over",
    );
}

#[test]
fn incompatible_action_names_the_claimant_and_the_action() {
    let mut registry = CommandRegistry::new();
    registry.register(cmd("owner", ALPHA_ACTION), PARSES).unwrap();
    assert_eq!(incompatible_action(&registry, &cmd("owner", ALPHA_ACTION)), None, "the owner itself is compatible");
    assert_eq!(incompatible_action(&registry, &cmd("other", BETA_ACTION)), None, "an unowned action is compatible");
    assert_eq!(
        incompatible_action(&registry, &cmd("other", ALPHA_ACTION)),
        Some(CommandError::IncompatibleAction { command: CommandId::new("other"), action: ALPHA_ACTION }),
    );
    assert_eq!(registry.action_owner(ALPHA_ACTION), Some(CommandId::new("owner")));
    assert_eq!(registry.action_owner(BETA_ACTION), None);
}

#[test]
fn an_invalid_install_error_renders_its_cause() {
    let error = InstallError::Runtime(CommandError::Duplicate { command: beta() });
    assert_eq!(error.to_text(), "command `test.beta` is already registered");
}
