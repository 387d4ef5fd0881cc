use neutron_components_app::commands::keys::MenuSectionKey;
use neutron_components_app::commands::menu::MenuPlan;
use neutron_components_app::commands::registry::{
    split_around_registry, CommandError, CommandRegistry, KeymapVerdict,
};
use neutron_components_app::commands::{CommandId, CommandScope, RuntimeCommand};

const PARSES: KeymapVerdict = KeymapVerdict { keystroke: true, context: true };

fn cmd(id: &'static str) -> RuntimeCommand {
    RuntimeCommand::new(CommandId::new(id), id, CommandScope::App, id)
}

#[test]
fn register_dedups_last_wins_and_keeps_slot() {
    let mut reg = CommandRegistry::new();
    reg.register(cmd("a").with_binding("cmd-a"), PARSES).unwrap();
    reg.register(cmd("b"), PARSES).unwrap();
    reg.register(
        RuntimeCommand::new(CommandId::new("a"), "A2", CommandScope::App, "a").with_binding("cmd-x"),
        PARSES,
    )
    .unwrap();

    assert_eq!(reg.commands().len(), 2, "dedup keeps a single entry per id");
    assert_eq!(reg.get(CommandId::new("a")).unwrap().label(), "A2");
    assert_eq!(reg.get(CommandId::new("a")).unwrap().default_binding(), Some("cmd-x"));
    assert_eq!(reg.commands()[0].id(), CommandId::new("a"));
    assert_eq!(reg.commands()[1].id(), CommandId::new("b"));
}

#[test]
fn invalid_binding_does_not_mutate_registry() {
    let mut reg = CommandRegistry::new();
    reg.register(cmd("a"), PARSES).unwrap();

    let error = reg
        .register(
            cmd("b").with_binding("not-a-valid-modifier-x"),
            KeymapVerdict { keystroke: false, context: true },
        )
        .unwrap_err();

    assert!(matches!(error, CommandError::InvalidBinding { .. }));
    assert!(reg.get(CommandId::new("a")).is_some());
    assert!(reg.get(CommandId::new("b")).is_none());
}

#[test]
fn register_new_section_rejects_a_duplicate_slot_and_preserves_state() {
    let mut reg = CommandRegistry::new();
    reg.register_new_section(MenuSectionKey::THEME()).expect("the first registration succeeds");
    assert!(reg.section(MenuSectionKey::THEME().as_str()));

    let error = reg
        .register_new_section(MenuSectionKey::THEME())
        .expect_err("a second registration for the same slot is rejected");

    assert!(matches!(
        error,
        CommandError::DuplicateSection { section } if section == MenuSectionKey::THEME()
    ));
    assert!(
        reg.section(MenuSectionKey::THEME().as_str()),
        "the registry keeps the first provider on a rejected second registration",
    );
}

#[test]
fn a_bad_key_context_is_reported_before_the_keystroke() {
    let mut reg = CommandRegistry::new();
    let error = reg
        .register(
            cmd("a").with_binding("cmd-a").with_binding_context("Editor &&"),
            KeymapVerdict { keystroke: false, context: false },
        )
        .unwrap_err();
    assert_eq!(
        error,
        CommandError::InvalidKeyContext { command: CommandId::new("a"), context: "Editor &&" },
    );
    assert_eq!(error.to_text(), "invalid key context `Editor &&` for command `a`");
    assert!(reg.commands().is_empty());
}

#[test]
fn a_command_without_a_binding_needs_no_parse() {
    let mut reg = CommandRegistry::new();
    reg.register(cmd("a"), KeymapVerdict { keystroke: false, context: false })
        .expect("nothing to parse");
    assert!(reg.contains(CommandId::new("a")));
}

#[test]
fn set_section_lists_a_slot_once_and_the_plan_and_liveness_are_recorded() {
    let mut reg = CommandRegistry::new();
    reg.set_section("recent");
    reg.set_section("recent");
    assert!(reg.section("recent"));
    assert!(!reg.section("other"));
    assert!(reg.plan().is_none());
    reg.set_plan(MenuPlan::standard());
    assert_eq!(reg.plan().expect("installed").outline(&[]).len(), 3);
    assert!(!reg.is_active());
    reg.activate();
    assert!(reg.is_active());
}

#[test]
fn command_errors_render_their_subject() {
    let a = CommandId::new("a");
    assert_eq!(
        CommandError::InvalidBinding { command: a, binding: "cmd-?" }.to_text(),
        "invalid default binding `cmd-?` for command `a`",
    );
    assert_eq!(CommandError::Duplicate { command: a }.to_text(), "command `a` is already registered");
    assert_eq!(
        CommandError::DuplicateSection { section: MenuSectionKey::THEME() }.to_text(),
        "menu section `appearance` is already registered",
    );
    assert_eq!(
        CommandError::IncompatibleAction { command: a, action: "app::Quit" }.to_text(),
        "command `a` is incompatible with the current id/action mapping for `app::Quit`",
    );
    assert_eq!(
        CommandError::FrameworkOwned { command: a }.to_text(),
        "command `a` is a framework-owned standard command and cannot be replaced",
    );
}

fn split_case() {
    // component tier (before) | two registry-owned | app raw bind (after).
    let snapshot = vec![(false, "ctrl-a"), (true, "cmd-1"), (true, "cmd-2"), (false, "ctrl-b")];
    let (before, after) = split_around_registry(snapshot);
    assert_eq!(before, vec!["ctrl-a"]);
    assert_eq!(after, vec!["ctrl-b"]);
}

#[test]
fn menus_split_around_registry_preserves_foreign_positions() {
    split_case();
}

#[test]
fn plugin_split_around_registry_preserves_foreign_positions() {
    split_case();
}

fn binding_order_case() {
    let mut registry = CommandRegistry::new();
    registry.register(cmd("a").with_binding("cmd-k").placed("App", 0, 0), PARSES).unwrap();
    // No binding -> excluded.
    registry.register(cmd("b"), PARSES).unwrap();
    registry.register(cmd("c").with_binding("cmd-k").placed("Edit", 0, 0), PARSES).unwrap();

    // "c" comes after "a": it is registered later, so it wins the shared
    // "cmd-k" chord under reverse-order resolution.
    assert_eq!(
        registry.default_bindings(),
        vec![(CommandId::new("a"), "cmd-k"), (CommandId::new("c"), "cmd-k")]
    );
}

#[test]
fn menus_bindings_follow_registration_order() {
    binding_order_case();
}

#[test]
fn plugin_bindings_follow_registration_order() {
    binding_order_case();
}

#[test]
fn a_snapshot_without_registry_bindings_is_all_before() {
    let (before, after) = split_around_registry(vec![(false, 1), (false, 2)]);
    assert_eq!(before, vec![1, 2]);
    assert!(after.is_empty());
}
