use neutron_components_app::commands::keys::{MenuKey, MenuSectionKey};
use neutron_components_app::commands::lowering::lower_menus;
use neutron_components_app::commands::menu::{
    assemble_menu_items, dock_nodes, menu_title, MenuItemSlot, MenuPlan, MenuPlanNode, THEME_SECTION,
};
use neutron_components_app::commands::menu_model::{Menu, MenuBar, MenuLabel};
use neutron_components_app::commands::standard::DesktopPlatform;
use neutron_components_app::commands::{CommandId, CommandScope, MenuPlacement, RuntimeCommand};

const APP_MENU: &str = "App";
const EDIT_MENU: &str = "Edit";
const WINDOW_MENU: &str = "Window";
const DOCK_MENU: &str = "Dock";

fn cmd(id: &'static str, placement: MenuPlacement) -> RuntimeCommand {
    RuntimeCommand::new(CommandId::new(id), id, CommandScope::App, id).with_placement(placement)
}

#[test]
fn outline_groups_with_separators_and_sorts() {
    let commands = vec![
        cmd("quit", MenuPlacement::new(APP_MENU, 9, 0)),
        cmd("about", MenuPlacement::new(APP_MENU, 0, 0)),
        cmd("copy", MenuPlacement::new(EDIT_MENU, 0, 1)),
        cmd("undo", MenuPlacement::new(EDIT_MENU, 0, 0)),
    ];
    let plan = MenuPlan::standard();
    let outline = plan.outline(&commands);

    assert_eq!(outline[0].key, APP_MENU);
    assert_eq!(
        outline[0].nodes,
        vec![
            MenuPlanNode::Command(CommandId::new("about")),
            MenuPlanNode::Separator,
            MenuPlanNode::Command(CommandId::new("quit")),
        ]
    );
    assert_eq!(
        outline[1].nodes,
        vec![
            MenuPlanNode::Command(CommandId::new("undo")),
            MenuPlanNode::Command(CommandId::new("copy")),
        ]
    );
    assert_eq!(outline[2].key, WINDOW_MENU);
    assert!(outline[2].nodes.is_empty());
}

#[test]
fn theme_menu_reserves_section_after_separator() {
    let commands = vec![cmd("about", MenuPlacement::new(APP_MENU, 0, 0))];
    let plan = MenuPlan::standard().with_theme_menu();
    let outline = plan.outline(&commands);
    assert_eq!(
        outline[0].nodes,
        vec![
            MenuPlanNode::Command(CommandId::new("about")),
            MenuPlanNode::Separator,
            MenuPlanNode::Section(THEME_SECTION),
        ]
    );
}

#[test]
fn theme_section_without_commands_has_no_leading_separator() {
    let plan = MenuPlan::standard().with_theme_menu();
    let outline = plan.outline(&[]);
    assert_eq!(outline[0].nodes, vec![MenuPlanNode::Section(THEME_SECTION)]);
}

#[test]
fn exact_and_appended_menu_keys_preserve_order() {
    let plan = MenuPlan::from_keys(&[EDIT_MENU, "Tools"]).with_menu(WINDOW_MENU);
    let outline = plan.outline(&[]);
    assert_eq!(
        outline.iter().map(|menu| menu.key).collect::<Vec<_>>(),
        vec![EDIT_MENU, "Tools", WINDOW_MENU]
    );
}

#[test]
fn duplicate_appended_menu_key_is_ignored() {
    let plan = MenuPlan::from_keys(&[EDIT_MENU]).with_menu(EDIT_MENU);
    assert_eq!(plan.outline(&[]).len(), 1);
}

#[test]
fn one_command_projects_into_every_menu_it_is_placed_in() {
    let commands = vec![
        cmd("copy", MenuPlacement::new(EDIT_MENU, 0, 0))
            .with_placement(MenuPlacement::new(APP_MENU, 0, 1))
            .with_placement(MenuPlacement::new(DOCK_MENU, 0, 0)),
        cmd("about", MenuPlacement::new(APP_MENU, 0, 0)),
    ];
    let outline = MenuPlan::standard().outline(&commands);

    assert_eq!(
        outline[0].nodes,
        vec![
            MenuPlanNode::Command(CommandId::new("about")),
            MenuPlanNode::Command(CommandId::new("copy")),
        ],
        "the App menu honors the command's second placement",
    );
    assert_eq!(
        outline[1].nodes,
        vec![MenuPlanNode::Command(CommandId::new("copy"))],
        "and the Edit menu still honors its first",
    );
    assert_eq!(
        commands[0].placement(),
        Some(MenuPlacement::new(EDIT_MENU, 0, 0)),
        "the compatibility accessor reports the first placement only",
    );
}

#[test]
fn a_single_placement_still_projects_exactly_once() {
    let commands = vec![cmd("copy", MenuPlacement::new(EDIT_MENU, 0, 0))];
    let outline = MenuPlan::standard().outline(&commands);
    assert!(outline[0].nodes.is_empty(), "App menu stays empty");
    assert_eq!(
        outline[1].nodes,
        vec![MenuPlanNode::Command(CommandId::new("copy"))],
        "appending placements did not duplicate the old single-placement case",
    );
}

fn alpha() -> CommandId {
    CommandId::new("test.alpha")
}

fn beta() -> CommandId {
    CommandId::new("test.beta")
}

#[test]
fn one_command_projected_into_two_menus_lowers_into_both() {
    let outline = MenuBar::custom(vec![
        Menu::keyed(MenuKey::EDIT()).command(alpha()),
        Menu::keyed(MenuKey::WINDOW()).command(beta()).command(alpha()),
    ])
    .outline(DesktopPlatform::Linux)
    .expect("structurally valid");

    let lowered = lower_menus(&outline);
    assert_eq!(
        lowered.placements(alpha()),
        vec![MenuPlacement::new("Edit", 0, 0), MenuPlacement::new("Window", 0, 1)],
        "a repeated projection contributes one placement per menu",
    );

    let mut alpha_command = RuntimeCommand::new(alpha(), "Alpha", CommandScope::App, "menu_test::Alpha");
    for placement in lowered.placements(alpha()) {
        alpha_command = alpha_command.with_placement(placement);
    }
    let commands = vec![
        alpha_command,
        RuntimeCommand::new(beta(), "Beta", CommandScope::Window, "menu_test::Beta")
            .with_placement(lowered.placements(beta())[0]),
    ];
    let projected = lowered.plan().outline(&commands);
    assert_eq!(projected[0].nodes, vec![MenuPlanNode::Command(alpha())]);
    assert_eq!(
        projected[1].nodes,
        vec![MenuPlanNode::Command(beta()), MenuPlanNode::Command(alpha())],
    );
}

#[test]
fn separators_become_groups_and_sections_keep_their_slot() {
    let outline = MenuBar::custom(vec![Menu::keyed(MenuKey::EDIT())
        .command(alpha())
        .separator()
        .command(beta())
        .section(MenuSectionKey::THEME())])
    .outline(DesktopPlatform::Linux)
    .expect("valid");

    let lowered = lower_menus(&outline);
    assert_eq!(lowered.placements(alpha()), vec![MenuPlacement::new("Edit", 0, 0)]);
    assert_eq!(lowered.placements(beta()), vec![MenuPlacement::new("Edit", 1, 0)]);

    let commands = vec![
        RuntimeCommand::new(alpha(), "Alpha", CommandScope::App, "menu_test::Alpha")
            .with_placement(lowered.placements(alpha())[0]),
        RuntimeCommand::new(beta(), "Beta", CommandScope::Window, "menu_test::Beta")
            .with_placement(lowered.placements(beta())[0]),
    ];
    assert_eq!(
        lowered.plan().outline(&commands)[0].nodes,
        vec![
            MenuPlanNode::Command(alpha()),
            MenuPlanNode::Separator,
            MenuPlanNode::Command(beta()),
            MenuPlanNode::Section(MenuSectionKey::THEME().as_str()),
        ],
    );
}

#[test]
fn the_dock_projection_is_not_a_top_level_menu() {
    let outline = MenuBar::custom(vec![
        Menu::keyed(MenuKey::EDIT()).command(alpha()),
        Menu::keyed(MenuKey::DOCK()).command(beta()),
    ])
    .outline(DesktopPlatform::MacOs)
    .expect("valid");

    let lowered = lower_menus(&outline);
    assert_eq!(
        lowered.plan().outline(&[]).iter().map(|menu| menu.key).collect::<Vec<_>>(),
        vec!["Edit"],
    );
    assert_eq!(
        lowered.placements(beta()),
        vec![MenuPlacement::new("Dock", 0, 0)],
        "dock commands still carry a placement for the dock projection",
    );
}

#[test]
fn reserved_sections_sort_by_their_group_and_order_among_commands() {
    let mut plan = MenuPlan::from_keys(&[EDIT_MENU]);
    plan.reserve_section_at(EDIT_MENU, 0, 1, "recent");
    plan.reserve_services_at(EDIT_MENU, 2, 0);
    plan.reserve_section_at("Missing", 0, 0, "ignored");
    let commands = vec![
        cmd("paste", MenuPlacement::new(EDIT_MENU, 0, 2)),
        cmd("cut", MenuPlacement::new(EDIT_MENU, 0, 0)),
        cmd("find", MenuPlacement::new(EDIT_MENU, 1, 0)),
    ];
    assert_eq!(
        plan.outline(&commands)[0].nodes,
        vec![
            MenuPlanNode::Command(CommandId::new("cut")),
            MenuPlanNode::Section("recent"),
            MenuPlanNode::Command(CommandId::new("paste")),
            MenuPlanNode::Separator,
            MenuPlanNode::Command(CommandId::new("find")),
            MenuPlanNode::Separator,
            MenuPlanNode::Services,
        ],
    );
}

#[test]
fn equal_positions_keep_registration_order_and_slots_come_last() {
    let mut plan = MenuPlan::from_keys(&[EDIT_MENU]);
    plan.reserve_section_at(EDIT_MENU, 0, 0, "slot");
    let commands = vec![
        cmd("second", MenuPlacement::new(EDIT_MENU, 0, 0)),
        cmd("first", MenuPlacement::new(EDIT_MENU, 0, 0)),
    ];
    assert_eq!(
        plan.outline(&commands)[0].nodes,
        vec![
            MenuPlanNode::Command(CommandId::new("second")),
            MenuPlanNode::Command(CommandId::new("first")),
            MenuPlanNode::Section("slot"),
        ],
    );
}

#[test]
fn declared_titles_survive_lowering() {
    let outline = MenuBar::custom(vec![Menu::new(MenuKey::EDIT(), MenuLabel::text("Bearbeiten"))
        .command(alpha())])
    .outline(DesktopPlatform::Linux)
    .expect("valid");
    let lowered = lower_menus(&outline);
    let label = lowered.plan().menu_label("Edit").expect("a declared title");
    assert_eq!(label.static_text(), Some("Bearbeiten"));
    assert!(lowered.plan().menu_label("Window").is_none());
    assert!(lowered.placements(beta()).is_empty());
}

#[test]
fn runtime_command_builders_record_binding_and_placements() {
    let command = RuntimeCommand::new(alpha(), "Alpha", CommandScope::Window, "menu_test::Alpha")
        .with_binding("cmd-a")
        .with_binding_context("Editor")
        .placed(EDIT_MENU, 1, 2);
    assert_eq!(command.id(), alpha());
    assert_eq!(command.label(), "Alpha");
    assert_eq!(command.scope(), CommandScope::Window);
    assert_eq!(command.default_binding(), Some("cmd-a"));
    assert_eq!(command.binding_context(), Some("Editor"));
    assert_eq!(command.placements(), &[MenuPlacement::new(EDIT_MENU, 1, 2)]);
    assert_eq!(RuntimeCommand::new(beta(), "Beta", CommandScope::App, "menu_test::Beta").placement(), None);
}

#[test]
fn assembled_items_never_lead_or_double_a_separator() {
    let copy = CommandId::new("copy");
    let ghost = CommandId::new("ghost");
    let nodes = vec![
        MenuPlanNode::Separator,
        MenuPlanNode::Command(copy),
        MenuPlanNode::Separator,
        MenuPlanNode::Separator,
        MenuPlanNode::Section("missing"),
        MenuPlanNode::Command(ghost),
        MenuPlanNode::Separator,
        MenuPlanNode::Section("recent"),
        MenuPlanNode::Separator,
        MenuPlanNode::Services,
    ];
    let items = assemble_menu_items(&nodes, &[copy], &[("recent", 2), ("empty", 0)]);
    assert_eq!(
        items,
        vec![
            MenuItemSlot::Command(copy),
            MenuItemSlot::Separator,
            MenuItemSlot::SectionItem { slot: "recent", index: 0 },
            MenuItemSlot::SectionItem { slot: "recent", index: 1 },
            MenuItemSlot::Separator,
            MenuItemSlot::Services,
        ],
    );
}

#[test]
fn an_empty_section_takes_back_the_separator_before_it() {
    let copy = CommandId::new("copy");
    let nodes = vec![
        MenuPlanNode::Command(copy),
        MenuPlanNode::Separator,
        MenuPlanNode::Section("empty"),
    ];
    assert_eq!(
        assemble_menu_items(&nodes, &[copy], &[("empty", 0)]),
        vec![MenuItemSlot::Command(copy)],
    );
}

#[test]
fn titles_prefer_the_declared_label_then_the_app_title_then_the_key() {
    assert_eq!(menu_title(Some(&MenuLabel::text("Bearbeiten")), "Edit", "Probe"), "Bearbeiten");
    assert_eq!(menu_title(Some(&MenuLabel::app_display_name()), "Tools", "Probe"), "Probe");
    assert_eq!(menu_title(None, "App", "Probe"), "Probe");
    assert_eq!(menu_title(None, "Window", "Probe"), "Window");
}

#[test]
fn the_menu_bar_drops_menus_without_items() {
    let commands = vec![
        cmd("copy", MenuPlacement::new(EDIT_MENU, 0, 0)),
        cmd("about", MenuPlacement::new(APP_MENU, 0, 0)),
    ];
    let menus = MenuPlan::standard().build_menu_bar(&commands, &[], "Probe");
    assert_eq!(menus.len(), 2);
    assert_eq!(menus[0].title, "Probe");
    assert_eq!(menus[0].items, vec![MenuItemSlot::Command(CommandId::new("about"))]);
    assert_eq!(menus[1].title, "Edit");
    assert_eq!(menus[1].items, vec![MenuItemSlot::Command(CommandId::new("copy"))]);
}

#[test]
fn the_dock_projection_reads_every_placement() {
    let commands = vec![
        cmd("copy", MenuPlacement::new(EDIT_MENU, 0, 0))
            .with_placement(MenuPlacement::new(DOCK_MENU, 0, 0)),
        cmd("new", MenuPlacement::new(DOCK_MENU, 1, 0)),
    ];
    assert_eq!(
        dock_nodes(&commands),
        vec![
            MenuPlanNode::Command(CommandId::new("copy")),
            MenuPlanNode::Separator,
            MenuPlanNode::Command(CommandId::new("new")),
        ],
        "the dock placement projects even though it is not the first",
    );
    assert_eq!(
        MenuPlan::standard().outline(&commands)[1].nodes,
        vec![MenuPlanNode::Command(CommandId::new("copy"))],
        "and the menu placement still projects",
    );
}
