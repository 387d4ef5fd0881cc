use neutron_components_app::commands::faults::CommandFault;
use neutron_components_app::commands::keys::{MenuKey, MenuSectionKey};
use neutron_components_app::commands::menu_model::{
    Menu, MenuBar, MenuLabel, MenuNode, MenuOutline, StandardLayout,
};
use neutron_components_app::commands::standard::{
    app_menu_key, DesktopPlatform, StandardFeatures, ABOUT_COMMAND_ID, CLOSE_WINDOW_COMMAND_ID,
    COPY_COMMAND_ID, CUT_COMMAND_ID, DELETE_COMMAND_ID, DELETE_NEXT_WORD_COMMAND_ID,
    DELETE_PREVIOUS_WORD_COMMAND_ID, FIND_COMMAND_ID, HIDE_APP_COMMAND_ID, HIDE_OTHERS_COMMAND_ID,
    MINIMIZE_COMMAND_ID, OPEN_SETTINGS_COMMAND_ID, PASTE_COMMAND_ID, QUIT_COMMAND_ID,
    REDO_COMMAND_ID, SELECT_ALL_COMMAND_ID, SHOW_ALL_COMMAND_ID, UNDO_COMMAND_ID,
    ZOOM_COMMAND_ID,
};
use neutron_components_app::commands::CommandId;
use neutron_components_app::declaration::errors::{DeclarationError, DeclarationErrors};

fn keys(outline: &MenuOutline) -> Vec<&'static str> {
    outline.menus().iter().map(|menu| menu.key().as_str()).collect()
}

fn nodes(outline: &MenuOutline, key: MenuKey) -> &[MenuNode] {
    outline
        .menus()
        .iter()
        .find(|menu| menu.key() == key)
        .unwrap_or_else(|| panic!("outline contains `{}`", key.as_str()))
        .nodes()
}

fn full_standard() -> StandardLayout {
    StandardLayout::new().with_settings().with_about().with_theme_section()
}

/// Unwrap the command faults out of a public [`MenuBar::outline`] error.
fn command_faults(errors: DeclarationErrors) -> Vec<CommandFault> {
    errors
        .iter()
        .map(|error| match error {
            DeclarationError::Command { fault } => *fault,
            other => panic!("expected a command fault, got {:?}", other),
        })
        .collect()
}

#[test]
fn macos_standard_outline_follows_platform_convention() {
    let outline = MenuBar::from_standard_layout(full_standard())
        .outline(DesktopPlatform::MacOs)
        .expect("the standard layout is valid");

    assert_eq!(keys(&outline), vec!["App", "Edit", "Window"]);
    assert_eq!(
        nodes(&outline, MenuKey::APP()),
        [
            MenuNode::Command(ABOUT_COMMAND_ID()),
            MenuNode::Separator,
            MenuNode::Command(OPEN_SETTINGS_COMMAND_ID()),
            MenuNode::Separator,
            MenuNode::Section(MenuSectionKey::THEME()),
            MenuNode::Separator,
            MenuNode::Services,
            MenuNode::Separator,
            MenuNode::Command(HIDE_APP_COMMAND_ID()),
            MenuNode::Command(HIDE_OTHERS_COMMAND_ID()),
            MenuNode::Command(SHOW_ALL_COMMAND_ID()),
            MenuNode::Separator,
            MenuNode::Command(QUIT_COMMAND_ID()),
        ],
    );
    assert_eq!(
        nodes(&outline, MenuKey::WINDOW()),
        [
            MenuNode::Command(MINIMIZE_COMMAND_ID()),
            MenuNode::Command(ZOOM_COMMAND_ID()),
            MenuNode::Separator,
            MenuNode::Command(CLOSE_WINDOW_COMMAND_ID()),
        ],
    );
}

/// The public consuming path: `hide`/`insert` on `MenuBar::standard()`
/// edit the wrapped standard layout exactly as building a `StandardLayout`
/// directly would.
#[test]
fn hide_and_insert_edit_the_standard_layout_through_menu_bar() {
    let outline = MenuBar::standard()
        .hide_menu(MenuKey::VIEW())
        .insert(
            Menu::new(MenuKey::new("Tools").unwrap(), MenuLabel::text("Tools")).command(CommandId::new("tools.run")),
        )
        .outline(DesktopPlatform::Linux)
        .expect("hiding an optional menu and inserting a custom one are both valid edits");

    assert_eq!(
        keys(&outline),
        vec!["File", "Edit", "Tools", "Window"],
        "View is hidden and Tools is inserted before Window",
    );
}

/// The motivating case (tsq-11.5.8): an app-owned `Open Repository`
/// command contributed to Help must land next to the standard content on
/// every platform, without ever duplicating the Help key — merged into
/// the existing Help menu on Windows/Linux, and as a new top-level Help
/// menu (before Window) on macOS, where the standard layout never places
/// one.
#[test]
fn contribute_places_an_app_command_in_help_on_every_platform() {
    let repository = CommandId::new("app.open_repository");
    for platform in DesktopPlatform::ALL() {
        let outline = MenuBar::from_standard_layout(
            full_standard().contribute(Menu::keyed(MenuKey::HELP()).command(repository)),
        )
        .outline(platform)
        .expect("a Help contribution is valid on every platform");

        assert_eq!(
            keys(&outline)
                .into_iter()
                .filter(|key| *key == "Help")
                .count(),
            1,
            "{platform:?} must not gain a duplicate Help key",
        );
        let help = nodes(&outline, MenuKey::HELP());
        match platform {
            DesktopPlatform::MacOs => {
                assert_eq!(
                    help,
                    [MenuNode::Command(repository)],
                    "macOS has no standard Help menu, so the contribution is the whole menu",
                );
                assert_eq!(
                    keys(&outline),
                    vec!["App", "Edit", "Help", "Window"],
                    "the contributed Help menu is inserted before Window",
                );
            }
            DesktopPlatform::Windows | DesktopPlatform::Linux => {
                assert_eq!(
                    help,
                    [
                        MenuNode::Command(ABOUT_COMMAND_ID()),
                        MenuNode::Separator,
                        MenuNode::Command(repository),
                    ],
                    "{platform:?} appends the contribution after standard Help content, \
                     separated by one separator",
                );
            }
        }
    }
}

/// Several contributions to one key merge in declaration order and never
/// create a duplicate top-level key, whether the target key is an
/// existing standard menu (Linux Help) or one the platform's standard
/// layout never provides (macOS Help).
#[test]
fn repeated_contributions_to_one_key_merge_in_order_without_duplicating_the_key() {
    let first = CommandId::new("app.open_repository");
    let second = CommandId::new("app.report_issue");
    let build = || {
        full_standard()
            .contribute(Menu::keyed(MenuKey::HELP()).command(first))
            .contribute(Menu::keyed(MenuKey::HELP()).command(second))
    };

    let linux = MenuBar::from_standard_layout(build())
        .outline(DesktopPlatform::Linux)
        .expect("valid");
    assert_eq!(
        keys(&linux)
            .into_iter()
            .filter(|key| *key == "Help")
            .count(),
        1,
    );
    assert_eq!(
        nodes(&linux, MenuKey::HELP()),
        [
            MenuNode::Command(ABOUT_COMMAND_ID()),
            MenuNode::Separator,
            MenuNode::Command(first),
            MenuNode::Separator,
            MenuNode::Command(second),
        ],
    );

    let macos = MenuBar::from_standard_layout(build())
        .outline(DesktopPlatform::MacOs)
        .expect("valid");
    assert_eq!(
        keys(&macos)
            .into_iter()
            .filter(|key| *key == "Help")
            .count(),
        1,
        "two contributions to the same absent key must not create two Help menus",
    );
    assert_eq!(
        nodes(&macos, MenuKey::HELP()),
        [
            MenuNode::Command(first),
            MenuNode::Separator,
            MenuNode::Command(second),
        ],
    );
}

/// `contribute` only makes sense against the standard layout: calling it
/// against `Custom` or `None` is a declaration fault, matching
/// `hide`/`insert`.
#[test]
fn contribute_on_a_non_standard_policy_is_a_declaration_fault() {
    let faults = command_faults(
        MenuBar::custom(vec![Menu::keyed(MenuKey::EDIT())])
            .contribute(Menu::keyed(MenuKey::HELP()).command(CommandId::new("app.open_repository")))
            .outline(DesktopPlatform::Linux)
            .expect_err("contribute does not apply to a custom menu bar"),
    );
    assert_eq!(
        faults,
        vec![CommandFault::InvalidStandardEdit {
            menu: MenuKey::HELP(),
            reason: "contribute only edits the standard menu-bar layout",
        }],
    );

    let faults = command_faults(
        MenuBar::none()
            .contribute(Menu::keyed(MenuKey::HELP()).command(CommandId::new("app.open_repository")))
            .outline(DesktopPlatform::Linux)
            .expect_err("contribute does not apply to an absent menu bar"),
    );
    assert_eq!(
        faults,
        vec![CommandFault::InvalidStandardEdit {
            menu: MenuKey::HELP(),
            reason: "contribute only edits the standard menu-bar layout",
        }],
    );
}

/// A contribution to a key nobody else touches is still just inserted
/// before Window, exactly like `insert`, proving `contribute` is a
/// strict superset (merge-or-insert) rather than a different placement
/// rule.
#[test]
fn contribute_to_a_key_with_no_standard_or_prior_contribution_is_inserted_before_window() {
    let outline = MenuBar::from_standard_layout(full_standard().contribute(
        Menu::new(MenuKey::new("Tools").unwrap(), MenuLabel::text("Tools")).command(CommandId::new("tools.run")),
    ))
    .outline(DesktopPlatform::Linux)
    .expect("valid");

    assert_eq!(
        keys(&outline),
        vec!["File", "Edit", "View", "Tools", "Window", "Help"],
    );
    assert_eq!(
        nodes(&outline, MenuKey::new("Tools").unwrap()),
        [MenuNode::Command(CommandId::new("tools.run"))],
        "with no standard menu and no prior contribution at this key, there is no \
         standard/contributed boundary to separate",
    );
}

#[test]
fn windows_and_linux_standard_outlines_move_the_app_block_and_about() {
    for platform in [DesktopPlatform::Windows, DesktopPlatform::Linux] {
        let outline = MenuBar::from_standard_layout(full_standard())
            .outline(platform)
            .expect("the standard layout is valid");

        assert_eq!(
            keys(&outline),
            vec!["File", "Edit", "View", "Window", "Help"],
            "{platform:?} keeps the conventional in-window bar",
        );
        assert_eq!(
            nodes(&outline, MenuKey::FILE()),
            [
                MenuNode::Command(OPEN_SETTINGS_COMMAND_ID()),
                MenuNode::Separator,
                MenuNode::Command(QUIT_COMMAND_ID()),
            ],
        );
        assert_eq!(
            nodes(&outline, MenuKey::VIEW()),
            [MenuNode::Section(MenuSectionKey::THEME())],
        );
        assert_eq!(
            nodes(&outline, MenuKey::HELP()),
            [MenuNode::Command(ABOUT_COMMAND_ID())],
        );
        assert_eq!(
            nodes(&outline, MenuKey::WINDOW()),
            [MenuNode::Command(CLOSE_WINDOW_COMMAND_ID())],
            "Minimize and Zoom are macOS-only",
        );
    }
}

/// The Edit menu's exact node order, unchanged from StoryApp's old menu,
/// on every desktop platform: Undo, Redo, separator, Cut, Copy, Paste,
/// separator, Delete, Delete Previous Word, Delete Next Word, separator,
/// Find, separator, Select All.
#[test]
fn edit_menu_matches_the_exact_cross_platform_node_order() {
    for platform in DesktopPlatform::ALL() {
        let outline = MenuBar::from_standard_layout(full_standard())
            .outline(platform)
            .expect("the standard layout is valid");

        assert_eq!(
            nodes(&outline, MenuKey::EDIT()),
            [
                MenuNode::Command(UNDO_COMMAND_ID()),
                MenuNode::Command(REDO_COMMAND_ID()),
                MenuNode::Separator,
                MenuNode::Command(CUT_COMMAND_ID()),
                MenuNode::Command(COPY_COMMAND_ID()),
                MenuNode::Command(PASTE_COMMAND_ID()),
                MenuNode::Separator,
                MenuNode::Command(DELETE_COMMAND_ID()),
                MenuNode::Command(DELETE_PREVIOUS_WORD_COMMAND_ID()),
                MenuNode::Command(DELETE_NEXT_WORD_COMMAND_ID()),
                MenuNode::Separator,
                MenuNode::Command(FIND_COMMAND_ID()),
                MenuNode::Separator,
                MenuNode::Command(SELECT_ALL_COMMAND_ID()),
            ],
            "{platform:?} Edit menu must preserve the old menu's exact order",
        );
    }
}

#[test]
fn absent_optional_surfaces_leave_no_inert_items() {
    let outline = MenuBar::standard()
        .outline(DesktopPlatform::Linux)
        .expect("valid");

    assert_eq!(
        keys(&outline),
        vec!["File", "Edit", "Window"],
        "View needs a theme section and Help needs About; both are dropped",
    );
    assert_eq!(
        nodes(&outline, MenuKey::FILE()),
        [MenuNode::Command(QUIT_COMMAND_ID())],
    );
}

#[test]
fn custom_menus_are_inserted_before_window() {
    let outline = MenuBar::from_standard_layout(
        full_standard()
            .insert(Menu::new(MenuKey::new("Tools").unwrap(), MenuLabel::text("Tools")))
            .insert(Menu::new(MenuKey::new("Debug").unwrap(), MenuLabel::text("Debug"))),
    )
    .outline(DesktopPlatform::Linux)
    .expect("valid");

    assert_eq!(
        keys(&outline),
        vec!["File", "Edit", "View", "Window", "Help"],
        "menus declared with no nodes are dropped from the outline",
    );

    let outline = MenuBar::from_standard_layout(full_standard().insert(
        Menu::new(MenuKey::new("Tools").unwrap(), MenuLabel::text("Tools")).command(CommandId::new("tools.run")),
    ))
    .outline(DesktopPlatform::Linux)
    .expect("valid");
    assert_eq!(
        keys(&outline),
        vec!["File", "Edit", "View", "Tools", "Window", "Help"],
    );
}

/// Hiding an optional menu is only safe while nothing enabled lives there,
/// and where a feature lives is a property of the resolved platform: About
/// sits in Help on Windows and Linux but in the application menu on macOS,
/// where Help is not a standard menu at all.
#[test]
fn hiding_help_strands_about_only_where_the_platform_puts_it_there() {
    for platform in DesktopPlatform::ALL() {
        let result = MenuBar::from_standard_layout(
            StandardLayout::new().with_about().hide_menu(MenuKey::HELP()),
        )
        .outline(platform);

        match platform {
            DesktopPlatform::MacOs => {
                let outline = result.unwrap_or_else(|faults| {
                    panic!("macOS keeps About in the application menu: {faults:?}")
                });
                assert!(
                    outline.command_ids().contains(&ABOUT_COMMAND_ID()),
                    "About survives on macOS because Help never held it",
                );
            }
            DesktopPlatform::Windows | DesktopPlatform::Linux => {
                let faults = command_faults(result.expect_err("About would have no home"));
                assert_eq!(
                    faults,
                    vec![CommandFault::StrandedStandardFeature {
                        menu: MenuKey::HELP(),
                        feature: "About",
                    }],
                    "{platform:?} places About in Help",
                );
            }
        }
    }
}

#[test]
fn hiding_view_strands_the_appearance_section_only_where_it_lives_there() {
    for platform in DesktopPlatform::ALL() {
        let result = MenuBar::from_standard_layout(
            StandardLayout::new()
                .with_theme_section()
                .hide_menu(MenuKey::VIEW()),
        )
        .outline(platform);

        match platform {
            DesktopPlatform::MacOs => {
                let outline = result.unwrap_or_else(|faults| {
                    panic!("macOS keeps Appearance in the application menu: {faults:?}")
                });
                assert!(
                    outline
                        .section_slots()
                        .iter()
                        .any(|(_, section)| *section == MenuSectionKey::THEME()),
                );
            }
            DesktopPlatform::Windows | DesktopPlatform::Linux => {
                let faults = command_faults(result.expect_err("Appearance would have no home"));
                assert_eq!(
                    faults,
                    vec![CommandFault::StrandedStandardFeature {
                        menu: MenuKey::VIEW(),
                        feature: "Appearance",
                    }],
                    "{platform:?} places the Appearance section in View",
                );
            }
        }
    }
}

/// Hiding a *required* menu is reported once, as a rejected edit. The menu
/// is never actually removed, so nothing it hosts is stranded and blaming
/// the same edit twice would only obscure the fix.
#[test]
fn hiding_a_required_menu_is_reported_as_a_rejected_edit_and_not_as_stranding() {
    for platform in DesktopPlatform::ALL() {
        let hidden = app_menu_key(platform);
        let faults = MenuBar::from_standard_layout(
            full_standard().hide_menu(MenuKey::new(hidden).expect("a standard key is valid")),
        )
        .outline(platform)
        .expect_err("the application menu is framework-required");
        let faults = command_faults(faults);

        assert!(
            faults
                .iter()
                .all(|fault| matches!(fault, CommandFault::InvalidStandardEdit { .. })),
            "{platform:?} reports one rejected edit, not a stranding cascade: {faults:?}",
        );
    }
}

/// Every enabled feature the hidden menu hosted is named, in the order the
/// standard layout would have rendered them.
#[test]
fn a_hidden_menu_reports_every_feature_it_would_have_stranded() {
    // Windows/Linux keep Appearance and About in different menus, so one
    // hide can only strand one of them; a layout hiding both reports both.
    let faults =
        MenuBar::from_standard_layout(full_standard().hide_menu(MenuKey::VIEW()).hide_menu(MenuKey::HELP()))
            .outline(DesktopPlatform::Linux)
            .expect_err("both optional menus host an enabled feature");
    let faults = command_faults(faults);

    assert_eq!(
        faults,
        vec![
            CommandFault::StrandedStandardFeature {
                menu: MenuKey::VIEW(),
                feature: "Appearance",
            },
            CommandFault::StrandedStandardFeature {
                menu: MenuKey::HELP(),
                feature: "About",
            },
        ],
    );
}

/// Stranding is a property of the *standard* layout only: `Custom` and
/// `None` own their placement, so the framework has no opinion to enforce.
#[test]
fn custom_and_absent_menu_bars_are_untouched_by_the_stranding_rule() {
    let features = StandardFeatures::default();
    for platform in DesktopPlatform::ALL() {
        assert!(
            MenuBar::custom(vec![Menu::keyed(MenuKey::EDIT())])
                .outline_with(platform, features)
                .is_ok(),
        );
        assert!(MenuBar::none().outline_with(platform, features).is_ok());
    }
}

/// `hide`/`insert` only make sense against the standard layout: calling
/// either against `Custom` or `None` is a declaration fault, not a
/// silent no-op.
#[test]
fn hide_and_insert_on_a_non_standard_policy_are_declaration_faults() {
    let faults = command_faults(
        MenuBar::custom(vec![Menu::keyed(MenuKey::EDIT())])
            .hide_menu(MenuKey::VIEW())
            .outline(DesktopPlatform::Linux)
            .expect_err("hide does not apply to a custom menu bar"),
    );
    assert_eq!(
        faults,
        vec![CommandFault::InvalidStandardEdit {
            menu: MenuKey::VIEW(),
            reason: "hide only edits the standard menu-bar layout",
        }],
    );

    let faults = command_faults(
        MenuBar::none()
            .insert(Menu::keyed(MenuKey::new("Tools").unwrap()))
            .outline(DesktopPlatform::Linux)
            .expect_err("insert does not apply to an absent menu bar"),
    );
    assert_eq!(
        faults,
        vec![CommandFault::InvalidStandardEdit {
            menu: MenuKey::new("Tools").unwrap(),
            reason: "insert only edits the standard menu-bar layout",
        }],
    );
}

#[test]
fn optional_menus_hide_and_required_menus_do_not() {
    // No About, so hiding Help strands nothing: the stranding rule is
    // asserted separately.
    let outline = MenuBar::from_standard_layout(
        StandardLayout::new()
            .with_settings()
            .with_theme_section()
            .hide_menu(MenuKey::HELP()),
    )
    .outline(DesktopPlatform::Windows)
    .expect("Help is optional");
    assert_eq!(keys(&outline), vec!["File", "Edit", "View", "Window"]);

    let faults = MenuBar::from_standard_layout(full_standard().hide_menu(MenuKey::EDIT()))
        .outline(DesktopPlatform::Windows)
        .expect_err("Edit is framework-required");
    let faults = command_faults(faults);
    assert_eq!(
        faults,
        vec![CommandFault::InvalidStandardEdit {
            menu: MenuKey::EDIT(),
            reason: "menu is required by the framework and cannot be hidden",
        }],
    );
}

#[test]
fn custom_menu_bars_still_receive_macos_services() {
    let custom = || {
        vec![
            Menu::new(MenuKey::APP(), MenuLabel::text("Custom")).command(QUIT_COMMAND_ID()),
            Menu::keyed(MenuKey::new("Tools").unwrap()).command(CommandId::new("tools.run")),
        ]
    };

    let macos = MenuBar::custom(custom())
        .outline(DesktopPlatform::MacOs)
        .expect("valid");
    assert_eq!(
        nodes(&macos, MenuKey::APP()),
        [
            MenuNode::Command(QUIT_COMMAND_ID()),
            MenuNode::Separator,
            MenuNode::Services,
        ],
        "Services is mandatory even when the application owns the layout",
    );

    let linux = MenuBar::custom(custom())
        .outline(DesktopPlatform::Linux)
        .expect("valid");
    assert_eq!(
        nodes(&linux, MenuKey::APP()),
        [MenuNode::Command(QUIT_COMMAND_ID())],
        "Services is a macOS node only",
    );
}

#[test]
fn services_never_lands_in_the_dock_menu() {
    // A dock-first custom layout with no App menu: Services must skip the
    // dock and land in the first menu that can actually render it.
    let dock_first = MenuBar::custom(vec![
        Menu::keyed(MenuKey::DOCK()).command(CommandId::new("dock.new")),
        Menu::keyed(MenuKey::new("Tools").unwrap()).command(CommandId::new("tools.run")),
    ])
    .outline(DesktopPlatform::MacOs)
    .expect("valid");
    assert_eq!(
        nodes(&dock_first, MenuKey::DOCK()),
        [MenuNode::Command(CommandId::new("dock.new"))],
        "the dock projection has no Services machinery",
    );
    assert_eq!(
        nodes(&dock_first, MenuKey::new("Tools").unwrap()),
        [
            MenuNode::Command(CommandId::new("tools.run")),
            MenuNode::Separator,
            MenuNode::Services,
        ],
        "Services falls back to the first non-dock menu",
    );

    // A dock-only bar has nowhere to host Services, so nothing is injected.
    let dock_only = MenuBar::custom(vec![
        Menu::keyed(MenuKey::DOCK()).command(CommandId::new("dock.new")),
    ])
    .outline(DesktopPlatform::MacOs)
    .expect("valid");
    assert_eq!(
        dock_only.menus().len(),
        1,
        "a dock-only bar gains no menu just to host Services",
    );
    assert_eq!(
        nodes(&dock_only, MenuKey::DOCK()),
        [MenuNode::Command(CommandId::new("dock.new"))],
    );
}

#[test]
fn a_command_may_repeat_across_menus_but_not_within_one() {
    let repeated = MenuBar::custom(vec![
        Menu::keyed(MenuKey::EDIT())
            .command(CommandId::new("a"))
            .separator()
            .command(CommandId::new("a")),
    ])
    .outline(DesktopPlatform::Linux)
    .expect_err("one menu may not render the same command twice");
    let repeated = command_faults(repeated);
    assert_eq!(
        repeated,
        vec![CommandFault::RepeatedCommandInMenu {
            menu: MenuKey::EDIT(),
            command: CommandId::new("a"),
        }],
    );

    MenuBar::custom(vec![
        Menu::keyed(MenuKey::EDIT()).command(CommandId::new("a")),
        Menu::keyed(MenuKey::VIEW()).command(CommandId::new("a")),
        Menu::keyed(MenuKey::DOCK()).command(CommandId::new("a")),
    ])
    .outline(DesktopPlatform::Linux)
    .expect("one command may project into several surfaces");
}

#[test]
fn none_projects_no_menus() {
    assert!(
        MenuBar::none()
            .outline(DesktopPlatform::MacOs)
            .expect("valid")
            .menus()
            .is_empty(),
    );
}

#[test]
fn duplicate_top_level_keys_and_section_slots_are_faults() {
    let faults = MenuBar::custom(vec![
        Menu::keyed(MenuKey::EDIT()).command(CommandId::new("edit.undo")),
        Menu::keyed(MenuKey::EDIT()).command(CommandId::new("edit.redo")),
    ])
    .outline(DesktopPlatform::Linux)
    .expect_err("Edit is declared twice");
    let faults = command_faults(faults);
    assert_eq!(
        faults,
        vec![CommandFault::DuplicateMenuKey {
            menu: MenuKey::EDIT()
        }],
    );

    let faults = MenuBar::custom(vec![
        Menu::keyed(MenuKey::VIEW()).section(MenuSectionKey::THEME()),
        Menu::keyed(MenuKey::WINDOW()).section(MenuSectionKey::THEME()),
    ])
    .outline(DesktopPlatform::Linux)
    .expect_err("one provider cannot fill two slots");
    let faults = command_faults(faults);
    assert_eq!(
        faults,
        vec![CommandFault::DuplicateSectionSlot {
            section: MenuSectionKey::THEME()
        }],
    );
}

#[test]
fn dangling_command_and_section_references_are_faults() {
    let outline = MenuBar::custom(vec![
        Menu::keyed(MenuKey::EDIT())
            .command(CommandId::new("edit.undo"))
            .command(CommandId::new("edit.ghost"))
            .section(MenuSectionKey::THEME()),
    ])
    .outline(DesktopPlatform::Linux)
    .expect("structurally valid");

    let mut faults = Vec::new();
    MenuBar::validate_references(
        &outline,
        &[CommandId::new("edit.undo")],
        &[],
        &mut faults,
    );

    assert_eq!(
        faults,
        vec![
            CommandFault::UnknownCommand {
                menu: MenuKey::EDIT(),
                command: CommandId::new("edit.ghost"),
            },
            CommandFault::MissingSectionProvider {
                menu: MenuKey::EDIT(),
                section: MenuSectionKey::THEME(),
            },
        ],
    );
}

#[test]
fn menus_reference_commands_without_redeclaring_behavior() {
    // The same command id may appear in two menus: a menu is a projection,
    // not a second behavior declaration.
    let shared = CommandId::new("app.search");
    let outline = MenuBar::custom(vec![
        Menu::keyed(MenuKey::EDIT()).command(shared),
        Menu::keyed(MenuKey::new("Tools").unwrap()).command(shared),
    ])
    .outline(DesktopPlatform::Linux)
    .expect("valid");

    assert_eq!(outline.command_ids(), vec![shared, shared]);

    let mut faults = Vec::new();
    MenuBar::validate_references(
        &outline,
        &[shared],
        &[],
        &mut faults,
    );
    assert!(faults.is_empty(), "one declaration satisfies both menus");
}

#[test]
fn separators_never_lead_trail_or_double() {
    let outline = MenuBar::custom(vec![
        Menu::keyed(MenuKey::EDIT())
            .separator()
            .separator()
            .command(CommandId::new("edit.undo"))
            .separator()
            .separator()
            .command(CommandId::new("edit.redo"))
            .separator(),
    ])
    .outline(DesktopPlatform::Linux)
    .expect("valid");

    assert_eq!(
        nodes(&outline, MenuKey::EDIT()),
        [
            MenuNode::Command(CommandId::new("edit.undo")),
            MenuNode::Separator,
            MenuNode::Command(CommandId::new("edit.redo")),
        ],
    );
}

#[test]
fn section_slots_report_their_owning_menu() {
    let outline = MenuBar::from_standard_layout(full_standard())
        .outline(DesktopPlatform::MacOs)
        .expect("valid");

    assert_eq!(
        outline.section_slots(),
        vec![(MenuKey::APP(), MenuSectionKey::THEME())],
    );
}
