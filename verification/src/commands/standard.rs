//! Standard desktop command vocabulary and menu conventions.
//!
//! Everything here is a pure function of a [`DesktopPlatform`] value, never of
//! the host the code runs on, so validation of a macOS layout gives the same
//! answer on every build machine.

use vstd::prelude::*;

use super::keys::MenuKey;
use super::{contains_id, CommandId, CommandModel, CommandScope, RuntimeCommand};

verus! {

/// The three desktop platforms the framework targets.
#[derive(Clone, Copy, Debug, PartialEq, Eq)]
pub enum DesktopPlatform {
    /// macOS.
    MacOs,
    /// Windows.
    Windows,
    /// Linux.
    Linux,
}

impl DesktopPlatform {
    /// Every desktop platform, in the order pure validation reports faults.
    #[allow(non_snake_case)]
    pub fn ALL() -> (all: [Self; 3])
        ensures
            all@ == seq![DesktopPlatform::MacOs, DesktopPlatform::Windows, DesktopPlatform::Linux],
    {
        let all = [DesktopPlatform::MacOs, DesktopPlatform::Windows, DesktopPlatform::Linux];
        assert(all@ =~= seq![DesktopPlatform::MacOs, DesktopPlatform::Windows, DesktopPlatform::Linux]);
        all
    }

    /// A stable name for diagnostics.
    pub fn as_str(self) -> (name: &'static str)
        ensures
            name@ == spec_platform_name(self),
    {
        match self {
            DesktopPlatform::MacOs => "macOS",
            DesktopPlatform::Windows => "Windows",
            DesktopPlatform::Linux => "Linux",
        }
    }
}

/// The diagnostic name of a platform.
pub open spec fn spec_platform_name(platform: DesktopPlatform) -> Seq<char> {
    match platform {
        DesktopPlatform::MacOs => "macOS"@,
        DesktopPlatform::Windows => "Windows"@,
        DesktopPlatform::Linux => "Linux"@,
    }
}

/// The standard features a declaration resolved: a Settings surface, an About
/// surface, and the theme convention.
#[derive(Clone, Copy, Debug, PartialEq, Eq, Default)]
pub struct StandardFeatures {
    /// A Settings surface was declared.
    pub settings: bool,
    /// About was not disabled.
    pub about: bool,
    /// The theme convention is enabled.
    pub theme: bool,
}

impl StandardFeatures {
    /// Whether the Settings command exists.
    pub fn has_settings(&self) -> (present: bool)
        ensures
            present == self.settings,
    {
        self.settings
    }

    /// Whether the About command exists.
    pub fn has_about(&self) -> (present: bool)
        ensures
            present == self.about,
    {
        self.about
    }
}

/// Stable id for the standard Settings/Preferences command.
#[allow(non_snake_case)]
pub fn OPEN_SETTINGS_COMMAND_ID() -> (id: CommandId)
    ensures
        id@ == "app.settings"@,
        id == CommandId::literal("app.settings"),
{
    CommandId::new("app.settings")
}

/// Stable id for the standard About command.
#[allow(non_snake_case)]
pub fn ABOUT_COMMAND_ID() -> (id: CommandId)
    ensures
        id@ == "app.about"@,
        id == CommandId::literal("app.about"),
{
    CommandId::new("app.about")
}

/// Stable id for the standard Quit command.
#[allow(non_snake_case)]
pub fn QUIT_COMMAND_ID() -> (id: CommandId)
    ensures
        id@ == "app.quit"@,
        id == CommandId::literal("app.quit"),
{
    CommandId::new("app.quit")
}

/// Stable id for the macOS Hide command.
#[allow(non_snake_case)]
pub fn HIDE_APP_COMMAND_ID() -> (id: CommandId)
    ensures
        id@ == "app.hide"@,
        id == CommandId::literal("app.hide"),
{
    CommandId::new("app.hide")
}

/// Stable id for the macOS Hide Others command.
#[allow(non_snake_case)]
pub fn HIDE_OTHERS_COMMAND_ID() -> (id: CommandId)
    ensures
        id@ == "app.hide_others"@,
        id == CommandId::literal("app.hide_others"),
{
    CommandId::new("app.hide_others")
}

/// Stable id for the macOS Show All command.
#[allow(non_snake_case)]
pub fn SHOW_ALL_COMMAND_ID() -> (id: CommandId)
    ensures
        id@ == "app.show_all"@,
        id == CommandId::literal("app.show_all"),
{
    CommandId::new("app.show_all")
}

/// Stable id for the macOS Minimize command.
#[allow(non_snake_case)]
pub fn MINIMIZE_COMMAND_ID() -> (id: CommandId)
    ensures
        id@ == "window.minimize"@,
        id == CommandId::literal("window.minimize"),
{
    CommandId::new("window.minimize")
}

/// Stable id for the macOS Zoom command.
#[allow(non_snake_case)]
pub fn ZOOM_COMMAND_ID() -> (id: CommandId)
    ensures
        id@ == "window.zoom"@,
        id == CommandId::literal("window.zoom"),
{
    CommandId::new("window.zoom")
}

/// Stable id for the Close Window command.
#[allow(non_snake_case)]
pub fn CLOSE_WINDOW_COMMAND_ID() -> (id: CommandId)
    ensures
        id@ == "window.close"@,
        id == CommandId::literal("window.close"),
{
    CommandId::new("window.close")
}

/// Stable id for the standard Undo command.
#[allow(non_snake_case)]
pub fn UNDO_COMMAND_ID() -> (id: CommandId)
    ensures
        id@ == "edit.undo"@,
        id == CommandId::literal("edit.undo"),
{
    CommandId::new("edit.undo")
}

/// Stable id for the standard Redo command.
#[allow(non_snake_case)]
pub fn REDO_COMMAND_ID() -> (id: CommandId)
    ensures
        id@ == "edit.redo"@,
        id == CommandId::literal("edit.redo"),
{
    CommandId::new("edit.redo")
}

/// Stable id for the standard Cut command.
#[allow(non_snake_case)]
pub fn CUT_COMMAND_ID() -> (id: CommandId)
    ensures
        id@ == "edit.cut"@,
        id == CommandId::literal("edit.cut"),
{
    CommandId::new("edit.cut")
}

/// Stable id for the standard Copy command.
#[allow(non_snake_case)]
pub fn COPY_COMMAND_ID() -> (id: CommandId)
    ensures
        id@ == "edit.copy"@,
        id == CommandId::literal("edit.copy"),
{
    CommandId::new("edit.copy")
}

/// Stable id for the standard Paste command.
#[allow(non_snake_case)]
pub fn PASTE_COMMAND_ID() -> (id: CommandId)
    ensures
        id@ == "edit.paste"@,
        id == CommandId::literal("edit.paste"),
{
    CommandId::new("edit.paste")
}

/// Stable id for the standard Select All command.
#[allow(non_snake_case)]
pub fn SELECT_ALL_COMMAND_ID() -> (id: CommandId)
    ensures
        id@ == "edit.select_all"@,
        id == CommandId::literal("edit.select_all"),
{
    CommandId::new("edit.select_all")
}

/// Stable id for the standard Delete command.
#[allow(non_snake_case)]
pub fn DELETE_COMMAND_ID() -> (id: CommandId)
    ensures
        id@ == "edit.delete"@,
        id == CommandId::literal("edit.delete"),
{
    CommandId::new("edit.delete")
}

/// Stable id for the standard Delete Previous Word command.
#[allow(non_snake_case)]
pub fn DELETE_PREVIOUS_WORD_COMMAND_ID() -> (id: CommandId)
    ensures
        id@ == "edit.delete_previous_word"@,
        id == CommandId::literal("edit.delete_previous_word"),
{
    CommandId::new("edit.delete_previous_word")
}

/// Stable id for the standard Delete Next Word command.
#[allow(non_snake_case)]
pub fn DELETE_NEXT_WORD_COMMAND_ID() -> (id: CommandId)
    ensures
        id@ == "edit.delete_next_word"@,
        id == CommandId::literal("edit.delete_next_word"),
{
    CommandId::new("edit.delete_next_word")
}

/// Stable id for the standard Find command.
#[allow(non_snake_case)]
pub fn FIND_COMMAND_ID() -> (id: CommandId)
    ensures
        id@ == "edit.find"@,
        id == CommandId::literal("edit.find"),
{
    CommandId::new("edit.find")
}

/// The conventional top-level menus for `platform`, in bar order.
pub open spec fn spec_standard_menu_keys(platform: DesktopPlatform, theme_menu: bool) -> Seq<
    Seq<char>,
> {
    match platform {
        DesktopPlatform::MacOs => seq!["App"@, "Edit"@, "Window"@],
        _ => if theme_menu {
            seq!["File"@, "Edit"@, "View"@, "Window"@, "Help"@]
        } else {
            seq!["File"@, "Edit"@, "Window"@, "Help"@]
        },
    }
}

/// The texts of a sequence of menu keys.
pub open spec fn menu_key_texts(keys: Seq<MenuKey>) -> Seq<Seq<char>> {
    keys.map_values(|k: MenuKey| k@)
}

/// The texts of a sequence of command ids.
pub open spec fn command_id_texts(ids: Seq<CommandId>) -> Seq<Seq<char>> {
    ids.map_values(|c: CommandId| c@)
}

/// The conventional top-level menu keys for `platform`, as values.
pub open spec fn standard_key_values(platform: DesktopPlatform, theme_menu: bool) -> Seq<MenuKey> {
    match platform {
        DesktopPlatform::MacOs => seq![
            MenuKey::literal("App"),
            MenuKey::literal("Edit"),
            MenuKey::literal("Window"),
        ],
        _ => if theme_menu {
            seq![
                MenuKey::literal("File"),
                MenuKey::literal("Edit"),
                MenuKey::literal("View"),
                MenuKey::literal("Window"),
                MenuKey::literal("Help"),
            ]
        } else {
            seq![
                MenuKey::literal("File"),
                MenuKey::literal("Edit"),
                MenuKey::literal("Window"),
                MenuKey::literal("Help"),
            ]
        },
    }
}

/// The conventional top-level menus for `platform`, in bar order.
pub fn standard_menu_keys(platform: DesktopPlatform, theme_menu: bool) -> (keys: Vec<MenuKey>)
    ensures
        menu_key_texts(keys@) == spec_standard_menu_keys(platform, theme_menu),
        keys@ == standard_key_values(platform, theme_menu),
{
    let mut keys: Vec<MenuKey> = Vec::new();
    match platform {
        DesktopPlatform::MacOs => {
            keys.push(MenuKey::APP());
            keys.push(MenuKey::EDIT());
            keys.push(MenuKey::WINDOW());
        },
        _ => {
            keys.push(MenuKey::FILE());
            keys.push(MenuKey::EDIT());
            if theme_menu {
                keys.push(MenuKey::VIEW());
            }
            keys.push(MenuKey::WINDOW());
            keys.push(MenuKey::HELP());
        },
    }
    assert(menu_key_texts(keys@) =~= spec_standard_menu_keys(platform, theme_menu));
    assert(keys@ =~= standard_key_values(platform, theme_menu));
    keys
}

/// The menu hosting the Appearance/Theme section on each platform.
pub open spec fn spec_theme_section_menu(platform: DesktopPlatform) -> Seq<char> {
    if platform == DesktopPlatform::MacOs {
        "App"@
    } else {
        "View"@
    }
}

/// The menu that hosts the Appearance/Theme section on `platform`.
pub fn theme_section_menu(platform: DesktopPlatform) -> (key: MenuKey)
    ensures
        key@ == spec_theme_section_menu(platform),
        key == (if platform == DesktopPlatform::MacOs {
            MenuKey::literal("App")
        } else {
            MenuKey::literal("View")
        }),
{
    match platform {
        DesktopPlatform::MacOs => MenuKey::APP(),
        _ => MenuKey::VIEW(),
    }
}

/// The menu holding the application block (Settings, Quit) on each platform.
pub open spec fn spec_app_menu_key(platform: DesktopPlatform) -> Seq<char> {
    if platform == DesktopPlatform::MacOs {
        "App"@
    } else {
        "File"@
    }
}

/// The key of the menu holding the application block on `platform`.
pub fn app_menu_key(platform: DesktopPlatform) -> (key: &'static str)
    ensures
        key@ == spec_app_menu_key(platform),
{
    match platform {
        DesktopPlatform::MacOs => MenuKey::APP().as_str(),
        _ => MenuKey::FILE().as_str(),
    }
}

/// The menu holding About on each platform.
pub open spec fn spec_about_menu_key(platform: DesktopPlatform) -> Seq<char> {
    if platform == DesktopPlatform::MacOs {
        "App"@
    } else {
        "Help"@
    }
}

/// The key of the menu holding About on `platform`.
pub fn about_menu_key(platform: DesktopPlatform) -> (key: &'static str)
    ensures
        key@ == spec_about_menu_key(platform),
{
    match platform {
        DesktopPlatform::MacOs => MenuKey::APP().as_str(),
        _ => MenuKey::HELP().as_str(),
    }
}

/// The platform label of the Settings command.
pub fn settings_label(platform: DesktopPlatform) -> (label: &'static str)
    ensures
        label@ == (match platform {
            DesktopPlatform::MacOs => "Settings\u{2026}"@,
            DesktopPlatform::Windows => "Settings"@,
            DesktopPlatform::Linux => "Preferences"@,
        }),
        label == (match platform {
            DesktopPlatform::MacOs => "Settings\u{2026}",
            DesktopPlatform::Windows => "Settings",
            DesktopPlatform::Linux => "Preferences",
        }),
{
    match platform {
        DesktopPlatform::MacOs => "Settings\u{2026}",
        DesktopPlatform::Windows => "Settings",
        DesktopPlatform::Linux => "Preferences",
    }
}

/// The chord of the Settings command.
pub fn settings_binding(platform: DesktopPlatform) -> (chord: &'static str)
    ensures
        chord@ == (if platform == DesktopPlatform::MacOs {
            "cmd-,"@
        } else {
            "ctrl-,"@
        }),
        chord == (if platform == DesktopPlatform::MacOs {
            "cmd-,"
        } else {
            "ctrl-,"
        }),
{
    match platform {
        DesktopPlatform::MacOs => "cmd-,",
        _ => "ctrl-,",
    }
}

/// The chord of the Quit command.
pub fn quit_binding(platform: DesktopPlatform) -> (chord: &'static str)
    ensures
        chord@ == (if platform == DesktopPlatform::MacOs {
            "cmd-q"@
        } else {
            "ctrl-q"@
        }),
        chord == (if platform == DesktopPlatform::MacOs {
            "cmd-q"
        } else {
            "ctrl-q"
        }),
{
    match platform {
        DesktopPlatform::MacOs => "cmd-q",
        _ => "ctrl-q",
    }
}

/// The chord of the Close Window command.
pub fn close_binding(platform: DesktopPlatform) -> (chord: &'static str)
    ensures
        chord@ == (if platform == DesktopPlatform::MacOs {
            "cmd-w"@
        } else {
            "ctrl-w"@
        }),
        chord == (if platform == DesktopPlatform::MacOs {
            "cmd-w"
        } else {
            "ctrl-w"
        }),
{
    match platform {
        DesktopPlatform::MacOs => "cmd-w",
        _ => "ctrl-w",
    }
}

/// The command ids the framework itself installs on `platform`, in order.
/// Settings and About are conditional features and are not listed.
pub open spec fn spec_framework_command_ids(platform: DesktopPlatform) -> Seq<Seq<char>> {
    let mac = platform == DesktopPlatform::MacOs;
    seq!["app.quit"@] + (if mac {
        seq!["app.hide"@, "app.hide_others"@, "app.show_all"@]
    } else {
        Seq::empty()
    }) + seq![
        "edit.undo"@,
        "edit.redo"@,
        "edit.cut"@,
        "edit.copy"@,
        "edit.paste"@,
        "edit.delete"@,
        "edit.delete_previous_word"@,
        "edit.delete_next_word"@,
        "edit.find"@,
        "edit.select_all"@,
    ] + (if mac {
        seq!["window.minimize"@, "window.zoom"@]
    } else {
        Seq::empty()
    }) + seq!["window.close"@]
}

/// The command ids the framework itself installs for `platform`.
pub fn framework_command_ids(platform: DesktopPlatform) -> (ids: Vec<CommandId>)
    ensures
        command_id_texts(ids@) == spec_framework_command_ids(platform),
{
    let mac = match platform {
        DesktopPlatform::MacOs => true,
        _ => false,
    };
    let mut ids: Vec<CommandId> = Vec::new();
    ids.push(QUIT_COMMAND_ID());
    if mac {
        ids.push(HIDE_APP_COMMAND_ID());
        ids.push(HIDE_OTHERS_COMMAND_ID());
        ids.push(SHOW_ALL_COMMAND_ID());
    }
    ids.push(UNDO_COMMAND_ID());
    ids.push(REDO_COMMAND_ID());
    ids.push(CUT_COMMAND_ID());
    ids.push(COPY_COMMAND_ID());
    ids.push(PASTE_COMMAND_ID());
    ids.push(DELETE_COMMAND_ID());
    ids.push(DELETE_PREVIOUS_WORD_COMMAND_ID());
    ids.push(DELETE_NEXT_WORD_COMMAND_ID());
    ids.push(FIND_COMMAND_ID());
    ids.push(SELECT_ALL_COMMAND_ID());
    if mac {
        ids.push(MINIMIZE_COMMAND_ID());
        ids.push(ZOOM_COMMAND_ID());
    }
    ids.push(CLOSE_WINDOW_COMMAND_ID());
    assert(command_id_texts(ids@) =~= spec_framework_command_ids(platform));
    ids
}

/// Whether `id` names a command the framework may install on some platform,
/// including the two conditional feature commands.
pub open spec fn spec_is_standard_command(id: Seq<char>) -> bool {
    ||| id == "app.settings"@
    ||| id == "app.about"@
    ||| exists|platform: DesktopPlatform| #[trigger]
        spec_framework_command_ids(platform).contains(id)
}

/// Whether `id` is framework-owned on any desktop platform, whatever the
/// build host is.
pub fn is_standard_command(id: CommandId) -> (standard: bool)
    ensures
        standard == spec_is_standard_command(id@),
{
    if id.same(&OPEN_SETTINGS_COMMAND_ID()) || id.same(&ABOUT_COMMAND_ID()) {
        return true;
    }
    let all = DesktopPlatform::ALL();
    let mut i: usize = 0;
    while i < 3
        invariant
            all@ == seq![DesktopPlatform::MacOs, DesktopPlatform::Windows, DesktopPlatform::Linux],
            i <= 3,
            forall|j: int| 0 <= j < i ==> !spec_framework_command_ids(all@[j]).contains(id@),
        decreases 3 - i,
    {
        let ids = framework_command_ids(all[i]);
        if contains_id(&ids, id) {
            return true;
        }
        i = i + 1;
    }
    assert forall|platform: DesktopPlatform|
        !#[trigger] spec_framework_command_ids(platform).contains(id@) by {
        match platform {
            DesktopPlatform::MacOs => assert(all@[0] == platform),
            DesktopPlatform::Windows => assert(all@[1] == platform),
            DesktopPlatform::Linux => assert(all@[2] == platform),
        }
    }
    false
}

/// The command ids the resolved standard features contribute: Settings, then
/// About.
pub fn feature_command_ids(features: StandardFeatures) -> (ids: Vec<CommandId>)
    ensures
        command_id_texts(ids@) == (if features.settings {
            seq!["app.settings"@]
        } else {
            Seq::empty()
        }) + (if features.about {
            seq!["app.about"@]
        } else {
            Seq::empty()
        }),
{
    let mut ids: Vec<CommandId> = Vec::new();
    if features.has_settings() {
        ids.push(OPEN_SETTINGS_COMMAND_ID());
    }
    if features.has_about() {
        ids.push(ABOUT_COMMAND_ID());
    }
    proof {
        let expected = (if features.settings {
            seq!["app.settings"@]
        } else {
            Seq::empty()
        }) + (if features.about {
            seq!["app.about"@]
        } else {
            Seq::empty()
        });
        assert(command_id_texts(ids@) =~= expected);
    }
    ids
}

/// A standard command as a value: no key context and no placement yet.
pub open spec fn standard_command(
    id: &'static str,
    label: &'static str,
    scope: CommandScope,
    action: &'static str,
    binding: Option<&'static str>,
) -> CommandModel {
    CommandModel {
        id: CommandId::literal(id),
        label: label@,
        scope,
        action,
        default_binding: binding,
        binding_context: None,
        placements: Seq::empty(),
    }
}

/// The framework's standard commands for `platform` on a build for `host`,
/// in installation order: Quit (after the macOS Hide, Hide Others and Show
/// All), the window-scoped edit commands, the macOS Minimize and Zoom, and
/// Close Window. The macOS-only commands exist only in a macOS build, so they
/// are listed when both `platform` and `host` are macOS.
pub open spec fn spec_framework_commands(platform: DesktopPlatform, host: DesktopPlatform) -> Seq<
    CommandModel,
> {
    let mac = platform == DesktopPlatform::MacOs;
    let extras = mac && host == DesktopPlatform::MacOs;
    (if extras {
        seq![
            standard_command("app.hide", "Hide", CommandScope::App, "app::HideApp", Some("cmd-h")),
            standard_command("app.hide_others", "Hide Others", CommandScope::App, "app::HideOthers", None),
            standard_command("app.show_all", "Show All", CommandScope::App, "app::ShowAll", None),
        ]
    } else {
        Seq::empty()
    }) + seq![
        standard_command(
            "app.quit",
            "Quit",
            CommandScope::App,
            "app::Quit",
            Some(if mac { "cmd-q" } else { "ctrl-q" }),
        ),
        standard_command("edit.undo", "Undo", CommandScope::Window, "input::Undo", None),
        standard_command("edit.redo", "Redo", CommandScope::Window, "input::Redo", None),
        standard_command("edit.cut", "Cut", CommandScope::Window, "input::Cut", None),
        standard_command("edit.copy", "Copy", CommandScope::Window, "input::Copy", None),
        standard_command("edit.paste", "Paste", CommandScope::Window, "input::Paste", None),
        standard_command("edit.delete", "Delete", CommandScope::Window, "input::Delete", None),
        standard_command(
            "edit.delete_previous_word",
            "Delete Previous Word",
            CommandScope::Window,
            "input::DeleteToPreviousWordStart",
            None,
        ),
        standard_command("edit.delete_next_word", "Delete Next Word", CommandScope::Window, "input::DeleteToNextWordEnd", None),
        standard_command("edit.find", "Find", CommandScope::Window, "input::Search", None),
        standard_command("edit.select_all", "Select All", CommandScope::Window, "input::SelectAll", None),
    ] + (if extras {
        seq![
            standard_command("window.minimize", "Minimize", CommandScope::Window, "app::Minimize", Some("cmd-m")),
            standard_command("window.zoom", "Zoom", CommandScope::Window, "app::Zoom", None),
        ]
    } else {
        Seq::empty()
    }) + seq![
        standard_command(
            "window.close",
            "Close Window",
            CommandScope::Window,
            "app::CloseWindow",
            Some(if mac { "cmd-w" } else { "ctrl-w" }),
        ),
    ]
}

/// The framework's standard commands for `platform` on a build for `host`
/// (the platform the application was compiled for), without placements:
/// every placement comes from the resolved outline. The macOS-only commands
/// are listed only when both are macOS, since their actions exist only in a
/// macOS build.
pub fn framework_commands(platform: DesktopPlatform, host: DesktopPlatform) -> (commands: Vec<
    RuntimeCommand,
>)
    ensures
        super::commands_view(commands@) == spec_framework_commands(platform, host),
{
    let mac = match platform {
        DesktopPlatform::MacOs => true,
        _ => false,
    };
    let extras = mac && match host {
        DesktopPlatform::MacOs => true,
        _ => false,
    };
    let mut commands: Vec<RuntimeCommand> = Vec::new();
    if extras {
        commands.push(RuntimeCommand::new(HIDE_APP_COMMAND_ID(), "Hide", CommandScope::App, "app::HideApp").with_binding("cmd-h"));
        commands.push(RuntimeCommand::new(HIDE_OTHERS_COMMAND_ID(), "Hide Others", CommandScope::App, "app::HideOthers"));
        commands.push(RuntimeCommand::new(SHOW_ALL_COMMAND_ID(), "Show All", CommandScope::App, "app::ShowAll"));
    }
    commands.push(RuntimeCommand::new(QUIT_COMMAND_ID(), "Quit", CommandScope::App, "app::Quit").with_binding(quit_binding(platform)));
    commands.push(RuntimeCommand::new(UNDO_COMMAND_ID(), "Undo", CommandScope::Window, "input::Undo"));
    commands.push(RuntimeCommand::new(REDO_COMMAND_ID(), "Redo", CommandScope::Window, "input::Redo"));
    commands.push(RuntimeCommand::new(CUT_COMMAND_ID(), "Cut", CommandScope::Window, "input::Cut"));
    commands.push(RuntimeCommand::new(COPY_COMMAND_ID(), "Copy", CommandScope::Window, "input::Copy"));
    commands.push(RuntimeCommand::new(PASTE_COMMAND_ID(), "Paste", CommandScope::Window, "input::Paste"));
    commands.push(RuntimeCommand::new(DELETE_COMMAND_ID(), "Delete", CommandScope::Window, "input::Delete"));
    commands.push(
        RuntimeCommand::new(DELETE_PREVIOUS_WORD_COMMAND_ID(), "Delete Previous Word", CommandScope::Window, "input::DeleteToPreviousWordStart"),
    );
    commands.push(
        RuntimeCommand::new(DELETE_NEXT_WORD_COMMAND_ID(), "Delete Next Word", CommandScope::Window, "input::DeleteToNextWordEnd"),
    );
    commands.push(RuntimeCommand::new(FIND_COMMAND_ID(), "Find", CommandScope::Window, "input::Search"));
    commands.push(RuntimeCommand::new(SELECT_ALL_COMMAND_ID(), "Select All", CommandScope::Window, "input::SelectAll"));
    if extras {
        commands.push(RuntimeCommand::new(MINIMIZE_COMMAND_ID(), "Minimize", CommandScope::Window, "app::Minimize").with_binding("cmd-m"));
        commands.push(RuntimeCommand::new(ZOOM_COMMAND_ID(), "Zoom", CommandScope::Window, "app::Zoom"));
    }
    commands.push(
        RuntimeCommand::new(CLOSE_WINDOW_COMMAND_ID(), "Close Window", CommandScope::Window, "app::CloseWindow").with_binding(
            close_binding(platform),
        ),
    );
    assert(super::commands_view(commands@) =~= spec_framework_commands(platform, host));
    commands
}

/// The feature commands the declaration resolved for `platform`: Settings,
/// with the platform's label and chord, when a Settings surface exists, then
/// About unless it is disabled.
pub open spec fn spec_feature_commands(platform: DesktopPlatform, features: StandardFeatures) -> Seq<
    CommandModel,
> {
    (if features.settings {
        seq![
            standard_command(
                "app.settings",
                match platform {
                    DesktopPlatform::MacOs => "Settings\u{2026}",
                    DesktopPlatform::Windows => "Settings",
                    DesktopPlatform::Linux => "Preferences",
                },
                CommandScope::App,
                "app::OpenSettings",
                Some(if platform == DesktopPlatform::MacOs { "cmd-," } else { "ctrl-," }),
            ),
        ]
    } else {
        Seq::empty()
    }) + (if features.about {
        seq![standard_command("app.about", "About", CommandScope::App, "app::About", None)]
    } else {
        Seq::empty()
    })
}

/// The feature commands the declaration resolved for `platform`.
pub fn feature_commands(platform: DesktopPlatform, features: StandardFeatures) -> (commands: Vec<
    RuntimeCommand,
>)
    ensures
        super::commands_view(commands@) == spec_feature_commands(platform, features),
{
    let mut commands: Vec<RuntimeCommand> = Vec::new();
    if features.has_settings() {
        commands.push(
            RuntimeCommand::new(OPEN_SETTINGS_COMMAND_ID(), settings_label(platform), CommandScope::App, "app::OpenSettings")
                .with_binding(settings_binding(platform)),
        );
    }
    if features.has_about() {
        commands.push(RuntimeCommand::new(ABOUT_COMMAND_ID(), "About", CommandScope::App, "app::About"));
    }
    assert(super::commands_view(commands@) =~= spec_feature_commands(platform, features));
    commands
}

/// What the standard vocabulary fixes for one command: its label, dispatch
/// scope, the action it dispatches, and its default chord.
pub struct StandardEntry {
    /// The label shown in menus.
    pub label: Seq<char>,
    /// Where it dispatches.
    pub scope: CommandScope,
    /// The stable name of the action it dispatches.
    pub action: Seq<char>,
    /// The default chord, if any.
    pub binding: Option<Seq<char>>,
}

/// The standard vocabulary on `platform`, keyed by command id: each standard
/// command's label, scope, action and chord. Edit commands dispatch the text
/// input's action of the same name (Cut cuts, Copy copies); the application
/// commands dispatch the shell's own actions.
pub open spec fn standard_entry(id: Seq<char>, platform: DesktopPlatform) -> Option<StandardEntry> {
    let mac = platform == DesktopPlatform::MacOs;
    if id == "app.hide"@ {
        Some(StandardEntry {
            label: "Hide"@,
            scope: CommandScope::App,
            action: "app::HideApp"@,
            binding: Some("cmd-h"@),
        })
    } else if id == "app.hide_others"@ {
        Some(StandardEntry {
            label: "Hide Others"@,
            scope: CommandScope::App,
            action: "app::HideOthers"@,
            binding: None,
        })
    } else if id == "app.show_all"@ {
        Some(StandardEntry {
            label: "Show All"@,
            scope: CommandScope::App,
            action: "app::ShowAll"@,
            binding: None,
        })
    } else if id == "app.quit"@ {
        Some(StandardEntry {
            label: "Quit"@,
            scope: CommandScope::App,
            action: "app::Quit"@,
            binding: Some(if mac { "cmd-q"@ } else { "ctrl-q"@ }),
        })
    } else if id == "edit.undo"@ {
        Some(StandardEntry {
            label: "Undo"@,
            scope: CommandScope::Window,
            action: "input::Undo"@,
            binding: None,
        })
    } else if id == "edit.redo"@ {
        Some(StandardEntry {
            label: "Redo"@,
            scope: CommandScope::Window,
            action: "input::Redo"@,
            binding: None,
        })
    } else if id == "edit.cut"@ {
        Some(StandardEntry {
            label: "Cut"@,
            scope: CommandScope::Window,
            action: "input::Cut"@,
            binding: None,
        })
    } else if id == "edit.copy"@ {
        Some(StandardEntry {
            label: "Copy"@,
            scope: CommandScope::Window,
            action: "input::Copy"@,
            binding: None,
        })
    } else if id == "edit.paste"@ {
        Some(StandardEntry {
            label: "Paste"@,
            scope: CommandScope::Window,
            action: "input::Paste"@,
            binding: None,
        })
    } else if id == "edit.delete"@ {
        Some(StandardEntry {
            label: "Delete"@,
            scope: CommandScope::Window,
            action: "input::Delete"@,
            binding: None,
        })
    } else if id == "edit.delete_previous_word"@ {
        Some(StandardEntry {
            label: "Delete Previous Word"@,
            scope: CommandScope::Window,
            action: "input::DeleteToPreviousWordStart"@,
            binding: None,
        })
    } else if id == "edit.delete_next_word"@ {
        Some(StandardEntry {
            label: "Delete Next Word"@,
            scope: CommandScope::Window,
            action: "input::DeleteToNextWordEnd"@,
            binding: None,
        })
    } else if id == "edit.find"@ {
        Some(StandardEntry {
            label: "Find"@,
            scope: CommandScope::Window,
            action: "input::Search"@,
            binding: None,
        })
    } else if id == "edit.select_all"@ {
        Some(StandardEntry {
            label: "Select All"@,
            scope: CommandScope::Window,
            action: "input::SelectAll"@,
            binding: None,
        })
    } else if id == "window.minimize"@ {
        Some(StandardEntry {
            label: "Minimize"@,
            scope: CommandScope::Window,
            action: "app::Minimize"@,
            binding: Some("cmd-m"@),
        })
    } else if id == "window.zoom"@ {
        Some(StandardEntry {
            label: "Zoom"@,
            scope: CommandScope::Window,
            action: "app::Zoom"@,
            binding: None,
        })
    } else if id == "window.close"@ {
        Some(StandardEntry {
            label: "Close Window"@,
            scope: CommandScope::Window,
            action: "app::CloseWindow"@,
            binding: Some(if mac { "cmd-w"@ } else { "ctrl-w"@ }),
        })
    } else if id == "app.settings"@ {
        Some(StandardEntry {
            label: match platform {
            DesktopPlatform::MacOs => "Settings\u{2026}"@,
            DesktopPlatform::Windows => "Settings"@,
            DesktopPlatform::Linux => "Preferences"@,
        },
            scope: CommandScope::App,
            action: "app::OpenSettings"@,
            binding: Some(if mac { "cmd-,"@ } else { "ctrl-,"@ }),
        })
    } else if id == "app.about"@ {
        Some(StandardEntry {
            label: "About"@,
            scope: CommandScope::App,
            action: "app::About"@,
            binding: None,
        })
    } else {
        None
    }
}

/// Whether `command` is what the standard vocabulary names under its id.
pub open spec fn follows_vocabulary(command: CommandModel, platform: DesktopPlatform) -> bool {
    match standard_entry(command.id@, platform) {
        Some(entry) => command.label == entry.label && command.scope == entry.scope
            && command.action@ == entry.action && match command.default_binding {
            Some(chord) => entry.binding == Some(chord@),
            None => entry.binding is None,
        },
        None => false,
    }
}

/// What tells the standard ids apart: length, first character, and the
/// characters at positions four and five.
spec fn id_fingerprint(id: Seq<char>) -> (int, char, char, char) {
    (id.len() as int, id[0], id[4], id[5])
}

/// Every framework and feature command is the standard vocabulary's entry for
/// its id: it shows that entry's label, dispatches that entry's action in
/// that entry's scope, and carries that entry's chord, on every platform and
/// build.
pub proof fn lemma_standard_commands_follow_the_vocabulary(
    platform: DesktopPlatform,
    host: DesktopPlatform,
    features: StandardFeatures,
)
    ensures
        forall|k: int|
            0 <= k < spec_framework_commands(platform, host).len() ==> follows_vocabulary(
                #[trigger] spec_framework_commands(platform, host)[k],
                platform,
            ),
        forall|k: int|
            0 <= k < spec_feature_commands(platform, features).len() ==> follows_vocabulary(
                #[trigger] spec_feature_commands(platform, features)[k],
                platform,
            ),
{
    reveal_strlit("app.hide");
    reveal_strlit("app.hide_others");
    reveal_strlit("app.show_all");
    reveal_strlit("app.quit");
    reveal_strlit("edit.undo");
    reveal_strlit("edit.redo");
    reveal_strlit("edit.cut");
    reveal_strlit("edit.copy");
    reveal_strlit("edit.paste");
    reveal_strlit("edit.delete");
    reveal_strlit("edit.delete_previous_word");
    reveal_strlit("edit.delete_next_word");
    reveal_strlit("edit.find");
    reveal_strlit("edit.select_all");
    reveal_strlit("window.minimize");
    reveal_strlit("window.zoom");
    reveal_strlit("window.close");
    reveal_strlit("app.settings");
    reveal_strlit("app.about");
    CommandId::lemma_literal("app.hide");
    CommandId::lemma_literal("app.hide_others");
    CommandId::lemma_literal("app.show_all");
    CommandId::lemma_literal("app.quit");
    CommandId::lemma_literal("edit.undo");
    CommandId::lemma_literal("edit.redo");
    CommandId::lemma_literal("edit.cut");
    CommandId::lemma_literal("edit.copy");
    CommandId::lemma_literal("edit.paste");
    CommandId::lemma_literal("edit.delete");
    CommandId::lemma_literal("edit.delete_previous_word");
    CommandId::lemma_literal("edit.delete_next_word");
    CommandId::lemma_literal("edit.find");
    CommandId::lemma_literal("edit.select_all");
    CommandId::lemma_literal("window.minimize");
    CommandId::lemma_literal("window.zoom");
    CommandId::lemma_literal("window.close");
    CommandId::lemma_literal("app.settings");
    CommandId::lemma_literal("app.about");
    assert(id_fingerprint("app.hide"@) == (8int, 'a', 'h', 'i'));
    assert(id_fingerprint("app.hide_others"@) == (15int, 'a', 'h', 'i'));
    assert(id_fingerprint("app.show_all"@) == (12int, 'a', 's', 'h'));
    assert(id_fingerprint("app.quit"@) == (8int, 'a', 'q', 'u'));
    assert(id_fingerprint("edit.undo"@) == (9int, 'e', '.', 'u'));
    assert(id_fingerprint("edit.redo"@) == (9int, 'e', '.', 'r'));
    assert(id_fingerprint("edit.cut"@) == (8int, 'e', '.', 'c'));
    assert(id_fingerprint("edit.copy"@) == (9int, 'e', '.', 'c'));
    assert(id_fingerprint("edit.paste"@) == (10int, 'e', '.', 'p'));
    assert(id_fingerprint("edit.delete"@) == (11int, 'e', '.', 'd'));
    assert(id_fingerprint("edit.delete_previous_word"@) == (25int, 'e', '.', 'd'));
    assert(id_fingerprint("edit.delete_next_word"@) == (21int, 'e', '.', 'd'));
    assert(id_fingerprint("edit.find"@) == (9int, 'e', '.', 'f'));
    assert(id_fingerprint("edit.select_all"@) == (15int, 'e', '.', 's'));
    assert(id_fingerprint("window.minimize"@) == (15int, 'w', 'o', 'w'));
    assert(id_fingerprint("window.zoom"@) == (11int, 'w', 'o', 'w'));
    assert(id_fingerprint("window.close"@) == (12int, 'w', 'o', 'w'));
    assert(id_fingerprint("app.settings"@) == (12int, 'a', 's', 'e'));
    assert(id_fingerprint("app.about"@) == (9int, 'a', 'a', 'b'));
    let framework = spec_framework_commands(platform, host);
    let feature = spec_feature_commands(platform, features);
    assert forall|k: int| 0 <= k < framework.len() implies follows_vocabulary(
        #[trigger] framework[k],
        platform,
    ) by {}
    assert forall|k: int| 0 <= k < feature.len() implies follows_vocabulary(
        #[trigger] feature[k],
        platform,
    ) by {}
}

} // verus!
