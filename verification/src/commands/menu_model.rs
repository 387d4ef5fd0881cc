//! Typed menus, menu-bar policy, and the pure platform outline.
//!
//! Commands are semantic; menus are one *projection* of command identities. A
//! [`Menu`] therefore holds only ordered references — command ids,
//! separators, and section keys — and never a handler, so the same command can
//! appear in several menus without a second behavior declaration.
//!
//! [`MenuBar::outline`] is pure: given a [`DesktopPlatform`] it resolves the
//! standard layout, applies the declared edits, injects the mandatory native
//! nodes (macOS Services), and returns the same [`MenuOutline`] on every host.

use vstd::prelude::*;

use super::faults::CommandFault;
use super::keys::{spec_key_fault, MenuKey, MenuSectionKey};
use super::standard::{
    about_menu_key, app_menu_key, spec_about_menu_key, spec_app_menu_key,
    spec_theme_section_menu, standard_key_values, standard_menu_keys, theme_section_menu,
    DesktopPlatform, StandardFeatures, ABOUT_COMMAND_ID, CLOSE_WINDOW_COMMAND_ID,
    COPY_COMMAND_ID, CUT_COMMAND_ID, DELETE_COMMAND_ID, DELETE_NEXT_WORD_COMMAND_ID,
    DELETE_PREVIOUS_WORD_COMMAND_ID, FIND_COMMAND_ID, HIDE_APP_COMMAND_ID,
    HIDE_OTHERS_COMMAND_ID, MINIMIZE_COMMAND_ID, OPEN_SETTINGS_COMMAND_ID, PASTE_COMMAND_ID,
    QUIT_COMMAND_ID, REDO_COMMAND_ID, SELECT_ALL_COMMAND_ID, SHOW_ALL_COMMAND_ID,
    UNDO_COMMAND_ID, ZOOM_COMMAND_ID,
};
use super::standard::command_id_texts;
use super::CommandId;
use crate::declaration::errors::{DeclarationError, DeclarationErrors};
use crate::text::str_eq;

verus! {

/// One ordered node inside a typed menu.
#[derive(Clone, Copy, PartialEq, Eq, Debug)]
pub enum MenuNode {
    /// A command, referenced by identity.
    Command(CommandId),
    /// A separator between groups.
    Separator,
    /// A reserved slot filled at runtime by the section's declared provider.
    Section(MenuSectionKey),
    /// The macOS system-managed Services menu. Framework-owned: applications
    /// cannot declare or remove it.
    Services,
}

/// Whether a node is a separator.
fn node_is_separator(node: &MenuNode) -> (separator: bool)
    ensures
        separator == (*node is Separator),
{
    match node {
        MenuNode::Separator => true,
        _ => false,
    }
}

/// The title shown for a top-level menu.
#[derive(Clone, Debug)]
pub enum MenuLabel {
    /// A title fixed at declaration time.
    Text(String),
    /// The application's display name, resolved at projection time. The
    /// standard application menu uses it on macOS.
    AppDisplayName,
}

/// What a [`MenuLabel`] says, as a value.
pub enum LabelModel {
    /// Fixed text.
    Text(Seq<char>),
    /// The application's display name.
    AppDisplayName,
}

impl View for MenuLabel {
    type V = LabelModel;

    open spec fn view(&self) -> LabelModel {
        match self {
            MenuLabel::Text(text) => LabelModel::Text(text@),
            MenuLabel::AppDisplayName => LabelModel::AppDisplayName,
        }
    }
}

impl MenuLabel {
    /// A title fixed at declaration time.
    pub fn text(text: &str) -> (label: Self)
        ensures
            label@ == LabelModel::Text(text@),
    {
        MenuLabel::Text(text.to_owned())
    }

    /// A title showing the application's display name.
    pub fn app_display_name() -> (label: Self)
        ensures
            label@ == LabelModel::AppDisplayName,
    {
        MenuLabel::AppDisplayName
    }

    /// The fixed text, when this title is static.
    pub fn static_text(&self) -> (text: Option<&str>)
        ensures
            match self@ {
                LabelModel::Text(t) => text is Some && text->0@ == t,
                LabelModel::AppDisplayName => text is None,
            },
    {
        match self {
            MenuLabel::Text(text) => Some(text.as_str()),
            MenuLabel::AppDisplayName => None,
        }
    }

    /// A copy of this title.
    pub fn duplicate(&self) -> (copy: Self)
        ensures
            copy@ == self@,
    {
        match self {
            MenuLabel::Text(text) => MenuLabel::Text(text.clone()),
            MenuLabel::AppDisplayName => MenuLabel::AppDisplayName,
        }
    }
}

/// A menu as a value: its key, its title, and its ordered nodes.
pub struct MenuModel {
    /// The top-level key.
    pub key: MenuKey,
    /// The title.
    pub label: LabelModel,
    /// The ordered nodes.
    pub nodes: Seq<MenuNode>,
}

/// One declared top-level menu.
#[derive(Debug)]
pub struct Menu {
    key: MenuKey,
    label: MenuLabel,
    nodes: Vec<MenuNode>,
}

impl View for Menu {
    type V = MenuModel;

    closed spec fn view(&self) -> MenuModel {
        MenuModel { key: self.key, label: self.label@, nodes: self.nodes@ }
    }
}

impl Menu {
    /// Start a menu with its key and title.
    pub fn new(key: MenuKey, label: MenuLabel) -> (menu: Self)
        ensures
            menu@ == (MenuModel { key, label: label@, nodes: Seq::empty() }),
    {
        Menu { key, label, nodes: Vec::new() }
    }

    /// A menu titled with its own key, the common case for `Edit`/`Window`.
    pub fn keyed(key: MenuKey) -> (menu: Self)
        ensures
            menu@ == (MenuModel { key, label: LabelModel::Text(key@), nodes: Seq::empty() }),
    {
        Menu::new(key, MenuLabel::text(key.as_str()))
    }

    /// Append a command reference.
    pub fn command(self, id: CommandId) -> (menu: Self)
        ensures
            menu@ == (MenuModel { nodes: self@.nodes.push(MenuNode::Command(id)), ..self@ }),
    {
        let mut menu = self;
        menu.nodes.push(MenuNode::Command(id));
        menu
    }

    /// Append a separator.
    pub fn separator(self) -> (menu: Self)
        ensures
            menu@ == (MenuModel { nodes: self@.nodes.push(MenuNode::Separator), ..self@ }),
    {
        let mut menu = self;
        menu.nodes.push(MenuNode::Separator);
        menu
    }

    /// Append a reserved section slot.
    pub fn section(self, key: MenuSectionKey) -> (menu: Self)
        ensures
            menu@ == (MenuModel { nodes: self@.nodes.push(MenuNode::Section(key)), ..self@ }),
    {
        let mut menu = self;
        menu.nodes.push(MenuNode::Section(key));
        menu
    }

    /// Append the macOS Services node. Only the standard layout and the
    /// mandatory-node injection use it.
    fn services(self) -> (menu: Self)
        ensures
            menu@ == (MenuModel { nodes: self@.nodes.push(MenuNode::Services), ..self@ }),
    {
        let mut menu = self;
        menu.nodes.push(MenuNode::Services);
        menu
    }

    /// This menu's key.
    pub fn key(&self) -> (key: MenuKey)
        ensures
            key == self@.key,
    {
        self.key
    }

    /// This menu's title.
    pub fn label(&self) -> (label: &MenuLabel)
        ensures
            label@ == self@.label,
    {
        &self.label
    }

    /// This menu's ordered nodes.
    pub fn nodes(&self) -> (nodes: &[MenuNode])
        ensures
            nodes@ == self@.nodes,
    {
        self.nodes.as_slice()
    }

    /// A copy of this menu.
    pub fn duplicate(&self) -> (copy: Self)
        ensures
            copy@ == self@,
    {
        Menu { key: self.key, label: self.label.duplicate(), nodes: self.nodes.clone() }
    }
}

// ---------------------------------------------------------------------------
// Separator normalization.
// ---------------------------------------------------------------------------

/// Left to right, drop each separator that would lead the result or follow
/// another separator.
pub open spec fn collapse_separators(nodes: Seq<MenuNode>) -> Seq<MenuNode>
    decreases nodes.len(),
{
    if nodes.len() == 0 {
        Seq::empty()
    } else {
        let out = collapse_separators(nodes.drop_last());
        if nodes.last() is Separator && (out.len() == 0 || out.last() is Separator) {
            out
        } else {
            out.push(nodes.last())
        }
    }
}

/// Drop the separators that end the sequence.
pub open spec fn trim_trailing_separators(nodes: Seq<MenuNode>) -> Seq<MenuNode>
    decreases nodes.len(),
{
    if nodes.len() > 0 && nodes.last() is Separator {
        trim_trailing_separators(nodes.drop_last())
    } else {
        nodes
    }
}

/// The nodes with leading, trailing, and doubled separators dropped.
pub open spec fn spec_normalize(nodes: Seq<MenuNode>) -> Seq<MenuNode> {
    trim_trailing_separators(collapse_separators(nodes))
}

/// No separator leads, ends, or directly follows another.
pub open spec fn well_separated(nodes: Seq<MenuNode>) -> bool {
    &&& nodes.len() > 0 ==> !(nodes[0] is Separator)
    &&& nodes.len() > 0 ==> !(nodes.last() is Separator)
    &&& forall|i: int, j: int|
        0 <= i && j == i + 1 && j < nodes.len() ==> !(#[trigger] nodes[i] is Separator
            && #[trigger] nodes[j] is Separator)
}

/// The non-separator nodes, in order.
pub open spec fn menu_content(nodes: Seq<MenuNode>) -> Seq<MenuNode>
    decreases nodes.len(),
{
    if nodes.len() == 0 {
        Seq::empty()
    } else if nodes.last() is Separator {
        menu_content(nodes.drop_last())
    } else {
        menu_content(nodes.drop_last()).push(nodes.last())
    }
}

/// No separator leads or directly follows another.
spec fn collapsed(nodes: Seq<MenuNode>) -> bool {
    &&& nodes.len() > 0 ==> !(nodes[0] is Separator)
    &&& forall|i: int, j: int|
        0 <= i && j == i + 1 && j < nodes.len() ==> !(#[trigger] nodes[i] is Separator
            && #[trigger] nodes[j] is Separator)
}

proof fn lemma_collapse_is_collapsed(nodes: Seq<MenuNode>)
    ensures
        collapsed(collapse_separators(nodes)),
        menu_content(collapse_separators(nodes)) == menu_content(nodes),
    decreases nodes.len(),
{
    if nodes.len() > 0 {
        let out = collapse_separators(nodes.drop_last());
        lemma_collapse_is_collapsed(nodes.drop_last());
        if !(nodes.last() is Separator && (out.len() == 0 || out.last() is Separator)) {
            let next = out.push(nodes.last());
            assert(next.drop_last() =~= out);
            assert forall|i: int, j: int|
                0 <= i && j == i + 1 && j < next.len() implies !(#[trigger] next[i] is Separator
                && #[trigger] next[j] is Separator) by {
                if j < out.len() {
                    assert(next[i] == out[i] && next[j] == out[j]);
                }
            }
        }
    }
}

proof fn lemma_trim_keeps_collapsed(nodes: Seq<MenuNode>)
    requires
        collapsed(nodes),
    ensures
        well_separated(trim_trailing_separators(nodes)),
        menu_content(trim_trailing_separators(nodes)) == menu_content(nodes),
    decreases nodes.len(),
{
    if nodes.len() > 0 && nodes.last() is Separator {
        let shorter = nodes.drop_last();
        assert forall|i: int, j: int|
            0 <= i && j == i + 1 && j < shorter.len() implies !(#[trigger] shorter[i] is Separator
            && #[trigger] shorter[j] is Separator) by {
            assert(shorter[i] == nodes[i] && shorter[j] == nodes[j]);
        }
        if shorter.len() > 0 {
            assert(shorter[0] == nodes[0]);
        }
        lemma_trim_keeps_collapsed(shorter);
    }
}

proof fn lemma_well_separated_is_fixed(nodes: Seq<MenuNode>)
    requires
        collapsed(nodes),
    ensures
        collapse_separators(nodes) == nodes,
    decreases nodes.len(),
{
    if nodes.len() > 0 {
        let shorter = nodes.drop_last();
        assert forall|i: int, j: int|
            0 <= i && j == i + 1 && j < shorter.len() implies !(#[trigger] shorter[i] is Separator
            && #[trigger] shorter[j] is Separator) by {
            assert(shorter[i] == nodes[i] && shorter[j] == nodes[j]);
        }
        if shorter.len() > 0 {
            assert(shorter[0] == nodes[0]);
            let i = shorter.len() - 1;
            let j = nodes.len() - 1;
            assert(!(nodes[i] is Separator && nodes[j] is Separator));
        }
        lemma_well_separated_is_fixed(shorter);
        assert(shorter.push(nodes.last()) =~= nodes);
    }
}

/// Normalization leaves no leading, trailing, or doubled separator.
pub proof fn lemma_normalize_is_well_separated(nodes: Seq<MenuNode>)
    ensures
        well_separated(spec_normalize(nodes)),
{
    lemma_collapse_is_collapsed(nodes);
    lemma_trim_keeps_collapsed(collapse_separators(nodes));
}

/// Normalization drops separators only: every command, section, and Services
/// node survives, in order.
pub proof fn lemma_normalize_keeps_content(nodes: Seq<MenuNode>)
    ensures
        menu_content(spec_normalize(nodes)) == menu_content(nodes),
{
    lemma_collapse_is_collapsed(nodes);
    lemma_trim_keeps_collapsed(collapse_separators(nodes));
}

/// A well-separated node list is already normal, so normalizing twice is
/// normalizing once.
pub proof fn lemma_normalize_is_idempotent(nodes: Seq<MenuNode>)
    ensures
        spec_normalize(spec_normalize(nodes)) == spec_normalize(nodes),
        well_separated(nodes) ==> spec_normalize(nodes) == nodes,
{
    lemma_normalize_is_well_separated(nodes);
    let once = spec_normalize(nodes);
    lemma_well_separated_is_fixed(once);
    if well_separated(nodes) {
        lemma_well_separated_is_fixed(nodes);
    }
}

/// Drop leading, trailing, and doubled separators so the outline never encodes
/// a visually broken menu. Sections are kept even when a provider may return
/// no items; the runtime already collapses an empty section's separator.
fn normalize(nodes: &[MenuNode]) -> (out: Vec<MenuNode>)
    ensures
        out@ == spec_normalize(nodes@),
{
    let mut out: Vec<MenuNode> = Vec::new();
    let mut i: usize = 0;
    while i < nodes.len()
        invariant
            i <= nodes@.len(),
            out@ == collapse_separators(nodes@.take(i as int)),
        decreases nodes@.len() - i,
    {
        let node = nodes[i];
        assert(nodes@.take(i + 1).drop_last() =~= nodes@.take(i as int));
        let skip = node_is_separator(&node) && (out.len() == 0 || node_is_separator(
            &out[out.len() - 1],
        ));
        if !skip {
            out.push(node);
        }
        i = i + 1;
    }
    assert(nodes@.take(nodes@.len() as int) =~= nodes@);
    while out.len() > 0 && node_is_separator(&out[out.len() - 1])
        invariant
            trim_trailing_separators(out@) == spec_normalize(nodes@),
        decreases out@.len(),
    {
        out.pop();
    }
    out
}

// ---------------------------------------------------------------------------
// The standard layout.
// ---------------------------------------------------------------------------

/// Whether the platform is macOS.
fn is_mac(platform: DesktopPlatform) -> (mac: bool)
    ensures
        mac == (platform == DesktopPlatform::MacOs),
{
    match platform {
        DesktopPlatform::MacOs => true,
        _ => false,
    }
}

/// The standard-menu content flags, after merging the layout's explicit edits
/// with the declaration's resolved features.
#[derive(Clone, Copy, Debug)]
pub struct LayoutFlags {
    /// The Settings command has a place.
    pub settings: bool,
    /// The About command has a place.
    pub about: bool,
    /// The Appearance section has a place.
    pub theme: bool,
}

/// A command node for the id whose text is `text`.
pub open spec fn command_node(text: &'static str) -> MenuNode {
    MenuNode::Command(CommandId::literal(text))
}

/// The About and Settings block at the top of the application menu.
pub open spec fn app_block_head(
    key: MenuKey,
    platform: DesktopPlatform,
    flags: LayoutFlags,
) -> Seq<MenuNode> {
    let app_block = key@ == spec_app_menu_key(platform);
    (if app_block && flags.about && platform == DesktopPlatform::MacOs {
        seq![command_node("app.about"), MenuNode::Separator]
    } else {
        Seq::empty()
    }) + (if app_block && flags.settings {
        seq![command_node("app.settings"), MenuNode::Separator]
    } else {
        Seq::empty()
    })
}

/// The Appearance section slot, in the menu the platform gives it.
pub open spec fn theme_block(key: MenuKey, platform: DesktopPlatform, flags: LayoutFlags) -> Seq<
    MenuNode,
> {
    if flags.theme && key@ == spec_theme_section_menu(platform) {
        seq![MenuNode::Section(MenuSectionKey::literal("appearance")), MenuNode::Separator]
    } else {
        Seq::empty()
    }
}

/// Services and the hide commands of the macOS application menu.
pub open spec fn macos_app_block(key: MenuKey, platform: DesktopPlatform) -> Seq<MenuNode> {
    if platform == DesktopPlatform::MacOs && key@ == "App"@ {
        seq![
            MenuNode::Services,
            MenuNode::Separator,
            command_node("app.hide"),
            command_node("app.hide_others"),
            command_node("app.show_all"),
            MenuNode::Separator,
        ]
    } else {
        Seq::empty()
    }
}

/// Quit, closing the application block.
pub open spec fn quit_block(key: MenuKey, platform: DesktopPlatform) -> Seq<MenuNode> {
    if key@ == spec_app_menu_key(platform) {
        seq![command_node("app.quit")]
    } else {
        Seq::empty()
    }
}

/// The Edit menu's commands, identical on every platform.
pub open spec fn edit_block(key: MenuKey) -> Seq<MenuNode> {
    if key@ == "Edit"@ {
        seq![
            command_node("edit.undo"),
            command_node("edit.redo"),
            MenuNode::Separator,
            command_node("edit.cut"),
            command_node("edit.copy"),
            command_node("edit.paste"),
            MenuNode::Separator,
            command_node("edit.delete"),
            command_node("edit.delete_previous_word"),
            command_node("edit.delete_next_word"),
            MenuNode::Separator,
            command_node("edit.find"),
            MenuNode::Separator,
            command_node("edit.select_all"),
        ]
    } else {
        Seq::empty()
    }
}

/// The Window menu's commands.
pub open spec fn window_block(key: MenuKey, platform: DesktopPlatform) -> Seq<MenuNode> {
    if key@ == "Window"@ {
        if platform == DesktopPlatform::MacOs {
            seq![
                command_node("window.minimize"),
                command_node("window.zoom"),
                MenuNode::Separator,
                command_node("window.close"),
            ]
        } else {
            seq![command_node("window.close")]
        }
    } else {
        Seq::empty()
    }
}

/// About in Help, off macOS.
pub open spec fn help_block(key: MenuKey, platform: DesktopPlatform, flags: LayoutFlags) -> Seq<
    MenuNode,
> {
    if key@ == "Help"@ && flags.about && platform != DesktopPlatform::MacOs {
        seq![command_node("app.about")]
    } else {
        Seq::empty()
    }
}

/// The framework's nodes of the standard menu `key` on `platform`.
pub open spec fn spec_standard_nodes(
    key: MenuKey,
    platform: DesktopPlatform,
    flags: LayoutFlags,
) -> Seq<MenuNode> {
    app_block_head(key, platform, flags) + theme_block(key, platform, flags) + macos_app_block(
        key,
        platform,
    ) + quit_block(key, platform) + edit_block(key) + window_block(key, platform) + help_block(
        key,
        platform,
        flags,
    )
}

/// The title of a standard menu: the application's name for `App`, the key
/// itself otherwise.
pub open spec fn standard_label(key: MenuKey) -> LabelModel {
    if key@ == "App"@ {
        LabelModel::AppDisplayName
    } else {
        LabelModel::Text(key@)
    }
}

/// The enabled standard features `platform` places in `menu`, in the order the
/// standard layout renders them. Settings never appears: it lives in a menu
/// that cannot be hidden.
pub open spec fn spec_stranded_features(
    menu: MenuKey,
    platform: DesktopPlatform,
    flags: LayoutFlags,
) -> Seq<&'static str> {
    (if flags.theme && spec_theme_section_menu(platform) == menu@ {
        seq!["Appearance"]
    } else {
        Seq::empty()
    }) + (if flags.about && spec_about_menu_key(platform) == menu@ {
        seq!["About"]
    } else {
        Seq::empty()
    })
}

/// The enabled standard features `platform` places in `menu`.
fn stranded_features(menu: MenuKey, platform: DesktopPlatform, flags: LayoutFlags) -> (stranded:
    Vec<&'static str>)
    ensures
        stranded@ == spec_stranded_features(menu, platform, flags),
{
    let mut stranded: Vec<&'static str> = Vec::new();
    if flags.theme && theme_section_menu(platform).same(menu) {
        stranded.push("Appearance");
    }
    if flags.about && str_eq(about_menu_key(platform), menu.as_str()) {
        stranded.push("About");
    }
    assert(stranded@ =~= spec_stranded_features(menu, platform, flags));
    stranded
}

/// Which standard menus an application may hide. The application block, Edit,
/// and Window carry framework-required behavior and are not removable.
pub open spec fn is_optional_menu(key: MenuKey) -> bool {
    key@ == "View"@ || key@ == "Help"@
}

/// Whether `key` names an optional standard menu.
fn optional_menu(key: MenuKey) -> (optional: bool)
    ensures
        optional == is_optional_menu(key),
{
    key.same(MenuKey::VIEW()) || key.same(MenuKey::HELP())
}

/// The faults of hiding `key`: a rejected edit for a required menu, otherwise
/// one per feature the hiding strands.
pub open spec fn hide_fault(key: MenuKey, platform: DesktopPlatform, flags: LayoutFlags) -> Seq<
    CommandFault,
> {
    if !is_optional_menu(key) {
        seq![
            CommandFault::InvalidStandardEdit {
                menu: key,
                reason: "menu is required by the framework and cannot be hidden",
            },
        ]
    } else {
        spec_stranded_features(key, platform, flags).map_values(
            |feature: &'static str| CommandFault::StrandedStandardFeature { menu: key, feature },
        )
    }
}

/// The faults of every hide edit, in declaration order.
pub open spec fn hide_faults(hidden: Seq<MenuKey>, platform: DesktopPlatform, flags: LayoutFlags) -> Seq<
    CommandFault,
>
    decreases hidden.len(),
{
    if hidden.len() == 0 {
        Seq::empty()
    } else {
        hide_faults(hidden.drop_last(), platform, flags) + hide_fault(
            hidden.last(),
            platform,
            flags,
        )
    }
}

/// Append the About and Settings block of the application menu.
fn add_app_block_head(
    menu: Menu,
    key: MenuKey,
    platform: DesktopPlatform,
    flags: LayoutFlags,
    app_block: bool,
    mac: bool,
) -> (out: Menu)
    requires
        app_block == (key@ == spec_app_menu_key(platform)),
        mac == (platform == DesktopPlatform::MacOs),
    ensures
        out@ == (MenuModel { nodes: menu@.nodes + app_block_head(key, platform, flags), ..menu@ }),
{
    let ghost head = menu@.nodes;
    let mut menu = menu;
    if app_block && flags.about && mac {
        menu = menu.command(ABOUT_COMMAND_ID()).separator();
    }
    if app_block && flags.settings {
        menu = menu.command(OPEN_SETTINGS_COMMAND_ID()).separator();
    }
    assert(menu@.nodes =~= head + app_block_head(key, platform, flags));
    menu
}

/// Append the Appearance section slot where the platform puts it.
fn add_theme_block(menu: Menu, key: MenuKey, platform: DesktopPlatform, flags: LayoutFlags) -> (out:
    Menu)
    ensures
        out@ == (MenuModel { nodes: menu@.nodes + theme_block(key, platform, flags), ..menu@ }),
{
    let ghost head = menu@.nodes;
    let mut menu = menu;
    if flags.theme && theme_section_menu(platform).same(key) {
        menu = menu.section(MenuSectionKey::THEME()).separator();
    }
    assert(menu@.nodes =~= head + theme_block(key, platform, flags));
    menu
}

/// Append Services and the hide commands of the macOS application menu.
fn add_macos_app_block(menu: Menu, key: MenuKey, platform: DesktopPlatform, mac: bool) -> (out:
    Menu)
    requires
        mac == (platform == DesktopPlatform::MacOs),
    ensures
        out@ == (MenuModel { nodes: menu@.nodes + macos_app_block(key, platform), ..menu@ }),
{
    let ghost head = menu@.nodes;
    let mut menu = menu;
    if mac && key.same(MenuKey::APP()) {
        menu = menu.services().separator();
        menu = menu.command(HIDE_APP_COMMAND_ID()).command(HIDE_OTHERS_COMMAND_ID());
        menu = menu.command(SHOW_ALL_COMMAND_ID()).separator();
    }
    assert(menu@.nodes =~= head + macos_app_block(key, platform));
    menu
}

/// Append the Edit menu's commands.
fn add_edit_block(menu: Menu, key: MenuKey) -> (out: Menu)
    ensures
        out@ == (MenuModel { nodes: menu@.nodes + edit_block(key), ..menu@ }),
{
    let ghost head = menu@.nodes;
    let mut menu = menu;
    if key.same(MenuKey::EDIT()) {
        menu = menu.command(UNDO_COMMAND_ID()).command(REDO_COMMAND_ID()).separator();
        menu = menu.command(CUT_COMMAND_ID()).command(COPY_COMMAND_ID());
        menu = menu.command(PASTE_COMMAND_ID()).separator();
        menu = menu.command(DELETE_COMMAND_ID()).command(DELETE_PREVIOUS_WORD_COMMAND_ID());
        menu = menu.command(DELETE_NEXT_WORD_COMMAND_ID()).separator();
        menu = menu.command(FIND_COMMAND_ID()).separator().command(SELECT_ALL_COMMAND_ID());
    }
    assert(menu@.nodes =~= head + edit_block(key));
    menu
}

/// Append the Window menu's commands.
fn add_window_block(menu: Menu, key: MenuKey, platform: DesktopPlatform, mac: bool) -> (out: Menu)
    requires
        mac == (platform == DesktopPlatform::MacOs),
    ensures
        out@ == (MenuModel { nodes: menu@.nodes + window_block(key, platform), ..menu@ }),
{
    let ghost head = menu@.nodes;
    let mut menu = menu;
    if key.same(MenuKey::WINDOW()) {
        if mac {
            menu = menu.command(MINIMIZE_COMMAND_ID()).command(ZOOM_COMMAND_ID()).separator();
        }
        menu = menu.command(CLOSE_WINDOW_COMMAND_ID());
    }
    assert(menu@.nodes =~= head + window_block(key, platform));
    menu
}

/// The models of a sequence of menus.
pub open spec fn menus_view(menus: Seq<Menu>) -> Seq<MenuModel> {
    menus.map_values(|m: Menu| m@)
}

/// Whether some key in `keys` has the text `key`.
pub open spec fn keys_contain(keys: Seq<MenuKey>, key: Seq<char>) -> bool {
    exists|i: int| 0 <= i < keys.len() && (#[trigger] keys[i])@ == key
}

/// Whether some key in `keys` names `key`.
fn keys_include(keys: &Vec<MenuKey>, key: MenuKey) -> (found: bool)
    ensures
        found == keys_contain(keys@, key@),
{
    let mut i: usize = 0;
    while i < keys.len()
        invariant
            i <= keys@.len(),
            forall|j: int| 0 <= j < i ==> (#[trigger] keys@[j])@ != key@,
        decreases keys@.len() - i,
    {
        if keys[i].same(key) {
            return true;
        }
        i = i + 1;
    }
    false
}

/// The first index at or after `from` of a menu keyed `key`, or `-1`.
pub open spec fn key_index_from(menus: Seq<MenuModel>, key: Seq<char>, from: int) -> int
    decreases menus.len() - from,
{
    if from < 0 || from >= menus.len() {
        -1
    } else if menus[from].key@ == key {
        from
    } else {
        key_index_from(menus, key, from + 1)
    }
}

/// The first index of a menu keyed `key`, or `-1`.
pub open spec fn key_index(menus: Seq<MenuModel>, key: Seq<char>) -> int {
    key_index_from(menus, key, 0)
}

/// The first menu keyed `key`.
fn find_menu(menus: &Vec<Menu>, key: MenuKey) -> (at: Option<usize>)
    ensures
        match at {
            Some(i) => key_index(menus_view(menus@), key@) == i && i < menus@.len(),
            None => key_index(menus_view(menus@), key@) == -1,
        },
{
    let ghost ms = menus_view(menus@);
    let mut i: usize = 0;
    while i < menus.len()
        invariant
            ms == menus_view(menus@),
            i <= menus@.len(),
            key_index(ms, key@) == key_index_from(ms, key@, i as int),
        decreases menus@.len() - i,
    {
        if menus[i].key.same(key) {
            return Some(i);
        }
        i = i + 1;
    }
    None
}

/// Append `src` to `dst`.
fn append_nodes(dst: &mut Vec<MenuNode>, src: &[MenuNode])
    ensures
        final(dst)@ == old(dst)@ + src@,
{
    let ghost start = dst@;
    let mut i: usize = 0;
    while i < src.len()
        invariant
            i <= src@.len(),
            dst@ == start + src@.take(i as int),
        decreases src@.len() - i,
    {
        dst.push(src[i]);
        i = i + 1;
        assert(dst@ =~= start + src@.take(i as int));
    }
    assert(src@.take(src@.len() as int) =~= src@);
}

/// Move every menu of `src` to the end of `dst`.
fn append_menus(dst: &mut Vec<Menu>, src: Vec<Menu>)
    ensures
        menus_view(final(dst)@) == menus_view(old(dst)@) + menus_view(src@),
{
    let mut src = src;
    let ghost moved = src@;
    dst.append(&mut src);
    assert(menus_view(dst@) =~= menus_view(old(dst)@) + menus_view(moved));
}

/// The nodes of a standard menu after every contribution to its key: each
/// contributed block follows one separator, in declaration order.
pub open spec fn merged_nodes(contributions: Seq<MenuModel>, key: MenuKey, nodes: Seq<MenuNode>) -> Seq<
    MenuNode,
>
    decreases contributions.len(),
{
    if contributions.len() == 0 {
        nodes
    } else {
        let prev = merged_nodes(contributions.drop_last(), key, nodes);
        let c = contributions.last();
        if c.key@ == key@ {
            prev.push(MenuNode::Separator) + c.nodes
        } else {
            prev
        }
    }
}

/// The menus contributed under keys the standard layout lacks: one top-level
/// menu per key, in first-contributed order, with the first contribution's
/// title; later contributions to the key merge into it after a separator.
pub open spec fn contributed_top_level(
    contributions: Seq<MenuModel>,
    standard_keys: Seq<MenuKey>,
) -> Seq<MenuModel>
    decreases contributions.len(),
{
    if contributions.len() == 0 {
        Seq::empty()
    } else {
        let prev = contributed_top_level(contributions.drop_last(), standard_keys);
        let c = contributions.last();
        if keys_contain(standard_keys, c.key@) {
            prev
        } else {
            let at = key_index(prev, c.key@);
            if at >= 0 {
                prev.update(
                    at,
                    MenuModel { nodes: prev[at].nodes.push(MenuNode::Separator) + c.nodes, ..prev[at] },
                )
            } else {
                prev.push(c)
            }
        }
    }
}

/// The layout as a value.
pub struct LayoutModel {
    /// Settings was placed explicitly.
    pub settings: bool,
    /// About was placed explicitly.
    pub about: bool,
    /// The Appearance section was reserved explicitly.
    pub theme_section: bool,
    /// The hidden menus, in declaration order.
    pub hidden: Seq<MenuKey>,
    /// The inserted application menus, in declaration order.
    pub custom: Seq<MenuModel>,
    /// The contributions, in declaration order.
    pub contributions: Seq<MenuModel>,
}

/// The merged content flags of a layout under the declaration's features:
/// a union, so neither can cancel the other.
pub open spec fn spec_layout_flags(layout: LayoutModel, features: StandardFeatures) -> LayoutFlags {
    LayoutFlags {
        settings: layout.settings || features.settings,
        about: layout.about || features.about,
        theme: layout.theme_section || features.theme,
    }
}

/// The resolved standard menu `key`, contributions merged.
pub open spec fn standard_menu_model(
    layout: LayoutModel,
    key: MenuKey,
    platform: DesktopPlatform,
    flags: LayoutFlags,
) -> MenuModel {
    MenuModel {
        key,
        label: standard_label(key),
        nodes: merged_nodes(layout.contributions, key, spec_standard_nodes(key, platform, flags)),
    }
}

/// The menus of the first `n` standard keys: the inserted and contributed
/// top-level menus go right before Window, and hidden menus are left out.
pub open spec fn resolved_menus(
    layout: LayoutModel,
    platform: DesktopPlatform,
    flags: LayoutFlags,
    keys: Seq<MenuKey>,
    n: nat,
) -> Seq<MenuModel>
    decreases n,
{
    if n == 0 {
        Seq::empty()
    } else {
        let key = keys[n - 1];
        resolved_menus(layout, platform, flags, keys, (n - 1) as nat) + (if key@ == "Window"@ {
            layout.custom + contributed_top_level(layout.contributions, keys)
        } else {
            Seq::empty()
        }) + (if keys_contain(layout.hidden, key@) {
            Seq::empty()
        } else {
            seq![standard_menu_model(layout, key, platform, flags)]
        })
    }
}

/// The menus the standard layout resolves to on `platform`.
pub open spec fn spec_resolve_menus(
    layout: LayoutModel,
    platform: DesktopPlatform,
    features: StandardFeatures,
) -> Seq<MenuModel> {
    let flags = spec_layout_flags(layout, features);
    let keys = standard_key_values(platform, flags.theme);
    resolved_menus(layout, platform, flags, keys, keys.len())
}

/// The faults the standard layout's hide edits raise on `platform`.
pub open spec fn spec_resolve_faults(
    layout: LayoutModel,
    platform: DesktopPlatform,
    features: StandardFeatures,
) -> Seq<CommandFault> {
    hide_faults(layout.hidden, platform, spec_layout_flags(layout, features))
}

/// The framework-owned standard layout plus the application's explicit edits.
#[derive(Debug)]
pub struct StandardLayout {
    settings: bool,
    about: bool,
    theme_section: bool,
    hidden: Vec<MenuKey>,
    custom: Vec<Menu>,
    contributions: Vec<Menu>,
}

impl View for StandardLayout {
    type V = LayoutModel;

    closed spec fn view(&self) -> LayoutModel {
        LayoutModel {
            settings: self.settings,
            about: self.about,
            theme_section: self.theme_section,
            hidden: self.hidden@,
            custom: menus_view(self.custom@),
            contributions: menus_view(self.contributions@),
        }
    }
}

impl StandardLayout {
    /// The bare standard layout: no Settings surface, no About, no Appearance.
    pub fn new() -> (layout: Self)
        ensures
            layout@ == (LayoutModel {
                settings: false,
                about: false,
                theme_section: false,
                hidden: Seq::empty(),
                custom: Seq::empty(),
                contributions: Seq::empty(),
            }),
    {
        let layout = StandardLayout {
            settings: false,
            about: false,
            theme_section: false,
            hidden: Vec::new(),
            custom: Vec::new(),
            contributions: Vec::new(),
        };
        assert(menus_view(layout.custom@) =~= Seq::empty());
        layout
    }

    /// Include the standard Settings command.
    pub fn with_settings(self) -> (layout: Self)
        ensures
            layout@ == (LayoutModel { settings: true, ..self@ }),
    {
        let mut layout = self;
        layout.settings = true;
        layout
    }

    /// Include the standard About command.
    pub fn with_about(self) -> (layout: Self)
        ensures
            layout@ == (LayoutModel { about: true, ..self@ }),
    {
        let mut layout = self;
        layout.about = true;
        layout
    }

    /// Reserve the Appearance/Theme section in its platform-conventional menu.
    pub fn with_theme_section(self) -> (layout: Self)
        ensures
            layout@ == (LayoutModel { theme_section: true, ..self@ }),
    {
        let mut layout = self;
        layout.theme_section = true;
        layout
    }

    /// Hide an optional standard menu. Hiding a required menu is a declaration
    /// fault, reported when the menu bar is outlined.
    pub fn hide_menu(self, key: MenuKey) -> (layout: Self)
        ensures
            layout@ == (LayoutModel { hidden: self@.hidden.push(key), ..self@ }),
    {
        let mut layout = self;
        layout.hidden.push(key);
        layout
    }

    /// Insert an application menu before the Window menu.
    pub fn insert(self, menu: Menu) -> (layout: Self)
        ensures
            layout@ == (LayoutModel { custom: self@.custom.push(menu@), ..self@ }),
    {
        let mut layout = self;
        layout.custom.push(menu);
        assert(menus_view(layout.custom@) =~= menus_view(self.custom@).push(menu@));
        layout
    }

    /// Contribute ordered nodes to the standard menu keyed by `menu.key()`.
    pub fn contribute(self, menu: Menu) -> (layout: Self)
        ensures
            layout@ == (LayoutModel { contributions: self@.contributions.push(menu@), ..self@ }),
    {
        let mut layout = self;
        layout.contributions.push(menu);
        assert(menus_view(layout.contributions@) =~= menus_view(self.contributions@).push(menu@));
        layout
    }

    /// Merge the layout's explicit edits with the features the declaration
    /// resolved.
    fn flags(&self, features: StandardFeatures) -> (flags: LayoutFlags)
        ensures
            flags == spec_layout_flags(self@, features),
    {
        LayoutFlags {
            settings: self.settings || features.has_settings(),
            about: self.about || features.has_about(),
            theme: self.theme_section || features.theme,
        }
    }

    /// Copies of the inserted menus.
    fn custom_menus(&self) -> (menus: Vec<Menu>)
        ensures
            menus_view(menus@) == self@.custom,
    {
        let mut menus: Vec<Menu> = Vec::new();
        let mut i: usize = 0;
        while i < self.custom.len()
            invariant
                i <= self.custom@.len(),
                menus_view(menus@) == menus_view(self.custom@).take(i as int),
            decreases self.custom@.len() - i,
        {
            let ghost before = menus@;
            menus.push(self.custom[i].duplicate());
            assert(menus_view(menus@) =~= menus_view(before).push(self.custom@[i as int]@));
            assert(menus_view(self.custom@).take(i + 1) =~= menus_view(self.custom@).take(
                i as int,
            ).push(self.custom@[i as int]@));
            i = i + 1;
        }
        assert(menus_view(self.custom@).take(i as int) =~= menus_view(self.custom@));
        menus
    }

    /// The framework's content of the standard menu `key`.
    fn standard_menu(&self, key: MenuKey, platform: DesktopPlatform, flags: LayoutFlags) -> (menu:
        Menu)
        ensures
            menu@ == (MenuModel {
                key,
                label: standard_label(key),
                nodes: spec_standard_nodes(key, platform, flags),
            }),
    {
        let app_block = str_eq(app_menu_key(platform), key.as_str());
        let mac = is_mac(platform);
        let menu = if key.same(MenuKey::APP()) {
            Menu::new(key, MenuLabel::app_display_name())
        } else {
            Menu::keyed(key)
        };
        let menu = add_app_block_head(menu, key, platform, flags, app_block, mac);
        let menu = add_theme_block(menu, key, platform, flags);
        let menu = add_macos_app_block(menu, key, platform, mac);
        let menu = if app_block {
            menu.command(QUIT_COMMAND_ID())
        } else {
            menu
        };
        let menu = add_edit_block(menu, key);
        let menu = add_window_block(menu, key, platform, mac);
        let ghost head = menu@.nodes;
        let menu = if key.same(MenuKey::HELP()) && flags.about && !mac {
            menu.command(ABOUT_COMMAND_ID())
        } else {
            menu
        };
        assert(menu@.nodes =~= head + help_block(key, platform, flags));
        assert(menu@.nodes =~= spec_standard_nodes(key, platform, flags));
        menu
    }

    /// Append every contribution declared against `key`, in declaration
    /// order, each after one separator; normalization later drops the
    /// separator when the block it would separate from is empty.
    fn merge_contributions(&self, key: MenuKey, menu: Menu) -> (merged: Menu)
        ensures
            merged@ == (MenuModel {
                nodes: merged_nodes(self@.contributions, key, menu@.nodes),
                ..menu@
            }),
    {
        let ghost base = menu@;
        let ghost contributions = self@.contributions;
        let mut menu = menu;
        let mut i: usize = 0;
        while i < self.contributions.len()
            invariant
                i <= self.contributions@.len(),
                contributions == menus_view(self.contributions@),
                menu@ == (MenuModel {
                    nodes: merged_nodes(contributions.take(i as int), key, base.nodes),
                    ..base
                }),
            decreases self.contributions@.len() - i,
        {
            let contribution = &self.contributions[i];
            assert(contributions.take(i + 1).drop_last() =~= contributions.take(i as int));
            assert(contributions.take(i + 1).last() == contribution@);
            if contribution.key.same(key) {
                menu = menu.separator();
                append_nodes(&mut menu.nodes, contribution.nodes.as_slice());
            }
            i = i + 1;
        }
        assert(contributions.take(i as int) =~= contributions);
        menu
    }

    /// The contributions under keys the standard layout lacks, each key one
    /// top-level menu.
    fn contributed_top_level_menus(&self, standard_keys: &Vec<MenuKey>) -> (menus: Vec<Menu>)
        ensures
            menus_view(menus@) == contributed_top_level(self@.contributions, standard_keys@),
    {
        let ghost contributions = self@.contributions;
        let mut menus: Vec<Menu> = Vec::new();
        let mut i: usize = 0;
        while i < self.contributions.len()
            invariant
                i <= self.contributions@.len(),
                contributions == menus_view(self.contributions@),
                menus_view(menus@) == contributed_top_level(
                    contributions.take(i as int),
                    standard_keys@,
                ),
            decreases self.contributions@.len() - i,
        {
            let contribution = &self.contributions[i];
            assert(contributions.take(i + 1).drop_last() =~= contributions.take(i as int));
            assert(contributions.take(i + 1).last() == contribution@);
            if !keys_include(standard_keys, contribution.key) {
                match find_menu(&menus, contribution.key) {
                    Some(at) => {
                        let existing = &menus[at];
                        let mut nodes = existing.nodes.clone();
                        assert(nodes@ =~= existing.nodes@);
                        nodes.push(MenuNode::Separator);
                        append_nodes(&mut nodes, contribution.nodes.as_slice());
                        let updated = Menu {
                            key: existing.key,
                            label: existing.label.duplicate(),
                            nodes,
                        };
                        let ghost before = menus@;
                        menus.set(at, updated);
                        assert(menus_view(menus@) =~= menus_view(before).update(
                            at as int,
                            updated@,
                        ));
                    },
                    None => {
                        let ghost before = menus@;
                        menus.push(contribution.duplicate());
                        assert(menus_view(menus@) =~= menus_view(before).push(contribution@));
                    },
                }
            }
            i = i + 1;
        }
        assert(contributions.take(i as int) =~= contributions);
        menus
    }

    /// Resolve the standard menus for `platform`, appending the hide faults.
    fn resolve(
        &self,
        platform: DesktopPlatform,
        features: StandardFeatures,
        faults: &mut Vec<CommandFault>,
    ) -> (menus: Vec<Menu>)
        ensures
            final(faults)@ == old(faults)@ + spec_resolve_faults(self@, platform, features),
            menus_view(menus@) == spec_resolve_menus(self@, platform, features),
    {
        let flags = self.flags(features);
        let ghost start = faults@;
        let mut i: usize = 0;
        while i < self.hidden.len()
            invariant
                i <= self.hidden@.len(),
                faults@ == start + hide_faults(self@.hidden.take(i as int), platform, flags),
            decreases self.hidden@.len() - i,
        {
            let key = self.hidden[i];
            assert(self@.hidden.take(i + 1).drop_last() =~= self@.hidden.take(i as int));
            let ghost before = faults@;
            if !optional_menu(key) {
                faults.push(
                    CommandFault::InvalidStandardEdit {
                        menu: key,
                        reason: "menu is required by the framework and cannot be hidden",
                    },
                );
                assert(faults@ =~= before + hide_fault(key, platform, flags));
            } else {
                let stranded = stranded_features(key, platform, flags);
                let mut k: usize = 0;
                while k < stranded.len()
                    invariant
                        k <= stranded@.len(),
                        faults@ == before + stranded@.take(k as int).map_values(
                            |feature: &'static str|
                                CommandFault::StrandedStandardFeature { menu: key, feature },
                        ),
                    decreases stranded@.len() - k,
                {
                    faults.push(CommandFault::StrandedStandardFeature { menu: key, feature: stranded[k] });
                    k = k + 1;
                    assert(faults@ =~= before + stranded@.take(k as int).map_values(
                        |feature: &'static str|
                            CommandFault::StrandedStandardFeature { menu: key, feature },
                    ));
                }
                assert(stranded@.take(k as int) =~= stranded@);
            }
            i = i + 1;
        }
        assert(self@.hidden.take(i as int) =~= self@.hidden);
        let standard_keys = standard_menu_keys(platform, flags.theme);
        let mut menus: Vec<Menu> = Vec::new();
        let mut i: usize = 0;
        while i < standard_keys.len()
            invariant
                i <= standard_keys@.len(),
                standard_keys@ == standard_key_values(platform, flags.theme),
                flags == spec_layout_flags(self@, features),
                menus_view(menus@) == resolved_menus(
                    self@,
                    platform,
                    flags,
                    standard_keys@,
                    i as nat,
                ),
            decreases standard_keys@.len() - i,
        {
            let key = standard_keys[i];
            if key.same(MenuKey::WINDOW()) {
                append_menus(&mut menus, self.custom_menus());
                append_menus(&mut menus, self.contributed_top_level_menus(&standard_keys));
            }
            if !keys_include(&self.hidden, key) {
                let menu = self.standard_menu(key, platform, flags);
                let ghost before = menus@;
                menus.push(self.merge_contributions(key, menu));
                assert(menus_view(menus@) =~= menus_view(before) + seq![
                    standard_menu_model(self@, key, platform, flags),
                ]);
            } else {
                assert(menus_view(menus@) =~= menus_view(menus@) + Seq::<MenuModel>::empty());
            }
            i = i + 1;
        }
        menus
    }
}

// ---------------------------------------------------------------------------
// Mandatory native nodes.
// ---------------------------------------------------------------------------

/// The first index at or after `from` of a menu other than the dock, or `-1`.
pub open spec fn first_non_dock_from(menus: Seq<MenuModel>, from: int) -> int
    decreases menus.len() - from,
{
    if from < 0 || from >= menus.len() {
        -1
    } else if menus[from].key@ != "Dock"@ {
        from
    } else {
        first_non_dock_from(menus, from + 1)
    }
}

/// The menu that hosts Services: the one keyed `App`, else the first menu
/// that is not the dock; `-1` when there is none.
pub open spec fn services_host(menus: Seq<MenuModel>) -> int {
    let app = key_index(menus, "App"@);
    if app >= 0 {
        app
    } else {
        first_non_dock_from(menus, 0)
    }
}

/// The menus with Services injected on macOS into its host, after one
/// separator when the host already has content; unchanged elsewhere, when
/// there is no host, or when the host already holds Services.
pub open spec fn spec_inject_mandatory(menus: Seq<MenuModel>, platform: DesktopPlatform) -> Seq<
    MenuModel,
> {
    let at = services_host(menus);
    if platform != DesktopPlatform::MacOs || at < 0 || menus[at].nodes.contains(
        MenuNode::Services,
    ) {
        menus
    } else {
        let nodes = menus[at].nodes;
        menus.update(
            at,
            MenuModel {
                nodes: if nodes.len() == 0 {
                    seq![MenuNode::Services]
                } else {
                    nodes.push(MenuNode::Separator).push(MenuNode::Services)
                },
                ..menus[at]
            },
        )
    }
}

/// The first menu that is not the dock.
fn first_non_dock(menus: &Vec<Menu>) -> (at: Option<usize>)
    ensures
        match at {
            Some(i) => first_non_dock_from(menus_view(menus@), 0) == i && i < menus@.len(),
            None => first_non_dock_from(menus_view(menus@), 0) == -1,
        },
{
    let ghost ms = menus_view(menus@);
    let mut i: usize = 0;
    while i < menus.len()
        invariant
            ms == menus_view(menus@),
            i <= menus@.len(),
            first_non_dock_from(ms, 0) == first_non_dock_from(ms, i as int),
        decreases menus@.len() - i,
    {
        if !menus[i].key.is_dock() {
            return Some(i);
        }
        i = i + 1;
    }
    None
}

/// Whether the nodes already hold Services.
fn has_services(nodes: &[MenuNode]) -> (found: bool)
    ensures
        found == nodes@.contains(MenuNode::Services),
{
    let mut i: usize = 0;
    while i < nodes.len()
        invariant
            i <= nodes@.len(),
            forall|j: int| 0 <= j < i ==> nodes@[j] != MenuNode::Services,
        decreases nodes@.len() - i,
    {
        match nodes[i] {
            MenuNode::Services => {
                assert(nodes@[i as int] == MenuNode::Services);
                return true;
            },
            _ => {},
        }
        i = i + 1;
    }
    false
}

/// Inject the framework-required native nodes an application layout cannot
/// declare for itself: on macOS, Services in the application menu.
fn inject_mandatory_nodes(menus: &mut Vec<Menu>, platform: DesktopPlatform)
    ensures
        menus_view(final(menus)@) == spec_inject_mandatory(menus_view(old(menus)@), platform),
{
    if !is_mac(platform) {
        return ;
    }
    let at = match find_menu(menus, MenuKey::APP()) {
        Some(i) => i,
        None => match first_non_dock(menus) {
            Some(i) => i,
            None => {
                return ;
            },
        },
    };
    let ghost ms = menus_view(menus@);
    assert(at as int == services_host(ms));
    assert(ms[at as int] == menus@[at as int]@);
    if has_services(menus[at].nodes.as_slice()) {
        return ;
    }
    let existing = &menus[at];
    let mut nodes = existing.nodes.clone();
    assert(nodes@ =~= existing.nodes@);
    if nodes.len() > 0 {
        nodes.push(MenuNode::Separator);
    }
    nodes.push(MenuNode::Services);
    let ghost old_nodes = ms[at as int].nodes;
    assert(nodes@ =~= (if old_nodes.len() == 0 {
        seq![MenuNode::Services]
    } else {
        old_nodes.push(MenuNode::Separator).push(MenuNode::Services)
    }));
    let updated = Menu { key: existing.key, label: existing.label.duplicate(), nodes };
    let ghost before = menus@;
    menus.set(at, updated);
    assert(menus_view(menus@) =~= menus_view(before).update(at as int, updated@));
    assert(menus_view(menus@) == spec_inject_mandatory(ms, platform));
}

// ---------------------------------------------------------------------------
// The outline.
// ---------------------------------------------------------------------------

/// Whether menu `i` repeats the key of an earlier menu.
pub open spec fn repeats_earlier_key(menus: Seq<MenuModel>, i: int) -> bool {
    exists|j: int| 0 <= j < i && (#[trigger] menus[j]).key@ == menus[i].key@
}

/// Whether the section slots of menu `j` count toward slot uniqueness: it is
/// neither a repeated key, whose content is dropped, nor the dock, which has
/// no section machinery.
pub open spec fn counts_sections(menus: Seq<MenuModel>, j: int) -> bool {
    !repeats_earlier_key(menus, j) && menus[j].key@ != "Dock"@
}

/// Whether node `m` of menu `j` reserves the section `section`.
pub open spec fn reserves(menus: Seq<MenuModel>, j: int, m: int, section: Seq<char>) -> bool {
    match menus[j].nodes[m] {
        MenuNode::Section(s) => s@ == section,
        _ => false,
    }
}

/// Whether `section` was reserved at a counted position before node `k` of
/// menu `i`.
pub open spec fn section_seen_before(menus: Seq<MenuModel>, i: int, k: int, section: Seq<char>) -> bool {
    exists|j: int, m: int|
        0 <= j <= i && 0 <= m < menus[j].nodes.len() && (j < i || m < k) && counts_sections(
            menus,
            j,
        ) && #[trigger] reserves(menus, j, m, section)
}

/// Whether node `m` references the command `command`.
pub open spec fn references_command(nodes: Seq<MenuNode>, m: int, command: Seq<char>) -> bool {
    match nodes[m] {
        MenuNode::Command(id) => id@ == command,
        _ => false,
    }
}

/// Whether `command` is referenced before node `k`.
pub open spec fn command_seen_before(nodes: Seq<MenuNode>, k: int, command: Seq<char>) -> bool {
    exists|m: int| 0 <= m < k && #[trigger] references_command(nodes, m, command)
}

/// The fault of node `k` of menu `i`, if any: a command repeated within its
/// menu, a section in the dock, or a section slot reserved twice.
pub open spec fn node_fault(menus: Seq<MenuModel>, i: int, k: int) -> Seq<CommandFault> {
    let menu = menus[i];
    match menu.nodes[k] {
        MenuNode::Command(command) => if command_seen_before(menu.nodes, k, command@) {
            seq![CommandFault::RepeatedCommandInMenu { menu: menu.key, command }]
        } else {
            Seq::empty()
        },
        MenuNode::Section(section) => if menu.key@ == "Dock"@ {
            seq![CommandFault::SectionInDock { section }]
        } else if section_seen_before(menus, i, k, section@) {
            seq![CommandFault::DuplicateSectionSlot { section }]
        } else {
            Seq::empty()
        },
        _ => Seq::empty(),
    }
}

/// The faults of the first `n` nodes of menu `i`.
pub open spec fn node_faults(menus: Seq<MenuModel>, i: int, n: nat) -> Seq<CommandFault>
    decreases n,
{
    if n == 0 {
        Seq::empty()
    } else {
        node_faults(menus, i, (n - 1) as nat) + node_fault(menus, i, n - 1)
    }
}

/// The fault of a key that is unusable as an identity.
pub open spec fn menu_key_fault(key: MenuKey) -> Seq<CommandFault> {
    match spec_key_fault(key@) {
        Some(fault) => seq![CommandFault::InvalidMenuKey { raw: key.text(), fault }],
        None => Seq::empty(),
    }
}

/// The faults of menu `i`: a duplicate key alone, else its key fault and its
/// node faults.
pub open spec fn menu_faults(menus: Seq<MenuModel>, i: int) -> Seq<CommandFault> {
    if repeats_earlier_key(menus, i) {
        seq![CommandFault::DuplicateMenuKey { menu: menus[i].key }]
    } else {
        menu_key_fault(menus[i].key) + node_faults(menus, i, menus[i].nodes.len())
    }
}

/// The structural faults of the first `n` resolved menus, in order.
pub open spec fn structure_faults(menus: Seq<MenuModel>, n: nat) -> Seq<CommandFault>
    decreases n,
{
    if n == 0 {
        Seq::empty()
    } else {
        structure_faults(menus, (n - 1) as nat) + menu_faults(menus, n - 1)
    }
}

/// The outline entries of the first `n` resolved menus: each first occurrence
/// of a key, normalized, unless nothing is left of it.
pub open spec fn outline_entries(menus: Seq<MenuModel>, n: nat) -> Seq<MenuModel>
    decreases n,
{
    if n == 0 {
        Seq::empty()
    } else {
        let prev = outline_entries(menus, (n - 1) as nat);
        let menu = menus[n - 1];
        let nodes = spec_normalize(menu.nodes);
        if repeats_earlier_key(menus, n - 1) || nodes.len() == 0 {
            prev
        } else {
            prev.push(MenuModel { nodes, ..menu })
        }
    }
}

/// Whether menu `i` repeats the key of an earlier menu.
fn repeats_before(menus: &Vec<Menu>, i: usize) -> (repeats: bool)
    requires
        i < menus@.len(),
    ensures
        repeats == repeats_earlier_key(menus_view(menus@), i as int),
{
    let ghost ms = menus_view(menus@);
    let key = menus[i].key;
    let mut j: usize = 0;
    while j < i
        invariant
            ms == menus_view(menus@),
            i < menus@.len(),
            key == ms[i as int].key,
            j <= i,
            forall|jj: int| 0 <= jj < j ==> (#[trigger] ms[jj]).key@ != key@,
        decreases i - j,
    {
        if menus[j].key.same(key) {
            assert(ms[j as int].key@ == key@);
            return true;
        }
        j = j + 1;
    }
    false
}

/// Whether `command` is referenced before node `k`.
fn command_repeats(nodes: &[MenuNode], k: usize, command: CommandId) -> (repeats: bool)
    requires
        k <= nodes@.len(),
    ensures
        repeats == command_seen_before(nodes@, k as int, command@),
{
    let mut m: usize = 0;
    while m < k
        invariant
            k <= nodes@.len(),
            m <= k,
            forall|mm: int| 0 <= mm < m ==> !#[trigger] references_command(nodes@, mm, command@),
        decreases k - m,
    {
        match nodes[m] {
            MenuNode::Command(id) => {
                if id.same(&command) {
                    assert(references_command(nodes@, m as int, command@));
                    return true;
                }
            },
            _ => {},
        }
        m = m + 1;
    }
    false
}

/// Whether `section` was reserved at a counted position before node `k` of
/// menu `i`.
fn section_reserved_before(menus: &Vec<Menu>, i: usize, k: usize, section: MenuSectionKey) -> (found:
    bool)
    requires
        i < menus@.len(),
        k <= menus@[i as int]@.nodes.len(),
    ensures
        found == section_seen_before(menus_view(menus@), i as int, k as int, section@),
{
    let ghost ms = menus_view(menus@);
    let n = menus.len();
    let mut j: usize = 0;
    while j <= i
        invariant
            ms == menus_view(menus@),
            n == menus@.len(),
            i < n,
            k <= ms[i as int].nodes.len(),
            j <= i + 1,
            forall|jj: int, m: int|
                0 <= jj < j && 0 <= m < ms[jj].nodes.len() && (jj < i || m < k) && counts_sections(
                    ms,
                    jj,
                ) ==> !#[trigger] reserves(ms, jj, m, section@),
        decreases i + 1 - j,
    {
        let menu = &menus[j];
        assert(ms[j as int] == menu@);
        if !repeats_before(menus, j) && !menu.key.is_dock() {
            let limit = if j < i {
                menu.nodes.len()
            } else {
                k
            };
            let mut m: usize = 0;
            while m < limit
                invariant
                    ms == menus_view(menus@),
                    ms[j as int] == menu@,
                    j <= i < menus@.len(),
                    limit <= menu@.nodes.len(),
                    limit == (if j < i { menu@.nodes.len() } else { k as nat }),
                    counts_sections(ms, j as int),
                    m <= limit,
                    forall|mm: int| 0 <= mm < m ==> !#[trigger] reserves(ms, j as int, mm, section@),
                decreases limit - m,
            {
                match menu.nodes[m] {
                    MenuNode::Section(s) => {
                        if s.same(section) {
                            assert(reserves(ms, j as int, m as int, section@));
                            return true;
                        }
                    },
                    _ => {},
                }
                m = m + 1;
            }
        }
        j = j + 1;
    }
    false
}

/// The resolved, host-independent structure of one top-level menu.
#[derive(Debug)]
pub struct MenuOutlineEntry {
    key: MenuKey,
    label: MenuLabel,
    nodes: Vec<MenuNode>,
}

impl View for MenuOutlineEntry {
    type V = MenuModel;

    closed spec fn view(&self) -> MenuModel {
        MenuModel { key: self.key, label: self.label@, nodes: self.nodes@ }
    }
}

impl MenuOutlineEntry {
    /// The menu key.
    pub fn key(&self) -> (key: MenuKey)
        ensures
            key == self@.key,
    {
        self.key
    }

    /// The menu title, resolved against app state at projection time.
    pub fn label(&self) -> (label: &MenuLabel)
        ensures
            label@ == self@.label,
    {
        &self.label
    }

    /// The ordered nodes.
    pub fn nodes(&self) -> (nodes: &[MenuNode])
        ensures
            nodes@ == self@.nodes,
    {
        self.nodes.as_slice()
    }
}

/// The models of a sequence of outline entries.
pub open spec fn entries_view(entries: Seq<MenuOutlineEntry>) -> Seq<MenuModel> {
    entries.map_values(|e: MenuOutlineEntry| e@)
}

/// The resolved menu bar for one platform: top-level keys, ordered command
/// references, separators, section keys, and required native nodes, with no
/// host dependency, so native and in-window projections consume one value.
#[derive(Debug)]
pub struct MenuOutline {
    menus: Vec<MenuOutlineEntry>,
}

impl View for MenuOutline {
    type V = Seq<MenuModel>;

    closed spec fn view(&self) -> Seq<MenuModel> {
        entries_view(self.menus@)
    }
}

/// The commands referenced by `nodes`, in order.
pub open spec fn node_commands(nodes: Seq<MenuNode>) -> Seq<CommandId>
    decreases nodes.len(),
{
    if nodes.len() == 0 {
        Seq::empty()
    } else {
        node_commands(nodes.drop_last()) + match nodes.last() {
            MenuNode::Command(id) => seq![id],
            _ => Seq::empty(),
        }
    }
}

/// The commands referenced anywhere in `menus`, in outline order.
pub open spec fn outline_commands(menus: Seq<MenuModel>) -> Seq<CommandId>
    decreases menus.len(),
{
    if menus.len() == 0 {
        Seq::empty()
    } else {
        outline_commands(menus.drop_last()) + node_commands(menus.last().nodes)
    }
}

/// The section slots of `nodes`, each with the menu `key`.
pub open spec fn node_sections(key: MenuKey, nodes: Seq<MenuNode>) -> Seq<(MenuKey, MenuSectionKey)>
    decreases nodes.len(),
{
    if nodes.len() == 0 {
        Seq::empty()
    } else {
        node_sections(key, nodes.drop_last()) + match nodes.last() {
            MenuNode::Section(section) => seq![(key, section)],
            _ => Seq::empty(),
        }
    }
}

/// The section slots reserved anywhere in `menus`, with their menus.
pub open spec fn outline_sections(menus: Seq<MenuModel>) -> Seq<(MenuKey, MenuSectionKey)>
    decreases menus.len(),
{
    if menus.len() == 0 {
        Seq::empty()
    } else {
        outline_sections(menus.drop_last()) + node_sections(menus.last().key, menus.last().nodes)
    }
}

impl MenuOutline {
    /// The ordered top-level menus.
    pub fn menus(&self) -> (menus: &[MenuOutlineEntry])
        ensures
            entries_view(menus@) == self@,
    {
        self.menus.as_slice()
    }

    /// Every command referenced anywhere in the outline, in outline order.
    pub fn command_ids(&self) -> (ids: Vec<CommandId>)
        ensures
            ids@ == outline_commands(self@),
    {
        let ghost all = self@;
        let mut ids: Vec<CommandId> = Vec::new();
        let mut i: usize = 0;
        while i < self.menus.len()
            invariant
                all == entries_view(self.menus@),
                i <= self.menus@.len(),
                ids@ == outline_commands(all.take(i as int)),
            decreases self.menus@.len() - i,
        {
            let entry = &self.menus[i];
            assert(all.take(i + 1).drop_last() =~= all.take(i as int));
            assert(all.take(i + 1).last() == entry@);
            let ghost before = ids@;
            let mut k: usize = 0;
            while k < entry.nodes.len()
                invariant
                    k <= entry.nodes@.len(),
                    ids@ == before + node_commands(entry.nodes@.take(k as int)),
                decreases entry.nodes@.len() - k,
            {
                assert(entry.nodes@.take(k + 1).drop_last() =~= entry.nodes@.take(k as int));
                match entry.nodes[k] {
                    MenuNode::Command(id) => {
                        ids.push(id);
                    },
                    _ => {},
                }
                k = k + 1;
                assert(ids@ =~= before + node_commands(entry.nodes@.take(k as int)));
            }
            assert(entry.nodes@.take(k as int) =~= entry.nodes@);
            i = i + 1;
        }
        assert(all.take(i as int) =~= all);
        ids
    }

    /// Every section slot reserved anywhere in the outline, with its menu.
    pub fn section_slots(&self) -> (slots: Vec<(MenuKey, MenuSectionKey)>)
        ensures
            slots@ == outline_sections(self@),
    {
        let ghost all = self@;
        let mut slots: Vec<(MenuKey, MenuSectionKey)> = Vec::new();
        let mut i: usize = 0;
        while i < self.menus.len()
            invariant
                all == entries_view(self.menus@),
                i <= self.menus@.len(),
                slots@ == outline_sections(all.take(i as int)),
            decreases self.menus@.len() - i,
        {
            let entry = &self.menus[i];
            assert(all.take(i + 1).drop_last() =~= all.take(i as int));
            assert(all.take(i + 1).last() == entry@);
            let ghost before = slots@;
            let mut k: usize = 0;
            while k < entry.nodes.len()
                invariant
                    k <= entry.nodes@.len(),
                    slots@ == before + node_sections(entry.key, entry.nodes@.take(k as int)),
                decreases entry.nodes@.len() - k,
            {
                assert(entry.nodes@.take(k + 1).drop_last() =~= entry.nodes@.take(k as int));
                match entry.nodes[k] {
                    MenuNode::Section(section) => {
                        slots.push((entry.key, section));
                    },
                    _ => {},
                }
                k = k + 1;
                assert(slots@ =~= before + node_sections(entry.key, entry.nodes@.take(k as int)));
            }
            assert(entry.nodes@.take(k as int) =~= entry.nodes@);
            i = i + 1;
        }
        assert(all.take(i as int) =~= all);
        slots
    }
}

// ---------------------------------------------------------------------------
// The menu-bar policy.
// ---------------------------------------------------------------------------

/// A menu-bar policy as a value.
pub enum PolicyModel {
    /// The standard layout plus explicit edits.
    Standard(LayoutModel),
    /// An application-owned layout.
    Custom(Seq<MenuModel>),
    /// No menu projection.
    Absent,
}

/// A menu bar as a value: its policy and the edits it rejected.
pub struct MenuBarModel {
    /// The policy.
    pub policy: PolicyModel,
    /// Edits recorded against a policy that has no standard layout to edit.
    pub edit_faults: Seq<CommandFault>,
}

/// The layout with no edits.
pub open spec fn bare_layout() -> LayoutModel {
    LayoutModel {
        settings: false,
        about: false,
        theme_section: false,
        hidden: Seq::empty(),
        custom: Seq::empty(),
        contributions: Seq::empty(),
    }
}

/// The features of a declaration with no optional surface.
pub open spec fn no_features() -> StandardFeatures {
    StandardFeatures { settings: false, about: false, theme: false }
}

/// The menus a policy resolves to on `platform`.
pub open spec fn policy_menus(
    policy: PolicyModel,
    platform: DesktopPlatform,
    features: StandardFeatures,
) -> Seq<MenuModel> {
    match policy {
        PolicyModel::Standard(layout) => spec_resolve_menus(layout, platform, features),
        PolicyModel::Custom(menus) => spec_inject_mandatory(menus, platform),
        PolicyModel::Absent => Seq::empty(),
    }
}

/// The faults a policy's resolution raises on `platform`.
pub open spec fn policy_faults(
    policy: PolicyModel,
    platform: DesktopPlatform,
    features: StandardFeatures,
) -> Seq<CommandFault> {
    match policy {
        PolicyModel::Standard(layout) => spec_resolve_faults(layout, platform, features),
        _ => Seq::empty(),
    }
}

/// Every structural fault of a menu bar on `platform`, in declaration order:
/// rejected edits, then hide faults, then the resolved menus' own faults.
pub open spec fn spec_outline_faults(
    bar: MenuBarModel,
    platform: DesktopPlatform,
    features: StandardFeatures,
) -> Seq<CommandFault> {
    let menus = policy_menus(bar.policy, platform, features);
    bar.edit_faults + policy_faults(bar.policy, platform, features) + structure_faults(
        menus,
        menus.len(),
    )
}

/// The outline of a menu bar on `platform`, or all of its structural faults.
pub open spec fn spec_outline_with(
    bar: MenuBarModel,
    platform: DesktopPlatform,
    features: StandardFeatures,
) -> Result<Seq<MenuModel>, Seq<CommandFault>> {
    let faults = spec_outline_faults(bar, platform, features);
    let menus = policy_menus(bar.policy, platform, features);
    if faults.len() == 0 {
        Ok(outline_entries(menus, menus.len()))
    } else {
        Err(faults)
    }
}

/// The chosen menu-bar policy, private so every construction and edit passes
/// through [`MenuBar`].
#[derive(Debug)]
enum MenuBarPolicy {
    /// The platform-conventional standard layout plus explicit edits.
    Standard(StandardLayout),
    /// An application-owned layout; the mandatory native nodes are still
    /// injected.
    Custom(Vec<Menu>),
    /// No native or in-window menu projection.
    Absent,
}

/// The application's menu-bar policy.
///
/// Construct with [`MenuBar::standard`], [`MenuBar::custom`], or
/// [`MenuBar::none`]. [`MenuBar::hide_menu`], [`MenuBar::insert`], and
/// [`MenuBar::contribute`] edit the standard layout only; on another policy
/// they are recorded as declaration faults that [`MenuBar::outline`] reports.
#[derive(Debug)]
pub struct MenuBar {
    policy: MenuBarPolicy,
    edit_faults: Vec<CommandFault>,
}

impl View for MenuBar {
    type V = MenuBarModel;

    closed spec fn view(&self) -> MenuBarModel {
        MenuBarModel {
            policy: match self.policy {
                MenuBarPolicy::Standard(layout) => PolicyModel::Standard(layout@),
                MenuBarPolicy::Custom(menus) => PolicyModel::Custom(menus_view(menus@)),
                MenuBarPolicy::Absent => PolicyModel::Absent,
            },
            edit_faults: self.edit_faults@,
        }
    }
}

/// Copies of `menus`.
fn copy_menus(menus: &Vec<Menu>) -> (copies: Vec<Menu>)
    ensures
        menus_view(copies@) == menus_view(menus@),
{
    let mut copies: Vec<Menu> = Vec::new();
    let mut i: usize = 0;
    while i < menus.len()
        invariant
            i <= menus@.len(),
            menus_view(copies@) == menus_view(menus@).take(i as int),
        decreases menus@.len() - i,
    {
        let ghost before = copies@;
        copies.push(menus[i].duplicate());
        assert(menus_view(copies@) =~= menus_view(before).push(menus@[i as int]@));
        assert(menus_view(menus@).take(i + 1) =~= menus_view(menus@).take(i as int).push(
            menus@[i as int]@,
        ));
        i = i + 1;
    }
    assert(menus_view(menus@).take(i as int) =~= menus_view(menus@));
    copies
}

/// The fault of one node of menu `key` that references an undeclared
/// command or an unprovided section.
pub open spec fn node_reference_fault(
    key: MenuKey,
    node: MenuNode,
    commands: Seq<Seq<char>>,
    sections: Seq<Seq<char>>,
) -> Seq<CommandFault> {
    match node {
        MenuNode::Command(command) => if commands.contains(command@) {
            Seq::empty()
        } else {
            seq![CommandFault::UnknownCommand { menu: key, command }]
        },
        MenuNode::Section(section) => if sections.contains(section@) {
            Seq::empty()
        } else {
            seq![CommandFault::MissingSectionProvider { menu: key, section }]
        },
        _ => Seq::empty(),
    }
}

/// The reference faults of the nodes of menu `key`, in order.
pub open spec fn nodes_reference_faults(
    key: MenuKey,
    nodes: Seq<MenuNode>,
    commands: Seq<Seq<char>>,
    sections: Seq<Seq<char>>,
) -> Seq<CommandFault>
    decreases nodes.len(),
{
    if nodes.len() == 0 {
        Seq::empty()
    } else {
        nodes_reference_faults(key, nodes.drop_last(), commands, sections) + node_reference_fault(
            key,
            nodes.last(),
            commands,
            sections,
        )
    }
}

/// The reference faults of an outline, in outline order.
pub open spec fn reference_faults(
    menus: Seq<MenuModel>,
    commands: Seq<Seq<char>>,
    sections: Seq<Seq<char>>,
) -> Seq<CommandFault>
    decreases menus.len(),
{
    if menus.len() == 0 {
        Seq::empty()
    } else {
        reference_faults(menus.drop_last(), commands, sections) + nodes_reference_faults(
            menus.last().key,
            menus.last().nodes,
            commands,
            sections,
        )
    }
}

/// Whether `id` is among `ids`, by text.
fn id_listed(ids: &[CommandId], id: CommandId) -> (found: bool)
    ensures
        found == command_id_texts(ids@).contains(id@),
{
    let mut i: usize = 0;
    while i < ids.len()
        invariant
            i <= ids@.len(),
            forall|j: int| 0 <= j < i ==> (#[trigger] ids@[j])@ != id@,
        decreases ids@.len() - i,
    {
        if ids[i].same(&id) {
            assert(command_id_texts(ids@)[i as int] == id@);
            return true;
        }
        i = i + 1;
    }
    assert(!command_id_texts(ids@).contains(id@));
    false
}

/// Whether `section` is among `sections`, by text.
fn section_listed(sections: &[MenuSectionKey], section: MenuSectionKey) -> (found: bool)
    ensures
        found == section_key_texts(sections@).contains(section@),
{
    let mut i: usize = 0;
    while i < sections.len()
        invariant
            i <= sections@.len(),
            forall|j: int| 0 <= j < i ==> (#[trigger] sections@[j])@ != section@,
        decreases sections@.len() - i,
    {
        if sections[i].same(section) {
            assert(section_key_texts(sections@)[i as int] == section@);
            return true;
        }
        i = i + 1;
    }
    assert(!section_key_texts(sections@).contains(section@));
    false
}

/// The texts of a sequence of section keys.
pub open spec fn section_key_texts(sections: Seq<MenuSectionKey>) -> Seq<Seq<char>> {
    sections.map_values(|s: MenuSectionKey| s@)
}

impl MenuBar {
    /// The default policy: the standard layout with no optional surfaces.
    pub fn standard() -> (bar: Self)
        ensures
            bar@ == (MenuBarModel {
                policy: PolicyModel::Standard(bare_layout()),
                edit_faults: Seq::empty(),
            }),
    {
        MenuBar { policy: MenuBarPolicy::Standard(StandardLayout::new()), edit_faults: Vec::new() }
    }

    /// The standard policy over an already edited layout.
    pub fn from_standard_layout(layout: StandardLayout) -> (bar: Self)
        ensures
            bar@ == (MenuBarModel {
                policy: PolicyModel::Standard(layout@),
                edit_faults: Seq::empty(),
            }),
    {
        MenuBar { policy: MenuBarPolicy::Standard(layout), edit_faults: Vec::new() }
    }

    /// An application-owned menu bar.
    pub fn custom(menus: Vec<Menu>) -> (bar: Self)
        ensures
            bar@ == (MenuBarModel {
                policy: PolicyModel::Custom(menus_view(menus@)),
                edit_faults: Seq::empty(),
            }),
    {
        MenuBar { policy: MenuBarPolicy::Custom(menus), edit_faults: Vec::new() }
    }

    /// No native or in-window menu projection.
    pub fn none() -> (bar: Self)
        ensures
            bar@ == (MenuBarModel { policy: PolicyModel::Absent, edit_faults: Seq::empty() }),
    {
        MenuBar { policy: MenuBarPolicy::Absent, edit_faults: Vec::new() }
    }

    /// Hide an optional standard menu. Hiding a required menu is a declaration
    /// fault, reported by [`MenuBar::outline`]; so is calling this on a policy
    /// other than [`MenuBar::standard`].
    pub fn hide_menu(self, key: MenuKey) -> (bar: Self)
        ensures
            bar@ == match self@.policy {
                PolicyModel::Standard(layout) => MenuBarModel {
                    policy: PolicyModel::Standard(
                        LayoutModel { hidden: layout.hidden.push(key), ..layout },
                    ),
                    ..self@
                },
                _ => MenuBarModel {
                    edit_faults: self@.edit_faults.push(
                        CommandFault::InvalidStandardEdit {
                            menu: key,
                            reason: "hide only edits the standard menu-bar layout",
                        },
                    ),
                    ..self@
                },
            },
    {
        let MenuBar { policy, mut edit_faults } = self;
        match policy {
            MenuBarPolicy::Standard(layout) => MenuBar {
                policy: MenuBarPolicy::Standard(layout.hide_menu(key)),
                edit_faults,
            },
            other => {
                edit_faults.push(
                    CommandFault::InvalidStandardEdit {
                        menu: key,
                        reason: "hide only edits the standard menu-bar layout",
                    },
                );
                MenuBar { policy: other, edit_faults }
            },
        }
    }

    /// Insert an application menu before the Window menu, as a new top-level
    /// key. Same restriction as [`MenuBar::hide_menu`].
    pub fn insert(self, menu: Menu) -> (bar: Self)
        ensures
            bar@ == match self@.policy {
                PolicyModel::Standard(layout) => MenuBarModel {
                    policy: PolicyModel::Standard(
                        LayoutModel { custom: layout.custom.push(menu@), ..layout },
                    ),
                    ..self@
                },
                _ => MenuBarModel {
                    edit_faults: self@.edit_faults.push(
                        CommandFault::InvalidStandardEdit {
                            menu: menu@.key,
                            reason: "insert only edits the standard menu-bar layout",
                        },
                    ),
                    ..self@
                },
            },
    {
        let MenuBar { policy, mut edit_faults } = self;
        match policy {
            MenuBarPolicy::Standard(layout) => MenuBar {
                policy: MenuBarPolicy::Standard(layout.insert(menu)),
                edit_faults,
            },
            other => {
                edit_faults.push(
                    CommandFault::InvalidStandardEdit {
                        menu: menu.key(),
                        reason: "insert only edits the standard menu-bar layout",
                    },
                );
                MenuBar { policy: other, edit_faults }
            },
        }
    }

    /// Contribute ordered command/separator/section nodes to the standard menu
    /// keyed `menu.key()`: appended after one separator where the platform's
    /// layout has that menu, otherwise inserted before Window as a new
    /// top-level menu with its own title. Several contributions to one key
    /// merge in declaration order. Same restriction as [`MenuBar::hide_menu`].
    pub fn contribute(self, menu: Menu) -> (bar: Self)
        ensures
            bar@ == match self@.policy {
                PolicyModel::Standard(layout) => MenuBarModel {
                    policy: PolicyModel::Standard(
                        LayoutModel { contributions: layout.contributions.push(menu@), ..layout },
                    ),
                    ..self@
                },
                _ => MenuBarModel {
                    edit_faults: self@.edit_faults.push(
                        CommandFault::InvalidStandardEdit {
                            menu: menu@.key,
                            reason: "contribute only edits the standard menu-bar layout",
                        },
                    ),
                    ..self@
                },
            },
    {
        let MenuBar { policy, mut edit_faults } = self;
        match policy {
            MenuBarPolicy::Standard(layout) => MenuBar {
                policy: MenuBarPolicy::Standard(layout.contribute(menu)),
                edit_faults,
            },
            other => {
                edit_faults.push(
                    CommandFault::InvalidStandardEdit {
                        menu: menu.key(),
                        reason: "contribute only edits the standard menu-bar layout",
                    },
                );
                MenuBar { policy: other, edit_faults }
            },
        }
    }

    /// Resolve this policy for `platform` with the standard features the
    /// declaration resolved, or return every structural fault in declaration
    /// order.
    pub fn outline_with(&self, platform: DesktopPlatform, features: StandardFeatures) -> (result:
        Result<MenuOutline, Vec<CommandFault>>)
        ensures
            match result {
                Ok(outline) => spec_outline_with(self@, platform, features) == Ok::<
                    Seq<MenuModel>,
                    Seq<CommandFault>,
                >(outline@),
                Err(faults) => spec_outline_with(self@, platform, features) == Err::<
                    Seq<MenuModel>,
                    Seq<CommandFault>,
                >(faults@),
            },
    {
        let mut faults = self.edit_faults.clone();
        assert(faults@ =~= self.edit_faults@);
        let menus: Vec<Menu> = match &self.policy {
            MenuBarPolicy::Absent => {
                let none: Vec<Menu> = Vec::new();
                assert(menus_view(none@) =~= Seq::<MenuModel>::empty());
                none
            },
            MenuBarPolicy::Standard(layout) => layout.resolve(platform, features, &mut faults),
            MenuBarPolicy::Custom(menus) => {
                let mut resolved = copy_menus(menus);
                inject_mandatory_nodes(&mut resolved, platform);
                resolved
            },
        };
        let ghost ms = menus_view(menus@);
        assert(ms == policy_menus(self@.policy, platform, features));
        let ghost base = faults@;
        assert(base == self@.edit_faults + policy_faults(self@.policy, platform, features));
        let mut entries: Vec<MenuOutlineEntry> = Vec::new();
        let mut i: usize = 0;
        while i < menus.len()
            invariant
                ms == menus_view(menus@),
                i <= menus@.len(),
                faults@ == base + structure_faults(ms, i as nat),
                entries_view(entries@) == outline_entries(ms, i as nat),
            decreases menus@.len() - i,
        {
            let menu = &menus[i];
            assert(ms[i as int] == menu@);
            let ghost before = faults@;
            if repeats_before(&menus, i) {
                faults.push(CommandFault::DuplicateMenuKey { menu: menu.key });
                assert(faults@ =~= before + menu_faults(ms, i as int));
            } else {
                match MenuKey::new(menu.key.as_str()) {
                    Ok(_) => {},
                    Err(fault) => {
                        faults.push(CommandFault::InvalidMenuKey { raw: menu.key.as_str(), fault });
                    },
                }
                assert(faults@ =~= before + menu_key_fault(menu.key));
                let ghost after_key = faults@;
                let dock = menu.key.is_dock();
                let mut k: usize = 0;
                while k < menu.nodes.len()
                    invariant
                        ms == menus_view(menus@),
                        i < menus@.len(),
                        ms[i as int] == menu@,
                        dock == (menu@.key@ == "Dock"@),
                        k <= menu@.nodes.len(),
                        faults@ == after_key + node_faults(ms, i as int, k as nat),
                    decreases menu@.nodes.len() - k,
                {
                    let ghost here = faults@;
                    match menu.nodes[k] {
                        MenuNode::Command(command) => {
                            if command_repeats(menu.nodes.as_slice(), k, command) {
                                faults.push(
                                    CommandFault::RepeatedCommandInMenu { menu: menu.key, command },
                                );
                            }
                        },
                        MenuNode::Section(section) => {
                            if dock {
                                faults.push(CommandFault::SectionInDock { section });
                            } else if section_reserved_before(&menus, i, k, section) {
                                faults.push(CommandFault::DuplicateSectionSlot { section });
                            }
                        },
                        _ => {},
                    }
                    assert(faults@ =~= here + node_fault(ms, i as int, k as int));
                    k = k + 1;
                }
                assert(faults@ =~= before + menu_faults(ms, i as int));
                let nodes = normalize(menu.nodes.as_slice());
                if nodes.len() > 0 {
                    let ghost earlier = entries@;
                    entries.push(
                        MenuOutlineEntry { key: menu.key, label: menu.label.duplicate(), nodes },
                    );
                    assert(entries_view(entries@) =~= entries_view(earlier).push(
                        MenuModel { nodes: spec_normalize(menu@.nodes), ..menu@ },
                    ));
                }
            }
            i = i + 1;
        }
        let outline = MenuOutline { menus: entries };
        if faults.len() == 0 {
            Ok(outline)
        } else {
            Err(faults)
        }
    }

    /// Resolve this policy into a pure, host-independent outline with no
    /// optional standard surface, or every structural fault as a
    /// [`DeclarationError::Command`](crate::declaration::DeclarationError).
    pub fn outline(&self, platform: DesktopPlatform) -> (result: Result<
        MenuOutline,
        DeclarationErrors,
    >)
        ensures
            match result {
                Ok(outline) => spec_outline_with(self@, platform, no_features()) == Ok::<
                    Seq<MenuModel>,
                    Seq<CommandFault>,
                >(outline@),
                Err(errors) => match spec_outline_with(self@, platform, no_features()) {
                    Err(faults) => errors@ == faults.map_values(
                        |fault: CommandFault| DeclarationError::Command { fault },
                    ),
                    Ok(_) => false,
                },
            },
    {
        let features = StandardFeatures { settings: false, about: false, theme: false };
        match self.outline_with(platform, features) {
            Ok(outline) => Ok(outline),
            Err(faults) => {
                let mut errors: Vec<DeclarationError> = Vec::new();
                let mut i: usize = 0;
                while i < faults.len()
                    invariant
                        i <= faults@.len(),
                        errors@ == faults@.take(i as int).map_values(
                            |fault: CommandFault| DeclarationError::Command { fault },
                        ),
                    decreases faults@.len() - i,
                {
                    errors.push(DeclarationError::Command { fault: faults[i] });
                    i = i + 1;
                    assert(errors@ =~= faults@.take(i as int).map_values(
                        |fault: CommandFault| DeclarationError::Command { fault },
                    ));
                }
                assert(faults@.take(i as int) =~= faults@);
                match DeclarationErrors::new(errors) {
                    Some(collected) => Err(collected),
                    None => {
                        assert(false);
                        Ok(MenuOutline { menus: Vec::new() })
                    },
                }
            },
        }
    }

    /// Append one fault per reference in `outline` to a command id not in
    /// `commands` or a section not in `sections`.
    pub fn validate_references(
        outline: &MenuOutline,
        commands: &[CommandId],
        sections: &[MenuSectionKey],
        faults: &mut Vec<CommandFault>,
    )
        ensures
            final(faults)@ == old(faults)@ + reference_faults(
                outline@,
                command_id_texts(commands@),
                section_key_texts(sections@),
            ),
    {
        let ghost all = outline@;
        let ghost start = faults@;
        let mut i: usize = 0;
        while i < outline.menus.len()
            invariant
                all == entries_view(outline.menus@),
                i <= outline.menus@.len(),
                faults@ == start + reference_faults(
                    all.take(i as int),
                    command_id_texts(commands@),
                    section_key_texts(sections@),
                ),
            decreases outline.menus@.len() - i,
        {
            let entry = &outline.menus[i];
            assert(all.take(i + 1).drop_last() =~= all.take(i as int));
            assert(all.take(i + 1).last() == entry@);
            let ghost before = faults@;
            let mut k: usize = 0;
            while k < entry.nodes.len()
                invariant
                    k <= entry.nodes@.len(),
                    faults@ == before + nodes_reference_faults(
                        entry.key,
                        entry.nodes@.take(k as int),
                        command_id_texts(commands@),
                        section_key_texts(sections@),
                    ),
                decreases entry.nodes@.len() - k,
            {
                assert(entry.nodes@.take(k + 1).drop_last() =~= entry.nodes@.take(k as int));
                let ghost here = faults@;
                match entry.nodes[k] {
                    MenuNode::Command(id) => {
                        if !id_listed(commands, id) {
                            faults.push(CommandFault::UnknownCommand { menu: entry.key, command: id });
                        }
                    },
                    MenuNode::Section(section) => {
                        if !section_listed(sections, section) {
                            faults.push(
                                CommandFault::MissingSectionProvider { menu: entry.key, section },
                            );
                        }
                    },
                    _ => {},
                }
                k = k + 1;
                assert(faults@ =~= before + nodes_reference_faults(
                    entry.key,
                    entry.nodes@.take(k as int),
                    command_id_texts(commands@),
                    section_key_texts(sections@),
                ));
            }
            assert(entry.nodes@.take(k as int) =~= entry.nodes@);
            i = i + 1;
        }
        assert(all.take(i as int) =~= all);
    }
}

// ---------------------------------------------------------------------------
// Laws of the menu model.
// ---------------------------------------------------------------------------

proof fn lemma_key_index_from(menus: Seq<MenuModel>, key: Seq<char>, from: int)
    requires
        0 <= from,
    ensures
        key_index_from(menus, key, from) == -1 || (from <= key_index_from(menus, key, from)
            < menus.len() && menus[key_index_from(menus, key, from)].key@ == key),
        key_index_from(menus, key, from) == -1 ==> forall|j: int|
            from <= j < menus.len() ==> (#[trigger] menus[j]).key@ != key,
    decreases menus.len() - from,
{
    if from < menus.len() && menus[from].key@ != key {
        lemma_key_index_from(menus, key, from + 1);
    }
}

proof fn lemma_first_non_dock_from(menus: Seq<MenuModel>, from: int)
    requires
        0 <= from,
    ensures
        first_non_dock_from(menus, from) == -1 || (from <= first_non_dock_from(menus, from)
            < menus.len() && menus[first_non_dock_from(menus, from)].key@ != "Dock"@),
    decreases menus.len() - from,
{
    if from < menus.len() && menus[from].key@ == "Dock"@ {
        lemma_first_non_dock_from(menus, from + 1);
    }
}

/// A resolved outline is well formed: no top-level key appears twice, and
/// every menu has content whose separators never lead, trail, or double.
pub open spec fn well_formed_outline(entries: Seq<MenuModel>) -> bool {
    &&& forall|a: int, b: int|
        0 <= a < b < entries.len() ==> (#[trigger] entries[a]).key@ != (#[trigger] entries[b]).key@
    &&& forall|e: int|
        0 <= e < entries.len() ==> (#[trigger] entries[e]).nodes.len() > 0 && well_separated(
            entries[e].nodes,
        )
}

proof fn lemma_outline_entries_well_formed(menus: Seq<MenuModel>, n: nat)
    requires
        n <= menus.len(),
    ensures
        well_formed_outline(outline_entries(menus, n)),
        forall|e: int|
            0 <= e < outline_entries(menus, n).len() ==> exists|j: int|
                0 <= j < n && (#[trigger] outline_entries(menus, n)[e]).key@ == menus[j].key@,
    decreases n,
{
    if n > 0 {
        lemma_outline_entries_well_formed(menus, (n - 1) as nat);
        let prev = outline_entries(menus, (n - 1) as nat);
        let menu = menus[n - 1];
        let nodes = spec_normalize(menu.nodes);
        lemma_normalize_is_well_separated(menu.nodes);
        if !(repeats_earlier_key(menus, n - 1) || nodes.len() == 0) {
            let next = prev.push(MenuModel { nodes, ..menu });
            assert forall|a: int, b: int|
                0 <= a < b < next.len() implies (#[trigger] next[a]).key@ != (
            #[trigger] next[b]).key@ by {
                if b == next.len() - 1 {
                    assert(next[a] == prev[a]);
                    let j = choose|j: int| 0 <= j < n - 1 && prev[a].key@ == menus[j].key@;
                    assert(menus[j].key@ != menus[n - 1].key@);
                } else {
                    assert(next[a] == prev[a] && next[b] == prev[b]);
                }
            }
            assert forall|e: int| 0 <= e < next.len() implies exists|j: int|
                0 <= j < n && (#[trigger] next[e]).key@ == menus[j].key@ by {
                if e < prev.len() {
                    assert(next[e] == prev[e]);
                    let j = choose|j: int| 0 <= j < n - 1 && prev[e].key@ == menus[j].key@;
                    assert(next[e].key@ == menus[j].key@);
                } else {
                    assert(next[e].key@ == menus[n - 1].key@);
                }
            }
            assert forall|e: int| 0 <= e < next.len() implies (#[trigger] next[e]).nodes.len() > 0
                && well_separated(next[e].nodes) by {
                if e < prev.len() {
                    assert(next[e] == prev[e]);
                }
            }
        } else {
            assert forall|e: int| 0 <= e < prev.len() implies exists|j: int|
                0 <= j < n && (#[trigger] prev[e]).key@ == menus[j].key@ by {
                let j = choose|j: int| 0 <= j < n - 1 && prev[e].key@ == menus[j].key@;
            }
        }
    }
}

/// Whatever the policy and platform, a successful outline never repeats a
/// top-level key, never holds an empty menu, and never encodes a leading,
/// trailing, or doubled separator.
pub proof fn lemma_outline_is_well_formed(
    bar: MenuBarModel,
    platform: DesktopPlatform,
    features: StandardFeatures,
)
    ensures
        spec_outline_with(bar, platform, features) matches Ok(entries) ==> well_formed_outline(
            entries,
        ),
{
    let menus = policy_menus(bar.policy, platform, features);
    lemma_outline_entries_well_formed(menus, menus.len());
}

/// Services lands in its host menu on macOS, never in the dock: injection
/// leaves the number of menus, every key and title, and every menu but the
/// host unchanged, and the host is never the dock.
pub proof fn lemma_services_never_lands_in_the_dock(menus: Seq<MenuModel>, platform: DesktopPlatform)
    ensures
        spec_inject_mandatory(menus, platform).len() == menus.len(),
        forall|i: int|
            0 <= i < menus.len() ==> (#[trigger] spec_inject_mandatory(menus, platform)[i]).key
                == menus[i].key && spec_inject_mandatory(menus, platform)[i].label
                == menus[i].label,
        forall|i: int|
            0 <= i < menus.len() && menus[i].key@ == "Dock"@ ==> #[trigger] spec_inject_mandatory(
                menus,
                platform,
            )[i] == menus[i],
        platform == DesktopPlatform::MacOs && services_host(menus) >= 0 ==> spec_inject_mandatory(
            menus,
            platform,
        )[services_host(menus)].nodes.contains(MenuNode::Services),
        platform != DesktopPlatform::MacOs ==> spec_inject_mandatory(menus, platform) == menus,
{
    lemma_key_index_from(menus, "App"@, 0);
    lemma_first_non_dock_from(menus, 0);
    let at = services_host(menus);
    assert("App"@ != "Dock"@) by {
        reveal_strlit("App");
        reveal_strlit("Dock");
        assert("App"@.len() != "Dock"@.len());
    }
    if at >= 0 {
        assert(menus[at].key@ != "Dock"@);
    }
    if platform == DesktopPlatform::MacOs && at >= 0 && !menus[at].nodes.contains(
        MenuNode::Services,
    ) {
        let nodes = spec_inject_mandatory(menus, platform)[at].nodes;
        assert(nodes[nodes.len() - 1] == MenuNode::Services);
    }
}

proof fn lemma_contributed_keys(contributions: Seq<MenuModel>, standard_keys: Seq<MenuKey>)
    ensures
        forall|a: int, b: int|
            0 <= a < b < contributed_top_level(contributions, standard_keys).len() ==> (
            #[trigger] contributed_top_level(contributions, standard_keys)[a]).key@ != (
            #[trigger] contributed_top_level(contributions, standard_keys)[b]).key@,
        forall|a: int|
            0 <= a < contributed_top_level(contributions, standard_keys).len() ==> !keys_contain(
                standard_keys,
                (#[trigger] contributed_top_level(contributions, standard_keys)[a]).key@,
            ),
    decreases contributions.len(),
{
    if contributions.len() > 0 {
        let prev = contributed_top_level(contributions.drop_last(), standard_keys);
        lemma_contributed_keys(contributions.drop_last(), standard_keys);
        let c = contributions.last();
        if !keys_contain(standard_keys, c.key@) {
            lemma_key_index_from(prev, c.key@, 0);
            let at = key_index(prev, c.key@);
            let next = contributed_top_level(contributions, standard_keys);
            if at >= 0 {
                assert forall|a: int| 0 <= a < next.len() implies (#[trigger] next[a]).key
                    == prev[a].key by {}
            } else {
                assert forall|a: int, b: int| 0 <= a < b < next.len() implies (
                #[trigger] next[a]).key@ != (#[trigger] next[b]).key@ by {
                    if b == next.len() - 1 {
                        assert(next[a] == prev[a]);
                    } else {
                        assert(next[a] == prev[a] && next[b] == prev[b]);
                    }
                }
                assert forall|a: int| 0 <= a < next.len() implies !keys_contain(
                    standard_keys,
                    (#[trigger] next[a]).key@,
                ) by {
                    if a < prev.len() {
                        assert(next[a] == prev[a]);
                    }
                }
            }
        }
    }
}

/// Contributions to keys the platform's standard layout lacks become one
/// top-level menu per key: no two share a key, and none shadows a standard
/// menu.
pub proof fn lemma_contributions_never_duplicate_a_key(
    contributions: Seq<MenuModel>,
    standard_keys: Seq<MenuKey>,
)
    ensures
        forall|a: int, b: int|
            0 <= a < b < contributed_top_level(contributions, standard_keys).len() ==> (
            #[trigger] contributed_top_level(contributions, standard_keys)[a]).key@ != (
            #[trigger] contributed_top_level(contributions, standard_keys)[b]).key@,
        forall|a: int|
            0 <= a < contributed_top_level(contributions, standard_keys).len() ==> !keys_contain(
                standard_keys,
                (#[trigger] contributed_top_level(contributions, standard_keys)[a]).key@,
            ),
{
    lemma_contributed_keys(contributions, standard_keys);
}

/// Whether every command and section node of `menus` refers to an id in
/// `commands` or a key in `sections`.
pub open spec fn references_resolve(
    menus: Seq<MenuModel>,
    commands: Seq<Seq<char>>,
    sections: Seq<Seq<char>>,
) -> bool {
    forall|e: int, k: int|
        0 <= e < menus.len() && 0 <= k < menus[e].nodes.len() ==> match #[trigger] menus[e].nodes[k] {
            MenuNode::Command(id) => commands.contains(id@),
            MenuNode::Section(section) => sections.contains(section@),
            _ => true,
        }
}

proof fn lemma_nodes_resolve(
    key: MenuKey,
    nodes: Seq<MenuNode>,
    commands: Seq<Seq<char>>,
    sections: Seq<Seq<char>>,
)
    requires
        nodes_reference_faults(key, nodes, commands, sections).len() == 0,
    ensures
        forall|k: int|
            0 <= k < nodes.len() ==> match #[trigger] nodes[k] {
                MenuNode::Command(id) => commands.contains(id@),
                MenuNode::Section(section) => sections.contains(section@),
                _ => true,
            },
    decreases nodes.len(),
{
    if nodes.len() > 0 {
        lemma_nodes_resolve(key, nodes.drop_last(), commands, sections);
        assert forall|k: int| 0 <= k < nodes.len() implies match #[trigger] nodes[k] {
            MenuNode::Command(id) => commands.contains(id@),
            MenuNode::Section(section) => sections.contains(section@),
            _ => true,
        } by {
            if k < nodes.len() - 1 {
                assert(nodes[k] == nodes.drop_last()[k]);
            }
        }
    }
}

/// Reference validation reports nothing exactly when every reference in the
/// outline resolves: no dangling command id, no unprovided section slot.
pub proof fn lemma_no_reference_faults_means_every_reference_resolves(
    menus: Seq<MenuModel>,
    commands: Seq<Seq<char>>,
    sections: Seq<Seq<char>>,
)
    requires
        reference_faults(menus, commands, sections).len() == 0,
    ensures
        references_resolve(menus, commands, sections),
    decreases menus.len(),
{
    if menus.len() > 0 {
        lemma_no_reference_faults_means_every_reference_resolves(
            menus.drop_last(),
            commands,
            sections,
        );
        lemma_nodes_resolve(menus.last().key, menus.last().nodes, commands, sections);
        assert forall|e: int, k: int|
            0 <= e < menus.len() && 0 <= k < menus[e].nodes.len() implies match #[trigger] menus[e].nodes[k] {
            MenuNode::Command(id) => commands.contains(id@),
            MenuNode::Section(section) => sections.contains(section@),
            _ => true,
        } by {
            if e < menus.len() - 1 {
                assert(menus[e] == menus.drop_last()[e]);
            }
        }
    }
}

/// Whether two nodes reference the same command.
pub open spec fn same_command(a: MenuNode, b: MenuNode) -> bool {
    match (a, b) {
        (MenuNode::Command(x), MenuNode::Command(y)) => x@ == y@,
        _ => false,
    }
}

/// Whether no command is referenced twice in `nodes`.
pub open spec fn no_repeated_command(nodes: Seq<MenuNode>) -> bool {
    forall|a: int, b: int|
        0 <= a < b < nodes.len() ==> !same_command(#[trigger] nodes[a], #[trigger] nodes[b])
}

proof fn lemma_collapse_keeps_commands_distinct(nodes: Seq<MenuNode>)
    requires
        no_repeated_command(nodes),
    ensures
        no_repeated_command(collapse_separators(nodes)),
        forall|i: int|
            0 <= i < collapse_separators(nodes).len() ==> exists|j: int|
                0 <= j < nodes.len() && #[trigger] collapse_separators(nodes)[i] == nodes[j],
    decreases nodes.len(),
{
    if nodes.len() > 0 {
        let shorter = nodes.drop_last();
        assert forall|a: int, b: int| 0 <= a < b < shorter.len() implies !same_command(
            #[trigger] shorter[a],
            #[trigger] shorter[b],
        ) by {
            assert(shorter[a] == nodes[a] && shorter[b] == nodes[b]);
        }
        lemma_collapse_keeps_commands_distinct(shorter);
        let out = collapse_separators(shorter);
        let all = collapse_separators(nodes);
        if !(nodes.last() is Separator && (out.len() == 0 || out.last() is Separator)) {
            assert forall|a: int, b: int| 0 <= a < b < all.len() implies !same_command(
                #[trigger] all[a],
                #[trigger] all[b],
            ) by {
                assert(all[a] == out[a]);
                if b == all.len() - 1 {
                    let j = choose|j: int| 0 <= j < shorter.len() && out[a] == shorter[j];
                    assert(shorter[j] == nodes[j]);
                    assert(all[b] == nodes[nodes.len() - 1]);
                    assert(!same_command(nodes[j], nodes[nodes.len() - 1]));
                } else {
                    assert(all[b] == out[b]);
                }
            }
            assert forall|i: int| 0 <= i < all.len() implies exists|j: int|
                0 <= j < nodes.len() && #[trigger] all[i] == nodes[j] by {
                if i < out.len() {
                    let j = choose|j: int| 0 <= j < shorter.len() && out[i] == shorter[j];
                    assert(shorter[j] == nodes[j]);
                    assert(all[i] == nodes[j]);
                } else {
                    assert(all[i] == nodes[nodes.len() - 1]);
                }
            }
        } else {
            assert forall|i: int| 0 <= i < all.len() implies exists|j: int|
                0 <= j < nodes.len() && #[trigger] all[i] == nodes[j] by {
                let j = choose|j: int| 0 <= j < shorter.len() && out[i] == shorter[j];
                assert(shorter[j] == nodes[j]);
            }
        }
    }
}

proof fn lemma_trim_keeps_commands_distinct(nodes: Seq<MenuNode>)
    requires
        no_repeated_command(nodes),
    ensures
        no_repeated_command(trim_trailing_separators(nodes)),
    decreases nodes.len(),
{
    if nodes.len() > 0 && nodes.last() is Separator {
        let shorter = nodes.drop_last();
        assert forall|a: int, b: int| 0 <= a < b < shorter.len() implies !same_command(
            #[trigger] shorter[a],
            #[trigger] shorter[b],
        ) by {
            assert(shorter[a] == nodes[a] && shorter[b] == nodes[b]);
        }
        lemma_trim_keeps_commands_distinct(shorter);
    }
}

proof fn lemma_node_faults_empty(menus: Seq<MenuModel>, i: int, n: nat)
    requires
        node_faults(menus, i, n).len() == 0,
    ensures
        forall|k: int| 0 <= k < n ==> (#[trigger] node_fault(menus, i, k)).len() == 0,
    decreases n,
{
    if n > 0 {
        lemma_node_faults_empty(menus, i, (n - 1) as nat);
    }
}

proof fn lemma_structure_faults_empty(menus: Seq<MenuModel>, n: nat)
    requires
        structure_faults(menus, n).len() == 0,
    ensures
        forall|i: int| 0 <= i < n ==> (#[trigger] menu_faults(menus, i)).len() == 0,
    decreases n,
{
    if n > 0 {
        lemma_structure_faults_empty(menus, (n - 1) as nat);
    }
}

proof fn lemma_clean_menu_has_no_repeated_command(menus: Seq<MenuModel>, i: int)
    requires
        0 <= i < menus.len(),
        menu_faults(menus, i).len() == 0,
    ensures
        no_repeated_command(menus[i].nodes),
{
    let nodes = menus[i].nodes;
    if !repeats_earlier_key(menus, i) {
        lemma_node_faults_empty(menus, i, nodes.len());
        assert forall|a: int, b: int| 0 <= a < b < nodes.len() implies !same_command(
            #[trigger] nodes[a],
            #[trigger] nodes[b],
        ) by {
            if same_command(nodes[a], nodes[b]) {
                match nodes[b] {
                    MenuNode::Command(id) => {
                        assert(references_command(nodes, a, id@));
                        assert(command_seen_before(nodes, b, id@));
                        assert(node_fault(menus, i, b).len() == 1);
                    },
                    _ => {},
                }
            }
        }
    }
}

proof fn lemma_entries_have_no_repeated_command(menus: Seq<MenuModel>, n: nat)
    requires
        n <= menus.len(),
        structure_faults(menus, n).len() == 0,
    ensures
        forall|e: int|
            0 <= e < outline_entries(menus, n).len() ==> no_repeated_command(
                (#[trigger] outline_entries(menus, n)[e]).nodes,
            ),
    decreases n,
{
    if n > 0 {
        assert(structure_faults(menus, (n - 1) as nat).len() == 0);
        lemma_entries_have_no_repeated_command(menus, (n - 1) as nat);
        lemma_structure_faults_empty(menus, n);
        let prev = outline_entries(menus, (n - 1) as nat);
        let menu = menus[n - 1];
        if !(repeats_earlier_key(menus, n - 1) || spec_normalize(menu.nodes).len() == 0) {
            lemma_clean_menu_has_no_repeated_command(menus, n - 1);
            lemma_collapse_keeps_commands_distinct(menu.nodes);
            lemma_trim_keeps_commands_distinct(collapse_separators(menu.nodes));
            let next = outline_entries(menus, n);
            assert forall|e: int| 0 <= e < next.len() implies no_repeated_command(
                (#[trigger] next[e]).nodes,
            ) by {
                if e < prev.len() {
                    assert(next[e] == prev[e]);
                }
            }
        }
    }
}

/// A command may repeat across menus but never within one: in a successful
/// outline no menu references the same command twice.
pub proof fn lemma_no_menu_repeats_a_command(
    bar: MenuBarModel,
    platform: DesktopPlatform,
    features: StandardFeatures,
)
    ensures
        spec_outline_with(bar, platform, features) matches Ok(entries) ==> forall|e: int|
            0 <= e < entries.len() ==> no_repeated_command((#[trigger] entries[e]).nodes),
{
    let menus = policy_menus(bar.policy, platform, features);
    if spec_outline_faults(bar, platform, features).len() == 0 {
        assert(structure_faults(menus, menus.len()).len() == 0);
        lemma_entries_have_no_repeated_command(menus, menus.len());
    }
}

} // verus!
