//! Commands and menus: stable command identities, cross-platform bindings,
//! validated menu keys, the standard desktop vocabulary, and the pure fault
//! model of typed command and menu declarations.

pub mod binding;
pub mod declaration;
pub mod faults;
pub mod install;
pub mod keys;
pub mod lowering;
pub mod menu;
pub mod menu_model;
pub mod projection;
pub mod registry;
pub mod standard;

use vstd::prelude::*;

use crate::text::str_eq;

pub use binding::CommandBinding;
pub use faults::{CommandFault, CommandFaults};
pub use keys::{KeyFault, MenuKey, MenuSectionKey};

verus! {

/// A stable, process-unique identifier for a command.
///
/// The canonical key across every projection (menu, dock, tray, keymap).
#[derive(Clone, Copy, PartialEq, Eq, Hash, Debug)]
pub struct CommandId(pub(crate) &'static str);

impl View for CommandId {
    type V = Seq<char>;

    closed spec fn view(&self) -> Seq<char> {
        self.0@
    }
}

impl CommandId {
    /// The id whose text is `text`.
    pub closed spec fn literal(text: &'static str) -> Self {
        CommandId(text)
    }

    /// The text of a literal id is that literal.
    pub proof fn lemma_literal(text: &'static str)
        ensures
            CommandId::literal(text)@ == text@,
    {
    }

    /// Create a stable command id.
    pub fn new(id: &'static str) -> (command: Self)
        ensures
            command@ == id@,
            command == CommandId::literal(id),
    {
        CommandId(id)
    }

    /// The underlying string.
    pub fn as_str(&self) -> (text: &'static str)
        ensures
            text@ == self@,
    {
        self.0
    }

    /// Whether two ids name the same command.
    pub fn same(&self, other: &Self) -> (same: bool)
        ensures
            same == (self@ == other@),
    {
        str_eq(self.0, other.0)
    }
}

/// Whether `id` occurs in `ids`, compared by text.
pub fn contains_id(ids: &Vec<CommandId>, id: CommandId) -> (found: bool)
    ensures
        found == ids@.map_values(|c: CommandId| c@).contains(id@),
{
    let mut i: usize = 0;
    while i < ids.len()
        invariant
            i <= ids@.len(),
            forall|j: int| 0 <= j < i ==> (#[trigger] ids@[j])@ != id@,
        decreases ids@.len() - i,
    {
        if ids[i].same(&id) {
            assert(ids@.map_values(|c: CommandId| c@)[i as int] == id@);
            return true;
        }
        i = i + 1;
    }
    proof {
        let texts = ids@.map_values(|c: CommandId| c@);
        if texts.contains(id@) {
            let k = choose|k: int| 0 <= k < texts.len() && #[trigger] texts[k] == id@;
            assert(ids@[k]@ == id@);
        }
    }
    false
}

/// Where a command's handler is dispatched.
#[derive(Clone, Copy, PartialEq, Eq, Debug)]
pub enum CommandScope {
    /// Dispatched to the application via a global action handler.
    App,
    /// Dispatched to the focused window or view.
    Window,
}

/// Placement of a command inside a projected menu: the top-level menu key, a
/// group (a separator sits between adjacent groups), and an order inside the
/// group.
#[derive(Clone, Copy, PartialEq, Eq, Debug)]
pub struct MenuPlacement {
    /// The top-level menu key.
    pub menu: &'static str,
    /// Group index; a separator is inserted between adjacent groups.
    pub group: u16,
    /// Order within the group.
    pub order: u16,
}

impl MenuPlacement {
    /// Place a command in `menu`, `group`, at `order`.
    pub fn new(menu: &'static str, group: u16, order: u16) -> (placement: Self)
        ensures
            placement.menu == menu,
            placement.group == group,
            placement.order == order,
    {
        MenuPlacement { menu, group, order }
    }
}

/// What a [`RuntimeCommand`] holds, as a value.
pub struct CommandModel {
    /// The stable id.
    pub id: CommandId,
    /// The static label.
    pub label: Seq<char>,
    /// The dispatch scope.
    pub scope: CommandScope,
    /// The stable name of the action it dispatches (`namespace::Name`).
    pub action: &'static str,
    /// The default keybinding, if any.
    pub default_binding: Option<&'static str>,
    /// The key-context predicate scoping the default binding, if any.
    pub binding_context: Option<&'static str>,
    /// Every menu placement, in the order it was declared.
    pub placements: Seq<MenuPlacement>,
}

/// A single runtime command: the canonical unit projected into menus and
/// keymaps, holding what the projection reads (its identity, label, scope,
/// default binding and placements) and the action it dispatches. The action
/// is held by its stable name, which is what tells two action types apart.
pub struct RuntimeCommand {
    id: CommandId,
    label: String,
    scope: CommandScope,
    action: &'static str,
    default_binding: Option<&'static str>,
    binding_context: Option<&'static str>,
    placements: Vec<MenuPlacement>,
}

impl View for RuntimeCommand {
    type V = CommandModel;

    closed spec fn view(&self) -> CommandModel {
        CommandModel {
            id: self.id,
            label: self.label@,
            scope: self.scope,
            action: self.action,
            default_binding: self.default_binding,
            binding_context: self.binding_context,
            placements: self.placements@,
        }
    }
}

/// The models of a sequence of commands.
pub open spec fn commands_view(commands: Seq<RuntimeCommand>) -> Seq<CommandModel> {
    commands.map_values(|c: RuntimeCommand| c@)
}

impl RuntimeCommand {
    /// Create a command dispatching the action named `action`, with the
    /// required fields and no binding or placement.
    pub fn new(id: CommandId, label: &str, scope: CommandScope, action: &'static str) -> (command:
        Self)
        ensures
            command@ == (CommandModel {
                id,
                label: label@,
                scope,
                action,
                default_binding: None,
                binding_context: None,
                placements: Seq::empty(),
            }),
    {
        RuntimeCommand {
            id,
            label: label.to_owned(),
            scope,
            action,
            default_binding: None,
            binding_context: None,
            placements: Vec::new(),
        }
    }

    /// Set the default keybinding.
    pub fn with_binding(self, keystroke: &'static str) -> (command: Self)
        ensures
            command@ == (CommandModel { default_binding: Some(keystroke), ..self@ }),
    {
        RuntimeCommand { default_binding: Some(keystroke), ..self }
    }

    /// Scope the default keybinding to a key-context predicate.
    pub fn with_binding_context(self, context: &'static str) -> (command: Self)
        ensures
            command@ == (CommandModel { binding_context: Some(context), ..self@ }),
    {
        RuntimeCommand { binding_context: Some(context), ..self }
    }

    /// Place the command in one more menu. A command may be projected into
    /// several menus (and the dock), so this appends.
    pub fn with_placement(self, placement: MenuPlacement) -> (command: Self)
        ensures
            command@ == (CommandModel { placements: self@.placements.push(placement), ..self@ }),
    {
        let mut command = self;
        command.placements.push(placement);
        command
    }

    /// Place the command in `menu`, `group`, at `order`.
    pub fn placed(self, menu: &'static str, group: u16, order: u16) -> (command: Self)
        ensures
            command@ == (CommandModel {
                placements: self@.placements.push(MenuPlacement { menu, group, order }),
                ..self@
            }),
    {
        self.with_placement(MenuPlacement::new(menu, group, order))
    }

    /// The command's stable id.
    pub fn id(&self) -> (id: CommandId)
        ensures
            id == self@.id,
    {
        self.id
    }

    /// The command's static label.
    pub fn label(&self) -> (label: &str)
        ensures
            label@ == self@.label,
    {
        self.label.as_str()
    }

    /// The command's dispatch scope.
    pub fn scope(&self) -> (scope: CommandScope)
        ensures
            scope == self@.scope,
    {
        self.scope
    }

    /// The stable name of the command's action.
    pub fn action_name(&self) -> (action: &'static str)
        ensures
            action == self@.action,
    {
        self.action
    }

    /// The command's first menu placement, if any.
    pub fn placement(&self) -> (placement: Option<MenuPlacement>)
        ensures
            self@.placements.len() == 0 ==> placement is None,
            self@.placements.len() > 0 ==> placement == Some(self@.placements[0]),
    {
        if self.placements.len() == 0 {
            None
        } else {
            Some(self.placements[0])
        }
    }

    /// Every menu placement, in the order it was declared.
    pub fn placements(&self) -> (placements: &[MenuPlacement])
        ensures
            placements@ == self@.placements,
    {
        self.placements.as_slice()
    }

    /// The command's default keybinding, if any.
    pub fn default_binding(&self) -> (binding: Option<&'static str>)
        ensures
            binding == self@.default_binding,
    {
        self.default_binding
    }

    /// The key-context predicate scoping the default binding, if any.
    pub fn binding_context(&self) -> (context: Option<&'static str>)
        ensures
            context == self@.binding_context,
    {
        self.binding_context
    }
}

/// What a live registration must do about keybindings and menus.
#[derive(Clone, Copy, PartialEq, Eq, Debug)]
pub enum RegistrationEffect {
    /// Registry not yet live: the module binds and projects the whole registry
    /// in one batch, so recording is enough.
    Deferred,
    /// A brand-new id after go-live: append its binding.
    Append,
    /// Replacing an existing id after go-live: rebuild bindings so the replaced
    /// command's stale chord is removed.
    Rebuild,
}

impl RegistrationEffect {
    /// Route a registration by registry liveness and whether the id exists.
    pub fn of(active: bool, id_exists: bool) -> (effect: Self)
        ensures
            !active ==> effect == RegistrationEffect::Deferred,
            active && !id_exists ==> effect == RegistrationEffect::Append,
            active && id_exists ==> effect == RegistrationEffect::Rebuild,
    {
        if !active {
            RegistrationEffect::Deferred
        } else if !id_exists {
            RegistrationEffect::Append
        } else {
            RegistrationEffect::Rebuild
        }
    }
}

/// Resolved menu-item flags.
#[derive(Clone, Copy, PartialEq, Eq, Debug)]
pub struct MenuFlags {
    /// Whether the item renders a check mark.
    pub checked: bool,
    /// Whether the item is greyed out.
    pub disabled: bool,
}

/// Map optional predicate results to menu-item flags: an absent checked
/// predicate is unchecked; an absent enabled predicate is enabled.
pub fn menu_flags(checked: Option<bool>, enabled: Option<bool>) -> (flags: MenuFlags)
    ensures
        flags.checked == (checked == Some(true)),
        flags.disabled == (enabled == Some(false)),
{
    let checked_flag = match checked {
        Some(value) => value,
        None => false,
    };
    let enabled_flag = match enabled {
        Some(value) => value,
        None => true,
    };
    MenuFlags { checked: checked_flag, disabled: !enabled_flag }
}

} // verus!
