//! The command registry: commands deduplicated by id (last registration wins,
//! first slot kept), the reserved section slots that have a provider, the
//! active menu plan, and whether the initial projection pass has run.

use vstd::prelude::*;

use super::keys::MenuSectionKey;
use super::menu::MenuPlan;
use super::menu::TopMenuModel;
use super::{commands_view, CommandId, CommandModel, RuntimeCommand};
use crate::text::str_eq;

verus! {

/// Errors returned while registering commands.
#[derive(Debug, Clone, Copy, PartialEq, Eq)]
#[non_exhaustive]
pub enum CommandError {
    /// A command's default keybinding could not be parsed.
    InvalidBinding {
        /// Stable command id.
        command: CommandId,
        /// The keystroke text the toolkit rejected.
        binding: &'static str,
    },
    /// A command id was registered twice through the register-only path.
    Duplicate {
        /// Stable command id.
        command: CommandId,
    },
    /// A command's key context could not be parsed as a context predicate.
    InvalidKeyContext {
        /// Stable command id.
        command: CommandId,
        /// The predicate text the toolkit rejected.
        context: &'static str,
    },
    /// A menu-section key was registered twice.
    DuplicateSection {
        /// The repeated section key.
        section: MenuSectionKey,
    },
    /// A command id and its action type must map to each other one to one.
    IncompatibleAction {
        /// The command id attempting the (re)registration.
        command: CommandId,
        /// Stable name of the conflicting action.
        action: &'static str,
    },
    /// A replacement targeted a framework-owned standard command id.
    FrameworkOwned {
        /// The rejected standard command id.
        command: CommandId,
    },
}

/// The rendered error.
pub open spec fn spec_command_error_text(error: CommandError) -> Seq<char> {
    match error {
        CommandError::InvalidBinding { command, binding } => "invalid default binding `"@ + binding@
            + "` for command `"@ + command@ + "`"@,
        CommandError::Duplicate { command } => "command `"@ + command@ + "` is already registered"@,
        CommandError::InvalidKeyContext { command, context } => "invalid key context `"@ + context@
            + "` for command `"@ + command@ + "`"@,
        CommandError::DuplicateSection { section } => "menu section `"@ + section@
            + "` is already registered"@,
        CommandError::IncompatibleAction { command, action } => "command `"@ + command@
            + "` is incompatible with the current id/action mapping for `"@ + action@ + "`"@,
        CommandError::FrameworkOwned { command } => "command `"@ + command@
            + "` is a framework-owned standard command and cannot be replaced"@,
    }
}

impl CommandError {
    /// The rendered error.
    pub fn to_text(&self) -> (text: String)
        ensures
            text@ == spec_command_error_text(*self),
    {
        let mut out = String::new();
        match *self {
            CommandError::InvalidBinding { command, binding } => {
                out.append("invalid default binding `");
                out.append(binding);
                out.append("` for command `");
                out.append(command.as_str());
                out.append("`");
            },
            CommandError::Duplicate { command } => {
                out.append("command `");
                out.append(command.as_str());
                out.append("` is already registered");
            },
            CommandError::InvalidKeyContext { command, context } => {
                out.append("invalid key context `");
                out.append(context);
                out.append("` for command `");
                out.append(command.as_str());
                out.append("`");
            },
            CommandError::DuplicateSection { section } => {
                out.append("menu section `");
                out.append(section.as_str());
                out.append("` is already registered");
            },
            CommandError::IncompatibleAction { command, action } => {
                out.append("command `");
                out.append(command.as_str());
                out.append("` is incompatible with the current id/action mapping for `");
                out.append(action);
                out.append("`");
            },
            CommandError::FrameworkOwned { command } => {
                out.append("command `");
                out.append(command.as_str());
                out.append("` is a framework-owned standard command and cannot be replaced");
            },
        }
        out
    }
}

/// What the toolkit's parsers said about a command's default binding: whether
/// the keystroke text parses, and whether its key-context predicate does.
#[derive(Clone, Copy, Debug, PartialEq, Eq)]
pub struct KeymapVerdict {
    /// The keystroke text parses.
    pub keystroke: bool,
    /// The key-context predicate parses.
    pub context: bool,
}

/// The error loading a command's default binding gives, if any: a command
/// without a default binding binds nothing; otherwise its key context is
/// parsed first, then its keystroke.
pub open spec fn spec_binding_error(command: CommandModel, verdict: KeymapVerdict) -> Option<
    CommandError,
> {
    match command.default_binding {
        None => None,
        Some(binding) => match command.binding_context {
            Some(context) => if !verdict.context {
                Some(CommandError::InvalidKeyContext { command: command.id, context })
            } else if !verdict.keystroke {
                Some(CommandError::InvalidBinding { command: command.id, binding })
            } else {
                None
            },
            None => if !verdict.keystroke {
                Some(CommandError::InvalidBinding { command: command.id, binding })
            } else {
                None
            },
        },
    }
}

/// Check a command's default binding against the parsers' verdict.
pub fn validate_command_binding(command: &RuntimeCommand, verdict: KeymapVerdict) -> (result:
    Result<(), CommandError>)
    ensures
        match spec_binding_error(command@, verdict) {
            Some(error) => result == Err::<(), CommandError>(error),
            None => result is Ok,
        },
{
    match command.default_binding() {
        None => Ok(()),
        Some(binding) => {
            match command.binding_context() {
                Some(context) => {
                    if !verdict.context {
                        return Err(CommandError::InvalidKeyContext { command: command.id(), context });
                    }
                },
                None => {},
            }
            if !verdict.keystroke {
                Err(CommandError::InvalidBinding { command: command.id(), binding })
            } else {
                Ok(())
            }
        },
    }
}

/// The position of the first command with the id text `id`, or -1.
pub open spec fn command_slot(commands: Seq<CommandModel>, id: Seq<char>) -> int
    decreases commands.len(),
{
    if commands.len() == 0 {
        -1
    } else {
        let earlier = command_slot(commands.drop_last(), id);
        if earlier >= 0 {
            earlier
        } else if commands.last().id@ == id {
            commands.len() - 1
        } else {
            -1
        }
    }
}

/// The slot found by [`command_slot`] is in range and holds `id`; no earlier
/// slot does.
pub proof fn lemma_command_slot(commands: Seq<CommandModel>, id: Seq<char>)
    ensures
        -1 <= command_slot(commands, id) < commands.len(),
        command_slot(commands, id) >= 0 ==> commands[command_slot(commands, id)].id@ == id,
        forall|i: int|
            0 <= i < commands.len() && (command_slot(commands, id) < 0 || i < command_slot(
                commands,
                id,
            )) ==> (#[trigger] commands[i]).id@ != id,
    decreases commands.len(),
{
    if commands.len() > 0 {
        lemma_command_slot(commands.drop_last(), id);
        assert forall|i: int| 0 <= i < commands.len() - 1 implies #[trigger] commands[i]
            == commands.drop_last()[i] by {}
    }
}

/// The commands after registering `command`: an existing entry with its id is
/// replaced in place, otherwise the command is appended.
pub open spec fn spec_register(commands: Seq<CommandModel>, command: CommandModel) -> Seq<
    CommandModel,
> {
    let p = command_slot(commands, command.id@);
    if p < 0 {
        commands.push(command)
    } else {
        commands.update(p, command)
    }
}

/// No two commands share an id text.
pub open spec fn distinct_command_ids(commands: Seq<CommandModel>) -> bool {
    forall|a: int, b: int|
        0 <= a < b < commands.len() ==> (#[trigger] commands[a]).id@ != (#[trigger] commands[b]).id@
}

/// Whether a slot list holds `slot`.
pub open spec fn has_slot(slots: Seq<&'static str>, slot: Seq<char>) -> bool {
    exists|i: int| 0 <= i < slots.len() && (#[trigger] slots[i])@ == slot
}

/// The default bindings of `commands`, in registration-slot order: later
/// entries win a shared chord under the keymap's reverse-order resolution.
pub open spec fn default_bindings_of(commands: Seq<CommandModel>) -> Seq<(CommandId, &'static str)>
    decreases commands.len(),
{
    if commands.len() == 0 {
        Seq::empty()
    } else {
        let earlier = default_bindings_of(commands.drop_last());
        match commands.last().default_binding {
            Some(binding) => earlier.push((commands.last().id, binding)),
            None => earlier,
        }
    }
}

/// The registry as a value.
pub struct RegistryModel {
    /// The commands, in registration-slot order.
    pub commands: Seq<CommandModel>,
    /// The section slots that have a provider, in registration order.
    pub sections: Seq<&'static str>,
    /// The active plan, if one is installed.
    pub plan: Option<Seq<TopMenuModel>>,
    /// Whether the initial projection pass has run.
    pub active: bool,
}

/// The command registry: commands deduplicated by id (last registration wins,
/// first slot kept), the section slots that have a provider, the active menu
/// plan, and whether the initial binding and projection pass has run.
pub struct CommandRegistry {
    commands: Vec<RuntimeCommand>,
    sections: Vec<&'static str>,
    plan: Option<MenuPlan>,
    active: bool,
}

impl View for CommandRegistry {
    type V = RegistryModel;

    closed spec fn view(&self) -> RegistryModel {
        RegistryModel {
            commands: commands_view(self.commands@),
            sections: self.sections@,
            plan: match self.plan {
                Some(plan) => Some(plan@),
                None => None,
            },
            active: self.active,
        }
    }
}

impl CommandRegistry {
    /// A new, empty registry.
    pub fn new() -> (registry: Self)
        ensures
            registry@.commands.len() == 0,
            registry@.sections.len() == 0,
            registry@.plan is None,
            !registry@.active,
    {
        CommandRegistry { commands: Vec::new(), sections: Vec::new(), plan: None, active: false }
    }

    fn slot_of(&self, id: CommandId) -> (slot: Option<usize>)
        ensures
            match slot {
                Some(i) => i as int == command_slot(self@.commands, id@) && i < self.commands@.len(),
                None => command_slot(self@.commands, id@) < 0,
            },
    {
        let ghost cm = self@.commands;
        proof {
            lemma_command_slot(cm, id@);
        }
        let mut i: usize = 0;
        while i < self.commands.len()
            invariant
                cm == commands_view(self.commands@),
                i <= cm.len(),
                -1 <= command_slot(cm, id@) < cm.len(),
                command_slot(cm, id@) >= 0 ==> cm[command_slot(cm, id@)].id@ == id@,
                forall|k: int|
                    0 <= k < cm.len() && (command_slot(cm, id@) < 0 || k < command_slot(cm, id@))
                        ==> (#[trigger] cm[k]).id@ != id@,
                forall|k: int| 0 <= k < i ==> (#[trigger] cm[k]).id@ != id@,
            decreases cm.len() - i,
        {
            if self.commands[i].id().same(&id) {
                assert(cm[i as int] == self.commands@[i as int]@);
                return Some(i);
            }
            assert(cm[i as int] == self.commands@[i as int]@);
            i = i + 1;
        }
        None
    }

    /// Register a command whose default binding the toolkit's parsers judged
    /// by `verdict`. An invalid binding leaves the registry unchanged;
    /// otherwise an existing entry with the same id is replaced in place (so
    /// its binding precedence is kept) and a new id is appended.
    pub fn register(&mut self, command: RuntimeCommand, verdict: KeymapVerdict) -> (result: Result<
        (),
        CommandError,
    >)
        ensures
            match spec_binding_error(command@, verdict) {
                Some(error) => result == Err::<(), CommandError>(error) && final(self)@ == old(
                    self,
                )@,
                None => result is Ok && final(self)@ == (RegistryModel {
                    commands: spec_register(old(self)@.commands, command@),
                    ..old(self)@
                }),
            },
    {
        match validate_command_binding(&command, verdict) {
            Err(error) => {
                return Err(error);
            },
            Ok(()) => {},
        }
        let ghost before = self@;
        let ghost model = command@;
        match self.slot_of(command.id()) {
            Some(i) => {
                self.commands.set(i, command);
                assert(commands_view(self.commands@) =~= before.commands.update(i as int, model));
            },
            None => {
                self.commands.push(command);
                assert(commands_view(self.commands@) =~= before.commands.push(model));
            },
        }
        Ok(())
    }

    /// Whether a command with the text of `id` is registered.
    pub fn contains(&self, id: CommandId) -> (found: bool)
        ensures
            found == (command_slot(self@.commands, id@) >= 0),
    {
        self.slot_of(id).is_some()
    }

    /// The registered command with the text of `id`, if any.
    pub fn get(&self, id: CommandId) -> (command: Option<&RuntimeCommand>)
        ensures
            command_slot(self@.commands, id@) < 0 ==> command is None,
            command_slot(self@.commands, id@) >= 0 ==> match command {
                Some(c) => c@ == self@.commands[command_slot(self@.commands, id@)],
                None => false,
            },
    {
        match self.slot_of(id) {
            Some(i) => Some(&self.commands[i]),
            None => None,
        }
    }

    /// Every registered command, in registration-slot order.
    pub fn commands(&self) -> (commands: &[RuntimeCommand])
        ensures
            commands_view(commands@) == self@.commands,
    {
        self.commands.as_slice()
    }

    /// Every registered command's default binding, in registration-slot
    /// order; commands without one contribute nothing.
    pub fn default_bindings(&self) -> (bindings: Vec<(CommandId, &'static str)>)
        ensures
            bindings@ == default_bindings_of(self@.commands),
    {
        let ghost cm = self@.commands;
        let mut bindings: Vec<(CommandId, &'static str)> = Vec::new();
        let mut i: usize = 0;
        while i < self.commands.len()
            invariant
                cm == commands_view(self.commands@),
                i <= cm.len(),
                bindings@ == default_bindings_of(cm.take(i as int)),
            decreases cm.len() - i,
        {
            assert(cm.take(i + 1).drop_last() =~= cm.take(i as int));
            assert(cm.take(i + 1).last() == self.commands@[i as int]@);
            match self.commands[i].default_binding() {
                Some(binding) => {
                    bindings.push((self.commands[i].id(), binding));
                },
                None => {},
            }
            i = i + 1;
        }
        assert(cm.take(cm.len() as int) =~= cm);
        bindings
    }

    fn has_section_slot(&self, slot: &str) -> (found: bool)
        ensures
            found == has_slot(self@.sections, slot@),
    {
        let mut i: usize = 0;
        while i < self.sections.len()
            invariant
                i <= self.sections@.len(),
                forall|k: int| 0 <= k < i ==> (#[trigger] self.sections@[k])@ != slot@,
            decreases self.sections@.len() - i,
        {
            if str_eq(self.sections[i], slot) {
                return true;
            }
            i = i + 1;
        }
        false
    }

    /// Record a provider for `slot`, replacing any earlier one: the slot is
    /// listed once.
    pub fn set_section(&mut self, slot: &'static str)
        ensures
            has_slot(old(self)@.sections, slot@) ==> final(self)@ == old(self)@,
            !has_slot(old(self)@.sections, slot@) ==> final(self)@ == (RegistryModel {
                sections: old(self)@.sections.push(slot),
                ..old(self)@
            }),
    {
        if !self.has_section_slot(slot) {
            self.sections.push(slot);
        }
    }

    /// Record a provider for a slot that has none yet; a second provider for
    /// the same slot is rejected and leaves the registry unchanged.
    pub fn register_new_section(&mut self, slot: MenuSectionKey) -> (result: Result<(), CommandError>)
        ensures
            has_slot(old(self)@.sections, slot@) ==> result == Err::<(), CommandError>(
                CommandError::DuplicateSection { section: slot },
            ) && final(self)@ == old(self)@,
            !has_slot(old(self)@.sections, slot@) ==> result is Ok && final(self)@ == (
            RegistryModel { sections: old(self)@.sections.push(slot.text()), ..old(self)@ }),
    {
        proof {
            slot.lemma_text();
        }
        if self.has_section_slot(slot.as_str()) {
            return Err(CommandError::DuplicateSection { section: slot });
        }
        self.sections.push(slot.as_str());
        Ok(())
    }

    /// Whether a provider is registered for `slot`.
    pub fn section(&self, slot: &str) -> (found: bool)
        ensures
            found == has_slot(self@.sections, slot@),
    {
        self.has_section_slot(slot)
    }

    /// Install the active menu plan.
    pub fn set_plan(&mut self, plan: MenuPlan)
        ensures
            final(self)@ == (RegistryModel { plan: Some(plan@), ..old(self)@ }),
    {
        self.plan = Some(plan);
    }

    /// The active menu plan, if one is installed.
    pub fn plan(&self) -> (plan: Option<&MenuPlan>)
        ensures
            match self@.plan {
                Some(p) => plan is Some && plan->0@ == p,
                None => plan is None,
            },
    {
        match &self.plan {
            Some(plan) => Some(plan),
            None => None,
        }
    }

    /// Mark the registry live: later registrations bind and project
    /// themselves.
    pub fn activate(&mut self)
        ensures
            final(self)@ == (RegistryModel { active: true, ..old(self)@ }),
    {
        self.active = true;
    }

    /// Whether the initial projection pass has run.
    pub fn is_active(&self) -> (active: bool)
        ensures
            active == self@.active,
    {
        self.active
    }
}

/// Registering keeps one entry per id: from distinct ids, a registration
/// leaves distinct ids, replaces the entry of a known id in place with the
/// new command, keeps every other entry and its slot, and appends an unknown
/// id at the end.
pub proof fn lemma_register_keeps_one_entry_per_id(commands: Seq<CommandModel>, command: CommandModel)
    requires
        distinct_command_ids(commands),
    ensures
        distinct_command_ids(spec_register(commands, command)),
        command_slot(commands, command.id@) >= 0 ==> spec_register(commands, command).len()
            == commands.len(),
        command_slot(commands, command.id@) < 0 ==> spec_register(commands, command).len()
            == commands.len() + 1 && spec_register(commands, command).last() == command,
        command_slot(commands, command.id@) >= 0 ==> spec_register(commands, command)[command_slot(
            commands,
            command.id@,
        )] == command,
        forall|i: int|
            0 <= i < commands.len() && commands[i].id@ != command.id@ ==> #[trigger] spec_register(
                commands,
                command,
            )[i] == commands[i],
{
    lemma_command_slot(commands, command.id@);
    let after = spec_register(commands, command);
    let p = command_slot(commands, command.id@);
    assert forall|a: int, b: int| 0 <= a < b < after.len() implies (#[trigger] after[a]).id@
        != (#[trigger] after[b]).id@ by {
        if p < 0 {
            if b == commands.len() {
                assert(after[a] == commands[a]);
            } else {
                assert(after[a] == commands[a] && after[b] == commands[b]);
            }
        } else {
            if a == p {
                assert(after[b] == commands[b]);
                assert(commands[p].id@ == command.id@);
            } else if b == p {
                assert(after[a] == commands[a]);
                assert(commands[p].id@ == command.id@);
            } else {
                assert(after[a] == commands[a] && after[b] == commands[b]);
            }
        }
    }
}

/// The position of the first item the registry owns, or the length when it
/// owns none.
pub open spec fn first_owned<T>(snapshot: Seq<(bool, T)>) -> int
    decreases snapshot.len(),
{
    if snapshot.len() == 0 {
        0
    } else if first_owned(snapshot.drop_last()) < snapshot.len() - 1 {
        first_owned(snapshot.drop_last())
    } else if snapshot.last().0 {
        snapshot.len() - 1
    } else {
        snapshot.len() as int
    }
}

/// The first owned position is a position, or the length.
proof fn lemma_first_owned_bounds<T>(snapshot: Seq<(bool, T)>)
    ensures
        0 <= first_owned(snapshot) <= snapshot.len(),
    decreases snapshot.len(),
{
    if snapshot.len() > 0 {
        lemma_first_owned_bounds(snapshot.drop_last());
    }
}

/// The items the registry does not own, in order.
pub open spec fn foreign<T>(snapshot: Seq<(bool, T)>) -> Seq<T>
    decreases snapshot.len(),
{
    if snapshot.len() == 0 {
        Seq::empty()
    } else if snapshot.last().0 {
        foreign(snapshot.drop_last())
    } else {
        foreign(snapshot.drop_last()).push(snapshot.last().1)
    }
}

/// Split a keymap snapshot, each binding marked with whether the registry
/// owns it, around the registry's block: the foreign bindings before the first
/// registry-owned one, and the foreign bindings after it. The registry's own
/// bindings are dropped, so a rebuild can put fresh ones back between the two.
pub fn split_around_registry<T>(snapshot: Vec<(bool, T)>) -> (parts: (Vec<T>, Vec<T>))
    ensures
        parts.0@ == foreign(snapshot@.take(first_owned(snapshot@))),
        parts.1@ == foreign(snapshot@.skip(first_owned(snapshot@))),
{
    let ghost whole = snapshot@;
    let mut before: Vec<T> = Vec::new();
    let mut after: Vec<T> = Vec::new();
    let mut seen_registry = false;
    let mut rest = snapshot;
    let ghost mut taken: int = 0;
    assert(rest@ =~= whole.skip(0));
    while rest.len() > 0
        invariant
            0 <= taken <= whole.len(),
            rest@ =~= whole.skip(taken),
            seen_registry == (first_owned(whole.take(taken)) < taken),
            !seen_registry ==> before@ == foreign(whole.take(taken)) && after@.len() == 0,
            seen_registry ==> before@ == foreign(whole.take(first_owned(whole.take(taken))))
                && after@ == foreign(whole.take(taken).skip(first_owned(whole.take(taken)))),
        decreases rest@.len(),
    {
        let (owned, binding) = rest.remove(0);
        proof {
            assert(whole.skip(taken)[0] == (owned, binding));
            assert(whole[taken] == (owned, binding));
            assert(whole.take(taken + 1).drop_last() =~= whole.take(taken));
            assert(whole.take(taken + 1).last() == whole[taken]);
        }
        if owned {
            seen_registry = true;
        } else if seen_registry {
            after.push(binding);
        } else {
            before.push(binding);
        }
        proof {
            let prefix = whole.take(taken);
            let next = whole.take(taken + 1);
            lemma_first_owned_bounds(prefix);
            let f = first_owned(prefix);
            if f < taken {
                assert(first_owned(next) == f);
                assert(next.take(f) =~= prefix.take(f));
                assert(whole.take(f) =~= prefix.take(f));
                assert(next.skip(f) =~= prefix.skip(f).push(whole[taken]));
                assert(next.skip(f).drop_last() =~= prefix.skip(f));
                assert(next.skip(f).last() == whole[taken]);
                if owned {
                    assert(foreign(next.skip(f)) == foreign(prefix.skip(f)));
                } else {
                    assert(foreign(next.skip(f)) == foreign(prefix.skip(f)).push(binding));
                }
            } else {
                assert(f == taken);
                if owned {
                    assert(first_owned(next) == taken);
                    assert(whole.take(taken) =~= prefix);
                    assert(next.skip(taken) =~= seq![whole[taken]]);
                    assert(next.skip(taken).drop_last() =~= Seq::<(bool, T)>::empty());
                    assert(foreign(Seq::<(bool, T)>::empty()) =~= Seq::<T>::empty());
                    assert(foreign(next.skip(taken)) =~= Seq::<T>::empty());
                } else {
                    assert(first_owned(next) == taken + 1);
                    assert(foreign(next) == foreign(prefix).push(binding));
                }
            }
            taken = taken + 1;
        }
    }
    assert(whole.take(taken) =~= whole);
    (before, after)
}

} // verus!
