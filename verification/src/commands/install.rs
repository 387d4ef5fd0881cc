//! Checked registration paths: a whole batch of commands installed all or
//! nothing, and the replacement of one command. Both keep the rule that an
//! action names exactly one stable command id.

use vstd::prelude::*;

use super::registry::{
    command_slot, lemma_command_slot, spec_binding_error, spec_register, validate_command_binding,
    CommandError, CommandRegistry, KeymapVerdict, RegistryModel,
};
use super::{commands_view, CommandId, CommandModel, CommandScope, MenuPlacement, RuntimeCommand};
use super::declaration::{spec_lowered_command, DeclaredCommand};
use super::standard::{is_standard_command, spec_is_standard_command, DesktopPlatform};
use crate::text::str_eq;

verus! {

/// The position of the first command dispatching the action named `action`,
/// or -1.
pub open spec fn action_slot(commands: Seq<CommandModel>, action: Seq<char>) -> int
    decreases commands.len(),
{
    if commands.len() == 0 {
        -1
    } else {
        let earlier = action_slot(commands.drop_last(), action);
        if earlier >= 0 {
            earlier
        } else if commands.last().action@ == action {
            commands.len() - 1
        } else {
            -1
        }
    }
}

/// The slot found by [`action_slot`] is in range and dispatches `action`; no
/// earlier slot does.
pub proof fn lemma_action_slot(commands: Seq<CommandModel>, action: Seq<char>)
    ensures
        -1 <= action_slot(commands, action) < commands.len(),
        action_slot(commands, action) >= 0 ==> commands[action_slot(commands, action)].action@
            == action,
        forall|i: int|
            0 <= i < commands.len() && (action_slot(commands, action) < 0 || i < action_slot(
                commands,
                action,
            )) ==> (#[trigger] commands[i]).action@ != action,
    decreases commands.len(),
{
    if commands.len() > 0 {
        lemma_action_slot(commands.drop_last(), action);
        assert forall|i: int| 0 <= i < commands.len() - 1 implies #[trigger] commands[i]
            == commands.drop_last()[i] by {}
    }
}

/// Whether the action `command` dispatches is already owned by a registered
/// command with another id.
pub open spec fn owned_elsewhere(commands: Seq<CommandModel>, command: CommandModel) -> bool {
    let p = action_slot(commands, command.action@);
    p >= 0 && commands[p].id@ != command.id@
}

/// No two commands dispatch the same action.
pub open spec fn one_command_per_action(commands: Seq<CommandModel>) -> bool {
    forall|a: int, b: int|
        0 <= a < b < commands.len() ==> (#[trigger] commands[a]).action@ != (#[trigger] commands[b]).action@
}

impl CommandRegistry {
    /// The id of the first registered command dispatching the action named
    /// `action`, if any.
    pub fn action_owner(&self, action: &str) -> (owner: Option<CommandId>)
        ensures
            action_slot(self@.commands, action@) < 0 ==> owner is None,
            action_slot(self@.commands, action@) >= 0 ==> owner == Some(
                self@.commands[action_slot(self@.commands, action@)].id,
            ),
    {
        let commands = self.commands();
        let ghost cm = self@.commands;
        proof {
            lemma_action_slot(cm, action@);
        }
        let mut i: usize = 0;
        while i < commands.len()
            invariant
                cm == commands_view(commands@),
                cm == self@.commands,
                i <= cm.len(),
                -1 <= action_slot(cm, action@) < cm.len(),
                action_slot(cm, action@) >= 0 ==> cm[action_slot(cm, action@)].action@ == action@,
                forall|k: int|
                    0 <= k < cm.len() && (action_slot(cm, action@) < 0 || k < action_slot(
                        cm,
                        action@,
                    )) ==> (#[trigger] cm[k]).action@ != action@,
                forall|k: int| 0 <= k < i ==> (#[trigger] cm[k]).action@ != action@,
            decreases cm.len() - i,
        {
            assert(cm[i as int] == commands@[i as int]@);
            if str_eq(commands[i].action_name(), action) {
                return Some(commands[i].id());
            }
            i = i + 1;
        }
        None
    }
}

/// The error a command meets when the action it dispatches is already owned
/// by a registered command with another id: an action names exactly one
/// stable command id.
pub fn incompatible_action(registry: &CommandRegistry, command: &RuntimeCommand) -> (error: Option<
    CommandError,
>)
    ensures
        owned_elsewhere(registry@.commands, command@) ==> error == Some(
            CommandError::IncompatibleAction { command: command@.id, action: command@.action },
        ),
        !owned_elsewhere(registry@.commands, command@) ==> error is None,
{
    match registry.action_owner(command.action_name()) {
        Some(owner) => {
            if owner.same(&command.id()) {
                None
            } else {
                Some(
                    CommandError::IncompatibleAction {
                        command: command.id(),
                        action: command.action_name(),
                    },
                )
            }
        },
        None => None,
    }
}

/// Whether one of the first `n` commands of `batch` has the id text `id`.
pub open spec fn batch_has_id(batch: Seq<CommandModel>, n: int, id: Seq<char>) -> bool {
    exists|j: int| 0 <= j < n && (#[trigger] batch[j]).id@ == id
}

/// Whether one of the first `n` commands of `batch` dispatches the action
/// named `action`.
pub open spec fn batch_has_action(batch: Seq<CommandModel>, n: int, action: Seq<char>) -> bool {
    exists|j: int| 0 <= j < n && (#[trigger] batch[j]).action@ == action
}

/// The error the `i`-th command of a batch meets once every command before it
/// passed: its binding's error; else a duplicate id when its id is registered
/// or came earlier in the batch; else an incompatible action when an earlier
/// command of the batch dispatches the same action or a registered command
/// with another id owns it.
pub open spec fn batch_entry_error(
    registry: Seq<CommandModel>,
    batch: Seq<CommandModel>,
    verdicts: Seq<KeymapVerdict>,
    i: int,
) -> Option<CommandError> {
    let c = batch[i];
    match spec_binding_error(c, verdicts[i]) {
        Some(error) => Some(error),
        None => if command_slot(registry, c.id@) >= 0 || batch_has_id(batch, i, c.id@) {
            Some(CommandError::Duplicate { command: c.id })
        } else if batch_has_action(batch, i, c.action@) || owned_elsewhere(registry, c) {
            Some(CommandError::IncompatibleAction { command: c.id, action: c.action })
        } else {
            None
        },
    }
}

/// The first error among the first `n` commands of a batch, if any.
pub open spec fn batch_error(
    registry: Seq<CommandModel>,
    batch: Seq<CommandModel>,
    verdicts: Seq<KeymapVerdict>,
    n: nat,
) -> Option<CommandError>
    decreases n,
{
    if n == 0 {
        None
    } else {
        match batch_error(registry, batch, verdicts, (n - 1) as nat) {
            Some(error) => Some(error),
            None => batch_entry_error(registry, batch, verdicts, n - 1),
        }
    }
}

proof fn lemma_batch_error_sticks(
    registry: Seq<CommandModel>,
    batch: Seq<CommandModel>,
    verdicts: Seq<KeymapVerdict>,
    m: nat,
    n: nat,
)
    requires
        m <= n,
        batch_error(registry, batch, verdicts, m) is Some,
    ensures
        batch_error(registry, batch, verdicts, n) == batch_error(registry, batch, verdicts, m),
    decreases n - m,
{
    if m < n {
        lemma_batch_error_sticks(registry, batch, verdicts, m, (n - 1) as nat);
    }
}

proof fn lemma_batch_passes(
    registry: Seq<CommandModel>,
    batch: Seq<CommandModel>,
    verdicts: Seq<KeymapVerdict>,
    n: nat,
    i: int,
)
    requires
        batch_error(registry, batch, verdicts, n) is None,
        0 <= i < n,
    ensures
        batch_entry_error(registry, batch, verdicts, i) is None,
    decreases n,
{
    if i < n - 1 {
        lemma_batch_passes(registry, batch, verdicts, (n - 1) as nat, i);
    }
}

/// Whether one of the first `n` commands of `batch` has the text of `id`.
fn batch_contains_id(batch: &Vec<RuntimeCommand>, n: usize, id: CommandId) -> (found: bool)
    requires
        n <= batch@.len(),
    ensures
        found == batch_has_id(commands_view(batch@), n as int, id@),
{
    let ghost cm = commands_view(batch@);
    let mut j: usize = 0;
    while j < n
        invariant
            n <= batch@.len(),
            cm == commands_view(batch@),
            j <= n,
            forall|k: int| 0 <= k < j ==> (#[trigger] cm[k]).id@ != id@,
        decreases n - j,
    {
        assert(cm[j as int] == batch@[j as int]@);
        if batch[j].id().same(&id) {
            return true;
        }
        j = j + 1;
    }
    false
}

/// Whether one of the first `n` commands of `batch` dispatches the action
/// named `action`.
fn batch_contains_action(batch: &Vec<RuntimeCommand>, n: usize, action: &str) -> (found: bool)
    requires
        n <= batch@.len(),
    ensures
        found == batch_has_action(commands_view(batch@), n as int, action@),
{
    let ghost cm = commands_view(batch@);
    let mut j: usize = 0;
    while j < n
        invariant
            n <= batch@.len(),
            cm == commands_view(batch@),
            j <= n,
            forall|k: int| 0 <= k < j ==> (#[trigger] cm[k]).action@ != action@,
        decreases n - j,
    {
        assert(cm[j as int] == batch@[j as int]@);
        if str_eq(batch[j].action_name(), action) {
            return true;
        }
        j = j + 1;
    }
    false
}

/// Install a batch of commands lowered from a declaration, all or nothing.
///
/// Each command, in order, is checked against the parsers' `verdicts` on its
/// default binding, against the live registry and against the commands before
/// it: its binding must load, its id may be neither registered nor repeated
/// in the batch, and its action may be neither dispatched by an earlier
/// command of the batch nor owned by a registered command with another id.
/// The first failure is returned and the registry is left unchanged; when
/// every command passes, each is registered in order.
#[verifier::spinoff_prover]
pub fn install_declared_commands(
    registry: &mut CommandRegistry,
    commands: Vec<RuntimeCommand>,
    verdicts: &[KeymapVerdict],
) -> (result: Result<(), CommandError>)
    requires
        verdicts@.len() == commands@.len(),
    ensures
        match batch_error(
            old(registry)@.commands,
            commands_view(commands@),
            verdicts@,
            commands@.len(),
        ) {
            Some(error) => result == Err::<(), CommandError>(error) && final(registry)@ == old(
                registry,
            )@,
            None => result is Ok && final(registry)@ == (RegistryModel {
                commands: old(registry)@.commands + commands_view(commands@),
                ..old(registry)@
            }),
        },
        one_command_per_action(old(registry)@.commands) && result is Ok ==> one_command_per_action(
            final(registry)@.commands,
        ),
{
    let ghost before = registry@;
    let ghost batch = commands_view(commands@);
    let ghost marks = verdicts@;
    let n = commands.len();
    let mut i: usize = 0;
    while i < n
        invariant
            n == commands@.len(),
            verdicts@.len() == n,
            batch == commands_view(commands@),
            marks == verdicts@,
            registry@ == before,
            i <= n,
            batch_error(before.commands, batch, marks, i as nat) is None,
        decreases n - i,
    {
        let command = &commands[i];
        assert(batch[i as int] == command@);
        let ghost entry = batch_entry_error(before.commands, batch, marks, i as int);
        match validate_command_binding(command, verdicts[i]) {
            Err(error) => {
                proof {
                    assert(batch_error(before.commands, batch, marks, (i + 1) as nat) == Some(error));
                    lemma_batch_error_sticks(before.commands, batch, marks, (i + 1) as nat, n as nat);
                }
                return Err(error);
            },
            Ok(()) => {},
        }
        let id = command.id();
        if registry.contains(id) || batch_contains_id(&commands, i, id) {
            proof {
                lemma_batch_error_sticks(before.commands, batch, marks, (i + 1) as nat, n as nat);
            }
            return Err(CommandError::Duplicate { command: id });
        }
        let action = command.action_name();
        if batch_contains_action(&commands, i, action) || incompatible_action(registry, command).is_some() {
            proof {
                lemma_batch_error_sticks(before.commands, batch, marks, (i + 1) as nat, n as nat);
            }
            return Err(CommandError::IncompatibleAction { command: id, action });
        }
        assert(entry is None);
        i = i + 1;
    }
    proof {
        lemma_batch_fresh(before.commands, batch, marks);
        if one_command_per_action(before.commands) {
            lemma_appending_a_fresh_batch(before.commands, batch);
        }
    }
    register_all(registry, commands, verdicts, Ghost(before.commands));
    Ok(())
}

/// Every command of a batch that passed has a fresh id and a fresh action.
proof fn lemma_batch_fresh(
    registry: Seq<CommandModel>,
    batch: Seq<CommandModel>,
    verdicts: Seq<KeymapVerdict>,
)
    requires
        verdicts.len() == batch.len(),
        batch_error(registry, batch, verdicts, batch.len()) is None,
    ensures
        forall|i: int|
            0 <= i < batch.len() ==> spec_binding_error(#[trigger] batch[i], verdicts[i]) is None
                && command_slot(registry, batch[i].id@) < 0 && !batch_has_id(batch, i, batch[i].id@)
                && !batch_has_action(batch, i, batch[i].action@) && !owned_elsewhere(
                registry,
                batch[i],
            ),
{
    assert forall|i: int| 0 <= i < batch.len() implies spec_binding_error(
        #[trigger] batch[i],
        verdicts[i],
    ) is None && command_slot(registry, batch[i].id@) < 0 && !batch_has_id(batch, i, batch[i].id@)
        && !batch_has_action(batch, i, batch[i].action@) && !owned_elsewhere(
        registry,
        batch[i],
    ) by {
        lemma_batch_passes(registry, batch, verdicts, batch.len(), i);
    }
}

/// A batch that passed its checks keeps one command per action when appended
/// to a registry that had one.
proof fn lemma_appending_a_fresh_batch(registry: Seq<CommandModel>, batch: Seq<CommandModel>)
    requires
        one_command_per_action(registry),
        forall|i: int|
            0 <= i < batch.len() ==> command_slot(registry, (#[trigger] batch[i]).id@) < 0
                && !batch_has_action(batch, i, batch[i].action@) && !owned_elsewhere(
                registry,
                batch[i],
            ),
    ensures
        one_command_per_action(registry + batch),
{
    let all = registry + batch;
    let r = registry.len() as int;
    assert forall|a: int, b: int| 0 <= a < b < all.len() implies (#[trigger] all[a]).action@
        != (#[trigger] all[b]).action@ by {
        if b >= r {
            let j = b - r;
            assert(all[b] == batch[j]);
            if a >= r {
                assert(all[a] == batch[a - r]);
                if batch[a - r].action@ == batch[j].action@ {
                    assert(batch_has_action(batch, j, batch[j].action@));
                }
            } else {
                assert(all[a] == registry[a]);
                lemma_action_slot(registry, batch[j].action@);
                lemma_command_slot(registry, batch[j].id@);
                if registry[a].action@ == batch[j].action@ {
                    let p = action_slot(registry, batch[j].action@);
                    assert(p >= 0);
                    assert(registry[p].id@ == batch[j].id@);
                }
            }
        } else {
            assert(all[a] == registry[a] && all[b] == registry[b]);
        }
    }
}

/// Register every command of a batch that passed its checks, in order.
fn register_all(
    registry: &mut CommandRegistry,
    commands: Vec<RuntimeCommand>,
    verdicts: &[KeymapVerdict],
    Ghost(start): Ghost<Seq<CommandModel>>,
)
    requires
        verdicts@.len() == commands@.len(),
        old(registry)@.commands == start,
        forall|i: int|
            0 <= i < commands@.len() ==> spec_binding_error(
                #[trigger] commands_view(commands@)[i],
                verdicts@[i],
            ) is None && command_slot(start, commands_view(commands@)[i].id@) < 0 && !batch_has_id(
                commands_view(commands@),
                i,
                commands_view(commands@)[i].id@,
            ),
    ensures
        final(registry)@ == (RegistryModel {
            commands: start + commands_view(commands@),
            ..old(registry)@
        }),
{
    let ghost before = registry@;
    let ghost batch = commands_view(commands@);
    let mut rest = commands;
    let mut k: usize = 0;
    assert(commands_view(rest@) =~= batch.skip(0));
    assert(start + batch.take(0) =~= start);
    while rest.len() > 0
        invariant
            verdicts@.len() == batch.len(),
            k <= batch.len(),
            commands_view(rest@) =~= batch.skip(k as int),
            registry@ == (RegistryModel { commands: start + batch.take(k as int), ..before }),
            before.commands == start,
            forall|i: int|
                0 <= i < batch.len() ==> spec_binding_error(#[trigger] batch[i], verdicts@[i]) is None
                    && command_slot(start, batch[i].id@) < 0 && !batch_has_id(batch, i, batch[i].id@),
        decreases rest@.len(),
    {
        let ghost old_rest = rest@;
        let command = rest.remove(0);
        let ghost c = command@;
        proof {
            assert(command == old_rest[0]);
            assert(commands_view(old_rest)[0] == c);
            assert(commands_view(old_rest).len() == old_rest.len());
            assert(k < batch.len());
            assert(batch.skip(k as int)[0] == c);
            assert(batch[k as int] == c);
            let current = start + batch.take(k as int);
            lemma_command_slot(start, c.id@);
            lemma_command_slot(current, c.id@);
            if command_slot(current, c.id@) >= 0 {
                let p = command_slot(current, c.id@);
                if p < start.len() {
                    assert(current[p] == start[p]);
                } else {
                    assert(current[p] == batch[p - start.len()]);
                    assert(batch_has_id(batch, k as int, c.id@));
                }
            }
            assert(spec_register(current, c) == current.push(c));
            assert(current.push(c) =~= start + batch.take(k + 1));
        }
        let registered = registry.register(command, verdicts[k]);
        assert(registered is Ok);
        proof {
            assert(rest@ =~= old_rest.skip(1));
            assert forall|j: int| 0 <= j < rest@.len() implies #[trigger] commands_view(rest@)[j]
                == batch.skip(k + 1)[j] by {
                assert(commands_view(old_rest)[j + 1] == old_rest[j + 1]@);
                assert(batch.skip(k as int)[j + 1] == batch[k + 1 + j]);
            }
            assert(commands_view(rest@) =~= batch.skip(k + 1));
        }
        k = k + 1;
    }
    assert(batch.take(k as int) =~= batch);
}

/// The error replacing a command with `command` meets: its binding's error;
/// else an incompatible action when a command with another id owns its
/// action, or when its id is registered with another action or dispatch
/// scope: a stable id never changes what it names.
pub open spec fn replace_error(
    registry: Seq<CommandModel>,
    command: CommandModel,
    verdict: KeymapVerdict,
) -> Option<CommandError> {
    match spec_binding_error(command, verdict) {
        Some(error) => Some(error),
        None => {
            let p = command_slot(registry, command.id@);
            if owned_elsewhere(registry, command) || (p >= 0 && (registry[p].action@
                != command.action@ || registry[p].scope != command.scope)) {
                Some(CommandError::IncompatibleAction { command: command.id, action: command.action })
            } else {
                None
            }
        },
    }
}

/// The command a replacement registers: the incoming command, followed in
/// its placements by those the registered entry with its id had.
pub open spec fn with_kept_placements(registry: Seq<CommandModel>, command: CommandModel) -> CommandModel {
    let p = command_slot(registry, command.id@);
    CommandModel {
        placements: command.placements + (if p >= 0 {
            registry[p].placements
        } else {
            Seq::empty()
        }),
        ..command
    }
}

fn same_scope(a: CommandScope, b: CommandScope) -> (same: bool)
    ensures
        same == (a == b),
{
    match (a, b) {
        (CommandScope::App, CommandScope::App) => true,
        (CommandScope::Window, CommandScope::Window) => true,
        _ => false,
    }
}

/// A replacement that passed its checks keeps one command per action.
proof fn lemma_replacing_keeps_one_command_per_action(
    registry: Seq<CommandModel>,
    command: CommandModel,
)
    requires
        one_command_per_action(registry),
        !owned_elsewhere(registry, command),
        command_slot(registry, command.id@) >= 0 ==> registry[command_slot(
            registry,
            command.id@,
        )].action@ == command.action@,
    ensures
        one_command_per_action(spec_register(registry, command)),
{
    let p = command_slot(registry, command.id@);
    let after = spec_register(registry, command);
    lemma_command_slot(registry, command.id@);
    lemma_action_slot(registry, command.action@);
    if p >= 0 {
        assert forall|a: int, b: int| 0 <= a < b < after.len() implies (#[trigger] after[a]).action@
            != (#[trigger] after[b]).action@ by {
            assert(after[a].action@ == registry[a].action@);
            assert(after[b].action@ == registry[b].action@);
        }
    } else {
        assert forall|a: int, b: int| 0 <= a < b < after.len() implies (#[trigger] after[a]).action@
            != (#[trigger] after[b]).action@ by {
            if b == registry.len() {
                assert(after[b] == command);
                assert(after[a] == registry[a]);
                if registry[a].action@ == command.action@ {
                    assert(action_slot(registry, command.action@) >= 0);
                }
            } else {
                assert(after[a] == registry[a] && after[b] == registry[b]);
            }
        }
    }
}

/// Replace the registered command with `command`'s id by `command`, or
/// register it when the id is absent; the parsers judged its default binding
/// as `verdict`.
///
/// The replacement keeps the menu placements of the entry it replaces, after
/// its own. It is refused, with the registry unchanged, when the binding does
/// not load, when another id owns its action, or when its id is registered
/// with another action or dispatch scope.
pub fn replace_declared_command(
    registry: &mut CommandRegistry,
    command: RuntimeCommand,
    verdict: KeymapVerdict,
) -> (result: Result<(), CommandError>)
    ensures
        match replace_error(old(registry)@.commands, command@, verdict) {
            Some(error) => result == Err::<(), CommandError>(error) && final(registry)@ == old(
                registry,
            )@,
            None => result is Ok && final(registry)@ == (RegistryModel {
                commands: spec_register(
                    old(registry)@.commands,
                    with_kept_placements(old(registry)@.commands, command@),
                ),
                ..old(registry)@
            }),
        },
        one_command_per_action(old(registry)@.commands) && result is Ok ==> one_command_per_action(
            final(registry)@.commands,
        ),
{
    let ghost before = registry@.commands;
    let ghost incoming = command@;
    match validate_command_binding(&command, verdict) {
        Err(error) => {
            return Err(error);
        },
        Ok(()) => {},
    }
    match incompatible_action(registry, &command) {
        Some(error) => {
            return Err(error);
        },
        None => {},
    }
    let mut command = command;
    match registry.get(command.id()) {
        Some(existing) => {
            if !str_eq(existing.action_name(), command.action_name()) || !same_scope(
                existing.scope(),
                command.scope(),
            ) {
                return Err(
                    CommandError::IncompatibleAction {
                        command: command.id(),
                        action: command.action_name(),
                    },
                );
            }
            let kept = existing.placements();
            let ghost start = command@;
            let mut i: usize = 0;
            while i < kept.len()
                invariant
                    i <= kept@.len(),
                    command@ == (CommandModel {
                        placements: start.placements + kept@.take(i as int),
                        ..start
                    }),
                decreases kept@.len() - i,
            {
                command = command.with_placement(kept[i]);
                assert(start.placements + kept@.take(i + 1) =~= (start.placements + kept@.take(
                    i as int,
                )).push(kept@[i as int]));
                i = i + 1;
            }
            assert(kept@.take(kept@.len() as int) =~= kept@);
        },
        None => {
            assert(incoming.placements + Seq::<MenuPlacement>::empty() =~= incoming.placements);
        },
    }
    assert(command@ == with_kept_placements(before, incoming));
    proof {
        if one_command_per_action(before) {
            lemma_replacing_keeps_one_command_per_action(before, command@);
        }
    }
    let registered = registry.register(command, verdict);
    assert(registered is Ok);
    Ok(())
}

/// Register a new typed command after startup: `command` is lowered for
/// `platform` with no menu placement and installed as a batch of one, so an
/// id already registered, or an action another id owns, is refused with the
/// registry unchanged.
pub fn register_command(
    registry: &mut CommandRegistry,
    command: &DeclaredCommand,
    platform: DesktopPlatform,
    verdict: KeymapVerdict,
) -> (result: Result<(), CommandError>)
    ensures
        match batch_error(
            old(registry)@.commands,
            seq![spec_lowered_command(command@, platform, Seq::empty())],
            seq![verdict],
            1,
        ) {
            Some(error) => result == Err::<(), CommandError>(error) && final(registry)@ == old(
                registry,
            )@,
            None => result is Ok && final(registry)@ == (RegistryModel {
                commands: old(registry)@.commands.push(
                    spec_lowered_command(command@, platform, Seq::empty()),
                ),
                ..old(registry)@
            }),
        },
        one_command_per_action(old(registry)@.commands) && result is Ok ==> one_command_per_action(
            final(registry)@.commands,
        ),
{
    let none: Vec<MenuPlacement> = Vec::new();
    let lowered = command.lower(platform, none.as_slice());
    let mut batch: Vec<RuntimeCommand> = Vec::new();
    batch.push(lowered);
    let verdicts = [verdict];
    assert(commands_view(batch@) =~= seq![spec_lowered_command(command@, platform, Seq::empty())]);
    assert(verdicts@ =~= seq![verdict]);
    assert(old(registry)@.commands + commands_view(batch@) =~= old(registry)@.commands.push(
        spec_lowered_command(command@, platform, Seq::empty()),
    ));
    install_declared_commands(registry, batch, &verdicts)
}

/// Replace a registered typed command, or register it if absent: `command`
/// is lowered for `platform` with no menu placement of its own and keeps
/// those of the entry it replaces. A framework-owned standard id is never
/// replaced; the other refusals are those of [`replace_declared_command`].
pub fn replace_command(
    registry: &mut CommandRegistry,
    command: &DeclaredCommand,
    platform: DesktopPlatform,
    verdict: KeymapVerdict,
) -> (result: Result<(), CommandError>)
    ensures
        spec_is_standard_command(command@.id@) ==> result == Err::<(), CommandError>(
            CommandError::FrameworkOwned { command: command@.id },
        ) && final(registry)@ == old(registry)@,
        !spec_is_standard_command(command@.id@) ==> match replace_error(
            old(registry)@.commands,
            spec_lowered_command(command@, platform, Seq::empty()),
            verdict,
        ) {
            Some(error) => result == Err::<(), CommandError>(error) && final(registry)@ == old(
                registry,
            )@,
            None => result is Ok && final(registry)@ == (RegistryModel {
                commands: spec_register(
                    old(registry)@.commands,
                    with_kept_placements(
                        old(registry)@.commands,
                        spec_lowered_command(command@, platform, Seq::empty()),
                    ),
                ),
                ..old(registry)@
            }),
        },
        one_command_per_action(old(registry)@.commands) && result is Ok ==> one_command_per_action(
            final(registry)@.commands,
        ),
{
    let id = command.id();
    if is_standard_command(id) {
        return Err(CommandError::FrameworkOwned { command: id });
    }
    let none: Vec<MenuPlacement> = Vec::new();
    let lowered = command.lower(platform, none.as_slice());
    assert(none@ =~= Seq::<MenuPlacement>::empty());
    replace_declared_command(registry, lowered, verdict)
}

} // verus!
