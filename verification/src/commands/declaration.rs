//! The whole command and menu vocabulary an application declares: typed
//! commands, section providers, and one menu-bar policy, validated purely for a
//! target platform.
//!
//! Validation reads of each command only its identity and its binding; the
//! toolkit's chord and key-context parsers have already given their verdicts on
//! that binding, which travel with it.

use vstd::prelude::*;

use super::binding::{BindingModel, CommandBinding, ParseVerdicts};
use super::faults::{spec_command_fault_text, CommandFault, CommandFaults};
use crate::text::spec_aggregate_text;
use super::install::{batch_error, install_declared_commands};
use super::registry::{
    has_slot, spec_command_error_text, CommandError, CommandRegistry, KeymapVerdict, RegistryModel,
};
use super::keys::MenuSectionKey;
use super::menu::{key_position, spec_outline_nodes};
use super::menu_model::{
    bare_layout, lemma_no_reference_faults_means_every_reference_resolves,
    lemma_outline_is_well_formed, reference_faults, references_resolve, section_key_texts,
    well_formed_outline,
    spec_outline_with, MenuBar, MenuBarModel, MenuModel, MenuNode, MenuOutline, PolicyModel,
};
use super::projection::{
    every_reference_registered, lemma_projection_keeps_the_declared_order, plan_form, registered,
    shapes,
};
use super::lowering::{lower_menus, outline_placements, spec_lowered_plan, LoweredMenus};
use super::menu::MenuPlan;
use super::standard::{
    command_id_texts, feature_command_ids, feature_commands, framework_command_ids,
    framework_commands, spec_feature_commands, spec_framework_command_ids,
    spec_framework_commands, DesktopPlatform, StandardFeatures,
};
use super::{CommandId, CommandModel, CommandScope, MenuPlacement, RuntimeCommand};

verus! {

/// What one declared command holds: its identity, dispatch scope, action,
/// static label, binding, and the parsers' verdicts on that binding.
pub struct DeclaredCommandModel {
    /// The claimed identity.
    pub id: CommandId,
    /// Where the command dispatches: the application when it has a handler,
    /// the focused window otherwise.
    pub scope: CommandScope,
    /// The stable name of the action it dispatches.
    pub action: &'static str,
    /// The static label.
    pub label: Seq<char>,
    /// The declared binding.
    pub binding: BindingModel,
    /// The parsers' verdicts on that binding.
    pub verdicts: ParseVerdicts,
}

/// One declared typed command: its stable identity, its dispatch scope, the
/// action it dispatches (by its stable name), its static label, its
/// cross-platform binding, and the toolkit parsers' verdicts on that binding.
#[derive(Debug)]
pub struct DeclaredCommand {
    id: CommandId,
    scope: CommandScope,
    action: &'static str,
    label: String,
    binding: CommandBinding,
    verdicts: ParseVerdicts,
}

impl View for DeclaredCommand {
    type V = DeclaredCommandModel;

    closed spec fn view(&self) -> DeclaredCommandModel {
        DeclaredCommandModel {
            id: self.id,
            scope: self.scope,
            action: self.action,
            label: self.label@,
            binding: self.binding@,
            verdicts: self.verdicts,
        }
    }
}

/// Verdicts for a binding with nothing in it to reject.
pub open spec fn accepting() -> ParseVerdicts {
    ParseVerdicts { chords: [true, true, true], context: true }
}

impl DeclaredCommand {
    /// Declare an application-scoped `id` (one with a handler) dispatching
    /// the action named `action`, with `binding`, whose chords and key context
    /// the toolkit parsers judged as `verdicts`; its label is its id.
    pub fn new(
        id: CommandId,
        action: &'static str,
        binding: CommandBinding,
        verdicts: ParseVerdicts,
    ) -> (command: Self)
        ensures
            command@ == (DeclaredCommandModel {
                id,
                scope: CommandScope::App,
                action,
                label: id@,
                binding: binding@,
                verdicts,
            }),
    {
        DeclaredCommand {
            id,
            scope: CommandScope::App,
            action,
            label: id.as_str().to_owned(),
            binding,
            verdicts,
        }
    }

    /// Declare an application-scoped command dispatching the action named
    /// `action`: one with a handler, unbound, labelled with its id.
    pub fn app(id: CommandId, action: &'static str) -> (command: Self)
        ensures
            command@ == (DeclaredCommandModel {
                id,
                scope: CommandScope::App,
                action,
                label: id@,
                binding: BindingModel::unbound(),
                verdicts: accepting(),
            }),
    {
        DeclaredCommand::new(
            id,
            action,
            CommandBinding::unbound(),
            ParseVerdicts { chords: [true, true, true], context: true },
        )
    }

    /// Declare a window-scoped command dispatching the action named `action`:
    /// one the focused view handles, unbound, labelled with its id.
    pub fn window(id: CommandId, action: &'static str) -> (command: Self)
        ensures
            command@ == (DeclaredCommandModel {
                id,
                scope: CommandScope::Window,
                action,
                label: id@,
                binding: BindingModel::unbound(),
                verdicts: accepting(),
            }),
    {
        let command = DeclaredCommand::app(id, action);
        DeclaredCommand { scope: CommandScope::Window, ..command }
    }

    /// Set the static label.
    pub fn label(self, label: &str) -> (command: Self)
        ensures
            command@ == (DeclaredCommandModel { label: label@, ..self@ }),
    {
        DeclaredCommand { label: label.to_owned(), ..self }
    }

    /// Set the binding, whose chords and key context the toolkit parsers
    /// judged as `verdicts`.
    pub fn binding_with(self, binding: CommandBinding, verdicts: ParseVerdicts) -> (command: Self)
        ensures
            command@ == (DeclaredCommandModel { binding: binding@, verdicts, ..self@ }),
    {
        DeclaredCommand { binding, verdicts, ..self }
    }

    /// The stable identity this declaration claims.
    pub fn id(&self) -> (id: CommandId)
        ensures
            id == self@.id,
    {
        self.id
    }

    /// Where the command dispatches.
    pub fn scope(&self) -> (scope: CommandScope)
        ensures
            scope == self@.scope,
    {
        self.scope
    }

    /// The stable name of the action it dispatches.
    pub fn action_name(&self) -> (action: &'static str)
        ensures
            action == self@.action,
    {
        self.action
    }

    /// The declared binding.
    pub fn binding(&self) -> (binding: &CommandBinding)
        ensures
            binding@ == self@.binding,
    {
        &self.binding
    }

    /// Lower the declaration to the runtime command for `platform`: its
    /// label and scope, the platform's chord with the key context when the
    /// platform has one, and every placement lowering gave it, in order.
    pub fn lower(&self, platform: DesktopPlatform, placements: &[MenuPlacement]) -> (command:
        RuntimeCommand)
        ensures
            command@ == spec_lowered_command(self@, platform, placements@),
    {
        let mut command = RuntimeCommand::new(self.id, self.label.as_str(), self.scope, self.action);
        match self.binding.for_platform(platform) {
            Some(keystroke) => {
                command = command.with_binding(keystroke);
                match self.binding.context() {
                    Some(context) => {
                        command = command.with_binding_context(context);
                    },
                    None => {},
                }
            },
            None => {},
        }
        let ghost start = command@;
        assert(placements@.take(0) =~= start.placements);
        let mut i: usize = 0;
        while i < placements.len()
            invariant
                i <= placements@.len(),
                command@ == (CommandModel { placements: placements@.take(i as int), ..start }),
                start.placements.len() == 0,
            decreases placements@.len() - i,
        {
            command = command.with_placement(placements[i]);
            assert(placements@.take(i + 1) =~= placements@.take(i as int).push(placements@[i as int]));
            i = i + 1;
        }
        assert(placements@.take(placements@.len() as int) =~= placements@);
        command
    }
}

/// The runtime command a declaration lowers to for `platform`.
pub open spec fn spec_lowered_command(
    command: DeclaredCommandModel,
    platform: DesktopPlatform,
    placements: Seq<MenuPlacement>,
) -> CommandModel {
    let chord = command.binding.for_platform(platform);
    CommandModel {
        id: command.id,
        label: command.label,
        scope: command.scope,
        action: command.action,
        default_binding: chord,
        binding_context: if chord is Some {
            command.binding.context_of()
        } else {
            None
        },
        placements,
    }
}

/// The declaration as a value.
pub struct CommandsModel {
    /// The commands, in declaration order.
    pub commands: Seq<DeclaredCommandModel>,
    /// The section keys with a declared provider, in declaration order.
    pub sections: Seq<MenuSectionKey>,
    /// The menu-bar policy.
    pub menu_bar: MenuBarModel,
    /// The standard features the declaration core resolved.
    pub features: StandardFeatures,
}

/// The ids of the features' conditional commands: Settings, then About.
pub open spec fn feature_id_texts(features: StandardFeatures) -> Seq<Seq<char>> {
    (if features.settings {
        seq!["app.settings"@]
    } else {
        Seq::empty()
    }) + (if features.about {
        seq!["app.about"@]
    } else {
        Seq::empty()
    })
}

/// The ids in scope before any application command: the framework's, then the
/// features'.
pub open spec fn seeded_id_texts(platform: DesktopPlatform, features: StandardFeatures) -> Seq<
    Seq<char>,
> {
    spec_framework_command_ids(platform) + feature_id_texts(features)
}

/// The ids of the commands.
pub open spec fn declared_id_texts(commands: Seq<DeclaredCommandModel>) -> Seq<Seq<char>> {
    commands.map_values(|c: DeclaredCommandModel| c.id@)
}

/// The faults of the first `n` commands: for each, a duplicate-id fault when
/// its id is already in scope, then its binding faults.
pub open spec fn command_faults(
    seed: Seq<Seq<char>>,
    commands: Seq<DeclaredCommandModel>,
    n: nat,
) -> Seq<CommandFault>
    decreases n,
{
    if n == 0 {
        Seq::empty()
    } else {
        let c = commands[n - 1];
        command_faults(seed, commands, (n - 1) as nat) + (if (seed + declared_id_texts(
            commands.take(n - 1),
        )).contains(c.id@) {
            seq![CommandFault::DuplicateCommand { command: c.id }]
        } else {
            Seq::empty()
        }) + c.binding.faults(c.id, c.verdicts)
    }
}

/// The section slots provided before any declared provider: Appearance, when
/// the theme feature registers it.
pub open spec fn seeded_section_texts(features: StandardFeatures) -> Seq<Seq<char>> {
    if features.theme {
        seq!["appearance"@]
    } else {
        Seq::empty()
    }
}

/// The faults of the first `n` section providers: one per key already
/// provided.
pub open spec fn provider_faults(
    seed: Seq<Seq<char>>,
    sections: Seq<MenuSectionKey>,
    n: nat,
) -> Seq<CommandFault>
    decreases n,
{
    if n == 0 {
        Seq::empty()
    } else {
        provider_faults(seed, sections, (n - 1) as nat) + (if (seed + section_key_texts(
            sections.take(n - 1),
        )).contains(sections[n - 1]@) {
            seq![CommandFault::DuplicateSectionProvider { section: sections[n - 1] }]
        } else {
            Seq::empty()
        })
    }
}

/// Every independent fault of a declaration on `platform`, in declaration
/// order: command faults, provider faults, then either the menu bar's
/// structural faults or, when it resolves, its dangling references.
pub open spec fn spec_declaration_faults(
    declaration: CommandsModel,
    platform: DesktopPlatform,
    features: StandardFeatures,
) -> Seq<CommandFault> {
    let ids = seeded_id_texts(platform, features);
    let sections = seeded_section_texts(features);
    command_faults(ids, declaration.commands, declaration.commands.len()) + provider_faults(
        sections,
        declaration.sections,
        declaration.sections.len(),
    ) + match spec_outline_with(declaration.menu_bar, platform, features) {
        Ok(entries) => reference_faults(
            entries,
            ids + declared_id_texts(declaration.commands),
            sections + section_key_texts(declaration.sections),
        ),
        Err(menu_faults) => menu_faults,
    }
}

/// The validation result: the outline when nothing is faulty.
pub open spec fn spec_validate(
    declaration: CommandsModel,
    platform: DesktopPlatform,
    features: StandardFeatures,
) -> Result<Seq<MenuModel>, Seq<CommandFault>> {
    let faults = spec_declaration_faults(declaration, platform, features);
    if faults.len() == 0 {
        Ok(spec_outline_with(declaration.menu_bar, platform, features)->Ok_0)
    } else {
        Err(faults)
    }
}

/// One application's complete command and menu declaration.
#[derive(Debug)]
pub struct CommandsDeclaration {
    commands: Vec<DeclaredCommand>,
    sections: Vec<MenuSectionKey>,
    menu_bar: MenuBar,
    features: StandardFeatures,
}

/// The models of a sequence of declared commands.
pub open spec fn commands_view(commands: Seq<DeclaredCommand>) -> Seq<DeclaredCommandModel> {
    commands.map_values(|c: DeclaredCommand| c@)
}

impl View for CommandsDeclaration {
    type V = CommandsModel;

    closed spec fn view(&self) -> CommandsModel {
        CommandsModel {
            commands: commands_view(self.commands@),
            sections: self.sections@,
            menu_bar: self.menu_bar@,
            features: self.features,
        }
    }
}

impl CommandsDeclaration {
    /// An empty declaration using the standard menu bar and no standard
    /// features.
    pub fn new() -> (declaration: Self)
        ensures
            declaration@.commands.len() == 0,
            declaration@.sections.len() == 0,
            declaration@.menu_bar == (MenuBarModel {
                policy: PolicyModel::Standard(bare_layout()),
                edit_faults: Seq::empty(),
            }),
            declaration@.features == (StandardFeatures {
                settings: false,
                about: false,
                theme: false,
            }),
    {
        let declaration = CommandsDeclaration {
            commands: Vec::new(),
            sections: Vec::new(),
            menu_bar: MenuBar::standard(),
            features: StandardFeatures { settings: false, about: false, theme: false },
        };
        assert(commands_view(declaration.commands@).len() == 0);
        declaration
    }

    /// Record the resolved standard features.
    pub fn standard_features(self, features: StandardFeatures) -> (declaration: Self)
        ensures
            declaration@ == (CommandsModel { features, ..self@ }),
    {
        let mut declaration = self;
        declaration.features = features;
        declaration
    }

    /// Declare one command.
    pub fn command(self, command: DeclaredCommand) -> (declaration: Self)
        ensures
            declaration@ == (CommandsModel { commands: self@.commands.push(command@), ..self@ }),
    {
        let mut declaration = self;
        declaration.commands.push(command);
        assert(commands_view(declaration.commands@) =~= commands_view(self.commands@).push(
            command@,
        ));
        declaration
    }

    /// Declare the provider for one reserved menu section.
    pub fn section(self, key: MenuSectionKey) -> (declaration: Self)
        ensures
            declaration@ == (CommandsModel { sections: self@.sections.push(key), ..self@ }),
    {
        let mut declaration = self;
        declaration.sections.push(key);
        declaration
    }

    /// Set the menu-bar policy.
    pub fn menu_bar(self, menu_bar: MenuBar) -> (declaration: Self)
        ensures
            declaration@ == (CommandsModel { menu_bar: menu_bar@, ..self@ }),
    {
        let mut declaration = self;
        declaration.menu_bar = menu_bar;
        declaration
    }

    /// Validate the whole declaration for one platform with its recorded
    /// features and return the resolved outline.
    pub fn validate(&self, platform: DesktopPlatform) -> (result: Result<MenuOutline, CommandFaults>)
        ensures
            match result {
                Ok(outline) => spec_validate(self@, platform, self@.features) == Ok::<
                    Seq<MenuModel>,
                    Seq<CommandFault>,
                >(outline@),
                Err(faults) => spec_validate(self@, platform, self@.features) == Err::<
                    Seq<MenuModel>,
                    Seq<CommandFault>,
                >(faults@),
            },
    {
        self.validate_with(platform, self.features)
    }

    /// Validate against features the caller resolved, without recording them.
    ///
    /// Pure: the result depends on the declaration and the `platform`
    /// argument alone, never on the host.
    pub fn validate_with(&self, platform: DesktopPlatform, features: StandardFeatures) -> (result:
        Result<MenuOutline, CommandFaults>)
        ensures
            match result {
                Ok(outline) => spec_validate(self@, platform, features) == Ok::<
                    Seq<MenuModel>,
                    Seq<CommandFault>,
                >(outline@),
                Err(faults) => spec_validate(self@, platform, features) == Err::<
                    Seq<MenuModel>,
                    Seq<CommandFault>,
                >(faults@),
            },
    {
        let ghost model = self@;
        let ghost seed = seeded_id_texts(platform, features);
        let mut faults: Vec<CommandFault> = Vec::new();
        let mut ids = framework_command_ids(platform);
        let mut extra = feature_command_ids(features);
        ids.append(&mut extra);
        assert(command_id_texts(ids@) =~= seed);
        let mut i: usize = 0;
        while i < self.commands.len()
            invariant
                model == self@,
                i <= self.commands@.len(),
                command_id_texts(ids@) == seed + declared_id_texts(model.commands.take(i as int)),
                faults@ == command_faults(seed, model.commands, i as nat),
            decreases self.commands@.len() - i,
        {
            let command = &self.commands[i];
            assert(model.commands[i as int] == command@);
            let ghost before = faults@;
            if contains_command(&ids, command.id) {
                faults.push(CommandFault::DuplicateCommand { command: command.id });
            }
            let ghost ids_before = ids@;
            ids.push(command.id);
            command.binding.validate(command.id, command.verdicts, &mut faults);
            assert(model.commands.take(i + 1) =~= model.commands.take(i as int).push(command@));
            assert(command_id_texts(ids@) =~= command_id_texts(ids_before).push(command.id@));
            i = i + 1;
        }
        assert(model.commands.take(i as int) =~= model.commands);
        let ghost section_seed = seeded_section_texts(features);
        let ghost after_commands = faults@;
        let mut sections: Vec<MenuSectionKey> = Vec::new();
        if features.theme {
            sections.push(MenuSectionKey::THEME());
        }
        assert(section_key_texts(sections@) =~= section_seed);
        let mut j: usize = 0;
        while j < self.sections.len()
            invariant
                model == self@,
                j <= self.sections@.len(),
                section_key_texts(sections@) == section_seed + section_key_texts(
                    model.sections.take(j as int),
                ),
                faults@ == after_commands + provider_faults(section_seed, model.sections, j as nat),
            decreases self.sections@.len() - j,
        {
            let key = self.sections[j];
            let ghost before = faults@;
            if contains_section(&sections, key) {
                faults.push(CommandFault::DuplicateSectionProvider { section: key });
            }
            let ghost sections_before = sections@;
            sections.push(key);
            assert(model.sections.take(j + 1) =~= model.sections.take(j as int).push(key));
            assert(section_key_texts(sections@) =~= section_key_texts(sections_before).push(key@));
            assert(faults@ =~= after_commands + provider_faults(
                section_seed,
                model.sections,
                (j + 1) as nat,
            ));
            j = j + 1;
        }
        assert(model.sections.take(j as int) =~= model.sections);
        let outline = match self.menu_bar.outline_with(platform, features) {
            Ok(outline) => {
                MenuBar::validate_references(&outline, ids.as_slice(), sections.as_slice(), &mut faults);
                Some(outline)
            },
            Err(menu_faults) => {
                let mut menu_faults = menu_faults;
                faults.append(&mut menu_faults);
                None
            },
        };
        assert(faults@ == spec_declaration_faults(model, platform, features));
        match outline {
            Some(outline) => match CommandFaults::new(faults) {
                Some(collected) => Err(collected),
                None => Ok(outline),
            },
            None => Err(CommandFaults::from_nonempty(faults)),
        }
    }
}

/// Whether some id in `ids` has the text of `id`.
fn contains_command(ids: &Vec<CommandId>, id: CommandId) -> (found: bool)
    ensures
        found == command_id_texts(ids@).contains(id@),
{
    let mut i: usize = 0;
    while i < ids.len()
        invariant
            i <= ids@.len(),
            forall|j: int| 0 <= j < i ==> (#[trigger] ids@[j])@ != id@,
        decreases ids@.len() - i,
    {
        if ids[i].same(&id) {
            assert(command_id_texts(ids@)[i as int] == id@);
            return true;
        }
        i = i + 1;
    }
    assert(!command_id_texts(ids@).contains(id@));
    false
}

/// Whether some key in `sections` has the text of `key`.
fn contains_section(sections: &Vec<MenuSectionKey>, key: MenuSectionKey) -> (found: bool)
    ensures
        found == section_key_texts(sections@).contains(key@),
{
    let mut i: usize = 0;
    while i < sections.len()
        invariant
            i <= sections@.len(),
            forall|j: int| 0 <= j < i ==> (#[trigger] sections@[j])@ != key@,
        decreases sections@.len() - i,
    {
        if sections[i].same(key) {
            assert(section_key_texts(sections@)[i as int] == key@);
            return true;
        }
        i = i + 1;
    }
    assert(!section_key_texts(sections@).contains(key@));
    false
}

/// A declaration that validates is closed: every command its menus reference
/// is a framework, feature, or application command, and every section slot
/// has a provider. Menus are projections of declared commands, never a
/// second declaration of behavior.
pub proof fn lemma_a_valid_declaration_references_only_declared_commands(
    declaration: CommandsModel,
    platform: DesktopPlatform,
    features: StandardFeatures,
)
    ensures
        spec_validate(declaration, platform, features) matches Ok(entries) ==> references_resolve(
            entries,
            seeded_id_texts(platform, features) + declared_id_texts(declaration.commands),
            seeded_section_texts(features) + section_key_texts(declaration.sections),
        ),
{
    let faults = spec_declaration_faults(declaration, platform, features);
    if faults.len() == 0 {
        match spec_outline_with(declaration.menu_bar, platform, features) {
            Ok(entries) => {
                let ids = seeded_id_texts(platform, features) + declared_id_texts(
                    declaration.commands,
                );
                let sections = seeded_section_texts(features) + section_key_texts(
                    declaration.sections,
                );
                assert(reference_faults(entries, ids, sections).len() == 0);
                lemma_no_reference_faults_means_every_reference_resolves(entries, ids, sections);
            },
            Err(_) => {},
        }
    }
}

/// `command` with `placements` appended to its own.
pub open spec fn with_placements(command: CommandModel, placements: Seq<MenuPlacement>) -> CommandModel {
    CommandModel { placements: command.placements + placements, ..command }
}

/// The standard commands, each given every placement the outline lowers for
/// it.
pub open spec fn placed_commands(commands: Seq<CommandModel>, menus: Seq<MenuModel>) -> Seq<
    CommandModel,
> {
    commands.map_values(|c: CommandModel| with_placements(c, outline_placements(menus, c.id@)))
}

/// The declared commands lowered for `platform`, each with every placement the
/// outline lowers for it.
pub open spec fn lowered_declared(
    commands: Seq<DeclaredCommandModel>,
    platform: DesktopPlatform,
    menus: Seq<MenuModel>,
) -> Seq<CommandModel> {
    commands.map_values(
        |d: DeclaredCommandModel| spec_lowered_command(d, platform, outline_placements(menus, d.id@)),
    )
}

/// The runtime commands installing a declaration for `platform` on a build
/// for `host` registers, in order: the framework's standard commands, the
/// resolved feature commands, then every declared command; each with the
/// placements the outline lowers for it.
pub open spec fn spec_install_commands(
    declaration: CommandsModel,
    platform: DesktopPlatform,
    host: DesktopPlatform,
    menus: Seq<MenuModel>,
) -> Seq<CommandModel> {
    placed_commands(
        spec_framework_commands(platform, host) + spec_feature_commands(platform, declaration.features),
        menus,
    ) + lowered_declared(declaration.commands, platform, menus)
}

/// `command` with every placement of `id` lowering recorded, appended.
fn place(command: RuntimeCommand, lowered: &LoweredMenus) -> (placed: RuntimeCommand)
    ensures
        placed@ == with_placements(command@, lowered.placements_of(command@.id@)),
{
    let placements = lowered.placements(command.id());
    let ghost start = command@;
    let mut placed = command;
    assert(start.placements + placements@.take(0) =~= start.placements);
    let mut i: usize = 0;
    while i < placements.len()
        invariant
            i <= placements@.len(),
            placed@ == (CommandModel { placements: start.placements + placements@.take(i as int), ..start }),
        decreases placements@.len() - i,
    {
        placed = placed.with_placement(placements[i]);
        assert(start.placements + placements@.take(i + 1) =~= (start.placements + placements@.take(
            i as int,
        )).push(placements@[i as int]));
        i = i + 1;
    }
    assert(placements@.take(placements@.len() as int) =~= placements@);
    placed
}

/// Each command with every placement the outline lowers for it appended.
fn place_all(
    standard: Vec<RuntimeCommand>,
    lowered: &LoweredMenus,
    Ghost(menus): Ghost<Seq<MenuModel>>,
) -> (placed: Vec<RuntimeCommand>)
    requires
        forall|t: Seq<char>| #[trigger] lowered.placements_of(t) == outline_placements(menus, t),
    ensures
        super::commands_view(placed@) == placed_commands(super::commands_view(standard@), menus),
{
    let ghost bare = super::commands_view(standard@);
    let mut rest = standard;
    let mut commands: Vec<RuntimeCommand> = Vec::new();
    while rest.len() > 0
        invariant
            bare.len() == commands@.len() + rest@.len(),
            super::commands_view(rest@) == bare.skip(commands@.len() as int),
            super::commands_view(commands@) == placed_commands(bare.take(commands@.len() as int), menus),
            forall|t: Seq<char>| #[trigger] lowered.placements_of(t) == outline_placements(menus, t),
        decreases rest@.len(),
    {
        let ghost k = commands@.len() as int;
        assert(super::commands_view(rest@)[0] == rest@[0]@);
        assert(bare.skip(k)[0] == bare[k]);
        let ghost old_rest = rest@;
        let command = rest.remove(0);
        assert forall|j: int| 0 <= j < rest@.len() implies (#[trigger] rest@[j])@ == bare[k + 1
            + j] by {
            assert(rest@[j] == old_rest[j + 1]);
            assert(super::commands_view(old_rest)[j + 1] == old_rest[j + 1]@);
            assert(bare.skip(k)[j + 1] == bare[k + 1 + j]);
        }
        assert(command@ == bare[k]);
        let placed = place(command, lowered);
        let ghost placed_model = placed@;
        let ghost before = commands@;
        commands.push(placed);
        assert(super::commands_view(commands@) =~= super::commands_view(before).push(placed_model));
        assert(placed_commands(bare.take(k + 1), menus) =~= placed_commands(bare.take(k), menus).push(
            with_placements(bare[k], outline_placements(menus, bare[k].id@)),
        ));
        assert(super::commands_view(rest@) =~= bare.skip(k + 1));
    }
    assert(bare.take(bare.len() as int) =~= bare);
    commands
}

impl CommandsDeclaration {
    /// Every declared command lowered for `platform` with its placements,
    /// appended to `commands`.
    fn lower_declared(
        &self,
        platform: DesktopPlatform,
        lowered: &LoweredMenus,
        commands: &mut Vec<RuntimeCommand>,
        Ghost(menus): Ghost<Seq<MenuModel>>,
    )
        requires
            forall|t: Seq<char>| #[trigger] lowered.placements_of(t) == outline_placements(menus, t),
        ensures
            super::commands_view(final(commands)@) == super::commands_view(old(commands)@)
                + lowered_declared(self@.commands, platform, menus),
    {
        let ghost start = super::commands_view(commands@);
        let ghost declared = self@.commands;
        assert(start + lowered_declared(declared.take(0), platform, menus) =~= start);
        let mut i: usize = 0;
        while i < self.commands.len()
            invariant
                declared == self@.commands,
                i <= declared.len(),
                super::commands_view(commands@) == start + lowered_declared(
                    declared.take(i as int),
                    platform,
                    menus,
                ),
                forall|t: Seq<char>| #[trigger] lowered.placements_of(t) == outline_placements(menus, t),
            decreases declared.len() - i,
        {
            let command = &self.commands[i];
            assert(declared[i as int] == command@);
            let placements = lowered.placements(command.id());
            assert(placements@ == outline_placements(menus, command@.id@));
            let runtime = command.lower(platform, placements.as_slice());
            let ghost runtime_model = runtime@;
            let ghost before = commands@;
            commands.push(runtime);
            assert(super::commands_view(commands@) =~= super::commands_view(before).push(runtime_model));
            assert(lowered_declared(declared.take(i + 1), platform, menus) =~= lowered_declared(
                declared.take(i as int),
                platform,
                menus,
            ).push(spec_lowered_command(command@, platform, outline_placements(menus, command@.id@))));
            assert(super::commands_view(commands@) =~= start + lowered_declared(
                declared.take(i + 1),
                platform,
                menus,
            ));
            i = i + 1;
        }
        assert(declared.take(declared.len() as int) =~= declared);
    }

    /// Validate for `platform`, then lower without touching any runtime: the
    /// plan the menu module installs, and every runtime command to register,
    /// in order (the framework's standard commands a build for `host` has,
    /// the resolved feature commands, then each declared command), each
    /// carrying every placement the outline lowers for it. A faulty
    /// declaration lowers nothing.
    #[verifier::spinoff_prover]
    #[verifier::rlimit(60)]
    pub fn lower_for_install(&self, platform: DesktopPlatform, host: DesktopPlatform) -> (result: Result<
        (MenuPlan, Vec<RuntimeCommand>),
        CommandFaults,
    >)
        ensures
            match spec_validate(self@, platform, self@.features) {
                Ok(menus) => match result {
                    Ok((plan, commands)) => plan@ == spec_lowered_plan(menus)
                        && super::commands_view(commands@) == spec_install_commands(self@, platform, host,
                        menus,
                    ),
                    Err(_) => false,
                },
                Err(faults) => match result {
                    Ok(_) => false,
                    Err(found) => found@ == faults,
                },
            },
    {
        let outline = match self.validate(platform) {
            Ok(outline) => outline,
            Err(faults) => {
                return Err(faults);
            },
        };
        let ghost menus = outline@;
        let lowered = lower_menus(&outline);
        let mut standard = framework_commands(platform, host);
        let mut extra = feature_commands(platform, self.features);
        standard.append(&mut extra);
        assert(super::commands_view(standard@) =~= spec_framework_commands(platform, host)
            + spec_feature_commands(platform, self@.features));
        let mut commands = place_all(standard, &lowered, Ghost(menus));
        self.lower_declared(platform, &lowered, &mut commands, Ghost(menus));
        Ok((lowered.into_plan(), commands))
    }
}

/// The ids of the framework's standard commands, in installation order.
pub open spec fn framework_install_ids(platform: DesktopPlatform, host: DesktopPlatform) -> Seq<
    Seq<char>,
> {
    let extras = platform == DesktopPlatform::MacOs && host == DesktopPlatform::MacOs;
    (if extras {
        seq!["app.hide"@, "app.hide_others"@, "app.show_all"@]
    } else {
        Seq::empty()
    }) + seq![
        "app.quit"@,
        "edit.undo"@,
        "edit.redo"@,
        "edit.cut"@,
        "edit.copy"@,
        "edit.paste"@,
        "edit.delete"@,
        "edit.delete_previous_word"@,
        "edit.delete_next_word"@,
        "edit.find"@,
        "edit.select_all"@,
    ] + (if extras {
        seq!["window.minimize"@, "window.zoom"@]
    } else {
        Seq::empty()
    }) + seq!["window.close"@]
}

/// The framework's and the features' commands carry, in installation order,
/// the framework's ids and then the features' ids, and no placement yet.
proof fn lemma_standard_commands_carry_their_ids(
    platform: DesktopPlatform,
    host: DesktopPlatform,
    features: StandardFeatures,
)
    ensures
        (spec_framework_commands(platform, host) + spec_feature_commands(platform, features)).map_values(
            |c: CommandModel| c.id@,
        ) == framework_install_ids(platform, host) + feature_id_texts(features),
        forall|k: int|
            0 <= k < (spec_framework_commands(platform, host) + spec_feature_commands(platform, features)).len()
                ==> (#[trigger] (spec_framework_commands(platform, host) + spec_feature_commands(
                platform,
                features,
            ))[k]).placements.len() == 0,
{
    CommandId::lemma_literal("app.quit");
    CommandId::lemma_literal("app.hide");
    CommandId::lemma_literal("app.hide_others");
    CommandId::lemma_literal("app.show_all");
    CommandId::lemma_literal("edit.undo");
    CommandId::lemma_literal("edit.redo");
    CommandId::lemma_literal("edit.cut");
    CommandId::lemma_literal("edit.copy");
    CommandId::lemma_literal("edit.paste");
    CommandId::lemma_literal("edit.delete");
    CommandId::lemma_literal("edit.delete_previous_word");
    CommandId::lemma_literal("edit.delete_next_word");
    CommandId::lemma_literal("edit.find");
    CommandId::lemma_literal("edit.select_all");
    CommandId::lemma_literal("window.minimize");
    CommandId::lemma_literal("window.zoom");
    CommandId::lemma_literal("window.close");
    CommandId::lemma_literal("app.settings");
    CommandId::lemma_literal("app.about");
    let all = spec_framework_commands(platform, host) + spec_feature_commands(platform, features);
    let framework = spec_framework_commands(platform, host);
    let feature = spec_feature_commands(platform, features);
    assert(framework.map_values(|c: CommandModel| c.id@) =~= framework_install_ids(platform, host));
    assert(feature.map_values(|c: CommandModel| c.id@) =~= feature_id_texts(features));
    assert(all.map_values(|c: CommandModel| c.id@) =~= framework.map_values(|c: CommandModel| c.id@)
        + feature.map_values(|c: CommandModel| c.id@));
    assert forall|k: int| 0 <= k < all.len() implies (#[trigger] all[k]).placements.len() == 0 by {
        if k < framework.len() {
            assert(all[k] == framework[k]);
        } else {
            assert(all[k] == feature[k - framework.len()]);
        }
    }
}

/// What tells the framework's ids apart: length, first character, and the
/// characters at positions four and five.
spec fn fingerprint(id: Seq<char>) -> (int, char, char, char) {
    (id.len() as int, id[0], id[4], id[5])
}

/// The installed framework ids never repeat and are all seeded ids; when the
/// build has every command the platform's vocabulary names, the installation
/// order lists exactly the seeded ids.
proof fn lemma_seeded_ids_are_distinct(
    platform: DesktopPlatform,
    host: DesktopPlatform,
    features: StandardFeatures,
)
    ensures
        (framework_install_ids(platform, host) + feature_id_texts(features)).no_duplicates(),
        forall|t: Seq<char>|
            (framework_install_ids(platform, host) + feature_id_texts(features)).contains(t)
                ==> seeded_id_texts(platform, features).contains(t),
        (platform == DesktopPlatform::MacOs ==> host == DesktopPlatform::MacOs) ==> forall|
            t: Seq<char>,
        |
            (framework_install_ids(platform, host) + feature_id_texts(features)).contains(t)
                <==> seeded_id_texts(platform, features).contains(t),
{
    reveal_strlit("app.quit");
    reveal_strlit("app.hide");
    reveal_strlit("app.hide_others");
    reveal_strlit("app.show_all");
    reveal_strlit("edit.undo");
    reveal_strlit("edit.redo");
    reveal_strlit("edit.cut");
    reveal_strlit("edit.copy");
    reveal_strlit("edit.paste");
    reveal_strlit("edit.delete");
    reveal_strlit("edit.delete_previous_word");
    reveal_strlit("edit.delete_next_word");
    reveal_strlit("edit.find");
    reveal_strlit("edit.select_all");
    reveal_strlit("window.minimize");
    reveal_strlit("window.zoom");
    reveal_strlit("window.close");
    reveal_strlit("app.settings");
    reveal_strlit("app.about");
    let ordered = framework_install_ids(platform, host) + feature_id_texts(features);
    let seeded = seeded_id_texts(platform, features);
    assert forall|i: int, j: int| 0 <= i < ordered.len() && 0 <= j < ordered.len() && i != j implies #[trigger] ordered[i]
        != #[trigger] ordered[j] by {
        let a = ordered[i];
        let b = ordered[j];
        assert(fingerprint(a) != fingerprint(b));
    }
    if platform != DesktopPlatform::MacOs {
        assert(ordered =~= seeded);
    } else if host == DesktopPlatform::MacOs {
        assert(ordered.len() == seeded.len());
        assert forall|k: int| 0 <= k < ordered.len() implies #[trigger] seeded.contains(ordered[k]) by {
            if k < 3 {
                assert(seeded[k + 1] == ordered[k]);
            } else if k == 3 {
                assert(seeded[0] == ordered[k]);
            } else {
                assert(seeded[k] == ordered[k]);
            }
        }
        assert forall|k: int| 0 <= k < seeded.len() implies #[trigger] ordered.contains(seeded[k]) by {
            if k == 0 {
                assert(ordered[3] == seeded[k]);
            } else if k <= 3 {
                assert(ordered[k - 1] == seeded[k]);
            } else {
                assert(ordered[k] == seeded[k]);
            }
        }
        assert forall|t: Seq<char>| ordered.contains(t) <==> seeded.contains(t) by {
            if ordered.contains(t) {
                let k = choose|k: int| 0 <= k < ordered.len() && ordered[k] == t;
                assert(seeded.contains(ordered[k]));
            }
            if seeded.contains(t) {
                let k = choose|k: int| 0 <= k < seeded.len() && seeded[k] == t;
                assert(ordered.contains(seeded[k]));
            }
        }
    } else {
        assert(ordered.len() + 5 == seeded.len());
        assert forall|k: int| 0 <= k < ordered.len() implies #[trigger] seeded.contains(ordered[k]) by {
            if k == 0 {
                assert(seeded[0] == ordered[k]);
            } else if k <= 10 {
                assert(seeded[k + 3] == ordered[k]);
            } else {
                assert(seeded[k + 5] == ordered[k]);
            }
        }
    }
    assert forall|t: Seq<char>| ordered.contains(t) implies seeded.contains(t) by {
        let k = choose|k: int| 0 <= k < ordered.len() && ordered[k] == t;
        assert(seeded.contains(ordered[k]));
    }
}

/// A declaration without command faults repeats no id: each declared id is
/// neither seeded nor declared earlier.
/// One more command adds its duplicate-id fault, when it repeats an id in
/// scope, to the faults of the commands before it.
proof fn lemma_command_faults_step(seed: Seq<Seq<char>>, commands: Seq<DeclaredCommandModel>, m: nat)
    requires
        m < commands.len(),
    ensures
        command_faults(seed, commands, m + 1).len() >= command_faults(seed, commands, m).len() + if (seed
            + declared_id_texts(commands.take(m as int))).contains(commands[m as int].id@) {
            1int
        } else {
            0int
        },
{
    let n = (m + 1) as nat;
    assert((n - 1) as nat == m);
}

/// A declaration without command faults repeats no id: each declared id is
/// neither seeded nor declared earlier.
#[verifier::spinoff_prover]
#[verifier::rlimit(40)]
proof fn lemma_no_command_faults_means_fresh_ids(
    seed: Seq<Seq<char>>,
    commands: Seq<DeclaredCommandModel>,
    n: nat,
    k: int,
)
    requires
        0 <= k < n <= commands.len(),
        command_faults(seed, commands, n).len() == 0,
    ensures
        !(seed + declared_id_texts(commands.take(k))).contains(commands[k].id@),
    decreases n,
{
    let m = (n - 1) as nat;
    lemma_command_faults_step(seed, commands, m);
    assert(m + 1 == n);
    if k < m {
        lemma_no_command_faults_means_fresh_ids(seed, commands, m, k);
    }
}

/// What a valid declaration guarantees of its outline and its ids: the
/// outline is well formed, every command it references is seeded or declared,
/// and no declared id repeats a seeded or an earlier declared one.
proof fn lemma_valid_declaration_facts(declaration: CommandsModel, platform: DesktopPlatform)
    requires
        spec_validate(declaration, platform, declaration.features) is Ok,
    ensures
        well_formed_outline(spec_validate(declaration, platform, declaration.features)->Ok_0),
        references_resolve(
            spec_validate(declaration, platform, declaration.features)->Ok_0,
            seeded_id_texts(platform, declaration.features) + declared_id_texts(declaration.commands),
            seeded_section_texts(declaration.features) + section_key_texts(declaration.sections),
        ),
        command_faults(
            seeded_id_texts(platform, declaration.features),
            declaration.commands,
            declaration.commands.len(),
        ).len() == 0,
{
    let features = declaration.features;
    let menus = spec_validate(declaration, platform, features)->Ok_0;
    let seed = seeded_id_texts(platform, features);
    let sections = seeded_section_texts(features);
    let faults = spec_declaration_faults(declaration, platform, features);
    assert(faults.len() == 0);
    let cf = command_faults(seed, declaration.commands, declaration.commands.len());
    let pf = provider_faults(sections, declaration.sections, declaration.sections.len());
    assert(spec_outline_with(declaration.menu_bar, platform, features) is Ok) by {
        if let Err(menu_faults) = spec_outline_with(declaration.menu_bar, platform, features) {
            assert(faults == cf + pf + menu_faults);
        }
    }
    let all_ids = seed + declared_id_texts(declaration.commands);
    let all_sections = sections + section_key_texts(declaration.sections);
    assert(faults == cf + pf + reference_faults(menus, all_ids, all_sections));
    lemma_outline_is_well_formed(declaration.menu_bar, platform, features);
    lemma_no_reference_faults_means_every_reference_resolves(menus, all_ids, all_sections);
}

/// Each command installing registers carries its id and exactly the
/// placements lowering gave that id: the standard commands carry the
/// framework's and the features' ids in installation order, the declared
/// commands their declared ids.
proof fn lemma_install_commands_shape(
    declaration: CommandsModel,
    platform: DesktopPlatform,
    host: DesktopPlatform,
    menus: Seq<MenuModel>,
)
    ensures
        ({
            let commands = spec_install_commands(declaration, platform, host, menus);
            let ordered = framework_install_ids(platform, host) + feature_id_texts(declaration.features);
            &&& commands.len() == ordered.len() + declaration.commands.len()
            &&& forall|j: int|
                0 <= j < commands.len() ==> (j < ordered.len() ==> (#[trigger] commands[j]).id@
                    == ordered[j]) && (j >= ordered.len() ==> commands[j].id@
                    == declaration.commands[j - ordered.len()].id@) && commands[j].placements
                    == outline_placements(menus, commands[j].id@)
        }),
{
    let features = declaration.features;
    lemma_standard_commands_carry_their_ids(platform, host, features);
    let bare = spec_framework_commands(platform, host) + spec_feature_commands(platform, features);
    let ordered = framework_install_ids(platform, host) + feature_id_texts(features);
    let declared = declaration.commands;
    let commands = spec_install_commands(declaration, platform, host, menus);
    let placed = placed_commands(bare, menus);
    let lowered = lowered_declared(declared, platform, menus);
    assert(commands == placed + lowered);
    let nb = bare.len() as int;
    assert(ordered.len() == nb) by {
        assert(bare.map_values(|c: CommandModel| c.id@).len() == nb);
    }
    assert forall|j: int| 0 <= j < commands.len() implies (j < nb ==> (#[trigger] commands[j]).id@
        == ordered[j]) && (j >= nb ==> commands[j].id@ == declared[j - nb].id@)
        && commands[j].placements == outline_placements(menus, commands[j].id@) by {
        if j < nb {
            assert(commands[j] == placed[j]);
            assert(bare.map_values(|c: CommandModel| c.id@)[j] == bare[j].id@);
            assert(bare[j].placements.len() == 0);
            assert(bare[j].placements + outline_placements(menus, bare[j].id@) =~= outline_placements(
                menus,
                bare[j].id@,
            ));
        } else {
            assert(commands[j] == lowered[j - nb]);
        }
    }
}

/// The commands a valid declaration installs carry pairwise distinct ids.
#[verifier::spinoff_prover]
#[verifier::rlimit(60)]
proof fn lemma_install_ids_are_distinct(
    declaration: CommandsModel,
    platform: DesktopPlatform,
    host: DesktopPlatform,
)
    requires
        spec_validate(declaration, platform, declaration.features) is Ok,
    ensures
        ({
            let commands = spec_install_commands(declaration, platform, host,
                spec_validate(declaration, platform, declaration.features)->Ok_0,
            );
            forall|a: int, b: int|
                0 <= a < b < commands.len() ==> (#[trigger] commands[a]).id@
                    != (#[trigger] commands[b]).id@
        }),
{
    let features = declaration.features;
    let menus = spec_validate(declaration, platform, features)->Ok_0;
    let seed = seeded_id_texts(platform, features);
    let declared = declaration.commands;
    let ordered = framework_install_ids(platform, host) + feature_id_texts(features);
    assert(command_faults(seed, declared, declared.len()).len() == 0) by {
        lemma_valid_declaration_facts(declaration, platform);
    }
    assert(ordered.no_duplicates() && forall|t: Seq<char>| #[trigger] ordered.contains(t)
        ==> seed.contains(t)) by {
        lemma_seeded_ids_are_distinct(platform, host, features);
    }
    lemma_install_commands_shape(declaration, platform, host, menus);
    let commands = spec_install_commands(declaration, platform, host, menus);
    let nb = ordered.len() as int;
    assert forall|a: int, b: int| 0 <= a < b < commands.len() implies (#[trigger] commands[a]).id@
        != (#[trigger] commands[b]).id@ by {
        if b < nb {
            assert(ordered[a] != ordered[b]);
        } else {
            let kb = b - nb;
            lemma_no_command_faults_means_fresh_ids(seed, declared, declared.len(), kb);
            if a < nb {
                assert(ordered.contains(ordered[a]));
                assert(seed.contains(ordered[a]));
                let s = choose|s: int| 0 <= s < seed.len() && seed[s] == ordered[a];
                assert((seed + declared_id_texts(declared.take(kb)))[s] == seed[s]);
            } else {
                let ka = a - nb;
                assert((seed + declared_id_texts(declared.take(kb)))[seed.len() + ka]
                    == declared[ka].id@);
            }
        }
    }
}

/// Every command a menu of a valid declaration references is among the
/// commands the declaration installs, when the build has every command the
/// platform's vocabulary names.
#[verifier::spinoff_prover]
#[verifier::rlimit(40)]
proof fn lemma_install_registers_references(
    declaration: CommandsModel,
    platform: DesktopPlatform,
    host: DesktopPlatform,
    i: int,
)
    requires
        platform == DesktopPlatform::MacOs ==> host == DesktopPlatform::MacOs,
        spec_validate(declaration, platform, declaration.features) is Ok,
        0 <= i < spec_validate(declaration, platform, declaration.features)->Ok_0.len(),
    ensures
        every_reference_registered(
            spec_validate(declaration, platform, declaration.features)->Ok_0[i].nodes,
            spec_install_commands(declaration, platform, host,
                spec_validate(declaration, platform, declaration.features)->Ok_0,
            ),
        ),
{
    let features = declaration.features;
    let menus = spec_validate(declaration, platform, features)->Ok_0;
    let seed = seeded_id_texts(platform, features);
    let declared = declaration.commands;
    let all_ids = seed + declared_id_texts(declared);
    lemma_valid_declaration_facts(declaration, platform);
    lemma_install_commands_shape(declaration, platform, host, menus);
    lemma_seeded_ids_are_distinct(platform, host, features);
    let ordered = framework_install_ids(platform, host) + feature_id_texts(features);
    let commands = spec_install_commands(declaration, platform, host, menus);
    let nb = ordered.len() as int;
    let nodes = menus[i].nodes;
    assert forall|x: int| 0 <= x < nodes.len() implies match #[trigger] nodes[x] {
        MenuNode::Command(c) => registered(commands, c),
        _ => true,
    } by {
        if let MenuNode::Command(c) = nodes[x] {
            assert(all_ids.contains(c@)) by {
                assert(menus[i].nodes[x] == nodes[x]);
            }
            let k = choose|k: int| 0 <= k < all_ids.len() && all_ids[k] == c@;
            if k < seed.len() {
                assert(seed.contains(c@));
                assert(ordered.contains(c@));
                let j = choose|j: int| 0 <= j < ordered.len() && ordered[j] == c@;
                assert(commands[j].id@ == c@);
            } else {
                let kd = k - seed.len();
                assert(declared_id_texts(declared)[kd] == declared[kd].id@);
                assert(commands[nb + kd].id@ == c@);
            }
        }
    }
}

/// Installing a valid declaration and projecting the plan against the
/// commands it registers shows every menu-bar menu of fewer than 65535 nodes
/// with its declared nodes, in the declared order: each command, section and
/// Services node where it was declared, and a separator exactly where one was
/// declared. This holds on a build for the platform the declaration is
/// installed for, or for any other platform than macOS: a non-macOS build has
/// no macOS-only commands to register for a macOS menu bar.
pub proof fn lemma_installing_shows_the_declared_menus(
    declaration: CommandsModel,
    platform: DesktopPlatform,
    host: DesktopPlatform,
    i: int,
)
    requires
        platform == DesktopPlatform::MacOs ==> host == DesktopPlatform::MacOs,
        spec_validate(declaration, platform, declaration.features) is Ok,
        0 <= i < spec_validate(declaration, platform, declaration.features)->Ok_0.len(),
        spec_validate(declaration, platform, declaration.features)->Ok_0[i].key@ != "Dock"@,
        spec_validate(declaration, platform, declaration.features)->Ok_0[i].nodes.len() < 65535,
    ensures
        key_position(
            spec_lowered_plan(spec_validate(declaration, platform, declaration.features)->Ok_0),
            spec_validate(declaration, platform, declaration.features)->Ok_0[i].key@,
        ) >= 0,
        shapes(
            spec_outline_nodes(
                spec_lowered_plan(spec_validate(declaration, platform, declaration.features)->Ok_0)[key_position(
                    spec_lowered_plan(spec_validate(declaration, platform, declaration.features)->Ok_0),
                    spec_validate(declaration, platform, declaration.features)->Ok_0[i].key@,
                )],
                spec_install_commands(declaration, platform, host,
                    spec_validate(declaration, platform, declaration.features)->Ok_0,
                ),
            ),
        ) == shapes(plan_form(spec_validate(declaration, platform, declaration.features)->Ok_0[i].nodes)),
{
    let menus = spec_validate(declaration, platform, declaration.features)->Ok_0;
    let commands = spec_install_commands(declaration, platform, host, menus);
    lemma_valid_declaration_facts(declaration, platform);
    lemma_install_commands_shape(declaration, platform, host, menus);
    lemma_install_ids_are_distinct(declaration, platform, host);
    lemma_install_registers_references(declaration, platform, host, i);
    lemma_projection_keeps_the_declared_order(menus, commands, i);
}

/// Why installing a declaration onto the command registry failed.
#[derive(Debug)]
pub enum InstallError {
    /// The declaration itself is invalid.
    Declaration(CommandFaults),
    /// The registry rejected a lowered command.
    Runtime(CommandError),
}

impl InstallError {
    /// The rendered error: that of the faults, or of the registry's refusal.
    pub fn to_text(&self) -> (text: String)
        ensures
            match self {
                InstallError::Declaration(faults) => text@ == spec_aggregate_text(
                    "command declaration error"@,
                    faults@.map_values(|f: CommandFault| spec_command_fault_text(f)),
                ),
                InstallError::Runtime(error) => text@ == spec_command_error_text(*error),
            },
    {
        match self {
            InstallError::Declaration(faults) => faults.to_text(),
            InstallError::Runtime(error) => error.to_text(),
        }
    }
}

/// The section slots after a provider is recorded for each of `keys`, in
/// order: a slot already listed stays listed once.
pub open spec fn provide_sections(sections: Seq<&'static str>, keys: Seq<MenuSectionKey>) -> Seq<
    &'static str,
>
    decreases keys.len(),
{
    if keys.len() == 0 {
        sections
    } else {
        let earlier = provide_sections(sections, keys.drop_last());
        if has_slot(earlier, keys.last()@) {
            earlier
        } else {
            earlier.push(keys.last().text())
        }
    }
}

impl CommandsDeclaration {
    /// Install the declaration onto `registry` for `platform`, on a build for
    /// `host`, and return the plan the menus project.
    ///
    /// An invalid declaration is refused with its faults. Otherwise every
    /// command it lowers to (see [`CommandsDeclaration::lower_for_install`])
    /// is installed as one batch, checked against the parsers' `verdicts` on
    /// the commands' default bindings, in the same order; a refused batch
    /// leaves the registry unchanged. Only then are the declared section
    /// providers recorded.
    #[verifier::spinoff_prover]
    pub fn install(
        &self,
        platform: DesktopPlatform,
        host: DesktopPlatform,
        registry: &mut CommandRegistry,
        verdicts: &[KeymapVerdict],
    ) -> (result: Result<MenuPlan, InstallError>)
        requires
            spec_validate(self@, platform, self@.features) is Ok ==> verdicts@.len()
                == spec_install_commands(self@, platform, host,
                spec_validate(self@, platform, self@.features)->Ok_0,
            ).len(),
        ensures
            match spec_validate(self@, platform, self@.features) {
                Err(faults) => final(registry)@ == old(registry)@ && match result {
                    Err(InstallError::Declaration(found)) => found@ == faults,
                    _ => false,
                },
                Ok(menus) => match batch_error(
                    old(registry)@.commands,
                    spec_install_commands(self@, platform, host, menus),
                    verdicts@,
                    spec_install_commands(self@, platform, host, menus).len(),
                ) {
                    Some(error) => final(registry)@ == old(registry)@ && result == Err::<
                        MenuPlan,
                        InstallError,
                    >(InstallError::Runtime(error)),
                    None => final(registry)@ == (RegistryModel {
                        commands: old(registry)@.commands + spec_install_commands(self@, platform, host,
                            menus,
                        ),
                        sections: provide_sections(old(registry)@.sections, self@.sections),
                        ..old(registry)@
                    }) && match result {
                        Ok(plan) => plan@ == spec_lowered_plan(menus),
                        Err(_) => false,
                    },
                },
            },
    {
        let (plan, commands) = match self.lower_for_install(platform, host) {
            Ok(lowered) => lowered,
            Err(faults) => {
                return Err(InstallError::Declaration(faults));
            },
        };
        match install_declared_commands(registry, commands, verdicts) {
            Ok(()) => {},
            Err(error) => {
                return Err(InstallError::Runtime(error));
            },
        }
        provide_all_sections(registry, &self.sections);
        Ok(plan)
    }
}

/// Record a provider for each of `keys`, in order.
fn provide_all_sections(registry: &mut CommandRegistry, keys: &Vec<MenuSectionKey>)
    ensures
        final(registry)@ == (RegistryModel {
            sections: provide_sections(old(registry)@.sections, keys@),
            ..old(registry)@
        }),
{
    let ghost start = registry@;
    let mut i: usize = 0;
    while i < keys.len()
        invariant
            i <= keys@.len(),
            registry@ == (RegistryModel {
                sections: provide_sections(start.sections, keys@.take(i as int)),
                ..start
            }),
        decreases keys@.len() - i,
    {
        let key = keys[i];
        proof {
            key.lemma_text();
            assert(keys@.take(i + 1).drop_last() =~= keys@.take(i as int));
            assert(keys@.take(i + 1).last() == key);
        }
        registry.set_section(key.as_str());
        i = i + 1;
    }
    assert(keys@.take(keys@.len() as int) =~= keys@);
}

} // verus!
