//! The complete declaration of one application, as validation reads it, and
//! the pure aggregate validation over it.
//!
//! Validation reports every independent fault in deterministic declaration
//! order and is host-independent: command and menu rules are checked for every
//! desktop platform, and a fault identical across platforms is reported once,
//! at its first occurrence in platform order.

use vstd::prelude::*;

use super::errors::{DeclarationError, DeclarationErrors};
use super::policies::{
    about_faults, hook_faults, identity_faults, is_store_fault, launch_set_faults,
    lemma_every_repeated_store_key_is_refused, store_faults, store_key_texts, validate_identity, validate_launch_set,
    validate_settings_stores, about_surface_id, AboutChoice, AboutIntent, DeclaredLaunch, HooksModel,
    IntentModel, LifecycleHooks, PrimaryOpener, StoreFault, ThemeChoice, ThemeIntent, TypeTag,
};
use super::setup::{models, plan, spec_plan, DeclaredSetupModule, SetupModel};
use super::surface::{
    spec_surface_faults, surface_set_faults, validate_surface_set, DeclaredSurface,
    SurfaceModel, SurfaceRole,
};
use crate::commands::declaration::{spec_validate, CommandsDeclaration, CommandsModel, DeclaredCommand};
use crate::commands::faults::CommandFault;
use crate::commands::keys::{KeyFault, MenuSectionKey};
use crate::commands::menu_model::MenuBar;
use crate::commands::standard::{DesktopPlatform, StandardFeatures};
use crate::liveness::{ExitPolicy, InitialActivation};
use crate::settings::StoreKey;

verus! {

// ---------------------------------------------------------------------------
// Command faults across platforms.
// ---------------------------------------------------------------------------

/// Whether two command faults are the same fault: same variant, and every
/// field equal by value.
pub open spec fn same_fault(a: CommandFault, b: CommandFault) -> bool {
    match (a, b) {
        (
            CommandFault::DuplicateCommand { command: x },
            CommandFault::DuplicateCommand { command: y },
        ) => x@ == y@,
        (
            CommandFault::InvalidBinding { command: c1, platform: p1, binding: b1 },
            CommandFault::InvalidBinding { command: c2, platform: p2, binding: b2 },
        ) => c1@ == c2@ && p1 == p2 && b1@ == b2@,
        (
            CommandFault::InvalidKeyContext { command: c1, context: k1 },
            CommandFault::InvalidKeyContext { command: c2, context: k2 },
        ) => c1@ == c2@ && k1@ == k2@,
        (
            CommandFault::InvalidMenuKey { raw: r1, fault: f1 },
            CommandFault::InvalidMenuKey { raw: r2, fault: f2 },
        ) => r1@ == r2@ && f1 == f2,
        (
            CommandFault::DuplicateMenuKey { menu: m1 },
            CommandFault::DuplicateMenuKey { menu: m2 },
        ) => m1@ == m2@,
        (
            CommandFault::UnknownCommand { menu: m1, command: c1 },
            CommandFault::UnknownCommand { menu: m2, command: c2 },
        ) => m1@ == m2@ && c1@ == c2@,
        (
            CommandFault::MissingSectionProvider { menu: m1, section: s1 },
            CommandFault::MissingSectionProvider { menu: m2, section: s2 },
        ) => m1@ == m2@ && s1@ == s2@,
        (
            CommandFault::DuplicateSectionProvider { section: s1 },
            CommandFault::DuplicateSectionProvider { section: s2 },
        ) => s1@ == s2@,
        (
            CommandFault::DuplicateSectionSlot { section: s1 },
            CommandFault::DuplicateSectionSlot { section: s2 },
        ) => s1@ == s2@,
        (
            CommandFault::SectionInDock { section: s1 },
            CommandFault::SectionInDock { section: s2 },
        ) => s1@ == s2@,
        (
            CommandFault::RepeatedCommandInMenu { menu: m1, command: c1 },
            CommandFault::RepeatedCommandInMenu { menu: m2, command: c2 },
        ) => m1@ == m2@ && c1@ == c2@,
        (
            CommandFault::StrandedStandardFeature { menu: m1, feature: f1 },
            CommandFault::StrandedStandardFeature { menu: m2, feature: f2 },
        ) => m1@ == m2@ && f1@ == f2@,
        (
            CommandFault::InvalidStandardEdit { menu: m1, reason: r1 },
            CommandFault::InvalidStandardEdit { menu: m2, reason: r2 },
        ) => m1@ == m2@ && r1@ == r2@,
        _ => false,
    }
}

/// Whether two command faults are the same fault.
fn faults_equal(a: &CommandFault, b: &CommandFault) -> (same: bool)
    ensures
        same == same_fault(*a, *b),
{
    match (a, b) {
        (
            CommandFault::DuplicateCommand { command: x },
            CommandFault::DuplicateCommand { command: y },
        ) => x.same(y),
        (
            CommandFault::InvalidBinding { command: c1, platform: p1, binding: b1 },
            CommandFault::InvalidBinding { command: c2, platform: p2, binding: b2 },
        ) => c1.same(c2) && same_platform(*p1, *p2) && crate::text::str_eq(b1, b2),
        (
            CommandFault::InvalidKeyContext { command: c1, context: k1 },
            CommandFault::InvalidKeyContext { command: c2, context: k2 },
        ) => c1.same(c2) && crate::text::str_eq(k1, k2),
        (
            CommandFault::InvalidMenuKey { raw: r1, fault: f1 },
            CommandFault::InvalidMenuKey { raw: r2, fault: f2 },
        ) => crate::text::str_eq(r1, r2) && same_key_fault(*f1, *f2),
        (
            CommandFault::DuplicateMenuKey { menu: m1 },
            CommandFault::DuplicateMenuKey { menu: m2 },
        ) => m1.same(*m2),
        (
            CommandFault::UnknownCommand { menu: m1, command: c1 },
            CommandFault::UnknownCommand { menu: m2, command: c2 },
        ) => m1.same(*m2) && c1.same(c2),
        (
            CommandFault::MissingSectionProvider { menu: m1, section: s1 },
            CommandFault::MissingSectionProvider { menu: m2, section: s2 },
        ) => m1.same(*m2) && s1.same(*s2),
        (
            CommandFault::DuplicateSectionProvider { section: s1 },
            CommandFault::DuplicateSectionProvider { section: s2 },
        ) => s1.same(*s2),
        (
            CommandFault::DuplicateSectionSlot { section: s1 },
            CommandFault::DuplicateSectionSlot { section: s2 },
        ) => s1.same(*s2),
        (
            CommandFault::SectionInDock { section: s1 },
            CommandFault::SectionInDock { section: s2 },
        ) => s1.same(*s2),
        (
            CommandFault::RepeatedCommandInMenu { menu: m1, command: c1 },
            CommandFault::RepeatedCommandInMenu { menu: m2, command: c2 },
        ) => m1.same(*m2) && c1.same(c2),
        (
            CommandFault::StrandedStandardFeature { menu: m1, feature: f1 },
            CommandFault::StrandedStandardFeature { menu: m2, feature: f2 },
        ) => m1.same(*m2) && crate::text::str_eq(f1, f2),
        (
            CommandFault::InvalidStandardEdit { menu: m1, reason: r1 },
            CommandFault::InvalidStandardEdit { menu: m2, reason: r2 },
        ) => m1.same(*m2) && crate::text::str_eq(r1, r2),
        _ => false,
    }
}

/// Whether two platforms are the same.
fn same_platform(a: DesktopPlatform, b: DesktopPlatform) -> (same: bool)
    ensures
        same == (a == b),
{
    match (a, b) {
        (DesktopPlatform::MacOs, DesktopPlatform::MacOs) => true,
        (DesktopPlatform::Windows, DesktopPlatform::Windows) => true,
        (DesktopPlatform::Linux, DesktopPlatform::Linux) => true,
        _ => false,
    }
}

/// Whether two key faults are the same.
fn same_key_fault(a: KeyFault, b: KeyFault) -> (same: bool)
    ensures
        same == (a == b),
{
    match (a, b) {
        (KeyFault::Empty, KeyFault::Empty) => true,
        (KeyFault::Untrimmed, KeyFault::Untrimmed) => true,
        (KeyFault::ControlCharacter, KeyFault::ControlCharacter) => true,
        _ => false,
    }
}

/// Whether some fault in `faults` is the same as `fault`.
pub open spec fn has_same(faults: Seq<CommandFault>, fault: CommandFault) -> bool {
    exists|i: int| 0 <= i < faults.len() && same_fault(#[trigger] faults[i], fault)
}

/// `acc` extended by every fault of `faults` not already represented, in
/// order.
pub open spec fn merge_distinct(acc: Seq<CommandFault>, faults: Seq<CommandFault>) -> Seq<
    CommandFault,
>
    decreases faults.len(),
{
    if faults.len() == 0 {
        acc
    } else {
        let prev = merge_distinct(acc, faults.drop_last());
        if has_same(prev, faults.last()) {
            prev
        } else {
            prev.push(faults.last())
        }
    }
}

/// The command faults a declaration raises on `platform`.
pub open spec fn platform_command_faults(
    commands: CommandsModel,
    platform: DesktopPlatform,
    features: StandardFeatures,
) -> Seq<CommandFault> {
    match spec_validate(commands, platform, features) {
        Err(faults) => faults,
        Ok(_) => Seq::empty(),
    }
}

/// The command faults of every platform, in platform order, each distinct
/// fault once at its first occurrence.
pub open spec fn aggregate_command_faults(commands: CommandsModel, features: StandardFeatures) -> Seq<
    CommandFault,
> {
    merge_distinct(
        merge_distinct(
            merge_distinct(
                Seq::empty(),
                platform_command_faults(commands, DesktopPlatform::MacOs, features),
            ),
            platform_command_faults(commands, DesktopPlatform::Windows, features),
        ),
        platform_command_faults(commands, DesktopPlatform::Linux, features),
    )
}

/// Append every fault of `faults` not yet represented in `acc`.
fn merge_into(acc: &mut Vec<CommandFault>, faults: &[CommandFault])
    ensures
        final(acc)@ == merge_distinct(old(acc)@, faults@),
{
    let ghost start = acc@;
    let mut i: usize = 0;
    while i < faults.len()
        invariant
            i <= faults@.len(),
            acc@ == merge_distinct(start, faults@.take(i as int)),
        decreases faults@.len() - i,
    {
        let fault = faults[i];
        assert(faults@.take(i + 1).drop_last() =~= faults@.take(i as int));
        assert(faults@.take(i + 1).last() == fault);
        let mut j: usize = 0;
        let mut seen = false;
        while j < acc.len()
            invariant
                j <= acc@.len(),
                seen == exists|k: int| 0 <= k < j && same_fault(#[trigger] acc@[k], fault),
            decreases acc@.len() - j,
        {
            if faults_equal(&acc[j], &fault) {
                seen = true;
            }
            j = j + 1;
        }
        if !seen {
            acc.push(fault);
        }
        i = i + 1;
    }
    assert(faults@.take(i as int) =~= faults@);
}

proof fn lemma_same_fault_reflexive(fault: CommandFault)
    ensures
        same_fault(fault, fault),
{
}

/// Whether no two faults in `faults` are the same fault.
pub open spec fn pairwise_distinct(faults: Seq<CommandFault>) -> bool {
    forall|a: int, b: int|
        0 <= a < b < faults.len() ==> !same_fault(#[trigger] faults[a], #[trigger] faults[b])
}

proof fn lemma_merge_distinct(acc: Seq<CommandFault>, faults: Seq<CommandFault>)
    requires
        pairwise_distinct(acc),
    ensures
        pairwise_distinct(merge_distinct(acc, faults)),
        merge_distinct(acc, faults).take(acc.len() as int) == acc,
        acc.len() <= merge_distinct(acc, faults).len(),
        forall|i: int| 0 <= i < faults.len() ==> has_same(merge_distinct(acc, faults), #[trigger] faults[i]),
    decreases faults.len(),
{
    if faults.len() > 0 {
        let shorter = faults.drop_last();
        lemma_merge_distinct(acc, shorter);
        let prev = merge_distinct(acc, shorter);
        let f = faults.last();
        let next = merge_distinct(acc, faults);
        if !has_same(prev, f) {
            assert forall|a: int, b: int| 0 <= a < b < next.len() implies !same_fault(
                #[trigger] next[a],
                #[trigger] next[b],
            ) by {
                if b == next.len() - 1 {
                    assert(next[a] == prev[a]);
                    if same_fault(prev[a], f) {
                        assert(has_same(prev, f));
                    }
                } else {
                    assert(next[a] == prev[a] && next[b] == prev[b]);
                }
            }
            assert(next.take(acc.len() as int) =~= prev.take(acc.len() as int));
        }
        assert forall|i: int| 0 <= i < faults.len() implies has_same(next, #[trigger] faults[i]) by {
            if i < faults.len() - 1 {
                assert(shorter[i] == faults[i]);
                assert(has_same(prev, shorter[i]));
                let k = choose|k: int| 0 <= k < prev.len() && same_fault(#[trigger] prev[k], shorter[i]);
                assert(next[k] == prev[k]);
            } else if has_same(prev, f) {
                let k = choose|k: int| 0 <= k < prev.len() && same_fault(#[trigger] prev[k], f);
                assert(next[k] == prev[k]);
            } else {
                lemma_same_fault_reflexive(f);
                assert(next[next.len() - 1] == f);
            }
        }
    }
}

/// Host-independent command validation reports each distinct fault once:
/// no two reported command faults are the same fault, and every fault any
/// platform raises is represented.
pub proof fn lemma_command_faults_are_reported_once(
    commands: CommandsModel,
    features: StandardFeatures,
)
    ensures
        pairwise_distinct(aggregate_command_faults(commands, features)),
        forall|platform: DesktopPlatform, i: int|
            0 <= i < platform_command_faults(commands, platform, features).len() ==> has_same(
                aggregate_command_faults(commands, features),
                #[trigger] platform_command_faults(commands, platform, features)[i],
            ),
{
    let mac = platform_command_faults(commands, DesktopPlatform::MacOs, features);
    let win = platform_command_faults(commands, DesktopPlatform::Windows, features);
    let lin = platform_command_faults(commands, DesktopPlatform::Linux, features);
    let first = merge_distinct(Seq::empty(), mac);
    let second = merge_distinct(first, win);
    let third = merge_distinct(second, lin);
    lemma_merge_distinct(Seq::empty(), mac);
    lemma_merge_distinct(first, win);
    lemma_merge_distinct(second, lin);
    assert forall|platform: DesktopPlatform, i: int|
        0 <= i < platform_command_faults(commands, platform, features).len() implies has_same(
        third,
        #[trigger] platform_command_faults(commands, platform, features)[i],
    ) by {
        let f = platform_command_faults(commands, platform, features)[i];
        match platform {
            DesktopPlatform::MacOs => {
                assert(has_same(first, f));
                let k = choose|k: int| 0 <= k < first.len() && same_fault(#[trigger] first[k], f);
                assert(second.take(first.len() as int)[k] == first[k]);
                assert(third.take(second.len() as int)[k] == second[k]);
                assert(third[k] == first[k]);
            },
            DesktopPlatform::Windows => {
                assert(has_same(second, f));
                let k = choose|k: int| 0 <= k < second.len() && same_fault(#[trigger] second[k], f);
                assert(third.take(second.len() as int)[k] == second[k]);
            },
            DesktopPlatform::Linux => {},
        }
    }
}

// ---------------------------------------------------------------------------
// The declaration.
// ---------------------------------------------------------------------------

/// What validation expects at one position: an exact error, or a settings
/// store fault, whose key is text.
pub enum ExpectedError {
    /// This exact error.
    Exact(DeclarationError),
    /// A settings store fault with this key text.
    Store(StoreFault),
}

/// Whether `error` is what `expected` describes.
pub open spec fn error_is(error: DeclarationError, expected: ExpectedError) -> bool {
    match expected {
        ExpectedError::Exact(e) => error == e,
        ExpectedError::Store(f) => is_store_fault(error, f),
    }
}

/// Whether `errors` are exactly the `expected` ones, in order.
pub open spec fn errors_are(errors: Seq<DeclarationError>, expected: Seq<ExpectedError>) -> bool {
    &&& errors.len() == expected.len()
    &&& forall|i: int| 0 <= i < errors.len() ==> error_is(#[trigger] errors[i], expected[i])
}

/// Head faults, then store faults matched by text, then tail faults, are
/// exactly the concatenated expectations.
proof fn lemma_concatenated_faults(
    head: Seq<DeclarationError>,
    store_part: Seq<DeclarationError>,
    stores: Seq<StoreFault>,
    tail: Seq<DeclarationError>,
    all: Seq<DeclarationError>,
)
    requires
        store_part.len() == head.len() + stores.len(),
        store_part.subrange(0, head.len() as int) == head,
        forall|k: int|
            0 <= k < stores.len() ==> is_store_fault(
                #[trigger] store_part[head.len() + k],
                stores[k],
            ),
        all == store_part + tail,
    ensures
        errors_are(
            all,
            exactly(head) + stores.map_values(|f: StoreFault| ExpectedError::Store(f)) + exactly(
                tail,
            ),
        ),
{
    let expected = exactly(head) + stores.map_values(|f: StoreFault| ExpectedError::Store(f))
        + exactly(tail);
    assert forall|i: int| 0 <= i < all.len() implies error_is(#[trigger] all[i], expected[i]) by {
        if i < head.len() {
            assert(all[i] == store_part[i]);
            assert(store_part.subrange(0, head.len() as int)[i] == head[i]);
        } else if i < store_part.len() {
            assert(all[i] == store_part[i]);
            let k = i - head.len();
            assert(is_store_fault(store_part[head.len() + k], stores[k]));
        } else {
            assert(all[i] == tail[i - store_part.len()]);
        }
    }
}

/// Exact expectations.
pub open spec fn exactly(errors: Seq<DeclarationError>) -> Seq<ExpectedError> {
    errors.map_values(|e: DeclarationError| ExpectedError::Exact(e))
}

/// The declaration as a value.
pub struct AppModel {
    /// The application identifier.
    pub app_id: Seq<char>,
    /// The data namespace.
    pub data_namespace: Seq<char>,
    /// The declared surfaces, in declaration order.
    pub surfaces: Seq<SurfaceModel>,
    /// The declared launch modules.
    pub launch: Seq<DeclaredLaunch>,
    /// The openers of every declared primary surface.
    pub primary: Seq<PrimaryOpener>,
    /// The setup modules.
    pub setup: Seq<SetupModel>,
    /// The lifecycle hook slots.
    pub lifecycle: HooksModel,
    /// The settings store keys.
    pub settings_stores: Seq<Seq<char>>,
    /// The About intent.
    pub about: IntentModel<AboutChoice>,
    /// The theme intent.
    pub theme: IntentModel<ThemeChoice>,
    /// Whether a Settings surface was declared.
    pub settings_surface: bool,
    /// The command and menu vocabulary.
    pub commands: CommandsModel,
    /// The exit policy.
    pub exit_policy: ExitPolicy,
    /// The initial-activation policy.
    pub initial_activation: InitialActivation,
}

/// The standard features a declaration resolves: a Settings surface, About
/// unless disabled, and the theme convention unless disabled.
pub open spec fn spec_standard_features(app: AppModel) -> StandardFeatures {
    StandardFeatures {
        settings: app.settings_surface,
        about: !(app.about.policy is Disabled),
        theme: !(app.theme.policy is Disabled),
    }
}

/// The faults of the first `n` surfaces, each surface's in its fixed order.
pub open spec fn surfaces_faults(surfaces: Seq<SurfaceModel>, n: nat) -> Seq<DeclarationError>
    decreases n,
{
    if n == 0 {
        Seq::empty()
    } else {
        surfaces_faults(surfaces, (n - 1) as nat) + spec_surface_faults(surfaces[n - 1])
    }
}

/// The surface index: every declared surface's ID and role, then the
/// resolved About surface's.
pub open spec fn surface_index(app: AppModel) -> Seq<(&'static str, SurfaceRole)> {
    app.surfaces.map_values(|s: SurfaceModel| (s.id, s.role)) + match app.about.policy {
        AboutChoice::Framework => seq![("about", SurfaceRole::About)],
        AboutChoice::Custom(surface) => seq![(surface.id, SurfaceRole::About)],
        AboutChoice::Disabled => Seq::empty(),
    }
}

/// The faults validation reports before the settings stores: identity, each
/// surface, About, and the surface set.
pub open spec fn spec_head_faults(app: AppModel) -> Seq<DeclarationError> {
    let index = surface_index(app);
    identity_faults(app.app_id, app.data_namespace) + surfaces_faults(
        app.surfaces,
        app.surfaces.len(),
    ) + about_faults(app.about) + surface_set_faults(index, index.len())
}

/// The faults validation reports after the settings stores: theme, the launch
/// set, the setup graph, lifecycle hooks, then the command and menu faults of
/// every platform, each distinct fault once.
pub open spec fn spec_tail_faults(app: AppModel) -> Seq<DeclarationError> {
    Seq::new(app.theme.surplus, |i: int| DeclarationError::MultipleThemeDeclarations)
        + launch_set_faults(app.launch, app.primary) + match spec_plan(app.setup) {
        Err(faults) => faults,
        Ok(_) => Seq::empty(),
    } + hook_faults(app.lifecycle) + aggregate_command_faults(
        app.commands,
        spec_standard_features(app),
    ).map_values(|fault: CommandFault| DeclarationError::Command { fault })
}

/// Every fault of a declaration, in deterministic declaration order.
pub open spec fn spec_app_faults(app: AppModel) -> Seq<ExpectedError> {
    exactly(spec_head_faults(app)) + store_faults(
        app.settings_stores,
        app.settings_stores.len(),
    ).map_values(|f: StoreFault| ExpectedError::Store(f)) + exactly(spec_tail_faults(app))
}

/// One complete, pure application declaration, as validation reads it.
///
/// Built with consuming methods and validated without the UI toolkit or a
/// platform loop. The typed parts that validation never reads (content views,
/// hooks, parsers) stay with the host beside this value.
#[derive(Debug)]
pub struct AppDeclaration {
    app_id: String,
    data_namespace: String,
    surfaces: Vec<DeclaredSurface>,
    launch: Vec<DeclaredLaunch>,
    primary: Vec<PrimaryOpener>,
    setup: Vec<DeclaredSetupModule>,
    lifecycle: LifecycleHooks,
    settings_stores: Vec<StoreKey>,
    about: AboutIntent,
    theme: ThemeIntent,
    settings_surface: bool,
    commands: CommandsDeclaration,
    exit_policy: ExitPolicy,
    initial_activation: InitialActivation,
}

/// The models of a sequence of surfaces.
pub open spec fn surfaces_view(surfaces: Seq<DeclaredSurface>) -> Seq<SurfaceModel> {
    surfaces.map_values(|s: DeclaredSurface| s@)
}

impl View for AppDeclaration {
    type V = AppModel;

    closed spec fn view(&self) -> AppModel {
        AppModel {
            app_id: self.app_id@,
            data_namespace: self.data_namespace@,
            surfaces: surfaces_view(self.surfaces@),
            launch: self.launch@,
            primary: self.primary@,
            setup: models(self.setup@),
            lifecycle: self.lifecycle@,
            settings_stores: store_key_texts(self.settings_stores@),
            about: self.about@,
            theme: self.theme@,
            settings_surface: self.settings_surface,
            commands: self.commands@,
            exit_policy: self.exit_policy,
            initial_activation: self.initial_activation,
        }
    }
}

impl AppDeclaration {
    /// Start a declaration from the identity, with the standard desktop
    /// foundation by convention: the theme and a framework About surface.
    /// No settings store, Settings surface, or Settings command is invented.
    pub fn new(app_id: &str, data_namespace: &str) -> (declaration: Self)
        ensures
            declaration@.app_id == app_id@,
            declaration@.data_namespace == data_namespace@,
            declaration@.surfaces.len() == 0,
            declaration@.launch.len() == 0,
            declaration@.primary.len() == 0,
            declaration@.setup.len() == 0,
            declaration@.settings_stores.len() == 0,
            declaration@.about == (IntentModel {
                policy: AboutChoice::Framework,
                explicit: false,
                surplus: 0,
            }),
            declaration@.theme == (IntentModel {
                policy: ThemeChoice::Framework,
                explicit: false,
                surplus: 0,
            }),
            !declaration@.settings_surface,
            declaration@.commands.commands.len() == 0,
            declaration@.commands.sections.len() == 0,
            declaration@.exit_policy == ExitPolicy::WhenIdle,
            declaration@.initial_activation == InitialActivation::Regular,
    {
        let declaration = AppDeclaration {
            app_id: app_id.to_owned(),
            data_namespace: data_namespace.to_owned(),
            surfaces: Vec::new(),
            launch: Vec::new(),
            primary: Vec::new(),
            setup: Vec::new(),
            lifecycle: LifecycleHooks::new(),
            settings_stores: Vec::new(),
            about: AboutIntent::new(),
            theme: ThemeIntent::new(),
            settings_surface: false,
            commands: CommandsDeclaration::new(),
            exit_policy: ExitPolicy::WhenIdle,
            initial_activation: InitialActivation::Regular,
        };
        assert(surfaces_view(declaration.surfaces@).len() == 0);
        assert(models(declaration.setup@).len() == 0);
        assert(store_key_texts(declaration.settings_stores@).len() == 0);
        declaration
    }

    /// The standard features this declaration resolved.
    pub fn standard_features(&self) -> (features: StandardFeatures)
        ensures
            features == spec_standard_features(self@),
    {
        StandardFeatures {
            settings: self.settings_surface,
            about: self.about.has_command(),
            theme: self.theme.enabled(),
        }
    }

    /// Append a surface to the declaration's surface list.
    fn declare_surface(self, surface: DeclaredSurface) -> (declaration: Self)
        ensures
            declaration@ == (AppModel { surfaces: self@.surfaces.push(surface@), ..self@ }),
    {
        let mut declaration = self;
        declaration.surfaces.push(surface);
        assert(surfaces_view(declaration.surfaces@) =~= surfaces_view(self.surfaces@).push(
            surface@,
        ));
        declaration
    }

    /// Declare the primary surface, whose open arguments are unit.
    pub fn primary_surface(self, surface: DeclaredSurface) -> (declaration: Self)
        ensures
            declaration@ == (AppModel {
                surfaces: self@.surfaces.push(
                    SurfaceModel { role: SurfaceRole::Primary, ..surface@ },
                ),
                primary: self@.primary.push(PrimaryOpener { args: TypeTag(0), args_name: "()" }),
                ..self@
            }),
    {
        let mut declaration = self;
        declaration.primary.push(PrimaryOpener { args: TypeTag::unit(), args_name: "()" });
        declaration.declare_surface(surface.in_role(SurfaceRole::Primary))
    }

    /// Declare the standard Settings surface, activating the standard
    /// Settings command.
    pub fn settings_surface(self, surface: DeclaredSurface) -> (declaration: Self)
        ensures
            declaration@ == (AppModel {
                surfaces: self@.surfaces.push(
                    SurfaceModel { role: SurfaceRole::Settings, ..surface@ },
                ),
                settings_surface: true,
                ..self@
            }),
    {
        let mut declaration = self;
        declaration.settings_surface = true;
        declaration.declare_surface(surface.in_role(SurfaceRole::Settings))
    }

    /// Replace the framework's About content. At most one About policy may
    /// be declared; a later one is counted.
    pub fn about_surface(self, surface: DeclaredSurface) -> (declaration: Self)
        requires
            self@.about.surplus < usize::MAX,
        ensures
            declaration@ == (AppModel {
                about: super::policies::intent_step(
                    self@.about,
                    AboutChoice::Custom(SurfaceModel { role: SurfaceRole::About, ..surface@ }),
                ),
                ..self@
            }),
    {
        let mut declaration = self;
        declaration.about.custom(surface.in_role(SurfaceRole::About));
        declaration
    }

    /// Drop the About surface and its standard command entirely.
    pub fn without_about(self) -> (declaration: Self)
        requires
            self@.about.surplus < usize::MAX,
        ensures
            declaration@ == (AppModel {
                about: super::policies::intent_step(self@.about, AboutChoice::Disabled),
                ..self@
            }),
    {
        let mut declaration = self;
        declaration.about.disable();
        declaration
    }

    /// Declare an application settings store under `key`.
    pub fn settings_store(self, key: StoreKey) -> (declaration: Self)
        ensures
            declaration@ == (AppModel {
                settings_stores: self@.settings_stores.push(key@),
                ..self@
            }),
    {
        let mut declaration = self;
        let ghost before = declaration.settings_stores@;
        declaration.settings_stores.push(key);
        assert(store_key_texts(declaration.settings_stores@) =~= store_key_texts(before).push(
            key@,
        ));
        declaration
    }

    /// Replace the framework's registry-backed theme source. At most one theme
    /// policy may be declared; a later one is counted.
    pub fn theme(self) -> (declaration: Self)
        requires
            self@.theme.surplus < usize::MAX,
        ensures
            declaration@ == (AppModel {
                theme: super::policies::intent_step(self@.theme, ThemeChoice::Custom),
                ..self@
            }),
    {
        let mut declaration = self;
        declaration.theme.custom();
        declaration
    }

    /// Drop the theme convention: no theme source, no persisted shell
    /// preferences, and no Appearance section.
    pub fn without_theme(self) -> (declaration: Self)
        requires
            self@.theme.surplus < usize::MAX,
        ensures
            declaration@ == (AppModel {
                theme: super::policies::intent_step(self@.theme, ThemeChoice::Disabled),
                ..self@
            }),
    {
        let mut declaration = self;
        declaration.theme.disable();
        declaration
    }

    /// Declare an auxiliary surface under an application-chosen stable ID.
    pub fn surface(self, surface: DeclaredSurface) -> (declaration: Self)
        ensures
            declaration@ == (AppModel {
                surfaces: self@.surfaces.push(
                    SurfaceModel { role: SurfaceRole::Auxiliary, ..surface@ },
                ),
                ..self@
            }),
    {
        self.declare_surface(surface.in_role(SurfaceRole::Auxiliary))
    }

    /// Declare the typed launch module and the primary surfaces whose open
    /// arguments are its value.
    pub fn launch(self, launch: DeclaredLaunch, primaries: Vec<DeclaredSurface>) -> (declaration:
        Self)
        ensures
            declaration@.launch == self@.launch.push(launch),
            declaration@.primary == self@.primary + Seq::new(
                primaries@.len(),
                |i: int| PrimaryOpener { args: launch.value, args_name: launch.value_name },
            ),
            declaration@.surfaces == self@.surfaces + Seq::new(
                primaries@.len(),
                |i: int| SurfaceModel { role: SurfaceRole::Primary, ..primaries@[i]@ },
            ),
            declaration@ == (AppModel {
                launch: declaration@.launch,
                primary: declaration@.primary,
                surfaces: declaration@.surfaces,
                ..self@
            }),
    {
        let mut declaration = self;
        declaration.launch.push(launch);
        let ghost base = declaration@;
        let mut i: usize = 0;
        while i < primaries.len()
            invariant
                i <= primaries@.len(),
                declaration@ == (AppModel {
                    primary: base.primary + Seq::new(
                        i as nat,
                        |k: int| PrimaryOpener { args: launch.value, args_name: launch.value_name },
                    ),
                    surfaces: base.surfaces + Seq::new(
                        i as nat,
                        |k: int| SurfaceModel { role: SurfaceRole::Primary, ..primaries@[k]@ },
                    ),
                    ..base
                }),
            decreases primaries@.len() - i,
        {
            declaration.primary.push(PrimaryOpener { args: launch.value, args_name: launch.value_name });
            declaration = declaration.declare_surface(primaries[i].duplicate().in_role(SurfaceRole::Primary));
            i = i + 1;
            assert(declaration@.primary =~= base.primary + Seq::new(
                i as nat,
                |k: int| PrimaryOpener { args: launch.value, args_name: launch.value_name },
            ));
            assert(declaration@.surfaces =~= base.surfaces + Seq::new(
                i as nat,
                |k: int| SurfaceModel { role: SurfaceRole::Primary, ..primaries@[k]@ },
            ));
        }
        declaration
    }

    /// Declare an application setup module. Repeatable.
    pub fn setup(self, module: DeclaredSetupModule) -> (declaration: Self)
        ensures
            declaration@ == (AppModel { setup: self@.setup.push(module@), ..self@ }),
    {
        let mut declaration = self;
        let ghost before = declaration.setup@;
        declaration.setup.push(module);
        assert(models(declaration.setup@) =~= models(before).push(module@));
        declaration
    }

    /// The resolved About intent.
    pub fn about(&self) -> (about: &AboutIntent)
        ensures
            about@ == self@.about,
    {
        &self.about
    }

    /// The lifecycle hook slots.
    pub fn lifecycle(&self) -> (hooks: &LifecycleHooks)
        ensures
            hooks@ == self@.lifecycle,
    {
        &self.lifecycle
    }

    /// Replace the lifecycle hook slots.
    pub fn with_lifecycle(self, hooks: LifecycleHooks) -> (declaration: Self)
        ensures
            declaration@ == (AppModel { lifecycle: hooks@, ..self@ }),
    {
        let mut declaration = self;
        declaration.lifecycle = hooks;
        declaration
    }

    /// Declare one typed command. Repeatable.
    pub fn command(self, command: DeclaredCommand) -> (declaration: Self)
        ensures
            declaration@ == (AppModel {
                commands: CommandsModel {
                    commands: self@.commands.commands.push(command@),
                    ..self@.commands
                },
                ..self@
            }),
    {
        let AppDeclaration {
            app_id,
            data_namespace,
            surfaces,
            launch,
            primary,
            setup,
            lifecycle,
            settings_stores,
            about,
            theme,
            settings_surface,
            commands,
            exit_policy,
            initial_activation,
        } = self;
        AppDeclaration {
            app_id,
            data_namespace,
            surfaces,
            launch,
            primary,
            setup,
            lifecycle,
            settings_stores,
            about,
            theme,
            settings_surface,
            commands: commands.command(command),
            exit_policy,
            initial_activation,
        }
    }

    /// Set the menu-bar policy.
    pub fn menu_bar(self, menu_bar: MenuBar) -> (declaration: Self)
        ensures
            declaration@ == (AppModel {
                commands: CommandsModel { menu_bar: menu_bar@, ..self@.commands },
                ..self@
            }),
    {
        let AppDeclaration {
            app_id,
            data_namespace,
            surfaces,
            launch,
            primary,
            setup,
            lifecycle,
            settings_stores,
            about,
            theme,
            settings_surface,
            commands,
            exit_policy,
            initial_activation,
        } = self;
        AppDeclaration {
            app_id,
            data_namespace,
            surfaces,
            launch,
            primary,
            setup,
            lifecycle,
            settings_stores,
            about,
            theme,
            settings_surface,
            commands: commands.menu_bar(menu_bar),
            exit_policy,
            initial_activation,
        }
    }

    /// Declare the provider for one reserved menu section. Repeatable.
    pub fn menu_section(self, key: MenuSectionKey) -> (declaration: Self)
        ensures
            declaration@ == (AppModel {
                commands: CommandsModel {
                    sections: self@.commands.sections.push(key),
                    ..self@.commands
                },
                ..self@
            }),
    {
        let AppDeclaration {
            app_id,
            data_namespace,
            surfaces,
            launch,
            primary,
            setup,
            lifecycle,
            settings_stores,
            about,
            theme,
            settings_surface,
            commands,
            exit_policy,
            initial_activation,
        } = self;
        AppDeclaration {
            app_id,
            data_namespace,
            surfaces,
            launch,
            primary,
            setup,
            lifecycle,
            settings_stores,
            about,
            theme,
            settings_surface,
            commands: commands.section(key),
            exit_policy,
            initial_activation,
        }
    }

    /// Set the exit policy.
    pub fn exit_policy(self, policy: ExitPolicy) -> (declaration: Self)
        ensures
            declaration@ == (AppModel { exit_policy: policy, ..self@ }),
    {
        let mut declaration = self;
        declaration.exit_policy = policy;
        declaration
    }

    /// Set the initial-activation policy.
    pub fn initial_activation(self, activation: InitialActivation) -> (declaration: Self)
        ensures
            declaration@ == (AppModel { initial_activation: activation, ..self@ }),
    {
        let mut declaration = self;
        declaration.initial_activation = activation;
        declaration
    }

    /// The declared exit policy.
    pub fn declared_exit_policy(&self) -> (policy: ExitPolicy)
        ensures
            policy == self@.exit_policy,
    {
        self.exit_policy
    }

    /// The declared initial-activation policy.
    pub fn declared_initial_activation(&self) -> (activation: InitialActivation)
        ensures
            activation == self@.initial_activation,
    {
        self.initial_activation
    }

    /// The faults before the settings stores.
    fn head_faults(&self) -> (errors: Vec<DeclarationError>)
        ensures
            errors@ == spec_head_faults(self@),
    {
        let ghost model = self@;
        let mut errors: Vec<DeclarationError> = Vec::new();
        validate_identity(self.app_id.as_str(), self.data_namespace.as_str(), &mut errors);
        let mut i: usize = 0;
        while i < self.surfaces.len()
            invariant
                model == self@,
                i <= self.surfaces@.len(),
                errors@ == identity_faults(model.app_id, model.data_namespace) + surfaces_faults(
                    model.surfaces,
                    i as nat,
                ),
            decreases self.surfaces@.len() - i,
        {
            assert(model.surfaces[i as int] == self.surfaces@[i as int]@);
            self.surfaces[i].validate(&mut errors);
            i = i + 1;
        }
        self.about.validate(&mut errors);
        let index = self.surface_index();
        validate_surface_set(index.as_slice(), &mut errors);
        errors
    }

    /// The surface index: declared surfaces, then the resolved About.
    fn surface_index(&self) -> (index: Vec<(&'static str, SurfaceRole)>)
        ensures
            index@ == surface_index(self@),
    {
        let ghost model = self@;
        let mut index: Vec<(&'static str, SurfaceRole)> = Vec::new();
        let mut i: usize = 0;
        while i < self.surfaces.len()
            invariant
                model == self@,
                i <= self.surfaces@.len(),
                index@ == model.surfaces.map_values(|s: SurfaceModel| (s.id, s.role)).take(
                    i as int,
                ),
            decreases self.surfaces@.len() - i,
        {
            assert(model.surfaces[i as int] == self.surfaces@[i as int]@);
            index.push((self.surfaces[i].id(), self.surfaces[i].role()));
            i = i + 1;
            assert(index@ =~= model.surfaces.map_values(|s: SurfaceModel| (s.id, s.role)).take(
                i as int,
            ));
        }
        match self.about.surface_entry() {
            Some(entry) => index.push(entry),
            None => {},
        }
        assert(index@ =~= surface_index(model));
        index
    }

    /// The command faults of every platform, each distinct fault once.
    fn command_faults(&self) -> (faults: Vec<CommandFault>)
        ensures
            faults@ == aggregate_command_faults(self@.commands, spec_standard_features(self@)),
    {
        let ghost model = self@;
        let features = self.standard_features();
        let mut command_faults: Vec<CommandFault> = Vec::new();
        let platforms = DesktopPlatform::ALL();
        let mut p: usize = 0;
        while p < 3
            invariant
                model == self@,
                features == spec_standard_features(model),
                platforms@ == seq![
                    DesktopPlatform::MacOs,
                    DesktopPlatform::Windows,
                    DesktopPlatform::Linux,
                ],
                p <= 3,
                command_faults@ == (if p == 0 {
                    Seq::empty()
                } else if p == 1 {
                    merge_distinct(
                        Seq::empty(),
                        platform_command_faults(model.commands, DesktopPlatform::MacOs, features),
                    )
                } else if p == 2 {
                    merge_distinct(
                        merge_distinct(
                            Seq::empty(),
                            platform_command_faults(model.commands, DesktopPlatform::MacOs, features),
                        ),
                        platform_command_faults(model.commands, DesktopPlatform::Windows, features),
                    )
                } else {
                    aggregate_command_faults(model.commands, features)
                }),
            decreases 3 - p,
        {
            let platform = platforms[p];
            match self.commands.validate_with(platform, features) {
                Err(faults) => merge_into(&mut command_faults, faults.as_slice()),
                Ok(_) => {
                    assert(command_faults@ =~= merge_distinct(command_faults@, Seq::empty()));
                },
            }
            p = p + 1;
        }
        command_faults
    }

    /// The faults after the settings stores.
    fn tail_faults(&self) -> (errors: Vec<DeclarationError>)
        ensures
            errors@ == spec_tail_faults(self@),
    {
        let mut errors: Vec<DeclarationError> = Vec::new();
        self.theme.validate(&mut errors);
        validate_launch_set(self.launch.as_slice(), self.primary.as_slice(), &mut errors);
        match plan(self.setup.as_slice()) {
            Err(faults) => {
                let mut faults = faults;
                errors.append(&mut faults);
            },
            Ok(_) => {},
        }
        self.lifecycle.validate(&mut errors);
        let command_faults = self.command_faults();
        let ghost before_commands = errors@;
        let mut k: usize = 0;
        while k < command_faults.len()
            invariant
                k <= command_faults@.len(),
                errors@ == before_commands + command_faults@.take(k as int).map_values(
                    |fault: CommandFault| DeclarationError::Command { fault },
                ),
            decreases command_faults@.len() - k,
        {
            errors.push(DeclarationError::Command { fault: command_faults[k] });
            k = k + 1;
            assert(errors@ =~= before_commands + command_faults@.take(k as int).map_values(
                |fault: CommandFault| DeclarationError::Command { fault },
            ));
        }
        assert(command_faults@.take(k as int) =~= command_faults@);
        assert(errors@ =~= spec_tail_faults(self@));
        errors
    }

    /// Check every declaration invariant, reporting all independent faults in
    /// deterministic declaration order.
    ///
    /// Pure and host-independent: identity, surface, launch, and setup rules
    /// never depend on a platform, and command and menu rules are checked for
    /// every desktop platform, each distinct fault reported once.
    pub fn validate(&self) -> (result: Result<(), DeclarationErrors>)
        ensures
            match result {
                Ok(()) => spec_app_faults(self@).len() == 0,
                Err(errors) => errors_are(errors@, spec_app_faults(self@)),
            },
    {
        let ghost model = self@;
        let mut errors = self.head_faults();
        let ghost head = errors@;
        validate_settings_stores(self.settings_stores.as_slice(), &mut errors);
        let ghost store_part = errors@;
        let mut tail = self.tail_faults();
        let ghost tail_seq = tail@;
        errors.append(&mut tail);
        proof {
            lemma_concatenated_faults(
                head,
                store_part,
                store_faults(model.settings_stores, model.settings_stores.len()),
                tail_seq,
                errors@,
            );
        }
        match DeclarationErrors::new(errors) {
            Some(collected) => Err(collected),
            None => Ok(()),
        }
    }
}

/// One runtime module lowering installs.
#[derive(Clone, Copy, Debug, PartialEq, Eq)]
pub enum RuntimeModule {
    /// Window management, which every surface registers against.
    Windows,
    /// The surface with this ID.
    Surface(&'static str),
    /// The settings store declared at this position.
    SettingsStore(usize),
    /// Persistence of the shell-owned preferences.
    ShellPreferences,
    /// The theme service.
    Theme,
    /// The Appearance menu bridge.
    ThemeMenu,
    /// The one owner of the command and menu vocabulary.
    Menus,
    /// The application's setup modules, in dependency order.
    SetupPipeline,
}

/// The runtime modules a declaration lowers to, in installation order:
/// window management; the declared surfaces in declaration order, then the
/// resolved About surface; the settings stores; the whole theme convention
/// (preferences, theme, Appearance bridge) unless disabled; the one menus
/// owner; and the setup pipeline last, when there is any setup.
pub open spec fn spec_runtime_modules(app: AppModel) -> Seq<RuntimeModule> {
    seq![RuntimeModule::Windows] + app.surfaces.map_values(
        |s: SurfaceModel| RuntimeModule::Surface(s.id),
    ) + match app.about.policy {
        AboutChoice::Framework => seq![RuntimeModule::Surface(about_surface_id())],
        AboutChoice::Custom(surface) => seq![RuntimeModule::Surface(surface.id)],
        AboutChoice::Disabled => Seq::empty(),
    } + Seq::new(app.settings_stores.len(), |i: int| RuntimeModule::SettingsStore(i as usize))
        + (if app.theme.policy is Disabled {
        Seq::empty()
    } else {
        seq![RuntimeModule::ShellPreferences, RuntimeModule::Theme, RuntimeModule::ThemeMenu]
    }) + seq![RuntimeModule::Menus] + (if app.setup.len() > 0 {
        seq![RuntimeModule::SetupPipeline]
    } else {
        Seq::empty()
    })
}

impl AppDeclaration {
    /// The runtime modules this declaration lowers to, in installation order.
    pub fn runtime_modules(&self) -> (modules: Vec<RuntimeModule>)
        ensures
            modules@ == spec_runtime_modules(self@),
    {
        let ghost app = self@;
        let mut modules: Vec<RuntimeModule> = Vec::new();
        modules.push(RuntimeModule::Windows);
        let ghost head = modules@;
        let mut i: usize = 0;
        while i < self.surfaces.len()
            invariant
                app == self@,
                i <= self.surfaces@.len(),
                modules@ == head + app.surfaces.take(i as int).map_values(
                    |s: SurfaceModel| RuntimeModule::Surface(s.id),
                ),
            decreases self.surfaces@.len() - i,
        {
            assert(app.surfaces[i as int] == self.surfaces@[i as int]@);
            modules.push(RuntimeModule::Surface(self.surfaces[i].id()));
            assert(app.surfaces.take(i + 1) =~= app.surfaces.take(i as int).push(app.surfaces[i as int]));
            assert(modules@ =~= head + app.surfaces.take(i + 1).map_values(
                |s: SurfaceModel| RuntimeModule::Surface(s.id),
            ));
            i = i + 1;
        }
        assert(app.surfaces.take(app.surfaces.len() as int) =~= app.surfaces);
        match self.about.surface_entry() {
            Some((id, _)) => {
                modules.push(RuntimeModule::Surface(id));
            },
            None => {},
        }
        let ghost before_stores = modules@;
        let mut k: usize = 0;
        while k < self.settings_stores.len()
            invariant
                k <= self.settings_stores@.len(),
                modules@ == before_stores + Seq::new(k as nat, |j: int| RuntimeModule::SettingsStore(j as usize)),
            decreases self.settings_stores@.len() - k,
        {
            modules.push(RuntimeModule::SettingsStore(k));
            assert(modules@ =~= before_stores + Seq::new((k + 1) as nat, |j: int| RuntimeModule::SettingsStore(j as usize)));
            k = k + 1;
        }
        if self.theme.enabled() {
            modules.push(RuntimeModule::ShellPreferences);
            modules.push(RuntimeModule::Theme);
            modules.push(RuntimeModule::ThemeMenu);
        }
        modules.push(RuntimeModule::Menus);
        if self.setup.len() > 0 {
            modules.push(RuntimeModule::SetupPipeline);
        }
        assert(modules@ =~= spec_runtime_modules(app));
        modules
    }
}

/// The lowered module order keeps its conventions on every declaration:
/// window management comes first, exactly one menus owner is installed, the
/// setup pipeline is installed exactly when setup was declared and then comes
/// last, right after the menus owner.
pub proof fn lemma_runtime_module_order(app: AppModel)
    ensures
        spec_runtime_modules(app)[0] == RuntimeModule::Windows,
        spec_runtime_modules(app).contains(RuntimeModule::Menus),
        forall|j: int, k: int|
            0 <= j < k < spec_runtime_modules(app).len() ==> !((#[trigger] spec_runtime_modules(
                app,
            )[j]) is Menus && (#[trigger] spec_runtime_modules(app)[k]) is Menus),
        app.setup.len() > 0 ==> spec_runtime_modules(app).last() == RuntimeModule::SetupPipeline
            && spec_runtime_modules(app)[spec_runtime_modules(app).len() - 2]
            == RuntimeModule::Menus,
        app.setup.len() == 0 ==> spec_runtime_modules(app).last() == RuntimeModule::Menus,
{
    let front = seq![RuntimeModule::Windows] + app.surfaces.map_values(
        |s: SurfaceModel| RuntimeModule::Surface(s.id),
    ) + match app.about.policy {
        AboutChoice::Framework => seq![RuntimeModule::Surface(about_surface_id())],
        AboutChoice::Custom(surface) => seq![RuntimeModule::Surface(surface.id)],
        AboutChoice::Disabled => Seq::empty(),
    } + Seq::new(app.settings_stores.len(), |i: int| RuntimeModule::SettingsStore(i as usize))
        + (if app.theme.policy is Disabled {
        Seq::empty()
    } else {
        seq![RuntimeModule::ShellPreferences, RuntimeModule::Theme, RuntimeModule::ThemeMenu]
    });
    let tail = seq![RuntimeModule::Menus] + (if app.setup.len() > 0 {
        seq![RuntimeModule::SetupPipeline]
    } else {
        Seq::empty()
    });
    let all = spec_runtime_modules(app);
    assert(all == front + tail);
    assert forall|j: int| 0 <= j < front.len() implies !(#[trigger] front[j] is Menus) by {
        let f0 = seq![RuntimeModule::Windows];
        let f1 = app.surfaces.map_values(|s: SurfaceModel| RuntimeModule::Surface(s.id));
        let f2 = match app.about.policy {
            AboutChoice::Framework => seq![RuntimeModule::Surface(about_surface_id())],
            AboutChoice::Custom(surface) => seq![RuntimeModule::Surface(surface.id)],
            AboutChoice::Disabled => Seq::empty(),
        };
        let f3 = Seq::new(app.settings_stores.len(), |i: int| RuntimeModule::SettingsStore(i as usize));
        let f4 = if app.theme.policy is Disabled {
            Seq::empty()
        } else {
            seq![RuntimeModule::ShellPreferences, RuntimeModule::Theme, RuntimeModule::ThemeMenu]
        };
        assert(front == f0 + f1 + f2 + f3 + f4);
        if j < f0.len() + f1.len() {
            if j >= 1 {
                assert(front[j] == f1[j - 1]);
            }
        } else if j < f0.len() + f1.len() + f2.len() {
        } else if j < f0.len() + f1.len() + f2.len() + f3.len() {
            assert(front[j] == f3[j - f0.len() - f1.len() - f2.len()]);
        }
    }
    assert(all[front.len() as int] == RuntimeModule::Menus);
    assert forall|j: int, k: int| 0 <= j < k < all.len() implies !((#[trigger] all[j]) is Menus
        && (#[trigger] all[k]) is Menus) by {
        if j < front.len() {
            assert(all[j] == front[j]);
        } else if k > front.len() {
            assert(all[k] == tail[k - front.len()]);
        }
    }
}

/// Whether `modules[o..o + n]` reads `SettingsStore(0)`, ...,
/// `SettingsStore(n - 1)` and no module outside that stretch is a settings
/// store.
pub open spec fn stores_installed_at(modules: Seq<RuntimeModule>, n: int, o: int) -> bool {
    &&& 0 <= o && o + n <= modules.len()
    &&& forall|i: int| 0 <= i < n ==> #[trigger] modules[o + i] == RuntimeModule::SettingsStore(i as usize)
    &&& forall|k: int|
        0 <= k < modules.len() && !(o <= k < o + n) ==> !(#[trigger] modules[k] is SettingsStore)
}

/// Each declared settings store is installed exactly once, and the stores
/// are installed in declaration order, one after another: some stretch of the
/// runtime modules reads `SettingsStore(0)`, ..., `SettingsStore(n - 1)` for
/// the `n` declared stores, and no other runtime module is a settings store.
pub proof fn lemma_each_settings_store_installs_once_in_order(app: AppModel)
    ensures
        exists|o: int|
            #[trigger] stores_installed_at(
                spec_runtime_modules(app),
                app.settings_stores.len() as int,
                o,
            ),
{
    let n = app.settings_stores.len() as int;
    let f0 = seq![RuntimeModule::Windows];
    let f1 = app.surfaces.map_values(|s: SurfaceModel| RuntimeModule::Surface(s.id));
    let f2 = match app.about.policy {
        AboutChoice::Framework => seq![RuntimeModule::Surface(about_surface_id())],
        AboutChoice::Custom(surface) => seq![RuntimeModule::Surface(surface.id)],
        AboutChoice::Disabled => Seq::empty(),
    };
    let f3 = Seq::new(app.settings_stores.len(), |i: int| RuntimeModule::SettingsStore(i as usize));
    let f4 = if app.theme.policy is Disabled {
        Seq::empty()
    } else {
        seq![RuntimeModule::ShellPreferences, RuntimeModule::Theme, RuntimeModule::ThemeMenu]
    };
    let f5 = seq![RuntimeModule::Menus] + (if app.setup.len() > 0 {
        seq![RuntimeModule::SetupPipeline]
    } else {
        Seq::empty()
    });
    let all = spec_runtime_modules(app);
    assert(all == f0 + f1 + f2 + f3 + f4 + f5);
    let o = (f0.len() + f1.len() + f2.len()) as int;
    assert forall|i: int| 0 <= i < n implies #[trigger] all[o + i] == RuntimeModule::SettingsStore(
        i as usize,
    ) by {
        assert(all[o + i] == f3[i]);
    }
    assert forall|k: int| 0 <= k < all.len() && !(o <= k < o + n) implies !(#[trigger] all[k] is SettingsStore) by {
        if k < f0.len() + f1.len() {
            if k >= 1 {
                assert(all[k] == f1[k - 1]);
            }
        } else if k < o {
        } else {
            let p = k - o - n;
            if p < f4.len() {
                assert(all[k] == f4[p]);
            } else {
                assert(all[k] == f5[p - f4.len()]);
            }
        }
    }    assert(stores_installed_at(all, n, o));
}

/// A declaration that validates declares its settings stores with pairwise
/// different keys, none of them the reserved shell-preferences key.
pub proof fn lemma_a_valid_declaration_has_distinct_store_keys(app: AppModel)
    ensures
        spec_app_faults(app).len() == 0 ==> (forall|i: int, j: int|
            0 <= i < j < app.settings_stores.len() ==> app.settings_stores[i]
                != app.settings_stores[j]) && (forall|j: int|
            0 <= j < app.settings_stores.len() ==> app.settings_stores[j] != "shell-preferences"@),
{
    lemma_every_repeated_store_key_is_refused(app.settings_stores);
    let stores = store_faults(app.settings_stores, app.settings_stores.len()).map_values(
        |f: StoreFault| ExpectedError::Store(f),
    );
    assert(spec_app_faults(app) == exactly(spec_head_faults(app)) + stores + exactly(
        spec_tail_faults(app),
    ));
}

} // verus!
