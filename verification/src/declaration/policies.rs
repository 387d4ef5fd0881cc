//! The declaration's singleton policies and their cardinality rules: the
//! first-wins About and theme intents, the lifecycle hook slots, the settings
//! store keys, the launch set, and the identity fields.
//!
//! A surplus singleton is *counted*, never dropped or applied last-wins, so
//! validation can report it and an application never silently loses work it
//! asked for.

use vstd::prelude::*;

use super::errors::DeclarationError;
use super::surface::{DeclaredSurface, SurfaceModel, SurfaceRole};
use crate::settings::{is_shell_preferences_key, StoreKey};
use crate::text::str_eq;
use vstd::string::StrSliceExecFns;

verus! {

// ---------------------------------------------------------------------------
// First-wins intents.
// ---------------------------------------------------------------------------

/// An intent as a value: the resolved choice, whether an explicit call made
/// it, and how many explicit calls came after the first.
pub struct IntentModel<P> {
    /// The resolved choice.
    pub policy: P,
    /// Whether an explicit call has been made.
    pub explicit: bool,
    /// Explicit calls past the first.
    pub surplus: nat,
}

/// One explicit call: the first replaces the convention, every later one is
/// only counted.
pub open spec fn intent_step<P>(intent: IntentModel<P>, choice: P) -> IntentModel<P> {
    if intent.explicit {
        IntentModel { surplus: intent.surplus + 1, ..intent }
    } else {
        IntentModel { policy: choice, explicit: true, surplus: intent.surplus }
    }
}

/// The intent after a sequence of explicit calls, starting from the
/// convention.
pub open spec fn intent_after<P>(convention: P, choices: Seq<P>) -> IntentModel<P>
    decreases choices.len(),
{
    if choices.len() == 0 {
        IntentModel { policy: convention, explicit: false, surplus: 0 }
    } else {
        intent_step(intent_after(convention, choices.drop_last()), choices.last())
    }
}

/// Whatever the order of contradicting calls, the first explicit call is
/// authoritative and every later one is reported as surplus; with no call the
/// convention stands.
pub proof fn lemma_first_explicit_intent_wins<P>(convention: P, choices: Seq<P>)
    ensures
        choices.len() == 0 ==> intent_after(convention, choices) == (IntentModel {
            policy: convention,
            explicit: false,
            surplus: 0,
        }),
        choices.len() > 0 ==> intent_after(convention, choices) == (IntentModel {
            policy: choices[0],
            explicit: true,
            surplus: (choices.len() - 1) as nat,
        }),
    decreases choices.len(),
{
    if choices.len() > 0 {
        lemma_first_explicit_intent_wins(convention, choices.drop_last());
    }
}

/// The About policy as a value.
pub enum AboutChoice {
    /// The framework's own About surface.
    Framework,
    /// An application surface replacing the framework's content.
    Custom(SurfaceModel),
    /// No About surface and no About command.
    Disabled,
}

/// The resolved About policy.
#[derive(Debug)]
pub enum AboutPolicy {
    /// The framework's own About surface.
    Framework,
    /// An application surface replacing the framework's content.
    Custom(DeclaredSurface),
    /// No About surface and no About command.
    Disabled,
}

impl View for AboutPolicy {
    type V = AboutChoice;

    open spec fn view(&self) -> AboutChoice {
        match self {
            AboutPolicy::Framework => AboutChoice::Framework,
            AboutPolicy::Custom(surface) => AboutChoice::Custom(surface@),
            AboutPolicy::Disabled => AboutChoice::Disabled,
        }
    }
}

/// The declared About intent: the framework surface by convention; the first
/// explicit intent replaces it and every later one is counted as a fault.
#[derive(Debug)]
pub struct AboutIntent {
    policy: AboutPolicy,
    explicit: bool,
    surplus: usize,
}

impl View for AboutIntent {
    type V = IntentModel<AboutChoice>;

    closed spec fn view(&self) -> IntentModel<AboutChoice> {
        IntentModel { policy: self.policy@, explicit: self.explicit, surplus: self.surplus as nat }
    }
}

/// The About surface's reserved ID.
pub open spec fn about_surface_id() -> &'static str {
    "about"
}

impl AboutIntent {
    /// The convention: the framework's own About surface.
    pub fn new() -> (intent: Self)
        ensures
            intent@ == (IntentModel {
                policy: AboutChoice::Framework,
                explicit: false,
                surplus: 0,
            }),
    {
        AboutIntent { policy: AboutPolicy::Framework, explicit: false, surplus: 0 }
    }

    /// Replace the framework content with an application surface.
    pub fn custom(&mut self, surface: DeclaredSurface)
        requires
            old(self)@.surplus < usize::MAX,
        ensures
            final(self)@ == intent_step(old(self)@, AboutChoice::Custom(surface@)),
    {
        if self.explicit {
            self.surplus = self.surplus + 1;
            return ;
        }
        self.policy = AboutPolicy::Custom(surface);
        self.explicit = true;
    }

    /// Drop the About surface and its command entirely.
    pub fn disable(&mut self)
        requires
            old(self)@.surplus < usize::MAX,
        ensures
            final(self)@ == intent_step(old(self)@, AboutChoice::Disabled),
    {
        if self.explicit {
            self.surplus = self.surplus + 1;
            return ;
        }
        self.policy = AboutPolicy::Disabled;
        self.explicit = true;
    }

    /// Whether the standard About command exists: unless About is disabled.
    pub fn has_command(&self) -> (present: bool)
        ensures
            present == !(self@.policy is Disabled),
    {
        match self.policy {
            AboutPolicy::Disabled => false,
            _ => true,
        }
    }

    /// The resolved policy.
    pub fn policy(&self) -> (policy: &AboutPolicy)
        ensures
            policy@ == self@.policy,
    {
        &self.policy
    }

    /// The resolved surface-index entry, so the About surface takes part in
    /// duplicate-ID and role validation exactly like a declared one.
    pub fn surface_entry(&self) -> (entry: Option<(&'static str, SurfaceRole)>)
        ensures
            entry == match self@.policy {
                AboutChoice::Framework => Some((about_surface_id(), SurfaceRole::About)),
                AboutChoice::Custom(surface) => Some((surface.id, SurfaceRole::About)),
                AboutChoice::Disabled => None,
            },
    {
        match &self.policy {
            AboutPolicy::Framework => Some(("about", SurfaceRole::About)),
            AboutPolicy::Custom(surface) => Some((surface.id(), SurfaceRole::About)),
            AboutPolicy::Disabled => None,
        }
    }

    /// Per-surface faults of a custom About, then one fault per surplus
    /// intent.
    pub fn validate(&self, errors: &mut Vec<DeclarationError>)
        ensures
            final(errors)@ == old(errors)@ + about_faults(self@),
    {
        let ghost start = errors@;
        match &self.policy {
            AboutPolicy::Custom(surface) => surface.validate(errors),
            _ => {},
        }
        let ghost after_surface = errors@;
        let mut k: usize = 0;
        while k < self.surplus
            invariant
                k <= self.surplus,
                errors@ == after_surface + Seq::new(
                    k as nat,
                    |i: int| DeclarationError::MultipleAboutDeclarations,
                ),
            decreases self.surplus - k,
        {
            errors.push(DeclarationError::MultipleAboutDeclarations);
            k = k + 1;
            assert(errors@ =~= after_surface + Seq::new(
                k as nat,
                |i: int| DeclarationError::MultipleAboutDeclarations,
            ));
        }
        assert(errors@ =~= start + about_faults(self@));
    }
}

/// The About intent's faults: a custom surface's own faults, then one per
/// surplus intent.
pub open spec fn about_faults(intent: IntentModel<AboutChoice>) -> Seq<DeclarationError> {
    (match intent.policy {
        AboutChoice::Custom(surface) => super::surface::spec_surface_faults(surface),
        _ => Seq::empty(),
    }) + Seq::new(intent.surplus, |i: int| DeclarationError::MultipleAboutDeclarations)
}

/// The theme policy.
#[derive(Debug, Clone, Copy, PartialEq, Eq)]
pub enum ThemeChoice {
    /// The framework's registry-backed source.
    Framework,
    /// An application-supplied source.
    Custom,
    /// No theme convention: no shell preferences, no theme plugin, no
    /// Appearance section.
    Disabled,
}

/// The declared theme intent, resolved first-wins exactly like
/// [`AboutIntent`].
#[derive(Debug)]
pub struct ThemeIntent {
    policy: ThemeChoice,
    explicit: bool,
    surplus: usize,
}

impl View for ThemeIntent {
    type V = IntentModel<ThemeChoice>;

    closed spec fn view(&self) -> IntentModel<ThemeChoice> {
        IntentModel { policy: self.policy, explicit: self.explicit, surplus: self.surplus as nat }
    }
}

impl ThemeIntent {
    /// The convention: the registry-backed theme source.
    pub fn new() -> (intent: Self)
        ensures
            intent@ == (IntentModel {
                policy: ThemeChoice::Framework,
                explicit: false,
                surplus: 0,
            }),
    {
        ThemeIntent { policy: ThemeChoice::Framework, explicit: false, surplus: 0 }
    }

    /// Replace the framework source.
    pub fn custom(&mut self)
        requires
            old(self)@.surplus < usize::MAX,
        ensures
            final(self)@ == intent_step(old(self)@, ThemeChoice::Custom),
    {
        if self.explicit {
            self.surplus = self.surplus + 1;
            return ;
        }
        self.policy = ThemeChoice::Custom;
        self.explicit = true;
    }

    /// Drop the theme convention entirely.
    pub fn disable(&mut self)
        requires
            old(self)@.surplus < usize::MAX,
        ensures
            final(self)@ == intent_step(old(self)@, ThemeChoice::Disabled),
    {
        if self.explicit {
            self.surplus = self.surplus + 1;
            return ;
        }
        self.policy = ThemeChoice::Disabled;
        self.explicit = true;
    }

    /// The resolved policy.
    pub fn policy(&self) -> (policy: ThemeChoice)
        ensures
            policy == self@.policy,
    {
        self.policy
    }

    /// Whether the Appearance section and its persistence are installed.
    pub fn enabled(&self) -> (enabled: bool)
        ensures
            enabled == !(self@.policy is Disabled),
    {
        match self.policy {
            ThemeChoice::Disabled => false,
            _ => true,
        }
    }

    /// One fault per surplus intent.
    pub fn validate(&self, errors: &mut Vec<DeclarationError>)
        ensures
            final(errors)@ == old(errors)@ + Seq::new(
                self@.surplus,
                |i: int| DeclarationError::MultipleThemeDeclarations,
            ),
    {
        let ghost start = errors@;
        let mut k: usize = 0;
        while k < self.surplus
            invariant
                k <= self.surplus,
                errors@ == start + Seq::new(
                    k as nat,
                    |i: int| DeclarationError::MultipleThemeDeclarations,
                ),
            decreases self.surplus - k,
        {
            errors.push(DeclarationError::MultipleThemeDeclarations);
            k = k + 1;
            assert(errors@ =~= start + Seq::new(
                k as nat,
                |i: int| DeclarationError::MultipleThemeDeclarations,
            ));
        }
    }
}

// ---------------------------------------------------------------------------
// Lifecycle hook slots.
// ---------------------------------------------------------------------------

/// The lifecycle hook slots as a value.
pub struct HooksModel {
    /// Whether a start hook was declared.
    pub start: bool,
    /// Start hooks past the first.
    pub surplus_starts: nat,
    /// Event observers declared.
    pub observers: nat,
    /// Whether an error reporter was declared.
    pub reporter: bool,
    /// Error reporters past the first.
    pub surplus_reporters: nat,
    /// Whether a shutdown hook was declared.
    pub shutdown: bool,
    /// Shutdown hooks past the first.
    pub surplus_shutdowns: nat,
}

/// The cardinality of the declared lifecycle hooks: `on_event` is
/// repeatable; start, the reporter, and shutdown are singletons whose
/// surplus declarations are counted.
#[derive(Debug)]
pub struct LifecycleHooks {
    start: bool,
    surplus_starts: usize,
    observers: usize,
    reporter: bool,
    surplus_reporters: usize,
    shutdown: bool,
    surplus_shutdowns: usize,
}

impl View for LifecycleHooks {
    type V = HooksModel;

    closed spec fn view(&self) -> HooksModel {
        HooksModel {
            start: self.start,
            surplus_starts: self.surplus_starts as nat,
            observers: self.observers as nat,
            reporter: self.reporter,
            surplus_reporters: self.surplus_reporters as nat,
            shutdown: self.shutdown,
            surplus_shutdowns: self.surplus_shutdowns as nat,
        }
    }
}

/// One fault per surplus singleton hook, in slot order: start, reporter,
/// shutdown.
pub open spec fn hook_faults(hooks: HooksModel) -> Seq<DeclarationError> {
    Seq::new(hooks.surplus_starts, |i: int| DeclarationError::MultipleStartHooks) + Seq::new(
        hooks.surplus_reporters,
        |i: int| DeclarationError::MultipleErrorReporters,
    ) + Seq::new(hooks.surplus_shutdowns, |i: int| DeclarationError::MultipleShutdownHooks)
}

/// Append `count` copies of `error`.
fn push_copies(errors: &mut Vec<DeclarationError>, count: usize, error: DeclarationError)
    requires
        error is MultipleStartHooks || error is MultipleErrorReporters
            || error is MultipleShutdownHooks,
    ensures
        final(errors)@ == old(errors)@ + Seq::new(count as nat, |i: int| error),
{
    let ghost start = errors@;
    let mut k: usize = 0;
    while k < count
        invariant
            k <= count,
            error is MultipleStartHooks || error is MultipleErrorReporters
                || error is MultipleShutdownHooks,
            errors@ == start + Seq::new(k as nat, |i: int| error),
        decreases count - k,
    {
        let copy = match error {
            DeclarationError::MultipleStartHooks => DeclarationError::MultipleStartHooks,
            DeclarationError::MultipleErrorReporters => DeclarationError::MultipleErrorReporters,
            _ => DeclarationError::MultipleShutdownHooks,
        };
        errors.push(copy);
        k = k + 1;
        assert(errors@ =~= start + Seq::new(k as nat, |i: int| error));
    }
}

impl LifecycleHooks {
    /// The conventional default: no lifecycle hooks at all.
    pub fn new() -> (hooks: Self)
        ensures
            hooks@ == (HooksModel {
                start: false,
                surplus_starts: 0,
                observers: 0,
                reporter: false,
                surplus_reporters: 0,
                shutdown: false,
                surplus_shutdowns: 0,
            }),
    {
        LifecycleHooks {
            start: false,
            surplus_starts: 0,
            observers: 0,
            reporter: false,
            surplus_reporters: 0,
            shutdown: false,
            surplus_shutdowns: 0,
        }
    }

    /// Record the common start hook, counting a surplus declaration.
    pub fn start(&mut self)
        requires
            old(self)@.surplus_starts < usize::MAX,
        ensures
            final(self)@ == (if old(self)@.start {
                HooksModel { surplus_starts: old(self)@.surplus_starts + 1, ..old(self)@ }
            } else {
                HooksModel { start: true, ..old(self)@ }
            }),
    {
        if self.start {
            self.surplus_starts = self.surplus_starts + 1;
        } else {
            self.start = true;
        }
    }

    /// Record an event observer. Repeatable.
    pub fn on_event(&mut self)
        requires
            old(self)@.observers < usize::MAX,
        ensures
            final(self)@ == (HooksModel { observers: old(self)@.observers + 1, ..old(self)@ }),
    {
        self.observers = self.observers + 1;
    }

    /// Record the runtime error reporter, counting a surplus declaration.
    pub fn on_error(&mut self)
        requires
            old(self)@.surplus_reporters < usize::MAX,
        ensures
            final(self)@ == (if old(self)@.reporter {
                HooksModel { surplus_reporters: old(self)@.surplus_reporters + 1, ..old(self)@ }
            } else {
                HooksModel { reporter: true, ..old(self)@ }
            }),
    {
        if self.reporter {
            self.surplus_reporters = self.surplus_reporters + 1;
        } else {
            self.reporter = true;
        }
    }

    /// Record the application shutdown hook, counting a surplus declaration.
    pub fn shutdown(&mut self)
        requires
            old(self)@.surplus_shutdowns < usize::MAX,
        ensures
            final(self)@ == (if old(self)@.shutdown {
                HooksModel { surplus_shutdowns: old(self)@.surplus_shutdowns + 1, ..old(self)@ }
            } else {
                HooksModel { shutdown: true, ..old(self)@ }
            }),
    {
        if self.shutdown {
            self.surplus_shutdowns = self.surplus_shutdowns + 1;
        } else {
            self.shutdown = true;
        }
    }

    /// Report one fault per surplus singleton hook, in slot order.
    pub fn validate(&self, errors: &mut Vec<DeclarationError>)
        ensures
            final(errors)@ == old(errors)@ + hook_faults(self@),
    {
        let ghost start = errors@;
        push_copies(errors, self.surplus_starts, DeclarationError::MultipleStartHooks);
        push_copies(errors, self.surplus_reporters, DeclarationError::MultipleErrorReporters);
        push_copies(errors, self.surplus_shutdowns, DeclarationError::MultipleShutdownHooks);
        assert(errors@ =~= start + hook_faults(self@));
    }
}

// ---------------------------------------------------------------------------
// Settings store keys.
// ---------------------------------------------------------------------------

/// A store-key fault as a value: the reserved shell-preferences key, or a
/// repeated key, each with the key's text.
pub enum StoreFault {
    /// The key is the reserved shell-preferences key.
    Reserved(Seq<char>),
    /// An earlier store already claimed the key.
    Duplicate(Seq<char>),
}

/// Whether `error` is the declaration error for `fault`.
pub open spec fn is_store_fault(error: DeclarationError, fault: StoreFault) -> bool {
    match fault {
        StoreFault::Reserved(key) => error matches DeclarationError::ReservedSettingsStoreKey {
            key: k,
        } && k@ == key,
        StoreFault::Duplicate(key) => error matches DeclarationError::DuplicateSettingsStoreKey {
            key: k,
        } && k@ == key,
    }
}

/// The faults of the first `n` store keys, in declaration order: the reserved
/// key is refused (and claims nothing); otherwise only the surplus store of a
/// colliding pair is blamed.
pub open spec fn store_faults(keys: Seq<Seq<char>>, n: nat) -> Seq<StoreFault>
    decreases n,
{
    if n == 0 {
        Seq::empty()
    } else {
        let key = keys[n - 1];
        store_faults(keys, (n - 1) as nat) + (if key == "shell-preferences"@ {
            seq![StoreFault::Reserved(key)]
        } else if keys.take(n - 1).contains(key) {
            seq![StoreFault::Duplicate(key)]
        } else {
            Seq::empty()
        })
    }
}

proof fn lemma_store_fault_of(keys: Seq<Seq<char>>, j: int, n: nat)
    requires
        0 <= j < n <= keys.len(),
    ensures
        keys[j] == "shell-preferences"@ ==> store_faults(keys, n).contains(
            StoreFault::Reserved(keys[j]),
        ),
        keys[j] != "shell-preferences"@ && (exists|i: int| 0 <= i < j && keys[i] == keys[j])
            ==> store_faults(keys, n).contains(StoreFault::Duplicate(keys[j])),
    decreases n,
{
    let earlier = store_faults(keys, (n - 1) as nat);
    let key = keys[n - 1];
    let own = if key == "shell-preferences"@ {
        seq![StoreFault::Reserved(key)]
    } else if keys.take(n - 1).contains(key) {
        seq![StoreFault::Duplicate(key)]
    } else {
        Seq::empty()
    };
    assert(store_faults(keys, n) == earlier + own);
    if j == n - 1 {
        if key != "shell-preferences"@ && (exists|i: int| 0 <= i < j && keys[i] == keys[j]) {
            let i = choose|i: int| 0 <= i < j && keys[i] == keys[j];
            assert(keys.take(n - 1)[i] == key);
        }
        if own.len() > 0 {
            assert((earlier + own)[earlier.len() as int] == own[0]);
        }
    } else {
        lemma_store_fault_of(keys, j, (n - 1) as nat);
        if keys[j] == "shell-preferences"@ {
            let k = choose|k: int| 0 <= k < earlier.len() && earlier[k] == StoreFault::Reserved(keys[j]);
            assert((earlier + own)[k] == earlier[k]);
        }
        if keys[j] != "shell-preferences"@ && (exists|i: int| 0 <= i < j && keys[i] == keys[j]) {
            let k = choose|k: int| 0 <= k < earlier.len() && earlier[k] == StoreFault::Duplicate(keys[j]);
            assert((earlier + own)[k] == earlier[k]);
        }
    }
}

proof fn lemma_clean_stores_fault_nothing(keys: Seq<Seq<char>>, n: nat)
    requires
        n <= keys.len(),
        forall|i: int, j: int| 0 <= i < j < keys.len() ==> keys[i] != keys[j],
        forall|j: int| 0 <= j < keys.len() ==> keys[j] != "shell-preferences"@,
    ensures
        store_faults(keys, n).len() == 0,
    decreases n,
{
    if n > 0 {
        lemma_clean_stores_fault_nothing(keys, (n - 1) as nat);
        let key = keys[n - 1];
        if keys.take(n - 1).contains(key) {
            let k = choose|k: int| 0 <= k < keys.take(n - 1).len() && #[trigger] keys.take(n - 1)[k] == key;
            assert(keys[k] == keys[n - 1]);
        }
    }
}

/// Every settings store declared with a key an earlier store already claimed
/// is refused, wherever the earlier store stands: a repeated key is reported
/// as a duplicate (or, for the reserved shell-preferences key, as reserved).
/// The store keys fault nothing exactly when they are pairwise different and
/// none is the reserved key.
pub proof fn lemma_every_repeated_store_key_is_refused(keys: Seq<Seq<char>>)
    ensures
        forall|i: int, j: int|
            0 <= i < j < keys.len() && #[trigger] keys[i] == #[trigger] keys[j] ==> store_faults(
                keys,
                keys.len(),
            ).contains(
                if keys[j] == "shell-preferences"@ {
                    StoreFault::Reserved(keys[j])
                } else {
                    StoreFault::Duplicate(keys[j])
                },
            ),
        store_faults(keys, keys.len()).len() == 0 <==> (forall|i: int, j: int|
            0 <= i < j < keys.len() ==> keys[i] != keys[j]) && (forall|j: int|
            0 <= j < keys.len() ==> keys[j] != "shell-preferences"@),
{
    assert forall|i: int, j: int|
        0 <= i < j < keys.len() && #[trigger] keys[i] == #[trigger] keys[j] implies store_faults(
            keys,
            keys.len(),
        ).contains(
            if keys[j] == "shell-preferences"@ {
                StoreFault::Reserved(keys[j])
            } else {
                StoreFault::Duplicate(keys[j])
            },
        ) by {
        lemma_store_fault_of(keys, j, keys.len());
    }
    let distinct = forall|i: int, j: int| 0 <= i < j < keys.len() ==> keys[i] != keys[j];
    let unreserved = forall|j: int| 0 <= j < keys.len() ==> keys[j] != "shell-preferences"@;
    if distinct && unreserved {
        lemma_clean_stores_fault_nothing(keys, keys.len());
    }
    if store_faults(keys, keys.len()).len() == 0 {
        assert forall|i: int, j: int| 0 <= i < j < keys.len() implies keys[i] != keys[j] by {
            if keys[i] == keys[j] {
                lemma_store_fault_of(keys, j, keys.len());
            }
        }
        assert forall|j: int| 0 <= j < keys.len() implies keys[j] != "shell-preferences"@ by {
            lemma_store_fault_of(keys, j, keys.len());
        }
    }
}

/// The texts of a sequence of store keys.
pub open spec fn store_key_texts(keys: Seq<StoreKey>) -> Seq<Seq<char>> {
    keys.map_values(|k: StoreKey| k@)
}

/// Append one fault per reserved or repeated settings store key.
pub fn validate_settings_stores(stores: &[StoreKey], errors: &mut Vec<DeclarationError>)
    ensures
        final(errors)@.len() == old(errors)@.len() + store_faults(
            store_key_texts(stores@),
            stores@.len(),
        ).len(),
        final(errors)@.subrange(0, old(errors)@.len() as int) == old(errors)@,
        forall|k: int|
            0 <= k < store_faults(store_key_texts(stores@), stores@.len()).len() ==> is_store_fault(
                #[trigger] final(errors)@[old(errors)@.len() + k],
                store_faults(store_key_texts(stores@), stores@.len())[k],
            ),
{
    let ghost start = errors@;
    let ghost keys = store_key_texts(stores@);
    let mut i: usize = 0;
    while i < stores.len()
        invariant
            keys == store_key_texts(stores@),
            i <= stores@.len(),
            errors@.len() == start.len() + store_faults(keys, i as nat).len(),
            errors@.subrange(0, start.len() as int) == start,
            forall|k: int|
                0 <= k < store_faults(keys, i as nat).len() ==> is_store_fault(
                    #[trigger] errors@[start.len() + k],
                    store_faults(keys, i as nat)[k],
                ),
        decreases stores@.len() - i,
    {
        let key = &stores[i];
        assert(keys[i as int] == key@);
        let ghost before = errors@;
        let ghost prev = store_faults(keys, i as nat);
        if is_shell_preferences_key(key) {
            errors.push(DeclarationError::ReservedSettingsStoreKey { key: key.as_str().to_owned() });
        } else {
            let mut j: usize = 0;
            let mut seen = false;
            while j < i
                invariant
                    keys == store_key_texts(stores@),
                    i < stores@.len(),
                    j <= i,
                    key@ == keys[i as int],
                    seen == exists|k: int| 0 <= k < j && keys[k] == key@,
                decreases i - j,
            {
                assert(keys[j as int] == stores@[j as int]@);
                if str_eq(stores[j].as_str(), key.as_str()) {
                    seen = true;
                }
                j = j + 1;
            }
            assert(seen == keys.take(i as int).contains(key@)) by {
                if seen {
                    let k = choose|k: int| 0 <= k < i && keys[k] == key@;
                    assert(keys.take(i as int)[k] == key@);
                }
                if keys.take(i as int).contains(key@) {
                    let k = choose|k: int|
                        0 <= k < keys.take(i as int).len() && keys.take(i as int)[k] == key@;
                    assert(keys[k] == key@);
                }
            }
            if seen {
                errors.push(DeclarationError::DuplicateSettingsStoreKey { key: key.as_str().to_owned() });
            }
        }
        proof {
            let now = store_faults(keys, (i + 1) as nat);
            assert(now.subrange(0, prev.len() as int) =~= prev);
            assert forall|k: int| 0 <= k < now.len() implies is_store_fault(
                #[trigger] errors@[start.len() + k],
                now[k],
            ) by {
                if k < prev.len() {
                    assert(errors@[start.len() + k] == before[start.len() + k]);
                    assert(now[k] == prev[k]);
                }
            }
            assert(errors@.subrange(0, start.len() as int) =~= before.subrange(
                0,
                start.len() as int,
            ));
        }
        i = i + 1;
    }
}

// ---------------------------------------------------------------------------
// The launch set.
// ---------------------------------------------------------------------------

/// An exact identity of a Rust type, assigned by the host: two tags are equal
/// exactly when they stand for the same type, and the unit type `()` has the
/// tag [`TypeTag::unit`].
#[derive(Debug, Clone, Copy, PartialEq, Eq, Hash)]
pub struct TypeTag(pub u64);

impl TypeTag {
    /// The tag of the unit type `()`.
    pub fn unit() -> (tag: Self)
        ensures
            tag == TypeTag(0),
    {
        TypeTag(0)
    }
}

/// What an application's launch parser decided.
#[derive(Debug, Clone, PartialEq, Eq)]
pub enum LaunchDecision<T> {
    /// Continue startup with this immutable launch value.
    Run(T),
    /// The request was answered without running the application (`--help`,
    /// `--version`): the shell writes `stdout`, if any, and returns success
    /// before any path, platform or toolkit construction.
    ExitSuccess {
        /// Text to write to standard output verbatim.
        stdout: Option<String>,
    },
}

/// What validation reads of one declared launch module: its launch value
/// type, with its diagnostic name, and how many `before_primary` hooks were
/// declared beyond the first.
#[derive(Debug, Clone, Copy, PartialEq, Eq)]
pub struct DeclaredLaunch {
    /// The launch value type.
    pub value: TypeTag,
    /// The launch value type's diagnostic name.
    pub value_name: &'static str,
    /// `before_primary` hooks past the first.
    pub surplus_hooks: usize,
}

/// What validation reads of one declared primary surface opener: its
/// argument type, with its diagnostic name.
#[derive(Debug, Clone, Copy, PartialEq, Eq)]
pub struct PrimaryOpener {
    /// The argument type.
    pub args: TypeTag,
    /// The argument type's diagnostic name.
    pub args_name: &'static str,
}

/// The launch value type: the first launch module's, or `()` without one.
pub open spec fn launch_value(launch: Seq<DeclaredLaunch>) -> TypeTag {
    if launch.len() > 0 {
        launch[0].value
    } else {
        TypeTag(0)
    }
}

/// One fault per surplus `before_primary` hook of each launch, in order.
pub open spec fn launch_hook_faults(launch: Seq<DeclaredLaunch>, n: nat) -> Seq<DeclarationError>
    decreases n,
{
    if n == 0 {
        Seq::empty()
    } else {
        launch_hook_faults(launch, (n - 1) as nat) + Seq::new(
            launch[n - 1].surplus_hooks as nat,
            |i: int| DeclarationError::MultipleBeforePrimaryHooks { launch: launch[n - 1].value_name },
        )
    }
}

/// The launch set's faults: one per launch module past the first; one per
/// surplus `before_primary` hook of every launch module, the surplus ones
/// included; and, when primary surfaces exist but none takes the launch value
/// type as its arguments, one argument fault naming the first. A duplicate
/// primary is a surface fault, so any matching primary clears this one.
pub open spec fn launch_set_faults(launch: Seq<DeclaredLaunch>, primary: Seq<PrimaryOpener>) -> Seq<
    DeclarationError,
> {
    Seq::new(
        (if launch.len() > 0 { launch.len() - 1 } else { 0 }) as nat,
        |i: int| DeclarationError::MultipleLaunchSpecs { launch: launch[i + 1].value_name },
    ) + launch_hook_faults(launch, launch.len()) + (if primary.len() > 0 && !(exists|k: int|
        0 <= k < primary.len() && (#[trigger] primary[k]).args == launch_value(launch)) {
        seq![DeclarationError::PrimarySurfaceArguments { arguments: primary[0].args_name }]
    } else {
        Seq::empty()
    })
}

/// Append the launch set's faults.
pub fn validate_launch_set(
    launch: &[DeclaredLaunch],
    primary: &[PrimaryOpener],
    errors: &mut Vec<DeclarationError>,
)
    ensures
        final(errors)@ == old(errors)@ + launch_set_faults(launch@, primary@),
{
    let ghost start = errors@;
    let n = launch.len();
    let mut i: usize = 0;
    while i < n
        invariant
            n == launch@.len(),
            i <= n,
            errors@ == start + Seq::new(
                (if i > 0 { i - 1 } else { 0 }) as nat,
                |k: int| DeclarationError::MultipleLaunchSpecs { launch: launch@[k + 1].value_name },
            ),
        decreases n - i,
    {
        if i > 0 {
            errors.push(DeclarationError::MultipleLaunchSpecs { launch: launch[i].value_name });
        }
        i = i + 1;
        assert(errors@ =~= start + Seq::new(
            (if i > 0 { i - 1 } else { 0 }) as nat,
            |k: int| DeclarationError::MultipleLaunchSpecs { launch: launch@[k + 1].value_name },
        ));
    }
    let ghost spec_part = Seq::new(
        (if launch@.len() > 0 { launch@.len() - 1 } else { 0 }) as nat,
        |k: int| DeclarationError::MultipleLaunchSpecs { launch: launch@[k + 1].value_name },
    );
    assert(errors@ =~= start + spec_part);
    let ghost after_specs = errors@;
    let mut i: usize = 0;
    while i < launch.len()
        invariant
            i <= launch@.len(),
            errors@ == after_specs + launch_hook_faults(launch@, i as nat),
        decreases launch@.len() - i,
    {
        let declared = launch[i];
        let ghost before = errors@;
        let mut k: usize = 0;
        while k < declared.surplus_hooks
            invariant
                k <= declared.surplus_hooks,
                errors@ == before + Seq::new(
                    k as nat,
                    |j: int| DeclarationError::MultipleBeforePrimaryHooks {
                        launch: declared.value_name,
                    },
                ),
            decreases declared.surplus_hooks - k,
        {
            errors.push(DeclarationError::MultipleBeforePrimaryHooks { launch: declared.value_name });
            k = k + 1;
            assert(errors@ =~= before + Seq::new(
                k as nat,
                |j: int| DeclarationError::MultipleBeforePrimaryHooks {
                    launch: declared.value_name,
                },
            ));
        }
        i = i + 1;
    }
    let ghost after_hooks = errors@;
    assert(after_hooks == start + spec_part + launch_hook_faults(launch@, launch@.len()));
    if primary.len() > 0 {
        let value = if launch.len() > 0 {
            launch[0].value
        } else {
            TypeTag::unit()
        };
        let mut any = false;
        let mut k: usize = 0;
        while k < primary.len()
            invariant
                value == launch_value(launch@),
                k <= primary@.len(),
                any == exists|j: int| 0 <= j < k && (#[trigger] primary@[j]).args == value,
            decreases primary@.len() - k,
        {
            if primary[k].args.0 == value.0 {
                assert(primary@[k as int].args == value);
                any = true;
            }
            k = k + 1;
        }
        if !any {
            errors.push(DeclarationError::PrimarySurfaceArguments { arguments: primary[0].args_name });
        }
    }
    assert(errors@ =~= start + launch_set_faults(launch@, primary@));
}

// ---------------------------------------------------------------------------
// Identity.
// ---------------------------------------------------------------------------

/// Identity faults, in field order: an empty `app_id`, then an empty
/// `data_namespace`.
pub open spec fn identity_faults(app_id: Seq<char>, data_namespace: Seq<char>) -> Seq<
    DeclarationError,
> {
    (if app_id.len() == 0 {
        seq![DeclarationError::InvalidIdentity { field: "app_id", reason: "is empty" }]
    } else {
        Seq::empty()
    }) + (if data_namespace.len() == 0 {
        seq![DeclarationError::InvalidIdentity { field: "data_namespace", reason: "is empty" }]
    } else {
        Seq::empty()
    })
}

/// Append the identity faults, in field order.
pub fn validate_identity(app_id: &str, data_namespace: &str, errors: &mut Vec<DeclarationError>)
    ensures
        final(errors)@ == old(errors)@ + identity_faults(app_id@, data_namespace@),
{
    let ghost start = errors@;
    if app_id.unicode_len() == 0 {
        errors.push(DeclarationError::InvalidIdentity { field: "app_id", reason: "is empty" });
    }
    if data_namespace.unicode_len() == 0 {
        errors.push(
            DeclarationError::InvalidIdentity { field: "data_namespace", reason: "is empty" },
        );
    }
    assert(errors@ =~= start + identity_faults(app_id@, data_namespace@));
}

} // verus!
