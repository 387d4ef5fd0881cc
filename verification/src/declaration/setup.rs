//! Typed application setup modules: a validated stable key, explicit
//! dependencies, and at most one teardown.
//!
//! Declaring and planning a setup graph is pure: [`plan`] validates keys,
//! dependencies, and cycles and resolves the deterministic initialization order
//! without the UI toolkit, the filesystem, or host inspection. The module's
//! initializer and teardown hooks are run by the shell's runtime, which keeps
//! them beside the declared data this module plans over.

use vstd::prelude::*;

use super::errors::DeclarationError;
use crate::text::{is_ascii_alphanumeric, spec_is_ascii_alphanumeric, str_eq};
use vstd::string::StrSliceExecFns;

verus! {

/// A stable setup-module identifier. The value is checked by [`plan`], not by
/// the constructor.
#[derive(Debug, Clone, Copy, PartialEq, Eq)]
pub struct SetupKey(&'static str);

impl SetupKey {
    /// The identifier text, as a value.
    pub closed spec fn text(self) -> &'static str {
        self.0
    }
}

impl View for SetupKey {
    type V = Seq<char>;

    open spec fn view(&self) -> Seq<char> {
        self.text()@
    }
}

impl SetupKey {
    /// A key for an application-chosen stable identifier.
    pub fn new(key: &'static str) -> (setup_key: Self)
        ensures
            setup_key.text() == key,
    {
        SetupKey(key)
    }

    /// The stable identifier.
    pub fn as_str(self) -> (text: &'static str)
        ensures
            text == self.text(),
    {
        self.0
    }

    /// Whether two keys name the same module.
    pub fn same(self, other: Self) -> (same: bool)
        ensures
            same == (self@ == other@),
    {
        str_eq(self.0, other.0)
    }
}

/// Whether `dependencies` already names `key`.
fn contains_key(dependencies: &Vec<SetupKey>, key: SetupKey) -> (found: bool)
    ensures
        found == (exists|i: int| 0 <= i < dependencies@.len() && (#[trigger] dependencies@[i])@ == key@),
{
    let mut i: usize = 0;
    while i < dependencies.len()
        invariant
            i <= dependencies@.len(),
            forall|j: int| 0 <= j < i ==> (#[trigger] dependencies@[j])@ != key@,
        decreases dependencies@.len() - i,
    {
        if dependencies[i].same(key) {
            return true;
        }
        i = i + 1;
    }
    false
}

/// The declared data of a setup module: its key, its dependencies in first
/// mention order, whether a teardown was declared, and how many more were.
pub struct SetupModel {
    /// The declared key.
    pub key: SetupKey,
    /// The declared dependencies, without repeats, in first-mention order.
    pub dependencies: Seq<SetupKey>,
    /// Whether a teardown was declared.
    pub has_teardown: bool,
    /// Teardowns declared beyond the first.
    pub surplus_teardowns: nat,
}

/// One declared application setup module.
#[derive(Debug)]
pub struct SetupModule {
    key: SetupKey,
    dependencies: Vec<SetupKey>,
    has_teardown: bool,
    surplus_teardowns: usize,
}

impl View for SetupModule {
    type V = SetupModel;

    closed spec fn view(&self) -> SetupModel {
        SetupModel {
            key: self.key,
            dependencies: self.dependencies@,
            has_teardown: self.has_teardown,
            surplus_teardowns: self.surplus_teardowns as nat,
        }
    }
}

impl SetupModule {
    /// Declare a setup module under `key`.
    pub fn new(key: SetupKey) -> (module: Self)
        ensures
            module@.key == key,
            module@.dependencies.len() == 0,
            !module@.has_teardown,
            module@.surplus_teardowns == 0,
    {
        SetupModule {
            key,
            dependencies: Vec::new(),
            has_teardown: false,
            surplus_teardowns: 0,
        }
    }

    /// Require another application setup module to initialize first.
    ///
    /// Naming the same dependency twice is idempotent: the repeat is dropped
    /// and the first mention keeps its position.
    pub fn after(self, dependency: SetupKey) -> (module: Self)
        ensures
            module@.key == self@.key,
            module@.has_teardown == self@.has_teardown,
            module@.surplus_teardowns == self@.surplus_teardowns,
            module@.dependencies == (if exists|i: int|
                0 <= i < self@.dependencies.len() && (#[trigger] self@.dependencies[i])@
                    == dependency@ {
                self@.dependencies
            } else {
                self@.dependencies.push(dependency)
            }),
    {
        let mut module = self;
        if !contains_key(&module.dependencies, dependency) {
            module.dependencies.push(dependency);
        }
        module
    }

    /// Declare the module's teardown. At most one may be declared: a second is
    /// counted, never a replacement, and [`plan`] reports it.
    pub fn shutdown(self) -> (module: Self)
        requires
            self@.surplus_teardowns < usize::MAX,
        ensures
            module@.key == self@.key,
            module@.dependencies == self@.dependencies,
            module@.has_teardown,
            module@.surplus_teardowns == (if self@.has_teardown {
                self@.surplus_teardowns + 1
            } else {
                self@.surplus_teardowns
            }),
    {
        let mut module = self;
        if module.has_teardown {
            module.surplus_teardowns = module.surplus_teardowns + 1;
        } else {
            module.has_teardown = true;
        }
        module
    }

    /// The declared key.
    pub fn key(&self) -> (key: SetupKey)
        ensures
            key == self@.key,
    {
        self.key
    }
}

/// One complete setup module, as the shell's declaration retains it.
#[derive(Debug)]
pub struct DeclaredSetupModule {
    key: SetupKey,
    dependencies: Vec<SetupKey>,
    has_teardown: bool,
    surplus_teardowns: usize,
}

impl View for DeclaredSetupModule {
    type V = SetupModel;

    closed spec fn view(&self) -> SetupModel {
        SetupModel {
            key: self.key,
            dependencies: self.dependencies@,
            has_teardown: self.has_teardown,
            surplus_teardowns: self.surplus_teardowns as nat,
        }
    }
}

impl DeclaredSetupModule {
    /// Erase a complete setup module, keeping every declared fact.
    pub fn erase(module: SetupModule) -> (declared: Self)
        ensures
            declared@ == module@,
    {
        let SetupModule { key, dependencies, has_teardown, surplus_teardowns } = module;
        DeclaredSetupModule { key, dependencies, has_teardown, surplus_teardowns }
    }

    /// The declared key.
    pub fn key(&self) -> (key: SetupKey)
        ensures
            key == self@.key,
    {
        self.key
    }

    /// The declared dependencies: deduplicated, in first-mention order.
    pub fn dependencies(&self) -> (dependencies: &[SetupKey])
        ensures
            dependencies@ == self@.dependencies,
    {
        self.dependencies.as_slice()
    }

    /// Whether a teardown was declared.
    pub fn has_teardown(&self) -> (present: bool)
        ensures
            present == self@.has_teardown,
    {
        self.has_teardown
    }

    /// How many teardowns were declared beyond the first.
    pub fn surplus_teardowns(&self) -> (surplus: usize)
        ensures
            surplus == self@.surplus_teardowns,
    {
        self.surplus_teardowns
    }
}

// ---------------------------------------------------------------------------
// The planning specification.
// ---------------------------------------------------------------------------

/// A character allowed in a setup key.
pub open spec fn spec_key_char(c: char) -> bool {
    spec_is_ascii_alphanumeric(c) || c == '.' || c == '-' || c == '_'
}

/// Why `key` is unusable as a stable setup key, if it is.
pub open spec fn spec_invalid_key_reason(key: Seq<char>) -> Option<&'static str> {
    if key.len() == 0 {
        Some("is empty")
    } else if exists|i: int| 0 <= i < key.len() && !spec_key_char(#[trigger] key[i]) {
        Some("must contain only ASCII letters, digits, `.`, `-`, or `_`")
    } else {
        None
    }
}

/// Whether an earlier module declares the same key as module `i`.
pub open spec fn key_declared_before(modules: Seq<SetupModel>, i: int) -> bool {
    exists|j: int| 0 <= j < i && (#[trigger] modules[j]).key@ == modules[i].key@
}

/// Module `i`'s key faults: an invalid key, a repeated key (only the surplus
/// declaration is blamed), and one fault per surplus teardown.
pub open spec fn module_key_faults(modules: Seq<SetupModel>, i: int) -> Seq<DeclarationError> {
    let key = modules[i].key.text();
    (match spec_invalid_key_reason(modules[i].key@) {
        Some(reason) => seq![DeclarationError::InvalidSetupKey { key, reason }],
        None => Seq::empty(),
    }) + (if key_declared_before(modules, i) {
        seq![DeclarationError::DuplicateSetupKey { key }]
    } else {
        Seq::empty()
    }) + Seq::new(
        modules[i].surplus_teardowns,
        |k: int| DeclarationError::MultipleSetupTeardowns { key },
    )
}

/// The key faults of the first `n` modules, in declaration order.
pub open spec fn key_faults(modules: Seq<SetupModel>, n: int) -> Seq<DeclarationError>
    decreases n,
{
    if n <= 0 {
        Seq::empty()
    } else {
        key_faults(modules, n - 1) + module_key_faults(modules, n - 1)
    }
}

/// Whether some module declares `dependency`'s key.
pub open spec fn is_declared(modules: Seq<SetupModel>, dependency: SetupKey) -> bool {
    exists|j: int| 0 <= j < modules.len() && (#[trigger] modules[j]).key@ == dependency@
}

/// Module `i`'s faults for its first `d` dependencies: one per undeclared one.
pub open spec fn dependency_faults(modules: Seq<SetupModel>, i: int, d: int) -> Seq<
    DeclarationError,
>
    decreases d,
{
    if d <= 0 {
        Seq::empty()
    } else {
        let dependency = modules[i].dependencies[d - 1];
        dependency_faults(modules, i, d - 1) + (if is_declared(modules, dependency) {
            Seq::empty()
        } else {
            seq![
                DeclarationError::MissingSetupDependency {
                    key: modules[i].key.text(),
                    dependency: dependency.text(),
                },
            ]
        })
    }
}

/// The dependency faults of the first `n` modules, module by module.
pub open spec fn all_dependency_faults(modules: Seq<SetupModel>, n: int) -> Seq<
    DeclarationError,
>
    decreases n,
{
    if n <= 0 {
        Seq::empty()
    } else {
        all_dependency_faults(modules, n - 1) + dependency_faults(
            modules,
            n - 1,
            modules[n - 1].dependencies.len() as int,
        )
    }
}

/// Stage-one faults: every key fault, then every missing dependency.
pub open spec fn spec_graph_faults(modules: Seq<SetupModel>) -> Seq<DeclarationError> {
    key_faults(modules, modules.len() as int) + all_dependency_faults(
        modules,
        modules.len() as int,
    )
}

/// Whether `dependency` is the key of a module already placed.
pub open spec fn dependency_resolved(
    modules: Seq<SetupModel>,
    placed: Seq<int>,
    dependency: SetupKey,
) -> bool {
    exists|k: int| 0 <= k < placed.len() && (#[trigger] modules[placed[k]]).key@ == dependency@
}

/// Whether module `i` is unplaced and every dependency is already placed.
pub open spec fn is_ready(modules: Seq<SetupModel>, placed: Seq<int>, i: int) -> bool {
    &&& 0 <= i < modules.len()
    &&& !placed.contains(i)
    &&& forall|d: int|
        0 <= d < modules[i].dependencies.len() ==> dependency_resolved(
            modules,
            placed,
            #[trigger] modules[i].dependencies[d],
        )
}

/// The earliest-declared ready module at or after `from`.
pub open spec fn first_ready_from(modules: Seq<SetupModel>, placed: Seq<int>, from: int) -> Option<
    int,
>
    decreases modules.len() - from,
{
    if from < 0 || from >= modules.len() {
        None
    } else if is_ready(modules, placed, from) {
        Some(from)
    } else {
        first_ready_from(modules, placed, from + 1)
    }
}

/// Extend `placed` by repeatedly placing the earliest-declared ready module,
/// at most `fuel` times.
pub open spec fn greedy_order(modules: Seq<SetupModel>, placed: Seq<int>, fuel: nat) -> Seq<int>
    decreases fuel,
{
    if fuel == 0 {
        placed
    } else {
        match first_ready_from(modules, placed, 0) {
            Some(i) => greedy_order(modules, placed.push(i), (fuel - 1) as nat),
            None => placed,
        }
    }
}

/// The deterministic initialization order: the earliest-declared module
/// whose dependencies are already placed always goes next.
pub open spec fn spec_setup_order(modules: Seq<SetupModel>) -> Seq<int> {
    greedy_order(modules, Seq::empty(), modules.len())
}

/// One cycle fault per module among the first `n` that `order` never placed.
pub open spec fn cycle_faults(modules: Seq<SetupModel>, order: Seq<int>, n: int) -> Seq<
    DeclarationError,
>
    decreases n,
{
    if n <= 0 {
        Seq::empty()
    } else {
        cycle_faults(modules, order, n - 1) + (if order.contains(n - 1) {
            Seq::empty()
        } else {
            seq![DeclarationError::SetupDependencyCycle { key: modules[n - 1].key.text() }]
        })
    }
}

/// The planning result: stage-one faults if any; otherwise the order, or one
/// cycle fault per module that could not be placed.
pub open spec fn spec_plan(modules: Seq<SetupModel>) -> Result<Seq<int>, Seq<DeclarationError>> {
    let faults = spec_graph_faults(modules);
    if faults.len() > 0 {
        Err(faults)
    } else {
        let order = spec_setup_order(modules);
        if order.len() == modules.len() {
            Ok(order)
        } else {
            Err(cycle_faults(modules, order, modules.len() as int))
        }
    }
}

/// The models of a slice of declared modules.
pub open spec fn models(modules: Seq<DeclaredSetupModule>) -> Seq<SetupModel> {
    modules.map_values(|m: DeclaredSetupModule| m@)
}

// ---------------------------------------------------------------------------
// The planner.
// ---------------------------------------------------------------------------

/// Why `key` is unusable as a stable setup key, if it is.
pub fn invalid_key_reason(key: &str) -> (reason: Option<&'static str>)
    ensures
        reason == spec_invalid_key_reason(key@),
{
    let n = key.unicode_len();
    if n == 0 {
        return Some("is empty");
    }
    let mut i: usize = 0;
    while i < n
        invariant
            n == key@.len(),
            n > 0,
            i <= n,
            forall|j: int| 0 <= j < i ==> spec_key_char(#[trigger] key@[j]),
        decreases n - i,
    {
        let c = key.get_char(i);
        if !(is_ascii_alphanumeric(c) || c == '.' || c == '-' || c == '_') {
            assert(!spec_key_char(key@[i as int]));
            return Some("must contain only ASCII letters, digits, `.`, `-`, or `_`");
        }
        i = i + 1;
    }
    None
}

/// The indices of an order, as integers.
pub open spec fn order_view(order: Seq<usize>) -> Seq<int> {
    order.map_values(|i: usize| i as int)
}

/// Whether some module's key equals `dependency`.
fn declares(modules: &[DeclaredSetupModule], dependency: SetupKey) -> (found: bool)
    ensures
        found == is_declared(models(modules@), dependency),
{
    let ghost ms = models(modules@);
    let mut j: usize = 0;
    while j < modules.len()
        invariant
            ms == models(modules@),
            j <= modules@.len(),
            forall|k: int| 0 <= k < j ==> (#[trigger] ms[k]).key@ != dependency@,
        decreases modules@.len() - j,
    {
        if modules[j].key().same(dependency) {
            assert(ms[j as int].key@ == dependency@);
            return true;
        }
        j = j + 1;
    }
    false
}

/// Whether a module declared before `i` has module `i`'s key.
fn declared_before(modules: &[DeclaredSetupModule], i: usize) -> (found: bool)
    requires
        i < modules@.len(),
    ensures
        found == key_declared_before(models(modules@), i as int),
{
    let ghost ms = models(modules@);
    let key = modules[i].key();
    assert(ms[i as int] == modules@[i as int]@);
    let mut j: usize = 0;
    while j < i
        invariant
            ms == models(modules@),
            i < modules@.len(),
            key == ms[i as int].key,
            j <= i,
            forall|k: int| 0 <= k < j ==> (#[trigger] ms[k]).key@ != ms[i as int].key@,
        decreases i - j,
    {
        if modules[j].key().same(key) {
            assert(ms[j as int].key@ == ms[i as int].key@);
            return true;
        }
        j = j + 1;
    }
    false
}

/// Module `i`'s key faults, appended to `errors`.
fn push_module_key_faults(
    modules: &[DeclaredSetupModule],
    i: usize,
    errors: &mut Vec<DeclarationError>,
)
    requires
        i < modules@.len(),
    ensures
        final(errors)@ == old(errors)@ + module_key_faults(models(modules@), i as int),
{
    let ghost ms = models(modules@);
    let ghost before = errors@;
    let module = &modules[i];
    assert(ms[i as int] == modules@[i as int]@);
    let key = module.key().as_str();
    match invalid_key_reason(key) {
        Some(reason) => {
            errors.push(DeclarationError::InvalidSetupKey { key, reason });
        },
        None => {},
    }
    if declared_before(modules, i) {
        errors.push(DeclarationError::DuplicateSetupKey { key });
    }
    let ghost after_duplicate = errors@;
    let surplus = module.surplus_teardowns();
    let mut k: usize = 0;
    while k < surplus
        invariant
            k <= surplus,
            errors@ == after_duplicate + Seq::new(
                k as nat,
                |x: int| DeclarationError::MultipleSetupTeardowns { key },
            ),
        decreases surplus - k,
    {
        errors.push(DeclarationError::MultipleSetupTeardowns { key });
        k = k + 1;
        assert(errors@ =~= after_duplicate + Seq::new(
            k as nat,
            |x: int| DeclarationError::MultipleSetupTeardowns { key },
        ));
    }
    assert(errors@ =~= before + module_key_faults(ms, i as int));
}

/// Stage-one faults: key faults in declaration order, then missing
/// dependencies module by module.
fn graph_faults(modules: &[DeclaredSetupModule]) -> (errors: Vec<DeclarationError>)
    ensures
        errors@ == spec_graph_faults(models(modules@)),
{
    let ghost ms = models(modules@);
    let n = modules.len();
    let mut errors: Vec<DeclarationError> = Vec::new();
    let mut i: usize = 0;
    while i < n
        invariant
            n == modules@.len(),
            ms == models(modules@),
            i <= n,
            errors@ == key_faults(ms, i as int),
        decreases n - i,
    {
        push_module_key_faults(modules, i, &mut errors);
        i = i + 1;
    }
    let ghost key_part = errors@;
    let mut i: usize = 0;
    while i < n
        invariant
            n == modules@.len(),
            ms == models(modules@),
            i <= n,
            key_part == key_faults(ms, n as int),
            errors@ == key_part + all_dependency_faults(ms, i as int),
        decreases n - i,
    {
        let module = &modules[i];
        assert(ms[i as int] == modules@[i as int]@);
        let dependencies = module.dependencies();
        let key = module.key().as_str();
        let ghost before = errors@;
        let mut d: usize = 0;
        while d < dependencies.len()
            invariant
                n == modules@.len(),
                ms == models(modules@),
                i < n,
                dependencies@ == ms[i as int].dependencies,
                key == ms[i as int].key.text(),
                d <= dependencies@.len(),
                errors@ == before + dependency_faults(ms, i as int, d as int),
            decreases dependencies@.len() - d,
        {
            let dependency = dependencies[d];
            if !declares(modules, dependency) {
                errors.push(
                    DeclarationError::MissingSetupDependency {
                        key,
                        dependency: dependency.as_str(),
                    },
                );
            }
            d = d + 1;
            assert(errors@ =~= before + dependency_faults(ms, i as int, d as int));
        }
        i = i + 1;
        assert(errors@ =~= key_part + all_dependency_faults(ms, i as int));
    }
    errors
}

/// The placed indices recorded as flags.
pub open spec fn flags_match(resolved: Seq<bool>, placed: Seq<int>, n: int) -> bool {
    &&& resolved.len() == n
    &&& forall|j: int| 0 <= j < n ==> (#[trigger] resolved[j] <==> placed.contains(j))
    &&& forall|k: int| 0 <= k < placed.len() ==> 0 <= #[trigger] placed[k] < n
}

/// Whether module `i` is ready against the placed flags.
fn ready(modules: &[DeclaredSetupModule], resolved: &Vec<bool>, i: usize, Ghost(placed): Ghost<
    Seq<int>,
>) -> (is: bool)
    requires
        i < modules@.len(),
        flags_match(resolved@, placed, modules@.len() as int),
    ensures
        is == is_ready(models(modules@), placed, i as int),
{
    let ghost ms = models(modules@);
    if resolved[i] {
        return false;
    }
    let dependencies = modules[i].dependencies();
    let mut d: usize = 0;
    while d < dependencies.len()
        invariant
            ms == models(modules@),
            i < modules@.len(),
            flags_match(resolved@, placed, modules@.len() as int),
            dependencies@ == ms[i as int].dependencies,
            d <= dependencies@.len(),
            forall|e: int|
                0 <= e < d ==> dependency_resolved(ms, placed, #[trigger] dependencies@[e]),
        decreases dependencies@.len() - d,
    {
        let dependency = dependencies[d];
        let mut found = false;
        let mut j: usize = 0;
        while j < modules.len()
            invariant
                ms == models(modules@),
                flags_match(resolved@, placed, modules@.len() as int),
                j <= modules@.len(),
                found ==> dependency_resolved(ms, placed, dependency),
                !found ==> forall|k: int|
                    0 <= k < j ==> !(resolved@[k] && (#[trigger] ms[k]).key@ == dependency@),
            decreases modules@.len() - j,
        {
            if resolved[j] && modules[j].key().same(dependency) {
                proof {
                    let k = choose|k: int| 0 <= k < placed.len() && placed[k] == j as int;
                    assert(ms[placed[k]].key@ == dependency@);
                }
                found = true;
            }
            j = j + 1;
        }
        if !found {
            proof {
                if dependency_resolved(ms, placed, dependency) {
                    let k = choose|k: int|
                        0 <= k < placed.len() && (#[trigger] ms[placed[k]]).key@ == dependency@;
                    let m = placed[k];
                    assert(resolved@[m]);
                }
            }
            assert(dependencies@[d as int] == dependency);
            return false;
        }
        d = d + 1;
    }
    true
}

/// The earliest-declared ready module, if any.
fn first_ready(modules: &[DeclaredSetupModule], resolved: &Vec<bool>, Ghost(placed): Ghost<
    Seq<int>,
>) -> (next: Option<usize>)
    requires
        flags_match(resolved@, placed, modules@.len() as int),
    ensures
        match next {
            Some(i) => first_ready_from(models(modules@), placed, 0) == Some(i as int),
            None => first_ready_from(models(modules@), placed, 0) is None,
        },
{
    let ghost ms = models(modules@);
    let mut i: usize = 0;
    while i < modules.len()
        invariant
            ms == models(modules@),
            flags_match(resolved@, placed, modules@.len() as int),
            i <= modules@.len(),
            first_ready_from(ms, placed, 0) == first_ready_from(ms, placed, i as int),
        decreases modules@.len() - i,
    {
        if ready(modules, resolved, i, Ghost(placed)) {
            return Some(i);
        }
        i = i + 1;
    }
    None
}

/// Place modules greedily, returning the order and the placed flags.
fn resolve_order(modules: &[DeclaredSetupModule]) -> (result: (Vec<usize>, Vec<bool>))
    ensures
        order_view(result.0@) == spec_setup_order(models(modules@)),
        flags_match(result.1@, order_view(result.0@), modules@.len() as int),
{
    let ghost ms = models(modules@);
    let n = modules.len();
    let mut resolved: Vec<bool> = Vec::new();
    let mut j: usize = 0;
    while j < n
        invariant
            j <= n,
            resolved@.len() == j,
            forall|k: int| 0 <= k < j ==> !(#[trigger] resolved@[k]),
        decreases n - j,
    {
        resolved.push(false);
        j = j + 1;
    }
    let mut order: Vec<usize> = Vec::new();
    assert(order_view(order@) =~= Seq::<int>::empty());
    while order.len() < n
        invariant_except_break
            n == modules@.len(),
            ms == models(modules@),
            order@.len() <= n,
            flags_match(resolved@, order_view(order@), n as int),
            spec_setup_order(ms) == greedy_order(
                ms,
                order_view(order@),
                (n - order@.len()) as nat,
            ),
        ensures
            flags_match(resolved@, order_view(order@), n as int),
            spec_setup_order(ms) == order_view(order@),
        decreases n - order@.len(),
    {
        let ghost placed = order_view(order@);
        match first_ready(modules, &resolved, Ghost(placed)) {
            Some(i) => {
                proof {
                    assert(is_ready(ms, placed, i as int)) by {
                        lemma_first_ready_is_ready(ms, placed, 0);
                    }
                }
                resolved.set(i, true);
                order.push(i);
                proof {
                    let now = order_view(order@);
                    assert(now =~= placed.push(i as int));
                    assert forall|m: int| 0 <= m < n implies (#[trigger] resolved@[m]
                        <==> now.contains(m)) by {
                        if m == i {
                            assert(now[now.len() - 1] == m);
                        } else {
                            if now.contains(m) {
                                let k = choose|k: int| 0 <= k < now.len() && now[k] == m;
                                assert(placed[k] == m);
                            }
                            if placed.contains(m) {
                                let k = choose|k: int| 0 <= k < placed.len() && placed[k] == m;
                                assert(now[k] == m);
                            }
                        }
                    }
                }
            },
            None => {
                break ;
            },
        }
    }
    (order, resolved)
}

/// When a module is returned by `first_ready_from`, it is ready and no earlier
/// module (at or after `from`) is.
pub proof fn lemma_first_ready_is_ready(modules: Seq<SetupModel>, placed: Seq<int>, from: int)
    requires
        first_ready_from(modules, placed, from) is Some,
    ensures
        is_ready(modules, placed, first_ready_from(modules, placed, from).unwrap()),
        from <= first_ready_from(modules, placed, from).unwrap(),
        forall|k: int|
            from <= k < first_ready_from(modules, placed, from).unwrap() ==> !is_ready(
                modules,
                placed,
                k,
            ),
    decreases modules.len() - from,
{
    if from >= 0 && from < modules.len() && !is_ready(modules, placed, from) {
        lemma_first_ready_is_ready(modules, placed, from + 1);
    }
}

/// One cycle fault per unplaced module, in declaration order.
fn unplaced_faults(
    modules: &[DeclaredSetupModule],
    resolved: &Vec<bool>,
    Ghost(order): Ghost<Seq<int>>,
) -> (errors: Vec<DeclarationError>)
    requires
        flags_match(resolved@, order, modules@.len() as int),
    ensures
        errors@ == cycle_faults(models(modules@), order, modules@.len() as int),
{
    let ghost ms = models(modules@);
    let mut errors: Vec<DeclarationError> = Vec::new();
    let mut i: usize = 0;
    while i < modules.len()
        invariant
            ms == models(modules@),
            flags_match(resolved@, order, modules@.len() as int),
            i <= modules@.len(),
            errors@ == cycle_faults(ms, order, i as int),
        decreases modules@.len() - i,
    {
        if !resolved[i] {
            errors.push(DeclarationError::SetupDependencyCycle { key: modules[i].key().as_str() });
        }
        i = i + 1;
        assert(errors@ =~= cycle_faults(ms, order, i as int));
    }
    errors
}

/// Validate the declared setup graph and resolve its initialization order.
///
/// Faults are reported in two stages, because a topological order over an
/// ill-formed graph would be arbitrary: first invalid keys, duplicate keys,
/// surplus teardowns, and missing dependencies; then, only if those are clean,
/// one dependency-cycle fault per module that could not be placed.
pub fn plan(modules: &[DeclaredSetupModule]) -> (result: Result<Vec<usize>, Vec<DeclarationError>>)
    ensures
        match result {
            Ok(order) => spec_plan(models(modules@)) == Ok::<Seq<int>, Seq<DeclarationError>>(
                order_view(order@),
            ),
            Err(errors) => spec_plan(models(modules@)) == Err::<Seq<int>, Seq<DeclarationError>>(
                errors@,
            ),
        },
{
    let errors = graph_faults(modules);
    if errors.len() > 0 {
        return Err(errors);
    }
    let (order, resolved) = resolve_order(modules);
    if order.len() == modules.len() {
        Ok(order)
    } else {
        Err(unplaced_faults(modules, &resolved, Ghost(order_view(order@))))
    }
}

// ---------------------------------------------------------------------------
// Laws of the setup plan.
// ---------------------------------------------------------------------------

/// Every placed module was ready when it was placed, and was the
/// earliest-declared ready module at that point.
pub open spec fn greedily_placed(modules: Seq<SetupModel>, placed: Seq<int>) -> bool {
    forall|k: int|
        0 <= k < placed.len() ==> {
            &&& is_ready(modules, placed.take(k), #[trigger] placed[k])
            &&& forall|m: int| 0 <= m < placed[k] ==> !is_ready(modules, placed.take(k), m)
        }
}

proof fn lemma_greedy_order_is_greedy(modules: Seq<SetupModel>, placed: Seq<int>, fuel: nat)
    requires
        greedily_placed(modules, placed),
    ensures
        greedily_placed(modules, greedy_order(modules, placed, fuel)),
        placed.len() <= greedy_order(modules, placed, fuel).len(),
        greedy_order(modules, placed, fuel).take(placed.len() as int) == placed,
        greedy_order(modules, placed, fuel).len() < placed.len() + fuel ==> first_ready_from(
            modules,
            greedy_order(modules, placed, fuel),
            0,
        ) is None,
    decreases fuel,
{
    assert(placed.take(placed.len() as int) =~= placed);
    if fuel > 0 {
        match first_ready_from(modules, placed, 0) {
            Some(i) => {
                lemma_first_ready_is_ready(modules, placed, 0);
                let next = placed.push(i);
                assert forall|k: int| 0 <= k < next.len() implies {
                    &&& is_ready(modules, next.take(k), #[trigger] next[k])
                    &&& forall|m: int| 0 <= m < next[k] ==> !is_ready(modules, next.take(k), m)
                } by {
                    if k == placed.len() {
                        assert(next.take(k) =~= placed);
                    } else {
                        assert(next.take(k) =~= placed.take(k));
                    }
                }
                lemma_greedy_order_is_greedy(modules, next, (fuel - 1) as nat);
                let result = greedy_order(modules, next, (fuel - 1) as nat);
                assert(result.take(placed.len() as int) =~= result.take(next.len() as int).take(
                    placed.len() as int,
                ));
                assert(next.take(placed.len() as int) =~= placed);
            },
            None => {},
        }
    }
}

/// A successful plan is a topological order of the declared modules: it
/// places every module exactly once, every module comes after every module
/// its dependencies name, and each step places the earliest-declared module
/// whose dependencies are already placed.
pub proof fn lemma_plan_is_a_greedy_topological_order(modules: Seq<SetupModel>)
    requires
        spec_plan(modules) is Ok,
    ensures
        spec_plan(modules) == Ok::<Seq<int>, Seq<DeclarationError>>(spec_setup_order(modules)),
        spec_setup_order(modules).len() == modules.len(),
        forall|k: int|
            0 <= k < spec_setup_order(modules).len() ==> 0 <= #[trigger] spec_setup_order(
                modules,
            )[k] < modules.len(),
        forall|a: int, b: int|
            0 <= a < b < spec_setup_order(modules).len() ==> #[trigger] spec_setup_order(
                modules,
            )[a] != #[trigger] spec_setup_order(modules)[b],
        forall|k: int, d: int|
            0 <= k < spec_setup_order(modules).len() && 0 <= d < modules[spec_setup_order(
                modules,
            )[k]].dependencies.len() ==> exists|e: int|
                0 <= e < k && (#[trigger] modules[spec_setup_order(modules)[e]]).key@ == (
                #[trigger] modules[spec_setup_order(modules)[k]].dependencies[d])@,
        forall|k: int, m: int|
            0 <= k < spec_setup_order(modules).len() && 0 <= m < spec_setup_order(modules)[k]
                ==> !#[trigger] is_ready(modules, spec_setup_order(modules).take(k), m),
{
    let order = spec_setup_order(modules);
    assert(greedily_placed(modules, Seq::<int>::empty()));
    lemma_greedy_order_is_greedy(modules, Seq::<int>::empty(), modules.len());
    assert forall|k: int| 0 <= k < order.len() implies 0 <= #[trigger] order[k] < modules.len() by {
        assert(is_ready(modules, order.take(k), order[k]));
    }
    assert forall|a: int, b: int| 0 <= a < b < order.len() implies #[trigger] order[a]
        != #[trigger] order[b] by {
        assert(is_ready(modules, order.take(b), order[b]));
        assert(order.take(b)[a] == order[a]);
    }
    assert forall|k: int, d: int|
        0 <= k < order.len() && 0 <= d < modules[order[k]].dependencies.len() implies exists|
        e: int,
    |
        0 <= e < k && (#[trigger] modules[order[e]]).key@ == (
        #[trigger] modules[order[k]].dependencies[d])@ by {
        assert(is_ready(modules, order.take(k), order[k]));
        let dependency = modules[order[k]].dependencies[d];
        assert(dependency_resolved(modules, order.take(k), dependency));
        let e = choose|e: int|
            0 <= e < order.take(k).len() && (#[trigger] modules[order.take(k)[e]]).key@
                == dependency@;
        assert(order.take(k)[e] == order[e]);
    }
}

/// Independent modules keep declaration order: with no dependency declared
/// anywhere, the plan's order is `0, 1, …, n - 1`.
pub proof fn lemma_independent_modules_keep_declaration_order(modules: Seq<SetupModel>)
    requires
        forall|i: int| 0 <= i < modules.len() ==> (#[trigger] modules[i]).dependencies.len() == 0,
    ensures
        spec_setup_order(modules) == Seq::new(modules.len(), |i: int| i),
{
    lemma_identity_prefix_extends(modules, 0);
    assert(Seq::new(0, |i: int| i) =~= Seq::<int>::empty());
}

proof fn lemma_identity_prefix_extends(modules: Seq<SetupModel>, k: nat)
    requires
        k <= modules.len(),
        forall|i: int| 0 <= i < modules.len() ==> (#[trigger] modules[i]).dependencies.len() == 0,
    ensures
        greedy_order(modules, Seq::new(k, |i: int| i), (modules.len() - k) as nat) == Seq::new(
            modules.len(),
            |i: int| i,
        ),
    decreases modules.len() - k,
{
    let placed = Seq::new(k, |i: int| i);
    if k == modules.len() {
        assert(placed =~= Seq::new(modules.len(), |i: int| i));
    } else {
        assert forall|m: int| 0 <= m < k implies !is_ready(modules, placed, m) by {
            assert(placed[m] == m);
        }
        assert(!placed.contains(k as int));
        assert(is_ready(modules, placed, k as int));
        lemma_first_ready_scan(modules, placed, 0, k as int);
        assert(placed.push(k as int) =~= Seq::new(k + 1, |i: int| i));
        lemma_identity_prefix_extends(modules, k + 1);
    }
}

proof fn lemma_first_ready_scan(modules: Seq<SetupModel>, placed: Seq<int>, from: int, target: int)
    requires
        0 <= from <= target < modules.len(),
        is_ready(modules, placed, target),
        forall|m: int| from <= m < target ==> !is_ready(modules, placed, m),
    ensures
        first_ready_from(modules, placed, from) == Some(target),
    decreases target - from,
{
    if from < target {
        lemma_first_ready_scan(modules, placed, from + 1, target);
    }
}

/// Stage two only runs on a clean graph: when the plan reports cycle faults,
/// stage one found nothing, and every reported module is one the greedy order
/// could not place.
pub proof fn lemma_cycle_faults_name_only_unplaced_modules(modules: Seq<SetupModel>, n: int)
    requires
        0 <= n <= modules.len(),
    ensures
        forall|e: int|
            0 <= e < cycle_faults(modules, spec_setup_order(modules), n).len() ==> exists|i: int|
                0 <= i < n && !spec_setup_order(modules).contains(i) && #[trigger] cycle_faults(
                    modules,
                    spec_setup_order(modules),
                    n,
                )[e] == (DeclarationError::SetupDependencyCycle { key: modules[i].key.text() }),
    decreases n,
{
    if n > 0 {
        lemma_cycle_faults_name_only_unplaced_modules(modules, n - 1);
        let order = spec_setup_order(modules);
        let prev = cycle_faults(modules, order, n - 1);
        let all = cycle_faults(modules, order, n);
        assert forall|e: int| 0 <= e < all.len() implies exists|i: int|
            0 <= i < n && !order.contains(i) && #[trigger] all[e] == (
            DeclarationError::SetupDependencyCycle { key: modules[i].key.text() }) by {
            if e < prev.len() {
                assert(all[e] == prev[e]);
            } else {
                assert(all[e] == (DeclarationError::SetupDependencyCycle {
                    key: modules[n - 1].key.text(),
                }));
            }
        }
    }
}

/// Whether no fault in `faults` is a repeated setup key.
pub open spec fn no_repeated_key_fault(faults: Seq<DeclarationError>) -> bool {
    forall|k: int| 0 <= k < faults.len() ==> !(#[trigger] faults[k] is DuplicateSetupKey)
}

/// Whether the modules' keys are pairwise different.
pub open spec fn keys_pairwise_distinct(modules: Seq<SetupModel>) -> bool {
    forall|a: int, b: int|
        0 <= a < b < modules.len() ==> (#[trigger] modules[a]).key@ != (#[trigger] modules[b]).key@
}

proof fn lemma_repeat_is_reported(modules: Seq<SetupModel>, i: int, j: int, n: int)
    requires
        0 <= i < j < n <= modules.len(),
        modules[i].key@ == modules[j].key@,
    ensures
        key_faults(modules, n).contains(
            DeclarationError::DuplicateSetupKey { key: modules[j].key.text() },
        ),
    decreases n,
{
    let e = DeclarationError::DuplicateSetupKey { key: modules[j].key.text() };
    let earlier = key_faults(modules, n - 1);
    let own = module_key_faults(modules, n - 1);
    assert(key_faults(modules, n) == earlier + own);
    if j == n - 1 {
        assert(key_declared_before(modules, j)) by {
            assert(modules[i].key@ == modules[j].key@);
        }
        let invalid = match spec_invalid_key_reason(modules[j].key@) {
            Some(reason) => seq![DeclarationError::InvalidSetupKey { key: modules[j].key.text(), reason }],
            None => Seq::<DeclarationError>::empty(),
        };
        assert(own[invalid.len() as int] == e);
        assert((earlier + own)[(earlier.len() + invalid.len()) as int] == e);
    } else {
        lemma_repeat_is_reported(modules, i, j, n - 1);
        let k = choose|k: int| 0 <= k < earlier.len() && earlier[k] == e;
        assert((earlier + own)[k] == e);
    }
}

proof fn lemma_distinct_keys_fault_no_key(modules: Seq<SetupModel>, n: int)
    requires
        0 <= n <= modules.len(),
        keys_pairwise_distinct(modules),
    ensures
        no_repeated_key_fault(key_faults(modules, n)),
    decreases n,
{
    if n > 0 {
        lemma_distinct_keys_fault_no_key(modules, n - 1);
        let i = n - 1;
        assert(!key_declared_before(modules, i)) by {
            if key_declared_before(modules, i) {
                let j = choose|j: int| 0 <= j < i && (#[trigger] modules[j]).key@ == modules[i].key@;
                assert(modules[j].key@ != modules[i].key@);
            }
        }
        let earlier = key_faults(modules, i);
        let own = module_key_faults(modules, i);
        assert(no_repeated_key_fault(own));
        assert(no_repeated_key_fault(earlier + own)) by {
            assert forall|k: int| 0 <= k < (earlier + own).len() implies !(#[trigger] (earlier
                + own)[k] is DuplicateSetupKey) by {
                if k < earlier.len() {
                    assert((earlier + own)[k] == earlier[k]);
                } else {
                    assert((earlier + own)[k] == own[k - earlier.len()]);
                }
            }
        }
    }
}

proof fn lemma_dependency_faults_name_no_key(modules: Seq<SetupModel>, i: int, d: int)
    ensures
        no_repeated_key_fault(dependency_faults(modules, i, d)),
    decreases d,
{
    if d > 0 {
        lemma_dependency_faults_name_no_key(modules, i, d - 1);
        let earlier = dependency_faults(modules, i, d - 1);
        let dependency = modules[i].dependencies[d - 1];
        let own = if is_declared(modules, dependency) {
            Seq::<DeclarationError>::empty()
        } else {
            seq![
                DeclarationError::MissingSetupDependency {
                    key: modules[i].key.text(),
                    dependency: dependency.text(),
                },
            ]
        };
        assert forall|k: int| 0 <= k < (earlier + own).len() implies !(#[trigger] (earlier
            + own)[k] is DuplicateSetupKey) by {
            if k < earlier.len() {
                assert((earlier + own)[k] == earlier[k]);
            } else {
                assert((earlier + own)[k] == own[k - earlier.len()]);
            }
        }
    }
}

proof fn lemma_all_dependency_faults_name_no_key(modules: Seq<SetupModel>, n: int)
    ensures
        no_repeated_key_fault(all_dependency_faults(modules, n)),
    decreases n,
{
    if n > 0 {
        lemma_all_dependency_faults_name_no_key(modules, n - 1);
        let earlier = all_dependency_faults(modules, n - 1);
        let own = dependency_faults(modules, n - 1, modules[n - 1].dependencies.len() as int);
        lemma_dependency_faults_name_no_key(modules, n - 1, modules[n - 1].dependencies.len() as int);
        assert forall|k: int| 0 <= k < (earlier + own).len() implies !(#[trigger] (earlier
            + own)[k] is DuplicateSetupKey) by {
            if k < earlier.len() {
                assert((earlier + own)[k] == earlier[k]);
            } else {
                assert((earlier + own)[k] == own[k - earlier.len()]);
            }
        }
    }
}

proof fn lemma_cycle_faults_name_no_key(modules: Seq<SetupModel>, order: Seq<int>, n: int)
    ensures
        no_repeated_key_fault(cycle_faults(modules, order, n)),
    decreases n,
{
    if n > 0 {
        lemma_cycle_faults_name_no_key(modules, order, n - 1);
        let earlier = cycle_faults(modules, order, n - 1);
        let own = if order.contains(n - 1) {
            Seq::<DeclarationError>::empty()
        } else {
            seq![DeclarationError::SetupDependencyCycle { key: modules[n - 1].key.text() }]
        };
        assert forall|k: int| 0 <= k < (earlier + own).len() implies !(#[trigger] (earlier
            + own)[k] is DuplicateSetupKey) by {
            if k < earlier.len() {
                assert((earlier + own)[k] == earlier[k]);
            } else {
                assert((earlier + own)[k] == own[k - earlier.len()]);
            }
        }
    }
}

/// Planning refuses every repeated setup key, wherever the repeat stands: when
/// two modules share a key, planning fails and names that key as declared more
/// than once, so a plan is only ever made of modules with pairwise different
/// keys. Conversely, with pairwise different keys no fault names a repeated
/// key.
pub proof fn lemma_plan_refuses_every_repeated_key(modules: Seq<SetupModel>)
    ensures
        forall|i: int, j: int|
            0 <= i < j < modules.len() && (#[trigger] modules[i]).key@ == (#[trigger] modules[j]).key@
                ==> match spec_plan(modules) {
                Ok(_) => false,
                Err(faults) => faults.contains(
                    DeclarationError::DuplicateSetupKey { key: modules[j].key.text() },
                ),
            },
        spec_plan(modules) is Ok ==> keys_pairwise_distinct(modules),
        keys_pairwise_distinct(modules) ==> match spec_plan(modules) {
            Ok(_) => true,
            Err(faults) => no_repeated_key_fault(faults),
        },
{
    let n = modules.len() as int;
    let keys = key_faults(modules, n);
    let deps = all_dependency_faults(modules, n);
    assert(spec_graph_faults(modules) == keys + deps);
    assert forall|i: int, j: int|
        0 <= i < j < modules.len() && (#[trigger] modules[i]).key@ == (#[trigger] modules[j]).key@
            implies match spec_plan(modules) {
        Ok(_) => false,
        Err(faults) => faults.contains(
            DeclarationError::DuplicateSetupKey { key: modules[j].key.text() },
        ),
    } by {
        let e = DeclarationError::DuplicateSetupKey { key: modules[j].key.text() };
        lemma_repeat_is_reported(modules, i, j, n);
        let k = choose|k: int| 0 <= k < keys.len() && keys[k] == e;
        assert((keys + deps)[k] == e);
    }
    if spec_plan(modules) is Ok && !keys_pairwise_distinct(modules) {
        let (i, j) = choose|i: int, j: int|
            0 <= i < j < modules.len() && (#[trigger] modules[i]).key@ == (#[trigger] modules[j]).key@;
        assert(modules[i].key@ == modules[j].key@);
    }
    if keys_pairwise_distinct(modules) {
        lemma_distinct_keys_fault_no_key(modules, n);
        lemma_all_dependency_faults_name_no_key(modules, n);
        lemma_cycle_faults_name_no_key(modules, spec_setup_order(modules), n);
        assert forall|k: int| 0 <= k < (keys + deps).len() implies !(#[trigger] (keys + deps)[k] is DuplicateSetupKey) by {
            if k < keys.len() {
                assert((keys + deps)[k] == keys[k]);
            } else {
                assert((keys + deps)[k] == deps[k - keys.len()]);
            }
        }
    }
}

} // verus!
