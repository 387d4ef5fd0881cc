use neutron_components_app::declaration::errors::{DeclarationError, DeclarationErrors};
use neutron_components_app::declaration::setup::{plan, DeclaredSetupModule, SetupKey, SetupModule};

fn module(key: &'static str, after: &[&'static str]) -> DeclaredSetupModule {
    let mut declared = SetupModule::new(SetupKey::new(key));
    for dependency in after {
        declared = declared.after(SetupKey::new(dependency));
    }
    DeclaredSetupModule::erase(declared)
}

fn keys(modules: &[DeclaredSetupModule], order: Vec<usize>) -> Vec<&'static str> {
    order.into_iter().map(|i| modules[i].key().as_str()).collect()
}

fn errors(modules: &[DeclaredSetupModule]) -> Vec<String> {
    plan(modules).expect_err("the graph is faulty").iter().map(|e| e.to_text()).collect()
}

#[test]
fn independent_modules_keep_declaration_order() {
    let modules = vec![module("a", &[]), module("b", &[]), module("c", &[])];

    assert_eq!(keys(&modules, plan(&modules).expect("the graph is well formed")), ["a", "b", "c"]);
}

#[test]
fn a_dependency_is_hoisted_and_nothing_else_moves() {
    let modules = vec![module("c", &["a"]), module("a", &[]), module("b", &[]), module("d", &[])];

    assert_eq!(
        keys(&modules, plan(&modules).expect("the graph is well formed")),
        ["a", "c", "b", "d"],
        "a dependency hoists its dependent's prerequisite, not the dependent",
    );
}

#[test]
fn a_transitive_chain_resolves_in_dependency_order() {
    let modules =
        vec![module("third", &["second"]), module("second", &["first"]), module("first", &[])];

    assert_eq!(
        keys(&modules, plan(&modules).expect("the graph is well formed")),
        ["first", "second", "third"],
    );
}

#[test]
fn planning_is_deterministic_across_repeated_calls() {
    let modules =
        vec![module("d", &["b"]), module("a", &[]), module("c", &["a"]), module("b", &["a"])];

    let first = plan(&modules).expect("the graph is well formed");
    let second = plan(&modules).expect("the graph is well formed");

    assert_eq!(first, second);
    assert_eq!(keys(&modules, first), ["a", "c", "b", "d"]);
}

#[test]
fn invalid_and_duplicate_keys_are_reported_in_declaration_order() {
    let modules =
        vec![module("", &[]), module("http client", &[]), module("panels", &[]), module("panels", &[])];

    assert_eq!(
        errors(&modules),
        vec![
            "invalid setup key: `` is empty".to_string(),
            "invalid setup key: `http client` must contain only ASCII letters, digits, `.`, \
             `-`, or `_`"
                .to_string(),
            "setup key `panels` is declared more than once".to_string(),
        ],
        "only the surplus duplicate is blamed",
    );
}

#[test]
fn missing_dependencies_are_reported_per_module_and_per_dependency() {
    let modules =
        vec![module("panels", &["http", "state"]), module("state", &[]), module("logs", &["http"])];

    assert_eq!(
        errors(&modules),
        vec![
            "setup module `panels` depends on `http`, which is not declared".to_string(),
            "setup module `logs` depends on `http`, which is not declared".to_string(),
        ],
    );
}

#[test]
fn a_repeated_dependency_is_idempotent_and_keeps_its_first_position() {
    let declared = SetupModule::new(SetupKey::new("panels"))
        .after(SetupKey::new("http"))
        .after(SetupKey::new("state"))
        .after(SetupKey::new("http"));

    assert_eq!(
        DeclaredSetupModule::erase(declared).dependencies(),
        [SetupKey::new("http"), SetupKey::new("state")],
        "the repeat is dropped and the first mention keeps its position",
    );
}

#[test]
fn a_repeated_missing_dependency_is_reported_once() {
    let declared =
        SetupModule::new(SetupKey::new("panels")).after(SetupKey::new("http")).after(SetupKey::new("http"));
    let modules = vec![DeclaredSetupModule::erase(declared)];

    assert_eq!(
        errors(&modules),
        vec!["setup module `panels` depends on `http`, which is not declared".to_string()],
        "one undeclared dependency is one mistake, however often it is named",
    );
}

#[test]
fn a_repeated_dependency_does_not_disturb_the_resolved_order() {
    let repeated = vec![
        DeclaredSetupModule::erase(
            SetupModule::new(SetupKey::new("panels"))
                .after(SetupKey::new("http"))
                .after(SetupKey::new("http")),
        ),
        module("http", &[]),
        module("logs", &[]),
    ];
    let plain = vec![module("panels", &["http"]), module("http", &[]), module("logs", &[])];

    assert_eq!(
        keys(&repeated, plan(&repeated).expect("the graph is well formed")),
        keys(&plain, plan(&plain).expect("the graph is well formed")),
        "repeating a dependency must not change the resolved order",
    );
}

#[test]
fn a_second_shutdown_hook_is_reported_and_never_replaces_the_first() {
    let declared =
        DeclaredSetupModule::erase(SetupModule::new(SetupKey::new("theme")).shutdown().shutdown());
    let modules = vec![declared];

    assert_eq!(
        errors(&modules),
        vec![
            "only one shutdown hook may be declared; setup module `theme` declares a second one"
                .to_string()
        ],
    );
    assert!(modules[0].has_teardown(), "the first teardown is still the one retained");
}

#[test]
fn every_surplus_shutdown_hook_is_reported_in_declaration_order() {
    let modules = vec![
        DeclaredSetupModule::erase(
            SetupModule::new(SetupKey::new("first")).shutdown().shutdown().shutdown(),
        ),
        DeclaredSetupModule::erase(SetupModule::new(SetupKey::new("second")).shutdown().shutdown()),
    ];

    assert_eq!(
        errors(&modules),
        vec![
            "only one shutdown hook may be declared; setup module `first` declares a second one"
                .to_string(),
            "only one shutdown hook may be declared; setup module `first` declares a second one"
                .to_string(),
            "only one shutdown hook may be declared; setup module `second` declares a second one"
                .to_string(),
        ],
        "one fault per surplus hook, module by module, in declaration order",
    );
}

#[test]
fn one_shutdown_hook_is_not_a_fault() {
    let modules = vec![DeclaredSetupModule::erase(SetupModule::new(SetupKey::new("theme")).shutdown())];

    assert!(plan(&modules).is_ok());
}

#[test]
fn a_cycle_names_every_unresolvable_module_in_declaration_order() {
    let modules = vec![module("a", &["b"]), module("standalone", &[]), module("b", &["a"])];

    assert_eq!(
        errors(&modules),
        vec![
            "setup module `a` is part of a dependency cycle".to_string(),
            "setup module `b` is part of a dependency cycle".to_string(),
        ],
        "modules outside the cycle still resolve and are not blamed",
    );
}

#[test]
fn a_self_dependency_is_a_cycle() {
    let modules = vec![module("a", &["a"])];

    assert_eq!(errors(&modules), vec!["setup module `a` is part of a dependency cycle".to_string()]);
}

#[test]
fn a_malformed_graph_is_not_topologically_ordered() {
    let modules = vec![module("a", &[]), module("a", &["missing"])];

    assert_eq!(
        errors(&modules),
        vec![
            "setup key `a` is declared more than once".to_string(),
            "setup module `a` depends on `missing`, which is not declared".to_string(),
        ],
    );
}

#[test]
fn erasure_retains_the_state_type_and_teardown_presence() {
    let registered =
        DeclaredSetupModule::erase(SetupModule::new(SetupKey::new("panels")).shutdown());
    let bare = DeclaredSetupModule::erase(SetupModule::new(SetupKey::new("http")));

    assert!(registered.has_teardown());
    assert!(!bare.has_teardown());
    assert_eq!(registered.surplus_teardowns(), 0);
    assert_eq!(registered.key().as_str(), "panels");
}

#[test]
fn errors_empty_collection_is_not_constructible() {
    assert!(DeclarationErrors::new(Vec::new()).is_none());
}

fn identity_error(field: &'static str) -> DeclarationError {
    DeclarationError::InvalidIdentity { field, reason: "is empty" }
}

#[test]
fn collection_preserves_order_and_reports_every_fault() {
    let errors = DeclarationErrors::new(vec![identity_error("app_id"), identity_error("data_namespace")])
        .expect("non-empty input yields a collection");

    assert_eq!(errors.len(), 2);
    assert_eq!(
        errors.iter().cloned().collect::<Vec<_>>(),
        vec![identity_error("app_id"), identity_error("data_namespace")],
    );
    assert_eq!(
        errors.to_text(),
        "2 declaration errors: invalid app identity: `app_id` is empty; \
         invalid app identity: `data_namespace` is empty",
    );
}

#[test]
fn single_fault_display_is_singular() {
    let errors = DeclarationErrors::new(vec![identity_error("app_id")]).expect("one fault is non-empty");

    assert_eq!(errors.to_text(), "1 declaration error: invalid app identity: `app_id` is empty");
}

#[test]
fn a_dependency_declared_later_still_resolves_first() {
    // The law in a concrete case: every module comes after its dependencies,
    // and each step places the earliest-declared ready module.
    let modules = vec![module("b", &["a"]), module("c", &[]), module("a", &[])];
    assert_eq!(keys(&modules, plan(&modules).expect("well formed")), ["c", "a", "b"]);
}
