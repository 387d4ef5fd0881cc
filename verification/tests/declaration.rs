use neutron_components_app::commands::binding::{CommandBinding, ParseVerdicts};
use neutron_components_app::commands::declaration::DeclaredCommand;
use neutron_components_app::commands::faults::CommandFault;
use neutron_components_app::commands::keys::MenuKey;
use neutron_components_app::commands::menu_model::MenuBar;
use neutron_components_app::commands::CommandId;
use neutron_components_app::declaration::app::AppDeclaration;
use neutron_components_app::declaration::errors::DeclarationError;
use neutron_components_app::declaration::policies::{
    validate_launch_set, AboutIntent, DeclaredLaunch, LifecycleHooks, PrimaryOpener, ThemeChoice,
    ThemeIntent, TypeTag,
};
use neutron_components_app::declaration::setup::{DeclaredSetupModule, SetupKey, SetupModule};
use neutron_components_app::declaration::surface::{
    invalid_id_reason, validate_surface_set, DeclaredSurface, SurfaceCardinality, SurfaceKey,
    SurfaceRole,
};
use neutron_components_app::settings::{StoreKey, SHELL_PREFERENCES_KEY};

struct Empty;
struct Args;

fn surface(id: &'static str) -> DeclaredSurface {
    DeclaredSurface::new(id, SurfaceRole::Auxiliary, SurfaceCardinality::Single, None, false)
}

fn multiple(id: &'static str) -> DeclaredSurface {
    DeclaredSurface::new(id, SurfaceRole::Auxiliary, SurfaceCardinality::Multiple, None, false)
}

fn faults_of(surface: &DeclaredSurface) -> Vec<String> {
    let mut errors = Vec::new();
    surface.validate(&mut errors);
    errors.iter().map(|e| e.to_text()).collect()
}

fn declaration() -> AppDeclaration {
    AppDeclaration::new("dev.neutron.test", "neutron-test")
}

fn texts(declaration: &AppDeclaration) -> Vec<String> {
    declaration.validate().expect_err("the declaration is faulty").iter().map(|e| e.to_text()).collect()
}

fn all_errors(declaration: &AppDeclaration) -> Vec<DeclarationError> {
    declaration.validate().expect_err("the declaration is faulty").iter().cloned().collect()
}

/// The launch value type `Args`, with its tag and diagnostic name.
fn args_launch(surplus_hooks: usize) -> DeclaredLaunch {
    DeclaredLaunch { value: TypeTag(1), value_name: "launch::Args", surplus_hooks }
}

// ------------------------------------------------------------------ surfaces

#[test]
fn standard_constructors_bind_the_reserved_ids() {
    assert_eq!(SurfaceKey::<Empty>::primary().id(), "primary");
    assert_eq!(SurfaceKey::<Empty>::settings().id(), "settings");
    assert_eq!(SurfaceKey::<Empty>::about().id(), "about");
    assert_eq!(SurfaceKey::<Empty>::new("logs").id(), "logs");
}

#[test]
fn keys_compare_by_id_and_stay_copyable() {
    let key = SurfaceKey::<Empty>::new("logs");
    let copy = key;
    assert!(key == copy);
    assert!(key != SurfaceKey::<Empty>::new("other"));
    assert_eq!(key.id(), "logs");
    let typed = SurfaceKey::<Empty, Args>::primary();
    assert_eq!(typed.clone().id(), "primary");
}

#[test]
fn surfaces_are_singleton_with_role_menu_defaults_until_overridden() {
    let logs = surface("logs");
    assert_eq!(logs.cardinality(), SurfaceCardinality::Single);
    assert!(logs.menu_bar_for());
    assert!(!surface("settings").in_role(SurfaceRole::Settings).menu_bar_for());
    assert!(!surface("about").in_role(SurfaceRole::About).menu_bar_for());
    let quiet = DeclaredSurface::new("logs", SurfaceRole::Auxiliary, SurfaceCardinality::Single, Some(false), false);
    assert!(!quiet.menu_bar_for());
    assert_eq!(SurfaceRole::Auxiliary.as_str(), "auxiliary");
    assert_eq!(SurfaceRole::Primary.reserved_id(), Some("primary"));
    assert_eq!(SurfaceRole::Auxiliary.reserved_id(), None);
}

#[test]
fn a_well_formed_auxiliary_surface_has_no_faults() {
    assert!(faults_of(&multiple("logs")).is_empty());
}

#[test]
fn invalid_ids_are_reported_with_their_reason() {
    assert_eq!(faults_of(&surface("")), vec!["invalid surface id: `` is empty".to_string()]);
    assert_eq!(
        faults_of(&surface("my surface")),
        vec![
            "invalid surface id: `my surface` must contain only ASCII letters, digits, \
             `.`, `-`, or `_`"
                .to_string()
        ],
    );
    assert_eq!(invalid_id_reason("logs.v2_x-y"), None);
}

#[test]
fn an_auxiliary_surface_may_not_take_a_reserved_id() {
    assert_eq!(
        faults_of(&surface("settings")),
        vec!["surface id `settings` is reserved for the standard settings surface".to_string()],
    );
}

#[test]
fn a_standard_role_requires_its_reserved_id() {
    assert_eq!(
        faults_of(&surface("prefs").in_role(SurfaceRole::Settings)),
        vec!["the settings surface must use the reserved id `settings`, not `prefs`".to_string()],
    );
}

#[test]
fn settings_and_about_may_not_declare_multiple_instances() {
    for role in [SurfaceRole::Settings, SurfaceRole::About] {
        let id = role.reserved_id().expect("standard role");
        let declared = multiple(id).in_role(role);
        assert_eq!(
            faults_of(&declared),
            vec![format!(
                "the {} surface `{}` must be a singleton and cannot declare multiple instances",
                role.as_str(),
                id
            )],
        );
    }
}

#[test]
fn primary_and_auxiliary_surfaces_may_declare_multiple_instances() {
    for (role, id) in [(SurfaceRole::Primary, "primary"), (SurfaceRole::Auxiliary, "logs")] {
        assert!(faults_of(&multiple(id).in_role(role)).is_empty(), "{} may be multiple", role.as_str());
    }
}

#[test]
fn a_multiple_surface_may_not_declare_a_reuse_hook() {
    let declared =
        DeclaredSurface::new("logs", SurfaceRole::Auxiliary, SurfaceCardinality::Multiple, None, true);
    assert_eq!(
        faults_of(&declared),
        vec![
            "surface `logs` declares an on_reuse hook but admits multiple instances, so no \
             open would ever reuse a window"
                .to_string()
        ],
    );
    let singleton =
        DeclaredSurface::new("logs", SurfaceRole::Auxiliary, SurfaceCardinality::Single, None, true);
    assert!(faults_of(&singleton).is_empty());
    assert!(faults_of(&multiple("logs")).is_empty());
}

#[test]
fn independent_surface_faults_are_all_reported_in_a_fixed_order() {
    let declared = multiple("Prefs Window").in_role(SurfaceRole::Settings);
    assert_eq!(
        faults_of(&declared).len(),
        3,
        "invalid id, wrong reserved id, and invalid cardinality are independent",
    );
}

#[test]
fn validate_appends_module_faults_without_clearing_earlier_ones() {
    let mut errors = vec![DeclarationError::InvalidIdentity { field: "earlier", reason: "is empty" }];

    surface("").validate(&mut errors);

    assert_eq!(errors.len(), 2);
    assert_eq!(errors[1], DeclarationError::InvalidSurfaceId { id: "", reason: "is empty" });
    assert_eq!(errors[0], DeclarationError::InvalidIdentity { field: "earlier", reason: "is empty" });
}

#[test]
fn the_surface_set_blames_only_surplus_declarations() {
    let mut errors = Vec::new();
    validate_surface_set(
        &[("logs", SurfaceRole::Auxiliary), ("primary", SurfaceRole::Primary), ("logs", SurfaceRole::Auxiliary), ("main", SurfaceRole::Primary)],
        &mut errors,
    );
    assert_eq!(
        errors,
        vec![
            DeclarationError::DuplicateSurfaceId { id: "logs" },
            DeclarationError::MultiplePrimarySurfaces { id: "main" },
        ],
    );
}

// ------------------------------------------------------------------ policies

#[test]
fn the_first_explicit_intent_wins_and_later_ones_are_counted() {
    let mut about = AboutIntent::new();
    assert!(about.has_command());
    about.disable();
    about.custom(surface("about").in_role(SurfaceRole::About));
    about.custom(surface("about").in_role(SurfaceRole::About));
    assert!(!about.has_command());
    assert_eq!(about.surface_entry(), None);
    let mut errors = Vec::new();
    about.validate(&mut errors);
    assert_eq!(errors, vec![DeclarationError::MultipleAboutDeclarations; 2]);

    let mut theme = ThemeIntent::new();
    assert!(theme.enabled());
    theme.custom();
    theme.disable();
    assert_eq!(theme.policy(), ThemeChoice::Custom);
    let mut errors = Vec::new();
    theme.validate(&mut errors);
    assert_eq!(errors, vec![DeclarationError::MultipleThemeDeclarations]);
}

#[test]
fn a_single_hook_of_each_kind_is_faultless() {
    let mut hooks = LifecycleHooks::new();
    hooks.start();
    hooks.on_event();
    hooks.on_event();
    hooks.on_error();
    hooks.shutdown();
    let mut errors = Vec::new();
    hooks.validate(&mut errors);
    assert!(errors.is_empty(), "on_event is repeatable");
}

#[test]
fn surplus_singleton_hooks_are_declaration_faults() {
    let mut hooks = LifecycleHooks::new();
    hooks.start();
    hooks.start();
    hooks.on_error();
    hooks.on_error();
    hooks.shutdown();
    hooks.shutdown();
    hooks.shutdown();
    let mut errors = Vec::new();
    hooks.validate(&mut errors);
    assert_eq!(
        errors.iter().map(|e| e.to_text()).collect::<Vec<_>>(),
        vec![
            "only one start hook may be declared; a second one was declared".to_string(),
            "only one runtime error reporter may be declared; a second one was declared".to_string(),
            "only one application shutdown hook may be declared; a second one was declared".to_string(),
            "only one application shutdown hook may be declared; a second one was declared".to_string(),
        ],
        "every surplus declaration is reported, so fixing one cannot hide another",
    );
}

#[test]
fn the_launch_set_reports_surplus_specs_hooks_and_unproduced_arguments() {
    let mut errors = Vec::new();
    validate_launch_set(
        &[args_launch(1), DeclaredLaunch { value: TypeTag(0), value_name: "()", surplus_hooks: 1 }],
        &[PrimaryOpener { args: TypeTag(0), args_name: "()" }],
        &mut errors,
    );
    assert_eq!(
        errors,
        vec![
            DeclarationError::MultipleLaunchSpecs { launch: "()" },
            DeclarationError::MultipleBeforePrimaryHooks { launch: "launch::Args" },
            DeclarationError::MultipleBeforePrimaryHooks { launch: "()" },
            DeclarationError::PrimarySurfaceArguments { arguments: "()" },
        ],
    );
    let mut errors = Vec::new();
    validate_launch_set(&[], &[PrimaryOpener { args: TypeTag::unit(), args_name: "()" }], &mut errors);
    assert!(errors.is_empty(), "without a launch spec the launch value is unit");
}

// ----------------------------------------------------------- the aggregate

#[test]
fn a_valid_declaration_reports_no_faults() {
    assert!(declaration().validate().is_ok());
}

#[test]
fn identity_faults_are_reported_in_field_order() {
    let errors = all_errors(&AppDeclaration::new("", ""));
    assert_eq!(
        errors,
        vec![
            DeclarationError::InvalidIdentity { field: "app_id", reason: "is empty" },
            DeclarationError::InvalidIdentity { field: "data_namespace", reason: "is empty" },
        ],
    );
}

#[test]
fn identity_faults_precede_module_faults_in_declaration_order() {
    let declared = AppDeclaration::new("", "neutron-test").surface(surface("")).surface(surface("a b"));
    assert_eq!(
        texts(&declared),
        vec![
            "invalid app identity: `app_id` is empty".to_string(),
            "invalid surface id: `` is empty".to_string(),
            "invalid surface id: `a b` must contain only ASCII letters, digits, `.`, `-`, or `_`".to_string(),
        ],
    );
}

#[test]
fn a_full_standard_surface_set_is_valid() {
    let declared = declaration()
        .primary_surface(surface("primary"))
        .settings_surface(surface("settings"))
        .about_surface(surface("about"))
        .surface(multiple("logs"));
    assert!(declared.validate().is_ok());
}

#[test]
fn a_repeated_surface_id_blames_only_the_later_declaration() {
    let declared = declaration().surface(surface("logs")).surface(surface("logs"));
    assert_eq!(texts(&declared), vec!["surface id `logs` is declared more than once".to_string()]);
}

#[test]
fn only_one_primary_surface_may_be_declared() {
    let declared = declaration().primary_surface(surface("primary")).primary_surface(surface("primary"));
    assert_eq!(
        texts(&declared),
        vec![
            "surface id `primary` is declared more than once".to_string(),
            "only one primary surface may be declared; `primary` is a second one".to_string(),
        ],
        "the repeated id and the surplus role are independent faults",
    );
}

#[test]
fn per_surface_faults_precede_cross_surface_faults() {
    let declared = declaration().surface(surface("logs")).settings_surface(surface("prefs")).surface(surface("logs"));
    assert_eq!(
        texts(&declared),
        vec![
            "the settings surface must use the reserved id `settings`, not `prefs`".to_string(),
            "surface id `logs` is declared more than once".to_string(),
        ],
    );
}

#[test]
fn setup_is_repeatable_and_its_graph_faults_reach_the_aggregate() {
    let declared = declaration()
        .setup(DeclaredSetupModule::erase(SetupModule::new(SetupKey::new("theme"))))
        .setup(DeclaredSetupModule::erase(SetupModule::new(SetupKey::new("theme"))))
        .setup(DeclaredSetupModule::erase(SetupModule::new(SetupKey::new("index")).after(SetupKey::new("db"))));
    assert_eq!(
        texts(&declared),
        vec![
            "setup key `theme` is declared more than once".to_string(),
            "setup module `index` depends on `db`, which is not declared".to_string(),
        ],
        "setup faults join the one aggregate, in declaration order",
    );
}

#[test]
fn surplus_singleton_lifecycle_hooks_are_declaration_faults() {
    let mut hooks = LifecycleHooks::new();
    hooks.start();
    hooks.start();
    hooks.on_error();
    hooks.on_error();
    hooks.shutdown();
    hooks.shutdown();
    let declared = declaration().with_lifecycle(hooks);
    assert_eq!(
        texts(&declared),
        vec![
            "only one start hook may be declared; a second one was declared".to_string(),
            "only one runtime error reporter may be declared; a second one was declared".to_string(),
            "only one application shutdown hook may be declared; a second one was declared".to_string(),
        ],
    );
}

#[test]
fn command_faults_reach_the_one_declaration_aggregate() {
    let alpha = CommandId::new("probe.alpha");
    let parsed = ParseVerdicts { chords: [true, true, true], context: true };
    let declared = declaration()
        .command(DeclaredCommand::new(alpha, "declaration_probe::Alpha", CommandBinding::unbound(), parsed))
        .command(DeclaredCommand::new(alpha, "declaration_probe::Alpha", CommandBinding::unbound(), parsed));
    let errors = texts(&declared);
    assert_eq!(errors, vec!["duplicate command id `probe.alpha`".to_string()], "reported once, not once per platform");
}

#[test]
fn menu_faults_that_only_manifest_on_other_platforms_are_reported_from_any_host() {
    let declared = declaration().menu_bar(MenuBar::standard().hide_menu(MenuKey::VIEW()));
    let command_faults: Vec<CommandFault> = declared
        .validate()
        .expect_err("hiding View strands Appearance on Windows and Linux")
        .iter()
        .filter_map(|error| match error {
            DeclarationError::Command { fault } => Some(*fault),
            _ => None,
        })
        .collect();
    assert_eq!(
        command_faults,
        vec![CommandFault::StrandedStandardFeature { menu: MenuKey::VIEW(), feature: "Appearance" }],
        "an identical Windows/Linux fault must be deduplicated to one report",
    );
}

#[test]
fn a_well_formed_setup_graph_leaves_the_declaration_valid() {
    let declared = declaration()
        .setup(DeclaredSetupModule::erase(SetupModule::new(SetupKey::new("index")).after(SetupKey::new("db"))))
        .setup(DeclaredSetupModule::erase(SetupModule::new(SetupKey::new("db"))));
    assert!(declared.validate().is_ok());
}

#[test]
fn the_default_declaration_resolves_the_framework_about_surface() {
    let declared = declaration();
    assert!(declared.validate().is_ok());
    assert_eq!(declared.about().surface_entry(), Some(("about", SurfaceRole::About)));
    assert!(declared.standard_features().has_about());
}

#[test]
fn without_about_removes_both_the_surface_and_the_command() {
    let declared = declaration().without_about();
    assert!(declared.validate().is_ok());
    assert_eq!(declared.about().surface_entry(), None);
    assert!(!declared.standard_features().has_about());
}

#[test]
fn a_custom_about_replaces_the_framework_surface_without_duplicating_it() {
    let declared = declaration().about_surface(surface("about"));
    assert!(declared.validate().is_ok(), "replacing About must not collide with the surface it replaced");
    assert_eq!(declared.about().surface_entry(), Some(("about", SurfaceRole::About)));
    assert!(declared.standard_features().has_about());
}

#[test]
fn a_custom_about_surface_is_validated_like_every_other_surface() {
    let errors = all_errors(&declaration().about_surface(multiple("credits")));
    assert_eq!(
        errors,
        vec![
            DeclarationError::SurfaceRoleId { role: "about", expected: "about", actual: "credits" },
            DeclarationError::InvalidSurfaceCardinality { id: "credits", role: "about" },
        ],
    );
}

#[test]
fn a_second_about_policy_is_a_fault_and_the_first_stays_authoritative() {
    let declared = declaration().without_about().about_surface(surface("about"));
    assert_eq!(all_errors(&declared), vec![DeclarationError::MultipleAboutDeclarations]);
    assert_eq!(declared.about().surface_entry(), None);
}

#[test]
fn the_theme_convention_is_on_by_default_and_removable() {
    assert!(declaration().standard_features().theme);
    let disabled = declaration().without_theme();
    assert!(disabled.validate().is_ok());
    assert!(!disabled.standard_features().theme);
    let custom = declaration().theme();
    assert!(custom.validate().is_ok());
    assert!(custom.standard_features().theme, "replacing the source replaces nothing else");
}

#[test]
fn a_second_theme_policy_is_a_fault_and_the_first_stays_authoritative() {
    let declared = declaration().without_theme().theme();
    assert_eq!(all_errors(&declared), vec![DeclarationError::MultipleThemeDeclarations]);
    assert!(!declared.standard_features().theme);
}

#[test]
fn the_settings_feature_is_activated_only_by_a_settings_surface() {
    assert!(!declaration().standard_features().has_settings());
    let declared = declaration().settings_surface(surface("settings"));
    assert!(declared.validate().is_ok());
    assert!(declared.standard_features().has_settings());
}

#[test]
fn a_settings_store_key_may_not_be_declared_twice() {
    let errors = all_errors(&declaration().settings_store(StoreKey::PRIMARY()).settings_store(StoreKey::PRIMARY()));
    assert_eq!(
        errors,
        vec![DeclarationError::DuplicateSettingsStoreKey { key: "settings".to_string() }],
        "only the surplus store is blamed",
    );
}

#[test]
fn the_shell_preferences_key_is_reserved_for_the_framework() {
    let errors = all_errors(
        &declaration().settings_store(StoreKey::new(SHELL_PREFERENCES_KEY).expect("a well-formed key")),
    );
    assert_eq!(
        errors,
        vec![DeclarationError::ReservedSettingsStoreKey { key: SHELL_PREFERENCES_KEY.to_string() }],
    );
}

#[test]
fn a_launch_primary_collides_with_a_declared_primary_surface() {
    let declared = declaration().primary_surface(surface("primary")).launch(args_launch(0), vec![surface("primary")]);
    assert_eq!(
        texts(&declared),
        vec![
            "surface id `primary` is declared more than once".to_string(),
            "only one primary surface may be declared; `primary` is a second one".to_string(),
        ],
        "a launch primary is validated exactly like any other primary",
    );
}

#[test]
fn a_repeated_primary_inside_one_spec_is_not_last_wins() {
    let declared = declaration().launch(args_launch(0), vec![surface("primary"), surface("primary")]);
    assert_eq!(
        texts(&declared),
        vec![
            "surface id `primary` is declared more than once".to_string(),
            "only one primary surface may be declared; `primary` is a second one".to_string(),
        ],
    );
}

#[test]
fn a_second_before_primary_hook_is_reported_and_never_replaces_the_first() {
    assert_eq!(
        texts(&declaration().launch(args_launch(1), Vec::new())),
        vec!["only one before_primary hook may be declared; the launch specification for `launch::Args` declares a second one".to_string()],
    );
}

#[test]
fn every_surplus_before_primary_hook_is_reported() {
    assert_eq!(texts(&declaration().launch(args_launch(2), Vec::new())).len(), 2);
}

#[test]
fn one_before_primary_hook_is_not_a_fault() {
    assert!(declaration().launch(args_launch(0), Vec::new()).validate().is_ok());
}

#[test]
fn a_second_launch_spec_is_reported_and_never_replaces_the_first() {
    let declared = declaration()
        .launch(args_launch(0), Vec::new())
        .launch(DeclaredLaunch { value: TypeTag::unit(), value_name: "()", surplus_hooks: 0 }, Vec::new());
    assert_eq!(
        texts(&declared),
        vec!["only one launch specification may be declared; `()` is a second one".to_string()],
    );
}

#[test]
fn a_primary_whose_arguments_no_launch_produces_is_a_declaration_fault() {
    let declared = declaration().launch(args_launch(0), Vec::new()).primary_surface(surface("primary"));
    assert_eq!(
        texts(&declared),
        vec!["the primary surface takes `()` but no launch specification produces it".to_string()],
    );
}

#[test]
fn a_launch_primary_takes_the_launch_value() {
    assert!(declaration().launch(args_launch(0), vec![surface("primary")]).validate().is_ok());
}

#[test]
fn an_application_may_declare_no_surfaces_at_all() {
    assert!(declaration().validate().is_ok(), "a background process declares no primary surface");
}

#[test]
fn event_observers_are_repeatable_and_the_singletons_are_not() {
    let mut hooks = LifecycleHooks::new();
    hooks.start();
    hooks.on_event();
    hooks.on_event();
    hooks.on_event();
    hooks.on_error();
    hooks.shutdown();
    let declared = declaration().with_lifecycle(hooks);
    assert!(
        declared.validate().is_ok(),
        "any number of observers is well formed; one of each singleton is too",
    );
}

#[test]
fn the_default_command_declaration_is_faultless() {
    assert!(
        declaration().validate().is_ok(),
        "the framework vocabulary an application never touches must validate",
    );
}
