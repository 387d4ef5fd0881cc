use neutron_components_app::declaration::app::{AppDeclaration, RuntimeModule};
use neutron_components_app::declaration::setup::{DeclaredSetupModule, SetupKey, SetupModule};
use neutron_components_app::declaration::surface::{DeclaredSurface, SurfaceCardinality, SurfaceRole};
use neutron_components_app::settings::StoreKey;

fn declaration() -> AppDeclaration {
    AppDeclaration::new("dev.neutron.test", "neutron-test")
}

fn surface(id: &'static str) -> DeclaredSurface {
    DeclaredSurface::new(id, SurfaceRole::Auxiliary, SurfaceCardinality::Single, None, false)
}

fn setup(key: &'static str) -> DeclaredSetupModule {
    DeclaredSetupModule::erase(SetupModule::new(SetupKey::new(key)))
}

fn names(declaration: AppDeclaration) -> Vec<RuntimeModule> {
    declaration.runtime_modules()
}

#[test]
fn the_setup_pipeline_is_the_last_runtime_module() {
    let names = names(declaration().setup(setup("app.setup")).surface(surface("panel")));
    assert_eq!(
        names.last().copied(),
        Some(RuntimeModule::SetupPipeline),
        "the setup pipeline must be the last runtime module: {names:?}",
    );
    assert!(names.len() >= 3, "the framework and surface modules are still installed before it: {names:?}");
}

#[test]
fn a_declaration_without_setup_modules_installs_no_pipeline() {
    let names = names(declaration());
    assert!(
        !names.iter().any(|name| *name == RuntimeModule::SetupPipeline),
        "an empty setup list must not install a no-op module: {names:?}",
    );
}

#[test]
fn the_default_declaration_installs_the_conventional_desktop_order() {
    assert_eq!(
        names(declaration()),
        vec![
            RuntimeModule::Windows,
            RuntimeModule::Surface("about"),
            RuntimeModule::ShellPreferences,
            RuntimeModule::Theme,
            RuntimeModule::ThemeMenu,
            RuntimeModule::Menus,
        ],
    );
}

#[test]
fn every_declared_concern_contributes_its_runtime_module_in_the_fixed_order() {
    let names = names(
        declaration()
            .setup(setup("app.setup"))
            .settings_store(StoreKey::PRIMARY())
            .surface(surface("panel"))
            .primary_surface(surface("primary"))
            .settings_surface(surface("settings")),
    );
    assert_eq!(
        names,
        vec![
            RuntimeModule::Windows,
            RuntimeModule::Surface("panel"),
            RuntimeModule::Surface("primary"),
            RuntimeModule::Surface("settings"),
            RuntimeModule::Surface("about"),
            RuntimeModule::SettingsStore(0),
            RuntimeModule::ShellPreferences,
            RuntimeModule::Theme,
            RuntimeModule::ThemeMenu,
            RuntimeModule::Menus,
            RuntimeModule::SetupPipeline,
        ],
    );
}

#[test]
fn declared_stores_install_after_every_surface_and_before_the_theme() {
    let names = names(declaration().settings_store(StoreKey::PRIMARY()).surface(surface("panel")));
    let last_surface = names
        .iter()
        .rposition(|name| matches!(name, RuntimeModule::Surface(_)))
        .unwrap_or_else(|| panic!("both surfaces are installed: {names:?}"));
    let position = |needle: RuntimeModule| {
        names.iter().position(|name| *name == needle).unwrap_or_else(|| panic!("{needle:?} is installed: {names:?}"))
    };
    assert!(last_surface < position(RuntimeModule::SettingsStore(0)));
    assert!(position(RuntimeModule::SettingsStore(0)) < position(RuntimeModule::ShellPreferences));
    assert!(position(RuntimeModule::ThemeMenu) < position(RuntimeModule::Menus));
}

#[test]
fn without_theme_installs_no_preferences_source_or_appearance_bridge() {
    assert_eq!(
        names(declaration().without_theme()),
        vec![RuntimeModule::Windows, RuntimeModule::Surface("about"), RuntimeModule::Menus],
        "the theme convention is all three modules or none of them",
    );
}

#[test]
fn a_custom_theme_source_keeps_the_rest_of_the_convention() {
    assert_eq!(names(declaration().theme()), names(declaration()), "replacing the source replaces nothing else");
}

#[test]
fn without_about_installs_no_about_surface() {
    let names = names(declaration().without_about());
    assert!(
        !names.iter().any(|name| matches!(name, RuntimeModule::Surface(_))),
        "a declaration with no surfaces and no About installs none: {names:?}",
    );
}

#[test]
fn a_custom_about_replaces_the_framework_surface_rather_than_joining_it() {
    let names = names(declaration().about_surface(surface("about")));
    assert_eq!(
        names.iter().filter(|name| matches!(name, RuntimeModule::Surface(_))).count(),
        1,
        "two About surfaces would collide on the reserved id: {names:?}",
    );
}

#[test]
fn exactly_one_menus_module_owns_the_declared_vocabulary() {
    let names = names(declaration());
    assert_eq!(
        names.iter().filter(|name| **name == RuntimeModule::Menus).count(),
        1,
        "a second menus owner would install the framework vocabulary twice: {names:?}",
    );
}

#[test]
fn the_setup_pipeline_installs_after_the_declared_menus_module() {
    let names = names(declaration().setup(setup("app")));
    let menus = names.iter().position(|name| *name == RuntimeModule::Menus).expect("the declared menus module is installed");
    let pipeline = names
        .iter()
        .position(|name| *name == RuntimeModule::SetupPipeline)
        .expect("the setup pipeline is installed");
    assert!(menus < pipeline, "application setup initializes after every framework module: {names:?}");
}

use neutron_components_app::declaration::run::{startup_action, LaunchOutcome, StartupAction};

#[test]
fn a_faulty_declaration_is_reported_before_parsing_or_the_platform() {
    let broken = AppDeclaration::new("", "neutron-test");
    assert_eq!(broken.next_startup_action(None), StartupAction::ReportDeclarationFaults);
    assert_eq!(
        broken.next_startup_action(Some(LaunchOutcome::Failed)),
        StartupAction::ReportDeclarationFaults,
        "validation runs before parsing",
    );
    assert_eq!(broken.validate().expect_err("an empty app_id is a declaration fault").len(), 1);
}

#[test]
fn a_valid_declaration_parses_then_answers_or_runs() {
    let valid = declaration();
    assert_eq!(valid.next_startup_action(None), StartupAction::ParseLaunch);
    assert_eq!(valid.next_startup_action(Some(LaunchOutcome::Failed)), StartupAction::ReportLaunchFailure);
    assert_eq!(
        valid.next_startup_action(Some(LaunchOutcome::ExitSuccess { stdout: Some("usage: probe\n".to_string()) })),
        StartupAction::WriteAndExit { stdout: Some("usage: probe\n".to_string()) },
        "`--help` returns success without building a platform",
    );
    assert_eq!(valid.next_startup_action(Some(LaunchOutcome::Run)), StartupAction::RunPlatform);
    assert_eq!(startup_action(false, Some(LaunchOutcome::Run)), StartupAction::ReportDeclarationFaults);
}
