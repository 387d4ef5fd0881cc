# neutron_components_app

The declaration and command core of a desktop application shell, written in
Verus: what an application declares (identity, surfaces, settings stores,
setup modules, lifecycle hooks, commands and menus) is validated, lowered and
installed by functions whose contracts Verus proves.

Layout:

- `src/declaration/` — the application declaration: identity and surface
  validation, launch and startup decisions, setup-module ordering, and the
  order in which runtime modules are installed.
- `src/commands/` — stable command ids, cross-platform bindings, menu keys,
  the standard desktop vocabulary, typed menu declarations and their
  lowering to a menu plan, the projection of that plan into menus, and the
  command registry with its checked install and replace paths.
- `src/phases.rs`, `src/lifecycle.rs`, `src/liveness.rs` — the startup phase
  sequencer, the lifecycle event queue and the liveness bookkeeping.
- `src/settings.rs` — settings store keys and the schema-migration policy.
- `src/handles.rs` — startup readiness and the pure parts of the shell handles.
- `src/error.rs`, `src/text.rs` — errors and the text helpers they render with.
- `tests/` — the test suite, run against the compiled library.
- `app/` — the glue around the library that needs the toolkit, the process
  or the error-reporting crates.
