//! Aggregated declaration validation faults.
//!
//! Validation is pure: it never touches the UI toolkit, the filesystem, or the
//! host platform, and it reports every independent fault it finds in
//! declaration order rather than stopping at the first one.

use vstd::prelude::*;
use vstd::string::StringExecFns;

use crate::commands::faults::spec_command_fault_text;
use crate::commands::CommandFault;
use crate::text::{aggregate_text, spec_aggregate_text};

verus! {

/// A single pure declaration fault.
#[derive(Debug, Clone, PartialEq, Eq)]
#[non_exhaustive]
pub enum DeclarationError {
    /// A required identity field is unusable.
    InvalidIdentity {
        /// Identity field that failed validation, e.g. `app_id`.
        field: &'static str,
        /// Why the field is unusable, e.g. `is empty`.
        reason: &'static str,
    },
    /// A surface ID is unusable as a stable identifier.
    InvalidSurfaceId {
        /// The declared surface ID.
        id: &'static str,
        /// Why the ID is unusable.
        reason: &'static str,
    },
    /// Two surfaces were declared with the same ID.
    DuplicateSurfaceId {
        /// The repeated surface ID.
        id: &'static str,
    },
    /// An auxiliary surface claimed a framework-reserved ID.
    ReservedSurfaceId {
        /// The declared surface ID.
        id: &'static str,
        /// The standard role that owns the reserved ID.
        role: &'static str,
    },
    /// A standard role was declared with an ID other than its reserved one.
    SurfaceRoleId {
        /// The standard role.
        role: &'static str,
        /// The reserved ID the role requires.
        expected: &'static str,
        /// The ID the surface actually declared.
        actual: &'static str,
    },
    /// More than one primary surface was declared.
    MultiplePrimarySurfaces {
        /// The surplus primary surface's ID.
        id: &'static str,
    },
    /// A role that must stay a singleton asked for multiple instances.
    InvalidSurfaceCardinality {
        /// The declared surface ID.
        id: &'static str,
        /// The role that forbids multiple instances.
        role: &'static str,
    },
    /// A surface admitting multiple instances declared a reuse hook, which can never run.
    UnreachableSurfaceReuse {
        /// The declared surface ID.
        id: &'static str,
    },
    /// A second launch specification was declared.
    MultipleLaunchSpecs {
        /// Type name of the surplus specification's launch value.
        launch: &'static str,
    },
    /// A launch specification declared more than one `before_primary` hook.
    MultipleBeforePrimaryHooks {
        /// Type name of the specification's launch value.
        launch: &'static str,
    },
    /// The primary surface takes arguments that no declared launch specification produces.
    PrimarySurfaceArguments {
        /// Type name of the arguments the primary surface requires.
        arguments: &'static str,
    },
    /// A setup key is not a well-formed stable identifier.
    InvalidSetupKey {
        /// The declared setup key.
        key: &'static str,
        /// Why it is rejected, phrased to follow the key.
        reason: &'static str,
    },
    /// The same setup key was declared more than once.
    DuplicateSetupKey {
        /// The repeated setup key.
        key: &'static str,
    },
    /// A setup module depends on a key nothing declares.
    MissingSetupDependency {
        /// The dependent setup module's key.
        key: &'static str,
        /// The undeclared dependency.
        dependency: &'static str,
    },
    /// A setup module declared more than one teardown.
    MultipleSetupTeardowns {
        /// The setup module's key.
        key: &'static str,
    },
    /// A setup module takes part in a dependency cycle.
    SetupDependencyCycle {
        /// A setup key on the cycle.
        key: &'static str,
    },
    /// A second common start hook was declared.
    MultipleStartHooks,
    /// A second runtime error reporter was declared.
    MultipleErrorReporters,
    /// A second application shutdown hook was declared.
    MultipleShutdownHooks,
    /// The same application settings store key was declared more than once.
    DuplicateSettingsStoreKey {
        /// The repeated store key.
        key: String,
    },
    /// An application settings store claimed the framework's shell-preferences key.
    ReservedSettingsStoreKey {
        /// The reserved store key the application claimed.
        key: String,
    },
    /// A second About policy was declared.
    MultipleAboutDeclarations,
    /// A second theme policy was declared.
    MultipleThemeDeclarations,
    /// A typed command or menu declaration fault.
    Command {
        /// The fault, in the command model's own vocabulary.
        fault: CommandFault,
    },
}

/// The rendered diagnostic of one declaration fault.
pub open spec fn spec_declaration_error_text(error: DeclarationError) -> Seq<char> {
    match error {
        DeclarationError::InvalidIdentity { field, reason } => "invalid app identity: `"@ + field@ + "` "@ + reason@,
        DeclarationError::InvalidSurfaceId { id, reason } => "invalid surface id: `"@ + id@ + "` "@ + reason@,
        DeclarationError::DuplicateSurfaceId { id } => "surface id `"@ + id@ + "` is declared more than once"@,
        DeclarationError::ReservedSurfaceId { id, role } => "surface id `"@ + id@ + "` is reserved for the standard "@ + role@ + " surface"@,
        DeclarationError::SurfaceRoleId { role, expected, actual } => "the "@ + role@ + " surface must use the reserved id `"@ + expected@ + "`, not `"@ + actual@ + "`"@,
        DeclarationError::MultiplePrimarySurfaces { id } => "only one primary surface may be declared; `"@ + id@ + "` is a second one"@,
        DeclarationError::InvalidSurfaceCardinality { id, role } => "the "@ + role@ + " surface `"@ + id@ + "` must be a singleton and cannot declare multiple instances"@,
        DeclarationError::UnreachableSurfaceReuse { id } => "surface `"@ + id@ + "` declares an on_reuse hook but admits multiple instances, so no open would ever reuse a window"@,
        DeclarationError::MultipleLaunchSpecs { launch } => "only one launch specification may be declared; `"@ + launch@ + "` is a second one"@,
        DeclarationError::MultipleBeforePrimaryHooks { launch } => "only one before_primary hook may be declared; the launch specification for `"@ + launch@ + "` declares a second one"@,
        DeclarationError::PrimarySurfaceArguments { arguments } => "the primary surface takes `"@ + arguments@ + "` but no launch specification produces it"@,
        DeclarationError::InvalidSetupKey { key, reason } => "invalid setup key: `"@ + key@ + "` "@ + reason@,
        DeclarationError::DuplicateSetupKey { key } => "setup key `"@ + key@ + "` is declared more than once"@,
        DeclarationError::MissingSetupDependency { key, dependency } => "setup module `"@ + key@ + "` depends on `"@ + dependency@ + "`, which is not declared"@,
        DeclarationError::MultipleSetupTeardowns { key } => "only one shutdown hook may be declared; setup module `"@ + key@ + "` declares a second one"@,
        DeclarationError::SetupDependencyCycle { key } => "setup module `"@ + key@ + "` is part of a dependency cycle"@,
        DeclarationError::MultipleStartHooks => "only one start hook may be declared; a second one was declared"@,
        DeclarationError::MultipleErrorReporters => "only one runtime error reporter may be declared; a second one was declared"@,
        DeclarationError::MultipleShutdownHooks => "only one application shutdown hook may be declared; a second one was declared"@,
        DeclarationError::DuplicateSettingsStoreKey { key } => "settings store key `"@ + key@ + "` is declared more than once"@,
        DeclarationError::ReservedSettingsStoreKey { key } => "settings store key `"@ + key@ + "` is reserved for the framework's shell preferences"@,
        DeclarationError::MultipleAboutDeclarations => "only one About policy may be declared; a second one was declared"@,
        DeclarationError::MultipleThemeDeclarations => "only one theme policy may be declared; a second one was declared"@,
        DeclarationError::Command { fault } => spec_command_fault_text(fault),
    }
}

impl DeclarationError {
    /// The rendered diagnostic.
    pub fn to_text(&self) -> (text: String)
        ensures
            text@ == spec_declaration_error_text(*self),
    {
        let mut out = String::new();
        match self {
            DeclarationError::InvalidIdentity { field, reason } => {
                out.append("invalid app identity: `");
                out.append(field);
                out.append("` ");
                out.append(reason);
            },
            DeclarationError::InvalidSurfaceId { id, reason } => {
                out.append("invalid surface id: `");
                out.append(id);
                out.append("` ");
                out.append(reason);
            },
            DeclarationError::DuplicateSurfaceId { id } => {
                out.append("surface id `");
                out.append(id);
                out.append("` is declared more than once");
            },
            DeclarationError::ReservedSurfaceId { id, role } => {
                out.append("surface id `");
                out.append(id);
                out.append("` is reserved for the standard ");
                out.append(role);
                out.append(" surface");
            },
            DeclarationError::SurfaceRoleId { role, expected, actual } => {
                out.append("the ");
                out.append(role);
                out.append(" surface must use the reserved id `");
                out.append(expected);
                out.append("`, not `");
                out.append(actual);
                out.append("`");
            },
            DeclarationError::MultiplePrimarySurfaces { id } => {
                out.append("only one primary surface may be declared; `");
                out.append(id);
                out.append("` is a second one");
            },
            DeclarationError::InvalidSurfaceCardinality { id, role } => {
                out.append("the ");
                out.append(role);
                out.append(" surface `");
                out.append(id);
                out.append("` must be a singleton and cannot declare multiple instances");
            },
            DeclarationError::UnreachableSurfaceReuse { id } => {
                out.append("surface `");
                out.append(id);
                out.append("` declares an on_reuse hook but admits multiple instances, so no open would ever reuse a window");
            },
            DeclarationError::MultipleLaunchSpecs { launch } => {
                out.append("only one launch specification may be declared; `");
                out.append(launch);
                out.append("` is a second one");
            },
            DeclarationError::MultipleBeforePrimaryHooks { launch } => {
                out.append("only one before_primary hook may be declared; the launch specification for `");
                out.append(launch);
                out.append("` declares a second one");
            },
            DeclarationError::PrimarySurfaceArguments { arguments } => {
                out.append("the primary surface takes `");
                out.append(arguments);
                out.append("` but no launch specification produces it");
            },
            DeclarationError::InvalidSetupKey { key, reason } => {
                out.append("invalid setup key: `");
                out.append(key);
                out.append("` ");
                out.append(reason);
            },
            DeclarationError::DuplicateSetupKey { key } => {
                out.append("setup key `");
                out.append(key);
                out.append("` is declared more than once");
            },
            DeclarationError::MissingSetupDependency { key, dependency } => {
                out.append("setup module `");
                out.append(key);
                out.append("` depends on `");
                out.append(dependency);
                out.append("`, which is not declared");
            },
            DeclarationError::MultipleSetupTeardowns { key } => {
                out.append("only one shutdown hook may be declared; setup module `");
                out.append(key);
                out.append("` declares a second one");
            },
            DeclarationError::SetupDependencyCycle { key } => {
                out.append("setup module `");
                out.append(key);
                out.append("` is part of a dependency cycle");
            },
            DeclarationError::MultipleStartHooks => {
                out.append("only one start hook may be declared; a second one was declared");
            },
            DeclarationError::MultipleErrorReporters => {
                out.append("only one runtime error reporter may be declared; a second one was declared");
            },
            DeclarationError::MultipleShutdownHooks => {
                out.append("only one application shutdown hook may be declared; a second one was declared");
            },
            DeclarationError::DuplicateSettingsStoreKey { key } => {
                out.append("settings store key `");
                out.append(key.as_str());
                out.append("` is declared more than once");
            },
            DeclarationError::ReservedSettingsStoreKey { key } => {
                out.append("settings store key `");
                out.append(key.as_str());
                out.append("` is reserved for the framework's shell preferences");
            },
            DeclarationError::MultipleAboutDeclarations => {
                out.append("only one About policy may be declared; a second one was declared");
            },
            DeclarationError::MultipleThemeDeclarations => {
                out.append("only one theme policy may be declared; a second one was declared");
            },
            DeclarationError::Command { fault } => {
                let rendered = fault.to_text();
                out.append(rendered.as_str());
            },
        }
        out
    }
}

/// One or more [`DeclarationError`]s, in deterministic declaration order.
///
/// Non-empty by construction: it can only be built through
/// [`DeclarationErrors::new`], which returns `None` for an empty input.
#[derive(Debug)]
pub struct DeclarationErrors {
    errors: Vec<DeclarationError>,
}

impl View for DeclarationErrors {
    type V = Seq<DeclarationError>;

    closed spec fn view(&self) -> Seq<DeclarationError> {
        self.errors@
    }
}

impl DeclarationErrors {
    #[verifier::type_invariant]
    spec fn non_empty(&self) -> bool {
        self.errors@.len() > 0
    }

    /// Wrap collected faults, or `None` when validation found nothing.
    pub fn new(errors: Vec<DeclarationError>) -> (collected: Option<Self>)
        ensures
            errors@.len() == 0 <==> collected is None,
            collected matches Some(c) ==> c@ == errors@,
    {
        if errors.len() == 0 {
            None
        } else {
            Some(DeclarationErrors { errors })
        }
    }

    /// Number of reported faults; always at least one.
    pub fn len(&self) -> (n: usize)
        ensures
            n == self@.len(),
            n > 0,
    {
        proof {
            use_type_invariant(self);
        }
        self.errors.len()
    }

    /// Always `false`: [`DeclarationErrors::new`] returns `None` rather than
    /// an empty aggregate.
    pub fn is_empty(&self) -> (empty: bool)
        ensures
            !empty,
            empty == (self@.len() == 0),
    {
        proof {
            use_type_invariant(self);
        }
        false
    }

    /// The faults in declaration order.
    pub fn as_slice(&self) -> (errors: &[DeclarationError])
        ensures
            errors@ == self@,
    {
        self.errors.as_slice()
    }

    /// Iterate the faults in declaration order.
    pub fn iter(&self) -> (it: std::slice::Iter<'_, DeclarationError>)
        ensures
            vstd::std_specs::slice::into_iter_elts(it) == self@,
    {
        self.errors.as_slice().iter()
    }

    /// The rendered diagnostic: the count, then every fault, `; `-separated.
    pub fn to_text(&self) -> (text: String)
        ensures
            text@ == spec_aggregate_text(
                "declaration error"@,
                self@.map_values(|e: DeclarationError| spec_declaration_error_text(e)),
            ),
    {
        let mut parts: Vec<String> = Vec::new();
        let mut i: usize = 0;
        while i < self.errors.len()
            invariant
                i <= self.errors@.len(),
                parts@.len() == i,
                forall|j: int|
                    0 <= j < i ==> (#[trigger] parts@[j])@ == spec_declaration_error_text(
                        self.errors@[j],
                    ),
            decreases self.errors@.len() - i,
        {
            parts.push(self.errors[i].to_text());
            i = i + 1;
        }
        let text = aggregate_text("declaration error", &parts);
        assert(parts@.map_values(|p: String| p@) =~= self@.map_values(
            |e: DeclarationError| spec_declaration_error_text(e),
        ));
        text
    }
}

} // verus!
