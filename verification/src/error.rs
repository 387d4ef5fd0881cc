//! Nonfatal runtime errors and the closed-application signal.

use vstd::prelude::*;
use vstd::string::StringExecFns;

use crate::commands::CommandId;
use crate::lifecycle::{spec_event_name, AppEvent};

verus! {

#[verifier::external_type_specification]
#[verifier::external_body]
pub struct ExAnyhowError(anyhow::Error);

/// Convert an error value into an `anyhow::Error`. Trusted wrapper of
/// `Into::<anyhow::Error>::into`; nothing is stated about the result, which
/// carries the source value and its chain.
#[verifier::external_body]
fn into_anyhow<E: Into<anyhow::Error>>(source: E) -> anyhow::Error {
    source.into()
}

/// The `Display` text of an error. Trusted wrapper of `ToString::to_string`
/// on `anyhow::Error`; the text depends on the wrapped value, which Verus
/// cannot see, so no clause states it.
#[verifier::external_body]
fn anyhow_text(error: &anyhow::Error) -> String {
    error.to_string()
}

/// Kind of nonfatal operation reported through the runtime error observer.
#[derive(Debug, Clone, Copy, PartialEq, Eq)]
#[non_exhaustive]
pub enum RuntimeOperation {
    /// Lifecycle plugin or app-event delivery.
    Lifecycle,
    /// Command or action execution.
    Command,
    /// Best-effort work performed while the shell is shutting down.
    Shutdown,
    /// Best-effort named-module lifecycle work.
    Module,
}

/// A nonfatal runtime error observed by the application shell.
#[derive(Debug)]
pub struct RuntimeError {
    operation: RuntimeOperation,
    command_id: Option<CommandId>,
    event: Option<AppEvent>,
    module: Option<&'static str>,
    source: anyhow::Error,
}

/// The context a [`RuntimeError`] carries besides its source.
pub struct RuntimeErrorModel {
    /// The failed operation.
    pub operation: RuntimeOperation,
    /// The command, for command failures.
    pub command_id: Option<CommandId>,
    /// The event, for lifecycle failures.
    pub event: Option<AppEvent>,
    /// The module, for module failures.
    pub module: Option<&'static str>,
}

impl View for RuntimeError {
    type V = RuntimeErrorModel;

    closed spec fn view(&self) -> RuntimeErrorModel {
        RuntimeErrorModel {
            operation: self.operation,
            command_id: self.command_id,
            event: self.event,
            module: self.module,
        }
    }
}

/// The rendered runtime error, given the source's own text: the event wins,
/// then the command, then the module, then the shutdown operation.
pub open spec fn spec_runtime_error_text(model: RuntimeErrorModel, source: Seq<char>) -> Seq<
    char,
> {
    match model.event {
        Some(event) => "lifecycle operation `"@ + spec_event_name(event) + "` failed: "@ + source,
        None => match model.command_id {
            Some(command) => "command `"@ + command@ + "` failed: "@ + source,
            None => match model.module {
                Some(module) => "module `"@ + module@ + "` failed: "@ + source,
                None => if model.operation == RuntimeOperation::Shutdown {
                    "shutdown operation failed: "@ + source
                } else {
                    "runtime service operation failed: "@ + source
                },
            },
        },
    }
}

impl RuntimeError {
    /// Build a lifecycle delivery error.
    pub fn lifecycle(event: AppEvent, source: impl Into<anyhow::Error>) -> (error: Self)
        ensures
            error@.operation == RuntimeOperation::Lifecycle,
            error@.event == Some(event),
            error@.command_id is None,
            error@.module is None,
    {
        RuntimeError {
            operation: RuntimeOperation::Lifecycle,
            command_id: None,
            event: Some(event),
            module: None,
            source: into_anyhow(source),
        }
    }

    /// Build a command execution error.
    pub fn command(command_id: CommandId, source: impl Into<anyhow::Error>) -> (error: Self)
        ensures
            error@.operation == RuntimeOperation::Command,
            error@.command_id == Some(command_id),
            error@.event is None,
            error@.module is None,
    {
        RuntimeError {
            operation: RuntimeOperation::Command,
            command_id: Some(command_id),
            event: None,
            module: None,
            source: into_anyhow(source),
        }
    }

    /// Build a best-effort named-module lifecycle error.
    pub fn module(module: &'static str, source: impl Into<anyhow::Error>) -> (error: Self)
        ensures
            error@.operation == RuntimeOperation::Module,
            error@.module == Some(module),
            error@.command_id is None,
            error@.event is None,
    {
        RuntimeError {
            operation: RuntimeOperation::Module,
            command_id: None,
            event: None,
            module: Some(module),
            source: into_anyhow(source),
        }
    }

    /// Build a best-effort shutdown-phase error.
    pub fn shutdown(source: impl Into<anyhow::Error>) -> (error: Self)
        ensures
            error@.operation == RuntimeOperation::Shutdown,
            error@.module is None,
            error@.command_id is None,
            error@.event is None,
    {
        RuntimeError {
            operation: RuntimeOperation::Shutdown,
            command_id: None,
            event: None,
            module: None,
            source: into_anyhow(source),
        }
    }

    /// Operation that failed.
    pub fn operation(&self) -> (operation: RuntimeOperation)
        ensures
            operation == self@.operation,
    {
        self.operation
    }

    /// Stable command id, for command failures.
    pub fn command_id(&self) -> (command: Option<CommandId>)
        ensures
            command == self@.command_id,
    {
        self.command_id
    }

    /// The lifecycle event, for lifecycle failures.
    pub fn event(&self) -> (event: Option<&AppEvent>)
        ensures
            match self@.event {
                Some(e) => event == Some(&e),
                None => event is None,
            },
    {
        match &self.event {
            Some(event) => Some(event),
            None => None,
        }
    }

    /// Stable module identifier, for module lifecycle failures.
    pub fn module_id(&self) -> (module: Option<&'static str>)
        ensures
            module == self@.module,
    {
        self.module
    }

    /// The wrapped source error, as a value.
    pub closed spec fn source(&self) -> anyhow::Error {
        self.source
    }

    /// Original error, including its source chain.
    pub fn source_error(&self) -> (source: &anyhow::Error)
        ensures
            *source == self.source(),
    {
        &self.source
    }

    /// The rendered error: its context, then the source's own text.
    pub fn to_text(&self) -> (text: String)
        ensures
            exists|source: Seq<char>| text@ == spec_runtime_error_text(self@, source),
    {
        let source = anyhow_text(&self.source);
        let text = render_runtime_error(
            self.operation,
            self.command_id,
            &self.event,
            self.module,
            source.as_str(),
        );
        assert(text@ == spec_runtime_error_text(self@, source@));
        text
    }
}

/// Render a runtime error from its context and its source's text.
pub fn render_runtime_error(
    operation: RuntimeOperation,
    command_id: Option<CommandId>,
    event: &Option<AppEvent>,
    module: Option<&'static str>,
    source: &str,
) -> (text: String)
    ensures
        text@ == spec_runtime_error_text(
            RuntimeErrorModel { operation, command_id, event: *event, module },
            source@,
        ),
{
    let mut out = String::new();
    match event {
        Some(event) => {
            out.append("lifecycle operation `");
            out.append(event.name());
            out.append("` failed: ");
        },
        None => match command_id {
            Some(command) => {
                out.append("command `");
                out.append(command.as_str());
                out.append("` failed: ");
            },
            None => match module {
                Some(module) => {
                    out.append("module `");
                    out.append(module);
                    out.append("` failed: ");
                },
                None => match operation {
                    RuntimeOperation::Shutdown => {
                        out.append("shutdown operation failed: ");
                    },
                    _ => {
                        out.append("runtime service operation failed: ");
                    },
                },
            },
        },
    }
    out.append(source);
    out
}

/// Returned once the shell has begun shutting down and can no longer accept
/// main-thread work.
#[derive(Debug, Clone, Copy, PartialEq, Eq)]
pub struct AppClosed;

impl AppClosed {
    /// The rendered signal.
    pub fn to_text(&self) -> (text: String)
        ensures
            text@ == "the application has shut down and can no longer accept dispatched work"@,
    {
        String::from_str("the application has shut down and can no longer accept dispatched work")
    }
}

} // verus!
