//! Pure declaration faults of the typed command and menu model.
//!
//! Every fault is `Copy` and carries only `&'static` identities, so collecting
//! them is allocation-light and comparing them in tests is exact.

use vstd::prelude::*;
use vstd::string::StringExecFns;

use super::keys::{spec_key_fault_reason, KeyFault, MenuKey, MenuSectionKey};
use super::standard::{spec_platform_name, DesktopPlatform};
use super::CommandId;
use crate::text::{aggregate_text, spec_aggregate_text};

verus! {

/// One pure fault in a typed command or menu declaration.
#[derive(Clone, Copy, PartialEq, Eq, Debug)]
#[non_exhaustive]
pub enum CommandFault {
    /// Two declared commands share one [`CommandId`].
    DuplicateCommand {
        /// The repeated id.
        command: CommandId,
    },
    /// A declared chord could not be parsed for one platform.
    InvalidBinding {
        /// The command that declared it.
        command: CommandId,
        /// The platform whose chord failed to parse.
        platform: DesktopPlatform,
        /// The unparsable chord.
        binding: &'static str,
    },
    /// A declared key context is not a valid context predicate.
    InvalidKeyContext {
        /// The command that declared it.
        command: CommandId,
        /// The unparsable predicate.
        context: &'static str,
    },
    /// A menu key is unusable as an identity.
    InvalidMenuKey {
        /// The rejected text.
        raw: &'static str,
        /// Why it was rejected.
        fault: KeyFault,
    },
    /// Two top-level menus share one [`MenuKey`].
    DuplicateMenuKey {
        /// The repeated key.
        menu: MenuKey,
    },
    /// A menu references a command that was never declared.
    UnknownCommand {
        /// The menu holding the reference.
        menu: MenuKey,
        /// The undeclared command.
        command: CommandId,
    },
    /// A menu reserves a section with no declared provider.
    MissingSectionProvider {
        /// The menu holding the slot.
        menu: MenuKey,
        /// The unprovided section.
        section: MenuSectionKey,
    },
    /// Two providers were declared for one section key.
    DuplicateSectionProvider {
        /// The repeated section.
        section: MenuSectionKey,
    },
    /// One section key appears twice in the resolved menu bar.
    DuplicateSectionSlot {
        /// The repeated section.
        section: MenuSectionKey,
    },
    /// A dynamic section was reserved inside the macOS dock menu.
    SectionInDock {
        /// The section that targeted the dock.
        section: MenuSectionKey,
    },
    /// One command is referenced twice inside a single menu.
    RepeatedCommandInMenu {
        /// The menu containing the repeat.
        menu: MenuKey,
        /// The repeated command.
        command: CommandId,
    },
    /// Hiding an optional standard menu would strand an enabled standard
    /// feature that the resolved platform places in that menu.
    StrandedStandardFeature {
        /// The menu the declaration hid.
        menu: MenuKey,
        /// The framework-owned name of the feature that lost its placement.
        feature: &'static str,
    },
    /// A standard-menu edit is not permitted.
    InvalidStandardEdit {
        /// The menu the edit targeted.
        menu: MenuKey,
        /// Why the edit was rejected.
        reason: &'static str,
    },
}

/// The rendered diagnostic of one command fault.
pub open spec fn spec_command_fault_text(fault: CommandFault) -> Seq<char> {
    match fault {
        CommandFault::DuplicateCommand { command } => "duplicate command id `"@ + command@ + "`"@,
        CommandFault::InvalidBinding { command, platform, binding } => "invalid "@
            + spec_platform_name(platform) + " binding `"@ + binding@ + "` for command `"@
            + command@ + "`"@,
        CommandFault::InvalidKeyContext { command, context } => "invalid key context `"@
            + context@ + "` for command `"@ + command@ + "`"@,
        CommandFault::InvalidMenuKey { raw, fault } => "invalid menu key `"@ + raw@ + "`: "@
            + spec_key_fault_reason(fault),
        CommandFault::DuplicateMenuKey { menu } => "duplicate top-level menu `"@ + menu@ + "`"@,
        CommandFault::UnknownCommand { menu, command } => "menu `"@ + menu@
            + "` references undeclared command `"@ + command@ + "`"@,
        CommandFault::MissingSectionProvider { menu, section } => "menu `"@ + menu@
            + "` reserves section `"@ + section@ + "` with no declared provider"@,
        CommandFault::DuplicateSectionProvider { section } => "duplicate provider for menu section `"@
            + section@ + "`"@,
        CommandFault::DuplicateSectionSlot { section } => "menu section `"@ + section@
            + "` is reserved more than once"@,
        CommandFault::SectionInDock { section } => "menu section `"@ + section@
            + "` cannot be reserved in the dock menu"@,
        CommandFault::RepeatedCommandInMenu { menu, command } => "menu `"@ + menu@
            + "` references command `"@ + command@ + "` more than once"@,
        CommandFault::StrandedStandardFeature { menu, feature } => "hiding menu `"@ + menu@
            + "` strands the enabled "@ + feature@ + " feature, which this platform places there"@,
        CommandFault::InvalidStandardEdit { menu, reason } => "invalid standard-menu edit for `"@
            + menu@ + "`: "@ + reason@,
    }
}

impl CommandFault {
    /// The rendered diagnostic, e.g. "duplicate command id `app.quit`".
    pub fn to_text(&self) -> (text: String)
        ensures
            text@ == spec_command_fault_text(*self),
    {
        let mut out = String::new();
        match *self {
            CommandFault::DuplicateCommand { command } => {
                out.append("duplicate command id `");
                out.append(command.as_str());
                out.append("`");
            },
            CommandFault::InvalidBinding { command, platform, binding } => {
                out.append("invalid ");
                out.append(platform.as_str());
                out.append(" binding `");
                out.append(binding);
                out.append("` for command `");
                out.append(command.as_str());
                out.append("`");
            },
            CommandFault::InvalidKeyContext { command, context } => {
                out.append("invalid key context `");
                out.append(context);
                out.append("` for command `");
                out.append(command.as_str());
                out.append("`");
            },
            CommandFault::InvalidMenuKey { raw, fault } => {
                out.append("invalid menu key `");
                out.append(raw);
                out.append("`: ");
                out.append(fault.reason());
            },
            CommandFault::DuplicateMenuKey { menu } => {
                out.append("duplicate top-level menu `");
                out.append(menu.as_str());
                out.append("`");
            },
            CommandFault::UnknownCommand { menu, command } => {
                out.append("menu `");
                out.append(menu.as_str());
                out.append("` references undeclared command `");
                out.append(command.as_str());
                out.append("`");
            },
            CommandFault::MissingSectionProvider { menu, section } => {
                out.append("menu `");
                out.append(menu.as_str());
                out.append("` reserves section `");
                out.append(section.as_str());
                out.append("` with no declared provider");
            },
            CommandFault::DuplicateSectionProvider { section } => {
                out.append("duplicate provider for menu section `");
                out.append(section.as_str());
                out.append("`");
            },
            CommandFault::DuplicateSectionSlot { section } => {
                out.append("menu section `");
                out.append(section.as_str());
                out.append("` is reserved more than once");
            },
            CommandFault::SectionInDock { section } => {
                out.append("menu section `");
                out.append(section.as_str());
                out.append("` cannot be reserved in the dock menu");
            },
            CommandFault::RepeatedCommandInMenu { menu, command } => {
                out.append("menu `");
                out.append(menu.as_str());
                out.append("` references command `");
                out.append(command.as_str());
                out.append("` more than once");
            },
            CommandFault::StrandedStandardFeature { menu, feature } => {
                out.append("hiding menu `");
                out.append(menu.as_str());
                out.append("` strands the enabled ");
                out.append(feature);
                out.append(" feature, which this platform places there");
            },
            CommandFault::InvalidStandardEdit { menu, reason } => {
                out.append("invalid standard-menu edit for `");
                out.append(menu.as_str());
                out.append("`: ");
                out.append(reason);
            },
        }
        out
    }
}

/// One or more [`CommandFault`]s in deterministic declaration order.
///
/// Non-empty by construction: it can only be built through
/// [`CommandFaults::new`], which returns `None` for an empty input.
#[derive(Debug)]
pub struct CommandFaults {
    faults: Vec<CommandFault>,
}

impl View for CommandFaults {
    type V = Seq<CommandFault>;

    closed spec fn view(&self) -> Seq<CommandFault> {
        self.faults@
    }
}

impl CommandFaults {
    #[verifier::type_invariant]
    spec fn non_empty(&self) -> bool {
        self.faults@.len() > 0
    }

    /// Wrap collected faults, or `None` when validation found nothing.
    pub fn new(faults: Vec<CommandFault>) -> (collected: Option<Self>)
        ensures
            faults@.len() == 0 <==> collected is None,
            collected matches Some(c) ==> c@ == faults@,
    {
        if faults.len() == 0 {
            None
        } else {
            Some(CommandFaults { faults })
        }
    }

    /// Wrap faults already known to be present.
    pub(crate) fn from_nonempty(faults: Vec<CommandFault>) -> (collected: Self)
        requires
            faults@.len() > 0,
        ensures
            collected@ == faults@,
    {
        CommandFaults { faults }
    }

    /// Number of reported faults; always at least one.
    pub fn len(&self) -> (n: usize)
        ensures
            n == self@.len(),
            n > 0,
    {
        proof {
            use_type_invariant(self);
        }
        self.faults.len()
    }

    /// The faults in declaration order.
    pub fn as_slice(&self) -> (faults: &[CommandFault])
        ensures
            faults@ == self@,
    {
        self.faults.as_slice()
    }

    /// Iterate the faults in declaration order.
    pub fn iter(&self) -> (it: std::slice::Iter<'_, CommandFault>)
        ensures
            vstd::std_specs::slice::into_iter_elts(it) == self@,
    {
        self.faults.as_slice().iter()
    }

    /// The rendered diagnostic: the count, then every fault, `; `-separated.
    pub fn to_text(&self) -> (text: String)
        ensures
            text@ == spec_aggregate_text(
                "command declaration error"@,
                self@.map_values(|f: CommandFault| spec_command_fault_text(f)),
            ),
    {
        let mut parts: Vec<String> = Vec::new();
        let mut i: usize = 0;
        while i < self.faults.len()
            invariant
                i <= self.faults@.len(),
                parts@.len() == i,
                forall|j: int|
                    0 <= j < i ==> (#[trigger] parts@[j])@ == spec_command_fault_text(
                        self.faults@[j],
                    ),
            decreases self.faults@.len() - i,
        {
            parts.push(self.faults[i].to_text());
            i = i + 1;
        }
        let text = aggregate_text("command declaration error", &parts);
        assert(parts@.map_values(|p: String| p@) =~= self@.map_values(
            |f: CommandFault| spec_command_fault_text(f),
        ));
        text
    }
}

} // verus!
