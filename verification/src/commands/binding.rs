//! Host-independent cross-platform keybindings.
//!
//! One [`CommandBinding`] carries the macOS, Windows, and Linux chords for a
//! command plus an optional key context, or the explicit unbound state.
//!
//! Validation is pure: [`CommandBinding::validate`] reports a fault for every
//! declared chord on every platform that failed to parse, whatever host it
//! runs on. The chord and context parsers themselves belong to the UI toolkit
//! and are run by the caller, which hands their verdicts in; only
//! [`CommandBinding::for_platform`] is a per-platform projection.

use vstd::prelude::*;

use super::faults::CommandFault;
use super::standard::DesktopPlatform;
use super::CommandId;

verus! {

/// The macOS, Windows, and Linux chords for one command, plus the key context
/// they apply in. The default is [`CommandBinding::unbound`].
#[derive(Clone, Copy, PartialEq, Eq, Debug)]
pub struct CommandBinding {
    macos: Option<&'static str>,
    windows: Option<&'static str>,
    linux: Option<&'static str>,
    context: Option<&'static str>,
}

/// The declared content of a [`CommandBinding`].
#[derive(Clone, Copy, PartialEq, Eq, Debug)]
pub struct BindingModel {
    /// The macOS chord.
    pub macos: Option<&'static str>,
    /// The Windows chord.
    pub windows: Option<&'static str>,
    /// The Linux chord.
    pub linux: Option<&'static str>,
    /// The key context.
    pub context: Option<&'static str>,
}

impl View for CommandBinding {
    type V = BindingModel;

    closed spec fn view(&self) -> BindingModel {
        BindingModel {
            macos: self.macos,
            windows: self.windows,
            linux: self.linux,
            context: self.context,
        }
    }
}

impl Default for CommandBinding {
    fn default() -> (binding: Self)
        ensures
            binding@ == BindingModel::unbound(),
    {
        CommandBinding::unbound()
    }
}

/// The verdicts of the toolkit's chord and key-context parsers for one
/// binding: `chords[i]` is whether the chord declared for
/// `DesktopPlatform::ALL()[i]` parsed (ignored where none is declared), and
/// `context` whether the declared key context parsed (ignored where none is).
#[derive(Clone, Copy, PartialEq, Eq, Debug)]
pub struct ParseVerdicts {
    /// One verdict per platform, in `DesktopPlatform::ALL()` order.
    pub chords: [bool; 3],
    /// The verdict on the key context.
    pub context: bool,
}

impl BindingModel {
    /// The unbound state, in spec form.
    pub open spec fn unbound() -> Self {
        BindingModel { macos: None, windows: None, linux: None, context: None }
    }

    /// The chord declared for `platform`.
    pub open spec fn for_platform(&self, platform: DesktopPlatform) -> Option<&'static str> {
        match platform {
            DesktopPlatform::MacOs => self.macos,
            DesktopPlatform::Windows => self.windows,
            DesktopPlatform::Linux => self.linux,
        }
    }

    /// The fault for one platform's chord, given the parser's verdict on it.
    pub open spec fn chord_faults(
        &self,
        command: CommandId,
        platform: DesktopPlatform,
        parsed: bool,
    ) -> Seq<CommandFault> {
        match self.for_platform(platform) {
            Some(binding) if !parsed => seq![
                CommandFault::InvalidBinding { command, platform, binding },
            ],
            _ => Seq::empty(),
        }
    }

    /// Every fault of this binding, given the parsers' verdicts: the chords in
    /// platform order, then the key context.
    pub open spec fn faults(&self, command: CommandId, verdicts: ParseVerdicts) -> Seq<
        CommandFault,
    > {
        self.chord_faults(command, DesktopPlatform::MacOs, verdicts.chords@[0])
            + self.chord_faults(command, DesktopPlatform::Windows, verdicts.chords@[1])
            + self.chord_faults(command, DesktopPlatform::Linux, verdicts.chords@[2]) + (
        match self.context {
            Some(context) if !verdicts.context => seq![
                CommandFault::InvalidKeyContext { command, context },
            ],
            _ => Seq::empty(),
        })
    }

    /// The declared key context.
    pub open spec fn context_of(&self) -> Option<&'static str> {
        self.context
    }

}

impl CommandBinding {
    /// The explicit unbound state: no shortcut on any platform.
    pub fn unbound() -> (binding: Self)
        ensures
            binding@ == BindingModel::unbound(),
    {
        CommandBinding { macos: None, windows: None, linux: None, context: None }
    }

    /// The same chord on every platform.
    pub fn same(keystroke: &'static str) -> (binding: Self)
        ensures
            binding@ == (BindingModel {
                macos: Some(keystroke),
                windows: Some(keystroke),
                linux: Some(keystroke),
                context: None,
            }),
    {
        CommandBinding {
            macos: Some(keystroke),
            windows: Some(keystroke),
            linux: Some(keystroke),
            context: None,
        }
    }

    /// The conventional desktop split: one chord on macOS, another on Windows
    /// and Linux.
    pub fn platform(macos: &'static str, windows_linux: &'static str) -> (binding: Self)
        ensures
            binding@ == (BindingModel {
                macos: Some(macos),
                windows: Some(windows_linux),
                linux: Some(windows_linux),
                context: None,
            }),
    {
        CommandBinding {
            macos: Some(macos),
            windows: Some(windows_linux),
            linux: Some(windows_linux),
            context: None,
        }
    }

    /// An explicitly per-platform binding; `None` leaves that platform unbound.
    pub fn new(
        macos: Option<&'static str>,
        windows: Option<&'static str>,
        linux: Option<&'static str>,
    ) -> (binding: Self)
        ensures
            binding@ == (BindingModel { macos, windows, linux, context: None }),
    {
        CommandBinding { macos, windows, linux, context: None }
    }

    /// A chord that exists only on macOS.
    pub fn macos_only(keystroke: &'static str) -> (binding: Self)
        ensures
            binding@ == (BindingModel {
                macos: Some(keystroke),
                windows: None,
                linux: None,
                context: None,
            }),
    {
        CommandBinding::new(Some(keystroke), None, None)
    }

    /// Scope the binding to a key context, keeping every chord.
    pub fn key_context(self, context: &'static str) -> (binding: Self)
        ensures
            binding@ == (BindingModel { context: Some(context), ..self@ }),
    {
        let mut binding = self;
        binding.context = Some(context);
        binding
    }

    /// Whether no platform declares a chord.
    pub fn is_unbound(&self) -> (unbound: bool)
        ensures
            unbound == (self@.macos is None && self@.windows is None && self@.linux is None),
    {
        self.macos.is_none() && self.windows.is_none() && self.linux.is_none()
    }

    /// The chord to install on `platform`, if any.
    pub fn for_platform(&self, platform: DesktopPlatform) -> (chord: Option<&'static str>)
        ensures
            chord == self@.for_platform(platform),
    {
        match platform {
            DesktopPlatform::MacOs => self.macos,
            DesktopPlatform::Windows => self.windows,
            DesktopPlatform::Linux => self.linux,
        }
    }

    /// The declared key context, if any.
    pub fn context(&self) -> (context: Option<&'static str>)
        ensures
            context == self@.context,
    {
        self.context
    }

    /// Append one fault per declared chord that failed to parse (every
    /// platform, in `DesktopPlatform::ALL()` order) and one for an unparsable
    /// key context.
    pub fn validate(
        &self,
        command: CommandId,
        verdicts: ParseVerdicts,
        faults: &mut Vec<CommandFault>,
    )
        ensures
            final(faults)@ == old(faults)@ + self@.faults(command, verdicts),
    {
        let ghost start = faults@;
        let all = DesktopPlatform::ALL();
        let mut i: usize = 0;
        while i < 3
            invariant
                all@ == seq![
                    DesktopPlatform::MacOs,
                    DesktopPlatform::Windows,
                    DesktopPlatform::Linux,
                ],
                i <= 3,
                faults@ == start + (if i == 0 {
                    Seq::empty()
                } else if i == 1 {
                    self@.chord_faults(command, DesktopPlatform::MacOs, verdicts.chords@[0])
                } else if i == 2 {
                    self@.chord_faults(command, DesktopPlatform::MacOs, verdicts.chords@[0])
                        + self@.chord_faults(
                        command,
                        DesktopPlatform::Windows,
                        verdicts.chords@[1],
                    )
                } else {
                    self@.chord_faults(command, DesktopPlatform::MacOs, verdicts.chords@[0])
                        + self@.chord_faults(
                        command,
                        DesktopPlatform::Windows,
                        verdicts.chords@[1],
                    ) + self@.chord_faults(
                        command,
                        DesktopPlatform::Linux,
                        verdicts.chords@[2],
                    )
                }),
            decreases 3 - i,
        {
            let platform = all[i];
            match self.for_platform(platform) {
                Some(binding) => {
                    if !verdicts.chords[i] {
                        faults.push(CommandFault::InvalidBinding { command, platform, binding });
                    }
                },
                None => {},
            }
            proof {
                let step = self@.chord_faults(command, platform, verdicts.chords@[i as int]);
                if i == 0 {
                    assert(faults@ =~= start + step);
                } else if i == 1 {
                    assert(faults@ =~= start + (self@.chord_faults(
                        command,
                        DesktopPlatform::MacOs,
                        verdicts.chords@[0],
                    ) + step));
                } else {
                    assert(faults@ =~= start + (self@.chord_faults(
                        command,
                        DesktopPlatform::MacOs,
                        verdicts.chords@[0],
                    ) + self@.chord_faults(
                        command,
                        DesktopPlatform::Windows,
                        verdicts.chords@[1],
                    ) + step));
                }
            }
            i = i + 1;
        }
        match self.context {
            Some(context) => {
                if !verdicts.context {
                    faults.push(CommandFault::InvalidKeyContext { command, context });
                }
            },
            None => {},
        }
        assert(faults@ =~= start + self@.faults(command, verdicts));
    }
}

} // verus!
