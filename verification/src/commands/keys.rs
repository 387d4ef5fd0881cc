//! Validated menu identities.
//!
//! [`MenuKey`] names one top-level menu; [`MenuSectionKey`] names one reserved
//! slot inside a menu that a runtime provider fills. Both wrap `&'static str`
//! so they stay cheap to copy and compare, and both are built from text that
//! passed [`validate_key`] (framework keys through their named constructors,
//! whose validity [`lemma_framework_keys_are_valid`] proves).

use vstd::prelude::*;

use crate::text::{is_control, is_whitespace, spec_is_control, spec_is_whitespace, str_eq};
use vstd::string::StrSliceExecFns;

verus! {

/// Why a menu or section key is unusable.
#[derive(Clone, Copy, PartialEq, Eq, Debug)]
pub enum KeyFault {
    /// The key is empty.
    Empty,
    /// The key has leading or trailing whitespace.
    Untrimmed,
    /// The key contains a control character.
    ControlCharacter,
}

/// The diagnostic phrase of a key fault.
pub open spec fn spec_key_fault_reason(fault: KeyFault) -> Seq<char> {
    match fault {
        KeyFault::Empty => "is empty"@,
        KeyFault::Untrimmed => "has leading or trailing whitespace"@,
        KeyFault::ControlCharacter => "contains a control character"@,
    }
}

/// The first rule `raw` violates: emptiness, then surrounding whitespace (what
/// `str::trim` would strip), then control characters.
pub open spec fn spec_key_fault(raw: Seq<char>) -> Option<KeyFault> {
    if raw.len() == 0 {
        Some(KeyFault::Empty)
    } else if spec_is_whitespace(raw[0]) || spec_is_whitespace(raw.last()) {
        Some(KeyFault::Untrimmed)
    } else if exists|i: int| 0 <= i < raw.len() && spec_is_control(#[trigger] raw[i]) {
        Some(KeyFault::ControlCharacter)
    } else {
        None
    }
}

impl KeyFault {
    /// A stable phrase for diagnostics, e.g. "is empty".
    pub fn reason(self) -> (text: &'static str)
        ensures
            text@ == spec_key_fault_reason(self),
    {
        match self {
            KeyFault::Empty => "is empty",
            KeyFault::Untrimmed => "has leading or trailing whitespace",
            KeyFault::ControlCharacter => "contains a control character",
        }
    }

    /// The rendered diagnostic, identical to [`KeyFault::reason`].
    pub fn to_text(self) -> (text: String)
        ensures
            text@ == spec_key_fault_reason(self),
    {
        String::from_str(self.reason())
    }
}

/// The single validation rule shared by both key kinds: non-empty, trimmed,
/// and free of control characters.
pub fn validate_key(raw: &str) -> (result: Result<(), KeyFault>)
    ensures
        result == (match spec_key_fault(raw@) {
            Some(fault) => Err(fault),
            None => Ok(()),
        }),
{
    let n = raw.unicode_len();
    if n == 0 {
        return Err(KeyFault::Empty);
    }
    if is_whitespace(raw.get_char(0)) || is_whitespace(raw.get_char(n - 1)) {
        return Err(KeyFault::Untrimmed);
    }
    let mut i: usize = 0;
    while i < n
        invariant
            n == raw@.len(),
            n > 0,
            !spec_is_whitespace(raw@[0]),
            !spec_is_whitespace(raw@.last()),
            i <= n,
            forall|j: int| 0 <= j < i ==> !spec_is_control(#[trigger] raw@[j]),
        decreases n - i,
    {
        if is_control(raw.get_char(i)) {
            assert(spec_is_control(raw@[i as int]));
            return Err(KeyFault::ControlCharacter);
        }
        i = i + 1;
    }
    Ok(())
}

/// A validated top-level menu identity.
#[derive(Clone, Copy, PartialEq, Eq, Hash, Debug)]
pub struct MenuKey(&'static str);

impl View for MenuKey {
    type V = Seq<char>;

    closed spec fn view(&self) -> Seq<char> {
        self.0@
    }
}

impl MenuKey {
    /// The key whose text is `text`, unvalidated.
    pub closed spec fn literal(text: &'static str) -> Self {
        MenuKey(text)
    }

    /// The underlying text, as a value.
    pub closed spec fn text(self) -> &'static str {
        self.0
    }

    /// A literal key's text is that literal.
    pub proof fn lemma_literal(text: &'static str)
        ensures
            MenuKey::literal(text)@ == text@,
            MenuKey::literal(text).text() == text,
    {
    }

    /// A key's view is its text's view.
    pub proof fn lemma_text(self)
        ensures
            self.text()@ == self@,
    {
    }

    /// The application menu. Rendered with the app display name on macOS.
    #[allow(non_snake_case)]
    pub fn APP() -> (key: Self)
        ensures
            key@ == "App"@,
            key == MenuKey::literal("App"),
    {
        MenuKey("App")
    }

    /// The File menu (the application block's home on Windows and Linux).
    #[allow(non_snake_case)]
    pub fn FILE() -> (key: Self)
        ensures
            key@ == "File"@,
            key == MenuKey::literal("File"),
    {
        MenuKey("File")
    }

    /// The Edit menu.
    #[allow(non_snake_case)]
    pub fn EDIT() -> (key: Self)
        ensures
            key@ == "Edit"@,
            key == MenuKey::literal("Edit"),
    {
        MenuKey("Edit")
    }

    /// The View menu (Windows and Linux Appearance host).
    #[allow(non_snake_case)]
    pub fn VIEW() -> (key: Self)
        ensures
            key@ == "View"@,
            key == MenuKey::literal("View"),
    {
        MenuKey("View")
    }

    /// The Window menu.
    #[allow(non_snake_case)]
    pub fn WINDOW() -> (key: Self)
        ensures
            key@ == "Window"@,
            key == MenuKey::literal("Window"),
    {
        MenuKey("Window")
    }

    /// The Help menu (Windows and Linux About host).
    #[allow(non_snake_case)]
    pub fn HELP() -> (key: Self)
        ensures
            key@ == "Help"@,
            key == MenuKey::literal("Help"),
    {
        MenuKey("Help")
    }

    /// The pseudo-menu projected into the macOS dock menu.
    #[allow(non_snake_case)]
    pub fn DOCK() -> (key: Self)
        ensures
            key@ == "Dock"@,
            key == MenuKey::literal("Dock"),
    {
        MenuKey("Dock")
    }

    /// Every framework-owned key, in the order used for diagnostics and tests.
    #[allow(non_snake_case)]
    pub fn FRAMEWORK() -> (keys: [Self; 7])
        ensures
            keys@[0]@ == "App"@,
            keys@[1]@ == "File"@,
            keys@[2]@ == "Edit"@,
            keys@[3]@ == "View"@,
            keys@[4]@ == "Window"@,
            keys@[5]@ == "Help"@,
            keys@[6]@ == "Dock"@,
    {
        [
            MenuKey::APP(),
            MenuKey::FILE(),
            MenuKey::EDIT(),
            MenuKey::VIEW(),
            MenuKey::WINDOW(),
            MenuKey::HELP(),
            MenuKey::DOCK(),
        ]
    }

    /// Build an application-owned menu key, or the first [`KeyFault`] the text
    /// violates.
    pub fn new(raw: &'static str) -> (result: Result<Self, KeyFault>)
        ensures
            match result {
                Ok(key) => key@ == raw@ && spec_key_fault(raw@) is None,
                Err(fault) => spec_key_fault(raw@) == Some(fault),
            },
    {
        match validate_key(raw) {
            Ok(()) => Ok(MenuKey(raw)),
            Err(fault) => Err(fault),
        }
    }

    /// The underlying text.
    pub fn as_str(self) -> (text: &'static str)
        ensures
            text@ == self@,
            text == self.text(),
    {
        self.0
    }

    /// Whether this is the dock projection key rather than a menu-bar menu.
    pub fn is_dock(self) -> (dock: bool)
        ensures
            dock == (self@ == "Dock"@),
    {
        const_str_eq(self.0, MenuKey::DOCK().0)
    }

    /// Whether two keys name the same menu.
    pub fn same(self, other: Self) -> (same: bool)
        ensures
            same == (self@ == other@),
    {
        str_eq(self.0, other.0)
    }
}

/// A validated identity for a reserved menu section filled by a provider.
#[derive(Clone, Copy, PartialEq, Eq, Hash, Debug)]
pub struct MenuSectionKey(&'static str);

impl View for MenuSectionKey {
    type V = Seq<char>;

    closed spec fn view(&self) -> Seq<char> {
        self.0@
    }
}

impl MenuSectionKey {
    /// The section key whose text is `text`, unvalidated.
    pub closed spec fn literal(text: &'static str) -> Self {
        MenuSectionKey(text)
    }

    /// A literal section key's text is that literal.
    pub proof fn lemma_literal(text: &'static str)
        ensures
            MenuSectionKey::literal(text)@ == text@,
    {
    }

    /// The underlying text, as a value.
    pub closed spec fn text(self) -> &'static str {
        self.0
    }

    /// A section key's view is its text's view.
    pub proof fn lemma_text(self)
        ensures
            self.text()@ == self@,
    {
    }

    /// The Appearance/Theme section fed by the theme service.
    #[allow(non_snake_case)]
    pub fn THEME() -> (key: Self)
        ensures
            key@ == "appearance"@,
            key == MenuSectionKey::literal("appearance"),
    {
        MenuSectionKey("appearance")
    }

    /// Every framework-owned section key.
    #[allow(non_snake_case)]
    pub fn FRAMEWORK() -> (keys: [Self; 1])
        ensures
            keys@[0]@ == "appearance"@,
    {
        [MenuSectionKey::THEME()]
    }

    /// Build an application-owned section key, or the first [`KeyFault`] the
    /// text violates.
    pub fn new(raw: &'static str) -> (result: Result<Self, KeyFault>)
        ensures
            match result {
                Ok(key) => key@ == raw@ && spec_key_fault(raw@) is None,
                Err(fault) => spec_key_fault(raw@) == Some(fault),
            },
    {
        match validate_key(raw) {
            Ok(()) => Ok(MenuSectionKey(raw)),
            Err(fault) => Err(fault),
        }
    }

    /// The underlying text, which is also the registry's section slot.
    pub fn as_str(self) -> (text: &'static str)
        ensures
            text@ == self@,
            text == self.text(),
    {
        self.0
    }

    /// Whether two keys name the same section.
    pub fn same(self, other: Self) -> (same: bool)
        ensures
            same == (self@ == other@),
    {
        str_eq(self.0, other.0)
    }
}

/// Character equality of two keys' texts.
pub fn const_str_eq(left: &str, right: &str) -> (same: bool)
    ensures
        same == (left@ == right@),
{
    str_eq(left, right)
}

/// Every framework-owned menu and section key passes the runtime validator.
pub proof fn lemma_framework_keys_are_valid()
    ensures
        spec_key_fault("App"@) is None,
        spec_key_fault("File"@) is None,
        spec_key_fault("Edit"@) is None,
        spec_key_fault("View"@) is None,
        spec_key_fault("Window"@) is None,
        spec_key_fault("Help"@) is None,
        spec_key_fault("Dock"@) is None,
        spec_key_fault("appearance"@) is None,
{
    reveal_strlit("App");
    reveal_strlit("File");
    reveal_strlit("Edit");
    reveal_strlit("View");
    reveal_strlit("Window");
    reveal_strlit("Help");
    reveal_strlit("Dock");
    reveal_strlit("appearance");
}

} // verus!
