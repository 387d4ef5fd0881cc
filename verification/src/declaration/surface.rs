//! Declared surfaces: stable typed keys, roles, and the pure per-surface and
//! cross-surface validation rules.
//!
//! A *surface* is a normal managed window. [`SurfaceKey<View, Args>`] binds a
//! stable ID to the content view type and the open-argument type, so a
//! declared surface can never be opened with the wrong content or arguments.
//! [`DeclaredSurface`] is what validation reads of a complete surface: its ID,
//! its role, its cardinality, its menu-chrome override, and whether it
//! declared a reuse hook.

use core::marker::PhantomData;

use vstd::prelude::*;

use super::errors::DeclarationError;
use super::setup::{invalid_key_reason, spec_invalid_key_reason};
use crate::text::str_eq;

verus! {

/// The role a surface was declared in.
///
/// Roles come from the declaration method that accepted the surface, never
/// from an application-supplied value.
#[derive(Debug, Clone, Copy, PartialEq, Eq)]
pub enum SurfaceRole {
    /// The launch surface, restored on reopen. At most one per declaration.
    Primary,
    /// The standard Settings surface.
    Settings,
    /// The standard About surface.
    About,
    /// An application-declared auxiliary surface.
    Auxiliary,
}

/// The diagnostic name of a role.
pub open spec fn spec_role_name(role: SurfaceRole) -> &'static str {
    match role {
        SurfaceRole::Primary => "primary",
        SurfaceRole::Settings => "settings",
        SurfaceRole::About => "about",
        SurfaceRole::Auxiliary => "auxiliary",
    }
}

/// The reserved ID a standard role requires.
pub open spec fn spec_reserved_id(role: SurfaceRole) -> Option<&'static str> {
    match role {
        SurfaceRole::Primary => Some("primary"),
        SurfaceRole::Settings => Some("settings"),
        SurfaceRole::About => Some("about"),
        SurfaceRole::Auxiliary => None,
    }
}

/// The standard role that owns a reserved ID, if `id` is one.
pub open spec fn spec_reserved_owner(id: Seq<char>) -> Option<SurfaceRole> {
    if id == "primary"@ {
        Some(SurfaceRole::Primary)
    } else if id == "settings"@ {
        Some(SurfaceRole::Settings)
    } else if id == "about"@ {
        Some(SurfaceRole::About)
    } else {
        None
    }
}

impl SurfaceRole {
    /// Stable name used in diagnostics.
    pub fn as_str(self) -> (name: &'static str)
        ensures
            name == spec_role_name(self),
    {
        match self {
            SurfaceRole::Primary => "primary",
            SurfaceRole::Settings => "settings",
            SurfaceRole::About => "about",
            SurfaceRole::Auxiliary => "auxiliary",
        }
    }

    /// The reserved ID this role requires, if it is a standard role.
    pub fn reserved_id(self) -> (id: Option<&'static str>)
        ensures
            id == spec_reserved_id(self),
    {
        match self {
            SurfaceRole::Primary => Some("primary"),
            SurfaceRole::Settings => Some("settings"),
            SurfaceRole::About => Some("about"),
            SurfaceRole::Auxiliary => None,
        }
    }

    /// Whether the role admits more than one live instance.
    pub fn allows_multiple(self) -> (multiple: bool)
        ensures
            multiple == (self is Primary || self is Auxiliary),
    {
        match self {
            SurfaceRole::Primary | SurfaceRole::Auxiliary => true,
            _ => false,
        }
    }

    /// Whether in-window menu chrome is attached when the surface does not
    /// state a policy. Settings and About stay chrome-free by default.
    pub fn default_menu_bar(self) -> (chrome: bool)
        ensures
            chrome == (self is Primary || self is Auxiliary),
    {
        match self {
            SurfaceRole::Primary | SurfaceRole::Auxiliary => true,
            _ => false,
        }
    }
}

/// The standard role owning the reserved ID `id`, if any.
fn reserved_owner(id: &str) -> (owner: Option<SurfaceRole>)
    ensures
        owner == spec_reserved_owner(id@),
{
    if str_eq(id, "primary") {
        Some(SurfaceRole::Primary)
    } else if str_eq(id, "settings") {
        Some(SurfaceRole::Settings)
    } else if str_eq(id, "about") {
        Some(SurfaceRole::About)
    } else {
        None
    }
}

/// A stable, typed surface identity.
///
/// Binds a compiled-in ID to the surface's content view type and open-argument
/// type. Copyable and comparable regardless of `View`/`Args`: the type
/// parameters are carried by a marker, never by value.
pub struct SurfaceKey<View, Args = ()> {
    id: &'static str,
    marker: PhantomData<(View, Args)>,
}

impl<View, Args> SurfaceKey<View, Args> {
    /// The stable ID, as a value.
    pub closed spec fn spec_id(&self) -> &'static str {
        self.id
    }

    /// A key for an application-chosen stable ID, e.g. `SurfaceKey::new("logs")`.
    ///
    /// The ID is checked when the declaration is validated, not here.
    pub fn new(id: &'static str) -> (key: Self)
        ensures
            key.spec_id() == id,
    {
        SurfaceKey { id, marker: PhantomData }
    }

    /// The framework-reserved key for the primary surface.
    pub fn primary() -> (key: Self)
        ensures
            key.spec_id() == "primary",
    {
        SurfaceKey::new("primary")
    }

    /// The stable ID.
    pub fn id(&self) -> (id: &'static str)
        ensures
            id == self.spec_id(),
    {
        self.id
    }
}

impl<View> SurfaceKey<View, ()> {
    /// The framework-reserved key for the standard Settings surface. Only
    /// available with unit arguments: Settings is opened by the standard
    /// command contract, which carries no application payload.
    pub fn settings() -> (key: Self)
        ensures
            key.spec_id() == "settings",
    {
        SurfaceKey::new("settings")
    }

    /// The framework-reserved key for the standard About surface, with the same
    /// unit-argument rule as [`SurfaceKey::settings`].
    pub fn about() -> (key: Self)
        ensures
            key.spec_id() == "about",
    {
        SurfaceKey::new("about")
    }
}

impl<View, Args> Clone for SurfaceKey<View, Args> {
    fn clone(&self) -> (copy: Self)
        ensures
            copy.spec_id() == self.spec_id(),
    {
        SurfaceKey { id: self.id, marker: PhantomData }
    }
}

impl<View, Args> Copy for SurfaceKey<View, Args> {

}

impl<View, Args> PartialEq for SurfaceKey<View, Args> {
    fn eq(&self, other: &Self) -> (same: bool) {
        str_eq(self.id, other.id)
    }
}

impl<View, Args> vstd::std_specs::cmp::PartialEqSpecImpl for SurfaceKey<View, Args> {
    open spec fn obeys_eq_spec() -> bool {
        true
    }

    open spec fn eq_spec(&self, other: &Self) -> bool {
        self.spec_id()@ == other.spec_id()@
    }
}

impl<View, Args> Eq for SurfaceKey<View, Args> {

}

/// How many live instances a surface admits.
#[derive(Debug, Clone, Copy, PartialEq, Eq)]
pub enum SurfaceCardinality {
    /// One live window; a second open focuses and reuses it. The default.
    Single,
    /// Numbered instances, each open creating a new window.
    Multiple,
}

/// What validation reads of one declared surface.
pub struct SurfaceModel {
    /// The stable ID.
    pub id: &'static str,
    /// The declared role.
    pub role: SurfaceRole,
    /// Singleton or numbered instances.
    pub cardinality: SurfaceCardinality,
    /// The explicit in-window menu-chrome policy, if any.
    pub menu_bar: Option<bool>,
    /// Whether a reuse hook was declared.
    pub has_on_reuse: bool,
}

/// One complete declared surface, as validation and lowering see it.
#[derive(Debug)]
pub struct DeclaredSurface {
    id: &'static str,
    role: SurfaceRole,
    cardinality: SurfaceCardinality,
    menu_bar: Option<bool>,
    has_on_reuse: bool,
}

impl View for DeclaredSurface {
    type V = SurfaceModel;

    closed spec fn view(&self) -> SurfaceModel {
        SurfaceModel {
            id: self.id,
            role: self.role,
            cardinality: self.cardinality,
            menu_bar: self.menu_bar,
            has_on_reuse: self.has_on_reuse,
        }
    }
}

/// The faults of one surface, in a fixed order: an invalid ID; a standard role
/// without its reserved ID, or an auxiliary surface taking a reserved ID; and,
/// for a multiple surface, a role that admits one instance and a reuse hook
/// that can never run.
pub open spec fn spec_surface_faults(surface: SurfaceModel) -> Seq<DeclarationError> {
    let id = surface.id;
    let role = spec_role_name(surface.role);
    (match spec_invalid_key_reason(id@) {
        Some(reason) => seq![DeclarationError::InvalidSurfaceId { id, reason }],
        None => Seq::empty(),
    }) + (match spec_reserved_id(surface.role) {
        Some(expected) => if expected@ != id@ {
            seq![DeclarationError::SurfaceRoleId { role, expected, actual: id }]
        } else {
            Seq::empty()
        },
        None => match spec_reserved_owner(id@) {
            Some(owner) => seq![
                DeclarationError::ReservedSurfaceId { id, role: spec_role_name(owner) },
            ],
            None => Seq::empty(),
        },
    }) + (if surface.cardinality is Multiple {
        (if !(surface.role is Primary || surface.role is Auxiliary) {
            seq![DeclarationError::InvalidSurfaceCardinality { id, role }]
        } else {
            Seq::empty()
        }) + (if surface.has_on_reuse {
            seq![DeclarationError::UnreachableSurfaceReuse { id }]
        } else {
            Seq::empty()
        })
    } else {
        Seq::empty()
    })
}

impl DeclaredSurface {
    /// A declared surface with its ID, role, cardinality, menu-chrome
    /// override, and whether it declared a reuse hook.
    pub fn new(
        id: &'static str,
        role: SurfaceRole,
        cardinality: SurfaceCardinality,
        menu_bar: Option<bool>,
        has_on_reuse: bool,
    ) -> (surface: Self)
        ensures
            surface@ == (SurfaceModel { id, role, cardinality, menu_bar, has_on_reuse }),
    {
        DeclaredSurface { id, role, cardinality, menu_bar, has_on_reuse }
    }

    /// The stable surface ID.
    pub fn id(&self) -> (id: &'static str)
        ensures
            id == self@.id,
    {
        self.id
    }

    /// The declared role.
    pub fn role(&self) -> (role: SurfaceRole)
        ensures
            role == self@.role,
    {
        self.role
    }

    /// The declared cardinality.
    pub fn cardinality(&self) -> (cardinality: SurfaceCardinality)
        ensures
            cardinality == self@.cardinality,
    {
        self.cardinality
    }

    /// Whether in-window menu chrome applies: the explicit override, else the
    /// role's default.
    pub fn menu_bar_for(&self) -> (chrome: bool)
        ensures
            chrome == match self@.menu_bar {
                Some(enabled) => enabled,
                None => self@.role is Primary || self@.role is Auxiliary,
            },
    {
        match self.menu_bar {
            Some(enabled) => enabled,
            None => self.role.default_menu_bar(),
        }
    }

    /// This surface declared in `role`.
    pub fn in_role(self, role: SurfaceRole) -> (surface: Self)
        ensures
            surface@ == (SurfaceModel { role, ..self@ }),
    {
        DeclaredSurface { role, ..self }
    }

    /// A copy of this surface's declared data.
    pub fn duplicate(&self) -> (copy: Self)
        ensures
            copy@ == self@,
    {
        DeclaredSurface {
            id: self.id,
            role: self.role,
            cardinality: self.cardinality,
            menu_bar: self.menu_bar,
            has_on_reuse: self.has_on_reuse,
        }
    }

    /// Append this surface's own pure faults, in a fixed order.
    ///
    /// Cross-surface faults (duplicate IDs, more than one primary) belong to
    /// [`validate_surface_set`], which sees every declared surface.
    pub fn validate(&self, errors: &mut Vec<DeclarationError>)
        ensures
            final(errors)@ == old(errors)@ + spec_surface_faults(self@),
    {
        let ghost start = errors@;
        match invalid_id_reason(self.id) {
            Some(reason) => {
                errors.push(DeclarationError::InvalidSurfaceId { id: self.id, reason });
            },
            None => {},
        }
        match self.role.reserved_id() {
            Some(expected) => {
                if !str_eq(expected, self.id) {
                    errors.push(
                        DeclarationError::SurfaceRoleId {
                            role: self.role.as_str(),
                            expected,
                            actual: self.id,
                        },
                    );
                }
            },
            None => {
                match reserved_owner(self.id) {
                    Some(owner) => {
                        errors.push(
                            DeclarationError::ReservedSurfaceId { id: self.id, role: owner.as_str() },
                        );
                    },
                    None => {},
                }
            },
        }
        match self.cardinality {
            SurfaceCardinality::Multiple => {
                if !self.role.allows_multiple() {
                    errors.push(
                        DeclarationError::InvalidSurfaceCardinality {
                            id: self.id,
                            role: self.role.as_str(),
                        },
                    );
                }
                if self.has_on_reuse {
                    errors.push(DeclarationError::UnreachableSurfaceReuse { id: self.id });
                }
            },
            SurfaceCardinality::Single => {},
        }
        assert(errors@ =~= start + spec_surface_faults(self@));
    }
}

/// Why `id` is unusable as a stable surface ID, if it is: the same rule as
/// every stable declaration identifier.
pub fn invalid_id_reason(id: &str) -> (reason: Option<&'static str>)
    ensures
        reason == spec_invalid_key_reason(id@),
{
    invalid_key_reason(id)
}

/// Whether an earlier entry has the same ID as entry `i`.
pub open spec fn surface_id_repeated(surfaces: Seq<(&'static str, SurfaceRole)>, i: int) -> bool {
    exists|j: int| 0 <= j < i && (#[trigger] surfaces[j]).0@ == surfaces[i].0@
}

/// Whether an earlier entry is a primary surface.
pub open spec fn primary_before(surfaces: Seq<(&'static str, SurfaceRole)>, i: int) -> bool {
    exists|j: int| 0 <= j < i && (#[trigger] surfaces[j]).1 is Primary
}

/// The cross-surface faults of entry `i`: a repeated ID, and a second primary.
/// Only the surplus declaration is blamed.
pub open spec fn surface_set_fault(surfaces: Seq<(&'static str, SurfaceRole)>, i: int) -> Seq<
    DeclarationError,
> {
    (if surface_id_repeated(surfaces, i) {
        seq![DeclarationError::DuplicateSurfaceId { id: surfaces[i].0 }]
    } else {
        Seq::empty()
    }) + (if surfaces[i].1 is Primary && primary_before(surfaces, i) {
        seq![DeclarationError::MultiplePrimarySurfaces { id: surfaces[i].0 }]
    } else {
        Seq::empty()
    })
}

/// The cross-surface faults of the first `n` entries, in declaration order.
pub open spec fn surface_set_faults(surfaces: Seq<(&'static str, SurfaceRole)>, n: nat) -> Seq<
    DeclarationError,
>
    decreases n,
{
    if n == 0 {
        Seq::empty()
    } else {
        surface_set_faults(surfaces, (n - 1) as nat) + surface_set_fault(surfaces, n - 1)
    }
}

/// Append the cross-surface faults: a repeated ID and a second primary
/// surface, in declaration order and only for the surplus declaration.
pub fn validate_surface_set(
    surfaces: &[(&'static str, SurfaceRole)],
    errors: &mut Vec<DeclarationError>,
)
    ensures
        final(errors)@ == old(errors)@ + surface_set_faults(surfaces@, surfaces@.len()),
{
    let ghost start = errors@;
    let mut has_primary = false;
    let mut i: usize = 0;
    while i < surfaces.len()
        invariant
            i <= surfaces@.len(),
            has_primary == primary_before(surfaces@, i as int),
            errors@ == start + surface_set_faults(surfaces@, i as nat),
        decreases surfaces@.len() - i,
    {
        let (id, role) = surfaces[i];
        let ghost before = errors@;
        let mut j: usize = 0;
        let mut repeated = false;
        while j < i
            invariant
                i < surfaces@.len(),
                j <= i,
                id == surfaces@[i as int].0,
                repeated == exists|k: int| 0 <= k < j && (#[trigger] surfaces@[k]).0@ == id@,
            decreases i - j,
        {
            let (other, _) = surfaces[j];
            if str_eq(other, id) {
                assert(surfaces@[j as int].0@ == id@);
                repeated = true;
            }
            j = j + 1;
        }
        if repeated {
            errors.push(DeclarationError::DuplicateSurfaceId { id });
        }
        let is_primary = match role {
            SurfaceRole::Primary => true,
            _ => false,
        };
        if is_primary && has_primary {
            errors.push(DeclarationError::MultiplePrimarySurfaces { id });
        }
        assert(errors@ =~= before + surface_set_fault(surfaces@, i as int));
        if is_primary {
            has_primary = true;
        }
        assert(has_primary == primary_before(surfaces@, i + 1)) by {
            if primary_before(surfaces@, i as int) {
                let k = choose|k: int| 0 <= k < i && (#[trigger] surfaces@[k]).1 is Primary;
                assert(0 <= k < i + 1 && surfaces@[k].1 is Primary);
            }
            if is_primary {
                assert(surfaces@[i as int].1 is Primary);
            }
        }
        i = i + 1;
    }
}

} // verus!
