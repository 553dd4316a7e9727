//! Docking: entities that attach to the astre they are over.
//!
//! Finding the astre under an entity is geometry, done by the caller; this
//! module decides what docking does once the astre (or its absence) is known.

use vstd::prelude::*;

use crate::buildings::building::PlacingLocation;
use crate::items::logistic::EntityId;

verus! {

/// An entity that docks on astres.  One that is `instant_or_despawn` docks
/// once for good, or is despawned when there is no astre to dock on.
pub struct DockableOnAstre {
    on_astre: Option<EntityId>,
    instant_or_despawn: bool,
    location: PlacingLocation,
}

/// The mathematical content of a `DockableOnAstre`.
pub struct DockableOnAstreView {
    pub on_astre: Option<EntityId>,
    pub instant_or_despawn: bool,
    pub location: PlacingLocation,
}

impl View for DockableOnAstre {
    type V = DockableOnAstreView;

    closed spec fn view(&self) -> DockableOnAstreView {
        DockableOnAstreView {
            on_astre: self.on_astre,
            instant_or_despawn: self.instant_or_despawn,
            location: self.location,
        }
    }
}

/// What docking asks the world to do.
#[derive(PartialEq, Eq, Structural, Clone, Copy, Debug)]
pub enum DockAction {
    /// Nothing changes.
    Stay,
    /// Move the entity into the astre's frame and make it the astre's child.
    Dock(EntityId),
    /// Dock on the astre, then remove the docking component: docked for good.
    DockForever(EntityId),
    /// Despawn the entity: there is no astre to dock on.
    Despawn,
    /// Move the entity back into the solar system's frame.
    Undock,
}

/// What docking does, given the astre found under the entity: the entity's
/// new state and the action asked of the world.
pub open spec fn dock_view(d: DockableOnAstreView, found: Option<EntityId>) -> (DockableOnAstreView, DockAction) {
    match found {
        Some(astre) => if d.on_astre == Some(astre) {
            (d, DockAction::Stay)
        } else {
            (
                DockableOnAstreView { on_astre: Some(astre), ..d },
                if d.instant_or_despawn {
                    DockAction::DockForever(astre)
                } else {
                    DockAction::Dock(astre)
                },
            )
        },
        None => if d.instant_or_despawn {
            (d, DockAction::Despawn)
        } else if d.on_astre is Some {
            (DockableOnAstreView { on_astre: None, ..d }, DockAction::Undock)
        } else {
            (d, DockAction::Stay)
        },
    }
}

/// Docking again where the entity already docked changes nothing: after a
/// docking on an astre, or after leaving every astre, the same finding again
/// is answered with `Stay` (or, for an entity that docks for good and found
/// nothing, with `Despawn` again), and the state stays.
pub proof fn law_docking_is_idempotent(d: DockableOnAstreView, found: Option<EntityId>)
    ensures
        ({
            let (once, _) = dock_view(d, found);
            let (twice, action) = dock_view(once, found);
            &&& twice == once
            &&& action == (if found is None && d.instant_or_despawn {
                DockAction::Despawn
            } else {
                DockAction::Stay
            })
        }),
{
}

/// Docking never changes whether the entity docks for good, nor where it may
/// dock; it docks on the astre found, and an entity that found no astre is
/// left undocked unless it is to be despawned.
pub proof fn law_docking_follows_the_astre(d: DockableOnAstreView, found: Option<EntityId>)
    ensures
        ({
            let (after, action) = dock_view(d, found);
            &&& after.instant_or_despawn == d.instant_or_despawn
            &&& after.location == d.location
            &&& found is Some ==> after.on_astre == found
            &&& (found is None && !d.instant_or_despawn) ==> after.on_astre is None
            &&& action is Despawn <==> (found is None && d.instant_or_despawn)
        }),
{
}

impl Default for DockableOnAstre {
    /// An undocked entity that may dock anywhere, any number of times.
    fn default() -> (r: Self)
        ensures
            r@ == (DockableOnAstreView {
                on_astre: None,
                instant_or_despawn: false,
                location: PlacingLocation::SurfaceOrAtmosphere,
            }),
    {
        DockableOnAstre { on_astre: None, instant_or_despawn: false, location: PlacingLocation::SurfaceOrAtmosphere }
    }
}

impl DockableOnAstre {
    /// An entity that docks at once at `location`, or is despawned.
    pub fn instant_location(location: PlacingLocation) -> (r: Self)
        ensures
            r@ == (DockableOnAstreView { on_astre: None, instant_or_despawn: true, location }),
    {
        DockableOnAstre { on_astre: None, instant_or_despawn: true, location }
    }

    /// Whether the entity is docked.
    pub fn is_docked(&self) -> (r: bool)
        ensures
            r == (self@.on_astre is Some),
    {
        self.on_astre.is_some()
    }

    /// Where the entity may dock.
    pub fn location(&self) -> (r: PlacingLocation)
        ensures
            r == self@.location,
    {
        self.location
    }

    /// Docking, given the astre found under the entity (if any): an entity
    /// already docked on that astre stays; otherwise it docks on it, for good
    /// when it is `instant_or_despawn`.  Without an astre, an
    /// `instant_or_despawn` entity is despawned, and a docked one undocks.
    pub fn dock(&mut self, found: Option<EntityId>) -> (r: DockAction)
        ensures
            (final(self)@, r) == dock_view(old(self)@, found),
    {
        match found {
            Some(astre) => {
                if let Some(current) = self.on_astre {
                    if current == astre {
                        return DockAction::Stay;
                    }
                }
                self.on_astre = Some(astre);
                if self.instant_or_despawn {
                    DockAction::DockForever(astre)
                } else {
                    DockAction::Dock(astre)
                }
            },
            None => {
                if self.instant_or_despawn {
                    return DockAction::Despawn;
                }
                if self.on_astre.is_some() {
                    self.on_astre = None;
                    DockAction::Undock
                } else {
                    DockAction::Stay
                }
            },
        }
    }
}

} // verus!
