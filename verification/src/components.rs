//! The behavioral components an entity may carry: spatial state, combat
//! attributes, the targeting relation, and the tags that gate the per-frame
//! systems.

use vstd::prelude::*;

verus! {

use crate::math::Vec3;
use crate::{POS_LIMIT, SPEED_LIMIT};

/// A stable handle naming one entity; the sole cross-reference mechanism
/// between entities.
#[derive(Clone, Copy, Debug, PartialEq, Eq, Structural)]
pub struct EntityId(pub u64);

/// Combat attributes. Data only: no damage application is in scope.
#[derive(Clone, Copy, Debug, PartialEq, Eq, Structural)]
pub struct Minion {
    pub life: u16,
    pub attack_damage: u16,
}

/// An entity's optional reference, by identity, to the entity it pursues.
/// Never references its own owner.
#[derive(Clone, Copy, Debug, PartialEq, Eq, Structural)]
pub struct Targeting(pub Option<EntityId>);

/// Tag: this entity may be selected as someone's target.
#[derive(Clone, Copy, Debug, PartialEq, Eq, Structural)]
pub struct Targetable;

/// Capacity to be advanced by the kinematic integrator, with a speed in
/// coordinate steps per second.
#[derive(Clone, Copy, Debug, PartialEq, Eq, Structural)]
pub struct Movable(pub u64);

/// Transient tag: present while the entity advances toward its target.
/// Recomputed every frame by the engagement state machine.
#[derive(Clone, Copy, Debug, PartialEq, Eq, Structural)]
pub struct Moving;

/// Tag: a not-yet-committed placement entity, tracked under the cursor.
#[derive(Clone, Copy, Debug, PartialEq, Eq, Structural)]
pub struct PreviewFigur;

/// The four prototype scenes a placement preview can be built from.
#[derive(Clone, Copy, Debug, PartialEq, Eq, Structural)]
pub enum Prototype {
    Wizard,
    Old,
    Young,
    Hat,
}

/// Per-entity spatial state. `rotation` holds the facing of the figure as a
/// direction vector: the figure looks along `rotation`, and the direction
/// `(0, 0, MILLI)` is the reference forward. `scale` is carried for the
/// presentation layer and never read by the simulation.
#[derive(Clone, Copy, Debug, PartialEq, Eq, Structural)]
pub struct Figure {
    pub position: Vec3,
    pub rotation: Vec3,
    pub scale: Vec3,
}

impl Figure {
    /// Positions stay inside the world extent; facing directions, being
    /// differences of positions, stay inside twice of it.
    pub open spec fn wf(self) -> bool {
        &&& self.position.bounded()
        &&& self.rotation.dir_bounded()
    }
}

/// One entity with everything it carries. Components an entity lacks are
/// `None`; tags are `Option`s of their marker type.
#[derive(Clone, Copy, Debug, PartialEq, Eq)]
pub struct EntityRecord {
    pub id: EntityId,
    pub figure: Option<Figure>,
    pub minion: Option<Minion>,
    pub targeting: Option<Targeting>,
    pub targetable: Option<Targetable>,
    pub movable: Option<Movable>,
    pub moving: Option<Moving>,
    pub preview: Option<PreviewFigur>,
    pub scene: Option<Prototype>,
}

impl EntityRecord {
    /// Record-local invariant: spatial state is bounded, speeds are bounded,
    /// an entity never targets itself, and a preview entity carries only a
    /// figure and its scene.
    pub open spec fn wf(self) -> bool {
        &&& match self.figure {
            Some(f) => f.wf(),
            None => true,
        }
        &&& match self.movable {
            Some(m) => m.0 <= SPEED_LIMIT,
            None => true,
        }
        &&& match self.targeting {
            Some(t) => match t.0 {
                Some(other) => other != self.id,
                None => true,
            },
            None => true,
        }
        &&& self.preview is Some ==> {
            &&& self.figure is Some
            &&& self.minion is None
            &&& self.targeting is None
            &&& self.targetable is None
            &&& self.movable is None
            &&& self.moving is None
        }
    }

    /// Whether this record is a placement preview.
    pub open spec fn is_preview(self) -> bool {
        self.preview is Some
    }
}

} // verus!
