//! The entity store: a registry of entity records with stable, unique
//! identities, world-position resolution, and the initial scene population.

use vstd::prelude::*;

verus! {

use crate::components::{
    EntityId, EntityRecord, Figure, Minion, Movable, Moving, Prototype, Targetable, Targeting,
};
use crate::math::Vec3;
use crate::{MILLI, MOVING_SPEED};

/// The entity store. Identities are handed out from `next_id` and never
/// reused, so a destroyed entity's identity stays dangling forever.
pub struct World {
    pub entities: Vec<EntityRecord>,
    pub next_id: u64,
}

/// The position an identity resolves to: the figure position of the first
/// record carrying that identity, or nothing when the identity is dangling
/// or the record has no figure.
pub open spec fn pos_of(s: Seq<EntityRecord>, id: EntityId) -> Option<Vec3>
    decreases s.len(),
{
    if s.len() == 0 {
        None
    } else if s[0].id == id {
        match s[0].figure {
            Some(f) => Some(f.position),
            None => None,
        }
    } else {
        pos_of(s.drop_first(), id)
    }
}

/// At most one record is a placement preview.
pub open spec fn at_most_one_preview(s: Seq<EntityRecord>) -> bool {
    forall|i: int, j: int|
        0 <= i < s.len() && 0 <= j < s.len() && s[i].is_preview() && s[j].is_preview() ==> i == j
}

/// No record is a placement preview.
pub open spec fn no_preview(s: Seq<EntityRecord>) -> bool {
    forall|i: int| 0 <= i < s.len() ==> !s[i].is_preview()
}

/// Exactly one record is a placement preview.
pub open spec fn exactly_one_preview(s: Seq<EntityRecord>) -> bool {
    &&& exists|i: int| 0 <= i < s.len() && s[i].is_preview()
    &&& at_most_one_preview(s)
}

impl World {
    /// Store invariant: identities are unique and below `next_id`, every
    /// record keeps its local invariant, and at most one preview exists.
    pub open spec fn wf(self) -> bool {
        &&& forall|i: int, j: int|
            0 <= i < self.entities@.len() && 0 <= j < self.entities@.len() && i != j
                ==> self.entities@[i].id != self.entities@[j].id
        &&& forall|i: int|
            0 <= i < self.entities@.len() ==> (#[trigger] self.entities@[i]).id.0 < self.next_id
        &&& forall|i: int| 0 <= i < self.entities@.len() ==> (#[trigger] self.entities@[i]).wf()
        &&& at_most_one_preview(self.entities@)
    }

    /// An empty store.
    pub fn new() -> (w: World)
        ensures
            w.wf(),
            w.entities@.len() == 0,
            w.next_id == 0,
    {
        World { entities: Vec::new(), next_id: 0 }
    }

    /// Spatial transform resolution: the world position of the entity named
    /// by `id`, or nothing when the reference is stale.
    pub fn resolve_world_position(&self, id: EntityId) -> (p: Option<Vec3>)
        ensures
            p == pos_of(self.entities@, id),
    {
        let n: usize = self.entities.len();
        let mut i: usize = 0;
        proof {
            assert(self.entities@.skip(0) =~= self.entities@);
        }
        while i < n
            invariant
                0 <= i <= n,
                n == self.entities@.len(),
                pos_of(self.entities@, id) == pos_of(self.entities@.skip(i as int), id),
            decreases n - i,
        {
            let e = self.entities[i];
            if e.id.0 == id.0 {
                proof {
                    assert(self.entities@.skip(i as int)[0] == self.entities@[i as int]);
                }
                return match e.figure {
                    Some(f) => Some(f.position),
                    None => None,
                };
            }
            proof {
                lemma_pos_of_skip_one(self.entities@, id, i as int);
            }
            i = i + 1;
        }
        None
    }

    /// Append a fresh record built by the caller from the next identity.
    /// Used by the scene-population and placement code.
    pub(crate) fn push_record(&mut self, record: EntityRecord)
        requires
            old(self).wf(),
            record.wf(),
            record.id.0 == old(self).next_id,
            old(self).next_id < u64::MAX,
            record.is_preview() ==> no_preview(old(self).entities@),
        ensures
            final(self).wf(),
            final(self).entities@ == old(self).entities@.push(record),
            final(self).next_id == old(self).next_id + 1,
    {
        self.entities.push(record);
        self.next_id = self.next_id + 1;
    }
}

/// In a well-formed store a targeting relation's referenced identity is
/// never the identity of the entity owning the relation: no entity targets
/// itself, in any state the store reaches.
pub proof fn lemma_no_self_targeting(w: World)
    requires
        w.wf(),
    ensures
        forall|i: int|
            0 <= i < w.entities@.len() ==> match (#[trigger] w.entities@[i]).targeting {
                Some(t) => match t.0 {
                    Some(other) => other != w.entities@[i].id,
                    None => true,
                },
                None => true,
            },
{
}

/// A position an identity resolves to lies inside the world extent.
pub proof fn lemma_pos_of_bounded(s: Seq<EntityRecord>, id: EntityId)
    requires
        forall|i: int| 0 <= i < s.len() ==> (#[trigger] s[i]).wf(),
    ensures
        match pos_of(s, id) {
            Some(p) => p.bounded(),
            None => true,
        },
    decreases s.len(),
{
    if s.len() > 0 && s[0].id != id {
        assert(forall|i: int|
            0 <= i < s.drop_first().len() ==> (#[trigger] s.drop_first()[i]).wf());
        lemma_pos_of_bounded(s.drop_first(), id);
    }
}

/// Skipping one non-matching record does not change what an identity
/// resolves to.
proof fn lemma_pos_of_skip_one(s: Seq<EntityRecord>, id: EntityId, i: int)
    requires
        0 <= i < s.len(),
        s[i].id != id,
    ensures
        pos_of(s.skip(i), id) == pos_of(s.skip(i + 1), id),
{
    assert(s.skip(i)[0] == s[i]);
    assert(s.skip(i).drop_first() =~= s.skip(i + 1));
}

/// Populate the scene with its two initial minions: one at `(2, 0, 1)`
/// units and one at `(-2, 0, 1)` units, both facing the reference forward,
/// with full life, default attack damage and the default movement speed;
/// the second starts with the `Moving` tag already present.
pub fn spawn_wizard(w: &mut World)
    requires
        old(w).wf(),
        old(w).next_id + 2 <= u64::MAX,
    ensures
        final(w).wf(),
        final(w).entities@ == old(w).entities@
            .push(wizard_record(EntityId(old(w).next_id), 2 * MILLI as int, false))
            .push(wizard_record(EntityId((old(w).next_id + 1) as u64), -2 * MILLI as int, true)),
        final(w).next_id == old(w).next_id + 2,
{
    let first = EntityId(w.next_id);
    w.push_record(make_wizard(first, 2 * MILLI, false));
    let second = EntityId(w.next_id);
    w.push_record(make_wizard(second, -2 * MILLI, true));
    proof {
        assert(w.entities@ =~= old(w).entities@
            .push(wizard_record(EntityId(old(w).next_id), 2 * MILLI as int, false))
            .push(wizard_record(EntityId((old(w).next_id + 1) as u64), -2 * MILLI as int, true)));
    }
}

/// The record of an initial minion standing at `(x, 0, 1)` units.
pub open spec fn wizard_record(id: EntityId, x: int, moving: bool) -> EntityRecord {
    EntityRecord {
        id,
        figure: Some(Figure {
            position: Vec3 { x: x as i64, y: 0, z: MILLI },
            rotation: Vec3 { x: 0, y: 0, z: MILLI },
            scale: Vec3 { x: MILLI, y: MILLI, z: MILLI },
        }),
        minion: Some(Minion { life: 100, attack_damage: 15 }),
        targeting: Some(Targeting(None)),
        targetable: Some(Targetable),
        movable: Some(Movable(MOVING_SPEED)),
        moving: if moving {
            Some(Moving)
        } else {
            None
        },
        preview: None,
        scene: Some(Prototype::Wizard),
    }
}

/// Build the initial-minion record in executable code.
fn make_wizard(id: EntityId, x: i64, moving: bool) -> (e: EntityRecord)
    requires
        -2 * MILLI <= x <= 2 * MILLI,
    ensures
        e == wizard_record(id, x as int, moving),
        e.wf(),
{
    EntityRecord {
        id,
        figure: Some(Figure {
            position: Vec3 { x, y: 0, z: MILLI },
            rotation: Vec3 { x: 0, y: 0, z: MILLI },
            scale: Vec3 { x: MILLI, y: MILLI, z: MILLI },
        }),
        minion: Some(Minion { life: 100, attack_damage: 15 }),
        targeting: Some(Targeting(None)),
        targetable: Some(Targetable),
        movable: Some(Movable(MOVING_SPEED)),
        moving: if moving {
            Some(Moving)
        } else {
            None
        },
        preview: None,
        scene: Some(Prototype::Wizard),
    }
}

} // verus!
