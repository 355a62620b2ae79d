//! The placement preview controller: a two-state machine that creates a
//! preview figure from a prototype selection, drags it under the cursor's
//! ground-plane point, and commits it as a full simulation participant.

use vstd::prelude::*;

verus! {

use crate::components::{
    EntityId, EntityRecord, Figure, Minion, Movable, PreviewFigur, Prototype, Targetable,
    Targeting,
};
use crate::math::Vec3;
use crate::world::{exactly_one_preview, no_preview, World};
use crate::{MILLI, MOVING_SPEED, POS_LIMIT};

/// Placement is either dormant or tracking one preview figure.
#[derive(Clone, Copy, Debug, PartialEq, Eq, Structural)]
pub enum SpawningState {
    Spawning,
    Idle,
}

/// The state machine and the store agree: while `Spawning` exactly one
/// preview figure exists, while `Idle` none does.
pub open spec fn spawning_inv(w: World, state: SpawningState) -> bool {
    match state {
        SpawningState::Spawning => exactly_one_preview(w.entities@),
        SpawningState::Idle => no_preview(w.entities@),
    }
}

/// A fresh preview entity: a figure at the origin facing the reference
/// forward, carrying the chosen prototype's scene and nothing else.
pub open spec fn preview_record(id: EntityId, proto: Prototype) -> EntityRecord {
    EntityRecord {
        id,
        figure: Some(Figure {
            position: Vec3 { x: 0, y: 0, z: 0 },
            rotation: Vec3 { x: 0, y: 0, z: MILLI },
            scale: Vec3 { x: MILLI, y: MILLI, z: MILLI },
        }),
        minion: None,
        targeting: None,
        targetable: None,
        movable: None,
        moving: None,
        preview: Some(PreviewFigur),
        scene: Some(proto),
    }
}

/// The store with every preview record removed, in order.
pub open spec fn without_previews(s: Seq<EntityRecord>) -> Seq<EntityRecord>
    decreases s.len(),
{
    if s.len() == 0 {
        Seq::empty()
    } else {
        let rest = without_previews(s.drop_last());
        if s.last().is_preview() {
            rest
        } else {
            rest.push(s.last())
        }
    }
}

/// Removing previews keeps every surviving record a record of the store,
/// keeps identities distinct and well-formed, and leaves no preview.
proof fn lemma_without_previews_wf(s: Seq<EntityRecord>)
    requires
        forall|i: int, j: int|
            0 <= i < s.len() && 0 <= j < s.len() && i != j ==> s[i].id != s[j].id,
        forall|i: int| 0 <= i < s.len() ==> (#[trigger] s[i]).wf(),
    ensures
        forall|a: int|
            0 <= a < without_previews(s).len()
                ==> exists|k: int|
                    0 <= k < s.len() && (#[trigger] without_previews(s)[a]) == #[trigger] s[k],
        forall|a: int, b: int|
            0 <= a < without_previews(s).len() && 0 <= b < without_previews(s).len() && a != b
                ==> without_previews(s)[a].id != without_previews(s)[b].id,
        forall|a: int| 0 <= a < without_previews(s).len()
            ==> (#[trigger] without_previews(s)[a]).wf(),
        no_preview(without_previews(s)),
    decreases s.len(),
{
    if s.len() > 0 {
        let sd = s.drop_last();
        assert(forall|i: int| 0 <= i < sd.len() ==> sd[i] == s[i]);
        lemma_without_previews_wf(sd);
        let rd = without_previews(sd);
        let r = without_previews(s);
        if !s.last().is_preview() {
            assert(r == rd.push(s.last()));
            assert forall|a: int|
                0 <= a < r.len() implies exists|k: int|
                0 <= k < s.len() && (#[trigger] r[a]) == #[trigger] s[k] by {
                if a < rd.len() {
                    let k = choose|k: int| 0 <= k < sd.len() && rd[a] == sd[k];
                    assert(r[a] == s[k]);
                } else {
                    assert(r[a] == s[s.len() - 1]);
                }
            }
            assert forall|a: int, b: int|
                0 <= a < r.len() && 0 <= b < r.len() && a != b implies r[a].id != r[b].id by {
                if a < rd.len() && b < rd.len() {
                } else if a < rd.len() && b == rd.len() {
                    let k = choose|k: int| 0 <= k < sd.len() && rd[a] == sd[k];
                    assert(s[k].id != s[s.len() - 1].id);
                } else if b < rd.len() && a == rd.len() {
                    let k = choose|k: int| 0 <= k < sd.len() && rd[b] == sd[k];
                    assert(s[k].id != s[s.len() - 1].id);
                }
            }
        }
    }
}

/// Destroy every preview entity.
fn despawn_previews(w: &mut World)
    requires
        old(w).wf(),
    ensures
        final(w).wf(),
        final(w).next_id == old(w).next_id,
        final(w).entities@ == without_previews(old(w).entities@),
        no_preview(final(w).entities@),
{
    let ghost s = w.entities@;
    let n: usize = w.entities.len();
    let mut out: Vec<EntityRecord> = Vec::new();
    let mut i: usize = 0;
    proof {
        assert(s.subrange(0, 0) =~= Seq::<EntityRecord>::empty());
    }
    while i < n
        invariant
            0 <= i <= n,
            n == s.len(),
            *w == *old(w),
            w.wf(),
            w.entities@ == s,
            out@ == without_previews(s.subrange(0, i as int)),
        decreases n - i,
    {
        let e = w.entities[i];
        proof {
            assert(s.subrange(0, i + 1).drop_last() =~= s.subrange(0, i as int));
            assert(s.subrange(0, i + 1).last() == s[i as int]);
        }
        if e.preview.is_none() {
            out.push(e);
        }
        i = i + 1;
    }
    proof {
        assert(s.subrange(0, n as int) =~= s);
        lemma_without_previews_wf(s);
    }
    w.entities = out;
    proof {
        assert forall|a: int|
            0 <= a < w.entities@.len() implies (#[trigger] w.entities@[a]).id.0 < w.next_id by {
            let k = choose|k: int| 0 <= k < s.len() && w.entities@[a] == s[k];
        }
    }
}

/// Create a fresh preview entity from the chosen prototype.
fn spawn(w: &mut World, proto: Prototype)
    requires
        old(w).wf(),
        old(w).next_id < u64::MAX,
        no_preview(old(w).entities@),
    ensures
        final(w).wf(),
        final(w).entities@ == old(w).entities@.push(
            preview_record(EntityId(old(w).next_id), proto),
        ),
        final(w).next_id == old(w).next_id + 1,
        exactly_one_preview(final(w).entities@),
{
    let id = EntityId(w.next_id);
    let record = EntityRecord {
        id,
        figure: Some(Figure {
            position: Vec3 { x: 0, y: 0, z: 0 },
            rotation: Vec3 { x: 0, y: 0, z: MILLI },
            scale: Vec3 { x: MILLI, y: MILLI, z: MILLI },
        }),
        minion: None,
        targeting: None,
        targetable: None,
        movable: None,
        moving: None,
        preview: Some(PreviewFigur),
        scene: Some(proto),
    };
    w.push_record(record);
    proof {
        assert(w.entities@[w.entities@.len() - 1].is_preview());
    }
}

/// React to a prototype selection. From `Idle`, a selection creates one
/// preview entity of the chosen prototype and moves to `Spawning`; from
/// `Spawning`, a selection destroys every preview entity and moves back to
/// `Idle`. Without a selection nothing changes.
pub fn switch_spawning_state(
    w: &mut World,
    state: SpawningState,
    selection: Option<Prototype>,
) -> (next: SpawningState)
    requires
        old(w).wf(),
        spawning_inv(*old(w), state),
        old(w).next_id < u64::MAX,
    ensures
        final(w).wf(),
        spawning_inv(*final(w), next),
        selection is None ==> *final(w) == *old(w) && next == state,
        (selection is Some && state == SpawningState::Idle) ==> {
            &&& next == SpawningState::Spawning
            &&& final(w).entities@ == old(w).entities@.push(
                preview_record(EntityId(old(w).next_id), selection.unwrap()),
            )
            &&& exactly_one_preview(final(w).entities@)
        },
        (selection is Some && state == SpawningState::Spawning) ==> {
            &&& next == SpawningState::Idle
            &&& final(w).entities@ == without_previews(old(w).entities@)
            &&& no_preview(final(w).entities@)
            &&& final(w).next_id == old(w).next_id
        },
{
    match selection {
        None => state,
        Some(proto) => {
            match state {
                SpawningState::Spawning => {
                    despawn_previews(w);
                    SpawningState::Idle
                },
                SpawningState::Idle => {
                    spawn(w, proto);
                    SpawningState::Spawning
                },
            }
        },
    }
}

/// A cursor-projected point on the ground plane, in coordinate steps.
#[derive(Clone, Copy, Debug, PartialEq, Eq, Structural)]
pub struct GroundPoint {
    pub x: i64,
    pub z: i64,
}

/// A preview record dragged to the ground point: the horizontal position
/// components follow the point, the vertical one stays at ground level.
pub open spec fn preview_moved(e: EntityRecord, point: GroundPoint) -> EntityRecord {
    match e.figure {
        Some(f) => EntityRecord {
            figure: Some(
                Figure {
                    position: Vec3 { x: point.x, y: f.position.y, z: point.z },
                    ..f
                },
            ),
            ..e
        },
        None => e,
    }
}

/// Track the cursor: move the preview figure, if one exists, to the
/// projected ground point. Without a projected point (cursor outside the
/// viewport, or no plane intersection) the frame is skipped and nothing
/// changes; this never fails.
pub fn show_spawn_preview(w: &mut World, point: Option<GroundPoint>)
    requires
        old(w).wf(),
        match point {
            Some(p) => -POS_LIMIT <= p.x <= POS_LIMIT && -POS_LIMIT <= p.z <= POS_LIMIT,
            None => true,
        },
    ensures
        final(w).wf(),
        final(w).next_id == old(w).next_id,
        point is None ==> *final(w) == *old(w),
        point is Some ==> {
            &&& final(w).entities@.len() == old(w).entities@.len()
            &&& forall|i: int|
                0 <= i < old(w).entities@.len()
                    ==> final(w).entities@[i] == (if old(w).entities@[i].is_preview() {
                        preview_moved(old(w).entities@[i], point.unwrap())
                    } else {
                        old(w).entities@[i]
                    })
        },
{
    let ghost s = w.entities@;
    let pt = match point {
        Some(pt) => pt,
        None => {
            return ;
        },
    };
    let n: usize = w.entities.len();
    let mut i: usize = 0;
    while i < n
        invariant
            0 <= i <= n,
            n == s.len(),
            w.wf(),
            w.next_id == old(w).next_id,
            w.entities@.len() == s.len(),
            point == Some(pt),
            -POS_LIMIT <= pt.x <= POS_LIMIT,
            -POS_LIMIT <= pt.z <= POS_LIMIT,
            forall|k: int|
                0 <= k < s.len()
                    ==> w.entities@[k] == (if s[k].is_preview() && k < i {
                        preview_moved(s[k], pt)
                    } else {
                        s[k]
                    }),
            s == old(w).entities@,
        decreases n - i,
    {
        let e = w.entities[i];
        if e.preview.is_some() {
            let f = e.figure.unwrap();
            let moved = EntityRecord {
                figure: Some(
                    Figure {
                        position: Vec3 { x: pt.x, y: f.position.y, z: pt.z },
                        ..f
                    },
                ),
                ..e
            };
            w.entities[i] = moved;
            proof {
                assert(w.entities@[i as int] == preview_moved(s[i as int], pt));
                assert forall|a: int, b: int|
                    0 <= a < w.entities@.len() && 0 <= b < w.entities@.len() && a != b implies w
                    .entities@[a].id != w.entities@[b].id by {
                    assert(w.entities@[a].id == s[a].id);
                    assert(w.entities@[b].id == s[b].id);
                }
                assert(crate::world::at_most_one_preview(w.entities@)) by {
                    assert forall|a: int|
                        0 <= a < w.entities@.len() implies (#[trigger] w.entities@[a]).is_preview()
                        == s[a].is_preview() by {}
                }
            }
        }
        i = i + 1;
    }
}

/// The committed form of a preview entity: the preview tag is removed and
/// the entity gains targetability, an empty targeting relation, the
/// default movement speed, and default combat attributes, keeping its
/// figure and scene. It thereby becomes a full simulation participant
/// without being destroyed and recreated.
pub open spec fn committed_record(e: EntityRecord) -> EntityRecord {
    EntityRecord {
        preview: None,
        targetable: Some(Targetable),
        targeting: Some(Targeting(None)),
        movable: Some(Movable(MOVING_SPEED)),
        minion: Some(Minion { life: 100, attack_damage: 15 }),
        ..e
    }
}

/// React to the confirmation input. While `Spawning`, a confirmation turns
/// the preview entity into a full simulation participant and moves to
/// `Idle`; otherwise nothing changes.
pub fn actuallyspawn_preview(w: &mut World, state: SpawningState, confirm: bool) -> (next:
    SpawningState)
    requires
        old(w).wf(),
        spawning_inv(*old(w), state),
    ensures
        final(w).wf(),
        spawning_inv(*final(w), next),
        final(w).next_id == old(w).next_id,
        !(confirm && state == SpawningState::Spawning) ==> *final(w) == *old(w) && next == state,
        (confirm && state == SpawningState::Spawning) ==> {
            &&& next == SpawningState::Idle
            &&& final(w).entities@.len() == old(w).entities@.len()
            &&& forall|i: int|
                0 <= i < old(w).entities@.len()
                    ==> final(w).entities@[i] == (if old(w).entities@[i].is_preview() {
                        committed_record(old(w).entities@[i])
                    } else {
                        old(w).entities@[i]
                    })
            &&& no_preview(final(w).entities@)
        },
{
    let ghost s = w.entities@;
    if !confirm {
        return state;
    }
    match state {
        SpawningState::Idle => state,
        SpawningState::Spawning => {
            let n: usize = w.entities.len();
            let mut i: usize = 0;
            while i < n
                invariant
                    0 <= i <= n,
                    n == s.len(),
                    *w == *old(w),
                    w.wf(),
                    w.entities@ == s,
                    confirm,
                    state == SpawningState::Spawning,
                    forall|k: int| 0 <= k < i ==> !s[k].is_preview(),
                decreases n - i,
            {
                let e = w.entities[i];
                if e.preview.is_some() {
                    let committed = EntityRecord {
                        preview: None,
                        targetable: Some(Targetable),
                        targeting: Some(Targeting(None)),
                        movable: Some(Movable(MOVING_SPEED)),
                        minion: Some(Minion { life: 100, attack_damage: 15 }),
                        ..e
                    };
                    w.entities[i] = committed;
                    proof {
                        assert(w.entities@[i as int] == committed_record(s[i as int]));
                        assert forall|a: int, b: int|
                            0 <= a < w.entities@.len() && 0 <= b < w.entities@.len() && a != b
                            implies w.entities@[a].id != w.entities@[b].id by {
                            assert(w.entities@[a].id == s[a].id);
                            assert(w.entities@[b].id == s[b].id);
                        }
                        assert forall|k: int|
                            0 <= k < w.entities@.len() implies !(#[trigger] w.entities@[k])
                            .is_preview() by {
                            if k != i {
                                assert(w.entities@[k] == s[k]);
                                if s[k].is_preview() {
                                    assert(s[i as int].is_preview());
                                }
                            }
                        }
                    }
                    return SpawningState::Idle;
                }
                i = i + 1;
            }
            proof {
                assert(exists|k: int| 0 <= k < s.len() && s[k].is_preview());
                let k = choose|k: int| 0 <= k < s.len() && s[k].is_preview();
                assert(!s[k].is_preview());
            }
            SpawningState::Idle
        },
    }
}

} // verus!
