//! The engagement state machine: the `Moving` tag is recomputed every
//! frame from the current distance to the resolved target.

use vstd::prelude::*;

verus! {

use crate::components::{EntityRecord, Moving};
use crate::math::{dist, distance};
use crate::world::{lemma_pos_of_bounded, pos_of, World};
use crate::{SEEING_DISTANCE, STOPPING_DISTANCE};

/// The engagement range is half-open: a figure advances at exactly the
/// stopping distance, and no longer advances at exactly the seeing
/// distance.
pub open spec fn in_engagement_range(d: int) -> bool {
    STOPPING_DISTANCE <= d < SEEING_DISTANCE
}

/// Decide whether a figure at distance `d` from its target advances.
pub fn engagement_moving(d: i64) -> (moving: bool)
    ensures
        moving == in_engagement_range(d as int),
{
    STOPPING_DISTANCE <= d && d < SEEING_DISTANCE
}

/// What one record becomes under the engagement state machine. For an
/// entity with a targeting relation and a figure, the `Moving` tag is
/// present afterwards exactly when a resolved target exists and the
/// distance to it lies inside the engagement range; a missing or stale
/// target forces the tag off. Entities without a targeting relation or
/// without a figure are untouched.
pub open spec fn engaged(s: Seq<EntityRecord>, i: int) -> EntityRecord {
    let e = s[i];
    match (e.targeting, e.figure) {
        (Some(t), Some(f)) => match t.0 {
            Some(tid) => match pos_of(s, tid) {
                Some(tp) => EntityRecord {
                    moving: if in_engagement_range(dist(f.position, tp)) {
                        Some(Moving)
                    } else {
                        None
                    },
                    ..e
                },
                None => EntityRecord { moving: None, ..e },
            },
            None => EntityRecord { moving: None, ..e },
        },
        _ => e,
    }
}

/// The engagement state machine. The `Moving` tag of every entity with a
/// targeting relation and a figure is recomputed from its current distance
/// to its resolved target; everything else about every entity is left as
/// it was.
pub fn handle_moving_component(w: &mut World)
    requires
        old(w).wf(),
    ensures
        final(w).wf(),
        final(w).next_id == old(w).next_id,
        final(w).entities@.len() == old(w).entities@.len(),
        forall|i: int|
            0 <= i < old(w).entities@.len()
                ==> final(w).entities@[i] == engaged(old(w).entities@, i),
{
    let ghost s = w.entities@;
    let n: usize = w.entities.len();
    let mut out: Vec<EntityRecord> = Vec::new();
    let mut h: usize = 0;
    while h < n
        invariant
            0 <= h <= n,
            n == s.len(),
            *w == *old(w),
            w.wf(),
            w.entities@ == s,
            out@.len() == h,
            forall|k: int| 0 <= k < h ==> out@[k] == engaged(s, k),
        decreases n - h,
    {
        let e = w.entities[h];
        let mut new_e: EntityRecord = e;
        if e.targeting.is_some() && e.figure.is_some() {
            match e.targeting.unwrap().0 {
                Some(tid) => {
                    match w.resolve_world_position(tid) {
                        Some(tp) => {
                            proof {
                                lemma_pos_of_bounded(s, tid);
                            }
                            let f = e.figure.unwrap();
                            let d = distance(&f.position, &tp);
                            if engagement_moving(d) {
                                new_e = EntityRecord { moving: Some(Moving), ..e };
                            } else {
                                new_e = EntityRecord { moving: None, ..e };
                            }
                        },
                        None => {
                            new_e = EntityRecord { moving: None, ..e };
                        },
                    }
                },
                None => {
                    new_e = EntityRecord { moving: None, ..e };
                },
            }
        }
        proof {
            assert(new_e == engaged(s, h as int));
        }
        out.push(new_e);
        h = h + 1;
    }
    w.entities = out;
    proof {
        assert forall|i: int|
            0 <= i < w.entities@.len() implies {
                &&& (#[trigger] w.entities@[i]).id == s[i].id
                &&& w.entities@[i].is_preview() == s[i].is_preview()
                &&& w.entities@[i].wf()
            } by {
            assert(w.entities@[i] == engaged(s, i));
            assert(s[i].wf());
        }
        assert(crate::world::at_most_one_preview(w.entities@));
    }
}

} // verus!
