//! The orientation updater: every figure with a resolved target turns to
//! face it.

use vstd::prelude::*;

verus! {

use crate::components::{EntityRecord, Figure};
use crate::math::Vec3;
use crate::world::{lemma_pos_of_bounded, pos_of, World};

/// What one record becomes under the orientation updater. A figure with a
/// resolved target faces it: its rotation becomes the direction from its
/// own position to the target's resolved world position. A coinciding
/// target (zero direction) leaves the rotation unchanged, as does a missing
/// target, a stale target, or a missing figure.
pub open spec fn faced(s: Seq<EntityRecord>, i: int) -> EntityRecord {
    let e = s[i];
    match (e.targeting, e.figure) {
        (Some(t), Some(f)) => match t.0 {
            Some(tid) => match pos_of(s, tid) {
                Some(tp) => {
                    let d = Vec3 {
                        x: (tp.x - f.position.x) as i64,
                        y: (tp.y - f.position.y) as i64,
                        z: (tp.z - f.position.z) as i64,
                    };
                    if d == (Vec3 { x: 0, y: 0, z: 0 }) {
                        e
                    } else {
                        EntityRecord { figure: Some(Figure { rotation: d, ..f }), ..e }
                    }
                },
                None => e,
            },
            None => e,
        },
        _ => e,
    }
}

/// The orientation updater. Every entity with a figure and a resolved
/// target turns toward the target's resolved world position; everything
/// else about every entity is left as it was.
pub fn face_target(w: &mut World)
    requires
        old(w).wf(),
    ensures
        final(w).wf(),
        final(w).next_id == old(w).next_id,
        final(w).entities@.len() == old(w).entities@.len(),
        forall|i: int|
            0 <= i < old(w).entities@.len()
                ==> final(w).entities@[i] == faced(old(w).entities@, i),
{
    let ghost s = w.entities@;
    let n: usize = w.entities.len();
    let mut out: Vec<EntityRecord> = Vec::new();
    let mut h: usize = 0;
    while h < n
        invariant
            0 <= h <= n,
            n == s.len(),
            *w == *old(w),
            w.wf(),
            w.entities@ == s,
            out@.len() == h,
            forall|k: int| 0 <= k < h ==> out@[k] == faced(s, k),
        decreases n - h,
    {
        let e = w.entities[h];
        let mut new_e: EntityRecord = e;
        if e.targeting.is_some() && e.figure.is_some() {
            if let Some(tid) = e.targeting.unwrap().0 {
                match w.resolve_world_position(tid) {
                    Some(tp) => {
                        proof {
                            lemma_pos_of_bounded(s, tid);
                        }
                        let f = e.figure.unwrap();
                        let dx: i64 = tp.x - f.position.x;
                        let dy: i64 = tp.y - f.position.y;
                        let dz: i64 = tp.z - f.position.z;
                        if !(dx == 0 && dy == 0 && dz == 0) {
                            new_e = EntityRecord {
                                figure: Some(
                                    Figure { rotation: Vec3 { x: dx, y: dy, z: dz }, ..f },
                                ),
                                ..e
                            };
                        }
                    },
                    None => {},
                }
            }
        }
        proof {
            assert(new_e == faced(s, h as int));
        }
        out.push(new_e);
        h = h + 1;
    }
    w.entities = out;
    proof {
        assert forall|i: int|
            0 <= i < w.entities@.len() implies {
                &&& (#[trigger] w.entities@[i]).id == s[i].id
                &&& w.entities@[i].is_preview() == s[i].is_preview()
                &&& w.entities@[i].wf()
            } by {
            assert(w.entities@[i] == faced(s, i));
            assert(s[i].wf());
            match (s[i].targeting, s[i].figure) {
                (Some(t), Some(_)) => {
                    match t.0 {
                        Some(tid) => {
                            lemma_pos_of_bounded(s, tid);
                        },
                        None => {},
                    }
                },
                _ => {},
            }
        }
        assert(crate::world::at_most_one_preview(w.entities@));
    }
}

} // verus!
