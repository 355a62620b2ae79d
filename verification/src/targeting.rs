//! The targeting resolver: every entity holding a `Targeting` relation
//! scans the targetable entities and acquires or switches its target under
//! a hysteresis policy.

use vstd::prelude::*;

verus! {

use crate::components::{EntityId, EntityRecord, Targeting};
use crate::math::{dist, distance, Vec3};
use crate::world::{lemma_pos_of_bounded, pos_of, World};
use crate::{POS_LIMIT, SWITCHING_DELTA};

/// The switching policy: a figure abandons its current target for a
/// candidate only when the candidate is closer by strictly more than the
/// hysteresis threshold.
pub open spec fn should_switch_spec(dist_current: int, dist_candidate: int) -> bool {
    dist_current - dist_candidate > SWITCHING_DELTA
}

/// Decide whether to switch targets, given the distance to the current
/// target and the distance to a candidate.
pub fn should_switch(dist_current: i64, dist_candidate: i64) -> (switch: bool)
    requires
        0 <= dist_current <= 4 * POS_LIMIT,
        0 <= dist_candidate <= 4 * POS_LIMIT,
    ensures
        switch == should_switch_spec(dist_current as int, dist_candidate as int),
{
    dist_current - dist_candidate > SWITCHING_DELTA
}

/// A candidate whose advantage is exactly the hysteresis threshold does not
/// trigger a switch: the inequality is strict.
pub proof fn lemma_no_switch_at_threshold(dist_current: int, dist_candidate: int)
    requires
        dist_current - dist_candidate == SWITCHING_DELTA,
    ensures
        !should_switch_spec(dist_current, dist_candidate),
{
}

/// The resolved target is never the hunter itself.
pub open spec fn not_self(cur: Option<EntityId>, me: EntityId) -> bool {
    match cur {
        Some(t) => t != me,
        None => true,
    }
}

/// One step of the scan: how the hunter's target changes when one record
/// `c` is considered. A record that is not a targetable figure, or is the
/// hunter itself, changes nothing. With no current target the candidate is
/// taken; with a stale current target the candidate is taken as well; with
/// a live current target the switching policy decides, comparing the
/// hunter's distance to the target's resolved world position against its
/// distance to the candidate's figure position.
pub open spec fn chase_step(
    s: Seq<EntityRecord>,
    hunter_pos: Vec3,
    me: EntityId,
    cur: Option<EntityId>,
    c: EntityRecord,
) -> Option<EntityId> {
    match c.figure {
        Some(cf) => {
            if c.targetable is Some && c.id != me {
                match cur {
                    Some(t) => match pos_of(s, t) {
                        Some(tp) => {
                            if should_switch_spec(
                                dist(hunter_pos, tp),
                                dist(hunter_pos, cf.position),
                            ) {
                                Some(c.id)
                            } else {
                                cur
                            }
                        },
                        None => Some(c.id),
                    },
                    None => Some(c.id),
                }
            } else {
                cur
            }
        },
        None => cur,
    }
}

/// The hunter's target after scanning the first `n` records in order.
pub open spec fn fold_targets(
    s: Seq<EntityRecord>,
    hunter_pos: Vec3,
    me: EntityId,
    cur: Option<EntityId>,
    n: int,
) -> Option<EntityId>
    decreases n,
{
    if n <= 0 {
        cur
    } else {
        chase_step(s, hunter_pos, me, fold_targets(s, hunter_pos, me, cur, n - 1), s[n - 1])
    }
}

/// The scan never selects the hunter itself: records carrying the hunter's
/// own identity are skipped, so a target that starts away from the hunter
/// stays away from it.
pub proof fn lemma_fold_targets_not_self(
    s: Seq<EntityRecord>,
    hunter_pos: Vec3,
    me: EntityId,
    cur: Option<EntityId>,
    n: int,
)
    requires
        not_self(cur, me),
    ensures
        not_self(fold_targets(s, hunter_pos, me, cur, n), me),
    decreases n,
{
    if n > 0 {
        lemma_fold_targets_not_self(s, hunter_pos, me, cur, n - 1);
    }
}

/// What one record becomes under the resolver: a hunter (a record with a
/// targeting relation and a figure) ends up with the target the full scan
/// yields; any other record is untouched.
pub open spec fn targets_resolved(s: Seq<EntityRecord>, i: int) -> EntityRecord {
    let e = s[i];
    match (e.targeting, e.figure) {
        (Some(t), Some(f)) => EntityRecord {
            targeting: Some(Targeting(fold_targets(s, f.position, e.id, t.0, s.len() as int))),
            ..e
        },
        _ => e,
    }
}

/// The targeting resolver. For every entity holding a targeting relation
/// and a figure, scan all records in store order and acquire or switch the
/// target as `chase_step` describes; everything else about every entity is
/// left as it was.
pub fn update_targets(w: &mut World)
    requires
        old(w).wf(),
    ensures
        final(w).wf(),
        final(w).next_id == old(w).next_id,
        final(w).entities@.len() == old(w).entities@.len(),
        forall|i: int|
            0 <= i < old(w).entities@.len()
                ==> final(w).entities@[i] == targets_resolved(old(w).entities@, i),
{
    let ghost s = w.entities@;
    let n: usize = w.entities.len();
    let mut out: Vec<EntityRecord> = Vec::new();
    let mut h: usize = 0;
    while h < n
        invariant
            0 <= h <= n,
            n == s.len(),
            *w == *old(w),
            w.wf(),
            w.entities@ == s,
            out@.len() == h,
            forall|k: int| 0 <= k < h ==> out@[k] == targets_resolved(s, k),
        decreases n - h,
    {
        let e = w.entities[h];
        let new_e: EntityRecord;
        if e.targeting.is_some() && e.figure.is_some() {
            let hp: Vec3 = e.figure.unwrap().position;
            let mut cur: Option<EntityId> = e.targeting.unwrap().0;
            let ghost cur0 = cur;
            let mut j: usize = 0;
            while j < n
                invariant
                    0 <= j <= n,
                    n == s.len(),
                    *w == *old(w),
                    w.wf(),
                    w.entities@ == s,
                    0 <= h < n,
                    e == s[h as int],
                    e.targeting is Some,
                    e.figure is Some,
                    hp == e.figure.unwrap().position,
                    cur == fold_targets(s, hp, e.id, cur0, j as int),
                decreases n - j,
            {
                let c = w.entities[j];
                if c.targetable.is_some() && c.figure.is_some() && c.id.0 != e.id.0 {
                    match cur {
                        Some(t) => {
                            match w.resolve_world_position(t) {
                                Some(tp) => {
                                    proof {
                                        lemma_pos_of_bounded(s, t);
                                    }
                                    let dist_current = distance(&hp, &tp);
                                    let dist_candidate = distance(
                                        &hp,
                                        &c.figure.unwrap().position,
                                    );
                                    if should_switch(dist_current, dist_candidate) {
                                        cur = Some(c.id);
                                    }
                                },
                                None => {
                                    cur = Some(c.id);
                                },
                            }
                        },
                        None => {
                            cur = Some(c.id);
                        },
                    }
                }
                j = j + 1;
                proof {
                    assert(cur == fold_targets(s, hp, e.id, cur0, j as int));
                }
            }
            proof {
                lemma_fold_targets_not_self(s, hp, e.id, cur0, n as int);
            }
            new_e = EntityRecord { targeting: Some(Targeting(cur)), ..e };
        } else {
            new_e = e;
        }
        out.push(new_e);
        h = h + 1;
    }
    w.entities = out;
    proof {
        assert forall|i: int|
            0 <= i < w.entities@.len() implies {
                &&& (#[trigger] w.entities@[i]).id == s[i].id
                &&& w.entities@[i].is_preview() == s[i].is_preview()
                &&& w.entities@[i].wf()
            } by {
            assert(w.entities@[i] == targets_resolved(s, i));
            let e = s[i];
            assert(e.wf());
            match (e.targeting, e.figure) {
                (Some(t), Some(f)) => {
                    lemma_fold_targets_not_self(s, f.position, e.id, t.0, s.len() as int);
                },
                _ => {},
            }
        }
        assert(crate::world::at_most_one_preview(w.entities@));
    }
}

} // verus!
