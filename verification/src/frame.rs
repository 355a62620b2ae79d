//! One frame of the per-entity pipeline: the four systems run in a fixed
//! order, each reading the state the previous one committed. The placement
//! preview controller is not part of this chain; it runs independently,
//! driven by its own inputs.

use vstd::prelude::*;

verus! {

use crate::components::EntityRecord;
use crate::engagement::{engaged, handle_moving_component};
use crate::facing::{face_target, faced};
use crate::kinematics::{move_movables, moved_record};
use crate::targeting::{targets_resolved, update_targets};
use crate::world::World;
use crate::{simulation_active, GameState, DT_LIMIT};

/// The store after a full targeting pass.
pub open spec fn targets_pass(s: Seq<EntityRecord>) -> Seq<EntityRecord> {
    Seq::new(s.len(), |i: int| targets_resolved(s, i))
}

/// The store after a full orientation pass.
pub open spec fn faced_pass(s: Seq<EntityRecord>) -> Seq<EntityRecord> {
    Seq::new(s.len(), |i: int| faced(s, i))
}

/// The store after a full engagement pass.
pub open spec fn engaged_pass(s: Seq<EntityRecord>) -> Seq<EntityRecord> {
    Seq::new(s.len(), |i: int| engaged(s, i))
}

/// The store after a full integration pass over `dt` milliseconds.
pub open spec fn moved_pass(s: Seq<EntityRecord>, dt: int) -> Seq<EntityRecord> {
    Seq::new(s.len(), |i: int| moved_record(s, i, dt))
}

/// Run one frame of the simulation: targeting, then orientation, then
/// engagement, then integration over the frame's elapsed time, each pass
/// reading what the previous one committed. Before the scene is set up the
/// frame is a no-op.
pub fn update_frame(w: &mut World, state: GameState, elapsed_ms: u64)
    requires
        old(w).wf(),
        elapsed_ms <= DT_LIMIT,
    ensures
        final(w).wf(),
        final(w).next_id == old(w).next_id,
        state != GameState::GameStart ==> *final(w) == *old(w),
        state == GameState::GameStart ==> final(w).entities@ == moved_pass(
            engaged_pass(faced_pass(targets_pass(old(w).entities@))),
            elapsed_ms as int,
        ),
{
    if !simulation_active(state) {
        return ;
    }
    let ghost s0 = w.entities@;
    update_targets(w);
    proof {
        assert(w.entities@ =~= targets_pass(s0));
    }
    let ghost s1 = w.entities@;
    face_target(w);
    proof {
        assert(w.entities@ =~= faced_pass(s1));
    }
    let ghost s2 = w.entities@;
    handle_moving_component(w);
    proof {
        assert(w.entities@ =~= engaged_pass(s2));
    }
    let ghost s3 = w.entities@;
    move_movables(w, elapsed_ms);
    proof {
        assert(w.entities@ =~= moved_pass(s3, elapsed_ms as int));
    }
}

} // verus!
