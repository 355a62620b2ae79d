//! A small real-time simulation core for a 3D scene of autonomous minion
//! figures: each figure can acquire a target among its peers, turn to face
//! it, approach it while it stays inside a valid engagement range, and be
//! placed into the scene through a cursor-driven preview.
//!
//! All geometry is carried in fixed-point coordinates: one length unit of
//! the scene is `MILLI` coordinate steps, and every position component is
//! kept within `POS_LIMIT`. Time is measured in milliseconds. A frame runs
//! the systems in a fixed order: `update_targets`, then `face_target`, then
//! `handle_moving_component`, then `move_movables`; the placement preview
//! systems run independently of that chain.

use vstd::prelude::*;

pub mod components;
pub mod engagement;
pub mod facing;
pub mod frame;
pub mod kinematics;
pub mod math;
pub mod spawning;
pub mod targeting;
pub mod world;

verus! {

/// Fixed-point scale: coordinate steps per length unit of the scene.
pub const MILLI: i64 = 1000;

/// Extent of the world: every position component stays within this bound.
pub const POS_LIMIT: i64 = 1_000_000_000_000;

/// Largest speed a `Movable` may carry, in coordinate steps per second.
pub const SPEED_LIMIT: u64 = 1_000_000_000;

/// Largest elapsed time a single frame may report, in milliseconds.
pub const DT_LIMIT: u64 = 1_000_000_000;

/// Default speed of a freshly committed minion, in coordinate steps per second.
pub const MOVING_SPEED: u64 = 200;

/// Distance at which an advancing figure halts before its target.
pub const STOPPING_DISTANCE: i64 = 1000;

/// Hysteresis threshold: a candidate target must be closer than the current
/// one by more than this before a figure switches targets.
pub const SWITCHING_DELTA: i64 = 100;

/// Distance beyond which a figure no longer advances toward its target.
pub const SEEING_DISTANCE: i64 = 5000;

/// Top-level phase of the application: assets load first, then the scene is
/// set up, then the simulation runs.
#[derive(Clone, Copy, Debug, PartialEq, Eq, Structural)]
pub enum GameState {
    AssetLoading,
    GameStart,
    Running,
}

/// The per-frame entity systems run only once the scene has been set up.
pub fn simulation_active(state: GameState) -> (active: bool)
    ensures
        active == (state == GameState::GameStart),
{
    match state {
        GameState::GameStart => true,
        _ => false,
    }
}

} // verus!
