use minion_sim::components::{
    EntityId, EntityRecord, Figure, Minion, Movable, Moving, Targetable, Targeting,
};
use minion_sim::engagement::handle_moving_component;
use minion_sim::facing::face_target;
use minion_sim::frame::update_frame;
use minion_sim::kinematics::{integrate, move_movables};
use minion_sim::math::Vec3;
use minion_sim::targeting::{should_switch, update_targets};
use minion_sim::world::{spawn_wizard, World};
use minion_sim::{simulation_active, GameState, MOVING_SPEED};

fn v(x: i64, y: i64, z: i64) -> Vec3 {
    Vec3 { x, y, z }
}

fn figure_at(pos: Vec3) -> Figure {
    Figure { position: pos, rotation: v(0, 0, 1000), scale: v(1000, 1000, 1000) }
}

fn bare(id: u64, pos: Vec3) -> EntityRecord {
    EntityRecord {
        id: EntityId(id),
        figure: Some(figure_at(pos)),
        minion: None,
        targeting: None,
        targetable: None,
        movable: None,
        moving: None,
        preview: None,
        scene: None,
    }
}

fn hunter(id: u64, pos: Vec3, target: Option<u64>) -> EntityRecord {
    let mut e = bare(id, pos);
    e.targeting = Some(Targeting(target.map(EntityId)));
    e
}

fn targetable(id: u64, pos: Vec3) -> EntityRecord {
    let mut e = bare(id, pos);
    e.targetable = Some(Targetable);
    e
}

#[test]
fn switching_needs_strictly_more_than_delta() {
    // A candidate better by exactly the threshold is refused; one step more wins.
    assert!(!should_switch(10000, 9900));
    assert!(should_switch(10000, 9899));
    assert!(!should_switch(5000, 5000));
    assert!(!should_switch(5000, 6000));
}

#[test]
fn switch_happens_above_delta() {
    // Hunter at the origin, current target at distance 10 units, candidate
    // at distance 9.85: the 0.15 advantage exceeds the 0.1 hysteresis.
    let mut w = World {
        entities: vec![
            hunter(0, v(0, 0, 0), Some(1)),
            bare(1, v(0, 0, 10000)),
            targetable(2, v(9850, 0, 0)),
        ],
        next_id: 3,
    };
    update_targets(&mut w);
    assert_eq!(w.entities[0].targeting, Some(Targeting(Some(EntityId(2)))));
}

#[test]
fn no_switch_below_delta() {
    // Candidate at distance 9.95 against a current target at 10: the 0.05
    // advantage is below the hysteresis, so the target is kept.
    let mut w = World {
        entities: vec![
            hunter(0, v(0, 0, 0), Some(1)),
            bare(1, v(0, 0, 10000)),
            targetable(2, v(9950, 0, 0)),
        ],
        next_id: 3,
    };
    update_targets(&mut w);
    assert_eq!(w.entities[0].targeting, Some(Targeting(Some(EntityId(1)))));
}

#[test]
fn acquires_first_candidate_in_store_order() {
    // With no current target the first targetable met is taken; a later,
    // farther one cannot beat it within the hysteresis... unless it is
    // closer by more than the threshold, which the next test shows.
    let mut w = World {
        entities: vec![
            hunter(0, v(0, 0, 0), None),
            targetable(1, v(1000, 0, 0)),
            targetable(2, v(5000, 0, 0)),
        ],
        next_id: 3,
    };
    update_targets(&mut w);
    assert_eq!(w.entities[0].targeting, Some(Targeting(Some(EntityId(1)))));
}

#[test]
fn acquired_target_can_be_switched_in_same_pass() {
    // First candidate at 5 units is acquired, then the candidate at 1 unit
    // is closer by far more than the hysteresis and takes over.
    let mut w = World {
        entities: vec![
            hunter(0, v(0, 0, 0), None),
            targetable(1, v(5000, 0, 0)),
            targetable(2, v(1000, 0, 0)),
        ],
        next_id: 3,
    };
    update_targets(&mut w);
    assert_eq!(w.entities[0].targeting, Some(Targeting(Some(EntityId(2)))));
}

#[test]
fn stale_target_is_reassigned() {
    // The current target no longer resolves: the hunter falls back to
    // unconditional reassignment instead of crashing.
    let mut w = World {
        entities: vec![hunter(0, v(0, 0, 0), Some(77)), targetable(1, v(4000, 0, 0))],
        next_id: 2,
    };
    update_targets(&mut w);
    assert_eq!(w.entities[0].targeting, Some(Targeting(Some(EntityId(1)))));
}

#[test]
fn hunter_never_targets_itself() {
    let mut w = World {
        entities: vec![
            {
                let mut e = hunter(0, v(0, 0, 0), None);
                e.targetable = Some(Targetable);
                e
            },
            targetable(1, v(3000, 0, 0)),
        ],
        next_id: 2,
    };
    update_targets(&mut w);
    assert_eq!(w.entities[0].targeting, Some(Targeting(Some(EntityId(1)))));
}

#[test]
fn moving_tag_follows_engagement_range() {
    // Half-open range [1.0, 5.0): 4.9 and 1.0 advance, 5.0 and 0.9 hold.
    for (d, expect) in [(4900, true), (5000, false), (1000, true), (900, false)] {
        let mut w = World {
            entities: vec![hunter(0, v(0, 0, 0), Some(1)), bare(1, v(d, 0, 0))],
            next_id: 2,
        };
        handle_moving_component(&mut w);
        assert_eq!(w.entities[0].moving.is_some(), expect, "distance {}", d);
    }
}

#[test]
fn no_target_forces_idle() {
    let mut e = hunter(0, v(0, 0, 0), None);
    e.moving = Some(Moving);
    let mut w = World { entities: vec![e], next_id: 1 };
    handle_moving_component(&mut w);
    assert_eq!(w.entities[0].moving, None);
}

#[test]
fn stale_target_forces_idle() {
    let mut e = hunter(0, v(0, 0, 0), Some(9));
    e.moving = Some(Moving);
    let mut w = World { entities: vec![e], next_id: 1 };
    handle_moving_component(&mut w);
    assert_eq!(w.entities[0].moving, None);
}

#[test]
fn facing_turns_toward_target() {
    let mut w = World {
        entities: vec![hunter(0, v(1000, 0, 0), Some(1)), bare(1, v(4000, 0, 4000))],
        next_id: 2,
    };
    face_target(&mut w);
    assert_eq!(w.entities[0].figure.unwrap().rotation, v(3000, 0, 4000));
    // The target itself holds no relation and is untouched.
    assert_eq!(w.entities[1].figure.unwrap().rotation, v(0, 0, 1000));
}

#[test]
fn facing_unchanged_when_target_coincides() {
    let mut w = World {
        entities: vec![hunter(0, v(2000, 0, 0), Some(1)), bare(1, v(2000, 0, 0))],
        next_id: 2,
    };
    face_target(&mut w);
    assert_eq!(w.entities[0].figure.unwrap().rotation, v(0, 0, 1000));
}

#[test]
fn integrate_zero_elapsed_is_identity() {
    let f = Figure { position: v(5000, 0, -2000), rotation: v(3000, 0, 4000), scale: v(1000, 1000, 1000) };
    assert_eq!(integrate(&f, MOVING_SPEED, 0), f);
}

#[test]
fn integrate_advances_along_forward() {
    // Facing straight along the reference forward at 1 unit per second for
    // one second: one unit of advance.
    let f = figure_at(v(0, 0, 0));
    let moved = integrate(&f, 1000, 1000);
    assert_eq!(moved.position, v(0, 0, 1000));
    assert_eq!(moved.rotation, f.rotation);
}

#[test]
fn integrate_splits_by_direction() {
    // A 3-4-5 facing direction splits the advance proportionally.
    let f = Figure { position: v(0, 0, 0), rotation: v(3000, 0, 4000), scale: v(1000, 1000, 1000) };
    let moved = integrate(&f, 1000, 1000);
    assert_eq!(moved.position, v(600, 0, 800));
}

#[test]
fn integrate_respects_negative_axes() {
    let f = Figure { position: v(100, 0, 100), rotation: v(0, 0, -1000), scale: v(1000, 1000, 1000) };
    let moved = integrate(&f, 500, 2000);
    assert_eq!(moved.position, v(100, 0, -900));
}

#[test]
fn integrate_zero_direction_holds_position() {
    let f = Figure { position: v(10, 20, 30), rotation: v(0, 0, 0), scale: v(1000, 1000, 1000) };
    assert_eq!(integrate(&f, 1000, 1000), f);
}

#[test]
fn only_moving_movables_advance() {
    let mut still = bare(0, v(0, 0, 0));
    still.movable = Some(Movable(1000));
    let mut goes = bare(1, v(0, 0, 0));
    goes.movable = Some(Movable(1000));
    goes.moving = Some(Moving);
    let mut no_speed = bare(2, v(0, 0, 0));
    no_speed.moving = Some(Moving);
    let mut w = World { entities: vec![still, goes, no_speed], next_id: 3 };
    move_movables(&mut w, 1000);
    assert_eq!(w.entities[0].figure.unwrap().position, v(0, 0, 0));
    assert_eq!(w.entities[1].figure.unwrap().position, v(0, 0, 1000));
    assert_eq!(w.entities[2].figure.unwrap().position, v(0, 0, 0));
}

#[test]
fn move_movables_zero_elapsed_changes_nothing() {
    let mut goes = bare(1, v(7, 8, 9));
    goes.movable = Some(Movable(1000));
    goes.moving = Some(Moving);
    let mut w = World { entities: vec![goes.clone()], next_id: 2 };
    move_movables(&mut w, 0);
    assert_eq!(w.entities[0], goes);
}

#[test]
fn spawn_wizard_populates_two_minions() {
    let mut w = World::new();
    spawn_wizard(&mut w);
    assert_eq!(w.entities.len(), 2);
    let a = &w.entities[0];
    let b = &w.entities[1];
    assert_eq!(a.figure.unwrap().position, v(2000, 0, 1000));
    assert_eq!(b.figure.unwrap().position, v(-2000, 0, 1000));
    for e in [a, b] {
        assert_eq!(e.minion, Some(Minion { life: 100, attack_damage: 15 }));
        assert_eq!(e.targeting, Some(Targeting(None)));
        assert_eq!(e.targetable, Some(Targetable));
        assert_eq!(e.movable, Some(Movable(MOVING_SPEED)));
        assert_eq!(e.preview, None);
    }
    assert_eq!(a.moving, None);
    assert_eq!(b.moving, Some(Moving));
    assert_eq!(w.next_id, 2);
}

#[test]
fn resolve_position_and_stale_reference() {
    let w = World { entities: vec![bare(4, v(1, 2, 3))], next_id: 5 };
    assert_eq!(w.resolve_world_position(EntityId(4)), Some(v(1, 2, 3)));
    assert_eq!(w.resolve_world_position(EntityId(6)), None);
}

#[test]
fn frame_is_noop_before_game_start() {
    let mut w = World::new();
    spawn_wizard(&mut w);
    let before = w.entities.clone();
    update_frame(&mut w, GameState::AssetLoading, 16);
    assert_eq!(w.entities, before);
}

#[test]
fn full_frame_acquires_faces_and_advances() {
    // One frame from a cold start: the hunter acquires the only candidate
    // three units ahead, turns toward it, enters the engagement range, and
    // advances one unit along the new facing.
    let mut h = hunter(0, v(0, 0, 0), None);
    h.movable = Some(Movable(1000));
    let mut w = World { entities: vec![h, targetable(1, v(0, 0, 3000))], next_id: 2 };
    update_frame(&mut w, GameState::GameStart, 1000);
    let a = &w.entities[0];
    assert_eq!(a.targeting, Some(Targeting(Some(EntityId(1)))));
    assert_eq!(a.figure.unwrap().rotation, v(0, 0, 3000));
    assert!(a.moving.is_some());
    assert_eq!(a.figure.unwrap().position, v(0, 0, 1000));
    // The candidate holds no relation and stays put.
    assert_eq!(w.entities[1].figure.unwrap().position, v(0, 0, 3000));
}

#[test]
fn simulation_runs_only_after_game_start() {
    assert!(!simulation_active(GameState::AssetLoading));
    assert!(simulation_active(GameState::GameStart));
    assert!(!simulation_active(GameState::Running));
}
