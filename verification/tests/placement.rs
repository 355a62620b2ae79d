use minion_sim::components::{Minion, Movable, Prototype, Targetable, Targeting};
use minion_sim::spawning::{
    actuallyspawn_preview, show_spawn_preview, switch_spawning_state, GroundPoint, SpawningState,
};
use minion_sim::world::{spawn_wizard, World};
use minion_sim::MOVING_SPEED;

fn preview_count(w: &World) -> usize {
    w.entities.iter().filter(|e| e.preview.is_some()).count()
}

#[test]
fn selection_from_idle_creates_one_preview() {
    let mut w = World::new();
    spawn_wizard(&mut w);
    let next = switch_spawning_state(&mut w, SpawningState::Idle, Some(Prototype::Hat));
    assert_eq!(next, SpawningState::Spawning);
    assert_eq!(preview_count(&w), 1);
    let p = w.entities.last().unwrap();
    assert_eq!(p.scene, Some(Prototype::Hat));
    assert_eq!(p.figure.unwrap().position.x, 0);
    assert_eq!(p.figure.unwrap().position.z, 0);
    assert_eq!(p.minion, None);
    assert_eq!(p.targeting, None);
    assert_eq!(p.targetable, None);
    assert_eq!(p.movable, None);
}

#[test]
fn second_selection_toggles_previews_away() {
    let mut w = World::new();
    let next = switch_spawning_state(&mut w, SpawningState::Idle, Some(Prototype::Young));
    assert_eq!(next, SpawningState::Spawning);
    let next = switch_spawning_state(&mut w, next, Some(Prototype::Old));
    assert_eq!(next, SpawningState::Idle);
    assert_eq!(preview_count(&w), 0);
}

#[test]
fn no_selection_changes_nothing() {
    let mut w = World::new();
    spawn_wizard(&mut w);
    let before = w.entities.clone();
    let next = switch_spawning_state(&mut w, SpawningState::Idle, None);
    assert_eq!(next, SpawningState::Idle);
    assert_eq!(w.entities, before);
}

#[test]
fn preview_follows_ground_point() {
    let mut w = World::new();
    let next = switch_spawning_state(&mut w, SpawningState::Idle, Some(Prototype::Wizard));
    show_spawn_preview(&mut w, Some(GroundPoint { x: 777, z: -555 }));
    assert_eq!(next, SpawningState::Spawning);
    let p = w.entities.last().unwrap();
    assert_eq!(p.figure.unwrap().position.x, 777);
    assert_eq!(p.figure.unwrap().position.y, 0);
    assert_eq!(p.figure.unwrap().position.z, -555);
}

#[test]
fn missing_ground_point_skips_the_frame() {
    let mut w = World::new();
    switch_spawning_state(&mut w, SpawningState::Idle, Some(Prototype::Wizard));
    let before = w.entities.clone();
    show_spawn_preview(&mut w, None);
    assert_eq!(w.entities, before);
}

#[test]
fn confirmation_commits_the_preview() {
    let mut w = World::new();
    spawn_wizard(&mut w);
    let next = switch_spawning_state(&mut w, SpawningState::Idle, Some(Prototype::Old));
    show_spawn_preview(&mut w, Some(GroundPoint { x: 3000, z: 4000 }));
    let next = actuallyspawn_preview(&mut w, next, true);
    assert_eq!(next, SpawningState::Idle);
    assert_eq!(preview_count(&w), 0);
    let e = w.entities.last().unwrap();
    assert_eq!(e.preview, None);
    assert_eq!(e.targetable, Some(Targetable));
    assert_eq!(e.targeting, Some(Targeting(None)));
    assert_eq!(e.movable, Some(Movable(MOVING_SPEED)));
    assert_eq!(e.minion, Some(Minion { life: 100, attack_damage: 15 }));
    assert_eq!(e.scene, Some(Prototype::Old));
    assert_eq!(e.figure.unwrap().position.x, 3000);
    assert_eq!(e.figure.unwrap().position.z, 4000);
}

#[test]
fn confirmation_outside_spawning_changes_nothing() {
    let mut w = World::new();
    spawn_wizard(&mut w);
    let before = w.entities.clone();
    let next = actuallyspawn_preview(&mut w, SpawningState::Idle, true);
    assert_eq!(next, SpawningState::Idle);
    assert_eq!(w.entities, before);
}

#[test]
fn unconfirmed_spawning_keeps_the_preview() {
    let mut w = World::new();
    let next = switch_spawning_state(&mut w, SpawningState::Idle, Some(Prototype::Wizard));
    let next = actuallyspawn_preview(&mut w, next, false);
    assert_eq!(next, SpawningState::Spawning);
    assert_eq!(preview_count(&w), 1);
}
