use scene_editor::components::{EntityKind, EntityType, Health};
use scene_editor::editor::Editor;
use scene_editor::gameplay::{health_tint, MoveInput};
use scene_editor::world::EntityRef;

const IDLE: MoveInput = MoveInput { up: false, down: false, left: false, right: false };

fn projectiles(ed: &Editor) -> Vec<(i64, i64)> {
    ed.world
        .slots
        .iter()
        .flatten()
        .filter(|e| e.kind == EntityKind::Projectile)
        .map(|e| (e.transform.x, e.transform.y))
        .collect()
}

#[test]
fn systems_do_nothing_while_editing_or_paused() {
    let mut ed = Editor::new();
    let p = ed.spawn_entity(EntityType::Player, 0, 0, None);
    let right = MoveInput { right: true, ..IDLE };
    ed.advance(right, true, 500);
    assert_eq!(ed.world.get(p).unwrap().transform.x, 0);
    assert!(projectiles(&ed).is_empty());
    ed.play();
    ed.toggle_pause();
    ed.advance(right, true, 500);
    ed.player_movement(right, 500);
    assert!(!ed.shoot(p));
    assert_eq!(ed.world.get(p).unwrap().transform.x, 0);
    assert!(projectiles(&ed).is_empty());
}

#[test]
fn player_moves_at_fixed_speed() {
    let mut ed = Editor::new();
    let p = ed.spawn_entity(EntityType::Player, 0, 0, None);
    ed.play();
    ed.player_movement(MoveInput { right: true, ..IDLE }, 500);
    assert_eq!(ed.world.get(p).unwrap().transform.x, 100);
    ed.player_movement(MoveInput { up: true, left: true, ..IDLE }, 1000);
    let t = ed.world.get(p).unwrap().transform;
    assert_eq!((t.x, t.y), (-41, 141));
    ed.player_movement(MoveInput { up: true, down: true, ..IDLE }, 1000);
    let t = ed.world.get(p).unwrap().transform;
    assert_eq!((t.x, t.y), (-41, 141));
}

#[test]
fn shooting_spawns_projectile_and_starts_cooldown() {
    let mut ed = Editor::new();
    let p = ed.spawn_entity(EntityType::Player, 10, 20, None);
    ed.play();
    assert!(ed.shoot(p));
    assert_eq!(projectiles(&ed), vec![(10, 50)]);
    assert_eq!(ed.shooting_stats.shots_fired, 1);
    assert_eq!(ed.world.get(p).unwrap().shooting.unwrap().cooldown, 300);
    assert_eq!(ed.scene_manager.next_id, 2);
    let shot = ed.world.get(EntityRef { index: 1 }).unwrap();
    assert_eq!(shot.projectile.unwrap().velocity_y, 300);
    assert_eq!(shot.id, 1);
    assert!(!ed.shoot(p));
    ed.update_shooting_cooldowns(200);
    assert_eq!(ed.world.get(p).unwrap().shooting.unwrap().cooldown, 100);
    ed.update_shooting_cooldowns(250);
    assert_eq!(ed.world.get(p).unwrap().shooting.unwrap().cooldown, -150);
    ed.player_shooting(true);
    assert_eq!(projectiles(&ed).len(), 2);
    assert_eq!(ed.shooting_stats.shots_fired, 2);
}

#[test]
fn projectiles_fly_and_leave() {
    let mut ed = Editor::new();
    let s = ed.spawn_entity(EntityType::Projectile, 0, 900, None);
    ed.play();
    ed.projectile_movement(100);
    assert_eq!(ed.world.get(s).unwrap().transform.y, 940);
    ed.projectile_movement(250);
    assert_eq!(ed.world.get(s).unwrap().transform.y, 1040);
    ed.pointer_down(0, 1040);
    assert_eq!(ed.selected_entity.entity, Some(s));
    ed.projectile_cleanup();
    assert!(!ed.world.is_alive(s));
    assert_eq!(ed.selected_entity.entity, None);
}

#[test]
fn projectile_hit_damages_first_enemy_only() {
    let mut ed = Editor::new();
    let a = ed.spawn_entity(EntityType::Enemy, 0, 100, None);
    let b = ed.spawn_entity(EntityType::Enemy, 10, 100, None);
    let s = ed.spawn_entity(EntityType::Projectile, 5, 90, None);
    ed.play();
    ed.collision_detection();
    assert!(!ed.world.is_alive(s));
    assert_eq!(ed.world.get(a).unwrap().health, Some(Health { current: 25, max: 50 }));
    assert_eq!(ed.world.get(b).unwrap().health, Some(Health { current: 50, max: 50 }));
    assert_eq!(ed.shooting_stats.hits, 1);
    let s2 = ed.spawn_entity(EntityType::Projectile, 0, 100, None);
    assert_eq!(ed.resolve_projectile(s2), Some(a));
    assert!(!ed.world.is_alive(a));
    assert_eq!(ed.shooting_stats.hits, 2);
}

#[test]
fn projectile_far_from_enemies_survives() {
    let mut ed = Editor::new();
    ed.spawn_entity(EntityType::Enemy, 0, 0, None);
    let s = ed.spawn_entity(EntityType::Projectile, 25, 0, None);
    ed.play();
    assert_eq!(ed.resolve_projectile(s), None);
    ed.collision_detection();
    assert!(ed.world.is_alive(s));
    assert_eq!(ed.shooting_stats.hits, 0);
}

#[test]
fn boundary_clamps_colliding_entities() {
    let mut ed = Editor::new();
    let p = ed.spawn_entity(EntityType::Player, 450, -900, None);
    ed.play();
    ed.boundary_collision();
    let t = ed.world.get(p).unwrap().transform;
    assert_eq!((t.x, t.y), (400, -400));
}

#[test]
fn enemy_tint_follows_health() {
    assert_eq!(health_tint(Health { current: 50, max: 50 }), [1000, 0, 0, 1000]);
    assert_eq!(health_tint(Health { current: 25, max: 50 }), [1000, 650, 0, 1000]);
    assert_eq!(health_tint(Health { current: 15, max: 50 }), [500, 0, 0, 1000]);
    assert_eq!(health_tint(Health { current: -25, max: 50 }), [500, 0, 0, 1000]);
}

#[test]
fn health_display_is_clamped() {
    assert_eq!(Health { current: -25, max: 100 }.displayed(), 0);
    assert_eq!(Health { current: 140, max: 100 }.displayed(), 100);
    assert_eq!(Health { current: 60, max: 100 }.displayed(), 60);
}

#[test]
fn advance_runs_one_frame_while_playing() {
    let mut ed = Editor::new();
    let p = ed.spawn_entity(EntityType::Player, 390, 0, None);
    let e = ed.spawn_entity(EntityType::Enemy, 390, 60, None);
    ed.play();
    ed.advance(MoveInput { right: true, ..IDLE }, true, 100);
    // Moved 20 to the right, then held at the boundary.
    assert_eq!(ed.world.get(p).unwrap().transform.x, 400);
    // The shot (fired at y = 30, flown 30 more) overlaps the enemy at y = 60.
    assert!(projectiles(&ed).is_empty());
    assert_eq!(ed.world.get(e).unwrap().health, Some(Health { current: 25, max: 50 }));
    assert_eq!(ed.shooting_stats.shots_fired, 1);
    assert_eq!(ed.shooting_stats.hits, 1);
}

#[test]
fn volley_fires_every_ready_player_in_slot_order() {
    let mut ed = Editor::new();
    let a = ed.spawn_entity(EntityType::Player, 0, 0, None);
    let b = ed.spawn_entity(EntityType::Player, 100, 0, None);
    ed.play();
    ed.player_shooting(false);
    assert!(projectiles(&ed).is_empty());
    ed.player_shooting(true);
    assert_eq!(projectiles(&ed), vec![(0, 30), (100, 30)]);
    assert_eq!(ed.world.get(EntityRef { index: 2 }).unwrap().id, 2);
    assert_eq!(ed.world.get(EntityRef { index: 3 }).unwrap().id, 3);
    assert_eq!(ed.scene_manager.next_id, 4);
    assert_eq!(ed.shooting_stats.shots_fired, 2);
    assert_eq!(ed.world.get(a).unwrap().shooting.unwrap().cooldown, 300);
    assert_eq!(ed.world.get(b).unwrap().shooting.unwrap().cooldown, 300);
    ed.player_shooting(true);
    assert_eq!(projectiles(&ed).len(), 2);
}

#[test]
fn collision_pass_removes_entities_without_health_left() {
    let mut ed = Editor::new();
    let e = ed.spawn_entity(EntityType::Enemy, 0, 0, None);
    let p = ed.spawn_entity(EntityType::Player, 200, 0, None);
    ed.world.set_health(e, Health { current: 0, max: 50 });
    ed.play();
    ed.collision_detection();
    assert!(!ed.world.is_alive(e));
    assert!(ed.world.is_alive(p));
    assert_eq!(ed.shooting_stats.hits, 0);
}

#[test]
fn setting_health_to_zero_removes_entity() {
    let mut ed = Editor::new();
    let e = ed.spawn_entity(EntityType::Enemy, 0, 0, None);
    ed.pointer_down(0, 0);
    ed.set_entity_health(e, Health { current: 10, max: 50 });
    assert_eq!(ed.world.get(e).unwrap().health, Some(Health { current: 10, max: 50 }));
    ed.set_entity_health(e, Health { current: 0, max: 50 });
    assert!(!ed.world.is_alive(e));
    assert_eq!(ed.selected_entity.entity, None);
    assert_eq!(ed.drag_state.dragging, None);
}
