use scene_editor::camera::{CameraController, ScrollUnit};
use scene_editor::components::{EntityKind, EntityType, Health, SpriteAsset};
use scene_editor::editor::{Editor, PlayMode};
use scene_editor::scene::SceneError;
use scene_editor::world::EntityRef;

fn role_entities(ed: &Editor) -> Vec<(EntityType, i64, i64, Option<Health>, u64)> {
    let mut out = Vec::new();
    for slot in ed.world.slots.iter() {
        if let Some(e) = slot {
            if let Some(t) = e.role() {
                out.push((t, e.transform.x, e.transform.y, e.health, e.id));
            }
        }
    }
    out
}

fn selected_count(ed: &Editor) -> usize {
    ed.world.slots.iter().filter(|s| matches!(s, Some(e) if e.selected)).count()
}

#[test]
fn save_new_load_restores_scene() {
    let mut ed = Editor::new();
    ed.spawn_entity(EntityType::Player, 0, 0, None);
    for i in 0..5i64 {
        ed.spawn_entity(EntityType::Enemy, i * 80 - 160, 150, None);
    }
    let doc = ed.to_document("level".to_string(), "2024-01-01T00:00:00+00:00".to_string());
    assert_eq!(doc.entities.len(), 6);
    ed.new_scene();
    assert!(role_entities(&ed).is_empty());
    assert_eq!(ed.scene_manager.next_id, 0);
    assert_eq!(ed.load_document(&doc), Ok(()));
    let ents = role_entities(&ed);
    assert_eq!(ents.len(), 6);
    assert_eq!(ents[0], (EntityType::Player, 0, 0, Some(Health { current: 100, max: 100 }), 0));
    for i in 0..5usize {
        let x = i as i64 * 80 - 160;
        assert_eq!(
            ents[i + 1],
            (EntityType::Enemy, x, 150, Some(Health { current: 50, max: 50 }), i as u64 + 1)
        );
    }
    assert_eq!(ed.scene_manager.next_id, 6);
}

#[test]
fn drag_moves_entity_to_pointer() {
    let mut ed = Editor::new();
    ed.spawn_entity(EntityType::Player, -200, -200, None);
    let e = ed.spawn_entity(EntityType::Enemy, 100, 120, None);
    let hit = ed.pointer_down(100, 120);
    assert_eq!(hit, Some(e));
    assert_eq!(ed.selected_entity.entity, Some(e));
    assert_eq!(ed.drag_state.dragging, Some(e));
    assert_eq!((ed.drag_state.drag_offset_x, ed.drag_state.drag_offset_y), (0, 0));
    ed.pointer_move(50, 50);
    ed.pointer_up();
    let ent = ed.world.get(e).unwrap();
    assert_eq!((ent.transform.x, ent.transform.y), (50, 50));
    assert_eq!(ed.drag_state.dragging, None);
    assert_eq!(ed.selected_entity.entity, Some(e));
}

#[test]
fn drag_keeps_grab_offset() {
    let mut ed = Editor::new();
    let e = ed.spawn_entity(EntityType::Enemy, 100, 100, None);
    ed.pointer_down(110, 95);
    assert_eq!((ed.drag_state.drag_offset_x, ed.drag_state.drag_offset_y), (-10, 5));
    ed.pointer_move(0, 0);
    let ent = ed.world.get(e).unwrap();
    assert_eq!((ent.transform.x, ent.transform.y), (-10, 5));
}

#[test]
fn stop_restores_player_after_lethal_hit() {
    let mut ed = Editor::new();
    let p = ed.spawn_entity(EntityType::Player, 30, -40, None);
    ed.spawn_entity(EntityType::Enemy, 0, 150, None);
    ed.play();
    assert_eq!(ed.game_state.mode, PlayMode::Playing);
    ed.pointer_down(30, -40);
    ed.follow(p);
    let gone = ed.damage_entity(p, 125);
    assert!(gone);
    assert!(!ed.world.is_alive(p));
    assert_eq!(ed.selected_entity.entity, None);
    assert_eq!(ed.drag_state.dragging, None);
    assert_eq!(ed.camera.following_entity, None);
    ed.stop();
    assert_eq!(ed.game_state.mode, PlayMode::Editing);
    let ents = role_entities(&ed);
    assert_eq!(ents.len(), 2);
    assert_eq!(ents[0], (EntityType::Player, 30, -40, Some(Health { current: 100, max: 100 }), 0));
}

#[test]
fn stop_discards_play_changes() {
    let mut ed = Editor::new();
    let e = ed.spawn_entity(EntityType::Enemy, 10, 10, None);
    let before = ed.to_document("a".to_string(), "t".to_string());
    ed.play();
    ed.spawn_entity(EntityType::Projectile, 0, 0, Some(3));
    assert!(!ed.damage_entity(e, 20));
    assert_eq!(ed.world.get(e).unwrap().health, Some(Health { current: 30, max: 50 }));
    ed.stop();
    let after = ed.to_document("a".to_string(), "t".to_string());
    assert_eq!(after.entities.len(), before.entities.len());
    assert_eq!(after.entities[0].health, Some((50, 50)));
    assert_eq!(after.entities[0].id, before.entities[0].id);
    assert_eq!(after.metadata.next_id, before.metadata.next_id);
}

#[test]
fn stop_without_play_is_noop() {
    let mut ed = Editor::new();
    ed.spawn_entity(EntityType::Player, 1, 2, None);
    ed.stop();
    assert_eq!(ed.game_state.mode, PlayMode::Editing);
    assert_eq!(role_entities(&ed).len(), 1);
}

#[test]
fn pause_toggles_only_while_playing() {
    let mut ed = Editor::new();
    ed.toggle_pause();
    assert_eq!(ed.game_state.mode, PlayMode::Editing);
    ed.play();
    ed.toggle_pause();
    assert_eq!(ed.game_state.mode, PlayMode::Paused);
    assert!(ed.scene_state.saved_scene_data.is_some());
    ed.play();
    assert_eq!(ed.game_state.mode, PlayMode::Playing);
}

#[test]
fn selecting_second_entity_unmarks_first() {
    let mut ed = Editor::new();
    let a = ed.spawn_entity(EntityType::Enemy, 0, 0, None);
    let b = ed.spawn_entity(EntityType::Enemy, 300, 0, None);
    ed.select_entity(a);
    assert_eq!(selected_count(&ed), 1);
    ed.select_entity(b);
    assert_eq!(selected_count(&ed), 1);
    assert!(ed.world.get(b).unwrap().selected);
    assert!(!ed.world.get(a).unwrap().selected);
    assert_eq!(ed.selected_entity.entity, Some(b));
}

#[test]
fn click_on_empty_space_clears_selection() {
    let mut ed = Editor::new();
    let a = ed.spawn_entity(EntityType::Enemy, 0, 0, None);
    ed.pointer_down(0, 0);
    assert_eq!(ed.selected_entity.entity, Some(a));
    assert_eq!(ed.pointer_down(500, 500), None);
    assert_eq!(ed.selected_entity.entity, None);
    assert_eq!(ed.drag_state.dragging, None);
    assert_eq!(selected_count(&ed), 0);
}

#[test]
fn first_hit_in_slot_order_wins() {
    let mut ed = Editor::new();
    let a = ed.spawn_entity(EntityType::Enemy, 0, 0, None);
    ed.spawn_entity(EntityType::Player, 5, 5, None);
    assert_eq!(ed.pointer_down(4, 4), Some(a));
    // Edge of the collision square counts as a hit.
    assert_eq!(ed.find_hit(20, -20), Some(a));
    assert_eq!(ed.find_hit(21, 0), Some(EntityRef { index: 1 }));
}

#[test]
fn stale_references_cleared_on_revalidate() {
    let mut ed = Editor::new();
    let a = ed.spawn_entity(EntityType::Enemy, 0, 0, None);
    ed.pointer_down(0, 0);
    ed.follow(a);
    ed.world.despawn(a);
    ed.revalidate();
    assert_eq!(ed.selected_entity.entity, None);
    assert_eq!(ed.drag_state.dragging, None);
    assert_eq!(ed.camera.following_entity, None);
}

#[test]
fn despawn_twice_is_noop() {
    let mut ed = Editor::new();
    let a = ed.spawn_entity(EntityType::Enemy, 0, 0, None);
    ed.delete_entity(a);
    ed.delete_entity(a);
    assert!(ed.world.get(a).is_none());
    assert!(!ed.world.is_alive(EntityRef { index: 99 }));
}

#[test]
fn new_scene_keeps_editor_entities() {
    let mut ed = Editor::new();
    ed.setup_engine();
    let before = ed.world.slots.len();
    ed.new_scene();
    assert_eq!(ed.world.slots.len(), before);
    let kinds: Vec<EntityKind> = ed.world.slots.iter().filter_map(|s| s.as_ref().map(|e| e.kind)).collect();
    assert_eq!(kinds, vec![EntityKind::Camera]);
}

#[test]
fn loaded_record_gets_role_defaults() {
    let mut ed = Editor::new();
    ed.spawn_entity(EntityType::Projectile, 7, 8, Some(2));
    let mut doc = ed.to_document("d".to_string(), "t".to_string());
    assert_eq!(doc.entities[0].velocity, Some((0, 400)));
    assert_eq!(doc.entities[0].collision_radius, Some(5));
    assert_eq!(doc.entities[0].health, None);
    assert_eq!(doc.entities[0].transform.z, 2);
    doc.entities[0].velocity = None;
    doc.entities[0].collision_radius = None;
    doc.entities[0].sprite_asset = Some(SpriteAsset::new(Some("ship.png".to_string())));
    assert_eq!(ed.load_document(&doc), Ok(()));
    let e = ed.world.slots.iter().flatten().next().unwrap();
    assert_eq!(e.projectile.unwrap().velocity_y, 400);
    assert_eq!(e.collision.unwrap().radius, 5);
    assert_eq!(e.sprite.as_ref().unwrap().asset_path.as_deref(), Some("ship.png"));
    assert_eq!(e.sprite.as_ref().unwrap().tint_color, [1000, 1000, 1000, 1000]);
}

#[test]
fn camera_snaps_once_then_eases() {
    let mut cam = CameraController::new();
    cam.pan(100, -50);
    assert!(cam.instant_movement);
    cam.step(16);
    assert_eq!((cam.x, cam.y), (100, -50));
    assert!(!cam.instant_movement);
    cam.target_x = 200;
    cam.step(100);
    // 5/s over 0.1 s covers half the way.
    assert_eq!(cam.x, 150);
    cam.step(1000);
    assert_eq!(cam.x, 200);
}

#[test]
fn scroll_zoom_is_clamped() {
    let mut cam = CameraController::new();
    cam.scroll(ScrollUnit::Line, 3);
    assert_eq!(cam.target_zoom, 1300);
    cam.scroll(ScrollUnit::Pixel, -5);
    assert_eq!(cam.target_zoom, 1250);
    cam.scroll(ScrollUnit::Line, 1000);
    assert_eq!(cam.target_zoom, 5000);
    cam.scroll(ScrollUnit::Line, -1000);
    assert_eq!(cam.target_zoom, 100);
    cam.step(50);
    // 8/s over 0.05 s covers 40% of the way from 1000 toward 100.
    assert_eq!(cam.zoom, 640);
}

#[test]
fn camera_follows_live_entity_and_drops_dead_one() {
    let mut ed = Editor::new();
    let a = ed.spawn_entity(EntityType::Player, 40, 60, None);
    ed.follow(a);
    ed.update_camera(1000);
    assert_eq!((ed.camera.target_x, ed.camera.target_y), (40, 60));
    assert_eq!((ed.camera.x, ed.camera.y), (40, 60));
    ed.world.despawn(a);
    ed.update_camera(10);
    assert_eq!(ed.camera.following_entity, None);
}

#[test]
fn malformed_document_leaves_scene_untouched() {
    let mut ed = Editor::new();
    ed.spawn_entity(EntityType::Player, 0, 0, None);
    ed.spawn_entity(EntityType::Enemy, 10, 10, None);
    let mut doc = ed.to_document("d".to_string(), "t".to_string());
    ed.new_scene();
    let keep = ed.spawn_entity(EntityType::Enemy, 99, 99, None);
    doc.entities[1].id = doc.entities[0].id;
    assert_eq!(ed.load_document(&doc), Err(SceneError::DocumentParse));
    assert!(ed.world.is_alive(keep));
    assert_eq!(role_entities(&ed).len(), 1);
    doc.entities[1].id = 1;
    doc.metadata.next_id = 1;
    assert_eq!(ed.load_document(&doc), Err(SceneError::DocumentParse));
    doc.metadata.next_id = 2;
    assert_eq!(ed.load_document(&doc), Ok(()));
    assert_eq!(role_entities(&ed).len(), 2);
    assert_eq!(ed.scene_manager.next_id, 2);
}

#[test]
fn spawned_ids_count_up() {
    let mut ed = Editor::new();
    let a = ed.spawn_entity(EntityType::Player, 0, 0, None);
    let b = ed.spawn_entity(EntityType::Enemy, 0, 0, None);
    assert_eq!(ed.world.get(a).unwrap().id, 0);
    assert_eq!(ed.world.get(b).unwrap().id, 1);
    assert_eq!(ed.scene_manager.next_id, 2);
}

#[test]
fn capture_stamps_document_with_current_time() {
    let mut ed = Editor::new();
    ed.spawn_entity(EntityType::Enemy, 1, 2, None);
    let doc = scene_editor::scene::Scene::capture(&ed.world, "Play Mode Save".to_string(), ed.scene_manager.next_id);
    assert_eq!(doc.entities.len(), 1);
    assert_eq!(doc.metadata.version, "1.0");
    assert_eq!(doc.metadata.next_id, 1);
    assert!(doc.metadata.created_at.contains('T'));
    assert_eq!(doc.metadata.created_at, doc.metadata.last_modified);
}

#[test]
fn now_stamp_reads_the_clock_as_rfc3339() {
    let t = scene_editor::scene::now_stamp();
    // A clock after 1970: "YYYY-MM-DDThh:mm:ss...+00:00".
    assert!(t.len() >= 25);
    assert_eq!(&t[4..5], "-");
    assert_eq!(&t[10..11], "T");
    assert!(t.ends_with("+00:00"));
}
