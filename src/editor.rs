//! The editor session: the entity store together with the selection, drag
//! and camera controllers, the scene id counter and the play-mode snapshot.
//!
//! Controllers hold weak references; every operation that despawns clears
//! the references it invalidates, and `revalidate` clears any that went stale
//! by other means.
use vstd::prelude::*;

use crate::camera::{initial_camera, sat, sat_add, sat_sub, CameraController};
use crate::components::{
    complete, entity_of_record, role_of, EntityData, EntityKind, EntityType, Health,
    SerializableEntity, SerializableTransform, SpriteAsset, ENEMY_HEALTH, ENEMY_RADIUS,
    PLAYER_HEALTH, PLAYER_RADIUS, PROJECTILE_RADIUS, PROJECTILE_SPEED,
};
use crate::scene::{Scene, SceneError};
use crate::world::{
    alive, all_normalized, despawned, doc_ids_ok, entity_at, ids_ok, is_role_slot,
    lemma_despawned_ids, lemma_loaded_ids, lemma_loaded_wf, lemma_push_ids, lemma_records_ids,
    lemma_records_normalized, lemma_same_ids, lemma_without_roles_has_none, lemma_without_roles_wf,
    loaded_slots, records, replaced, store_wf, without_roles, EntityRef, World,
};

verus! {

#[derive(Debug, Clone, Copy, PartialEq, Eq, Structural)]
pub enum PlayMode {
    Editing,
    Playing,
    Paused,
}

#[derive(Debug, Clone, Copy, PartialEq, Eq, Structural)]
pub struct GameState {
    pub mode: PlayMode,
    pub debug_mode: bool,
}

/// The selected entity, if any (at most one).
#[derive(Debug, Clone, Copy, PartialEq, Eq, Structural)]
pub struct SelectedEntity {
    pub entity: Option<EntityRef>,
}

/// The entity being dragged, if any, and its offset from the pointer.
#[derive(Debug, Clone, Copy, PartialEq, Eq, Structural)]
pub struct DragState {
    pub dragging: Option<EntityRef>,
    pub drag_offset_x: i64,
    pub drag_offset_y: i64,
}

#[derive(Debug, Clone, Copy, PartialEq, Eq, Structural)]
pub struct ShootingStats {
    pub shots_fired: u64,
    pub hits: u64,
}

/// The scene id counter and the scene file path.
#[derive(Debug)]
pub struct SceneManager {
    pub next_id: u64,
    pub save_path: String,
}

/// The authored scene retained while playing.
#[derive(Debug)]
pub struct EditorSceneState {
    pub saved_scene_data: Option<Scene>,
}

#[derive(Debug)]
pub struct Editor {
    pub world: World,
    pub selected_entity: SelectedEntity,
    pub drag_state: DragState,
    pub camera: CameraController,
    pub scene_manager: SceneManager,
    pub game_state: GameState,
    pub scene_state: EditorSceneState,
    pub shooting_stats: ShootingStats,
}

/// The store with the selected marker of `o`'s entity set to `b`.
pub open spec fn flagged(s: Seq<Option<EntityData>>, o: Option<EntityRef>, b: bool) -> Seq<
    Option<EntityData>,
> {
    match o {
        Some(r) => match entity_at(s, r) {
            Some(e) => s.update(r.index as int, Some(EntityData { selected: b, ..e })),
            None => s,
        },
        None => s,
    }
}

/// `o` if it refers to a live entity, else `None`.
pub open spec fn live_ref(s: Seq<Option<EntityData>>, o: Option<EntityRef>) -> Option<EntityRef> {
    match o {
        Some(r) => if alive(s, r) {
            o
        } else {
            None
        },
        None => None,
    }
}

/// `o` names a slot that exists (live or not): slots are only appended, so
/// such a reference can never come to name a later entity.
pub open spec fn in_range(s: Seq<Option<EntityData>>, o: Option<EntityRef>) -> bool {
    o.is_some() ==> o.unwrap().index < s.len()
}

/// The entity that `spawn_editor_entity` adds.
pub open spec fn editor_entity(kind: EntityKind, x: i64, y: i64, z: i64) -> EntityData {
    EntityData {
        kind,
        id: 0,
        transform: SerializableTransform { x, y, z, rotation: 0, scale_x: 1000, scale_y: 1000 },
        health: None,
        collision: None,
        shooting: None,
        projectile: None,
        sprite: None,
        selected: false,
    }
}

/// The store after `amount` damage to the entity at `r`: removed when its
/// health falls to zero or below, else holding the lowered health. Dead
/// references and entities without health are left alone.
pub open spec fn damaged(s: Seq<Option<EntityData>>, r: EntityRef, amount: i64) -> Seq<
    Option<EntityData>,
> {
    match entity_at(s, r) {
        Some(e) => match e.health {
            Some(h) => if sat(h.current - amount) <= 0 {
                despawned(s, r)
            } else {
                replaced(
                    s,
                    r,
                    EntityData { health: Some(Health { current: sat(h.current - amount), ..h }), ..e },
                )
            },
            None => s,
        },
        None => s,
    }
}

/// `o`, unless it is `r`.
pub open spec fn unless(o: Option<EntityRef>, r: EntityRef) -> Option<EntityRef> {
    if o == Some(r) {
        None
    } else {
        o
    }
}

/// A live entity carries the selected marker exactly when it is the selection.
pub open spec fn selection_consistent(s: Seq<Option<EntityData>>, sel: Option<EntityRef>) -> bool {
    forall|i: int|
        0 <= i < s.len() && #[trigger] s[i].is_some() ==> (s[i].unwrap().selected <==> (sel.is_some()
            && sel.unwrap().index == i))
}

/// The store after clearing the selection and despawning every
/// role-bearing entity.
pub open spec fn cleared(s: Seq<Option<EntityData>>, sel: Option<EntityRef>) -> Seq<
    Option<EntityData>,
> {
    without_roles(flagged(s, sel, false))
}

/// The record that spawning a fresh entity of role `t` writes.
pub open spec fn fresh_record(t: EntityType, id: u64, x: i64, y: i64, z: i64) -> SerializableEntity {
    SerializableEntity {
        id,
        entity_type: t,
        transform: SerializableTransform { x, y, z, rotation: 0, scale_x: 1000, scale_y: 1000 },
        health: match t {
            EntityType::Player => Some((PLAYER_HEALTH, PLAYER_HEALTH)),
            EntityType::Enemy => Some((ENEMY_HEALTH, ENEMY_HEALTH)),
            EntityType::Projectile => None,
        },
        collision_radius: match t {
            EntityType::Player => Some(PLAYER_RADIUS),
            EntityType::Enemy => Some(ENEMY_RADIUS),
            EntityType::Projectile => Some(PROJECTILE_RADIUS),
        },
        velocity: match t {
            EntityType::Projectile => Some((0, PROJECTILE_SPEED)),
            _ => None,
        },
        sprite_asset: None,
    }
}

/// The pointer at (px, py) lies on the entity's collision square.
pub open spec fn hits(e: EntityData, px: int, py: int) -> bool {
    match e.collision {
        Some(c) => {
            &&& e.transform.x - c.radius <= px <= e.transform.x + c.radius
            &&& e.transform.y - c.radius <= py <= e.transform.y + c.radius
        },
        None => false,
    }
}

pub open spec fn hit_at(s: Seq<Option<EntityData>>, i: int, px: int, py: int) -> bool {
    0 <= i < s.len() && s[i].is_some() && hits(s[i].unwrap(), px, py)
}

pub proof fn lemma_deselect(s: Seq<Option<EntityData>>, sel: Option<EntityRef>)
    requires
        selection_consistent(s, sel),
        store_wf(s),
    ensures
        selection_consistent(flagged(s, sel, false), None),
        store_wf(flagged(s, sel, false)),
        flagged(s, sel, false).len() == s.len(),
        forall|i: int|
            0 <= i < s.len() ==> (#[trigger] flagged(s, sel, false)[i]).is_some() == s[i].is_some(),
{
    let t = flagged(s, sel, false);
    assert forall|i: int| 0 <= i < t.len() && #[trigger] t[i].is_some() implies !t[i].unwrap().selected by {
        assert(s[i].is_some());
    }
    assert forall|i: int| 0 <= i < t.len() && #[trigger] t[i].is_some() implies crate::components::complete(
        t[i].unwrap(),
    ) by {
        assert(s[i].is_some());
    }
}

pub proof fn lemma_select(s: Seq<Option<EntityData>>, r: EntityRef)
    requires
        selection_consistent(s, None),
        store_wf(s),
        alive(s, r),
    ensures
        selection_consistent(flagged(s, Some(r), true), Some(r)),
        store_wf(flagged(s, Some(r), true)),
{
    let t = flagged(s, Some(r), true);
    assert forall|i: int| 0 <= i < t.len() && #[trigger] t[i].is_some() implies (t[i].unwrap().selected
        <==> r.index == i) by {
        assert(s[i].is_some());
    }
    assert forall|i: int| 0 <= i < t.len() && #[trigger] t[i].is_some() implies crate::components::complete(
        t[i].unwrap(),
    ) by {
        assert(s[i].is_some());
    }
}

pub proof fn lemma_cleared(s: Seq<Option<EntityData>>, sel: Option<EntityRef>, rs: Seq<SerializableEntity>)
    requires
        selection_consistent(s, sel),
        store_wf(s),
    ensures
        selection_consistent(cleared(s, sel) + loaded_slots(rs), None),
        store_wf(cleared(s, sel) + loaded_slots(rs)),
        cleared(s, sel).len() == s.len(),
{
    lemma_deselect(s, sel);
    let d = flagged(s, sel, false);
    lemma_without_roles_wf(d);
    lemma_loaded_wf(without_roles(d), rs);
    let t = cleared(s, sel) + loaded_slots(rs);
    assert forall|i: int| 0 <= i < t.len() && #[trigger] t[i].is_some() implies !t[i].unwrap().selected by {
        if i < s.len() {
            assert(d[i].is_some());
        }
    }
}

/// The store with the entity at `r` moved to (x, y) in the plane.
pub open spec fn moved(s: Seq<Option<EntityData>>, r: EntityRef, x: i64, y: i64) -> Seq<
    Option<EntityData>,
> {
    match entity_at(s, r) {
        Some(e) => replaced(
            s,
            r,
            EntityData { transform: SerializableTransform { x, y, ..e.transform }, ..e },
        ),
        None => s,
    }
}

pub proof fn lemma_despawn_consistent(s: Seq<Option<EntityData>>, sel: Option<EntityRef>, r: EntityRef)
    requires
        selection_consistent(s, sel),
        store_wf(s),
    ensures
        selection_consistent(despawned(s, r), unless(sel, r)),
        store_wf(despawned(s, r)),
{
    let t = despawned(s, r);
    assert forall|i: int| 0 <= i < t.len() && #[trigger] t[i].is_some() implies (t[i].unwrap().selected
        <==> (unless(sel, r).is_some() && unless(sel, r).unwrap().index == i)) by {
        assert(s[i].is_some());
    }
    assert forall|i: int| 0 <= i < t.len() && #[trigger] t[i].is_some() implies crate::components::complete(
        t[i].unwrap(),
    ) by {
        assert(s[i].is_some());
    }
}

/// Replacing an entity by a complete one with the same marker keeps the
/// store well formed and the selection consistent; when its kind and id stay
/// too, sound ids stay sound.
pub proof fn lemma_replace_consistent(
    s: Seq<Option<EntityData>>,
    sel: Option<EntityRef>,
    r: EntityRef,
    e: EntityData,
)
    requires
        selection_consistent(s, sel),
        store_wf(s),
        alive(s, r) ==> e.selected == s[r.index as int].unwrap().selected,
        alive(s, r) ==> crate::components::complete(e),
    ensures
        selection_consistent(replaced(s, r, e), sel),
        store_wf(replaced(s, r, e)),
        forall|n: u64|
            alive(s, r) && e.kind == s[r.index as int].unwrap().kind && e.id == s[r.index as int].unwrap().id
                && #[trigger] ids_ok(s, n) ==> ids_ok(replaced(s, r, e), n),
{
    assert forall|n: u64|
        alive(s, r) && e.kind == s[r.index as int].unwrap().kind && e.id == s[r.index as int].unwrap().id
            && #[trigger] ids_ok(s, n) implies ids_ok(replaced(s, r, e), n) by {
        lemma_same_ids(s, replaced(s, r, e), n);
    }
    let t = replaced(s, r, e);
    assert forall|i: int| 0 <= i < t.len() && #[trigger] t[i].is_some() implies (t[i].unwrap().selected
        <==> (sel.is_some() && sel.unwrap().index == i)) by {
        assert(s[i].is_some());
    }
    assert forall|i: int| 0 <= i < t.len() && #[trigger] t[i].is_some() implies crate::components::complete(
        t[i].unwrap(),
    ) by {
        assert(s[i].is_some());
    }
}

/// A selection that went stale leaves no live entity marked.
pub proof fn lemma_revalidate_consistent(s: Seq<Option<EntityData>>, sel: Option<EntityRef>)
    requires
        selection_consistent(s, sel),
    ensures
        selection_consistent(s, live_ref(s, sel)),
{
    assert forall|i: int| 0 <= i < s.len() && #[trigger] s[i].is_some() implies (s[i].unwrap().selected
        <==> (live_ref(s, sel).is_some() && live_ref(s, sel).unwrap().index == i)) by {
    }
}

impl Editor {
    pub open spec fn wf(&self) -> bool {
        &&& store_wf(self.world@)
        &&& selection_consistent(self.world@, self.selected_entity.entity)
        &&& in_range(self.world@, self.selected_entity.entity)
        &&& in_range(self.world@, self.drag_state.dragging)
        &&& in_range(self.world@, self.camera.following_entity)
        &&& ids_ok(self.world@, self.scene_manager.next_id)
        &&& self.scene_state.saved_scene_data.is_some() == (self.game_state.mode
            != PlayMode::Editing)
        &&& match self.scene_state.saved_scene_data {
            Some(s) => all_normalized(s.entities@) && doc_ids_ok(s.entities@, s.metadata.next_id),
            None => true,
        }
    }

    /// Everything but the store, the selection and the drag state is as in `o`.
    pub open spec fn same_controllers(&self, o: &Editor) -> bool {
        &&& self.camera == o.camera
        &&& self.scene_manager == o.scene_manager
        &&& self.game_state == o.game_state
        &&& self.scene_state == o.scene_state
        &&& self.shooting_stats == o.shooting_stats
    }

    /// An empty scene in edit mode.
    pub fn new() -> (e: Editor)
        ensures
            e.wf(),
            e.world@.len() == 0,
            e.selected_entity.entity.is_none(),
            e.drag_state.dragging.is_none(),
            e.scene_manager.next_id == 0,
            e.game_state.mode == PlayMode::Editing,
            e.camera == initial_camera(),
    {
        Editor {
            world: World::new(),
            selected_entity: SelectedEntity { entity: None },
            drag_state: DragState { dragging: None, drag_offset_x: 0, drag_offset_y: 0 },
            camera: CameraController::new(),
            scene_manager: SceneManager {
                next_id: 0,
                save_path: String::from_str("scenes/default_scene.ron"),
            },
            game_state: GameState { mode: PlayMode::Editing, debug_mode: false },
            scene_state: EditorSceneState { saved_scene_data: None },
            shooting_stats: ShootingStats { shots_fired: 0, hits: 0 },
        }
    }
    /// Sets the selected marker of `o`'s entity, if it is live.
    fn mark(&mut self, o: Option<EntityRef>, b: bool)
        ensures
            final(self).world@ == flagged(old(self).world@, o, b),
            ids_ok(old(self).world@, old(self).scene_manager.next_id) ==> ids_ok(
                final(self).world@,
                final(self).scene_manager.next_id,
            ),
            final(self).selected_entity == old(self).selected_entity,
            final(self).drag_state == old(self).drag_state,
            final(self).same_controllers(old(self)),
    {
        proof {
            let t = flagged(self.world@, o, b);
            if ids_ok(self.world@, self.scene_manager.next_id) {
                lemma_same_ids(self.world@, t, self.scene_manager.next_id);
            }
        }
        match o {
            Some(r) => {
                let n = match self.world.get(r) {
                    Some(e) => {
                        let mut n = e.duplicate();
                        n.selected = b;
                        Some(n)
                    },
                    None => None,
                };
                match n {
                    Some(n) => self.world.replace(r, n),
                    None => {},
                }
            },
            None => {},
        }
    }

    /// Clears the selection and its marker.
    pub fn deselect(&mut self)
        requires
            old(self).wf(),
        ensures
            final(self).wf(),
            final(self).world@ == flagged(old(self).world@, old(self).selected_entity.entity, false),
            final(self).selected_entity.entity.is_none(),
            final(self).drag_state == old(self).drag_state,
            final(self).same_controllers(old(self)),
    {
        proof {
            lemma_deselect(self.world@, self.selected_entity.entity);
        }
        let sel = self.selected_entity.entity;
        self.mark(sel, false);
        self.selected_entity.entity = None;
    }

    /// Selects the live entity `r`, replacing any previous selection; a dead
    /// reference changes nothing.
    pub fn select_entity(&mut self, r: EntityRef)
        requires
            old(self).wf(),
        ensures
            final(self).wf(),
            final(self).drag_state == old(self).drag_state,
            final(self).same_controllers(old(self)),
            alive(old(self).world@, r) ==> {
                &&& final(self).world@ == flagged(
                    flagged(old(self).world@, old(self).selected_entity.entity, false),
                    Some(r),
                    true,
                )
                &&& final(self).selected_entity.entity == Some(r)
                &&& forall|i: int|
                    0 <= i < final(self).world@.len() && #[trigger] final(self).world@[i].is_some()
                        ==> (final(self).world@[i].unwrap().selected <==> i == r.index)
            },
            !alive(old(self).world@, r) ==> final(self).world@ == old(self).world@
                && final(self).selected_entity == old(self).selected_entity,
    {
        if self.world.is_alive(r) {
            self.deselect();
            proof {
                lemma_select(self.world@, r);
            }
            self.mark(Some(r), true);
            self.selected_entity.entity = Some(r);
        }
    }

    /// Despawns `r` and clears every controller reference to it: selection,
    /// drag target and camera follow target. A dead reference is a no-op.
    pub fn delete_entity(&mut self, r: EntityRef)
        requires
            old(self).wf(),
        ensures
            final(self).wf(),
            final(self).world@ == despawned(old(self).world@, r),
            final(self).selected_entity.entity == unless(old(self).selected_entity.entity, r),
            final(self).drag_state == (DragState {
                dragging: unless(old(self).drag_state.dragging, r),
                ..old(self).drag_state
            }),
            final(self).camera == (CameraController {
                following_entity: unless(old(self).camera.following_entity, r),
                ..old(self).camera
            }),
            final(self).scene_manager == old(self).scene_manager,
            final(self).game_state == old(self).game_state,
            final(self).scene_state == old(self).scene_state,
            final(self).shooting_stats == old(self).shooting_stats,
    {
        proof {
            lemma_despawn_consistent(self.world@, self.selected_entity.entity, r);
            lemma_despawned_ids(self.world@, r, self.scene_manager.next_id);
        }
        self.world.despawn(r);
        if self.selected_entity.entity == Some(r) {
            self.selected_entity.entity = None;
        }
        if self.drag_state.dragging == Some(r) {
            self.drag_state.dragging = None;
        }
        if self.camera.following_entity == Some(r) {
            self.camera.following_entity = None;
        }
    }

    /// Clears every controller reference whose entity is no longer live.
    pub fn revalidate(&mut self)
        requires
            old(self).wf(),
        ensures
            final(self).wf(),
            final(self).world@ == old(self).world@,
            final(self).selected_entity.entity == live_ref(
                old(self).world@,
                old(self).selected_entity.entity,
            ),
            final(self).drag_state == (DragState {
                dragging: live_ref(old(self).world@, old(self).drag_state.dragging),
                ..old(self).drag_state
            }),
            final(self).camera == (CameraController {
                following_entity: live_ref(old(self).world@, old(self).camera.following_entity),
                ..old(self).camera
            }),
            final(self).scene_manager == old(self).scene_manager,
            final(self).game_state == old(self).game_state,
            final(self).scene_state == old(self).scene_state,
            final(self).shooting_stats == old(self).shooting_stats,
    {
        proof {
            lemma_revalidate_consistent(self.world@, self.selected_entity.entity);
        }
        match self.selected_entity.entity {
            Some(r) => if !self.world.is_alive(r) {
                self.selected_entity.entity = None;
            },
            None => {},
        }
        match self.drag_state.dragging {
            Some(r) => if !self.world.is_alive(r) {
                self.drag_state.dragging = None;
            },
            None => {},
        }
        match self.camera.following_entity {
            Some(r) => if !self.world.is_alive(r) {
                self.camera.following_entity = None;
            },
            None => {},
        }
    }
    /// Empties the scene: despawns every role-bearing entity (editor entities
    /// such as the camera, grid lines and background stay), resets the id
    /// counter and clears selection and drag.
    pub fn new_scene(&mut self)
        requires
            old(self).wf(),
        ensures
            final(self).wf(),
            final(self).world@ == cleared(old(self).world@, old(self).selected_entity.entity),
            final(self).scene_manager.next_id == 0,
            final(self).scene_manager.save_path == old(self).scene_manager.save_path,
            final(self).selected_entity.entity.is_none(),
            final(self).drag_state.dragging.is_none(),
            final(self).camera == old(self).camera,
            final(self).game_state == old(self).game_state,
            final(self).scene_state == old(self).scene_state,
            final(self).shooting_stats == old(self).shooting_stats,
    {
        proof {
            lemma_cleared(self.world@, self.selected_entity.entity, seq![]);
            assert(cleared(self.world@, self.selected_entity.entity) + loaded_slots(seq![]) =~= cleared(
                self.world@,
                self.selected_entity.entity,
            ));
        }
        self.deselect();
        self.world.despawn_roles();
        self.scene_manager.next_id = 0;
        self.drag_state.dragging = None;
    }

    /// Replaces the scene with `doc`, whose ids are known to be sound.
    fn replace_scene(&mut self, doc: &Scene)
        requires
            old(self).wf(),
            old(self).world@.len() + doc.entities@.len() < usize::MAX,
            doc_ids_ok(doc.entities@, doc.metadata.next_id),
        ensures
            final(self).wf(),
            final(self).world@ == cleared(old(self).world@, old(self).selected_entity.entity)
                + loaded_slots(doc.entities@),
            final(self).scene_manager.next_id == doc.metadata.next_id,
            final(self).scene_manager.save_path == old(self).scene_manager.save_path,
            final(self).selected_entity.entity.is_none(),
            final(self).drag_state.dragging.is_none(),
            final(self).camera == old(self).camera,
            final(self).game_state == old(self).game_state,
            final(self).scene_state == old(self).scene_state,
            final(self).shooting_stats == old(self).shooting_stats,
    {
        proof {
            lemma_cleared(self.world@, self.selected_entity.entity, doc.entities@);
            lemma_without_roles_has_none(flagged(self.world@, self.selected_entity.entity, false));
            lemma_loaded_ids(
                cleared(self.world@, self.selected_entity.entity),
                doc.entities@,
                doc.metadata.next_id,
            );
        }
        self.deselect();
        self.world.despawn_roles();
        self.world.spawn_records(&doc.entities);
        self.scene_manager.next_id = doc.metadata.next_id;
        self.drag_state.dragging = None;
    }

    /// Replaces the scene with `doc`: the current role-bearing entities go,
    /// one entity per record is spawned with role defaults for absent
    /// capabilities, and the id counter is taken from the document. A
    /// document whose ids repeat or reach its counter is refused with
    /// `DocumentParse`, and nothing changes.
    pub fn load_document(&mut self, doc: &Scene) -> (r: Result<(), SceneError>)
        requires
            old(self).wf(),
            old(self).world@.len() + doc.entities@.len() < usize::MAX,
        ensures
            final(self).wf(),
            r is Ok <==> doc_ids_ok(doc.entities@, doc.metadata.next_id),
            r is Err ==> r == Err::<(), SceneError>(SceneError::DocumentParse),
            r is Ok ==> {
                &&& final(self).world@ == cleared(old(self).world@, old(self).selected_entity.entity)
                    + loaded_slots(doc.entities@)
                &&& final(self).scene_manager.next_id == doc.metadata.next_id
                &&& final(self).selected_entity.entity.is_none()
                &&& final(self).drag_state.dragging.is_none()
            },
            r is Err ==> {
                &&& final(self).world@ == old(self).world@
                &&& final(self).scene_manager.next_id == old(self).scene_manager.next_id
                &&& final(self).selected_entity == old(self).selected_entity
                &&& final(self).drag_state == old(self).drag_state
            },
            final(self).scene_manager.save_path == old(self).scene_manager.save_path,
            final(self).camera == old(self).camera,
            final(self).game_state == old(self).game_state,
            final(self).scene_state == old(self).scene_state,
            final(self).shooting_stats == old(self).shooting_stats,
    {
        if doc.ids_valid() {
            self.replace_scene(doc);
            Ok(())
        } else {
            Err(SceneError::DocumentParse)
        }
    }

    /// Spawns a fresh entity of role `t` at (x, y) and depth `z` (0 when
    /// absent) with the role's default capabilities and the next scene id.
    pub fn spawn_entity(&mut self, t: EntityType, x: i64, y: i64, z: Option<i64>) -> (r: EntityRef)
        requires
            old(self).wf(),
            old(self).scene_manager.next_id < u64::MAX,
            old(self).world@.len() < usize::MAX,
        ensures
            final(self).wf(),
            r.index == old(self).world@.len(),
            final(self).world@ == old(self).world@.push(
                Some(
                    entity_of_record(
                        fresh_record(
                            t,
                            old(self).scene_manager.next_id,
                            x,
                            y,
                            match z {
                                Some(v) => v,
                                None => 0,
                            },
                        ),
                    ),
                ),
            ),
            final(self).scene_manager.next_id == old(self).scene_manager.next_id + 1,
            final(self).scene_manager.save_path == old(self).scene_manager.save_path,
            final(self).selected_entity == old(self).selected_entity,
            final(self).drag_state == old(self).drag_state,
            final(self).camera == old(self).camera,
            final(self).game_state == old(self).game_state,
            final(self).scene_state == old(self).scene_state,
            final(self).shooting_stats == old(self).shooting_stats,
    {
        let zv: i64 = match z {
            Some(v) => v,
            None => 0,
        };
        let id = self.scene_manager.next_id;
        let rec = SerializableEntity {
            id,
            entity_type: t,
            transform: SerializableTransform::from_xyz(x, y, zv),
            health: match t {
                EntityType::Player => Some((PLAYER_HEALTH, PLAYER_HEALTH)),
                EntityType::Enemy => Some((ENEMY_HEALTH, ENEMY_HEALTH)),
                EntityType::Projectile => None,
            },
            collision_radius: match t {
                EntityType::Player => Some(PLAYER_RADIUS),
                EntityType::Enemy => Some(ENEMY_RADIUS),
                EntityType::Projectile => Some(PROJECTILE_RADIUS),
            },
            velocity: match t {
                EntityType::Projectile => Some((0, PROJECTILE_SPEED)),
                _ => None,
            },
            sprite_asset: None,
        };
        let e = rec.to_entity();
        proof {
            crate::components::lemma_loaded_entity_complete(rec);
            lemma_loaded_wf(self.world@, seq![rec]);
            assert(self.world@ + loaded_slots(seq![rec]) =~= self.world@.push(Some(e)));
        }
        let r = self.world.spawn(e);
        proof {
            let w = self.world@;
            assert forall|i: int| 0 <= i < w.len() && #[trigger] w[i].is_some() implies (
            w[i].unwrap().selected <==> (self.selected_entity.entity.is_some()
                && self.selected_entity.entity.unwrap().index == i)) by {
                if i < w.len() - 1 {
                    assert(w[i] == old(self).world@[i]);
                }
            }
        }
        self.scene_manager.next_id = id + 1;
        r
    }

    /// The scene document for the current store, stamped with `stamp`.
    pub fn to_document(&self, name: String, stamp: String) -> (s: Scene)
        ensures
            s.entities@ == records(self.world@),
            s.metadata.name == name,
            s.metadata.version@ == crate::scene::format_version(),
            s.metadata.created_at == stamp,
            s.metadata.last_modified == stamp,
            s.metadata.next_id == self.scene_manager.next_id,
    {
        Scene::from_world(&self.world, name, stamp, self.scene_manager.next_id)
    }

    /// Starts or resumes play. From editing, the authored scene is
    /// snapshotted first; while playing, nothing changes.
    pub fn play(&mut self)
        requires
            old(self).wf(),
        ensures
            final(self).wf(),
            final(self).game_state.mode == PlayMode::Playing,
            final(self).game_state.debug_mode == old(self).game_state.debug_mode,
            old(self).game_state.mode == PlayMode::Editing ==> ({
                let snap = final(self).scene_state.saved_scene_data;
                &&& snap.is_some()
                &&& snap.unwrap().entities@ == records(old(self).world@)
                &&& snap.unwrap().entities@.len() <= old(self).world@.len()
                &&& snap.unwrap().metadata.next_id == old(self).scene_manager.next_id
            }),
            old(self).game_state.mode != PlayMode::Editing ==> final(self).scene_state
                == old(self).scene_state,
            final(self).world@ == old(self).world@,
            final(self).selected_entity == old(self).selected_entity,
            final(self).drag_state == old(self).drag_state,
            final(self).camera == old(self).camera,
            final(self).scene_manager == old(self).scene_manager,
            final(self).shooting_stats == old(self).shooting_stats,
    {
        match self.game_state.mode {
            PlayMode::Editing => {
                let snap = Scene::capture(
                    &self.world,
                    String::from_str("Play Mode Save"),
                    self.scene_manager.next_id,
                );
                proof {
                    lemma_records_normalized(self.world@);
                    lemma_records_ids(self.world@, self.scene_manager.next_id);
                    crate::world::lemma_records_len(self.world@);
                }
                self.scene_state.saved_scene_data = Some(snap);
                self.game_state.mode = PlayMode::Playing;
            },
            PlayMode::Paused => {
                self.game_state.mode = PlayMode::Playing;
            },
            PlayMode::Playing => {},
        }
    }

    /// Toggles between playing and paused; does nothing while editing.
    pub fn toggle_pause(&mut self)
        requires
            old(self).wf(),
        ensures
            final(self).wf(),
            final(self).game_state.mode == match old(self).game_state.mode {
                PlayMode::Playing => PlayMode::Paused,
                PlayMode::Paused => PlayMode::Playing,
                PlayMode::Editing => PlayMode::Editing,
            },
            final(self).game_state.debug_mode == old(self).game_state.debug_mode,
            final(self).world@ == old(self).world@,
            final(self).selected_entity == old(self).selected_entity,
            final(self).drag_state == old(self).drag_state,
            final(self).camera == old(self).camera,
            final(self).scene_manager == old(self).scene_manager,
            final(self).scene_state == old(self).scene_state,
            final(self).shooting_stats == old(self).shooting_stats,
    {
        match self.game_state.mode {
            PlayMode::Playing => {
                self.game_state.mode = PlayMode::Paused;
            },
            PlayMode::Paused => {
                self.game_state.mode = PlayMode::Playing;
            },
            PlayMode::Editing => {},
        }
    }

    /// Stops play: every current role-bearing entity goes, the snapshot is
    /// replayed (ids and id counter included) and discarded, and editing
    /// resumes. Without a snapshot, that is while editing, nothing changes;
    /// nor when the store could not take the snapshot's slots (more than
    /// `usize` can count), in which case play goes on.
    pub fn stop(&mut self)
        requires
            old(self).wf(),
        ensures
            final(self).wf(),
            final(self).game_state.debug_mode == old(self).game_state.debug_mode,
            match old(self).scene_state.saved_scene_data {
                Some(s) => if old(self).world@.len() + s.entities@.len() < usize::MAX {
                    &&& final(self).game_state.mode == PlayMode::Editing
                    &&& final(self).scene_state.saved_scene_data.is_none()
                    &&& final(self).world@ == cleared(
                        old(self).world@,
                        old(self).selected_entity.entity,
                    ) + loaded_slots(s.entities@)
                    &&& final(self).scene_manager.next_id == s.metadata.next_id
                    &&& final(self).selected_entity.entity.is_none()
                    &&& final(self).drag_state.dragging.is_none()
                } else {
                    &&& final(self).game_state == old(self).game_state
                    &&& final(self).scene_state == old(self).scene_state
                    &&& final(self).world@ == old(self).world@
                    &&& final(self).scene_manager.next_id == old(self).scene_manager.next_id
                    &&& final(self).selected_entity == old(self).selected_entity
                    &&& final(self).drag_state == old(self).drag_state
                },
                None => {
                    &&& final(self).game_state == old(self).game_state
                    &&& final(self).scene_state.saved_scene_data.is_none()
                    &&& final(self).world@ == old(self).world@
                    &&& final(self).scene_manager.next_id == old(self).scene_manager.next_id
                    &&& final(self).selected_entity == old(self).selected_entity
                    &&& final(self).drag_state == old(self).drag_state
                },
            },
            final(self).scene_manager.save_path == old(self).scene_manager.save_path,
            final(self).camera == old(self).camera,
            final(self).shooting_stats == old(self).shooting_stats,
    {
        let fits = match &self.scene_state.saved_scene_data {
            Some(snap) => snap.entities.len() < usize::MAX - self.world.slots.len(),
            None => false,
        };
        if fits {
            let saved = self.scene_state.saved_scene_data.take();
            match saved {
                Some(snap) => {
                    self.game_state.mode = PlayMode::Editing;
                    self.replace_scene(&snap);
                },
                None => {},
            }
        }
    }

    /// The first live entity, in slot order, whose collision square holds
    /// the point (px, py).
    pub fn find_hit(&self, px: i64, py: i64) -> (r: Option<EntityRef>)
        ensures
            match r {
                Some(h) => {
                    &&& hit_at(self.world@, h.index as int, px as int, py as int)
                    &&& forall|j: int| 0 <= j < h.index ==> !hit_at(self.world@, j, px as int, py as int)
                },
                None => forall|j: int| 0 <= j < self.world@.len() ==> !hit_at(self.world@, j, px as int, py as int),
            },
    {
        let mut i: usize = 0;
        while i < self.world.slots.len()
            invariant
                i <= self.world@.len(),
                forall|j: int| 0 <= j < i ==> !hit_at(self.world@, j, px as int, py as int),
            decreases self.world@.len() - i,
        {
            match &self.world.slots[i] {
                Some(e) => match e.collision {
                    Some(c) => {
                        let x = e.transform.x as i128;
                        let y = e.transform.y as i128;
                        let rad = c.radius as i128;
                        if x - rad <= px as i128 && px as i128 <= x + rad && y - rad <= py as i128
                            && py as i128 <= y + rad {
                            return Some(EntityRef { index: i });
                        }
                    },
                    None => {},
                },
                None => {},
            }
            i = i + 1;
        }
        None
    }

    /// Pointer pressed at (px, py): the first entity hit becomes the only
    /// selection and starts a drag with offset = entity position - pointer;
    /// a miss clears selection and drag. Returns the entity hit.
    pub fn pointer_down(&mut self, px: i64, py: i64) -> (r: Option<EntityRef>)
        requires
            old(self).wf(),
        ensures
            final(self).wf(),
            final(self).same_controllers(old(self)),
            match r {
                Some(h) => {
                    let e = old(self).world@[h.index as int].unwrap();
                    &&& hit_at(old(self).world@, h.index as int, px as int, py as int)
                    &&& forall|j: int|
                        0 <= j < h.index ==> !hit_at(old(self).world@, j, px as int, py as int)
                    &&& final(self).world@ == flagged(
                        flagged(old(self).world@, old(self).selected_entity.entity, false),
                        Some(h),
                        true,
                    )
                    &&& final(self).selected_entity.entity == Some(h)
                    &&& final(self).drag_state == (DragState {
                        dragging: Some(h),
                        drag_offset_x: sat(e.transform.x - px),
                        drag_offset_y: sat(e.transform.y - py),
                    })
                },
                None => {
                    &&& forall|j: int|
                        0 <= j < old(self).world@.len() ==> !hit_at(
                            old(self).world@,
                            j,
                            px as int,
                            py as int,
                        )
                    &&& final(self).world@ == flagged(
                        old(self).world@,
                        old(self).selected_entity.entity,
                        false,
                    )
                    &&& final(self).selected_entity.entity.is_none()
                    &&& final(self).drag_state == (DragState {
                        dragging: None,
                        ..old(self).drag_state
                    })
                },
            },
    {
        let hit = self.find_hit(px, py);
        match hit {
            Some(h) => {
                let ex = self.world.slots[h.index].as_ref().unwrap().transform.x;
                let ey = self.world.slots[h.index].as_ref().unwrap().transform.y;
                self.select_entity(h);
                self.drag_state = DragState {
                    dragging: Some(h),
                    drag_offset_x: sat_sub(ex, px),
                    drag_offset_y: sat_sub(ey, py),
                };
            },
            None => {
                self.deselect();
                self.drag_state.dragging = None;
            },
        }
        hit
    }

    /// Pointer moved to (px, py): a live dragged entity is placed at pointer
    /// + offset; a dead drag target is dropped.
    pub fn pointer_move(&mut self, px: i64, py: i64)
        requires
            old(self).wf(),
        ensures
            final(self).wf(),
            final(self).same_controllers(old(self)),
            final(self).selected_entity == old(self).selected_entity,
            match old(self).drag_state.dragging {
                Some(r) => if alive(old(self).world@, r) {
                    &&& final(self).world@ == moved(
                        old(self).world@,
                        r,
                        sat(px + old(self).drag_state.drag_offset_x),
                        sat(py + old(self).drag_state.drag_offset_y),
                    )
                    &&& final(self).drag_state == old(self).drag_state
                } else {
                    &&& final(self).world@ == old(self).world@
                    &&& final(self).drag_state == (DragState {
                        dragging: None,
                        ..old(self).drag_state
                    })
                },
                None => {
                    &&& final(self).world@ == old(self).world@
                    &&& final(self).drag_state == old(self).drag_state
                },
            },
    {
        match self.drag_state.dragging {
            Some(r) => {
                let nx = sat_add(px, self.drag_state.drag_offset_x);
                let ny = sat_add(py, self.drag_state.drag_offset_y);
                let n = match self.world.get(r) {
                    Some(e) => {
                        let mut n = e.duplicate();
                        n.transform.x = nx;
                        n.transform.y = ny;
                        Some(n)
                    },
                    None => None,
                };
                match n {
                    Some(n) => {
                        proof {
                            lemma_replace_consistent(
                                self.world@,
                                self.selected_entity.entity,
                                r,
                                n,
                            );
                        }
                        self.world.replace(r, n);
                    },
                    None => {
                        self.drag_state.dragging = None;
                    },
                }
            },
            None => {},
        }
    }

    /// Pointer released: the drag ends; the selection stays.
    pub fn pointer_up(&mut self)
        requires
            old(self).wf(),
        ensures
            final(self).wf(),
            final(self).world@ == old(self).world@,
            final(self).selected_entity == old(self).selected_entity,
            final(self).drag_state == (DragState { dragging: None, ..old(self).drag_state }),
            final(self).same_controllers(old(self)),
    {
        self.drag_state.dragging = None;
    }

    /// Makes the camera follow the live entity `r`; a dead reference is
    /// ignored.
    pub fn follow(&mut self, r: EntityRef)
        requires
            old(self).wf(),
        ensures
            final(self).wf(),
            final(self).world@ == old(self).world@,
            final(self).camera == if alive(old(self).world@, r) {
                CameraController { following_entity: Some(r), ..old(self).camera }
            } else {
                old(self).camera
            },
            final(self).selected_entity == old(self).selected_entity,
            final(self).drag_state == old(self).drag_state,
            final(self).scene_manager == old(self).scene_manager,
            final(self).game_state == old(self).game_state,
            final(self).scene_state == old(self).scene_state,
            final(self).shooting_stats == old(self).shooting_stats,
    {
        if self.world.is_alive(r) {
            self.camera.following_entity = Some(r);
        }
    }

    /// Pans the camera by (dx, dy), snapping on the next update, and stops
    /// following.
    pub fn pan_camera(&mut self, dx: i64, dy: i64)
        requires
            old(self).wf(),
        ensures
            final(self).wf(),
            final(self).world@ == old(self).world@,
            final(self).camera == (CameraController {
                target_x: sat(old(self).camera.target_x + dx),
                target_y: sat(old(self).camera.target_y + dy),
                instant_movement: true,
                following_entity: None,
                ..old(self).camera
            }),
            final(self).selected_entity == old(self).selected_entity,
            final(self).drag_state == old(self).drag_state,
            final(self).scene_manager == old(self).scene_manager,
            final(self).game_state == old(self).game_state,
            final(self).scene_state == old(self).scene_state,
            final(self).shooting_stats == old(self).shooting_stats,
    {
        self.camera.pan(dx, dy);
    }

    /// One camera tick of `dt_ms` milliseconds: a live followed entity sets
    /// the target, a dead one is dropped, then the camera eases (or snaps).
    pub fn update_camera(&mut self, dt_ms: u64)
        requires
            old(self).wf(),
        ensures
            final(self).wf(),
            final(self).world@ == old(self).world@,
            ({
                let c0 = old(self).camera;
                let c1 = match c0.following_entity {
                    Some(r) => match entity_at(old(self).world@, r) {
                        Some(e) => CameraController {
                            target_x: e.transform.x,
                            target_y: e.transform.y,
                            ..c0
                        },
                        None => CameraController { following_entity: None, ..c0 },
                    },
                    None => c0,
                };
                final(self).camera == c1.stepped(dt_ms)
            }),
            final(self).selected_entity == old(self).selected_entity,
            final(self).drag_state == old(self).drag_state,
            final(self).scene_manager == old(self).scene_manager,
            final(self).game_state == old(self).game_state,
            final(self).scene_state == old(self).scene_state,
            final(self).shooting_stats == old(self).shooting_stats,
    {
        match self.camera.following_entity {
            Some(r) => match self.world.get(r) {
                Some(e) => {
                    self.camera.target_x = e.transform.x;
                    self.camera.target_y = e.transform.y;
                },
                None => {
                    self.camera.following_entity = None;
                },
            },
            None => {},
        }
        self.camera.step(dt_ms);
    }
    /// Deals `amount` damage to a live entity with health. When its health
    /// falls to zero or below it is despawned at once (with its controller
    /// references cleared, as by `delete_entity`) and `true` is returned.
    pub fn damage_entity(&mut self, r: EntityRef, amount: i64) -> (gone: bool)
        requires
            old(self).wf(),
        ensures
            final(self).wf(),
            final(self).scene_manager == old(self).scene_manager,
            final(self).game_state == old(self).game_state,
            final(self).scene_state == old(self).scene_state,
            final(self).shooting_stats == old(self).shooting_stats,
            final(self).world@ == damaged(old(self).world@, r, amount),
            match entity_at(old(self).world@, r) {
                Some(e) => match e.health {
                    Some(h) => if sat(h.current - amount) <= 0 {
                        &&& gone
                        &&& final(self).world@ == despawned(old(self).world@, r)
                        &&& final(self).selected_entity.entity == unless(
                            old(self).selected_entity.entity,
                            r,
                        )
                        &&& final(self).drag_state.dragging == unless(
                            old(self).drag_state.dragging,
                            r,
                        )
                        &&& final(self).camera.following_entity == unless(
                            old(self).camera.following_entity,
                            r,
                        )
                    } else {
                        &&& !gone
                        &&& final(self).world@ == replaced(
                            old(self).world@,
                            r,
                            EntityData {
                                health: Some(Health { current: sat(h.current - amount), ..h }),
                                ..e
                            },
                        )
                        &&& final(self).selected_entity == old(self).selected_entity
                        &&& final(self).drag_state == old(self).drag_state
                        &&& final(self).camera == old(self).camera
                    },
                    None => !gone && final(self).world@ == old(self).world@
                        && final(self).selected_entity == old(self).selected_entity
                        && final(self).drag_state == old(self).drag_state
                        && final(self).camera == old(self).camera,
                },
                None => !gone && final(self).world@ == old(self).world@
                    && final(self).selected_entity == old(self).selected_entity
                    && final(self).drag_state == old(self).drag_state
                    && final(self).camera == old(self).camera,
            },
    {
        let n = match self.world.get(r) {
            Some(e) => match e.health {
                Some(h) => {
                    let left = sat_sub(h.current, amount);
                    if left <= 0 {
                        None
                    } else {
                        let mut n = e.duplicate();
                        n.health = Some(Health { current: left, max: h.max });
                        Some(n)
                    }
                },
                None => {
                    return false;
                },
            },
            None => {
                return false;
            },
        };
        match n {
            Some(n) => {
                proof {
                    lemma_replace_consistent(self.world@, self.selected_entity.entity, r, n);
                }
                self.world.replace(r, n);
                false
            },
            None => {
                self.delete_entity(r);
                true
            },
        }
    }
}

/// Writing a scene to a document and loading that document back into a
/// store with no role-bearing entities reproduces every record exactly:
/// ids, roles, transforms, health pairs, collision shapes, velocities and
/// presentation bindings, in order.
pub proof fn lemma_round_trip(s: Seq<Option<EntityData>>, target: Seq<Option<EntityData>>)
    requires
        store_wf(s),
    ensures
        records(without_roles(target) + loaded_slots(records(s))) == records(s),
{
    lemma_records_normalized(s);
    crate::world::lemma_records_append(without_roles(target), loaded_slots(records(s)));
    crate::world::lemma_records_without_roles(target);
    crate::world::lemma_records_loaded(records(s));
    assert(Seq::<SerializableEntity>::empty() + records(s) =~= records(s));
}

/// Stopping play restores exactly the document taken when play began,
/// whatever the store became in between (entities spawned, despawned,
/// damaged or moved) and whatever was selected.
pub proof fn lemma_play_stop_restores(
    before: Seq<Option<EntityData>>,
    during: Seq<Option<EntityData>>,
    sel: Option<EntityRef>,
)
    requires
        store_wf(before),
    ensures
        records(cleared(during, sel) + loaded_slots(records(before))) == records(before),
{
    lemma_round_trip(before, flagged(during, sel, false));
}

/// In a well-formed session at most one live entity carries the selected
/// marker, and it is the one the selection names.
pub proof fn lemma_selection_exclusive(e: Editor, i: int, j: int)
    requires
        e.wf(),
        0 <= i < e.world@.len(),
        0 <= j < e.world@.len(),
        e.world@[i].is_some() && e.world@[i].unwrap().selected,
        e.world@[j].is_some() && e.world@[j].unwrap().selected,
    ensures
        i == j,
        e.selected_entity.entity == Some(EntityRef { index: i as usize }),
{
}

/// A reference to a despawned entity is cleared by the next liveness check;
/// this holds alike for the selection, the drag target and the camera's
/// follow target, which are all checked with `live_ref`.
pub proof fn lemma_despawned_reference_cleared(s: Seq<Option<EntityData>>, r: EntityRef)
    ensures
        live_ref(despawned(s, r), Some(r)) == None::<EntityRef>,
{
}

/// Emptying the scene removes every role-bearing entity and keeps every
/// other live entity (camera, grid lines, background) with its kind.
pub proof fn lemma_new_scene_scope(s: Seq<Option<EntityData>>, sel: Option<EntityRef>, i: int)
    requires
        0 <= i < s.len(),
    ensures
        cleared(s, sel).len() == s.len(),
        is_role_slot(s[i]) ==> cleared(s, sel)[i].is_none(),
        s[i].is_some() && !is_role_slot(s[i]) ==> cleared(s, sel)[i].is_some() && cleared(
            s,
            sel,
        )[i].unwrap().kind == s[i].unwrap().kind,
{
    let d = flagged(s, sel, false);
    assert(d[i].is_some() == s[i].is_some());
    if d[i].is_some() {
        assert(d[i].unwrap().kind == s[i].unwrap().kind);
    }
}


impl Editor {
    /// Spawns an editor entity (camera, grid line or background image) at
    /// (x, y, z). Editor entities carry no capabilities and never enter a
    /// scene document; their id is 0.
    pub fn spawn_editor_entity(&mut self, kind: EntityKind, x: i64, y: i64, z: i64) -> (r: EntityRef)
        requires
            old(self).wf(),
            old(self).world@.len() < usize::MAX,
            role_of(kind).is_none(),
        ensures
            final(self).wf(),
            r.index == old(self).world@.len(),
            final(self).world@ == old(self).world@.push(Some(editor_entity(kind, x, y, z))),
            final(self).selected_entity == old(self).selected_entity,
            final(self).drag_state == old(self).drag_state,
            final(self).same_controllers(old(self)),
    {
        let e = EntityData {
            kind,
            id: 0,
            transform: SerializableTransform::from_xyz(x, y, z),
            health: None,
            collision: None,
            shooting: None,
            projectile: None,
            sprite: None,
            selected: false,
        };
        let r = self.world.spawn(e);
        proof {
            let w = self.world@;
            assert forall|i: int| 0 <= i < w.len() && #[trigger] w[i].is_some() implies (
            w[i].unwrap().selected <==> (self.selected_entity.entity.is_some()
                && self.selected_entity.entity.unwrap().index == i)) && complete(w[i].unwrap()) by {
                if i < w.len() - 1 {
                    assert(w[i] == old(self).world@[i]);
                }
            }
        }
        r
    }

    /// The starting scene: a camera, a player at the origin and a row of
    /// five enemies at ((k - 2) * 150, 200) for k in 0..5.
    pub fn setup_engine(&mut self)
        requires
            old(self).wf(),
            old(self).world@.len() + 7 < usize::MAX,
            old(self).scene_manager.next_id + 6 < u64::MAX,
        ensures
            final(self).wf(),
            final(self).world@.len() == old(self).world@.len() + 7,
            forall|i: int| 0 <= i < old(self).world@.len() ==> final(self).world@[i] == old(self).world@[i],
            ({
                let n = old(self).world@.len() as int;
                let id0 = old(self).scene_manager.next_id;
                &&& final(self).world@[n] == Some(editor_entity(EntityKind::Camera, 0, 0, 0))
                &&& final(self).world@[n + 1] == Some(
                    entity_of_record(fresh_record(EntityType::Player, id0, 0, 0, 0)),
                )
                &&& forall|k: int|
                    0 <= k < 5 ==> #[trigger] final(self).world@[n + 2 + k] == Some(
                        entity_of_record(
                            fresh_record(
                                EntityType::Enemy,
                                (id0 + 1 + k) as u64,
                                ((k - 2) * 150) as i64,
                                200,
                                0,
                            ),
                        ),
                    )
            }),
            final(self).scene_manager.next_id == old(self).scene_manager.next_id + 6,
            final(self).selected_entity == old(self).selected_entity,
            final(self).drag_state == old(self).drag_state,
            final(self).camera == old(self).camera,
            final(self).game_state == old(self).game_state,
            final(self).scene_state == old(self).scene_state,
            final(self).shooting_stats == old(self).shooting_stats,
    {
        let ghost n = self.world@.len() as int;
        let ghost id0 = self.scene_manager.next_id;
        let ghost w0 = self.world@;
        self.spawn_editor_entity(EntityKind::Camera, 0, 0, 0);
        self.spawn_entity(EntityType::Player, 0, 0, Some(0));
        let mut k: i64 = 0;
        while k < 5
            invariant
                0 <= k <= 5,
                0 <= n,
                self.wf(),
                self.world@.len() == n + 2 + k,
                self.scene_manager.next_id == id0 + 1 + k,
                id0 + 6 < u64::MAX,
                n + 7 < usize::MAX,
                forall|i: int| 0 <= i < n ==> self.world@[i] == w0[i],
                self.world@[n] == Some(editor_entity(EntityKind::Camera, 0, 0, 0)),
                self.world@[n + 1] == Some(
                    entity_of_record(fresh_record(EntityType::Player, id0, 0, 0, 0)),
                ),
                forall|j: int|
                    0 <= j < k ==> #[trigger] self.world@[n + 2 + j] == Some(
                        entity_of_record(
                            fresh_record(
                                EntityType::Enemy,
                                (id0 + 1 + j) as u64,
                                ((j - 2) * 150) as i64,
                                200,
                                0,
                            ),
                        ),
                    ),
                self.selected_entity == old(self).selected_entity,
                self.drag_state == old(self).drag_state,
                self.camera == old(self).camera,
                self.game_state == old(self).game_state,
                self.scene_state == old(self).scene_state,
                self.shooting_stats == old(self).shooting_stats,
            decreases 5 - k,
        {
            let ghost w1 = self.world@;
            self.spawn_entity(EntityType::Enemy, (k - 2) * 150, 200, Some(0));
            proof {
                let x = self.world@.last();
                assert(self.world@ =~= w1.push(x));
                assert(w1.push(x)[n] == w1[n]);
                assert(w1.push(x)[n + 1] == w1[n + 1]);
                assert forall|i: int| 0 <= i < n + 2 + k implies #[trigger] self.world@[i] == w1[i] by {
                    assert(w1.push(x)[i] == w1[i]);
                }
            }
            k = k + 1;
        }
    }
}


impl Editor {
    /// Spawns the entity that `rec` describes, with role defaults for absent
    /// capabilities. The id counter is not touched.
    pub fn spawn_entity_from_data(&mut self, rec: &SerializableEntity) -> (r: EntityRef)
        requires
            old(self).wf(),
            old(self).world@.len() < usize::MAX,
            rec.id < old(self).scene_manager.next_id,
            forall|i: int|
                0 <= i < old(self).world@.len() && #[trigger] is_role_slot(old(self).world@[i])
                    ==> old(self).world@[i].unwrap().id != rec.id,
        ensures
            final(self).wf(),
            r.index == old(self).world@.len(),
            final(self).world@ == old(self).world@.push(Some(entity_of_record(*rec))),
            final(self).selected_entity == old(self).selected_entity,
            final(self).drag_state == old(self).drag_state,
            final(self).same_controllers(old(self)),
    {
        let e = rec.to_entity();
        proof {
            crate::components::lemma_loaded_entity_complete(*rec);
            lemma_push_ids(self.world@, e, self.scene_manager.next_id);
        }
        let r = self.world.spawn(e);
        proof {
            let w = self.world@;
            assert forall|i: int| 0 <= i < w.len() && #[trigger] w[i].is_some() implies (
            w[i].unwrap().selected <==> (self.selected_entity.entity.is_some()
                && self.selected_entity.entity.unwrap().index == i)) && complete(w[i].unwrap()) by {
                if i < w.len() - 1 {
                    assert(w[i] == old(self).world@[i]);
                }
            }
        }
        r
    }
}


impl Editor {
    /// Sets the transform of a live entity (an inspector edit).
    pub fn set_entity_transform(&mut self, r: EntityRef, t: SerializableTransform)
        requires
            old(self).wf(),
        ensures
            final(self).wf(),
            final(self).world@ == match entity_at(old(self).world@, r) {
                Some(e) => replaced(old(self).world@, r, EntityData { transform: t, ..e }),
                None => old(self).world@,
            },
            final(self).selected_entity == old(self).selected_entity,
            final(self).drag_state == old(self).drag_state,
            final(self).same_controllers(old(self)),
    {
        proof {
            match entity_at(self.world@, r) {
                Some(e) => lemma_replace_consistent(
                    self.world@,
                    self.selected_entity.entity,
                    r,
                    EntityData { transform: t, ..e },
                ),
                None => {},
            }
        }
        self.world.set_transform(r, t);
    }

    /// Sets the health of a live entity that has health (an inspector edit).
    /// Health at or below zero removes the entity at once, with its
    /// controller references, as `damage_entity` does.
    pub fn set_entity_health(&mut self, r: EntityRef, h: Health)
        requires
            old(self).wf(),
        ensures
            final(self).wf(),
            match entity_at(old(self).world@, r) {
                Some(e) => if e.health.is_some() && h.current <= 0 {
                    &&& final(self).world@ == despawned(old(self).world@, r)
                    &&& final(self).selected_entity.entity == unless(
                        old(self).selected_entity.entity,
                        r,
                    )
                    &&& final(self).drag_state.dragging == unless(old(self).drag_state.dragging, r)
                    &&& final(self).camera.following_entity == unless(
                        old(self).camera.following_entity,
                        r,
                    )
                } else if e.health.is_some() {
                    &&& final(self).world@ == replaced(
                        old(self).world@,
                        r,
                        EntityData { health: Some(h), ..e },
                    )
                    &&& final(self).selected_entity == old(self).selected_entity
                    &&& final(self).drag_state == old(self).drag_state
                    &&& final(self).camera == old(self).camera
                } else {
                    &&& final(self).world@ == old(self).world@
                    &&& final(self).selected_entity == old(self).selected_entity
                    &&& final(self).drag_state == old(self).drag_state
                    &&& final(self).camera == old(self).camera
                },
                None => {
                    &&& final(self).world@ == old(self).world@
                    &&& final(self).selected_entity == old(self).selected_entity
                    &&& final(self).drag_state == old(self).drag_state
                    &&& final(self).camera == old(self).camera
                },
            },
            final(self).scene_manager == old(self).scene_manager,
            final(self).game_state == old(self).game_state,
            final(self).scene_state == old(self).scene_state,
            final(self).shooting_stats == old(self).shooting_stats,
    {
        let has_health = match self.world.get(r) {
            Some(e) => e.health.is_some(),
            None => false,
        };
        if !has_health {
            return;
        }
        if h.current <= 0 {
            self.delete_entity(r);
            return;
        }
        proof {
            let e = entity_at(self.world@, r).unwrap();
            lemma_replace_consistent(
                self.world@,
                self.selected_entity.entity,
                r,
                EntityData { health: Some(h), ..e },
            );
        }
        self.world.set_health(r, h);
    }

    /// Binds the image at `path` (white tint, unit scale) to the selected
    /// entity. Returns whether a live entity was selected.
    pub fn apply_asset_to_selected(&mut self, path: String) -> (applied: bool)
        requires
            old(self).wf(),
        ensures
            final(self).wf(),
            applied == (old(self).selected_entity.entity is Some && alive(
                old(self).world@,
                old(self).selected_entity.entity.unwrap(),
            )),
            applied ==> ({
                let r = old(self).selected_entity.entity.unwrap();
                let e = old(self).world@[r.index as int].unwrap();
                let sp = final(self).world@[r.index as int].unwrap().sprite.unwrap();
                &&& final(self).world@ == replaced(
                    old(self).world@,
                    r,
                    EntityData { sprite: Some(sp), ..e },
                )
                &&& sp.asset_path == Some(path)
                &&& sp.tint_color@ == seq![1000i64, 1000, 1000, 1000]
                &&& sp.scale@ == seq![1000i64, 1000]
            }),
            !applied ==> final(self).world@ == old(self).world@,
            final(self).selected_entity == old(self).selected_entity,
            final(self).drag_state == old(self).drag_state,
            final(self).same_controllers(old(self)),
    {
        match self.selected_entity.entity {
            Some(r) => {
                let n = match self.world.get(r) {
                    Some(e) => {
                        let mut n = e.duplicate();
                        n.sprite = Some(SpriteAsset::new(Some(path)));
                        Some(n)
                    },
                    None => None,
                };
                match n {
                    Some(n) => {
                        proof {
                            lemma_replace_consistent(
                                self.world@,
                                self.selected_entity.entity,
                                r,
                                n,
                            );
                        }
                        self.world.replace(r, n);
                        true
                    },
                    None => false,
                }
            },
            None => false,
        }
    }

    /// Turns the debug overlay on or off.
    pub fn toggle_debug_mode(&mut self)
        requires
            old(self).wf(),
        ensures
            final(self).wf(),
            final(self).game_state == (GameState {
                debug_mode: !old(self).game_state.debug_mode,
                ..old(self).game_state
            }),
            final(self).world@ == old(self).world@,
            final(self).selected_entity == old(self).selected_entity,
            final(self).drag_state == old(self).drag_state,
            final(self).camera == old(self).camera,
            final(self).scene_manager == old(self).scene_manager,
            final(self).scene_state == old(self).scene_state,
            final(self).shooting_stats == old(self).shooting_stats,
    {
        self.game_state.debug_mode = !self.game_state.debug_mode;
    }
}

} // verus!
