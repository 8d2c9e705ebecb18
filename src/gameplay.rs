//! Gameplay systems: movement, shooting, cooldowns, projectile flight,
//! collisions and the play-area boundary. Each of these runs only while
//! playing (not paused, not editing) and otherwise changes nothing at all;
//! projectile cleanup, like liveness checks, runs in any mode.
use vstd::prelude::*;

use crate::camera::{clamp_int, sat, sat_add};
use crate::components::{
    complete, entity_of_record, EntityData, EntityKind, EntityType, SerializableEntity,
    SerializableTransform, Shooting, PROJECTILE_RADIUS,
};
use crate::editor::{damaged, selection_consistent, Editor, PlayMode, ShootingStats};
use crate::world::{
    despawned, entity_at, ids_ok, is_role_slot, lemma_same_ids, replaced, store_wf, EntityRef,
};

verus! {

/// Player speed along one axis, in world units per second.
pub const PLAYER_SPEED: i64 = 200;
/// Player speed along each axis when moving diagonally (200 / sqrt 2).
pub const PLAYER_DIAGONAL_SPEED: i64 = 141;
/// Half-width of the square play area that colliding entities are kept in.
pub const BOUNDARY: i64 = 400;

/// Directional keys held during a tick.
#[derive(Debug, Clone, Copy, PartialEq, Eq, Structural)]
pub struct MoveInput {
    pub up: bool,
    pub down: bool,
    pub left: bool,
    pub right: bool,
}

/// Movement along one axis: +1, -1 or 0 when both or neither key is held.
pub open spec fn axis(pos: bool, neg: bool) -> int {
    if pos && !neg {
        1
    } else if neg && !pos {
        -1
    } else {
        0
    }
}

/// `step` in the direction of the axis.
pub open spec fn offset(pos: bool, neg: bool, step: int) -> int {
    if pos && !neg {
        step
    } else if neg && !pos {
        -step
    } else {
        0
    }
}

/// Distance covered along each moving axis in `dt_ms` milliseconds.
pub open spec fn player_step(input: MoveInput, dt_ms: int) -> int {
    let dx = axis(input.right, input.left);
    let dy = axis(input.up, input.down);
    if dx != 0 && dy != 0 {
        PLAYER_DIAGONAL_SPEED * dt_ms / 1000
    } else {
        PLAYER_SPEED * dt_ms / 1000
    }
}

/// `a / b` rounded toward zero.
pub open spec fn div_trunc(a: int, b: int) -> int {
    if a >= 0 {
        a / b
    } else {
        -((-a) / b)
    }
}

/// Both shapes have the same kind, marker and set of capabilities.
pub open spec fn same_shape(a: EntityData, b: EntityData) -> bool {
    &&& a.kind == b.kind
    &&& a.id == b.id
    &&& a.selected == b.selected
    &&& a.health.is_some() == b.health.is_some()
    &&& a.collision.is_some() == b.collision.is_some()
    &&& a.shooting.is_some() == b.shooting.is_some()
    &&& a.projectile.is_some() == b.projectile.is_some()
}

pub open spec fn with_xy(e: EntityData, x: i64, y: i64) -> EntityData {
    EntityData { transform: SerializableTransform { x, y, ..e.transform }, ..e }
}

pub open spec fn walked(e: EntityData, input: MoveInput, dt_ms: int) -> EntityData {
    if e.kind == EntityKind::Player {
        let step = player_step(input, dt_ms);
        with_xy(
            e,
            sat(e.transform.x + offset(input.right, input.left, step)),
            sat(e.transform.y + offset(input.up, input.down, step)),
        )
    } else {
        e
    }
}

pub open spec fn cooled(e: EntityData, dt_ms: int) -> EntityData {
    match e.shooting {
        Some(sh) => if sh.cooldown > 0 {
            EntityData { shooting: Some(Shooting { cooldown: sat(sh.cooldown - dt_ms), ..sh }), ..e }
        } else {
            e
        },
        None => e,
    }
}

pub open spec fn flown(e: EntityData, dt_ms: int) -> EntityData {
    match e.projectile {
        Some(p) => with_xy(
            e,
            sat(e.transform.x + sat(div_trunc(p.velocity_x * dt_ms, 1000))),
            sat(e.transform.y + sat(div_trunc(p.velocity_y * dt_ms, 1000))),
        ),
        None => e,
    }
}

pub open spec fn bounded(e: EntityData) -> EntityData {
    if e.collision.is_some() {
        with_xy(
            e,
            clamp_int(e.transform.x as int, -BOUNDARY as int, BOUNDARY as int) as i64,
            clamp_int(e.transform.y as int, -BOUNDARY as int, BOUNDARY as int) as i64,
        )
    } else {
        e
    }
}

pub open spec fn walked_all(s: Seq<Option<EntityData>>, input: MoveInput, dt_ms: int) -> Seq<
    Option<EntityData>,
> {
    s.map_values(
        |o: Option<EntityData>|
            match o {
                Some(e) => Some(walked(e, input, dt_ms)),
                None => None,
            },
    )
}

pub open spec fn cooled_all(s: Seq<Option<EntityData>>, dt_ms: int) -> Seq<Option<EntityData>> {
    s.map_values(
        |o: Option<EntityData>|
            match o {
                Some(e) => Some(cooled(e, dt_ms)),
                None => None,
            },
    )
}

pub open spec fn flown_all(s: Seq<Option<EntityData>>, dt_ms: int) -> Seq<Option<EntityData>> {
    s.map_values(
        |o: Option<EntityData>|
            match o {
                Some(e) => Some(flown(e, dt_ms)),
                None => None,
            },
    )
}

pub open spec fn bounded_all(s: Seq<Option<EntityData>>) -> Seq<Option<EntityData>> {
    s.map_values(
        |o: Option<EntityData>|
            match o {
                Some(e) => Some(bounded(e)),
                None => None,
            },
    )
}


/// Height above the shooter at which a projectile appears.
pub const SHOT_OFFSET: i64 = 30;
/// Damage one projectile deals.
pub const HIT_DAMAGE: i64 = 25;
/// Projectiles farther than this from the origin on either axis are removed.
pub const CLEANUP_LIMIT: i64 = 1000;

/// The record of a projectile fired by shooter `e`, with id `id`.
pub open spec fn shot_record(id: u64, e: EntityData, sh: Shooting) -> SerializableEntity {
    SerializableEntity {
        id,
        entity_type: EntityType::Projectile,
        transform: SerializableTransform {
            x: e.transform.x,
            y: sat(e.transform.y + SHOT_OFFSET),
            z: e.transform.z,
            rotation: 0,
            scale_x: 1000,
            scale_y: 1000,
        },
        health: None,
        collision_radius: Some(PROJECTILE_RADIUS),
        velocity: Some((0, sh.speed)),
        sprite_asset: None,
    }
}

/// The entity at `r` is a player whose shooter is ready.
pub open spec fn can_fire(s: Seq<Option<EntityData>>, r: EntityRef) -> bool {
    match entity_at(s, r) {
        Some(e) => e.kind == EntityKind::Player && match e.shooting {
            Some(sh) => sh.cooldown <= 0,
            None => false,
        },
        None => false,
    }
}

pub open spec fn bump(n: u64) -> u64 {
    if n < u64::MAX {
        (n + 1) as u64
    } else {
        n
    }
}



/// One shooter's turn in a volley, on (store, id counter, shots fired): the
/// player in slot `i` fires if it is ready and an id and a slot are left
/// (see `shoot`); otherwise nothing changes.
pub open spec fn shot_step(st: (Seq<Option<EntityData>>, u64, u64), i: int) -> (
    Seq<Option<EntityData>>,
    u64,
    u64,
) {
    let w = st.0;
    let n = st.1;
    let r = EntityRef { index: i as usize };
    if can_fire(w, r) && n < u64::MAX && w.len() + 1 < usize::MAX {
        let e = w[i].unwrap();
        let sh = e.shooting.unwrap();
        (
            replaced(
                w,
                r,
                EntityData { shooting: Some(Shooting { cooldown: sh.max_cooldown, ..sh }), ..e },
            ).push(Some(entity_of_record(shot_record(n, e, sh)))),
            (n + 1) as u64,
            bump(st.2),
        )
    } else {
        st
    }
}

/// The turns of the shooters in slots `0..k`, in slot order.
pub open spec fn volley(s: Seq<Option<EntityData>>, next_id: u64, shots: u64, k: nat) -> (
    Seq<Option<EntityData>>,
    u64,
    u64,
)
    decreases k,
{
    if k == 0 {
        (s, next_id, shots)
    } else {
        shot_step(volley(s, next_id, shots, (k - 1) as nat), k - 1)
    }
}

/// `b` keeps `a`'s slots with their kind and position, and every slot it
/// adds holds a projectile.
pub open spec fn grew_by_projectiles(a: Seq<Option<EntityData>>, b: Seq<Option<EntityData>>) -> bool {
    &&& a.len() <= b.len()
    &&& forall|i: int|
        0 <= i < a.len() ==> (#[trigger] b[i]).is_some() == a[i].is_some() && (b[i].is_some() ==> {
            &&& b[i].unwrap().kind == a[i].unwrap().kind
            &&& b[i].unwrap().transform == a[i].unwrap().transform
        })
    &&& forall|i: int|
        a.len() <= i < b.len() ==> (#[trigger] b[i]).is_some() && b[i].unwrap().kind
            == EntityKind::Projectile
}


pub open spec fn abs_int(v: int) -> int {
    if v < 0 {
        -v
    } else {
        v
    }
}

/// The collision squares of `a` and `b` overlap (touching edges do not).
pub open spec fn overlaps(a: EntityData, b: EntityData) -> bool {
    match (a.collision, b.collision) {
        (Some(ca), Some(cb)) => {
            &&& abs_int(a.transform.x - b.transform.x) < ca.radius + cb.radius
            &&& abs_int(a.transform.y - b.transform.y) < ca.radius + cb.radius
        },
        _ => false,
    }
}

pub open spec fn projectile_at(s: Seq<Option<EntityData>>, i: int) -> bool {
    0 <= i < s.len() && s[i].is_some() && s[i].unwrap().kind == EntityKind::Projectile
}

/// Slot `k` holds an enemy with health that the projectile in slot `i` overlaps.
pub open spec fn target_at(s: Seq<Option<EntityData>>, i: int, k: int) -> bool {
    &&& projectile_at(s, i)
    &&& 0 <= k < s.len()
    &&& s[k].is_some()
    &&& s[k].unwrap().kind == EntityKind::Enemy
    &&& s[k].unwrap().health.is_some()
    &&& overlaps(s[i].unwrap(), s[k].unwrap())
}

/// `b` is `a` with some entities removed and some health values changed.
pub open spec fn worn(a: Seq<Option<EntityData>>, b: Seq<Option<EntityData>>) -> bool {
    &&& a.len() == b.len()
    &&& forall|k: int|
        0 <= k < b.len() && (#[trigger] b[k]).is_some() ==> {
            &&& a[k].is_some()
            &&& b[k].unwrap().kind == a[k].unwrap().kind
            &&& b[k].unwrap().transform == a[k].unwrap().transform
            &&& b[k].unwrap().collision == a[k].unwrap().collision
            &&& b[k].unwrap().health.is_some() == a[k].unwrap().health.is_some()
        }
}

/// No live projectile overlaps a live enemy.
pub open spec fn no_hits_left(s: Seq<Option<EntityData>>) -> bool {
    forall|i: int, k: int| !#[trigger] target_at(s, i, k)
}

pub proof fn lemma_worn_targets(a: Seq<Option<EntityData>>, b: Seq<Option<EntityData>>, i: int, k: int)
    requires
        worn(a, b),
        target_at(b, i, k),
    ensures
        target_at(a, i, k),
{
    assert(b[i].is_some());
    assert(b[k].is_some());
}

pub proof fn lemma_worn_trans(a: Seq<Option<EntityData>>, b: Seq<Option<EntityData>>, c: Seq<Option<EntityData>>)
    requires
        worn(a, b),
        worn(b, c),
    ensures
        worn(a, c),
{
    assert forall|k: int| 0 <= k < c.len() && (#[trigger] c[k]).is_some() implies {
        &&& a[k].is_some()
        &&& c[k].unwrap().kind == a[k].unwrap().kind
        &&& c[k].unwrap().transform == a[k].unwrap().transform
        &&& c[k].unwrap().collision == a[k].unwrap().collision
        &&& c[k].unwrap().health.is_some() == a[k].unwrap().health.is_some()
    } by {
        assert(b[k].is_some());
    }
}

pub proof fn lemma_despawned_worn(a: Seq<Option<EntityData>>, r: EntityRef)
    ensures
        worn(a, despawned(a, r)),
{
    let b = despawned(a, r);
    assert forall|k: int| 0 <= k < b.len() && (#[trigger] b[k]).is_some() implies a[k].is_some() && b[k] == a[k] by {
    }
}

pub proof fn lemma_damaged_worn(a: Seq<Option<EntityData>>, r: EntityRef, amount: i64)
    ensures
        worn(a, damaged(a, r, amount)),
{
    let b = damaged(a, r, amount);
    lemma_despawned_worn(a, r);
    assert forall|k: int| 0 <= k < b.len() && (#[trigger] b[k]).is_some() implies {
        &&& a[k].is_some()
        &&& b[k].unwrap().kind == a[k].unwrap().kind
        &&& b[k].unwrap().transform == a[k].unwrap().transform
        &&& b[k].unwrap().collision == a[k].unwrap().collision
        &&& b[k].unwrap().health.is_some() == a[k].unwrap().health.is_some()
    } by {
        if k != r.index {
            assert(b[k] == a[k] || despawned(a, r)[k] == a[k]);
        }
    }
}


/// A projectile that has left the area where projectiles are kept.
pub open spec fn out_of_play(e: EntityData) -> bool {
    &&& e.kind == EntityKind::Projectile
    &&& (e.transform.x > CLEANUP_LIMIT || e.transform.x < -CLEANUP_LIMIT || e.transform.y
        > CLEANUP_LIMIT || e.transform.y < -CLEANUP_LIMIT)
}

/// The store without the projectiles that left the play area.
pub open spec fn swept(s: Seq<Option<EntityData>>) -> Seq<Option<EntityData>> {
    s.map_values(
        |o: Option<EntityData>|
            match o {
                Some(e) => if out_of_play(e) {
                    None
                } else {
                    o
                },
                None => None,
            },
    )
}

/// Despawning keeps the selection consistent even when the selection names
/// the despawned entity: a dead entity carries no marker.
pub proof fn lemma_despawn_keeps_selection(s: Seq<Option<EntityData>>, sel: Option<EntityRef>, r: EntityRef)
    requires
        selection_consistent(s, sel),
        store_wf(s),
    ensures
        selection_consistent(despawned(s, r), sel),
        store_wf(despawned(s, r)),
{
    let t = despawned(s, r);
    assert forall|i: int| 0 <= i < t.len() && #[trigger] t[i].is_some() implies complete(
        t[i].unwrap(),
    ) && (t[i].unwrap().selected <==> (sel.is_some() && sel.unwrap().index == i)) by {
        assert(s[i].is_some());
    }
}


/// The store without the entities whose health is at or below zero.
pub open spec fn reaped(s: Seq<Option<EntityData>>) -> Seq<Option<EntityData>> {
    s.map_values(
        |o: Option<EntityData>|
            match o {
                Some(e) => match e.health {
                    Some(h) => if h.current <= 0 {
                        None
                    } else {
                        o
                    },
                    None => o,
                },
                None => None,
            },
    )
}

/// Every live entity with health has health above zero.
pub open spec fn no_dead_left(s: Seq<Option<EntityData>>) -> bool {
    forall|i: int|
        0 <= i < s.len() && (#[trigger] s[i]).is_some() && s[i].unwrap().health.is_some()
            ==> s[i].unwrap().health.unwrap().current > 0
}

/// The first slot from `k` on holding an enemy that the projectile in slot
/// `i` hits.
pub open spec fn first_target_from(w: Seq<Option<EntityData>>, i: int, k: int) -> Option<int>
    decreases w.len() - k,
{
    if k < 0 || k >= w.len() {
        None
    } else if target_at(w, i, k) {
        Some(k)
    } else {
        first_target_from(w, i, k + 1)
    }
}

/// The projectile in slot `i` resolved, on (store, hit count): when it hits
/// an enemy, the first one takes `HIT_DAMAGE`, the projectile goes and the
/// hit is counted.
pub open spec fn collide_step(st: (Seq<Option<EntityData>>, u64), i: int) -> (
    Seq<Option<EntityData>>,
    u64,
) {
    match first_target_from(st.0, i, 0) {
        Some(j) => (
            despawned(
                damaged(st.0, EntityRef { index: j as usize }, HIT_DAMAGE),
                EntityRef { index: i as usize },
            ),
            bump(st.1),
        ),
        None => st,
    }
}

/// The projectiles in slots `0..k` resolved in slot order.
pub open spec fn collide_fold(s: Seq<Option<EntityData>>, hits: u64, k: nat) -> (
    Seq<Option<EntityData>>,
    u64,
)
    decreases k,
{
    if k == 0 {
        (s, hits)
    } else {
        collide_step(collide_fold(s, hits, (k - 1) as nat), k - 1)
    }
}

pub proof fn lemma_first_target(w: Seq<Option<EntityData>>, i: int, k: int, j: int)
    requires
        0 <= k <= j,
        target_at(w, i, j),
        forall|m: int| k <= m < j ==> !target_at(w, i, m),
    ensures
        first_target_from(w, i, k) == Some(j),
    decreases j - k,
{
    if k < j {
        lemma_first_target(w, i, k + 1, j);
    }
}

pub proof fn lemma_no_target(w: Seq<Option<EntityData>>, i: int, k: int)
    requires
        0 <= k,
        forall|m: int| k <= m ==> !target_at(w, i, m),
    ensures
        first_target_from(w, i, k).is_none(),
    decreases w.len() - k,
{
    if k < w.len() {
        lemma_no_target(w, i, k + 1);
    }
}

pub proof fn lemma_damaged_no_dead(w: Seq<Option<EntityData>>, r: EntityRef, amount: i64)
    requires
        no_dead_left(w),
    ensures
        no_dead_left(damaged(w, r, amount)),
        no_dead_left(despawned(w, r)),
{
    let d = despawned(w, r);
    assert forall|i: int|
        0 <= i < d.len() && (#[trigger] d[i]).is_some() && d[i].unwrap().health.is_some() implies d[i].unwrap().health.unwrap().current > 0 by {
        assert(w[i].is_some());
    }
    let t = damaged(w, r, amount);
    assert forall|i: int|
        0 <= i < t.len() && (#[trigger] t[i]).is_some() && t[i].unwrap().health.is_some() implies t[i].unwrap().health.unwrap().current > 0 by {
        if i != r.index {
            assert(t[i] == w[i] || t[i] == d[i]);
            assert(w[i].is_some());
        }
    }
}

pub proof fn lemma_reaped_worn(s: Seq<Option<EntityData>>)
    ensures
        worn(s, reaped(s)),
        no_dead_left(reaped(s)),
{
    let t = reaped(s);
    assert forall|k: int| 0 <= k < t.len() && (#[trigger] t[k]).is_some() implies s[k].is_some() && t[k] == s[k] by {}
}


/// One frame of play on (store, id counter, shots fired, hits): movement,
/// the volley (with the fire key held), projectile flight, cleanup,
/// cooldowns, collisions and the boundary, in that order.
pub open spec fn frame(
    s: Seq<Option<EntityData>>,
    next_id: u64,
    shots: u64,
    hits: u64,
    input: MoveInput,
    fire_held: bool,
    dt_ms: int,
) -> (Seq<Option<EntityData>>, u64, u64, u64) {
    let w1 = walked_all(s, input, dt_ms);
    let v = if fire_held {
        volley(w1, next_id, shots, w1.len())
    } else {
        (w1, next_id, shots)
    };
    let w4 = cooled_all(swept(flown_all(v.0, dt_ms)), dt_ms);
    let c = collide_fold(reaped(w4), hits, reaped(w4).len());
    (bounded_all(c.0), v.1, v.2, c.1)
}

/// Every live entity with a collision shape lies inside the play area.
pub open spec fn inside_play_area(s: Seq<Option<EntityData>>) -> bool {
    forall|i: int|
        0 <= i < s.len() && (#[trigger] s[i]).is_some() && s[i].unwrap().collision.is_some() ==> {
            &&& -BOUNDARY <= s[i].unwrap().transform.x <= BOUNDARY
            &&& -BOUNDARY <= s[i].unwrap().transform.y <= BOUNDARY
        }
}

/// A slot-wise change that keeps every entity's shape keeps the store well
/// formed and the selection consistent.
pub proof fn lemma_reshaped(
    s: Seq<Option<EntityData>>,
    t: Seq<Option<EntityData>>,
    sel: Option<EntityRef>,
)
    requires
        store_wf(s),
        selection_consistent(s, sel),
        t.len() == s.len(),
        forall|i: int|
            0 <= i < s.len() ==> (#[trigger] t[i]).is_some() == s[i].is_some() && (t[i].is_some()
                ==> same_shape(s[i].unwrap(), t[i].unwrap())),
    ensures
        store_wf(t),
        selection_consistent(t, sel),
        forall|n: u64| #[trigger] ids_ok(s, n) ==> ids_ok(t, n),
{
    assert forall|n: u64| #[trigger] ids_ok(s, n) implies ids_ok(t, n) by {
        assert forall|i: int| 0 <= i < t.len() && #[trigger] is_role_slot(t[i]) implies is_role_slot(s[i])
            && t[i].unwrap().id == s[i].unwrap().id by {}
        lemma_same_ids(s, t, n);
    }
    assert forall|i: int| 0 <= i < t.len() && #[trigger] t[i].is_some() implies complete(
        t[i].unwrap(),
    ) && (t[i].unwrap().selected <==> (sel.is_some() && sel.unwrap().index == i)) by {
        assert(s[i].is_some());
    }
}

/// `a * b / 1000` rounded toward zero, saturated.
fn scaled(a: i64, dt_ms: u64) -> (r: i64)
    ensures
        r == sat(div_trunc(a * dt_ms, 1000)),
{
    let mag: u128 = if a >= 0 {
        a as u128
    } else {
        (-(a as i128)) as u128
    };
    proof {
        assert(mag * dt_ms <= 0x8000_0000_0000_0000u128 * 0xffff_ffff_ffff_ffffu128) by (nonlinear_arith)
            requires
                mag <= 0x8000_0000_0000_0000u128,
                dt_ms <= 0xffff_ffff_ffff_ffffu64,
        ;
    }
    let q: u128 = mag * (dt_ms as u128) / 1000;
    proof {
        if a >= 0 {
            assert(a * dt_ms == mag * dt_ms);
        } else {
            assert(-(a * dt_ms) == mag * dt_ms) by (nonlinear_arith)
                requires
                    mag == -a,
            ;
        }
    }
    if a >= 0 {
        if q > i64::MAX as u128 {
            i64::MAX
        } else {
            q as i64
        }
    } else {
        if q > 0x8000_0000_0000_0000u128 {
            i64::MIN
        } else if q == 0x8000_0000_0000_0000u128 {
            i64::MIN
        } else {
            -(q as i64)
        }
    }
}

/// The colour an enemy shows for its health: red above 70% of its maximum,
/// orange above 30%, dark red otherwise (RGBA, thousandths).
pub open spec fn health_tint_spec(current: int, max: int) -> Seq<i64> {
    if 10 * current > 7 * max {
        seq![1000i64, 0, 0, 1000]
    } else if 10 * current > 3 * max {
        seq![1000i64, 650, 0, 1000]
    } else {
        seq![500i64, 0, 0, 1000]
    }
}

pub fn health_tint(h: crate::components::Health) -> (c: [i64; 4])
    ensures
        c@ == health_tint_spec(h.current as int, h.max as int),
{
    let cur = h.current as i128;
    let max = h.max as i128;
    let c = if 10 * cur > 7 * max {
        [1000, 0, 0, 1000]
    } else if 10 * cur > 3 * max {
        [1000, 650, 0, 1000]
    } else {
        [500, 0, 0, 1000]
    };
    assert(c@ =~= health_tint_spec(h.current as int, h.max as int));
    c
}

/// `a - dt_ms`, saturated.
fn sat_sub_ms(a: i64, dt_ms: u64) -> (r: i64)
    ensures
        r == sat(a - dt_ms),
{
    let d: i128 = a as i128 - dt_ms as i128;
    if d < i64::MIN as i128 {
        i64::MIN
    } else {
        d as i64
    }
}

fn clamp_coord(v: i64) -> (r: i64)
    ensures
        r == clamp_int(v as int, -BOUNDARY as int, BOUNDARY as int),
{
    if v < -BOUNDARY {
        -BOUNDARY
    } else if v > BOUNDARY {
        BOUNDARY
    } else {
        v
    }
}

impl Editor {
    pub open spec fn playing(&self) -> bool {
        self.game_state.mode == PlayMode::Playing
    }

    /// Moves every player by the held directions for `dt_ms` milliseconds.
    pub fn player_movement(&mut self, input: MoveInput, dt_ms: u64)
        requires
            old(self).wf(),
        ensures
            final(self).wf(),
            final(self).world@ == if old(self).playing() {
                walked_all(old(self).world@, input, dt_ms as int)
            } else {
                old(self).world@
            },
            final(self).selected_entity == old(self).selected_entity,
            final(self).drag_state == old(self).drag_state,
            final(self).same_controllers(old(self)),
    {
        if self.game_state.mode != PlayMode::Playing {
            return;
        }
        let dx: i64 = (if input.right { 1i64 } else { 0 }) - (if input.left { 1i64 } else { 0 });
        let dy: i64 = (if input.up { 1i64 } else { 0 }) - (if input.down { 1i64 } else { 0 });
        let speed: i64 = if dx != 0 && dy != 0 { PLAYER_DIAGONAL_SPEED } else { PLAYER_SPEED };
        let step: i64 = scaled(speed, dt_ms);
        proof {
            assert(speed * dt_ms >= 0) by (nonlinear_arith)
                requires
                    speed >= 0,
                    dt_ms >= 0,
            ;
            assert(speed * dt_ms <= 200 * 0xffff_ffff_ffff_ffffu64) by (nonlinear_arith)
                requires
                    0 <= speed <= 200,
                    0 <= dt_ms <= 0xffff_ffff_ffff_ffffu64,
            ;
            assert(step == player_step(input, dt_ms as int));
        }
        let mx: i64 = if dx > 0 { step } else if dx < 0 { -step } else { 0 };
        let my: i64 = if dy > 0 { step } else if dy < 0 { -step } else { 0 };
        proof {
            assert(mx == offset(input.right, input.left, step as int));
            assert(my == offset(input.up, input.down, step as int));
        }
        let ghost s0 = self.world@;
        let mut i: usize = 0;
        while i < self.world.slots.len()
            invariant
                i <= self.world@.len(),
                self.world@.len() == s0.len(),
                forall|j: int| 0 <= j < i ==> self.world@[j] == #[trigger] walked_all(s0, input, dt_ms as int)[j],
                forall|j: int| i <= j < self.world@.len() ==> self.world@[j] == s0[j],
                step == player_step(input, dt_ms as int),
                0 <= step <= i64::MAX,
                mx == offset(input.right, input.left, step as int),
                my == offset(input.up, input.down, step as int),
                dx == axis(input.right, input.left),
                dy == axis(input.up, input.down),
                speed == (if dx != 0 && dy != 0 { PLAYER_DIAGONAL_SPEED } else { PLAYER_SPEED }),
                speed * dt_ms >= 0,
                old(self).wf(),
                s0 == old(self).world@,
                self.selected_entity == old(self).selected_entity,
                self.drag_state == old(self).drag_state,
                self.same_controllers(old(self)),
            decreases self.world@.len() - i,
        {
            let n = match &self.world.slots[i] {
                Some(e) => if e.kind == EntityKind::Player {
                    let mut n = e.duplicate();
                    n.transform.x = crate::camera::sat_add(e.transform.x, mx);
                    n.transform.y = crate::camera::sat_add(e.transform.y, my);
                    Some(n)
                } else {
                    None
                },
                None => None,
            };
            match n {
                Some(n) => {
                    self.world.slots.set(i, Some(n));
                },
                None => {},
            }
            proof {
                if s0[i as int].is_some() {
                    let e = s0[i as int].unwrap();
                    if e.kind == EntityKind::Player {
                        assert(self.world@[i as int] == Some(walked(e, input, dt_ms as int)));
                    }
                }
                assert(self.world@[i as int] == walked_all(s0, input, dt_ms as int)[i as int]);
            }
            i = i + 1;
        }
        proof {
            assert(self.world@ =~= walked_all(s0, input, dt_ms as int));
            lemma_reshaped(s0, self.world@, self.selected_entity.entity);
        }
    }

    /// Counts every shooter's cooldown down by `dt_ms` milliseconds.
    pub fn update_shooting_cooldowns(&mut self , dt_ms: u64)
        requires
            old(self).wf(),
        ensures
            final(self).wf(),
            final(self).world@ == if old(self).playing() {
                cooled_all(old(self).world@ , dt_ms as int)
            } else {
                old(self).world@
            },
            final(self).selected_entity == old(self).selected_entity,
            final(self).drag_state == old(self).drag_state,
            final(self).same_controllers(old(self)),
    {
        if self.game_state.mode != PlayMode::Playing {
            return;
        }
        let ghost s0 = self.world@;
        let mut i: usize = 0;
        while i < self.world.slots.len()
            invariant
                i <= self.world@.len(),
                self.world@.len() == s0.len(),
                forall|j: int| 0 <= j < i ==> self.world@[j] == #[trigger] cooled_all(s0 , dt_ms as int)[j],
                forall|j: int| i <= j < self.world@.len() ==> self.world@[j] == s0[j],
                old(self).wf(),
                s0 == old(self).world@,
                self.selected_entity == old(self).selected_entity,
                self.drag_state == old(self).drag_state,
                self.same_controllers(old(self)),
            decreases self.world@.len() - i,
        {
            let n = match &self.world.slots[i] {
                Some(e) => match e.shooting {
                    Some(sh) => if sh.cooldown > 0 {
                        let mut n = e.duplicate();
                        n.shooting = Some(Shooting { cooldown: sat_sub_ms(sh.cooldown, dt_ms), ..sh });
                        Some(n)
                    } else {
                        None
                    },
                    None => None,
                },
                None => None,
            };
            match n {
                Some(n) => {
                    self.world.slots.set(i, Some(n));
                },
                None => {},
            }
            proof {
                if s0[i as int].is_some() {
                    let e = s0[i as int].unwrap();
                    assert(self.world@[i as int] == Some(cooled(e , dt_ms as int)));
                }
                assert(self.world@[i as int] == cooled_all(s0 , dt_ms as int)[i as int]);
            }
            i = i + 1;
        }
        proof {
            assert(self.world@ =~= cooled_all(s0 , dt_ms as int));
            lemma_reshaped(s0, self.world@, self.selected_entity.entity);
        }
    }

    /// Moves every projectile by its velocity for `dt_ms` milliseconds.
    pub fn projectile_movement(&mut self , dt_ms: u64)
        requires
            old(self).wf(),
        ensures
            final(self).wf(),
            final(self).world@ == if old(self).playing() {
                flown_all(old(self).world@ , dt_ms as int)
            } else {
                old(self).world@
            },
            final(self).selected_entity == old(self).selected_entity,
            final(self).drag_state == old(self).drag_state,
            final(self).same_controllers(old(self)),
    {
        if self.game_state.mode != PlayMode::Playing {
            return;
        }
        let ghost s0 = self.world@;
        let mut i: usize = 0;
        while i < self.world.slots.len()
            invariant
                i <= self.world@.len(),
                self.world@.len() == s0.len(),
                forall|j: int| 0 <= j < i ==> self.world@[j] == #[trigger] flown_all(s0 , dt_ms as int)[j],
                forall|j: int| i <= j < self.world@.len() ==> self.world@[j] == s0[j],
                old(self).wf(),
                s0 == old(self).world@,
                self.selected_entity == old(self).selected_entity,
                self.drag_state == old(self).drag_state,
                self.same_controllers(old(self)),
            decreases self.world@.len() - i,
        {
            let n = match &self.world.slots[i] {
                Some(e) => match e.projectile {
                    Some(p) => {
                        let mut n = e.duplicate();
                        n.transform.x = sat_add(e.transform.x, scaled(p.velocity_x, dt_ms));
                        n.transform.y = sat_add(e.transform.y, scaled(p.velocity_y, dt_ms));
                        Some(n)
                    },
                    None => None,
                },
                None => None,
            };
            match n {
                Some(n) => {
                    self.world.slots.set(i, Some(n));
                },
                None => {},
            }
            proof {
                if s0[i as int].is_some() {
                    let e = s0[i as int].unwrap();
                    assert(self.world@[i as int] == Some(flown(e , dt_ms as int)));
                }
                assert(self.world@[i as int] == flown_all(s0 , dt_ms as int)[i as int]);
            }
            i = i + 1;
        }
        proof {
            assert(self.world@ =~= flown_all(s0 , dt_ms as int));
            lemma_reshaped(s0, self.world@, self.selected_entity.entity);
        }
    }

    /// Keeps every entity with a collision shape inside the play area.
    pub fn boundary_collision(&mut self )
        requires
            old(self).wf(),
        ensures
            final(self).wf(),
            final(self).world@ == if old(self).playing() {
                bounded_all(old(self).world@)
            } else {
                old(self).world@
            },
            final(self).selected_entity == old(self).selected_entity,
            final(self).drag_state == old(self).drag_state,
            final(self).same_controllers(old(self)),
    {
        if self.game_state.mode != PlayMode::Playing {
            return;
        }
        let ghost s0 = self.world@;
        let mut i: usize = 0;
        while i < self.world.slots.len()
            invariant
                i <= self.world@.len(),
                self.world@.len() == s0.len(),
                forall|j: int| 0 <= j < i ==> self.world@[j] == #[trigger] bounded_all(s0)[j],
                forall|j: int| i <= j < self.world@.len() ==> self.world@[j] == s0[j],
                old(self).wf(),
                s0 == old(self).world@,
                self.selected_entity == old(self).selected_entity,
                self.drag_state == old(self).drag_state,
                self.same_controllers(old(self)),
            decreases self.world@.len() - i,
        {
            let n = match &self.world.slots[i] {
                Some(e) => if e.collision.is_some() {
                    let mut n = e.duplicate();
                    n.transform.x = clamp_coord(e.transform.x);
                    n.transform.y = clamp_coord(e.transform.y);
                    Some(n)
                } else {
                    None
                },
                None => None,
            };
            match n {
                Some(n) => {
                    self.world.slots.set(i, Some(n));
                },
                None => {},
            }
            proof {
                if s0[i as int].is_some() {
                    let e = s0[i as int].unwrap();
                    assert(self.world@[i as int] == Some(bounded(e)));
                }
                assert(self.world@[i as int] == bounded_all(s0)[i as int]);
            }
            i = i + 1;
        }
        proof {
            assert(self.world@ =~= bounded_all(s0));
            lemma_reshaped(s0, self.world@, self.selected_entity.entity);
        }
    }
    /// Fires one projectile from the player at `r` if its shooter is ready:
    /// the projectile appears above the player moving up at the shooter's
    /// speed, takes the next scene id, and the shooter's cooldown restarts.
    /// Nothing happens while not playing, or when ids or slots run out.
    pub fn shoot(&mut self, r: EntityRef) -> (fired: bool)
        requires
            old(self).wf(),
        ensures
            final(self).wf(),
            fired == (old(self).playing() && can_fire(old(self).world@, r)
                && old(self).scene_manager.next_id < u64::MAX && old(self).world@.len() + 1
                < usize::MAX),
            fired ==> ({
                let e = old(self).world@[r.index as int].unwrap();
                let sh = e.shooting.unwrap();
                &&& final(self).world@ == replaced(
                    old(self).world@,
                    r,
                    EntityData {
                        shooting: Some(Shooting { cooldown: sh.max_cooldown, ..sh }),
                        ..e
                    },
                ).push(Some(entity_of_record(shot_record(old(self).scene_manager.next_id, e, sh))))
                &&& final(self).scene_manager.next_id == old(self).scene_manager.next_id + 1
                &&& final(self).shooting_stats == (ShootingStats {
                    shots_fired: bump(old(self).shooting_stats.shots_fired),
                    ..old(self).shooting_stats
                })
            }),
            !fired ==> final(self).world@ == old(self).world@ && final(self).scene_manager.next_id
                == old(self).scene_manager.next_id && final(self).shooting_stats
                == old(self).shooting_stats,
            final(self).scene_manager.save_path == old(self).scene_manager.save_path,
            final(self).selected_entity == old(self).selected_entity,
            final(self).drag_state == old(self).drag_state,
            final(self).camera == old(self).camera,
            final(self).game_state == old(self).game_state,
            final(self).scene_state == old(self).scene_state,
    {
        if self.game_state.mode != PlayMode::Playing {
            return false;
        }
        if self.scene_manager.next_id == u64::MAX || self.world.slots.len() >= usize::MAX - 1 {
            return false;
        }
        let id = self.scene_manager.next_id;
        let ready = match self.world.get(r) {
            Some(e) => if e.kind == EntityKind::Player {
                match e.shooting {
                    Some(sh) => if sh.cooldown <= 0 {
                        let mut n = e.duplicate();
                        n.shooting = Some(Shooting { cooldown: sh.max_cooldown, ..sh });
                        let rec = SerializableEntity {
                            id,
                            entity_type: EntityType::Projectile,
                            transform: SerializableTransform::from_xyz(
                                e.transform.x,
                                sat_add(e.transform.y, SHOT_OFFSET),
                                e.transform.z,
                            ),
                            health: None,
                            collision_radius: Some(PROJECTILE_RADIUS),
                            velocity: Some((0, sh.speed)),
                            sprite_asset: None,
                        };
                        Some((n, rec))
                    } else {
                        None
                    },
                    None => None,
                }
            } else {
                None
            },
            None => None,
        };
        match ready {
            Some((n, rec)) => {
                proof {
                    crate::editor::lemma_replace_consistent(
                        self.world@,
                        self.selected_entity.entity,
                        r,
                        n,
                    );
                }
                self.world.replace(r, n);
                self.scene_manager.next_id = id + 1;
                proof {
                    crate::world::lemma_ids_grow(self.world@, id, (id + 1) as u64);
                }
                self.spawn_entity_from_data(&rec);
                if self.shooting_stats.shots_fired < u64::MAX {
                    self.shooting_stats.shots_fired = self.shooting_stats.shots_fired + 1;
                }
                true
            },
            None => false,
        }
    }
    /// With the fire key held, every ready player fires (see `shoot`), in
    /// slot order: its cooldown restarts, a projectile with the next id is
    /// appended, and the shot is counted.
    pub fn player_shooting(&mut self, fire_held: bool)
        requires
            old(self).wf(),
        ensures
            final(self).wf(),
            grew_by_projectiles(old(self).world@, final(self).world@),
            old(self).playing() && fire_held ==> ({
                let v = volley(
                    old(self).world@,
                    old(self).scene_manager.next_id,
                    old(self).shooting_stats.shots_fired,
                    old(self).world@.len(),
                );
                &&& final(self).world@ == v.0
                &&& final(self).scene_manager.next_id == v.1
                &&& final(self).shooting_stats.shots_fired == v.2
            }),
            final(self).shooting_stats.hits == old(self).shooting_stats.hits,
            !(old(self).playing() && fire_held) ==> final(self).world@ == old(self).world@
                && final(self).scene_manager.next_id == old(self).scene_manager.next_id
                && final(self).shooting_stats == old(self).shooting_stats,
            final(self).scene_manager.save_path == old(self).scene_manager.save_path,
            final(self).selected_entity == old(self).selected_entity,
            final(self).drag_state == old(self).drag_state,
            final(self).camera == old(self).camera,
            final(self).game_state == old(self).game_state,
            final(self).scene_state == old(self).scene_state,
    {
        if self.game_state.mode != PlayMode::Playing || !fire_held {
            return;
        }
        let ghost s0 = self.world@;
        let len0 = self.world.slots.len();
        let mut i: usize = 0;
        while i < len0
            invariant
                i <= len0,
                len0 == s0.len(),
                s0 == old(self).world@,
                self.wf(),
                grew_by_projectiles(s0, self.world@),
                old(self).playing(),
                (self.world@, self.scene_manager.next_id, self.shooting_stats.shots_fired) == volley(
                    s0,
                    old(self).scene_manager.next_id,
                    old(self).shooting_stats.shots_fired,
                    i as nat,
                ),
                self.shooting_stats.hits == old(self).shooting_stats.hits,
                self.scene_manager.save_path == old(self).scene_manager.save_path,
                self.selected_entity == old(self).selected_entity,
                self.drag_state == old(self).drag_state,
                self.camera == old(self).camera,
                self.game_state == old(self).game_state,
                self.scene_state == old(self).scene_state,
            decreases len0 - i,
        {
            let ghost w1 = self.world@;
            let ghost st1 = (self.world@, self.scene_manager.next_id, self.shooting_stats.shots_fired);
            let fired = self.shoot(EntityRef { index: i });
            proof {
                assert(volley(
                    s0,
                    old(self).scene_manager.next_id,
                    old(self).shooting_stats.shots_fired,
                    (i + 1) as nat,
                ) == shot_step(st1, i as int));
                assert((self.world@, self.scene_manager.next_id, self.shooting_stats.shots_fired)
                    == shot_step(st1, i as int));
                if fired {
                    let w2 = self.world@;
                    let e = w1[i as int].unwrap();
                    let sh = e.shooting.unwrap();
                    let n = EntityData { shooting: Some(Shooting { cooldown: sh.max_cooldown, ..sh }), ..e };
                    let mid = replaced(w1, EntityRef { index: i }, n);
                    assert forall|k: int| 0 <= k < s0.len() implies (#[trigger] w2[k]).is_some() == s0[k].is_some()
                        && (w2[k].is_some() ==> w2[k].unwrap().kind == s0[k].unwrap().kind
                        && w2[k].unwrap().transform == s0[k].unwrap().transform) by {
                        assert(w2[k] == mid[k]);
                        assert(w1[k].is_some() == s0[k].is_some());
                    }
                    assert forall|k: int| s0.len() <= k < w2.len() implies (#[trigger] w2[k]).is_some()
                        && w2[k].unwrap().kind == EntityKind::Projectile by {
                        if k < w1.len() {
                            assert(w2[k] == mid[k]);
                            assert(w1[k].is_some());
                        }
                    }
                }
            }
            i = i + 1;
        }
    }
    /// Resolves the projectile at `p` against the enemies: the first enemy
    /// (in slot order) with health whose square it overlaps takes
    /// `HIT_DAMAGE` (and goes if its health falls to zero or below), the
    /// projectile goes, and the hit is counted. Returns the enemy hit.
    pub fn resolve_projectile(&mut self, p: EntityRef) -> (hit: Option<EntityRef>)
        requires
            old(self).wf(),
        ensures
            final(self).wf(),
            match hit {
                Some(j) => {
                    &&& target_at(old(self).world@, p.index as int, j.index as int)
                    &&& forall|k: int|
                        0 <= k < j.index ==> !target_at(old(self).world@, p.index as int, k)
                    &&& final(self).world@ == despawned(
                        damaged(old(self).world@, j, HIT_DAMAGE),
                        p,
                    )
                    &&& final(self).shooting_stats == (ShootingStats {
                        hits: bump(old(self).shooting_stats.hits),
                        ..old(self).shooting_stats
                    })
                },
                None => {
                    &&& forall|k: int| !target_at(old(self).world@, p.index as int, k)
                    &&& final(self).world@ == old(self).world@
                    &&& final(self).shooting_stats == old(self).shooting_stats
                },
            },
            final(self).scene_manager == old(self).scene_manager,
            final(self).game_state == old(self).game_state,
            final(self).scene_state == old(self).scene_state,
    {
        let probe = match self.world.get(p) {
            Some(e) => if e.kind == EntityKind::Projectile {
                match e.collision {
                    Some(c) => Some((e.transform.x as i128, e.transform.y as i128, c.radius as i128)),
                    None => None,
                }
            } else {
                None
            },
            None => None,
        };
        let (px, py, pr) = match probe {
            Some(t) => t,
            None => {
                return None;
            },
        };
        let mut k: usize = 0;
        while k < self.world.slots.len()
            invariant
                k <= self.world@.len(),
                self.world@ == old(self).world@,
                self.wf(),
                self.selected_entity == old(self).selected_entity,
                self.drag_state == old(self).drag_state,
                self.same_controllers(old(self)),
                projectile_at(self.world@, p.index as int),
                self.world@[p.index as int].unwrap().collision.is_some(),
                px == self.world@[p.index as int].unwrap().transform.x,
                py == self.world@[p.index as int].unwrap().transform.y,
                pr == self.world@[p.index as int].unwrap().collision.unwrap().radius,
                forall|j: int| 0 <= j < k ==> !target_at(self.world@, p.index as int, j),
            decreases self.world@.len() - k,
        {
            let found = match &self.world.slots[k] {
                Some(q) => if q.kind == EntityKind::Enemy && q.health.is_some() {
                    match q.collision {
                        Some(c) => {
                            let dx = px - q.transform.x as i128;
                            let dy = py - q.transform.y as i128;
                            let adx = if dx < 0 { -dx } else { dx };
                            let ady = if dy < 0 { -dy } else { dy };
                            let reach = pr + c.radius as i128;
                            adx < reach && ady < reach
                        },
                        None => false,
                    }
                } else {
                    false
                },
                None => false,
            };
            if found {
                let j = EntityRef { index: k };
                self.damage_entity(j, HIT_DAMAGE);
                self.delete_entity(p);
                if self.shooting_stats.hits < u64::MAX {
                    self.shooting_stats.hits = self.shooting_stats.hits + 1;
                }
                return Some(j);
            }
            k = k + 1;
        }
        None
    }

    /// Removes every entity whose health is at or below zero, then resolves
    /// every projectile in slot order (see `resolve_projectile`): a
    /// projectile goes exactly when it hits, each hit takes `HIT_DAMAGE` from
    /// the first enemy overlapped and is counted. Afterwards no live
    /// projectile overlaps a live enemy with health, and no live entity has
    /// health at or below zero.
    pub fn collision_detection(&mut self)
        requires
            old(self).wf(),
        ensures
            final(self).wf(),
            old(self).playing() ==> ({
                let r = reaped(old(self).world@);
                let c = collide_fold(r, old(self).shooting_stats.hits, r.len());
                &&& final(self).world@ == c.0
                &&& final(self).shooting_stats.hits == c.1
                &&& no_hits_left(final(self).world@)
                &&& no_dead_left(final(self).world@)
                &&& worn(old(self).world@, final(self).world@)
            }),
            !old(self).playing() ==> final(self).world@ == old(self).world@
                && final(self).shooting_stats == old(self).shooting_stats,
            final(self).shooting_stats.shots_fired == old(self).shooting_stats.shots_fired,
            final(self).scene_manager == old(self).scene_manager,
            final(self).game_state == old(self).game_state,
            final(self).scene_state == old(self).scene_state,
    {
        if self.game_state.mode != PlayMode::Playing {
            return;
        }
        let ghost s0 = self.world@;
        let mut i: usize = 0;
        while i < self.world.slots.len()
            invariant
                i <= self.world@.len(),
                self.world@.len() == s0.len(),
                s0 == old(self).world@,
                forall|j: int| 0 <= j < i ==> self.world@[j] == #[trigger] reaped(s0)[j],
                forall|j: int| i <= j < self.world@.len() ==> self.world@[j] == s0[j],
                self.wf(),
                self.shooting_stats == old(self).shooting_stats,
                self.scene_manager == old(self).scene_manager,
                self.game_state == old(self).game_state,
                self.scene_state == old(self).scene_state,
            decreases self.world@.len() - i,
        {
            let dead = match &self.world.slots[i] {
                Some(e) => match e.health {
                    Some(h) => h.current <= 0,
                    None => false,
                },
                None => false,
            };
            if dead {
                proof {
                    lemma_despawn_keeps_selection(
                        self.world@,
                        self.selected_entity.entity,
                        EntityRef { index: i },
                    );
                    crate::world::lemma_despawned_ids(
                        self.world@,
                        EntityRef { index: i },
                        self.scene_manager.next_id,
                    );
                }
                self.world.despawn(EntityRef { index: i });
            }
            i = i + 1;
        }
        proof {
            assert(self.world@ =~= reaped(s0));
            lemma_reaped_worn(s0);
        }
        let ghost r0 = self.world@;
        let ghost h0 = self.shooting_stats.hits;
        let mut i: usize = 0;
        while i < self.world.slots.len()
            invariant
                i <= self.world@.len(),
                self.world@.len() == r0.len(),
                self.wf(),
                worn(s0, self.world@),
                s0 == old(self).world@,
                r0 == reaped(s0),
                h0 == old(self).shooting_stats.hits,
                (self.world@, self.shooting_stats.hits) == collide_fold(r0, h0, i as nat),
                no_dead_left(self.world@),
                forall|a: int, k: int| 0 <= a < i ==> !#[trigger] target_at(self.world@, a, k),
                self.shooting_stats.shots_fired == old(self).shooting_stats.shots_fired,
                self.scene_manager == old(self).scene_manager,
                self.game_state == old(self).game_state,
                self.scene_state == old(self).scene_state,
            decreases self.world@.len() - i,
        {
            let ghost w1 = self.world@;
            let ghost st1 = (self.world@, self.shooting_stats.hits);
            let hit = self.resolve_projectile(EntityRef { index: i });
            proof {
                let w2 = self.world@;
                assert(collide_fold(r0, h0, (i + 1) as nat) == collide_step(st1, i as int));
                match hit {
                    Some(j) => {
                        lemma_first_target(w1, i as int, 0, j.index as int);
                        assert(j == EntityRef { index: (j.index as int) as usize });
                        lemma_damaged_no_dead(w1, j, HIT_DAMAGE);
                        lemma_damaged_no_dead(damaged(w1, j, HIT_DAMAGE), EntityRef { index: i }, HIT_DAMAGE);
                        lemma_damaged_worn(w1, j, HIT_DAMAGE);
                        lemma_despawned_worn(damaged(w1, j, HIT_DAMAGE), EntityRef { index: i });
                        lemma_worn_trans(w1, damaged(w1, j, HIT_DAMAGE), w2);
                        lemma_worn_trans(s0, w1, w2);
                        assert forall|a: int, k: int| 0 <= a < i + 1 implies !#[trigger] target_at(w2, a, k) by {
                            if target_at(w2, a, k) {
                                lemma_worn_targets(w1, w2, a, k);
                                if a == i {
                                    assert(w2[a].is_none());
                                }
                            }
                        }
                    },
                    None => {
                        lemma_no_target(w1, i as int, 0);
                        assert(w2 == w1);
                        assert forall|a: int, k: int| 0 <= a < i + 1 implies !#[trigger] target_at(w2, a, k) by {
                            if a == i {
                                assert(!target_at(w1, (EntityRef { index: i }).index as int, k));
                            }
                        }
                    },
                }
            }
            i = i + 1;
        }
    }

    /// Removes the projectiles that left the play area, then clears any
    /// controller reference that went stale.
    pub fn projectile_cleanup(&mut self)
        requires
            old(self).wf(),
        ensures
            final(self).wf(),
            final(self).world@ == swept(old(self).world@),
            final(self).selected_entity.entity == crate::editor::live_ref(
                final(self).world@,
                old(self).selected_entity.entity,
            ),
            final(self).drag_state.dragging == crate::editor::live_ref(
                final(self).world@,
                old(self).drag_state.dragging,
            ),
            final(self).camera.following_entity == crate::editor::live_ref(
                final(self).world@,
                old(self).camera.following_entity,
            ),
            final(self).scene_manager == old(self).scene_manager,
            final(self).game_state == old(self).game_state,
            final(self).scene_state == old(self).scene_state,
            final(self).shooting_stats == old(self).shooting_stats,
    {
        let ghost s0 = self.world@;
        let mut i: usize = 0;
        while i < self.world.slots.len()
            invariant
                i <= self.world@.len(),
                self.world@.len() == s0.len(),
                s0 == old(self).world@,
                forall|j: int| 0 <= j < i ==> self.world@[j] == #[trigger] swept(s0)[j],
                forall|j: int| i <= j < self.world@.len() ==> self.world@[j] == s0[j],
                self.wf(),
                self.selected_entity == old(self).selected_entity,
                self.drag_state == old(self).drag_state,
                self.same_controllers(old(self)),
            decreases self.world@.len() - i,
        {
            let gone = match &self.world.slots[i] {
                Some(e) => e.kind == EntityKind::Projectile && (e.transform.x > CLEANUP_LIMIT
                    || e.transform.x < -CLEANUP_LIMIT || e.transform.y > CLEANUP_LIMIT
                    || e.transform.y < -CLEANUP_LIMIT),
                None => false,
            };
            if gone {
                proof {
                    lemma_despawn_keeps_selection(
                        self.world@,
                        self.selected_entity.entity,
                        EntityRef { index: i },
                    );
                }
                self.world.despawn(EntityRef { index: i });
            }
            i = i + 1;
        }
        proof {
            assert(self.world@ =~= swept(s0));
        }
        self.revalidate();
    }

    /// One frame of gameplay, in order: player movement, shooting,
    /// projectile flight, cleanup, cooldowns, collisions, and the boundary.
    /// Outside play it changes nothing at all.
    pub fn advance(&mut self, input: MoveInput, fire_held: bool, dt_ms: u64)
        requires
            old(self).wf(),
        ensures
            final(self).wf(),
            old(self).playing() ==> inside_play_area(final(self).world@),
            old(self).playing() ==> ({
                let f = frame(
                    old(self).world@,
                    old(self).scene_manager.next_id,
                    old(self).shooting_stats.shots_fired,
                    old(self).shooting_stats.hits,
                    input,
                    fire_held,
                    dt_ms as int,
                );
                &&& final(self).world@ == f.0
                &&& final(self).scene_manager.next_id == f.1
                &&& final(self).shooting_stats.shots_fired == f.2
                &&& final(self).shooting_stats.hits == f.3
            }),
            !old(self).playing() ==> {
                &&& final(self).world@ == old(self).world@
                &&& final(self).selected_entity == old(self).selected_entity
                &&& final(self).drag_state == old(self).drag_state
                &&& final(self).camera == old(self).camera
                &&& final(self).scene_manager == old(self).scene_manager
                &&& final(self).shooting_stats == old(self).shooting_stats
            },
            final(self).game_state == old(self).game_state,
            final(self).scene_state == old(self).scene_state,
    {
        if self.game_state.mode != PlayMode::Playing {
            return;
        }
        self.player_movement(input, dt_ms);
        self.player_shooting(fire_held);
        self.projectile_movement(dt_ms);
        self.projectile_cleanup();
        self.update_shooting_cooldowns(dt_ms);
        self.collision_detection();
        let ghost before_bounds = self.world@;
        self.boundary_collision();
        proof {
            let w = self.world@;
            assert forall|i: int|
                0 <= i < w.len() && (#[trigger] w[i]).is_some() && w[i].unwrap().collision.is_some() implies {
                &&& -BOUNDARY <= w[i].unwrap().transform.x <= BOUNDARY
                &&& -BOUNDARY <= w[i].unwrap().transform.y <= BOUNDARY
            } by {
                assert(w[i] == bounded_all(before_bounds)[i]);
            }
        }
    }
}

} // verus!
