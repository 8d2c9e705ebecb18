//! Capability records carried by entities, and the persisted entity record.
//!
//! All quantities are integers: distances and speeds in whole world units,
//! rotation in milliradians, scale factors and tint channels in thousandths,
//! and timers in milliseconds.
use vstd::prelude::*;

verus! {

/// The role of a gameplay entity; roles are mutually exclusive.
#[derive(Debug, Clone, Copy, PartialEq, Eq, Structural)]
pub enum EntityType {
    Player,
    Enemy,
    Projectile,
}

/// What an entity is: a role-bearing gameplay entity, or one of the editor's
/// own entities (camera, grid line, background image), which never take part
/// in a scene document.
#[derive(Debug, Clone, Copy, PartialEq, Eq, Structural)]
pub enum EntityKind {
    Player,
    Enemy,
    Projectile,
    Camera,
    GridLine,
    BackgroundImage,
}

/// Health pair; `current` may drop to zero or below just before removal.
#[derive(Debug, Clone, Copy, PartialEq, Eq, Structural)]
pub struct Health {
    pub current: i64,
    pub max: i64,
}

impl Health {
    /// Current health clamped into `0..=max`, for display.
    pub fn displayed(&self) -> (r: i64)
        requires
            self.max >= 0,
        ensures
            r == if self.current < 0 {
                0
            } else if self.current > self.max {
                self.max
            } else {
                self.current
            },
    {
        if self.current < 0 {
            0
        } else if self.current > self.max {
            self.max
        } else {
            self.current
        }
    }
}

/// Collision shape: an axis-aligned square with the given half-extent.
#[derive(Debug, Clone, Copy, PartialEq, Eq, Structural)]
pub struct Collision {
    pub radius: i64,
}

/// Shooter state: time left before the next shot, the cooldown set after a
/// shot (both in milliseconds), and the speed given to each projectile.
#[derive(Debug, Clone, Copy, PartialEq, Eq, Structural)]
pub struct Shooting {
    pub cooldown: i64,
    pub max_cooldown: i64,
    pub speed: i64,
}

/// Velocity of a projectile, in world units per second.
#[derive(Debug, Clone, Copy, PartialEq, Eq, Structural)]
pub struct Projectile {
    pub velocity_x: i64,
    pub velocity_y: i64,
}

/// Presentation binding: an optional image path, an RGBA tint and a 2D
/// scale multiplier (both in thousandths).
#[derive(Debug)]
pub struct SpriteAsset {
    pub asset_path: Option<String>,
    pub tint_color: [i64; 4],
    pub scale: [i64; 2],
}

impl SpriteAsset {
    /// A binding to `asset_path` with a white tint and unit scale.
    pub fn new(asset_path: Option<String>) -> (r: SpriteAsset)
        ensures
            r.asset_path == asset_path,
            r.tint_color@ == seq![1000i64, 1000, 1000, 1000],
            r.scale@ == seq![1000i64, 1000],
    {
        let r = SpriteAsset { asset_path, tint_color: [1000, 1000, 1000, 1000], scale: [1000, 1000] };
        assert(r.tint_color@ =~= seq![1000i64, 1000, 1000, 1000]);
        assert(r.scale@ =~= seq![1000i64, 1000]);
        r
    }

    /// The tint as (red, green, blue, alpha).
    pub fn get_color(&self) -> (r: [i64; 4])
        ensures
            r@ == self.tint_color@,
    {
        self.tint_color
    }

    pub fn set_color(&mut self, color: [i64; 4])
        ensures
            final(self).tint_color@ == color@,
            final(self).asset_path == old(self).asset_path,
            final(self).scale@ == old(self).scale@,
    {
        self.tint_color = color;
    }

    pub fn get_scale(&self) -> (r: [i64; 2])
        ensures
            r@ == self.scale@,
    {
        self.scale
    }

    pub fn set_scale(&mut self, scale: [i64; 2])
        ensures
            final(self).scale@ == scale@,
            final(self).asset_path == old(self).asset_path,
            final(self).tint_color@ == old(self).tint_color@,
    {
        self.scale = scale;
    }

    /// A copy equal to `self`.
    pub fn duplicate(&self) -> (r: SpriteAsset)
        ensures
            r == *self,
    {
        let asset_path = match &self.asset_path {
            Some(p) => Some(p.clone()),
            None => None,
        };
        SpriteAsset { asset_path, tint_color: self.tint_color, scale: self.scale }
    }
}

/// Position, rotation about the z axis, and 2D scale.
#[derive(Debug, Clone, Copy, PartialEq, Eq, Structural)]
pub struct SerializableTransform {
    pub x: i64,
    pub y: i64,
    pub z: i64,
    pub rotation: i64,
    pub scale_x: i64,
    pub scale_y: i64,
}

impl SerializableTransform {
    /// A transform at (x, y, z), unrotated, with unit scale.
    pub fn from_xyz(x: i64, y: i64, z: i64) -> (r: SerializableTransform)
        ensures
            r == (SerializableTransform { x, y, z, rotation: 0, scale_x: 1000, scale_y: 1000 }),
    {
        SerializableTransform { x, y, z, rotation: 0, scale_x: 1000, scale_y: 1000 }
    }
}

/// One persisted entity: its scene-local id, role, transform and whichever
/// capabilities were present when it was written.
#[derive(Debug)]
pub struct SerializableEntity {
    pub id: u64,
    pub entity_type: EntityType,
    pub transform: SerializableTransform,
    pub health: Option<(i64, i64)>,
    pub collision_radius: Option<i64>,
    pub velocity: Option<(i64, i64)>,
    pub sprite_asset: Option<SpriteAsset>,
}

/// A live entity's capability set.
#[derive(Debug)]
pub struct EntityData {
    pub kind: EntityKind,
    pub id: u64,
    pub transform: SerializableTransform,
    pub health: Option<Health>,
    pub collision: Option<Collision>,
    pub shooting: Option<Shooting>,
    pub projectile: Option<Projectile>,
    pub sprite: Option<SpriteAsset>,
    pub selected: bool,
}

/// Default health of a freshly made player.
pub const PLAYER_HEALTH: i64 = 100;
/// Default health of a freshly made enemy.
pub const ENEMY_HEALTH: i64 = 50;
pub const PLAYER_RADIUS: i64 = 25;
pub const ENEMY_RADIUS: i64 = 20;
pub const PROJECTILE_RADIUS: i64 = 5;
/// Default projectile velocity: straight up.
pub const PROJECTILE_SPEED: i64 = 400;
/// Cooldown after each shot, in milliseconds.
pub const SHOT_COOLDOWN_MS: i64 = 300;
pub const SHOT_SPEED: i64 = 300;

pub open spec fn kind_of(t: EntityType) -> EntityKind {
    match t {
        EntityType::Player => EntityKind::Player,
        EntityType::Enemy => EntityKind::Enemy,
        EntityType::Projectile => EntityKind::Projectile,
    }
}

pub open spec fn role_of(k: EntityKind) -> Option<EntityType> {
    match k {
        EntityKind::Player => Some(EntityType::Player),
        EntityKind::Enemy => Some(EntityType::Enemy),
        EntityKind::Projectile => Some(EntityType::Projectile),
        _ => None,
    }
}

pub open spec fn default_health(t: EntityType) -> Option<Health> {
    match t {
        EntityType::Player => Some(Health { current: PLAYER_HEALTH, max: PLAYER_HEALTH }),
        EntityType::Enemy => Some(Health { current: ENEMY_HEALTH, max: ENEMY_HEALTH }),
        EntityType::Projectile => None,
    }
}

pub open spec fn default_radius(t: EntityType) -> i64 {
    match t {
        EntityType::Player => PLAYER_RADIUS,
        EntityType::Enemy => ENEMY_RADIUS,
        EntityType::Projectile => PROJECTILE_RADIUS,
    }
}

pub open spec fn fresh_shooter() -> Shooting {
    Shooting { cooldown: 0, max_cooldown: SHOT_COOLDOWN_MS, speed: SHOT_SPEED }
}

/// The entity that a record becomes on load: persisted fields as written,
/// role defaults only where a field is absent.
pub open spec fn entity_of_record(r: SerializableEntity) -> EntityData {
    let t = r.entity_type;
    EntityData {
        kind: kind_of(t),
        id: r.id,
        transform: r.transform,
        health: if t == EntityType::Projectile {
            None
        } else {
            match r.health {
                Some(h) => Some(Health { current: h.0, max: h.1 }),
                None => default_health(t),
            }
        },
        collision: Some(
            Collision {
                radius: match r.collision_radius {
                    Some(c) => c,
                    None => default_radius(t),
                },
            },
        ),
        shooting: if t == EntityType::Player {
            Some(fresh_shooter())
        } else {
            None
        },
        projectile: if t == EntityType::Projectile {
            Some(
                match r.velocity {
                    Some(v) => Projectile { velocity_x: v.0, velocity_y: v.1 },
                    None => Projectile { velocity_x: 0, velocity_y: PROJECTILE_SPEED },
                },
            )
        } else {
            None
        },
        sprite: r.sprite_asset,
        selected: false,
    }
}

/// The record written for an entity; `None` for entities without a role.
pub open spec fn record_of(e: EntityData) -> Option<SerializableEntity> {
    match role_of(e.kind) {
        Some(t) => Some(
            SerializableEntity {
                id: e.id,
                entity_type: t,
                transform: e.transform,
                health: match e.health {
                    Some(h) => Some((h.current, h.max)),
                    None => None,
                },
                collision_radius: match e.collision {
                    Some(c) => Some(c.radius),
                    None => None,
                },
                velocity: match e.projectile {
                    Some(p) => Some((p.velocity_x, p.velocity_y)),
                    None => None,
                },
                sprite_asset: e.sprite,
            },
        ),
        None => None,
    }
}

/// A role-bearing entity carries exactly the capabilities its role calls for.
pub open spec fn complete(e: EntityData) -> bool {
    match e.kind {
        EntityKind::Player => e.health.is_some() && e.collision.is_some() && e.shooting.is_some()
            && e.projectile.is_none(),
        EntityKind::Enemy => e.health.is_some() && e.collision.is_some() && e.shooting.is_none()
            && e.projectile.is_none(),
        EntityKind::Projectile => e.health.is_none() && e.collision.is_some()
            && e.shooting.is_none() && e.projectile.is_some(),
        _ => true,
    }
}

/// A record in the form that writing a complete entity produces: every
/// capability its role owns is present, and no other.
pub open spec fn normalized(r: SerializableEntity) -> bool {
    &&& r.collision_radius.is_some()
    &&& r.health.is_some() == (r.entity_type != EntityType::Projectile)
    &&& r.velocity.is_some() == (r.entity_type == EntityType::Projectile)
}

impl SerializableEntity {
    /// The entity this record describes, with role defaults synthesized for
    /// absent capabilities.
    pub fn to_entity(&self) -> (e: EntityData)
        ensures
            e == entity_of_record(*self),
    {
        let t = self.entity_type;
        let kind = match t {
            EntityType::Player => EntityKind::Player,
            EntityType::Enemy => EntityKind::Enemy,
            EntityType::Projectile => EntityKind::Projectile,
        };
        let health = match t {
            EntityType::Projectile => None,
            EntityType::Player => match self.health {
                Some(h) => Some(Health { current: h.0, max: h.1 }),
                None => Some(Health { current: PLAYER_HEALTH, max: PLAYER_HEALTH }),
            },
            EntityType::Enemy => match self.health {
                Some(h) => Some(Health { current: h.0, max: h.1 }),
                None => Some(Health { current: ENEMY_HEALTH, max: ENEMY_HEALTH }),
            },
        };
        let radius = match self.collision_radius {
            Some(c) => c,
            None => match t {
                EntityType::Player => PLAYER_RADIUS,
                EntityType::Enemy => ENEMY_RADIUS,
                EntityType::Projectile => PROJECTILE_RADIUS,
            },
        };
        let shooting = match t {
            EntityType::Player => Some(
                Shooting { cooldown: 0, max_cooldown: SHOT_COOLDOWN_MS, speed: SHOT_SPEED },
            ),
            _ => None,
        };
        let projectile = match t {
            EntityType::Projectile => Some(
                match self.velocity {
                    Some(v) => Projectile { velocity_x: v.0, velocity_y: v.1 },
                    None => Projectile { velocity_x: 0, velocity_y: PROJECTILE_SPEED },
                },
            ),
            _ => None,
        };
        let sprite = match &self.sprite_asset {
            Some(s) => Some(s.duplicate()),
            None => None,
        };
        EntityData {
            kind,
            id: self.id,
            transform: self.transform,
            health,
            collision: Some(Collision { radius }),
            shooting,
            projectile,
            sprite,
            selected: false,
        }
    }

    /// A copy equal to `self`.
    pub fn duplicate(&self) -> (r: SerializableEntity)
        ensures
            r == *self,
    {
        let sprite_asset = match &self.sprite_asset {
            Some(s) => Some(s.duplicate()),
            None => None,
        };
        SerializableEntity {
            id: self.id,
            entity_type: self.entity_type,
            transform: self.transform,
            health: self.health,
            collision_radius: self.collision_radius,
            velocity: self.velocity,
            sprite_asset,
        }
    }
}

impl EntityData {
    /// The role of this entity, if it has one.
    pub fn role(&self) -> (r: Option<EntityType>)
        ensures
            r == role_of(self.kind),
    {
        match self.kind {
            EntityKind::Player => Some(EntityType::Player),
            EntityKind::Enemy => Some(EntityType::Enemy),
            EntityKind::Projectile => Some(EntityType::Projectile),
            _ => None,
        }
    }

    /// The record written for this entity, if it has a role.
    pub fn to_record(&self) -> (r: Option<SerializableEntity>)
        ensures
            r == record_of(*self),
    {
        match self.role() {
            Some(t) => {
                let sprite_asset = match &self.sprite {
                    Some(s) => Some(s.duplicate()),
                    None => None,
                };
                Some(
                    SerializableEntity {
                        id: self.id,
                        entity_type: t,
                        transform: self.transform,
                        health: match self.health {
                            Some(h) => Some((h.current, h.max)),
                            None => None,
                        },
                        collision_radius: match self.collision {
                            Some(c) => Some(c.radius),
                            None => None,
                        },
                        velocity: match self.projectile {
                            Some(p) => Some((p.velocity_x, p.velocity_y)),
                            None => None,
                        },
                        sprite_asset,
                    },
                )
            },
            None => None,
        }
    }

    /// A copy equal to `self`.
    pub fn duplicate(&self) -> (r: EntityData)
        ensures
            r == *self,
    {
        let sprite = match &self.sprite {
            Some(s) => Some(s.duplicate()),
            None => None,
        };
        EntityData {
            kind: self.kind,
            id: self.id,
            transform: self.transform,
            health: self.health,
            collision: self.collision,
            shooting: self.shooting,
            projectile: self.projectile,
            sprite,
            selected: self.selected,
        }
    }
}

/// Loading a record yields a complete entity.
pub proof fn lemma_loaded_entity_complete(r: SerializableEntity)
    ensures
        complete(entity_of_record(r)),
        role_of(entity_of_record(r).kind) == Some(r.entity_type),
        !entity_of_record(r).selected,
{
}

/// Writing a complete entity yields a normalized record.
pub proof fn lemma_written_record_normalized(e: EntityData)
    requires
        complete(e),
        role_of(e.kind).is_some(),
    ensures
        normalized(record_of(e).unwrap()),
{
}

/// A normalized record survives loading and writing unchanged.
pub proof fn lemma_record_round_trip(r: SerializableEntity)
    requires
        normalized(r),
    ensures
        record_of(entity_of_record(r)) == Some(r),
{
}

} // verus!
