//! Simulation entities.  Every entity is an axis-aligned rectangle with a
//! faction, a controller, motion state, a collision reaction, combat stats
//! and frame-scheduled effects.  All scalar state is bounded so a tick's
//! arithmetic never overflows.

use vstd::prelude::*;
use crate::geometry::{in_range, Rect, Vector2, LIMIT};

verus! {

/// Faction of the player and of everything the player spawns.
pub const FACTION_PLAYER: u32 = 1;

/// Faction of enemies.
pub const FACTION_ENEMY: u32 = 2;

/// How an entity reacts when another entity slides into it.
#[derive(Clone, Copy, PartialEq, Eq, Structural, Debug)]
pub enum CollisionType {
    /// The mover's displacement on the colliding axis is undone.
    Bounce,
    /// The mover is teleported to the centre of the entity at `target`.
    PortalTo,
    /// The mover passes through.
    Pass,
}

/// Who drives an entity's intent each tick.
#[derive(Clone, Copy, PartialEq, Eq, Structural, Debug)]
pub enum Controller {
    /// Nobody: the entity only falls and collides.
    Idle,
    /// Held keys move it; the camera follows it.
    Player,
    /// Paces along `direction.x`, reverses on a block, hops when grounded.
    AI,
    /// Re-centred every tick on its `target`'s centre plus `direction`.
    FollowTarget,
}

/// A render colour, in thousandths of full intensity per channel.
#[derive(Clone, Copy, PartialEq, Eq, Structural, Debug)]
pub struct Color {
    pub r: u16,
    pub g: u16,
    pub b: u16,
}

/// One simulation entity.
#[derive(Clone, Copy, PartialEq, Eq, Structural, Debug)]
pub struct Object {
    /// Tag gating combat: only differing factions damage each other.
    pub faction: u32,
    /// Who drives this entity.
    pub controller: Controller,
    /// Current bounds.
    pub rect: Rect,
    /// Render-only colour.
    pub color: Color,
    /// Accumulated per-tick displacement.
    pub velocity: Vector2,
    /// Added to `velocity.y` every tick.
    pub gravity: i64,
    /// AI pacing direction, or a projectile's aim offset, as fractions of
    /// `UNIT` or plain offsets.
    pub direction: Vector2,
    /// Reaction when another entity collides into this one.
    pub collision_type: CollisionType,
    /// Scheduled self-removal armed?
    pub destroying: bool,
    /// Frame at which an armed removal happens.
    pub destroy_at_frame: u64,
    /// The player may fire once the frame counter reaches this.
    pub enable_firing_at_frame: u64,
    /// Portal destination, or a projectile's tracked shooter.
    pub target: usize,
    /// Remaining health; never negative.
    pub health: i64,
    /// Entities with positive maximum health can be damaged.
    pub max_health: i64,
    /// One-shot damage payload; zeroed once delivered.
    pub damage: i64,
    /// The health bar is shown while the frame counter is below this.
    pub disable_damage_bar_at_frame: u64,
}

impl Object {
    /// Every scalar field is storable, extents and stats are non-negative.
    pub open spec fn wf(self) -> bool {
        &&& self.rect.wf()
        &&& self.velocity.wf()
        &&& in_range(self.gravity)
        &&& self.direction.wf()
        &&& 0 <= self.health <= LIMIT
        &&& 0 <= self.max_health <= LIMIT
        &&& 0 <= self.damage <= LIMIT
    }

    /// Runtime check that mirrors `wf`, for values arriving from outside
    /// (a loaded save file).
    pub fn check(&self) -> (r: bool)
        ensures
            r == self.wf(),
    {
        -LIMIT <= self.rect.x && self.rect.x <= LIMIT && -LIMIT <= self.rect.y && self.rect.y
            <= LIMIT && 0 <= self.rect.width && self.rect.width <= LIMIT && 0 <= self.rect.height
            && self.rect.height <= LIMIT && -LIMIT <= self.velocity.x && self.velocity.x <= LIMIT
            && -LIMIT <= self.velocity.y && self.velocity.y <= LIMIT && -LIMIT <= self.gravity
            && self.gravity <= LIMIT && -LIMIT <= self.direction.x && self.direction.x <= LIMIT
            && -LIMIT <= self.direction.y && self.direction.y <= LIMIT && 0 <= self.health
            && self.health <= LIMIT && 0 <= self.max_health && self.max_health <= LIMIT && 0
            <= self.damage && self.damage <= LIMIT
    }
}

/// Every entity of a store is well formed.
pub open spec fn all_wf(s: Seq<Object>) -> bool {
    forall|i: int| 0 <= i < s.len() ==> #[trigger] s[i].wf()
}

} // verus!
