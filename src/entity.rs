//! The moving circle shared by player, coin, enemies and projectiles.
use vstd::prelude::*;
use crate::arena::{Arena, clamp_axis, reflect_axis, clamp_coordinate, reflect_coordinate, ARENA_LIMIT};
use crate::geometry::{Vec2, along, circles_overlap, norm_squared, scale_along};

verus! {

/// Largest magnitude of a position component of an entity.
pub const POSITION_LIMIT: i64 = 4194304;

/// Largest magnitude of a direction component of an entity.
pub const DIRECTION_LIMIT: i64 = 4096;

/// Largest radius of an entity.
pub const RADIUS_LIMIT: i64 = 1024;

/// Largest speed of an entity, in world units per second.
pub const SPEED_LIMIT: i64 = 8192;

/// Longest time step, in milliseconds, that one tick integrates.
pub const MAX_STEP_MS: i64 = 1000;

/// Milliseconds per second.
pub const MS_PER_SECOND: i64 = 1000;

/// Which behaviour policy an entity follows.
#[derive(Clone, Copy, Debug, PartialEq, Eq, Structural)]
pub enum Role {
    Player,
    Coin,
    Enemy,
    Projectile,
}

/// A moving circle. `dir` need not be normalised; the zero vector means
/// the entity stands still.
#[derive(Clone, Copy, Debug, PartialEq, Eq, Structural)]
pub struct Entity {
    pub pos: Vec2,
    pub dir: Vec2,
    pub speed: i64,
    pub radius: i64,
    pub alive: bool,
    pub role: Role,
}

/// Position components that a moved, not yet bounded entity may reach.
pub open spec fn moved_limit() -> int {
    POSITION_LIMIT + SPEED_LIMIT
}

/// The position after travelling `speed * dt_ms / 1000` world units along
/// the normalised direction; no movement for a zero direction.
pub open spec fn displaced(e: Entity, dt_ms: int) -> Vec2 {
    let step = along(e.dir, e.speed * dt_ms, MS_PER_SECOND as int);
    Vec2 { x: (e.pos.x + step.0) as i64, y: (e.pos.y + step.1) as i64 }
}

/// The entity clipped into the arena on both axes.
pub open spec fn clamped(e: Entity, a: Arena) -> Entity {
    Entity {
        pos: Vec2 {
            x: clamp_axis(e.pos.x as int, a.left(e.radius as int), a.right(e.radius as int)) as i64,
            y: clamp_axis(e.pos.y as int, a.top(e.radius as int), a.bottom(e.radius as int)) as i64,
        },
        ..e
    }
}

/// The entity bounced off the arena's walls on both axes.
pub open spec fn reflected(e: Entity, a: Arena) -> Entity {
    let hx = reflect_axis(e.pos.x as int, e.dir.x as int, a.left(e.radius as int), a.right(e.radius as int));
    let hy = reflect_axis(e.pos.y as int, e.dir.y as int, a.top(e.radius as int), a.bottom(e.radius as int));
    Entity {
        pos: Vec2 { x: hx.0 as i64, y: hy.0 as i64 },
        dir: Vec2 { x: hx.1 as i64, y: hy.1 as i64 },
        ..e
    }
}

/// The centre lies within the arena shrunk by the entity's radius.
pub open spec fn inside(e: Entity, a: Arena) -> bool {
    a.left(e.radius as int) <= e.pos.x <= a.right(e.radius as int) && a.top(e.radius as int)
        <= e.pos.y <= a.bottom(e.radius as int)
}

/// Positions that bounding against a valid arena can produce.
pub open spec fn bounded_position(p: Vec2) -> bool {
    p.within(ARENA_LIMIT + RADIUS_LIMIT)
}

impl Entity {
    pub open spec fn wf(self) -> bool {
        self.pos.within(POSITION_LIMIT as int) && self.dir.within(DIRECTION_LIMIT as int) && 1
            <= self.radius <= RADIUS_LIMIT && 0 <= self.speed <= SPEED_LIMIT
    }

    /// The same entity, marked dead.
    pub open spec fn killed(self) -> Entity {
        Entity { alive: false, ..self }
    }

    /// The two circles overlap.
    pub open spec fn hits(self, other: Entity) -> bool {
        circles_overlap(self.pos, self.radius as int, other.pos, other.radius as int)
    }

    /// Whether this entity's circle overlaps `other`'s.
    pub fn collides(&self, other: &Entity) -> (r: bool)
        requires
            self.pos.within(moved_limit()),
            other.pos.within(moved_limit()),
            1 <= self.radius <= RADIUS_LIMIT,
            1 <= other.radius <= RADIUS_LIMIT,
        ensures
            r == self.hits(*other),
    {
        let d: u64 = norm_squared(self.pos.x - other.pos.x, self.pos.y - other.pos.y);
        let s: i64 = self.radius + other.radius;
        assert(0 < s * s <= 2048 * 2048) by (nonlinear_arith)
            requires
                2 <= s <= 2048,
        ;
        d < (s * s) as u64
    }

    /// The position reached after `dt_ms` milliseconds; the entity itself is
    /// not changed and no bound is applied.
    pub fn displacement(&self, dt_ms: i64) -> (r: Vec2)
        requires
            self.wf(),
            0 <= dt_ms <= MAX_STEP_MS,
        ensures
            r == displaced(*self, dt_ms as int),
            r.within(moved_limit()),
    {
        assert(0 <= self.speed * dt_ms <= SPEED_LIMIT * MAX_STEP_MS) by (nonlinear_arith)
            requires
                0 <= self.speed <= SPEED_LIMIT,
                0 <= dt_ms <= MAX_STEP_MS,
        ;
        let step: Vec2 = scale_along(self.dir, self.speed * dt_ms, MS_PER_SECOND);
        Vec2 { x: self.pos.x + step.x, y: self.pos.y + step.y }
    }

    /// Clips the position into the arena (the policy of player and coin).
    pub fn clamp_to(&mut self, a: Arena)
        requires
            a.wf(),
            1 <= old(self).radius <= RADIUS_LIMIT,
        ensures
            *final(self) == clamped(*old(self), a),
            bounded_position(final(self).pos),
    {
        let x: i64 = clamp_coordinate(self.pos.x, a.x + self.radius, a.x + a.w - self.radius);
        let y: i64 = clamp_coordinate(self.pos.y, a.y + self.radius, a.y + a.h - self.radius);
        self.pos = Vec2 { x, y };
    }

    /// Bounces off the arena's walls (the policy of enemies).
    pub fn reflect_in(&mut self, a: Arena)
        requires
            a.wf(),
            old(self).wf() || (old(self).pos.within(moved_limit()) && old(self).dir.within(
                DIRECTION_LIMIT as int,
            ) && 1 <= old(self).radius <= RADIUS_LIMIT),
        ensures
            *final(self) == reflected(*old(self), a),
            final(self).dir.within(DIRECTION_LIMIT as int),
    {
        let hx: (i64, i64) = reflect_coordinate(self.pos.x, self.dir.x, a.x + self.radius, a.x + a.w - self.radius);
        let hy: (i64, i64) = reflect_coordinate(self.pos.y, self.dir.y, a.y + self.radius, a.y + a.h - self.radius);
        self.pos = Vec2 { x: hx.0, y: hy.0 };
        self.dir = Vec2 { x: hx.1, y: hy.1 };
    }

    /// Whether the centre lies within the arena shrunk by the radius (a
    /// projectile outside it expires).
    pub fn is_inside(&self, a: Arena) -> (r: bool)
        requires
            a.wf(),
            1 <= self.radius <= RADIUS_LIMIT,
        ensures
            r == inside(*self, a),
    {
        a.x + self.radius <= self.pos.x && self.pos.x <= a.x + a.w - self.radius && a.y
            + self.radius <= self.pos.y && self.pos.y <= a.y + a.h - self.radius
    }
}

/// Collision is symmetric.
pub proof fn lemma_collision_symmetric(a: Entity, b: Entity)
    ensures
        a.hits(b) == b.hits(a),
{
    let dx = a.pos.x - b.pos.x;
    let dy = a.pos.y - b.pos.y;
    assert(dx * dx == (-dx) * (-dx) && dy * dy == (-dy) * (-dy)) by (nonlinear_arith);
}

/// After clamping into an arena at least as wide and tall as the entity's
/// diameter, the centre lies within `[min + radius, max - radius]` on both
/// axes.
pub proof fn lemma_clamped_inside(e: Entity, a: Arena)
    requires
        a.wf(),
        1 <= e.radius <= RADIUS_LIMIT,
        a.w >= 2 * e.radius,
        a.h >= 2 * e.radius,
    ensures
        inside(clamped(e, a), a),
{
}

/// A reflected entity that was beyond a wall is pinned to it with that
/// direction component reversed.
pub proof fn lemma_reflection_pins(e: Entity, a: Arena)
    requires
        a.wf(),
        1 <= e.radius <= RADIUS_LIMIT,
        e.dir.within(DIRECTION_LIMIT as int),
    ensures
        e.pos.x > a.right(e.radius as int) ==> reflected(e, a).pos.x == a.right(e.radius as int)
            && reflected(e, a).dir.x == -e.dir.x,
        e.pos.x < a.left(e.radius as int) && a.left(e.radius as int) <= a.right(e.radius as int)
            ==> reflected(e, a).pos.x == a.left(e.radius as int) && reflected(e, a).dir.x
            == -e.dir.x,
        e.pos.y > a.bottom(e.radius as int) ==> reflected(e, a).pos.y == a.bottom(e.radius as int)
            && reflected(e, a).dir.y == -e.dir.y,
        e.pos.y < a.top(e.radius as int) && a.top(e.radius as int) <= a.bottom(e.radius as int)
            ==> reflected(e, a).pos.y == a.top(e.radius as int) && reflected(e, a).dir.y
            == -e.dir.y,
{
}

} // verus!
