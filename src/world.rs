//! The session: all entities, the arena, counters, and the per-tick update.
use vstd::prelude::*;
use crate::chance::random_in;
use crate::arena::{Arena, SHRINK_STEP};
use crate::entity::{
    Entity, Role, bounded_position, clamped, displaced, inside, reflected,
    MAX_STEP_MS, RADIUS_LIMIT,
};
use crate::geometry::{Vec2, along, scale_along, trunc_div};

verus! {

pub const PLAYER_RADIUS: i64 = 8;
pub const PLAYER_SPEED: i64 = 300;
pub const PLAYER_START_X: i64 = 30;
pub const PLAYER_START_Y: i64 = 400;
pub const COIN_RADIUS: i64 = 6;
pub const COIN_START_X: i64 = 1170;
pub const COIN_START_Y: i64 = 400;
pub const ARENA_START_X: i64 = 20;
pub const ARENA_START_Y: i64 = 20;
pub const ARENA_START_W: i64 = 1160;
pub const ARENA_START_H: i64 = 760;
pub const ENEMY_RADIUS: i64 = 8;
pub const ENEMY_SPEED_MIN: i64 = 250;
pub const ENEMY_SPEED_SPAN: i64 = 150;
pub const ENEMY_DIR_MIN: i64 = 200;
pub const ENEMY_DIR_SPAN: i64 = 300;
pub const PROJECTILE_RADIUS: i64 = 3;
pub const PROJECTILE_SPEED: i64 = 500;
/// Distance from the player's centre at which a projectile appears.
pub const MUZZLE_OFFSET: i64 = 20;
/// Length of the aim vector in world units.
pub const AIM_LENGTH: i64 = 1000;
/// Shrink distance added to the budget per enemy contact or expired
/// projectile.
pub const SHRINK_PER_EVENT: u64 = 20;
/// Random fractions are drawn in `[0, FRACTION)` and scaled by `1 / FRACTION`.
pub const FRACTION: u64 = 65536;
/// Largest magnitude of a pointer coordinate; farther targets are clipped.
pub const POINTER_LIMIT: i64 = 2097152;

/// A movement key.
#[derive(Clone, Copy, Debug, PartialEq, Eq, Structural)]
pub enum Axis {
    Up,
    Down,
    Left,
    Right,
}

/// What a tick reports to the presentation layer.
#[derive(Clone, Copy, Debug, PartialEq, Eq, Structural)]
pub enum Event {
    ScoreChanged(u64),
    AmmoChanged(u64),
    GameOver,
}

/// The random fractions that a tick may consume, each in `[0, FRACTION)`:
/// the spawned enemy's position, direction and speed, and the coin's new
/// position.
#[derive(Clone, Copy, Debug, PartialEq, Eq, Structural)]
pub struct Draws {
    pub enemy_x: u64,
    pub enemy_y: u64,
    pub enemy_dx: u64,
    pub enemy_dy: u64,
    pub enemy_speed: u64,
    pub coin_x: u64,
    pub coin_y: u64,
}

impl Draws {
    pub open spec fn wf(self) -> bool {
        self.enemy_x < FRACTION && self.enemy_y < FRACTION && self.enemy_dx < FRACTION
            && self.enemy_dy < FRACTION && self.enemy_speed < FRACTION && self.coin_x < FRACTION
            && self.coin_y < FRACTION
    }
}

/// The whole simulation state.
pub struct World {
    pub player: Entity,
    pub coin: Entity,
    pub enemies: Vec<Entity>,
    pub projectiles: Vec<Entity>,
    pub arena: Arena,
    pub score: u64,
    pub ammo: u64,
    /// Pending arena contraction, consumed one step per tick.
    pub shrink_budget: u64,
    pub over: bool,
    /// Unit aim direction scaled to `AIM_LENGTH`.
    pub aim: Vec2,
    /// Last reported pointer position.
    pub pointer: Vec2,
    pub up: bool,
    pub down: bool,
    pub left: bool,
    pub right: bool,
}

/// Mathematical model of a `World`.
pub struct WorldView {
    pub player: Entity,
    pub coin: Entity,
    pub enemies: Seq<Entity>,
    pub projectiles: Seq<Entity>,
    pub arena: Arena,
    pub score: u64,
    pub ammo: u64,
    pub shrink_budget: u64,
    pub over: bool,
    pub aim: Vec2,
    pub pointer: Vec2,
    pub up: bool,
    pub down: bool,
    pub left: bool,
    pub right: bool,
}

impl View for World {
    type V = WorldView;

    open spec fn view(&self) -> WorldView {
        WorldView {
            player: self.player,
            coin: self.coin,
            enemies: self.enemies@,
            projectiles: self.projectiles@,
            arena: self.arena,
            score: self.score,
            ammo: self.ammo,
            shrink_budget: self.shrink_budget,
            over: self.over,
            aim: self.aim,
            pointer: self.pointer,
            up: self.up,
            down: self.down,
            left: self.left,
            right: self.right,
        }
    }
}

/// `a + k`, saturating at `u64::MAX`.
pub open spec fn sat_add(a: int, k: int) -> u64 {
    if a + k > u64::MAX {
        u64::MAX
    } else {
        (a + k) as u64
    }
}

/// The direction that the movement keys give: opposite keys cancel.
pub open spec fn intent_dir(up: bool, down: bool, left: bool, right: bool) -> Vec2 {
    Vec2 {
        x: ((if right { 1int } else { 0 }) - (if left { 1int } else { 0 })) as i64,
        y: ((if down { 1int } else { 0 }) - (if up { 1int } else { 0 })) as i64,
    }
}

pub open spec fn fresh_player(up: bool, down: bool, left: bool, right: bool) -> Entity {
    Entity {
        pos: Vec2 { x: PLAYER_START_X, y: PLAYER_START_Y },
        dir: intent_dir(up, down, left, right),
        speed: PLAYER_SPEED,
        radius: PLAYER_RADIUS,
        alive: true,
        role: Role::Player,
    }
}

pub open spec fn fresh_coin() -> Entity {
    Entity {
        pos: Vec2 { x: COIN_START_X, y: COIN_START_Y },
        dir: Vec2 { x: 0, y: 0 },
        speed: 0,
        radius: COIN_RADIUS,
        alive: true,
        role: Role::Coin,
    }
}

pub open spec fn full_arena() -> Arena {
    Arena { x: ARENA_START_X, y: ARENA_START_Y, w: ARENA_START_W, h: ARENA_START_H }
}

/// The state after a restart: everything of the session is new; the
/// caller's buffered input (pointer, aim, keys held) is kept.
pub open spec fn restarted(w: WorldView) -> WorldView {
    WorldView {
        player: fresh_player(w.up, w.down, w.left, w.right),
        coin: fresh_coin(),
        enemies: Seq::empty(),
        projectiles: Seq::empty(),
        arena: full_arena(),
        score: 0,
        ammo: 0,
        shrink_budget: 0,
        over: false,
        ..w
    }
}

/// The living entities of `s`, in order.
pub open spec fn living(s: Seq<Entity>) -> Seq<Entity>
    decreases s.len(),
{
    if s.len() == 0 {
        Seq::empty()
    } else {
        let rest = living(s.drop_last());
        if s.last().alive {
            rest.push(s.last())
        } else {
            rest
        }
    }
}

impl WorldView {
    pub open spec fn wf(self) -> bool {
        &&& self.arena.wf()
        &&& self.player.wf()
        &&& bounded_position(self.player.pos)
        &&& self.coin.wf()
        &&& (forall|k: int| 0 <= k < self.enemies.len() ==> (#[trigger] self.enemies[k]).wf())
        &&& (forall|k: int|
            0 <= k < self.projectiles.len() ==> (#[trigger] self.projectiles[k]).wf())
        &&& self.aim.within(AIM_LENGTH as int)
        &&& self.pointer.within(POINTER_LIMIT as int)
    }
}

pub proof fn lemma_living_wf(s: Seq<Entity>)
    requires
        forall|k: int| 0 <= k < s.len() && (#[trigger] s[k]).alive ==> s[k].wf(),
    ensures
        forall|k: int| 0 <= k < living(s).len() ==> (#[trigger] living(s)[k]).wf(),
        forall|k: int| 0 <= k < living(s).len() ==> (#[trigger] living(s)[k]).alive,
        living(s).len() <= s.len(),
    decreases s.len(),
{
    if s.len() > 0 {
        lemma_living_wf(s.drop_last());
    }
}

impl WorldView {
    /// Well-formed but for dead enemies and projectiles, which are only
    /// waiting to be removed.
    pub open spec fn sound(self) -> bool {
        &&& self.arena.wf()
        &&& self.player.wf()
        &&& bounded_position(self.player.pos)
        &&& self.coin.wf()
        &&& (forall|k: int|
            0 <= k < self.enemies.len() && (#[trigger] self.enemies[k]).alive ==> self.enemies[k].wf())
        &&& (forall|k: int|
            0 <= k < self.projectiles.len() && (#[trigger] self.projectiles[k]).alive
                ==> self.projectiles[k].wf())
        &&& self.aim.within(AIM_LENGTH as int)
        &&& self.pointer.within(POINTER_LIMIT as int)
    }
}

/// The aim after the pointer moved or the player did: the direction from
/// `from` to the pointer scaled to `AIM_LENGTH`, or the previous aim when
/// the two coincide.
pub open spec fn aim_toward(pointer: Vec2, from: Vec2, aim: Vec2) -> Vec2 {
    let d = Vec2 { x: (pointer.x - from.x) as i64, y: (pointer.y - from.y) as i64 };
    if d.is_zero() {
        aim
    } else {
        let v = along(d, AIM_LENGTH as int, 1);
        Vec2 { x: v.0 as i64, y: v.1 as i64 }
    }
}

/// An entity advanced by `dt` milliseconds, with no bound applied.
pub open spec fn advanced(e: Entity, dt: int) -> Entity {
    Entity { pos: displaced(e, dt), ..e }
}

pub open spec fn moved_player(p: Entity, a: Arena, dt: int) -> Entity {
    clamped(advanced(p, dt), a)
}

pub open spec fn moved_enemy(e: Entity, a: Arena, dt: int) -> Entity {
    if e.alive {
        reflected(advanced(e, dt), a)
    } else {
        e
    }
}

/// A living projectile that leaves the arena in this step.
pub open spec fn expires(p: Entity, a: Arena, dt: int) -> bool {
    p.alive && !inside(advanced(p, dt), a)
}

pub open spec fn moved_projectile(p: Entity, a: Arena, dt: int) -> Entity {
    if !p.alive {
        p
    } else if expires(p, a, dt) {
        advanced(p, dt).killed()
    } else {
        advanced(p, dt)
    }
}

/// How many projectiles of `ps` expire in this step.
pub open spec fn count_expiring(ps: Seq<Entity>, a: Arena, dt: int) -> nat
    decreases ps.len(),
{
    if ps.len() == 0 {
        0
    } else {
        count_expiring(ps.drop_last(), a, dt) + if expires(ps.last(), a, dt) {
            1nat
        } else {
            0
        }
    }
}

/// The budget after `k` shrink events.
pub open spec fn add_shrink(b: u64, k: nat) -> u64 {
    sat_add(b as int, SHRINK_PER_EVENT * k)
}

/// Motion and boundaries: the player moves and is clamped, the aim follows
/// the pointer, enemies move and bounce, projectiles move and expire at the
/// walls, each expiry adding to the shrink budget.
pub open spec fn motion(w: WorldView, dt: int) -> WorldView {
    let player = moved_player(w.player, w.arena, dt);
    WorldView {
        player,
        aim: aim_toward(w.pointer, player.pos, w.aim),
        enemies: w.enemies.map_values(|e: Entity| moved_enemy(e, w.arena, dt)),
        projectiles: w.projectiles.map_values(|p: Entity| moved_projectile(p, w.arena, dt)),
        shrink_budget: add_shrink(w.shrink_budget, count_expiring(w.projectiles, w.arena, dt)),
        ..w
    }
}

/// A point of `[lo, hi]` chosen by the fraction `f / FRACTION`; `lo` when
/// the interval is empty or a single point.
pub open spec fn pick(lo: int, hi: int, f: int) -> int {
    if hi <= lo {
        lo
    } else {
        lo + (hi - lo) * f / (FRACTION as int)
    }
}

/// The horizontal range of spawn centres for radius `r`: the half of the
/// arena away from the player.
pub open spec fn spawn_x_range(a: Arena, player_x: int, r: int) -> (int, int) {
    let half = a.w / 2;
    if player_x < a.x + half {
        (a.x + half, a.x + a.w - r)
    } else {
        (a.x + r, a.x + half)
    }
}

/// The placement rule: a point in the half of the arena opposite the
/// player, over the full height.
pub open spec fn placement(a: Arena, player_x: int, r: int, fx: int, fy: int) -> Vec2 {
    let rx = spawn_x_range(a, player_x, r);
    Vec2 { x: pick(rx.0, rx.1, fx) as i64, y: pick(a.top(r), a.bottom(r), fy) as i64 }
}

pub open spec fn spawned_enemy(a: Arena, player_x: int, d: Draws) -> Entity {
    Entity {
        pos: placement(a, player_x, ENEMY_RADIUS as int, d.enemy_x as int, d.enemy_y as int),
        dir: Vec2 {
            x: (ENEMY_DIR_MIN + ENEMY_DIR_SPAN * (d.enemy_dx as int) / (FRACTION as int)) as i64,
            y: (ENEMY_DIR_MIN + ENEMY_DIR_SPAN * (d.enemy_dy as int) / (FRACTION as int)) as i64,
        },
        speed: (ENEMY_SPEED_MIN + ENEMY_SPEED_SPAN * (d.enemy_speed as int) / (FRACTION as int)) as i64,
        radius: ENEMY_RADIUS,
        alive: true,
        role: Role::Enemy,
    }
}

/// Coin pickup: score and ammo go up by one, an enemy spawns, and the coin
/// moves to a new place within the arena.
pub open spec fn pickup(w: WorldView, d: Draws) -> WorldView {
    if w.player.hits(w.coin) {
        let spot = placement(w.arena, w.player.pos.x as int, w.coin.radius as int, d.coin_x as int, d.coin_y as int);
        WorldView {
            score: sat_add(w.score as int, 1),
            ammo: sat_add(w.ammo as int, 1),
            enemies: w.enemies.push(spawned_enemy(w.arena, w.player.pos.x as int, d)),
            coin: clamped(Entity { pos: spot, ..w.coin }, w.arena),
            ..w
        }
    } else {
        w
    }
}

/// Index of the first living projectile from `j` on that `e` hits, or -1.
pub open spec fn first_hit(e: Entity, ps: Seq<Entity>, j: int) -> int
    decreases ps.len() - j,
{
    if j < 0 || j >= ps.len() {
        -1
    } else if ps[j].alive && e.hits(ps[j]) {
        j
    } else {
        first_hit(e, ps, j + 1)
    }
}

/// Enemies and projectiles after the first `i` enemies were matched, and
/// the number of kills so far. Each living enemy takes the first living
/// projectile that hits it; both die, so a projectile kills at most one
/// enemy.
pub open spec fn combat_upto(es: Seq<Entity>, ps: Seq<Entity>, i: nat) -> (Seq<Entity>, Seq<Entity>, nat)
    decreases i,
{
    if i == 0 || i > es.len() {
        (es, ps, 0)
    } else {
        let prev = combat_upto(es, ps, (i - 1) as nat);
        let e = es[i - 1];
        let j = first_hit(e, prev.1, 0);
        if e.alive && j >= 0 {
            (prev.0.update(i - 1, e.killed()), prev.1.update(j, prev.1[j].killed()), prev.2 + 1)
        } else {
            prev
        }
    }
}

/// Enemy against projectile: every kill scores one.
pub open spec fn combat(w: WorldView) -> WorldView {
    let c = combat_upto(w.enemies, w.projectiles, w.enemies.len());
    WorldView { enemies: c.0, projectiles: c.1, score: sat_add(w.score as int, c.2 as int), ..w }
}

/// A living enemy that touches the player.
pub open spec fn touches(e: Entity, p: Entity) -> bool {
    e.alive && e.hits(p)
}

pub open spec fn count_touching(es: Seq<Entity>, p: Entity) -> nat
    decreases es.len(),
{
    if es.len() == 0 {
        0
    } else {
        count_touching(es.drop_last(), p) + if touches(es.last(), p) {
            1nat
        } else {
            0
        }
    }
}

pub open spec fn after_contact(e: Entity, p: Entity) -> Entity {
    if touches(e, p) {
        e.killed()
    } else {
        e
    }
}

/// Enemy against player: the enemy dies and the shrink budget grows.
pub open spec fn contact(w: WorldView) -> WorldView {
    WorldView {
        enemies: w.enemies.map_values(|e: Entity| after_contact(e, w.player)),
        shrink_budget: add_shrink(w.shrink_budget, count_touching(w.enemies, w.player)),
        ..w
    }
}

/// One shrink step while budget remains; the coin is clamped to the new
/// bounds at once.
pub open spec fn shrink_phase(w: WorldView) -> WorldView {
    if w.shrink_budget > 0 {
        let a = w.arena.shrunk();
        WorldView {
            arena: a,
            shrink_budget: (w.shrink_budget - SHRINK_STEP) as u64,
            coin: clamped(w.coin, a),
            ..w
        }
    } else {
        w
    }
}

/// Dead enemies and projectiles are removed.
pub open spec fn compact(w: WorldView) -> WorldView {
    WorldView { enemies: living(w.enemies), projectiles: living(w.projectiles), ..w }
}

/// `dt` in milliseconds as one tick integrates it: negative values count as
/// zero, and steps longer than `MAX_STEP_MS` are cut to it.
pub open spec fn step_ms(dt: i64) -> int {
    if dt < 0 {
        0
    } else if dt > MAX_STEP_MS {
        MAX_STEP_MS as int
    } else {
        dt as int
    }
}

/// The arena has shrunk to the player's radius on an axis.
pub open spec fn terminal(w: WorldView) -> bool {
    w.arena.w <= w.player.radius || w.arena.h <= w.player.radius
}

/// One simulation step of `dt` milliseconds with the random fractions `d`.
pub open spec fn tick_model(w: WorldView, dt: int, d: Draws) -> WorldView {
    if w.over {
        w
    } else if terminal(w) {
        WorldView { over: true, ..w }
    } else {
        compact(shrink_phase(contact(combat(pickup(motion(w, dt), d)))))
    }
}

/// What a tick from `before` to `after` reports: the end of the game, or
/// else each counter that changed.
pub open spec fn tick_events(before: WorldView, after: WorldView) -> Seq<Event> {
    if after.over && !before.over {
        seq![Event::GameOver]
    } else {
        (if after.score != before.score {
            seq![Event::ScoreChanged(after.score)]
        } else {
            Seq::empty()
        }) + (if after.ammo != before.ammo {
            seq![Event::AmmoChanged(after.ammo)]
        } else {
            Seq::empty()
        })
    }
}

/// The projectile fired from `pos` along `aim`.
pub open spec fn new_projectile(pos: Vec2, aim: Vec2) -> Entity {
    Entity {
        pos: Vec2 {
            x: (pos.x + trunc_div(aim.x * MUZZLE_OFFSET, AIM_LENGTH as int)) as i64,
            y: (pos.y + trunc_div(aim.y * MUZZLE_OFFSET, AIM_LENGTH as int)) as i64,
        },
        dir: aim,
        speed: PROJECTILE_SPEED,
        radius: PROJECTILE_RADIUS,
        alive: true,
        role: Role::Projectile,
    }
}

/// Firing: with ammo left and the game running, one unit of ammo becomes a
/// projectile; otherwise nothing changes.
pub open spec fn fired(w: WorldView) -> WorldView {
    if w.ammo == 0 || w.over {
        w
    } else {
        WorldView {
            ammo: (w.ammo - 1) as u64,
            projectiles: w.projectiles.push(new_projectile(w.player.pos, w.aim)),
            ..w
        }
    }
}

/// A movement key pressed or released.
pub open spec fn with_intent(w: WorldView, axis: Axis, pressed: bool) -> WorldView {
    let up = if axis == Axis::Up { pressed } else { w.up };
    let down = if axis == Axis::Down { pressed } else { w.down };
    let left = if axis == Axis::Left { pressed } else { w.left };
    let right = if axis == Axis::Right { pressed } else { w.right };
    WorldView {
        up,
        down,
        left,
        right,
        player: Entity { dir: intent_dir(up, down, left, right), ..w.player },
        ..w
    }
}

pub open spec fn clip_pointer(c: int) -> int {
    if c < -POINTER_LIMIT {
        -POINTER_LIMIT as int
    } else if c > POINTER_LIMIT {
        POINTER_LIMIT as int
    } else {
        c
    }
}

proof fn lemma_pick_bounds(lo: int, hi: int, f: int)
    requires
        lo <= hi,
        0 <= f < FRACTION,
    ensures
        lo <= pick(lo, hi, f) <= hi,
{
    if lo < hi {
        assert(0 <= (hi - lo) * f / (FRACTION as int) <= hi - lo) by (nonlinear_arith)
            requires
                lo < hi,
                0 <= f < 65536,
                FRACTION == 65536,
        ;
    }
}

/// Picking up the coin adds one to score and ammo, spawns one enemy, and
/// puts the coin inside the arena in the half away from the player, for an
/// arena at least two coin diameters wide and one high.
pub proof fn lemma_pickup_places_coin_opposite(w: WorldView, d: Draws)
    requires
        w.sound(),
        d.wf(),
        w.player.hits(w.coin),
        w.arena.w >= 4 * w.coin.radius,
        w.arena.h >= 2 * w.coin.radius,
    ensures
        pickup(w, d).score == sat_add(w.score as int, 1),
        pickup(w, d).ammo == sat_add(w.ammo as int, 1),
        pickup(w, d).enemies.len() == w.enemies.len() + 1,
        inside(pickup(w, d).coin, w.arena),
        w.player.pos.x < w.arena.x + w.arena.w / 2 ==> pickup(w, d).coin.pos.x >= w.arena.x
            + w.arena.w / 2,
        w.player.pos.x >= w.arena.x + w.arena.w / 2 ==> pickup(w, d).coin.pos.x <= w.arena.x
            + w.arena.w / 2,
{
    let a = w.arena;
    let r = w.coin.radius as int;
    let rx = spawn_x_range(a, w.player.pos.x as int, r);
    lemma_pick_bounds(rx.0, rx.1, d.coin_x as int);
    lemma_pick_bounds(a.top(r), a.bottom(r), d.coin_y as int);
}

/// Restarting is idempotent: a second restart yields the state that the
/// first one did.
pub proof fn lemma_restart_idempotent(w: WorldView)
    ensures
        restarted(restarted(w)) == restarted(w),
{
}

/// The arena never grows in a tick, and a running session never sees a
/// negative extent.
pub proof fn lemma_arena_shrinks_monotonically(w: WorldView, dt: int, d: Draws)
    requires
        w.wf(),
    ensures
        tick_model(w, dt, d).arena.w <= w.arena.w,
        tick_model(w, dt, d).arena.h <= w.arena.h,
        tick_model(w, dt, d).arena.w >= 0,
        tick_model(w, dt, d).arena.h >= 0,
{
}

/// Once over, a session stays as it is under every tick; and a tick that
/// starts with the arena at or below the player's radius ends the game.
pub proof fn lemma_game_over_is_final(w: WorldView, dt: int, d: Draws)
    ensures
        w.over ==> tick_model(w, dt, d) == w,
        terminal(w) ==> tick_model(w, dt, d).over,
        w.over ==> tick_events(w, tick_model(w, dt, d)) == Seq::<Event>::empty(),
{
    if w.over {
        assert(tick_events(w, w) =~= Seq::<Event>::empty());
    }
}

/// A projectile that leaves the arena is dead after the motion step, and
/// after the tick no dead projectile remains.
pub proof fn lemma_expired_projectiles_removed(w: WorldView, dt: int, d: Draws, k: int)
    requires
        w.wf(),
        !w.over,
        !terminal(w),
        0 <= k < w.projectiles.len(),
        expires(w.projectiles[k], w.arena, dt),
    ensures
        !motion(w, dt).projectiles[k].alive,
        forall|j: int|
            0 <= j < tick_model(w, dt, d).projectiles.len()
                ==> (#[trigger] tick_model(w, dt, d).projectiles[j]).alive,
{
    let s = shrink_phase(contact(combat(pickup(motion(w, dt), d))));
    lemma_living_alive(s.projectiles);
}

/// Each expiring projectile adds one shrink increment to the budget.
pub proof fn lemma_expiry_budget(w: WorldView, dt: int, k: int)
    requires
        0 <= k < w.projectiles.len(),
    ensures
        count_expiring(w.projectiles.subrange(0, k + 1), w.arena, dt) == count_expiring(
            w.projectiles.subrange(0, k),
            w.arena,
            dt,
        ) + if expires(w.projectiles[k], w.arena, dt) {
            1int
        } else {
            0
        },
{
    assert(w.projectiles.subrange(0, k + 1).drop_last() =~= w.projectiles.subrange(0, k));
}

pub proof fn lemma_living_alive(s: Seq<Entity>)
    ensures
        forall|k: int| 0 <= k < living(s).len() ==> (#[trigger] living(s)[k]).alive,
    decreases s.len(),
{
    if s.len() > 0 {
        lemma_living_alive(s.drop_last());
    }
}

impl World {
    pub open spec fn wf(&self) -> bool {
        self@.wf()
    }

    /// A new session: default player, coin and arena, no enemies or
    /// projectiles, zero counters, aiming to the right.
    pub fn new() -> (r: World)
        ensures
            r@ == restarted(r@),
            r.aim == (Vec2 { x: AIM_LENGTH, y: 0 }),
            r.pointer == (Vec2 { x: 0, y: 0 }),
            !r.up && !r.down && !r.left && !r.right,
            r.wf(),
    {
        World {
            player: Entity {
                pos: Vec2 { x: PLAYER_START_X, y: PLAYER_START_Y },
                dir: Vec2 { x: 0, y: 0 },
                speed: PLAYER_SPEED,
                radius: PLAYER_RADIUS,
                alive: true,
                role: Role::Player,
            },
            coin: Entity {
                pos: Vec2 { x: COIN_START_X, y: COIN_START_Y },
                dir: Vec2 { x: 0, y: 0 },
                speed: 0,
                radius: COIN_RADIUS,
                alive: true,
                role: Role::Coin,
            },
            enemies: Vec::new(),
            projectiles: Vec::new(),
            arena: Arena { x: ARENA_START_X, y: ARENA_START_Y, w: ARENA_START_W, h: ARENA_START_H },
            score: 0,
            ammo: 0,
            shrink_budget: 0,
            over: false,
            aim: Vec2 { x: AIM_LENGTH, y: 0 },
            pointer: Vec2 { x: 0, y: 0 },
            up: false,
            down: false,
            left: false,
            right: false,
        }
    }

    /// Resets the session fully, keeping the caller's buffered input.
    pub fn restart(&mut self)
        requires
            old(self).wf(),
        ensures
            final(self)@ == restarted(old(self)@),
            final(self).wf(),
    {
        let dir: Vec2 = Vec2 {
            x: (if self.right { 1i64 } else { 0 }) - (if self.left { 1i64 } else { 0 }),
            y: (if self.down { 1i64 } else { 0 }) - (if self.up { 1i64 } else { 0 }),
        };
        self.player = Entity {
            pos: Vec2 { x: PLAYER_START_X, y: PLAYER_START_Y },
            dir,
            speed: PLAYER_SPEED,
            radius: PLAYER_RADIUS,
            alive: true,
            role: Role::Player,
        };
        self.coin = Entity {
            pos: Vec2 { x: COIN_START_X, y: COIN_START_Y },
            dir: Vec2 { x: 0, y: 0 },
            speed: 0,
            radius: COIN_RADIUS,
            alive: true,
            role: Role::Coin,
        };
        self.enemies = Vec::new();
        self.projectiles = Vec::new();
        self.arena = Arena { x: ARENA_START_X, y: ARENA_START_Y, w: ARENA_START_W, h: ARENA_START_H };
        self.score = 0;
        self.ammo = 0;
        self.shrink_budget = 0;
        self.over = false;
        assert(self@ =~= restarted(old(self)@));
    }
}

impl World {
    /// Points the aim from the player toward the pointer.
    fn update_aim(&mut self)
        requires
            old(self)@.sound(),
        ensures
            *final(self) == (World { aim: aim_toward(old(self).pointer, old(self).player.pos, old(self).aim), ..*old(self) }),
            final(self)@.sound(),
    {
        let d: Vec2 = Vec2 { x: self.pointer.x - self.player.pos.x, y: self.pointer.y - self.player.pos.y };
        if d.x != 0 || d.y != 0 {
            self.aim = scale_along(d, AIM_LENGTH, 1);
        }
    }

    /// Moves every living enemy and bounces it off the walls.
    fn advance_enemies(&mut self, dt: i64)
        requires
            old(self)@.sound(),
            0 <= dt <= MAX_STEP_MS,
        ensures
            final(self)@ == (WorldView { enemies: old(self)@.enemies.map_values(|e: Entity| moved_enemy(e, old(self).arena, dt as int)), ..old(self)@ }),
            final(self)@.sound(),
    {
        let n: usize = self.enemies.len();
        let mut i: usize = 0;
        while i < n
            invariant
                n == self.enemies.len(),
                n == old(self).enemies.len(),
                i <= n,
                old(self)@.sound(),
                self@ == (WorldView { enemies: self@.enemies, ..old(self)@ }),
                0 <= dt <= MAX_STEP_MS,
                forall|k: int| 0 <= k < i ==> self.enemies@[k] == moved_enemy(old(self).enemies@[k], old(self).arena, dt as int),
                forall|k: int| i <= k < n ==> self.enemies@[k] == old(self).enemies@[k],
                forall|k: int| 0 <= k < i && (#[trigger] self.enemies@[k]).alive ==> self.enemies@[k].wf(),
            decreases n - i,
        {
            let mut e: Entity = self.enemies[i];
            if e.alive {
                assert(old(self)@.enemies[i as int].alive);
                e.pos = e.displacement(dt);
                e.reflect_in(self.arena);
            }
            self.enemies.set(i, e);
            i += 1;
        }
        assert(self@.enemies =~= old(self)@.enemies.map_values(|e: Entity| moved_enemy(e, old(self).arena, dt as int)));
    }

    /// Moves every living projectile; one that leaves the arena dies and
    /// adds to the shrink budget.
    fn advance_projectiles(&mut self, dt: i64)
        requires
            old(self)@.sound(),
            0 <= dt <= MAX_STEP_MS,
        ensures
            final(self)@ == (WorldView {
                projectiles: old(self)@.projectiles.map_values(|p: Entity| moved_projectile(p, old(self).arena, dt as int)),
                shrink_budget: add_shrink(old(self).shrink_budget, count_expiring(old(self)@.projectiles, old(self).arena, dt as int)),
                ..old(self)@
            }),
            final(self)@.sound(),
    {
        let n: usize = self.projectiles.len();
        let mut i: usize = 0;
        while i < n
            invariant
                n == self.projectiles.len(),
                n == old(self).projectiles.len(),
                i <= n,
                old(self)@.sound(),
                self@ == (WorldView { projectiles: self@.projectiles, shrink_budget: self.shrink_budget, ..old(self)@ }),
                0 <= dt <= MAX_STEP_MS,
                self.shrink_budget == add_shrink(old(self).shrink_budget, count_expiring(old(self)@.projectiles.subrange(0, i as int), old(self).arena, dt as int)),
                forall|k: int| 0 <= k < i ==> self.projectiles@[k] == moved_projectile(old(self).projectiles@[k], old(self).arena, dt as int),
                forall|k: int| i <= k < n ==> self.projectiles@[k] == old(self).projectiles@[k],
                forall|k: int| 0 <= k < i && (#[trigger] self.projectiles@[k]).alive ==> self.projectiles@[k].wf(),
            decreases n - i,
        {
            let ghost before = old(self)@.projectiles.subrange(0, i as int);
            assert(old(self)@.projectiles.subrange(0, i + 1).drop_last() =~= before);
            let mut p: Entity = self.projectiles[i];
            if p.alive {
                assert(old(self)@.projectiles[i as int].alive);
                p.pos = p.displacement(dt);
                if !p.is_inside(self.arena) {
                    p.alive = false;
                    self.shrink_budget = if self.shrink_budget > u64::MAX - SHRINK_PER_EVENT {
                        u64::MAX
                    } else {
                        self.shrink_budget + SHRINK_PER_EVENT
                    };
                }
            }
            self.projectiles.set(i, p);
            i += 1;
        }
        assert(old(self)@.projectiles.subrange(0, n as int) =~= old(self)@.projectiles);
        assert(self@.projectiles =~= old(self)@.projectiles.map_values(|p: Entity| moved_projectile(p, old(self).arena, dt as int)));
    }

    /// Motion and boundaries for the whole world.
    pub fn advance(&mut self, dt: i64)
        requires
            old(self)@.sound(),
            0 <= dt <= MAX_STEP_MS,
        ensures
            final(self)@ == motion(old(self)@, dt as int),
            final(self)@.sound(),
    {
        self.player.pos = self.player.displacement(dt);
        self.player.clamp_to(self.arena);
        self.update_aim();
        self.advance_enemies(dt);
        self.advance_projectiles(dt);
        assert(self@ =~= motion(old(self)@, dt as int));
    }
}

/// The point of `[lo, hi]` at fraction `f / FRACTION`.
pub fn pick_between(lo: i64, hi: i64, f: u64) -> (r: i64)
    requires
        -POINTER_LIMIT <= lo <= POINTER_LIMIT,
        -POINTER_LIMIT <= hi <= POINTER_LIMIT,
        f < FRACTION,
    ensures
        r == pick(lo as int, hi as int, f as int),
        lo <= hi ==> lo <= r <= hi,
        hi < lo ==> r == lo,
{
    if hi <= lo {
        lo
    } else {
        let span: i64 = hi - lo;
        assert(0 <= span * (f as i64) <= span * 65536) by (nonlinear_arith)
            requires
                0 < span,
                0 <= f < 65536,
        ;
        assert(span * (f as i64) / 65536 <= span) by (nonlinear_arith)
            requires
                0 < span,
                0 <= span * (f as i64) <= span * 65536,
        ;
        lo + span * (f as i64) / (FRACTION as i64)
    }
}

/// The centre picked by the placement rule.
fn place(a: Arena, player_x: i64, r: i64, fx: u64, fy: u64) -> (p: Vec2)
    requires
        a.wf(),
        -POINTER_LIMIT <= player_x <= POINTER_LIMIT,
        1 <= r <= RADIUS_LIMIT,
        fx < FRACTION,
        fy < FRACTION,
    ensures
        p == placement(a, player_x as int, r as int, fx as int, fy as int),
        bounded_position(p),
{
    let half: i64 = a.w / 2;
    let x: i64 = if player_x < a.x + half {
        pick_between(a.x + half, a.x + a.w - r, fx)
    } else {
        pick_between(a.x + r, a.x + half, fx)
    };
    let y: i64 = pick_between(a.y + r, a.y + a.h - r, fy);
    Vec2 { x, y }
}

/// Index of the first living projectile of `ps` that `e` hits.
fn first_hit_index(e: &Entity, ps: &Vec<Entity>) -> (r: Option<usize>)
    requires
        e.wf(),
        forall|k: int| 0 <= k < ps.len() && (#[trigger] ps@[k]).alive ==> ps@[k].wf(),
    ensures
        match r {
            Some(j) => j < ps.len() && j == first_hit(*e, ps@, 0),
            None => first_hit(*e, ps@, 0) == -1,
        },
{
    let mut j: usize = 0;
    while j < ps.len()
        invariant
            j <= ps.len(),
            e.wf(),
            forall|k: int| 0 <= k < ps.len() && (#[trigger] ps@[k]).alive ==> ps@[k].wf(),
            first_hit(*e, ps@, 0) == first_hit(*e, ps@, j as int),
        decreases ps.len() - j,
    {
        if ps[j].alive && e.collides(&ps[j]) {
            return Some(j);
        }
        j += 1;
    }
    None
}

impl World {
    /// The player picks up the coin if they overlap.
    fn collect_coin(&mut self, d: Draws)
        requires
            old(self)@.sound(),
            d.wf(),
        ensures
            final(self)@ == pickup(old(self)@, d),
            final(self)@.sound(),
    {
        if self.player.collides(&self.coin) {
            self.score = if self.score == u64::MAX { u64::MAX } else { self.score + 1 };
            self.ammo = if self.ammo == u64::MAX { u64::MAX } else { self.ammo + 1 };
            let pos: Vec2 = place(self.arena, self.player.pos.x, ENEMY_RADIUS, d.enemy_x, d.enemy_y);
            let dx: i64 = ENEMY_DIR_MIN + ENEMY_DIR_SPAN * (d.enemy_dx as i64) / (FRACTION as i64);
            let dy: i64 = ENEMY_DIR_MIN + ENEMY_DIR_SPAN * (d.enemy_dy as i64) / (FRACTION as i64);
            let speed: i64 = ENEMY_SPEED_MIN + ENEMY_SPEED_SPAN * (d.enemy_speed as i64) / (FRACTION as i64);
            let enemy: Entity = Entity {
                pos,
                dir: Vec2 { x: dx, y: dy },
                speed,
                radius: ENEMY_RADIUS,
                alive: true,
                role: Role::Enemy,
            };
            assert(enemy == spawned_enemy(old(self).arena, old(self).player.pos.x as int, d));
            self.enemies.push(enemy);
            let spot: Vec2 = place(self.arena, self.player.pos.x, self.coin.radius, d.coin_x, d.coin_y);
            self.coin.pos = spot;
            self.coin.clamp_to(self.arena);
            assert(self@.enemies =~= old(self)@.enemies.push(enemy));
            assert(self@ =~= pickup(old(self)@, d));
        }
    }

    /// Each living enemy is matched with the first living projectile that
    /// hits it; both die and the score goes up.
    fn resolve_shots(&mut self)
        requires
            old(self)@.sound(),
        ensures
            final(self)@ == combat(old(self)@),
            final(self)@.sound(),
    {
        let n: usize = self.enemies.len();
        let ghost es = old(self)@.enemies;
        let ghost ps = old(self)@.projectiles;
        let mut i: usize = 0;
        while i < n
            invariant
                n == self.enemies.len(),
                n == es.len(),
                i <= n,
                es == old(self)@.enemies,
                ps == old(self)@.projectiles,
                self.projectiles.len() == ps.len(),
                self@ == (WorldView { enemies: self@.enemies, projectiles: self@.projectiles, score: self.score, ..old(self)@ }),
                old(self)@.sound(),
                self@.enemies == combat_upto(es, ps, i as nat).0,
                self@.projectiles == combat_upto(es, ps, i as nat).1,
                self.score == sat_add(old(self).score as int, combat_upto(es, ps, i as nat).2 as int),
                forall|k: int| i <= k < n ==> self.enemies@[k] == es[k],
                forall|k: int| 0 <= k < n && (#[trigger] self.enemies@[k]).alive ==> self.enemies@[k].wf(),
                forall|k: int| 0 <= k < self.projectiles.len() && (#[trigger] self.projectiles@[k]).alive ==> self.projectiles@[k].wf(),
            decreases n - i,
        {
            let e: Entity = self.enemies[i];
            if e.alive {
                match first_hit_index(&e, &self.projectiles) {
                    Some(j) => {
                        let mut shot: Entity = self.projectiles[j];
                        shot.alive = false;
                        self.projectiles.set(j, shot);
                        let mut dead: Entity = e;
                        dead.alive = false;
                        self.enemies.set(i, dead);
                        self.score = if self.score == u64::MAX { u64::MAX } else { self.score + 1 };
                    },
                    None => {},
                }
            }
            i += 1;
        }
    }

    /// Living enemies that touch the player die; each adds to the shrink
    /// budget.
    fn resolve_contacts(&mut self)
        requires
            old(self)@.sound(),
        ensures
            final(self)@ == contact(old(self)@),
            final(self)@.sound(),
    {
        let n: usize = self.enemies.len();
        let mut i: usize = 0;
        while i < n
            invariant
                n == self.enemies.len(),
                n == old(self).enemies.len(),
                i <= n,
                old(self)@.sound(),
                self@ == (WorldView { enemies: self@.enemies, shrink_budget: self.shrink_budget, ..old(self)@ }),
                self.shrink_budget == add_shrink(old(self).shrink_budget, count_touching(old(self)@.enemies.subrange(0, i as int), old(self).player)),
                forall|k: int| 0 <= k < i ==> self.enemies@[k] == after_contact(old(self).enemies@[k], old(self).player),
                forall|k: int| i <= k < n ==> self.enemies@[k] == old(self).enemies@[k],
                forall|k: int| 0 <= k < i && (#[trigger] self.enemies@[k]).alive ==> self.enemies@[k].wf(),
            decreases n - i,
        {
            assert(old(self)@.enemies.subrange(0, i + 1).drop_last() =~= old(self)@.enemies.subrange(0, i as int));
            let e: Entity = self.enemies[i];
            if e.alive && e.collides(&self.player) {
                let mut dead: Entity = e;
                dead.alive = false;
                self.enemies.set(i, dead);
                self.shrink_budget = if self.shrink_budget > u64::MAX - SHRINK_PER_EVENT {
                    u64::MAX
                } else {
                    self.shrink_budget + SHRINK_PER_EVENT
                };
            }
            i += 1;
        }
        assert(old(self)@.enemies.subrange(0, n as int) =~= old(self)@.enemies);
        assert(self@.enemies =~= old(self)@.enemies.map_values(|e: Entity| after_contact(e, old(self).player)));
    }

    /// One shrink step while budget remains.
    fn consume_shrink(&mut self)
        requires
            old(self)@.sound(),
            old(self).arena.w >= 2 * SHRINK_STEP,
            old(self).arena.h >= 2 * SHRINK_STEP,
        ensures
            final(self)@ == shrink_phase(old(self)@),
            final(self)@.sound(),
    {
        if self.shrink_budget > 0 {
            self.arena.shrink();
            self.shrink_budget = self.shrink_budget - SHRINK_STEP as u64;
            self.coin.clamp_to(self.arena);
        }
    }
}

impl World {
    /// Removes dead enemies and projectiles.
    fn compact_all(&mut self)
        requires
            old(self)@.sound(),
        ensures
            final(self)@ == compact(old(self)@),
            final(self)@.wf(),
    {
        proof {
            lemma_living_wf(self@.enemies);
            lemma_living_wf(self@.projectiles);
        }
        self.enemies = remove_dead(&self.enemies);
        self.projectiles = remove_dead(&self.projectiles);
        assert(self@ =~= compact(old(self)@));
    }

    /// One simulation step of `dt` milliseconds, taking the random fractions
    /// from `d`. Returns the events of the step.
    pub fn tick_with(&mut self, dt: i64, d: Draws) -> (events: Vec<Event>)
        requires
            old(self).wf(),
            d.wf(),
        ensures
            final(self)@ == tick_model(old(self)@, step_ms(dt), d),
            final(self).wf(),
            events@ == tick_events(old(self)@, final(self)@),
    {
        let mut events: Vec<Event> = Vec::new();
        if self.over {
            return events;
        }
        if self.arena.w <= self.player.radius || self.arena.h <= self.player.radius {
            self.over = true;
            events.push(Event::GameOver);
            assert(events@ =~= tick_events(old(self)@, self@));
            return events;
        }
        let step: i64 = if dt < 0 {
            0
        } else if dt > MAX_STEP_MS {
            MAX_STEP_MS
        } else {
            dt
        };
        let score: u64 = self.score;
        let ammo: u64 = self.ammo;
        self.advance(step);
        self.collect_coin(d);
        self.resolve_shots();
        self.resolve_contacts();
        self.consume_shrink();
        self.compact_all();
        if self.score != score {
            events.push(Event::ScoreChanged(self.score));
        }
        if self.ammo != ammo {
            events.push(Event::AmmoChanged(self.ammo));
        }
        assert(events@ =~= tick_events(old(self)@, self@));
        events
    }

    /// One simulation step of `dt` milliseconds, drawing the random
    /// fractions from the thread's random source.
    pub fn tick(&mut self, dt: i64) -> (events: Vec<Event>)
        requires
            old(self).wf(),
        ensures
            exists|d: Draws|
                d.wf() && final(self)@ == tick_model(old(self)@, step_ms(dt), d) && events@
                    == tick_events(old(self)@, final(self)@),
            final(self).wf(),
    {
        let d: Draws = draw_fractions();
        self.tick_with(dt, d)
    }

    /// Fires a projectile along the aim if ammo is left; returns whether
    /// one was fired.
    pub fn fire(&mut self) -> (fired_one: bool)
        requires
            old(self).wf(),
        ensures
            final(self)@ == fired(old(self)@),
            fired_one == (old(self).ammo > 0 && !old(self).over),
            final(self).wf(),
    {
        if self.ammo == 0 || self.over {
            return false;
        }
        let ox: i64 = self.aim.x * MUZZLE_OFFSET;
        let oy: i64 = self.aim.y * MUZZLE_OFFSET;
        let dx: i64 = if ox >= 0 { ox / AIM_LENGTH } else { -((-ox) / AIM_LENGTH) };
        let dy: i64 = if oy >= 0 { oy / AIM_LENGTH } else { -((-oy) / AIM_LENGTH) };
        let shot: Entity = Entity {
            pos: Vec2 { x: self.player.pos.x + dx, y: self.player.pos.y + dy },
            dir: self.aim,
            speed: PROJECTILE_SPEED,
            radius: PROJECTILE_RADIUS,
            alive: true,
            role: Role::Projectile,
        };
        assert(shot == new_projectile(old(self).player.pos, old(self).aim));
        self.projectiles.push(shot);
        self.ammo = self.ammo - 1;
        assert(self@ =~= fired(old(self)@));
        true
    }

    /// Records a movement key as pressed or released; the player's
    /// direction follows the keys held.
    pub fn set_move_intent(&mut self, axis: Axis, pressed: bool)
        requires
            old(self).wf(),
        ensures
            final(self)@ == with_intent(old(self)@, axis, pressed),
            final(self).wf(),
    {
        match axis {
            Axis::Up => self.up = pressed,
            Axis::Down => self.down = pressed,
            Axis::Left => self.left = pressed,
            Axis::Right => self.right = pressed,
        }
        let dir: Vec2 = Vec2 {
            x: (if self.right { 1i64 } else { 0 }) - (if self.left { 1i64 } else { 0 }),
            y: (if self.down { 1i64 } else { 0 }) - (if self.up { 1i64 } else { 0 }),
        };
        self.player.dir = dir;
        assert(self@ =~= with_intent(old(self)@, axis, pressed));
    }

    /// Records the pointer position that the aim follows from the next tick
    /// on; coordinates beyond `POINTER_LIMIT` are clipped to it.
    pub fn set_aim_target(&mut self, x: i64, y: i64)
        requires
            old(self).wf(),
        ensures
            final(self)@ == (WorldView {
                pointer: Vec2 { x: clip_pointer(x as int) as i64, y: clip_pointer(y as int) as i64 },
                ..old(self)@
            }),
            final(self).wf(),
    {
        let cx: i64 = if x < -POINTER_LIMIT { -POINTER_LIMIT } else if x > POINTER_LIMIT { POINTER_LIMIT } else { x };
        let cy: i64 = if y < -POINTER_LIMIT { -POINTER_LIMIT } else if y > POINTER_LIMIT { POINTER_LIMIT } else { y };
        self.pointer = Vec2 { x: cx, y: cy };
    }
}

/// Random fractions for one tick, each in `[0, FRACTION)`.
pub fn draw_fractions() -> (d: Draws)
    ensures
        d.wf(),
{
    Draws {
        enemy_x: random_in(0, FRACTION),
        enemy_y: random_in(0, FRACTION),
        enemy_dx: random_in(0, FRACTION),
        enemy_dy: random_in(0, FRACTION),
        enemy_speed: random_in(0, FRACTION),
        coin_x: random_in(0, FRACTION),
        coin_y: random_in(0, FRACTION),
    }
}

/// Removes the dead entities of `v`, keeping the order of the living.
pub fn remove_dead(v: &Vec<Entity>) -> (r: Vec<Entity>)
    ensures
        r@ == living(v@),
{
    let mut out: Vec<Entity> = Vec::new();
    let mut i: usize = 0;
    while i < v.len()
        invariant
            i <= v.len(),
            out@ == living(v@.subrange(0, i as int)),
        decreases v.len() - i,
    {
        assert(v@.subrange(0, i + 1).drop_last() =~= v@.subrange(0, i as int));
        if v[i].alive {
            out.push(v[i]);
        }
        i += 1;
    }
    assert(v@.subrange(0, v.len() as int) =~= v@);
    out
}

} // verus!
