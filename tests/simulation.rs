use shrink_arena::arena::Arena;
use shrink_arena::entity::{Entity, Role};
use shrink_arena::geometry::{isqrt, scale_along, Vec2};
use shrink_arena::world::{draw_fractions, pick_between, remove_dead, Axis, Draws, Event, World, FRACTION};

fn zero_draws() -> Draws {
    Draws { enemy_x: 0, enemy_y: 0, enemy_dx: 0, enemy_dy: 0, enemy_speed: 0, coin_x: 0, coin_y: 0 }
}

fn still(x: i64, y: i64, radius: i64, role: Role) -> Entity {
    Entity { pos: Vec2 { x, y }, dir: Vec2 { x: 0, y: 0 }, speed: 0, radius, alive: true, role }
}

#[test]
fn isqrt_rounds_down() {
    assert_eq!(isqrt(0), 0);
    assert_eq!(isqrt(1), 1);
    assert_eq!(isqrt(15), 3);
    assert_eq!(isqrt(16), 4);
    assert_eq!(isqrt(131072), 362);
    assert_eq!(isqrt(0x4000_0000_0000_0000), 0x8000_0000);
}

#[test]
fn scale_along_normalises() {
    assert_eq!(scale_along(Vec2 { x: 3, y: 4 }, 1000, 1), Vec2 { x: 600, y: 800 });
    assert_eq!(scale_along(Vec2 { x: -3, y: -4 }, 1000, 1), Vec2 { x: -600, y: -800 });
    assert_eq!(scale_along(Vec2 { x: 0, y: 0 }, 1000, 1), Vec2 { x: 0, y: 0 });
    assert_eq!(scale_along(Vec2 { x: 7, y: 0 }, 300, 10), Vec2 { x: 30, y: 0 });
}

#[test]
fn displacement_follows_direction_and_speed() {
    let mut e = still(100, 100, 8, Role::Player);
    e.speed = 300;
    e.dir = Vec2 { x: 1, y: 0 };
    assert_eq!(e.displacement(100), Vec2 { x: 130, y: 100 });
    e.dir = Vec2 { x: 1, y: 1 };
    assert_eq!(e.displacement(100), Vec2 { x: 121, y: 121 });
    e.dir = Vec2 { x: 0, y: 0 };
    assert_eq!(e.displacement(100), Vec2 { x: 100, y: 100 });
}

#[test]
fn collision_is_symmetric_and_strict() {
    let a = still(0, 0, 3, Role::Player);
    let b = still(5, 0, 2, Role::Coin);
    assert!(!a.collides(&b));
    assert!(!b.collides(&a));
    let c = still(4, 0, 2, Role::Coin);
    assert!(a.collides(&c));
    assert!(c.collides(&a));
}

#[test]
fn clamp_keeps_centre_inside() {
    let arena = Arena { x: 20, y: 20, w: 100, h: 50 };
    let mut e = still(500, -30, 6, Role::Coin);
    e.clamp_to(arena);
    assert_eq!(e.pos, Vec2 { x: 114, y: 26 });
    assert!(e.is_inside(arena));
}

#[test]
fn enemy_reflects_off_wall() {
    let mut w = World::new();
    let mut e = still(1160, 400, 8, Role::Enemy);
    e.dir = Vec2 { x: 1, y: 0 };
    e.speed = 1000;
    w.enemies.push(e);
    w.tick_with(100, zero_draws());
    assert_eq!(w.enemies.len(), 1);
    assert_eq!(w.enemies[0].pos, Vec2 { x: 1172, y: 400 });
    assert_eq!(w.enemies[0].dir, Vec2 { x: -1, y: 0 });
}

#[test]
fn coin_pickup_scores_and_spawns() {
    let mut w = World::new();
    w.player.pos = Vec2 { x: 1170, y: 400 };
    let events = w.tick_with(16, zero_draws());
    assert_eq!(w.score, 1);
    assert_eq!(w.ammo, 1);
    assert_eq!(w.enemies.len(), 1);
    assert_eq!(events, vec![Event::ScoreChanged(1), Event::AmmoChanged(1)]);
    // The player is in the right half, so both spawn in the left half.
    assert_eq!(w.enemies[0].pos, Vec2 { x: 28, y: 28 });
    assert_eq!(w.enemies[0].dir, Vec2 { x: 200, y: 200 });
    assert_eq!(w.enemies[0].speed, 250);
    assert_eq!(w.coin.pos, Vec2 { x: 26, y: 26 });
    assert!(w.coin.pos.x <= 20 + 1160 / 2);
    assert!(w.coin.is_inside(w.arena));
}

#[test]
fn coin_pickup_with_half_fractions() {
    let mut w = World::new();
    w.player.pos = Vec2 { x: 1170, y: 400 };
    let half = FRACTION / 2;
    let d = Draws { enemy_x: half, enemy_y: half, enemy_dx: half, enemy_dy: 0, enemy_speed: half, coin_x: half, coin_y: half };
    w.tick_with(16, d);
    assert_eq!(w.enemies[0].pos, Vec2 { x: 314, y: 400 });
    assert_eq!(w.enemies[0].dir, Vec2 { x: 350, y: 200 });
    assert_eq!(w.enemies[0].speed, 325);
    assert_eq!(w.coin.pos, Vec2 { x: 313, y: 400 });
}

#[test]
fn coin_spawns_right_when_player_left() {
    let mut w = World::new();
    w.coin.pos = Vec2 { x: 30, y: 400 };
    w.tick_with(0, zero_draws());
    assert_eq!(w.score, 1);
    assert_eq!(w.coin.pos, Vec2 { x: 600, y: 26 });
    assert_eq!(w.enemies[0].pos, Vec2 { x: 600, y: 28 });
}

#[test]
fn shrink_is_monotone_while_budget_lasts() {
    let mut w = World::new();
    w.shrink_budget = 3;
    let mut last = w.arena;
    for _ in 0..5 {
        w.tick_with(16, zero_draws());
        assert!(w.arena.w <= last.w && w.arena.h <= last.h);
        last = w.arena;
    }
    assert_eq!(w.arena, Arena { x: 23, y: 23, w: 1154, h: 754 });
    assert_eq!(w.shrink_budget, 0);
}

#[test]
fn terminal_arena_ends_the_game() {
    let mut w = World::new();
    w.arena = Arena { x: 0, y: 0, w: 5, h: 500 };
    assert_eq!(w.player.radius, 8);
    let events = w.tick_with(16, zero_draws());
    assert!(w.over);
    assert_eq!(events, vec![Event::GameOver]);
    let player = w.player;
    for _ in 0..3 {
        let events = w.tick_with(16, zero_draws());
        assert!(events.is_empty());
        assert!(w.over);
        assert_eq!(w.player, player);
        assert_eq!(w.arena, Arena { x: 0, y: 0, w: 5, h: 500 });
    }
    assert!(!w.fire());
    w.restart();
    assert!(!w.over);
    assert_eq!(w.arena, Arena { x: 20, y: 20, w: 1160, h: 760 });
}

#[test]
fn wide_enough_arena_keeps_playing() {
    let mut w = World::new();
    w.arena = Arena { x: 0, y: 0, w: 20, h: 500 };
    let events = w.tick_with(16, zero_draws());
    assert!(!w.over);
    assert!(events.is_empty());
    assert_eq!(w.player.pos, Vec2 { x: 12, y: 400 });
}

#[test]
fn projectile_expires_at_wall_and_adds_budget() {
    let mut w = World::new();
    w.ammo = 1;
    assert!(w.fire());
    assert_eq!(w.ammo, 0);
    assert_eq!(w.projectiles.len(), 1);
    assert_eq!(w.projectiles[0].pos, Vec2 { x: 50, y: 400 });
    w.tick_with(1000, zero_draws());
    assert_eq!(w.projectiles[0].pos, Vec2 { x: 550, y: 400 });
    w.tick_with(1000, zero_draws());
    assert_eq!(w.projectiles[0].pos, Vec2 { x: 1050, y: 400 });
    assert_eq!(w.shrink_budget, 0);
    w.tick_with(1000, zero_draws());
    assert!(w.projectiles.is_empty());
    // One increment of 20, of which this tick's shrink step consumed one.
    assert_eq!(w.shrink_budget, 19);
    assert_eq!(w.arena, Arena { x: 21, y: 21, w: 1158, h: 758 });
}

#[test]
fn fire_without_ammo_does_nothing() {
    let mut w = World::new();
    assert!(!w.fire());
    assert!(w.projectiles.is_empty());
    assert_eq!(w.ammo, 0);
}

#[test]
fn projectile_kills_one_enemy() {
    let mut w = World::new();
    w.enemies.push(still(500, 400, 8, Role::Enemy));
    w.enemies.push(still(502, 400, 8, Role::Enemy));
    w.projectiles.push(Entity { pos: Vec2 { x: 500, y: 400 }, dir: Vec2 { x: 1000, y: 0 }, speed: 0, radius: 3, alive: true, role: Role::Projectile });
    let events = w.tick_with(16, zero_draws());
    // A projectile is consumed by the first enemy it hits.
    assert_eq!(w.score, 1);
    assert_eq!(w.enemies.len(), 1);
    assert_eq!(w.enemies[0].pos, Vec2 { x: 502, y: 400 });
    assert!(w.projectiles.is_empty());
    assert_eq!(events, vec![Event::ScoreChanged(1)]);
}

#[test]
fn enemy_touching_player_dies_and_shrinks() {
    let mut w = World::new();
    w.enemies.push(still(35, 400, 8, Role::Enemy));
    w.enemies.push(still(36, 401, 8, Role::Enemy));
    let events = w.tick_with(16, zero_draws());
    assert!(w.enemies.is_empty());
    assert_eq!(w.shrink_budget, 39);
    assert_eq!(w.score, 0);
    assert!(events.is_empty());
    assert_eq!(w.arena, Arena { x: 21, y: 21, w: 1158, h: 758 });
}

#[test]
fn movement_keys_combine_and_cancel() {
    let mut w = World::new();
    w.set_move_intent(Axis::Right, true);
    assert_eq!(w.player.dir, Vec2 { x: 1, y: 0 });
    w.tick_with(100, zero_draws());
    assert_eq!(w.player.pos, Vec2 { x: 60, y: 400 });
    w.set_move_intent(Axis::Left, true);
    assert_eq!(w.player.dir, Vec2 { x: 0, y: 0 });
    w.set_move_intent(Axis::Up, true);
    assert_eq!(w.player.dir, Vec2 { x: 0, y: -1 });
    w.set_move_intent(Axis::Left, false);
    w.set_move_intent(Axis::Up, false);
    w.set_move_intent(Axis::Down, true);
    assert_eq!(w.player.dir, Vec2 { x: 1, y: 1 });
}

#[test]
fn player_is_clamped_at_wall() {
    let mut w = World::new();
    w.set_move_intent(Axis::Left, true);
    w.tick_with(1000, zero_draws());
    assert_eq!(w.player.pos, Vec2 { x: 28, y: 400 });
}

#[test]
fn negative_and_long_steps_are_bounded() {
    let mut w = World::new();
    w.set_move_intent(Axis::Down, true);
    w.tick_with(-50, zero_draws());
    assert_eq!(w.player.pos, Vec2 { x: 30, y: 400 });
    w.tick_with(5000, zero_draws());
    assert_eq!(w.player.pos, Vec2 { x: 30, y: 700 });
}

#[test]
fn aim_follows_pointer() {
    let mut w = World::new();
    w.set_aim_target(30, 0);
    w.tick_with(0, zero_draws());
    assert_eq!(w.aim, Vec2 { x: 0, y: -1000 });
    w.set_aim_target(30, 400);
    w.tick_with(0, zero_draws());
    assert_eq!(w.aim, Vec2 { x: 0, y: -1000 });
    w.set_aim_target(60, 440);
    w.tick_with(0, zero_draws());
    assert_eq!(w.aim, Vec2 { x: 600, y: 800 });
    w.ammo = 1;
    assert!(w.fire());
    assert_eq!(w.projectiles[0].pos, Vec2 { x: 42, y: 416 });
    assert_eq!(w.projectiles[0].dir, Vec2 { x: 600, y: 800 });
}

#[test]
fn pointer_is_clipped() {
    let mut w = World::new();
    w.set_aim_target(i64::MAX, i64::MIN);
    assert_eq!(w.pointer, Vec2 { x: 2097152, y: -2097152 });
}

#[test]
fn restart_twice_equals_once() {
    let mut w = World::new();
    w.score = 5;
    w.ammo = 2;
    w.shrink_budget = 7;
    w.arena = Arena { x: 40, y: 40, w: 100, h: 100 };
    w.enemies.push(still(60, 60, 8, Role::Enemy));
    w.over = true;
    w.restart();
    let once = (w.player, w.coin, w.arena, w.score, w.ammo, w.shrink_budget, w.over, w.enemies.clone(), w.projectiles.clone());
    w.restart();
    let twice = (w.player, w.coin, w.arena, w.score, w.ammo, w.shrink_budget, w.over, w.enemies.clone(), w.projectiles.clone());
    assert_eq!(once, twice);
    assert_eq!(once.2, Arena { x: 20, y: 20, w: 1160, h: 760 });
    assert_eq!(once.3, 0);
    assert!(once.7.is_empty());
}

#[test]
fn pick_between_spans_interval() {
    assert_eq!(pick_between(10, 20, 0), 10);
    assert_eq!(pick_between(10, 20, FRACTION / 2), 15);
    assert_eq!(pick_between(10, 20, FRACTION - 1), 19);
    assert_eq!(pick_between(20, 10, FRACTION / 2), 20);
}

#[test]
fn remove_dead_keeps_living_in_order() {
    let mut a = still(1, 1, 1, Role::Enemy);
    let b = still(2, 2, 1, Role::Enemy);
    let c = still(3, 3, 1, Role::Enemy);
    a.alive = false;
    let out = remove_dead(&vec![a, b, c]);
    assert_eq!(out, vec![b, c]);
}

#[test]
fn random_fractions_are_in_range_and_vary() {
    let mut seen_nonzero = false;
    for _ in 0..20 {
        let d = draw_fractions();
        for f in [d.enemy_x, d.enemy_y, d.enemy_dx, d.enemy_dy, d.enemy_speed, d.coin_x, d.coin_y] {
            assert!(f < FRACTION);
            if f != 0 {
                seen_nonzero = true;
            }
        }
    }
    assert!(seen_nonzero);
}

#[test]
fn random_tick_keeps_spawn_in_opposite_half() {
    let mut w = World::new();
    w.player.pos = Vec2 { x: 1170, y: 400 };
    w.tick(16);
    assert_eq!(w.score, 1);
    assert!(w.enemies[0].pos.x >= 28 && w.enemies[0].pos.x <= 600);
    assert!(w.coin.pos.x >= 26 && w.coin.pos.x <= 600);
    assert!(w.coin.is_inside(w.arena));
}
