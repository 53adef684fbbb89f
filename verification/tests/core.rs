use space_combat::arena::{Entity, Kind, World};
use space_combat::combat::{
    attack, beam_length, despawn_bullet, detect_collision, fire_bullet, CollisionEvent,
    EnemyFireRate, FireRate,
};
use space_combat::culling::cull_tick;
use space_combat::flight::{sample_unit_direction, RandomFlight};
use space_combat::norm::{isqrt, normalize_or_zero};
use space_combat::rng::rand_range_i64;
use space_combat::score::{update_score, BulletHit, GameState};
use space_combat::spawner::{spawn_enemy, spawn_mech, spawn_planets, spawn_rocks};
use space_combat::steer::{control_spaceship, Controls, Frame};
use space_combat::timer::{Timer, TimerMode};
use space_combat::vec3::Vec3Fix;

fn v(x: i64, y: i64, z: i64) -> Vec3Fix {
    Vec3Fix { x, y, z }
}

fn norm_sq(d: Vec3Fix) -> i64 {
    d.x * d.x + d.y * d.y + d.z * d.z
}

fn standard_frame() -> Frame {
    Frame {
        forward: v(0, 0, -1000),
        right: v(1000, 0, 0),
        up: v(0, 1000, 0),
    }
}

fn ship_at(pos: Vec3Fix) -> Entity {
    Entity {
        id: 0,
        kind: Kind::Ship,
        pos,
        vel: v(0, 0, 0),
        force: v(0, 0, 0),
        facing: v(0, 0, -1000),
        has_body: true,
        variant: 0,
        lifetime: None,
        flight: None,
    }
}

fn plain(kind: Kind, pos: Vec3Fix) -> Entity {
    Entity {
        id: 0,
        kind,
        pos,
        vel: v(0, 0, 0),
        force: v(0, 0, 0),
        facing: v(0, 0, 0),
        has_body: true,
        variant: 0,
        lifetime: None,
        flight: None,
    }
}

fn bullet_at(pos: Vec3Fix) -> Entity {
    Entity {
        lifetime: Some(Timer::new(5000, TimerMode::Once)),
        ..plain(Kind::Bullet, pos)
    }
}

// A repeating timer's completions over a run equal the number of full
// periods in the summed elapsed time, and the accumulator ends at the
// remainder.
#[test]
fn repeating_timer_cadence() {
    let mut t = Timer::new(100, TimerMode::Repeating);
    let deltas = [30u64, 50, 40, 80, 30];
    let expected_finished = [false, false, true, true, false];
    let mut finishes = 0u64;
    for (i, d) in deltas.iter().enumerate() {
        t.tick(*d);
        assert_eq!(t.just_finished(), expected_finished[i], "tick {}", i);
        finishes += t.times_finished_this_tick();
    }
    // 230 ms = 2 periods + 30 ms remainder
    assert_eq!(finishes, 2);
    assert_eq!(t.elapsed_ms, 30);
}

#[test]
fn repeating_timer_multi_period_tick() {
    let mut t = Timer::new(100, TimerMode::Repeating);
    t.tick(250);
    assert!(t.just_finished());
    assert_eq!(t.times_finished_this_tick(), 2);
    assert_eq!(t.elapsed_ms, 50);
}

#[test]
fn zero_delta_is_noop() {
    let mut t = Timer::new(100, TimerMode::Repeating);
    t.tick(70);
    t.tick(0);
    assert!(!t.just_finished());
    assert_eq!(t.elapsed_ms, 70);
}

// A one-shot timer reports just_finished on at most one tick, ever.
#[test]
fn once_timer_finishes_at_most_once() {
    let mut t = Timer::new(100, TimerMode::Once);
    let mut count = 0;
    for _ in 0..50 {
        t.tick(60);
        if t.just_finished() {
            count += 1;
        }
    }
    assert_eq!(count, 1);
    assert!(t.is_inert());
    assert_eq!(t.elapsed_ms, 100);
}

#[test]
fn isqrt_exact_values() {
    assert_eq!(isqrt(0), 0);
    assert_eq!(isqrt(1), 1);
    assert_eq!(isqrt(99), 9);
    assert_eq!(isqrt(100), 10);
    assert_eq!(isqrt(1_000_000), 1000);
    assert_eq!(isqrt(999_999), 999);
}

#[test]
fn normalize_exact_pythagorean() {
    let d = normalize_or_zero(v(600, 800, 0));
    assert_eq!(d, v(600, 800, 0));
    let d2 = normalize_or_zero(v(3000, 4000, 0));
    assert_eq!(d2, v(600, 800, 0));
    assert_eq!(normalize_or_zero(v(0, 0, 0)), v(0, 0, 0));
}

// Resampled directions are unit length within the fixed-point tolerance.
#[test]
fn sampled_directions_near_unit() {
    for _ in 0..200 {
        let d = sample_unit_direction();
        let q = norm_sq(d);
        assert!((995_000..=1_021_000).contains(&q), "norm_sq {}", q);
    }
}

#[test]
fn flight_resamples_exactly_on_period() {
    let mut f = RandomFlight::new(v(0, 0, 0), 1000);
    let force = f.tick(400);
    // no resample yet: direction still zero, so no force
    assert_eq!(f.direction, v(0, 0, 0));
    assert_eq!(force, v(0, 0, 0));
    let force = f.tick(600);
    // period complete: direction resampled to a near-unit vector and the
    // wandering force follows it
    let q = norm_sq(f.direction);
    assert!((995_000..=1_021_000).contains(&q));
    assert_eq!(force, v(f.direction.x * 200 / 1000, f.direction.y * 200 / 1000, f.direction.z * 200 / 1000));
    let dir_before = f.direction;
    let _ = f.tick(300);
    // direction is stable between completions
    assert_eq!(f.direction, dir_before);
}

#[test]
fn rand_range_stays_in_bounds() {
    assert_eq!(rand_range_i64(5, 6), 5);
    for _ in 0..100 {
        let r = rand_range_i64(-3, 3);
        assert!((-3..3).contains(&r));
    }
}

// Hit classification counts exactly the pairs with a projectile on one
// side and a target on the other.
#[test]
fn hit_classification_counts_cross_pairs() {
    let mut w = World::new();
    let b1 = w.spawn(bullet_at(v(0, 0, 0)));
    let b2 = w.spawn(bullet_at(v(1, 0, 0)));
    let m1 = w.spawn(plain(Kind::Mech, v(2, 0, 0)));
    let r1 = w.spawn(plain(Kind::Rock, v(3, 0, 0)));
    let events = vec![
        CollisionEvent::Started(b1, m1),
        CollisionEvent::Started(m1, b2),
        CollisionEvent::Started(b1, b2),
        CollisionEvent::Started(r1, m1),
        CollisionEvent::Stopped(b1, m1),
        CollisionEvent::Started(b1, 999),
    ];
    let hit = detect_collision(&w, &events);
    assert_eq!(hit.count, 2);
}

#[test]
fn hit_event_zero_when_nothing_qualifies() {
    let w = World::new();
    let hit = detect_collision(&w, &vec![]);
    assert_eq!(hit.count, 0);
}

// The score grows by exactly the sum of the consumed counts and never
// decreases.
#[test]
fn score_accumulates_hit_counts() {
    let mut g = GameState::new();
    update_score(&mut g, &vec![BulletHit { count: 3 }, BulletHit { count: 4 }]);
    assert_eq!(g.score, 7);
    update_score(&mut g, &vec![]);
    assert_eq!(g.score, 7);
    update_score(&mut g, &vec![BulletHit { count: 0 }]);
    assert_eq!(g.score, 7);
    update_score(&mut g, &vec![BulletHit { count: 1 }]);
    assert_eq!(g.score, 8);
}

// A rock beyond the threshold is removed on the next cull interval; one at
// or under the threshold is never removed.
#[test]
fn culling_removes_only_distant_rocks() {
    let mut w = World::new();
    w.spawn(ship_at(v(0, 0, 0)));
    let far = w.spawn(plain(Kind::Rock, v(2000, 0, 0)));
    let near = w.spawn(plain(Kind::Rock, v(100, 0, 0)));
    let edge = w.spawn(plain(Kind::Rock, v(1500, 0, 0)));
    let mut interval = Timer::new(100, TimerMode::Repeating);
    // a tick short of the interval culls nothing
    cull_tick(&mut w, &mut interval, 40);
    assert_eq!(w.len(), 4);
    // the interval completes: exactly the far rock is removed
    cull_tick(&mut w, &mut interval, 60);
    assert_eq!(w.len(), 3);
    assert!(!w.has_kind(far, Kind::Rock));
    assert!(w.has_kind(near, Kind::Rock));
    assert!(w.has_kind(edge, Kind::Rock));
    // further intervals never remove the near rocks
    for _ in 0..20 {
        cull_tick(&mut w, &mut interval, 100);
    }
    assert!(w.has_kind(near, Kind::Rock));
    assert!(w.has_kind(edge, Kind::Rock));
}

#[test]
fn culling_skipped_without_player() {
    let mut w = World::new();
    w.spawn(plain(Kind::Rock, v(9000, 0, 0)));
    let mut interval = Timer::new(100, TimerMode::Repeating);
    cull_tick(&mut w, &mut interval, 100);
    assert_eq!(w.len(), 1);
}

// Fire-rate period 100 ms, trigger held through 35 ticks of 10 ms:
// exactly three emissions, after the 10th, 20th and 30th tick.
#[test]
fn fire_rate_scenario_three_emissions() {
    let mut w = World::new();
    w.spawn(ship_at(v(0, 0, 0)));
    let mut rate = FireRate(Timer::new(100, TimerMode::Repeating));
    let frame = standard_frame();
    let mut emission_ticks = Vec::new();
    let mut len_before = w.len();
    for tick in 1..=35 {
        fire_bullet(&mut w, &mut rate, 10, true, frame);
        if w.len() > len_before {
            emission_ticks.push(tick);
            // the player's spray is three parallel projectiles
            assert_eq!(w.len(), len_before + 3);
            len_before = w.len();
        }
    }
    assert_eq!(emission_ticks, vec![10, 20, 30]);
}

#[test]
fn fire_needs_trigger_and_ship() {
    let mut w = World::new();
    w.spawn(ship_at(v(0, 0, 0)));
    let mut rate = FireRate(Timer::new(100, TimerMode::Repeating));
    let frame = standard_frame();
    // period completes but the trigger is up: no emission
    fire_bullet(&mut w, &mut rate, 100, false, frame);
    assert_eq!(w.len(), 1);
    // no ship: emission is skipped even with the trigger held
    let mut empty = World::new();
    let mut rate2 = FireRate(Timer::new(100, TimerMode::Repeating));
    fire_bullet(&mut empty, &mut rate2, 100, true, frame);
    assert_eq!(empty.len(), 0);
}

#[test]
fn player_volley_pose_and_velocity() {
    let mut w = World::new();
    w.spawn(ship_at(v(100, 200, 300)));
    let mut rate = FireRate(Timer::new(100, TimerMode::Repeating));
    fire_bullet(&mut w, &mut rate, 100, true, standard_frame());
    assert_eq!(w.len(), 4);
    // forward is -z: the muzzle bullet sits 15 ahead, the spray sits 5 to
    // each side, all flying forward at speed 700
    let b0 = w.ents[1];
    let b1 = w.ents[2];
    let b2 = w.ents[3];
    assert_eq!(b0.pos, v(100, 200, 315));
    assert_eq!(b1.pos, v(95, 200, 300));
    assert_eq!(b2.pos, v(105, 200, 300));
    for b in [b0, b1, b2] {
        assert_eq!(b.vel, v(0, 0, 700));
        assert!(matches!(b.kind, Kind::Bullet));
        assert!(b.lifetime.is_some());
    }
}

// A hostile in range turns to face the ship and fires one projectile
// toward it; hostiles out of range hold their fire.
#[test]
fn enemy_attack_in_range() {
    let mut w = World::new();
    w.spawn(ship_at(v(0, 0, 0)));
    let in_range = w.spawn(plain(Kind::Enemy, v(100, 0, 0)));
    let out_of_range = w.spawn(plain(Kind::Enemy, v(600, 0, 0)));
    let mut rate = EnemyFireRate(Timer::new(1000, TimerMode::Repeating));
    attack(&mut w, &mut rate, 1000);
    assert_eq!(w.len(), 4);
    let bullet = w.ents[3];
    assert!(matches!(bullet.kind, Kind::Bullet));
    // fired from the hostile toward the ship: direction (-1000, 0, 0)
    assert_eq!(bullet.pos, v(85, 0, 0));
    assert_eq!(bullet.vel, v(-100, 0, 0));
    // the firing hostile now faces the ship; the idle one is unchanged
    assert_eq!(w.ents[1].facing, v(-1000, 0, 0));
    assert_eq!(w.ents[1].id, in_range);
    assert_eq!(w.ents[2].facing, v(0, 0, 0));
    assert_eq!(w.ents[2].id, out_of_range);
}

#[test]
fn enemy_attack_waits_for_period() {
    let mut w = World::new();
    w.spawn(ship_at(v(0, 0, 0)));
    w.spawn(plain(Kind::Enemy, v(100, 0, 0)));
    let mut rate = EnemyFireRate(Timer::new(1000, TimerMode::Repeating));
    attack(&mut w, &mut rate, 999);
    assert_eq!(w.len(), 2);
}

// Projectile lifetime 5 s, ticked every 16 ms with no collision: despawned
// on the tick where accumulated time first reaches 5 s, and not before.
#[test]
fn bullet_lifetime_scenario() {
    let mut w = World::new();
    w.spawn(bullet_at(v(0, 0, 0)));
    // 312 ticks accumulate 4992 ms: still alive
    for _ in 0..312 {
        despawn_bullet(&mut w, 16);
    }
    assert_eq!(w.len(), 1);
    // tick 313 reaches 5008 ms >= 5000 ms: despawned exactly now
    despawn_bullet(&mut w, 16);
    assert_eq!(w.len(), 0);
    // despawn happens once; further ticks are harmless
    despawn_bullet(&mut w, 16);
    assert_eq!(w.len(), 0);
}

// A population target of 100 produces exactly 100 entities, each inside
// the configured domain with a physics body registered.
#[test]
fn burst_spawner_population_scenario() {
    let mut w = World::new();
    spawn_enemy(&mut w, 100);
    assert_eq!(w.len(), 100);
    let mut ids = std::collections::HashSet::new();
    for e in &w.ents {
        assert!(matches!(e.kind, Kind::Enemy));
        assert!(e.has_body);
        assert!((-1000..1000).contains(&e.pos.x));
        assert!((-1000..1000).contains(&e.pos.y));
        assert!((-1000..1000).contains(&e.pos.z));
        assert!(e.flight.is_some());
        assert!(ids.insert(e.id), "duplicate id {}", e.id);
    }
}

#[test]
fn mech_burst_draws_variants_from_pool() {
    let mut w = World::new();
    spawn_mech(&mut w, 50, 4);
    assert_eq!(w.len(), 50);
    for e in &w.ents {
        assert!(matches!(e.kind, Kind::Mech));
        assert!(e.variant < 4);
        let f = e.flight.as_ref().unwrap();
        let q = norm_sq(f.direction);
        assert!((995_000..=1_021_000).contains(&q));
    }
}

#[test]
fn planets_one_per_pool_entry() {
    let mut w = World::new();
    spawn_planets(&mut w, 11);
    assert_eq!(w.len(), 11);
    for (i, e) in w.ents.iter().enumerate() {
        assert!(matches!(e.kind, Kind::Planet));
        assert_eq!(e.variant, i);
    }
}

#[test]
fn rock_interval_spawn_near_player() {
    let mut w = World::new();
    w.spawn(ship_at(v(1000, 1000, 1000)));
    let mut interval = Timer::new(3000, TimerMode::Repeating);
    spawn_rocks(&mut w, &mut interval, 2999);
    assert_eq!(w.len(), 1);
    spawn_rocks(&mut w, &mut interval, 1);
    assert_eq!(w.len(), 2);
    let rock = w.ents[1];
    assert!(matches!(rock.kind, Kind::Rock));
    for (c, s) in [(rock.pos.x, 1000), (rock.pos.y, 1000), (rock.pos.z, 1000)] {
        assert!((s + 10..s + 500).contains(&c));
    }
    for vc in [rock.vel.x, rock.vel.y, rock.vel.z] {
        assert!((-100..100).contains(&vc));
    }
}

#[test]
fn rock_spawn_skipped_without_player() {
    let mut w = World::new();
    let mut interval = Timer::new(3000, TimerMode::Repeating);
    spawn_rocks(&mut w, &mut interval, 3000);
    assert_eq!(w.len(), 0);
    // the skipped spawn is not queued: the next completion spawns one, not two
    w.spawn(ship_at(v(0, 0, 0)));
    spawn_rocks(&mut w, &mut interval, 3000);
    assert_eq!(w.len(), 2);
}

#[test]
fn steering_idle_writes_zero() {
    let out = control_spaceship(Controls::default(), standard_frame());
    assert_eq!(out.force, v(0, 0, 0));
    assert_eq!(out.torque, v(0, 0, 0));
    assert!(!out.trail_visible);
}

#[test]
fn steering_forward_thrust() {
    let c = Controls {
        thrust_forward: true,
        ..Controls::default()
    };
    let out = control_spaceship(c, standard_frame());
    // thrust pushes along -forward = +z, normalized then scaled by 600
    assert_eq!(out.force, v(0, 0, 600));
    assert_eq!(out.torque, v(0, 0, 0));
    assert!(out.trail_visible);
}

#[test]
fn steering_opposite_thrust_cancels() {
    let c = Controls {
        thrust_forward: true,
        thrust_back: true,
        ..Controls::default()
    };
    let out = control_spaceship(c, standard_frame());
    assert_eq!(out.force, v(0, 0, 0));
    assert!(out.trail_visible);
}

#[test]
fn steering_yaw_torque() {
    let c = Controls {
        yaw_left: true,
        ..Controls::default()
    };
    let out = control_spaceship(c, standard_frame());
    // yaw left turns about +up, scaled by 200
    assert_eq!(out.torque, v(0, 200, 0));
    assert_eq!(out.force, v(0, 0, 0));
    assert!(!out.trail_visible);
}

#[test]
fn beam_length_fallback() {
    assert_eq!(beam_length(Some(100), 5000), 100);
    assert_eq!(beam_length(None, 5000), 5000);
    assert_eq!(beam_length(Some(6000), 5000), 5000);
}
