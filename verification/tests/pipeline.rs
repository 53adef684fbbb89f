use space_combat::arena::{Entity, Kind};
use space_combat::combat::CollisionEvent;
use space_combat::sim::{SimState, TickInput};
use space_combat::steer::{Controls, Frame};
use space_combat::timer::{Timer, TimerMode};
use space_combat::vec3::Vec3Fix;

fn v(x: i64, y: i64, z: i64) -> Vec3Fix {
    Vec3Fix { x, y, z }
}

fn frame() -> Frame {
    Frame {
        forward: v(0, 0, -1000),
        right: v(1000, 0, 0),
        up: v(0, 1000, 0),
    }
}

fn quiet_input(delta_ms: u64) -> TickInput {
    TickInput {
        delta_ms,
        controls: Controls::default(),
        frame: frame(),
        collisions: Vec::new(),
    }
}

#[test]
fn fresh_sim_holds_one_ship() {
    let s = SimState::new();
    assert_eq!(s.game.score, 0);
    assert_eq!(s.world.ents.len(), 1);
    assert!(matches!(s.world.ents[0].kind, Kind::Ship));
}

#[test]
fn idle_ticks_leave_score_untouched() {
    let mut s = SimState::new();
    for _ in 0..50 {
        let out = s.tick(quiet_input(16));
        assert_eq!(out.hit.count, 0);
        assert_eq!(out.score, 0);
    }
    assert_eq!(s.game.score, 0);
}

// Score after a run of ticks equals the sum of the hit counts the ticks
// emitted, and never decreases along the way.
#[test]
fn score_equals_sum_of_tick_hits() {
    let mut s = SimState::new();
    let mech = Entity {
        id: 0,
        kind: Kind::Mech,
        pos: v(50, 0, 0),
        vel: v(0, 0, 0),
        force: v(0, 0, 0),
        facing: v(0, 0, 0),
        has_body: true,
        variant: 0,
        lifetime: None,
        flight: None,
    };
    let mech_id = s.world.spawn(mech);
    let bullet = Entity {
        id: 0,
        kind: Kind::Bullet,
        pos: v(49, 0, 0),
        vel: v(0, 0, 0),
        force: v(0, 0, 0),
        facing: v(0, 0, 0),
        has_body: true,
        variant: 0,
        lifetime: Some(Timer::new(5000, TimerMode::Once)),
        flight: None,
    };
    let bullet_id = s.world.spawn(bullet);
    let mut emitted = 0u32;
    let mut last_score = 0u32;
    for round in 0..3 {
        let mut input = quiet_input(16);
        if round < 2 {
            input.collisions = vec![
                CollisionEvent::Started(bullet_id, mech_id),
                CollisionEvent::Started(mech_id, bullet_id),
            ];
        }
        let out = s.tick(input);
        emitted += out.hit.count;
        assert!(out.score >= last_score);
        last_score = out.score;
    }
    assert_eq!(emitted, 4);
    assert_eq!(s.game.score, 4);
}

#[test]
fn stale_handles_never_match() {
    let mut s = SimState::new();
    // handles that never existed classify as nothing
    let input = TickInput {
        delta_ms: 16,
        controls: Controls::default(),
        frame: frame(),
        collisions: vec![CollisionEvent::Started(777, 778)],
    };
    let out = s.tick(input);
    assert_eq!(out.hit.count, 0);
    assert_eq!(s.game.score, 0);
}

#[test]
fn trail_follows_thrust_each_tick() {
    let mut s = SimState::new();
    let mut input = quiet_input(16);
    input.controls.thrust_forward = true;
    let out = s.tick(input);
    assert!(out.steer.trail_visible);
    let out = s.tick(quiet_input(16));
    assert!(!out.steer.trail_visible);
}

#[test]
fn held_trigger_emits_through_pipeline() {
    let mut s = SimState::new();
    let mut bullets_seen = 0usize;
    for _ in 0..10 {
        let mut input = quiet_input(10);
        input.controls.fire = true;
        s.tick(input);
    }
    for e in &s.world.ents {
        if matches!(e.kind, Kind::Bullet) {
            bullets_seen += 1;
        }
    }
    // one fire-rate period completed during 100 ms of held trigger
    assert_eq!(bullets_seen, 3);
}
