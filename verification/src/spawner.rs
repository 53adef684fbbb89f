//! Procedural spawning: burst populations at startup and interval-spawned
//! hazards anchored near the player.
//!
//! Positions are drawn uniformly per axis inside an axis-aligned box;
//! resource-pool variants are drawn uniformly and independently of
//! position.

use vstd::prelude::*;
use crate::arena::{Entity, Kind, World};
use crate::flight::{sample_unit_direction, RandomFlight};
use crate::norm::is_unit_fp;
use crate::rng::rand_range_i64;
use crate::timer::Timer;
use crate::vec3::{Vec3Fix, COORD_LIMIT};

verus! {

/// Spawn-domain half-extent of the hostile population.
pub const ENEMY_DOMAIN: i64 = 1000;

/// Spawn-domain half-extent of the mech population.
pub const MECH_DOMAIN: i64 = 2000;

/// Spawn-domain half-extent of the planet field.
pub const PLANET_DOMAIN: i64 = 8000;

/// Spawn-domain half-extent of the decorative star field.
pub const STREAK_DOMAIN: i64 = 1000;

/// Hostiles re-target their random walk on this period.
pub const ENEMY_RETARGET_MS: u64 = 2000;

/// Mechs re-target their random walk on this period.
pub const MECH_RETARGET_MS: u64 = 3000;

/// Rocks spawn on this interval.
pub const ROCK_SPAWN_PERIOD_MS: u64 = 3000;

/// Near-field rock offsets lie in `[ROCK_OFFSET_LO, ROCK_OFFSET_HI)`.
pub const ROCK_OFFSET_LO: i64 = 10;

pub const ROCK_OFFSET_HI: i64 = 500;

/// Rock velocities lie in `[-ROCK_SPEED, ROCK_SPEED)` per axis.
pub const ROCK_SPEED: i64 = 100;

/// Configuration of one burst-spawned population.
pub struct SpawnCfg {
    pub kind: Kind,
    /// Domain per axis: positions are drawn from `[lo, hi)`.
    pub lo: i64,
    pub hi: i64,
    /// Size of the resource pool the variant is drawn from.
    pub pool_size: usize,
    pub has_body: bool,
    /// Period of the random-flight retarget timer; zero means the
    /// population does not wander.
    pub flight_period_ms: u64,
    /// Whether the initial wander direction is sampled or left zero.
    pub sample_direction: bool,
}

impl SpawnCfg {
    pub open spec fn wf(self) -> bool {
        &&& -COORD_LIMIT <= self.lo < self.hi <= COORD_LIMIT
        &&& self.pool_size >= 1
        &&& self.pool_size <= i64::MAX
        &&& !(self.kind is Bullet)
        &&& self.flight_period_ms <= crate::arena::MAX_FLIGHT_PERIOD_MS
    }
}

/// What holds of every entity a burst produces.
pub open spec fn spec_burst_entity_ok(e: Entity, cfg: SpawnCfg, id: u64) -> bool {
    &&& e.id == id
    &&& e.kind == cfg.kind
    &&& cfg.lo <= e.pos.x < cfg.hi
    &&& cfg.lo <= e.pos.y < cfg.hi
    &&& cfg.lo <= e.pos.z < cfg.hi
    &&& e.variant < cfg.pool_size
    &&& e.has_body == cfg.has_body
    &&& e.vel == (Vec3Fix { x: 0, y: 0, z: 0 })
    &&& e.force == (Vec3Fix { x: 0, y: 0, z: 0 })
    &&& e.facing == (Vec3Fix { x: 0, y: 0, z: 0 })
    &&& e.lifetime is None
    &&& (cfg.flight_period_ms == 0 ==> e.flight is None)
    &&& (cfg.flight_period_ms > 0 ==> match e.flight {
        Option::Some(f) => f.timer.period_ms == cfg.flight_period_ms && f.timer.elapsed_ms == 0
            && f.timer.mode is Repeating && (cfg.sample_direction ==> is_unit_fp(f.direction)) && (
        !cfg.sample_direction ==> f.direction == (Vec3Fix { x: 0, y: 0, z: 0 })),
        Option::None => false,
    })
}

/// Burst-spawn exactly `n` entities of one population: each gets a fresh
/// id, a position drawn uniformly inside the domain, a variant drawn
/// uniformly from the pool, and its physics body as configured.
pub fn spawn_burst(w: &mut World, n: usize, cfg: SpawnCfg)
    requires
        old(w).wf(),
        cfg.wf(),
        old(w).next_id + n <= u64::MAX,
    ensures
        final(w).wf(),
        final(w).next_id == old(w).next_id + n,
        final(w).ents@.len() == old(w).ents@.len() + n,
        forall|k: int| 0 <= k < old(w).ents@.len() ==> final(w).ents@[k] == old(w).ents@[k],
        forall|k: int|
            old(w).ents@.len() <= k < final(w).ents@.len() ==> spec_burst_entity_ok(
                #[trigger] final(w).ents@[k],
                cfg,
                (old(w).next_id + (k - old(w).ents@.len())) as u64,
            ),
{
    let ghost orig = w.ents@;
    let ghost start_id = w.next_id;
    let mut c: usize = 0;
    while c < n
        invariant
            0 <= c <= n,
            cfg.wf(),
            start_id + n <= u64::MAX,
            w.wf(),
            w.next_id == start_id + c,
            w.ents@.len() == orig.len() + c,
            forall|k: int| 0 <= k < orig.len() ==> w.ents@[k] == orig[k],
            forall|k: int|
                orig.len() <= k < w.ents@.len() ==> spec_burst_entity_ok(
                    #[trigger] w.ents@[k],
                    cfg,
                    (start_id + (k - orig.len())) as u64,
                ),
        decreases n - c,
    {
        let pos = Vec3Fix {
            x: rand_range_i64(cfg.lo, cfg.hi),
            y: rand_range_i64(cfg.lo, cfg.hi),
            z: rand_range_i64(cfg.lo, cfg.hi),
        };
        let variant: usize = rand_range_i64(0, cfg.pool_size as i64) as usize;
        let flight: Option<RandomFlight> = if cfg.flight_period_ms > 0 {
            let dir = if cfg.sample_direction {
                sample_unit_direction()
            } else {
                Vec3Fix::zero()
            };
            Some(RandomFlight::new(dir, cfg.flight_period_ms))
        } else {
            None
        };
        let proto = Entity {
            id: 0,
            kind: cfg.kind,
            pos,
            vel: Vec3Fix::zero(),
            force: Vec3Fix::zero(),
            facing: Vec3Fix::zero(),
            has_body: cfg.has_body,
            variant,
            lifetime: None,
            flight,
        };
        w.spawn(proto);
        c += 1;
    }
}

/// Burst-spawn the hostile population inside its domain.
pub fn spawn_enemy(w: &mut World, n: usize)
    requires
        old(w).wf(),
        old(w).next_id + n <= u64::MAX,
    ensures
        final(w).wf(),
        final(w).next_id == old(w).next_id + n,
        final(w).ents@.len() == old(w).ents@.len() + n,
        forall|k: int| 0 <= k < old(w).ents@.len() ==> final(w).ents@[k] == old(w).ents@[k],
        forall|k: int|
            old(w).ents@.len() <= k < final(w).ents@.len() ==> spec_burst_entity_ok(
                #[trigger] final(w).ents@[k],
                enemy_cfg(),
                (old(w).next_id + (k - old(w).ents@.len())) as u64,
            ),
{
    spawn_burst(
        w,
        n,
        SpawnCfg {
            kind: Kind::Enemy,
            lo: -ENEMY_DOMAIN,
            hi: ENEMY_DOMAIN,
            pool_size: 1,
            has_body: true,
            flight_period_ms: ENEMY_RETARGET_MS,
            sample_direction: false,
        },
    );
}

pub open spec fn enemy_cfg() -> SpawnCfg {
    SpawnCfg {
        kind: Kind::Enemy,
        lo: (-ENEMY_DOMAIN) as i64,
        hi: ENEMY_DOMAIN,
        pool_size: 1,
        has_body: true,
        flight_period_ms: ENEMY_RETARGET_MS,
        sample_direction: false,
    }
}

/// Burst-spawn the mech population: a random pool variant each, wandering
/// from a sampled initial direction.
pub fn spawn_mech(w: &mut World, n: usize, pool_size: usize)
    requires
        old(w).wf(),
        pool_size >= 1,
        pool_size <= i64::MAX,
        old(w).next_id + n <= u64::MAX,
    ensures
        final(w).wf(),
        final(w).next_id == old(w).next_id + n,
        final(w).ents@.len() == old(w).ents@.len() + n,
        forall|k: int| 0 <= k < old(w).ents@.len() ==> final(w).ents@[k] == old(w).ents@[k],
        forall|k: int|
            old(w).ents@.len() <= k < final(w).ents@.len() ==> spec_burst_entity_ok(
                #[trigger] final(w).ents@[k],
                mech_cfg(pool_size),
                (old(w).next_id + (k - old(w).ents@.len())) as u64,
            ),
{
    spawn_burst(
        w,
        n,
        SpawnCfg {
            kind: Kind::Mech,
            lo: -MECH_DOMAIN,
            hi: MECH_DOMAIN,
            pool_size,
            has_body: true,
            flight_period_ms: MECH_RETARGET_MS,
            sample_direction: true,
        },
    );
}

pub open spec fn mech_cfg(pool_size: usize) -> SpawnCfg {
    SpawnCfg {
        kind: Kind::Mech,
        lo: (-MECH_DOMAIN) as i64,
        hi: MECH_DOMAIN,
        pool_size,
        has_body: true,
        flight_period_ms: MECH_RETARGET_MS,
        sample_direction: true,
    }
}

/// Burst-spawn the decorative star field: no physics bodies, never
/// collides, never wanders.
pub fn spawn_star_streaks(w: &mut World, n: usize)
    requires
        old(w).wf(),
        old(w).next_id + n <= u64::MAX,
    ensures
        final(w).wf(),
        final(w).next_id == old(w).next_id + n,
        final(w).ents@.len() == old(w).ents@.len() + n,
        forall|k: int| 0 <= k < old(w).ents@.len() ==> final(w).ents@[k] == old(w).ents@[k],
        forall|k: int|
            old(w).ents@.len() <= k < final(w).ents@.len() ==> spec_burst_entity_ok(
                #[trigger] final(w).ents@[k],
                streak_cfg(),
                (old(w).next_id + (k - old(w).ents@.len())) as u64,
            ),
{
    spawn_burst(
        w,
        n,
        SpawnCfg {
            kind: Kind::Streak,
            lo: -STREAK_DOMAIN,
            hi: STREAK_DOMAIN,
            pool_size: 1,
            has_body: false,
            flight_period_ms: 0,
            sample_direction: false,
        },
    );
}

pub open spec fn streak_cfg() -> SpawnCfg {
    SpawnCfg {
        kind: Kind::Streak,
        lo: (-STREAK_DOMAIN) as i64,
        hi: STREAK_DOMAIN,
        pool_size: 1,
        has_body: false,
        flight_period_ms: 0,
        sample_direction: false,
    }
}

/// Spawn the planet field: one fixed-body planet per pool entry, each at a
/// uniform position in the wide planet domain.
pub fn spawn_planets(w: &mut World, pool_size: usize)
    requires
        old(w).wf(),
        pool_size >= 1,
        pool_size <= i64::MAX,
        old(w).next_id + pool_size <= u64::MAX,
    ensures
        final(w).wf(),
        final(w).next_id == old(w).next_id + pool_size,
        final(w).ents@.len() == old(w).ents@.len() + pool_size,
        forall|k: int| 0 <= k < old(w).ents@.len() ==> final(w).ents@[k] == old(w).ents@[k],
        forall|k: int|
            old(w).ents@.len() <= k < final(w).ents@.len() ==> (#[trigger] final(w).ents@[k]).kind
                is Planet && final(w).ents@[k].variant == k - old(w).ents@.len()
                && final(w).ents@[k].has_body && -PLANET_DOMAIN <= final(w).ents@[k].pos.x < PLANET_DOMAIN
                && -PLANET_DOMAIN <= final(w).ents@[k].pos.y < PLANET_DOMAIN && -PLANET_DOMAIN
                <= final(w).ents@[k].pos.z < PLANET_DOMAIN,
{
    let ghost orig = w.ents@;
    let ghost start_id = w.next_id;
    let mut v: usize = 0;
    while v < pool_size
        invariant
            0 <= v <= pool_size,
            pool_size <= i64::MAX,
            start_id + pool_size <= u64::MAX,
            w.wf(),
            w.next_id == start_id + v,
            w.ents@.len() == orig.len() + v,
            forall|k: int| 0 <= k < orig.len() ==> w.ents@[k] == orig[k],
            forall|k: int|
                orig.len() <= k < w.ents@.len() ==> (#[trigger] w.ents@[k]).kind is Planet
                    && w.ents@[k].variant == k - orig.len() && w.ents@[k].has_body && -PLANET_DOMAIN
                    <= w.ents@[k].pos.x < PLANET_DOMAIN && -PLANET_DOMAIN <= w.ents@[k].pos.y
                    < PLANET_DOMAIN && -PLANET_DOMAIN <= w.ents@[k].pos.z < PLANET_DOMAIN,
        decreases pool_size - v,
    {
        let pos = Vec3Fix {
            x: rand_range_i64(-PLANET_DOMAIN, PLANET_DOMAIN),
            y: rand_range_i64(-PLANET_DOMAIN, PLANET_DOMAIN),
            z: rand_range_i64(-PLANET_DOMAIN, PLANET_DOMAIN),
        };
        let proto = Entity {
            id: 0,
            kind: Kind::Planet,
            pos,
            vel: Vec3Fix::zero(),
            force: Vec3Fix::zero(),
            facing: Vec3Fix::zero(),
            has_body: true,
            variant: v,
            lifetime: None,
            flight: None,
        };
        w.spawn(proto);
        v += 1;
    }
}

/// A uniformly random rock velocity.
pub fn random_rock_velocity() -> (r: Vec3Fix)
    ensures
        -ROCK_SPEED <= r.x < ROCK_SPEED,
        -ROCK_SPEED <= r.y < ROCK_SPEED,
        -ROCK_SPEED <= r.z < ROCK_SPEED,
{
    Vec3Fix {
        x: rand_range_i64(-ROCK_SPEED, ROCK_SPEED),
        y: rand_range_i64(-ROCK_SPEED, ROCK_SPEED),
        z: rand_range_i64(-ROCK_SPEED, ROCK_SPEED),
    }
}

/// A rock spawn position: the player's position plus a random near-field
/// offset.
pub fn random_rock_transform(ship_pos: Vec3Fix) -> (r: Vec3Fix)
    ensures
        exists|o: Vec3Fix|
            #![auto]
            ROCK_OFFSET_LO <= o.x < ROCK_OFFSET_HI && ROCK_OFFSET_LO <= o.y < ROCK_OFFSET_HI
                && ROCK_OFFSET_LO <= o.z < ROCK_OFFSET_HI && r == ship_pos.spec_add_clamped(o),
        r.bounded(COORD_LIMIT as int),
{
    let o = Vec3Fix {
        x: rand_range_i64(ROCK_OFFSET_LO, ROCK_OFFSET_HI),
        y: rand_range_i64(ROCK_OFFSET_LO, ROCK_OFFSET_HI),
        z: rand_range_i64(ROCK_OFFSET_LO, ROCK_OFFSET_HI),
    };
    ship_pos.add_clamped(o)
}

/// What holds of an interval-spawned rock.
pub open spec fn spec_rock_ok(e: Entity, ship_pos: Vec3Fix, id: u64) -> bool {
    &&& e.id == id
    &&& e.kind is Rock
    &&& e.has_body
    &&& e.lifetime is None
    &&& e.flight is None
    &&& -ROCK_SPEED <= e.vel.x < ROCK_SPEED
    &&& -ROCK_SPEED <= e.vel.y < ROCK_SPEED
    &&& -ROCK_SPEED <= e.vel.z < ROCK_SPEED
    &&& exists|o: Vec3Fix|
        #![auto]
        ROCK_OFFSET_LO <= o.x < ROCK_OFFSET_HI && ROCK_OFFSET_LO <= o.y < ROCK_OFFSET_HI
            && ROCK_OFFSET_LO <= o.z < ROCK_OFFSET_HI && e.pos == ship_pos.spec_add_clamped(o)
}

/// Interval spawn: when the interval timer completes and the single player
/// ship is present, spawn one rock anchored near the player; when the
/// player is absent the spawn is skipped, not queued.
pub fn spawn_rocks(w: &mut World, interval: &mut Timer, delta_ms: u64)
    requires
        old(w).wf(),
        old(interval).wf(),
        old(interval).mode is Repeating,
        delta_ms <= u64::MAX - old(interval).period_ms,
        old(w).next_id < u64::MAX,
    ensures
        final(w).wf(),
        *final(interval) == Timer::spec_tick(*old(interval), delta_ms),
        !(Timer::spec_tick(*old(interval), delta_ms).spec_just_finished()
            && World::spec_count_kind(old(w).ents@, Kind::Ship) == 1) ==> *final(w) == *old(w),
        (Timer::spec_tick(*old(interval), delta_ms).spec_just_finished()
            && World::spec_count_kind(old(w).ents@, Kind::Ship) == 1) ==> (final(w).next_id == old(
            w,
        ).next_id + 1 && final(w).ents@.len() == old(w).ents@.len() + 1 && (forall|k: int|
            0 <= k < old(w).ents@.len() ==> final(w).ents@[k] == old(w).ents@[k]) && (forall|
            si: int,
        |
            0 <= si < old(w).ents@.len() && (#[trigger] old(w).ents@[si]).kind is Ship
                ==> spec_rock_ok(
                final(w).ents@.last(),
                old(w).ents@[si].pos,
                old(w).next_id,
            ))),
{
    interval.tick(delta_ms);
    if interval.just_finished() {
        match w.find_single(Kind::Ship) {
            Option::Some(si) => {
                let ship_pos = w.ents[si].pos;
                let pos = random_rock_transform(ship_pos);
                let vel = random_rock_velocity();
                let proto = Entity {
                    id: 0,
                    kind: Kind::Rock,
                    pos,
                    vel,
                    force: Vec3Fix::zero(),
                    facing: Vec3Fix::zero(),
                    has_body: true,
                    variant: 0,
                    lifetime: None,
                    flight: None,
                };
                w.spawn(proto);
                proof {
                    assert forall|sj: int|
                        0 <= sj < old(w).ents@.len() && (#[trigger] old(
                            w,
                        ).ents@[sj]).kind is Ship implies spec_rock_ok(
                        w.ents@.last(),
                        old(w).ents@[sj].pos,
                        old(w).next_id,
                    ) by {
                        if sj != si as int {
                            if sj < si as int {
                                crate::arena::lemma_count_two(
                                    old(w).ents@,
                                    Kind::Ship,
                                    sj,
                                    si as int,
                                );
                            } else {
                                crate::arena::lemma_count_two(
                                    old(w).ents@,
                                    Kind::Ship,
                                    si as int,
                                    sj,
                                );
                            }
                        }
                    }
                }
            },
            Option::None => {},
        }
    }
}

} // verus!
