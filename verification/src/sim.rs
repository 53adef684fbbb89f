//! The whole-simulation state and the fixed-order tick pipeline.
//!
//! One tick runs: steering, interval spawning, random-flight forces,
//! player and hostile emission, projectile expiry, culling, collision
//! classification against the previous tick's physics events, and score
//! accumulation.  The physics world integrates between ticks, outside the
//! library: the host reads back forces and poses, and supplies elapsed
//! time, control states, the ship frame and the collision events.

use vstd::prelude::*;
use crate::arena::{Entity, Kind, World, BULLET_LIFETIME_MS, MAX_FLIGHT_PERIOD_MS};
use crate::combat::{
    attack, despawn_bullet, detect_collision, fire_bullet, CollisionEvent, EnemyFireRate, FireRate,
    ENEMY_FIRE_PERIOD_MS, FIRE_PERIOD_MS,
};
use crate::culling::{cull_tick, CULL_PERIOD_MS};
use crate::flight::{RandomFlight, FLIGHT_FORCE};
use crate::norm::is_unit_fp;
use crate::score::{update_score, BulletHit, GameState};
use crate::spawner::{spawn_rocks, ROCK_SPAWN_PERIOD_MS};
use crate::steer::{control_spaceship, Controls, Frame, SteerOutput};
use crate::timer::{Timer, TimerMode};
use crate::vec3::Vec3Fix;
use crate::FP_UNIT;

verus! {

/// Every per-entity timer period stays under this bound, so any tick of at
/// most `u64::MAX - MAX_TICK_HEADROOM_MS` fits every timer.
pub const MAX_TICK_HEADROOM_MS: u64 = 5000;

/// Advance every wandering entity: tick its retarget timer, resample its
/// direction exactly when the timer completes, and write the wandering
/// force along the current direction; all other state is untouched.
pub fn random_flight_system(w: &mut World, delta_ms: u64)
    requires
        old(w).wf(),
        delta_ms <= u64::MAX - MAX_FLIGHT_PERIOD_MS,
    ensures
        final(w).wf(),
        final(w).next_id == old(w).next_id,
        final(w).ents@.len() == old(w).ents@.len(),
        forall|k: int|
            0 <= k < old(w).ents@.len() && (#[trigger] old(w).ents@[k]).flight is None
                ==> final(w).ents@[k] == old(w).ents@[k],
        forall|k: int|
            0 <= k < old(w).ents@.len() && (#[trigger] old(w).ents@[k]).flight is Some
                ==> spec_flight_stepped(old(w).ents@[k], final(w).ents@[k], delta_ms),
{
    let mut i: usize = 0;
    while i < w.ents.len()
        invariant
            0 <= i <= w.ents@.len(),
            delta_ms <= u64::MAX - MAX_FLIGHT_PERIOD_MS,
            w.wf(),
            w.next_id == old(w).next_id,
            w.ents@.len() == old(w).ents@.len(),
            forall|k: int| i <= k < old(w).ents@.len() ==> w.ents@[k] == old(w).ents@[k],
            forall|k: int|
                0 <= k < i && (#[trigger] old(w).ents@[k]).flight is None ==> w.ents@[k] == old(
                    w,
                ).ents@[k],
            forall|k: int|
                0 <= k < i && (#[trigger] old(w).ents@[k]).flight is Some ==> spec_flight_stepped(
                    old(w).ents@[k],
                    w.ents@[k],
                    delta_ms,
                ),
        decreases w.ents@.len() - i,
    {
        let e = w.ents[i];
        match e.flight {
            Option::Some(f) => {
                let mut fl = f;
                let force = fl.tick(delta_ms);
                let mut e2 = e;
                e2.flight = Some(fl);
                e2.force = force;
                w.ents[i] = e2;
            },
            Option::None => {},
        }
        i += 1;
    }
}

/// How one wandering entity relates to its previous state after a tick.
pub open spec fn spec_flight_stepped(pre: Entity, post: Entity, delta_ms: u64) -> bool {
    match pre.flight {
        Option::Some(f) => {
            let ft = Timer::spec_tick(f.timer, delta_ms);
            match post.flight {
                Option::Some(g) => {
                    &&& g.timer == ft
                    &&& (ft.spec_just_finished() ==> is_unit_fp(g.direction))
                    &&& (!ft.spec_just_finished() ==> g.direction == f.direction)
                    &&& post.force == g.direction.spec_scale_unit(FLIGHT_FORCE as int)
                    &&& post == (Entity { flight: post.flight, force: post.force, ..pre })
                },
                Option::None => false,
            }
        },
        Option::None => post == pre,
    }
}

/// What the host supplies for one tick.
pub struct TickInput {
    pub delta_ms: u64,
    pub controls: Controls,
    pub frame: Frame,
    /// Collision events the physics world reported since the last tick.
    pub collisions: Vec<CollisionEvent>,
}

/// What one tick hands back for the host to apply and render.
pub struct TickOutput {
    pub steer: SteerOutput,
    pub hit: BulletHit,
    pub score: u32,
}

/// The whole simulation: the arena, the score, and the global timers.
pub struct SimState {
    pub world: World,
    pub game: GameState,
    pub fire_rate: FireRate,
    pub enemy_fire_rate: EnemyFireRate,
    pub rock_timer: Timer,
    pub cull_timer: Timer,
}

impl SimState {
    pub open spec fn wf(self) -> bool {
        &&& self.world.wf()
        &&& self.fire_rate.0.wf()
        &&& self.fire_rate.0.mode is Repeating
        &&& self.fire_rate.0.period_ms == FIRE_PERIOD_MS
        &&& self.enemy_fire_rate.0.wf()
        &&& self.enemy_fire_rate.0.mode is Repeating
        &&& self.enemy_fire_rate.0.period_ms == ENEMY_FIRE_PERIOD_MS
        &&& self.rock_timer.wf()
        &&& self.rock_timer.mode is Repeating
        &&& self.rock_timer.period_ms == ROCK_SPAWN_PERIOD_MS
        &&& self.cull_timer.wf()
        &&& self.cull_timer.mode is Repeating
        &&& self.cull_timer.period_ms == CULL_PERIOD_MS
    }

    /// A fresh simulation: the player ship at the origin facing along the
    /// negative depth axis, score zero, all gates at the start of their
    /// periods.
    pub fn new() -> (s: SimState)
        ensures
            s.wf(),
            s.game.score == 0,
            s.world.ents@.len() == 1,
            s.world.ents@[0].kind is Ship,
            s.world.ents@[0].pos == (Vec3Fix { x: 0, y: 0, z: 0 }),
    {
        let mut world = World::new();
        let ship = Entity {
            id: 0,
            kind: Kind::Ship,
            pos: Vec3Fix::zero(),
            vel: Vec3Fix::zero(),
            force: Vec3Fix::zero(),
            facing: Vec3Fix { x: 0, y: 0, z: -FP_UNIT },
            has_body: true,
            variant: 0,
            lifetime: None,
            flight: None,
        };
        world.spawn(ship);
        SimState {
            world,
            game: GameState::new(),
            fire_rate: FireRate(Timer::new(FIRE_PERIOD_MS, TimerMode::Repeating)),
            enemy_fire_rate: EnemyFireRate(Timer::new(ENEMY_FIRE_PERIOD_MS, TimerMode::Repeating)),
            rock_timer: Timer::new(ROCK_SPAWN_PERIOD_MS, TimerMode::Repeating),
            cull_timer: Timer::new(CULL_PERIOD_MS, TimerMode::Repeating),
        }
    }

    /// One full tick of the fixed-order pipeline.  The score grows by
    /// exactly the number of qualifying projectile-target collision pairs
    /// among this tick's events, classified against the post-update
    /// entity population; it never decreases.
    pub fn tick(&mut self, input: TickInput) -> (out: TickOutput)
        requires
            old(self).wf(),
            input.frame.wf(),
            input.delta_ms <= u64::MAX - MAX_TICK_HEADROOM_MS,
            input.collisions@.len() <= u32::MAX,
            old(self).game.score + input.collisions@.len() <= u32::MAX,
            old(self).world.next_id + 2 * old(self).world.ents@.len() + 16 <= u64::MAX,
        ensures
            final(self).wf(),
            out.steer.trail_visible == input.controls.thrust_forward,
            out.hit.count == crate::combat::spec_hit_count(final(self).world, input.collisions@),
            final(self).game.score == old(self).game.score + out.hit.count,
            final(self).game.score >= old(self).game.score,
            out.score == final(self).game.score,
    {
        let delta = input.delta_ms;
        // input phase: steering decisions from the control states
        let steer = control_spaceship(input.controls, input.frame);
        // spawn phase: interval-spawned hazards near the player
        spawn_rocks(&mut self.world, &mut self.rock_timer, delta);
        proof {
            assert(self.world.next_id <= old(self).world.next_id + 1);
            assert(self.world.ents@.len() <= old(self).world.ents@.len() + 1);
        }
        // force phase: autonomous wandering
        random_flight_system(&mut self.world, delta);
        // emission phase: player spray, then hostile fire
        let ghost pre_fire = self.world;
        let ghost pre_rate = self.fire_rate.0;
        fire_bullet(&mut self.world, &mut self.fire_rate, delta, input.controls.fire, input.frame);
        proof {
            if crate::combat::spec_fire_ready(
                pre_rate,
                delta,
                input.controls.fire,
                pre_fire.ents@,
            ) {
                crate::arena::lemma_count_exists(pre_fire.ents@, Kind::Ship);
                let si = choose|i: int|
                    0 <= i < pre_fire.ents@.len() && (#[trigger] pre_fire.ents@[i]).kind
                        == Kind::Ship;
                assert(self.world.ents@ == pre_fire.ents@ + crate::combat::spec_player_volley(
                    pre_fire.ents@[si].pos,
                    input.frame,
                    pre_fire.next_id,
                ));
            }
            assert(self.world.next_id <= old(self).world.next_id + 4);
            assert(self.world.ents@.len() <= old(self).world.ents@.len() + 4);
        }
        attack(&mut self.world, &mut self.enemy_fire_rate, delta);
        // despawn phase: projectile expiry, then distance culling
        despawn_bullet(&mut self.world, delta);
        cull_tick(&mut self.world, &mut self.cull_timer, delta);
        // classification phase: the previous tick's collision events
        // against the live populations
        let hit = detect_collision(&self.world, &input.collisions);
        proof {
            crate::combat::lemma_hit_count_bounds(self.world, input.collisions@);
        }
        // score phase: consume this tick's single hit event
        let mut events: Vec<BulletHit> = Vec::new();
        events.push(hit);
        proof {
            assert(events@.len() == 1 && events@[0] == hit);
            assert(events@.drop_first() =~= Seq::<BulletHit>::empty());
            assert(crate::score::spec_sum_hits(events@.drop_first()) == 0);
            assert(crate::score::spec_sum_hits(events@) == hit.count);
        }
        update_score(&mut self.game, &events);
        TickOutput { steer, hit, score: self.game.score }
    }
}

} // verus!
