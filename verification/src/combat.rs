//! The combat pipeline: collision classification, fire-rate-gated
//! projectile emission for the player and for hostiles, and projectile
//! lifetime expiry.

use vstd::prelude::*;
use crate::arena::{Entity, Kind, World, lemma_filter_unique_ids, lemma_count_two, BULLET_LIFETIME_MS};
use crate::norm::spec_normalize_or_zero;
use crate::score::BulletHit;
use crate::timer::{Timer, TimerMode, lemma_spec_tick_wf};
use crate::vec3::Vec3Fix;

verus! {

/// Period of the player's fire-rate timer.
pub const FIRE_PERIOD_MS: u64 = 100;

/// Period of the shared hostile fire-rate timer.
pub const ENEMY_FIRE_PERIOD_MS: u64 = 1000;

/// Hostiles engage a target strictly within this distance.
pub const ENEMY_RANGE: i64 = 500;

/// Projectiles spawn this far from the firer along the firing direction.
pub const MUZZLE_OFFSET: i64 = 15;

/// Lateral offset of the player's spray projectiles.
pub const SPRAY_OFFSET: i64 = 5;

/// Speed of player projectiles.
pub const BULLET_SPEED: i64 = 700;

/// Speed of hostile projectiles.
pub const ENEMY_BULLET_SPEED: i64 = 100;

/// A discrete physics event reported for the previous tick, naming the two
/// entities by handle.
#[derive(Clone, Copy, PartialEq, Eq, Structural, Debug)]
pub enum CollisionEvent {
    Started(u64, u64),
    Stopped(u64, u64),
}

/// The player's fire-rate gate.
pub struct FireRate(pub Timer);

/// The shared fire-rate gate of all hostiles.
pub struct EnemyFireRate(pub Timer);

/// Whether a collision-begin event pairs a projectile with a target.
/// Collision-end events never count.
pub open spec fn spec_is_hit(w: World, ev: CollisionEvent) -> bool {
    match ev {
        CollisionEvent::Started(a, b) => (w.spec_has_kind(a, Kind::Bullet) || w.spec_has_kind(
            b,
            Kind::Bullet,
        )) && (w.spec_has_kind(a, Kind::Mech) || w.spec_has_kind(b, Kind::Mech)),
        CollisionEvent::Stopped(_, _) => false,
    }
}

pub open spec fn spec_hit_count(w: World, evs: Seq<CollisionEvent>) -> int
    decreases evs.len(),
{
    if evs.len() == 0 {
        0
    } else {
        spec_hit_count(w, evs.drop_last()) + if spec_is_hit(w, evs.last()) {
            1int
        } else {
            0int
        }
    }
}

pub proof fn lemma_hit_count_bounds(w: World, evs: Seq<CollisionEvent>)
    ensures
        0 <= spec_hit_count(w, evs) <= evs.len(),
    decreases evs.len(),
{
    if evs.len() > 0 {
        lemma_hit_count_bounds(w, evs.drop_last());
    }
}

/// Since kinds are exclusive, a qualifying pair always has the projectile
/// membership on one side and the target membership on the other: a pair
/// is never double-counted through one entity holding both memberships.
pub proof fn lemma_hit_is_cross_pair(w: World, a: u64, b: u64)
    requires
        w.wf(),
    ensures
        spec_is_hit(w, CollisionEvent::Started(a, b)) <==> ((w.spec_has_kind(a, Kind::Bullet)
            && w.spec_has_kind(b, Kind::Mech)) || (w.spec_has_kind(b, Kind::Bullet)
            && w.spec_has_kind(a, Kind::Mech))),
{
    crate::arena::lemma_kind_exclusive(w, a);
    crate::arena::lemma_kind_exclusive(w, b);
}

/// Classify this tick's collision events against the live projectile and
/// target populations, and emit the tick's single aggregate hit event.
pub fn detect_collision(w: &World, events: &Vec<CollisionEvent>) -> (hit: BulletHit)
    requires
        w.wf(),
        events@.len() <= u32::MAX,
    ensures
        hit.count == spec_hit_count(*w, events@),
{
    let mut count: u32 = 0;
    let mut i: usize = 0;
    proof {
        lemma_hit_count_bounds(*w, events@);
    }
    while i < events.len()
        invariant
            0 <= i <= events@.len(),
            events@.len() <= u32::MAX,
            w.wf(),
            count == spec_hit_count(*w, events@.take(i as int)),
            count <= i,
        decreases events@.len() - i,
    {
        proof {
            assert(events@.take(i + 1).drop_last() =~= events@.take(i as int));
            assert(events@.take(i + 1).last() == events@[i as int]);
            crate::arena::lemma_count_nonneg(w.ents@, Kind::Bullet);
        }
        let ev = events[i];
        match ev {
            CollisionEvent::Started(a, b) => {
                let bullet_involved = w.has_kind(a, Kind::Bullet) || w.has_kind(b, Kind::Bullet);
                let target_involved = w.has_kind(a, Kind::Mech) || w.has_kind(b, Kind::Mech);
                if bullet_involved && target_involved {
                    count += 1;
                }
            },
            CollisionEvent::Stopped(_, _) => {},
        }
        i += 1;
    }
    proof {
        assert(events@.take(events@.len() as int) =~= events@);
    }
    BulletHit { count }
}

/// An entity after its lifetime timer (if any) advanced by `delta`.
pub open spec fn spec_tick_lifetime(e: Entity, delta: u64) -> Entity {
    match e.lifetime {
        Option::Some(t) => Entity { lifetime: Option::Some(Timer::spec_tick(t, delta)), ..e },
        Option::None => e,
    }
}

/// A ticked entity whose lifetime completed this tick is due for despawn.
pub open spec fn spec_expired(e: Entity) -> bool {
    match e.lifetime {
        Option::Some(t) => t.spec_just_finished(),
        Option::None => false,
    }
}

/// Every lifetime timer leaves headroom for this delta.
pub open spec fn spec_lifetimes_fit(w: World, delta: u64) -> bool {
    forall|i: int|
        0 <= i < w.ents@.len() ==> match (#[trigger] w.ents@[i]).lifetime {
            Option::Some(t) => delta <= u64::MAX - t.period_ms,
            Option::None => true,
        }
}

/// Advance every projectile's lifetime and destroy, exactly once and
/// unconditionally, each projectile whose lifetime just completed.
pub fn despawn_bullet(w: &mut World, delta_ms: u64)
    requires
        old(w).wf(),
        spec_lifetimes_fit(*old(w), delta_ms),
    ensures
        final(w).wf(),
        final(w).next_id == old(w).next_id,
        final(w).ents@ == old(w).ents@.map_values(
            |e: Entity| spec_tick_lifetime(e, delta_ms),
        ).filter(|e: Entity| !spec_expired(e)),
{
    let ghost mapped = old(w).ents@.map_values(|e: Entity| spec_tick_lifetime(e, delta_ms));
    let mut kept: Vec<Entity> = Vec::new();
    let mut i: usize = 0;
    while i < w.ents.len()
        invariant
            0 <= i <= w.ents@.len(),
            *w == *old(w),
            w.wf(),
            spec_lifetimes_fit(*w, delta_ms),
            mapped == w.ents@.map_values(|e: Entity| spec_tick_lifetime(e, delta_ms)),
            kept@ == mapped.take(i as int).filter(|e: Entity| !spec_expired(e)),
        decreases w.ents@.len() - i,
    {
        let mut e = w.ents[i];
        proof {
            reveal(Seq::filter);
            assert(mapped.take(i + 1).drop_last() =~= mapped.take(i as int));
            assert(mapped.take(i + 1).last() == mapped[i as int]);
            assert(mapped[i as int] == spec_tick_lifetime(w.ents@[i as int], delta_ms));
        }
        match e.lifetime {
            Option::Some(t) => {
                let mut timer = t;
                timer.tick(delta_ms);
                e.lifetime = Some(timer);
                if !timer.just_finished() {
                    kept.push(e);
                }
            },
            Option::None => {
                kept.push(e);
            },
        }
        i += 1;
    }
    proof {
        assert(mapped.take(w.ents@.len() as int) =~= mapped);
        assert(forall|k: int| 0 <= k < mapped.len() ==> (#[trigger] mapped[k]).id == w.ents@[k].id);
        assert(crate::arena::unique_ids(mapped));
        lemma_filter_unique_ids(mapped, |e: Entity| !spec_expired(e));
        assert forall|k: int| 0 <= k < mapped.len() implies (#[trigger] mapped[k]).wf() by {
            let e0 = w.ents@[k];
            assert(e0.wf());
            match e0.lifetime {
                Option::Some(t) => {
                    lemma_spec_tick_wf(t, delta_ms);
                },
                Option::None => {},
            }
        }
    }
    w.ents = kept;
    proof {
        let f = mapped.filter(|e: Entity| !spec_expired(e));
        assert forall|k: int| 0 <= k < f.len() implies (#[trigger] f[k]).wf() && f[k].id < w.next_id
            by {
            assert(mapped.contains(f[k]));
            let m = choose|m: int| 0 <= m < mapped.len() && mapped[m] == f[k];
            assert(mapped[m].wf());
            assert(mapped[m].id == old(w).ents@[m].id < w.next_id);
        }
    }
}

/// A fresh projectile: tagged exclusively as a projectile, carrying its
/// physics body and a one-shot lifetime of `BULLET_LIFETIME_MS`.
pub open spec fn spec_bullet(pos: Vec3Fix, vel: Vec3Fix, id: u64) -> Entity {
    Entity {
        id,
        kind: Kind::Bullet,
        pos,
        vel,
        force: Vec3Fix { x: 0, y: 0, z: 0 },
        facing: Vec3Fix { x: 0, y: 0, z: 0 },
        has_body: true,
        variant: 0,
        lifetime: Option::Some(
            Timer {
                period_ms: BULLET_LIFETIME_MS,
                elapsed_ms: 0,
                mode: TimerMode::Once,
                completions_this_tick: 0,
            },
        ),
        flight: Option::None,
    }
}

/// Make a projectile entity; `spawn` assigns the definitive id.
fn make_bullet(pos: Vec3Fix, vel: Vec3Fix, id: u64) -> (b: Entity)
    ensures
        b == spec_bullet(pos, vel, id),
{
    Entity {
        id,
        kind: Kind::Bullet,
        pos,
        vel,
        force: Vec3Fix { x: 0, y: 0, z: 0 },
        facing: Vec3Fix { x: 0, y: 0, z: 0 },
        has_body: true,
        variant: 0,
        lifetime: Some(Timer::new(BULLET_LIFETIME_MS, TimerMode::Once)),
        flight: None,
    }
}

/// Create one projectile entity, with its physics body and its one-shot
/// lifetime, at the given pose and velocity.
pub fn spawn_bullet(w: &mut World, vel: Vec3Fix, pos: Vec3Fix) -> (id: u64)
    requires
        old(w).wf(),
        pos.bounded(crate::vec3::COORD_LIMIT as int),
        old(w).next_id < u64::MAX,
    ensures
        final(w).wf(),
        id == old(w).next_id,
        final(w).next_id == old(w).next_id + 1,
        final(w).ents@ == old(w).ents@.push(spec_bullet(pos, vel, old(w).next_id)),
{
    let b = make_bullet(pos, vel, w.next_id);
    w.spawn(b)
}

/// The player's spray for one emission: three parallel projectiles, one at
/// the muzzle and two offset laterally, all flying along the ship's travel
/// direction at `BULLET_SPEED`.
pub open spec fn spec_player_volley(ship_pos: Vec3Fix, f: crate::steer::Frame, start_id: u64) -> Seq<
    Entity,
> {
    let vel = f.forward.spec_scale_unit(-BULLET_SPEED as int);
    let center = ship_pos.spec_add_clamped(f.forward.spec_scale_unit(-MUZZLE_OFFSET as int));
    let left = ship_pos.spec_add_clamped(f.right.spec_scale_unit(-SPRAY_OFFSET as int));
    let right = ship_pos.spec_add_clamped(f.right.spec_scale_unit(SPRAY_OFFSET as int));
    seq![
        spec_bullet(center, vel, start_id),
        spec_bullet(left, vel, (start_id + 1) as u64),
        spec_bullet(right, vel, (start_id + 2) as u64),
    ]
}

/// The emission condition: the fire-rate period just completed, the
/// trigger condition holds, and the single player ship is present.
pub open spec fn spec_fire_ready(t: Timer, delta: u64, trigger: bool, s: Seq<Entity>) -> bool {
    &&& Timer::spec_tick(t, delta).spec_just_finished()
    &&& trigger
    &&& World::spec_count_kind(s, Kind::Ship) == 1
}

/// Player emission: when the fire-rate period completes and the trigger is
/// held and exactly one ship lives, spawn the three-projectile spray;
/// otherwise the world is unchanged.
pub fn fire_bullet(
    w: &mut World,
    fire_rate: &mut FireRate,
    delta_ms: u64,
    trigger_held: bool,
    frame: crate::steer::Frame,
)
    requires
        old(w).wf(),
        frame.wf(),
        old(fire_rate).0.wf(),
        old(fire_rate).0.mode is Repeating,
        delta_ms <= u64::MAX - old(fire_rate).0.period_ms,
        old(w).next_id + 3 <= u64::MAX,
    ensures
        final(fire_rate).0 == Timer::spec_tick(old(fire_rate).0, delta_ms),
        final(w).wf(),
        !spec_fire_ready(old(fire_rate).0, delta_ms, trigger_held, old(w).ents@) ==> *final(w)
            == *old(w),
        spec_fire_ready(old(fire_rate).0, delta_ms, trigger_held, old(w).ents@)
            ==> final(w).next_id == old(w).next_id + 3,
        spec_fire_ready(old(fire_rate).0, delta_ms, trigger_held, old(w).ents@) ==> forall|si: int|
            0 <= si < old(w).ents@.len() && (#[trigger] old(w).ents@[si]).kind is Ship
                ==> final(w).ents@ == old(w).ents@ + spec_player_volley(
                old(w).ents@[si].pos,
                frame,
                old(w).next_id,
            ),
{
    self_tick_fire(fire_rate, delta_ms);
    if fire_rate.0.just_finished() && trigger_held {
        match w.find_single(Kind::Ship) {
            Option::Some(si) => {
                let ship_pos = w.ents[si].pos;
                let vel = frame.forward.scale_unit(-BULLET_SPEED);
                let center = ship_pos.add_clamped(frame.forward.scale_unit(-MUZZLE_OFFSET));
                let left = ship_pos.add_clamped(frame.right.scale_unit(-SPRAY_OFFSET));
                let right = ship_pos.add_clamped(frame.right.scale_unit(SPRAY_OFFSET));
                let ghost id0 = w.next_id;
                spawn_bullet(w, vel, center);
                spawn_bullet(w, vel, left);
                spawn_bullet(w, vel, right);
                proof {
                    let volley = spec_player_volley(old(w).ents@[si as int].pos, frame, id0);
                    assert(w.ents@ =~= old(w).ents@ + volley);
                    assert forall|sj: int|
                        0 <= sj < old(w).ents@.len() && (#[trigger] old(w).ents@[sj]).kind
                            is Ship implies w.ents@ == old(w).ents@ + spec_player_volley(
                        old(w).ents@[sj].pos,
                        frame,
                        old(w).next_id,
                    ) by {
                        if sj != si as int {
                            if sj < si as int {
                                lemma_count_two(old(w).ents@, Kind::Ship, sj, si as int);
                            } else {
                                lemma_count_two(old(w).ents@, Kind::Ship, si as int, sj);
                            }
                        }
                    }
                }
            },
            Option::None => {},
        }
    }
}

/// Tick the player's fire-rate timer.
fn self_tick_fire(fire_rate: &mut FireRate, delta_ms: u64)
    requires
        old(fire_rate).0.wf(),
        delta_ms <= u64::MAX - old(fire_rate).0.period_ms,
    ensures
        final(fire_rate).0 == Timer::spec_tick(old(fire_rate).0, delta_ms),
        final(fire_rate).0.wf(),
{
    let mut t = fire_rate.0;
    t.tick(delta_ms);
    fire_rate.0 = t;
}

/// A hostile engages when its target is strictly within `ENEMY_RANGE`.
pub open spec fn spec_in_range(e: Entity, ship_pos: Vec3Fix) -> bool {
    e.kind is Enemy && e.pos.spec_dist_sq(ship_pos) < ENEMY_RANGE * ENEMY_RANGE
}

/// The firing direction of a hostile: toward the ship, normalized.
pub open spec fn spec_enemy_dir(e: Entity, ship_pos: Vec3Fix) -> Vec3Fix {
    spec_normalize_or_zero(ship_pos.spec_sub(e.pos))
}

/// A hostile in range re-orients to face its target at the moment of
/// firing; every other entity keeps its pose.
pub open spec fn spec_faced(e: Entity, ship_pos: Vec3Fix) -> Entity {
    if spec_in_range(e, ship_pos) {
        Entity { facing: spec_enemy_dir(e, ship_pos), ..e }
    } else {
        e
    }
}

/// The projectile a hostile fires: offset from the firer along the firing
/// direction by the muzzle standoff, flying toward the target.
pub open spec fn spec_enemy_bullet(e: Entity, ship_pos: Vec3Fix, id: u64) -> Entity {
    let dir = spec_enemy_dir(e, ship_pos);
    spec_bullet(
        e.pos.spec_add_clamped(dir.spec_scale_unit(MUZZLE_OFFSET as int)),
        dir.spec_scale_unit(ENEMY_BULLET_SPEED as int),
        id,
    )
}

/// One projectile per hostile in range, in arena order, under consecutive
/// fresh ids starting at `start_id`.
pub open spec fn spec_enemy_volley(s: Seq<Entity>, ship_pos: Vec3Fix, start_id: u64) -> Seq<Entity>
    decreases s.len(),
{
    if s.len() == 0 {
        Seq::empty()
    } else {
        let rest = spec_enemy_volley(s.drop_last(), ship_pos, start_id);
        if spec_in_range(s.last(), ship_pos) {
            rest.push(spec_enemy_bullet(s.last(), ship_pos, (start_id + rest.len()) as u64))
        } else {
            rest
        }
    }
}

pub proof fn lemma_enemy_volley_len(s: Seq<Entity>, ship_pos: Vec3Fix, start_id: u64)
    ensures
        0 <= spec_enemy_volley(s, ship_pos, start_id).len() <= s.len(),
    decreases s.len(),
{
    if s.len() > 0 {
        lemma_enemy_volley_len(s.drop_last(), ship_pos, start_id);
    }
}

/// Volley entities carry consecutive ids and are well-formed projectiles.
pub proof fn lemma_enemy_volley_items(s: Seq<Entity>, ship_pos: Vec3Fix, start_id: u64)
    requires
        start_id + s.len() <= u64::MAX,
    ensures
        forall|k: int|
            0 <= k < spec_enemy_volley(s, ship_pos, start_id).len() ==> (#[trigger] spec_enemy_volley(
                s,
                ship_pos,
                start_id,
            )[k]).id == start_id + k && spec_enemy_volley(s, ship_pos, start_id)[k].wf()
                && spec_enemy_volley(s, ship_pos, start_id)[k].kind is Bullet,
    decreases s.len(),
{
    if s.len() > 0 {
        lemma_enemy_volley_len(s.drop_last(), ship_pos, start_id);
        lemma_enemy_volley_items(s.drop_last(), ship_pos, start_id);
    }
}

/// Hostile emission: when the shared fire-rate period completes and the
/// single ship is present, every hostile strictly within range turns to
/// face the ship and fires one projectile toward it; otherwise the world
/// is unchanged.
pub fn attack(w: &mut World, enemy_fire_rate: &mut EnemyFireRate, delta_ms: u64)
    requires
        old(w).wf(),
        old(enemy_fire_rate).0.wf(),
        old(enemy_fire_rate).0.mode is Repeating,
        delta_ms <= u64::MAX - old(enemy_fire_rate).0.period_ms,
        old(w).next_id + old(w).ents@.len() <= u64::MAX,
    ensures
        final(enemy_fire_rate).0 == Timer::spec_tick(old(enemy_fire_rate).0, delta_ms),
        final(w).wf(),
        !(Timer::spec_tick(old(enemy_fire_rate).0, delta_ms).spec_just_finished()
            && World::spec_count_kind(old(w).ents@, Kind::Ship) == 1) ==> *final(w) == *old(w),
        (Timer::spec_tick(old(enemy_fire_rate).0, delta_ms).spec_just_finished()
            && World::spec_count_kind(old(w).ents@, Kind::Ship) == 1) ==> forall|si: int|
            0 <= si < old(w).ents@.len() && (#[trigger] old(w).ents@[si]).kind is Ship
                ==> final(w).ents@ == old(w).ents@.map_values(
                |e: Entity| spec_faced(e, old(w).ents@[si].pos),
            ) + spec_enemy_volley(old(w).ents@, old(w).ents@[si].pos, old(w).next_id),
{
    let mut t = enemy_fire_rate.0;
    t.tick(delta_ms);
    enemy_fire_rate.0 = t;
    if t.just_finished() {
        match w.find_single(Kind::Ship) {
            Option::Some(si) => {
                let ship_pos = w.ents[si].pos;
                let ghost orig = w.ents@;
                let ghost start_id = w.next_id;
                let mut protos: Vec<Entity> = Vec::new();
                let mut i: usize = 0;
                while i < w.ents.len()
                    invariant
                        0 <= i <= w.ents@.len(),
                        w.ents@.len() == orig.len(),
                        w.next_id == start_id,
                        start_id + orig.len() <= u64::MAX,
                        ship_pos.bounded(crate::vec3::COORD_LIMIT as int),
                        w.wf(),
                        forall|k: int| i <= k < orig.len() ==> w.ents@[k] == orig[k],
                        forall|k: int|
                            0 <= k < i ==> w.ents@[k] == spec_faced(#[trigger] orig[k], ship_pos),
                        protos@ == spec_enemy_volley(orig.take(i as int), ship_pos, start_id),
                        forall|k: int|
                            0 <= k < orig.len() ==> (#[trigger] w.ents@[k]).id == orig[k].id,
                    decreases w.ents@.len() - i,
                {
                    proof {
                        assert(orig.take(i + 1).drop_last() =~= orig.take(i as int));
                        assert(orig.take(i + 1).last() == orig[i as int]);
                        lemma_enemy_volley_len(orig.take(i as int), ship_pos, start_id);
                    }
                    let e = w.ents[i];
                    let fires = if e.kind == Kind::Enemy {
                        e.pos.dist_sq(ship_pos) < (ENEMY_RANGE as i128) * (ENEMY_RANGE as i128)
                    } else {
                        false
                    };
                    if fires {
                        proof {
                            lemma_range_bounds_diff(e.pos, ship_pos);
                        }
                        let diff = ship_pos.sub(e.pos);
                        let dir = crate::norm::normalize_or_zero(diff);
                        let mut e2 = e;
                        e2.facing = dir;
                        w.ents[i] = e2;
                        let idn: u64 = w.next_id + (protos.len() as u64);
                        let b = make_bullet(
                            e.pos.add_clamped(dir.scale_unit(MUZZLE_OFFSET)),
                            dir.scale_unit(ENEMY_BULLET_SPEED),
                            idn,
                        );
                        protos.push(b);
                    }
                    i += 1;
                }
                proof {
                    assert(orig.take(orig.len() as int) =~= orig);
                    lemma_enemy_volley_len(orig, ship_pos, start_id);
                    lemma_enemy_volley_items(orig, ship_pos, start_id);
                }
                let ghost faced = w.ents@;
                proof {
                    assert(w.ents@ =~= faced + protos@.take(0));
                }
                let mut j: usize = 0;
                while j < protos.len()
                    invariant
                        0 <= j <= protos@.len(),
                        protos@ == spec_enemy_volley(orig, ship_pos, start_id),
                        start_id + protos@.len() <= u64::MAX,
                        forall|k: int|
                            0 <= k < protos@.len() ==> (#[trigger] protos@[k]).id == start_id + k
                                && protos@[k].wf(),
                        w.wf(),
                        w.next_id == start_id + j,
                        w.ents@ == faced + protos@.take(j as int),
                    decreases protos@.len() - j,
                {
                    let proto = protos[j];
                    proof {
                        assert(protos@.take(j + 1).drop_last() =~= protos@.take(j as int));
                        assert(protos@.take(j + 1).last() == protos@[j as int]);
                    }
                    w.spawn(proto);
                    proof {
                        assert(Entity { id: (start_id + j) as u64, ..proto } == proto);
                        assert(w.ents@ =~= faced + protos@.take(j + 1));
                    }
                    j += 1;
                }
                proof {
                    assert(protos@.take(protos@.len() as int) =~= protos@);
                    assert(w.ents@ =~= faced + protos@);
                    assert(faced =~= orig.map_values(|e: Entity| spec_faced(e, ship_pos)));
                    assert forall|sj: int|
                        0 <= sj < orig.len() && (#[trigger] orig[sj]).kind is Ship implies w.ents@
                        == orig.map_values(|e: Entity| spec_faced(e, orig[sj].pos))
                            + spec_enemy_volley(orig, orig[sj].pos, start_id) by {
                        if sj != si as int {
                            if sj < si as int {
                                lemma_count_two(orig, Kind::Ship, sj, si as int);
                            } else {
                                lemma_count_two(orig, Kind::Ship, si as int, sj);
                            }
                        }
                        assert(orig[sj].pos == ship_pos);
                    }
                }
            },
            Option::None => {},
        }
    }
}

/// Strictly-in-range entities are close enough that the difference vector
/// is a valid normalization input.
proof fn lemma_range_bounds_diff(p: Vec3Fix, ship_pos: Vec3Fix)
    requires
        p.spec_dist_sq(ship_pos) < ENEMY_RANGE * ENEMY_RANGE,
    ensures
        ship_pos.spec_sub(p).bounded(crate::norm::DIR_IN_LIMIT as int),
        i64::MIN <= ship_pos.x - p.x <= i64::MAX,
        i64::MIN <= ship_pos.y - p.y <= i64::MAX,
        i64::MIN <= ship_pos.z - p.z <= i64::MAX,
{
    let dx = p.x - ship_pos.x;
    let dy = p.y - ship_pos.y;
    let dz = p.z - ship_pos.z;
    assert(dx * dx >= 0 && dy * dy >= 0 && dz * dz >= 0) by (nonlinear_arith);
    assert(-500 < dx < 500 && -500 < dy < 500 && -500 < dz < 500) by (nonlinear_arith)
        requires
            dx * dx + dy * dy + dz * dz < 250_000,
            dx * dx >= 0,
            dy * dy >= 0,
            dz * dz >= 0,
    ;
}

/// The length a ray-based query reports: the nearest hit distance when the
/// cast found something, and the maximum range as the valid fallback when
/// it found nothing.
pub fn beam_length(hit_dist: Option<u64>, max_range: u64) -> (r: u64)
    ensures
        r == match hit_dist {
            Option::Some(d) => if d < max_range {
                d as int
            } else {
                max_range as int
            },
            Option::None => max_range as int,
        },
{
    match hit_dist {
        Option::Some(d) => {
            if d < max_range {
                d
            } else {
                max_range
            }
        },
        Option::None => max_range,
    }
}

} // verus!
