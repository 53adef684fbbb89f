//! Explicit entity arena.
//!
//! Entities are keyed by stable integer handles; an entity and its physics
//! body are created and destroyed together, so the body is modelled as a
//! flag on the entity.  Gameplay tags are a single exclusive kind: a
//! projectile is never simultaneously a target.

use vstd::prelude::*;
use crate::FP_UNIT;
use crate::flight::RandomFlight;
use crate::timer::Timer;
use crate::vec3::{Vec3Fix, COORD_LIMIT};

verus! {

/// Lifetime of every projectile, and the upper bound on every per-entity
/// timer period: ticks shorter than `u64::MAX` minus this bound always fit.
pub const BULLET_LIFETIME_MS: u64 = 5000;

pub const MAX_FLIGHT_PERIOD_MS: u64 = 5000;

#[derive(Clone, Copy, PartialEq, Eq, Structural, Debug)]
pub enum Kind {
    Ship,
    Enemy,
    Mech,
    Rock,
    Bullet,
    Planet,
    Streak,
}

/// One entity: identity, exclusive kind, pose and kinematic outputs, the
/// physics-body flag, a resource-pool variant, and the per-kind state.
#[derive(Clone, Copy, PartialEq, Eq, Structural, Debug)]
pub struct Entity {
    pub id: u64,
    pub kind: Kind,
    pub pos: Vec3Fix,
    pub vel: Vec3Fix,
    pub force: Vec3Fix,
    /// Fixed-point facing direction (zero when the kind never aims).
    pub facing: Vec3Fix,
    /// Whether a rigid body and collider are registered for this entity.
    pub has_body: bool,
    /// Index into the resource pool of this entity's kind.
    pub variant: usize,
    /// Lifetime countdown; present exactly on projectiles.
    pub lifetime: Option<Timer>,
    /// Random-walk locomotion state, for autonomous flyers.
    pub flight: Option<RandomFlight>,
}

impl Entity {
    pub open spec fn wf(self) -> bool {
        &&& self.pos.bounded(COORD_LIMIT as int)
        &&& self.facing.bounded(FP_UNIT as int)
        &&& match self.lifetime {
            Option::Some(t) => t.wf() && t.mode is Once && t.period_ms == BULLET_LIFETIME_MS,
            Option::None => true,
        }
        &&& (self.kind is Bullet ==> self.lifetime is Some)
        &&& match self.flight {
            Option::Some(f) => f.wf() && f.timer.period_ms <= MAX_FLIGHT_PERIOD_MS,
            Option::None => true,
        }
    }
}

/// All ids of a sequence of entities are pairwise distinct.
pub open spec fn unique_ids(s: Seq<Entity>) -> bool {
    forall|i: int, j: int|
        0 <= i < s.len() && 0 <= j < s.len() && i != j ==> #[trigger] s[i].id != #[trigger] s[j].id
}

pub struct World {
    pub ents: Vec<Entity>,
    pub next_id: u64,
}

impl World {
    pub open spec fn wf(self) -> bool {
        &&& forall|i: int| 0 <= i < self.ents@.len() ==> (#[trigger] self.ents@[i]).wf()
        &&& forall|i: int| 0 <= i < self.ents@.len() ==> (#[trigger] self.ents@[i]).id
            < self.next_id
        &&& unique_ids(self.ents@)
    }

    /// Some live entity has this id and this kind.
    pub open spec fn spec_has_kind(self, id: u64, kind: Kind) -> bool {
        exists|i: int|
            0 <= i < self.ents@.len() && (#[trigger] self.ents@[i]).id == id && self.ents@[i].kind
                == kind
    }

    pub open spec fn spec_count_kind(s: Seq<Entity>, kind: Kind) -> int
        decreases s.len(),
    {
        if s.len() == 0 {
            0
        } else {
            Self::spec_count_kind(s.drop_last(), kind) + if s.last().kind == kind {
                1int
            } else {
                0int
            }
        }
    }

    pub fn new() -> (w: World)
        ensures
            w.wf(),
            w.ents@.len() == 0,
            w.next_id == 0,
    {
        World { ents: Vec::new(), next_id: 0 }
    }

    /// Create an entity: the given prototype enters the arena under a fresh
    /// id, together with its (modelled) physics body.
    pub fn spawn(&mut self, proto: Entity) -> (id: u64)
        requires
            old(self).wf(),
            proto.wf(),
            old(self).next_id < u64::MAX,
        ensures
            final(self).wf(),
            id == old(self).next_id,
            final(self).next_id == old(self).next_id + 1,
            final(self).ents@ == old(self).ents@.push(
                Entity { id: old(self).next_id, ..proto },
            ),
    {
        let id = self.next_id;
        let mut e = proto;
        e.id = id;
        self.ents.push(e);
        self.next_id = id + 1;
        proof {
            assert forall|i: int, j: int|
                0 <= i < self.ents@.len() && 0 <= j < self.ents@.len() && i != j implies #[trigger] self.ents@[i].id
                != #[trigger] self.ents@[j].id by {
                if i < self.ents@.len() - 1 && j < self.ents@.len() - 1 {
                    assert(old(self).ents@[i].id != old(self).ents@[j].id);
                }
            }
        }
        id
    }

    pub fn len(&self) -> (n: usize)
        ensures
            n == self.ents@.len(),
    {
        self.ents.len()
    }

    /// Write back an integrated pose from the physics world.
    pub fn set_pose(&mut self, i: usize, pos: Vec3Fix)
        requires
            old(self).wf(),
            i < old(self).ents@.len(),
            pos.bounded(COORD_LIMIT as int),
        ensures
            final(self).wf(),
            final(self).next_id == old(self).next_id,
            final(self).ents@ == old(self).ents@.update(
                i as int,
                Entity { pos, ..old(self).ents@[i as int] },
            ),
    {
        let mut e = self.ents[i];
        e.pos = pos;
        self.ents[i] = e;
    }

    /// Whether the live entity with this id (if any) has this kind.
    pub fn has_kind(&self, id: u64, kind: Kind) -> (r: bool)
        ensures
            r == self.spec_has_kind(id, kind),
    {
        let mut i: usize = 0;
        while i < self.ents.len()
            invariant
                0 <= i <= self.ents@.len(),
                forall|k: int|
                    0 <= k < i ==> !((#[trigger] self.ents@[k]).id == id && self.ents@[k].kind
                        == kind),
            decreases self.ents@.len() - i,
        {
            let e = &self.ents[i];
            if e.id == id && e.kind == kind {
                return true;
            }
            i += 1;
        }
        false
    }
}

pub proof fn lemma_count_nonneg(s: Seq<Entity>, kind: Kind)
    ensures
        0 <= World::spec_count_kind(s, kind) <= s.len(),
    decreases s.len(),
{
    if s.len() > 0 {
        lemma_count_nonneg(s.drop_last(), kind);
    }
}

pub proof fn lemma_count_pos(s: Seq<Entity>, kind: Kind, i: int)
    requires
        0 <= i < s.len(),
        s[i].kind == kind,
    ensures
        World::spec_count_kind(s, kind) >= 1,
    decreases s.len(),
{
    lemma_count_nonneg(s.drop_last(), kind);
    if i < s.len() - 1 {
        lemma_count_pos(s.drop_last(), kind, i);
    }
}

/// A positive count exhibits a position of that kind.
pub proof fn lemma_count_exists(s: Seq<Entity>, kind: Kind)
    requires
        World::spec_count_kind(s, kind) >= 1,
    ensures
        exists|i: int| 0 <= i < s.len() && (#[trigger] s[i]).kind == kind,
    decreases s.len(),
{
    if s.len() > 0 {
        if s.last().kind == kind {
            assert(s[s.len() - 1].kind == kind);
        } else {
            lemma_count_exists(s.drop_last(), kind);
            let i = choose|i: int|
                0 <= i < s.drop_last().len() && (#[trigger] s.drop_last()[i]).kind == kind;
            assert(s[i].kind == kind);
        }
    }
}

/// Two distinct positions of this kind force a count of at least two.
pub proof fn lemma_count_two(s: Seq<Entity>, kind: Kind, i: int, j: int)
    requires
        0 <= i < j < s.len(),
        s[i].kind == kind,
        s[j].kind == kind,
    ensures
        World::spec_count_kind(s, kind) >= 2,
    decreases s.len(),
{
    if j == s.len() - 1 {
        lemma_count_pos(s.drop_last(), kind, i);
    } else {
        lemma_count_two(s.drop_last(), kind, i, j);
        lemma_count_nonneg(s, kind);
    }
}

impl World {
    /// The query for the unique entity of a kind: its index if exactly one
    /// such entity lives, and nothing otherwise.
    pub fn find_single(&self, kind: Kind) -> (r: Option<usize>)
        ensures
            match r {
                Option::Some(i) => i < self.ents@.len() && self.ents@[i as int].kind == kind
                    && Self::spec_count_kind(self.ents@, kind) == 1,
                Option::None => Self::spec_count_kind(self.ents@, kind) != 1,
            },
    {
        let mut i: usize = 0;
        let mut count: usize = 0;
        let mut first: usize = 0;
        while i < self.ents.len()
            invariant
                0 <= i <= self.ents@.len(),
                count == Self::spec_count_kind(self.ents@.take(i as int), kind),
                count <= i,
                count >= 1 ==> first < i && self.ents@[first as int].kind == kind,
            decreases self.ents@.len() - i,
        {
            proof {
                assert(self.ents@.take(i + 1).drop_last() =~= self.ents@.take(i as int));
                assert(self.ents@.take(i + 1).last() == self.ents@[i as int]);
            }
            if self.ents[i].kind == kind {
                if count == 0 {
                    first = i;
                }
                count += 1;
            }
            i += 1;
        }
        proof {
            assert(self.ents@.take(self.ents@.len() as int) =~= self.ents@);
        }
        if count == 1 {
            Some(first)
        } else {
            None
        }
    }
}

/// Tag exclusivity: under id uniqueness, no id is both a projectile and a
/// target.
pub proof fn lemma_kind_exclusive(w: World, id: u64)
    requires
        w.wf(),
    ensures
        !(w.spec_has_kind(id, Kind::Bullet) && w.spec_has_kind(id, Kind::Mech)),
{
    if w.spec_has_kind(id, Kind::Bullet) && w.spec_has_kind(id, Kind::Mech) {
        let i = choose|i: int|
            0 <= i < w.ents@.len() && (#[trigger] w.ents@[i]).id == id && w.ents@[i].kind
                == Kind::Bullet;
        let j = choose|j: int|
            0 <= j < w.ents@.len() && (#[trigger] w.ents@[j]).id == id && w.ents@[j].kind
                == Kind::Mech;
        assert(i != j);
        assert(w.ents@[i].id != w.ents@[j].id);
    }
}

/// Filtering a sequence of entities keeps its ids pairwise distinct.
pub proof fn lemma_filter_unique_ids(s: Seq<Entity>, pred: spec_fn(Entity) -> bool)
    requires
        unique_ids(s),
    ensures
        unique_ids(s.filter(pred)),
        forall|i: int|
            0 <= i < s.filter(pred).len() ==> pred(#[trigger] s.filter(pred)[i]) && s.contains(
                s.filter(pred)[i],
            ),
    decreases s.len(),
{
    reveal(Seq::filter);
    if s.len() > 0 {
        let rest = s.drop_last();
        assert(unique_ids(rest)) by {
            assert forall|i: int, j: int|
                0 <= i < rest.len() && 0 <= j < rest.len() && i != j implies #[trigger] rest[i].id
                != #[trigger] rest[j].id by {
                assert(s[i].id != s[j].id);
            }
        }
        lemma_filter_unique_ids(rest, pred);
        let f = rest.filter(pred);
        if pred(s.last()) {
            assert(s.filter(pred) == f.push(s.last()));
            assert forall|i: int, j: int|
                0 <= i < f.push(s.last()).len() && 0 <= j < f.push(s.last()).len() && i
                    != j implies #[trigger] f.push(s.last())[i].id != #[trigger] f.push(
                s.last(),
            )[j].id by {
                if i < f.len() && j < f.len() {
                } else {
                    let k = if i < f.len() {
                        i
                    } else {
                        j
                    };
                    assert(f.push(s.last())[k] == f[k]);
                    assert(rest.contains(f[k]));
                    let m = choose|m: int| 0 <= m < rest.len() && rest[m] == f[k];
                    assert(s[m].id != s.last().id);
                }
            }
        }
    }
}

} // verus!
