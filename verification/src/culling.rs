//! Distance-based world culling.
//!
//! On a fixed interval, every entity of the culled category whose distance
//! from the player strictly exceeds the threshold is destroyed; entities
//! at or under the threshold are never culled.  When the player is absent
//! the whole scan is skipped.

use vstd::prelude::*;
use crate::arena::{Entity, Kind, World, lemma_filter_unique_ids};
use crate::timer::Timer;
use crate::vec3::{Vec3Fix, COORD_LIMIT};

verus! {

/// Entities farther than this from the player are culled.
pub const CULL_DISTANCE: i64 = 1500;

/// Period of the culling interval.
pub const CULL_PERIOD_MS: u64 = 100;

/// Whether culling removes this entity: it is of the culled category and
/// strictly beyond the distance threshold.
pub open spec fn spec_culled(e: Entity, player_pos: Vec3Fix) -> bool {
    e.kind is Rock && e.pos.spec_dist_sq(player_pos) > CULL_DISTANCE * CULL_DISTANCE
}

/// Remove exactly the rocks strictly beyond the cull distance from the
/// player; everything else survives, in order.
pub fn despawn_distant_rocks(w: &mut World, player_pos: Vec3Fix)
    requires
        old(w).wf(),
        player_pos.bounded(COORD_LIMIT as int),
    ensures
        final(w).wf(),
        final(w).next_id == old(w).next_id,
        final(w).ents@ == old(w).ents@.filter(|e: Entity| !spec_culled(e, player_pos)),
{
    let ghost orig = w.ents@;
    let mut kept: Vec<Entity> = Vec::new();
    let mut i: usize = 0;
    while i < w.ents.len()
        invariant
            0 <= i <= w.ents@.len(),
            *w == *old(w),
            w.wf(),
            player_pos.bounded(COORD_LIMIT as int),
            kept@ == w.ents@.take(i as int).filter(|e: Entity| !spec_culled(e, player_pos)),
        decreases w.ents@.len() - i,
    {
        proof {
            reveal(Seq::filter);
            assert(w.ents@.take(i + 1).drop_last() =~= w.ents@.take(i as int));
            assert(w.ents@.take(i + 1).last() == w.ents@[i as int]);
        }
        let e = w.ents[i];
        proof {
            assert((CULL_DISTANCE as i128) * (CULL_DISTANCE as i128) == 2_250_000)
                by (nonlinear_arith);
        }
        let far = if e.kind == Kind::Rock {
            e.pos.dist_sq(player_pos) > (CULL_DISTANCE as i128) * (CULL_DISTANCE as i128)
        } else {
            false
        };
        if !far {
            kept.push(e);
        }
        i += 1;
    }
    proof {
        assert(w.ents@.take(w.ents@.len() as int) =~= w.ents@);
        lemma_filter_unique_ids(w.ents@, |e: Entity| !spec_culled(e, player_pos));
    }
    w.ents = kept;
    proof {
        let f = orig.filter(|e: Entity| !spec_culled(e, player_pos));
        assert forall|k: int| 0 <= k < f.len() implies (#[trigger] f[k]).wf() && f[k].id < w.next_id
            by {
            assert(orig.contains(f[k]));
            let m = choose|m: int| 0 <= m < orig.len() && orig[m] == f[k];
            assert(orig[m].wf());
            assert(orig[m].id < w.next_id);
        }
    }
}

/// Culling is exact: an entity of the culled category strictly beyond the
/// threshold does not survive the scan, and one at or under the threshold
/// always does, however often the scan runs.
pub proof fn lemma_cull_exact(s: Seq<Entity>, player_pos: Vec3Fix, i: int)
    requires
        0 <= i < s.len(),
    ensures
        !spec_culled(s[i], player_pos) ==> s.filter(
            |e: Entity| !spec_culled(e, player_pos),
        ).contains(s[i]),
        spec_culled(s[i], player_pos) ==> !s.filter(
            |e: Entity| !spec_culled(e, player_pos),
        ).contains(s[i]),
{
    let pred = |e: Entity| !spec_culled(e, player_pos);
    if pred(s[i]) {
        s.lemma_filter_contains(pred, i);
    } else {
        if s.filter(pred).contains(s[i]) {
            let j = choose|j: int| 0 <= j < s.filter(pred).len() && s.filter(pred)[j] == s[i];
            s.lemma_filter_pred(pred, j);
        }
    }
}

/// The culling pass for one tick: advance the interval timer; when it
/// completes and the single player ship is present, cull; when the player
/// is absent, skip the scan entirely.
pub fn cull_tick(w: &mut World, interval: &mut Timer, delta_ms: u64)
    requires
        old(w).wf(),
        old(interval).wf(),
        old(interval).mode is Repeating,
        delta_ms <= u64::MAX - old(interval).period_ms,
    ensures
        final(w).wf(),
        final(w).next_id == old(w).next_id,
        *final(interval) == Timer::spec_tick(*old(interval), delta_ms),
        !(Timer::spec_tick(*old(interval), delta_ms).spec_just_finished()
            && World::spec_count_kind(old(w).ents@, Kind::Ship) == 1) ==> *final(w) == *old(w),
        (Timer::spec_tick(*old(interval), delta_ms).spec_just_finished()
            && World::spec_count_kind(old(w).ents@, Kind::Ship) == 1) ==> forall|si: int|
            0 <= si < old(w).ents@.len() && (#[trigger] old(w).ents@[si]).kind is Ship
                ==> final(w).ents@ == old(w).ents@.filter(
                |e: Entity| !spec_culled(e, old(w).ents@[si].pos),
            ),
{
    interval.tick(delta_ms);
    if interval.just_finished() {
        match w.find_single(Kind::Ship) {
            Option::Some(si) => {
                let player_pos = w.ents[si].pos;
                despawn_distant_rocks(w, player_pos);
                proof {
                    assert forall|sj: int|
                        0 <= sj < old(w).ents@.len() && (#[trigger] old(
                            w,
                        ).ents@[sj]).kind is Ship implies w.ents@ == old(w).ents@.filter(
                        |e: Entity| !spec_culled(e, old(w).ents@[sj].pos),
                    ) by {
                        if sj != si as int {
                            if sj < si as int {
                                crate::arena::lemma_count_two(
                                    old(w).ents@,
                                    Kind::Ship,
                                    sj,
                                    si as int,
                                );
                            } else {
                                crate::arena::lemma_count_two(
                                    old(w).ents@,
                                    Kind::Ship,
                                    si as int,
                                    sj,
                                );
                            }
                        }
                    }
                }
            },
            Option::None => {},
        }
    }
}

} // verus!
