//! Score accumulation over the per-tick hit-event stream.
//!
//! Events live for one tick: the bus consumes every event produced that
//! tick, adds the counts into the process-wide score, and drops them.

use vstd::prelude::*;

verus! {

/// One per tick: how many projectile-target collision pairs were observed.
#[derive(Clone, Copy, PartialEq, Eq, Structural, Debug)]
pub struct BulletHit {
    pub count: u32,
}

/// The process-wide game state: a monotonically non-decreasing score.
#[derive(Clone, Copy, PartialEq, Eq, Structural, Debug)]
pub struct GameState {
    pub score: u32,
}

pub open spec fn spec_sum_hits(evs: Seq<BulletHit>) -> int
    decreases evs.len(),
{
    if evs.len() == 0 {
        0
    } else {
        evs[0].count + spec_sum_hits(evs.drop_first())
    }
}

impl GameState {
    pub fn new() -> (g: GameState)
        ensures
            g.score == 0,
    {
        GameState { score: 0 }
    }
}

/// Consume this tick's events: the score grows by exactly the sum of their
/// counts, and in particular never decreases.
pub fn update_score(game: &mut GameState, events: &Vec<BulletHit>)
    requires
        old(game).score + spec_sum_hits(events@) <= u32::MAX,
    ensures
        final(game).score == old(game).score + spec_sum_hits(events@),
        final(game).score >= old(game).score,
{
    let mut i: usize = 0;
    proof {
        lemma_sum_hits_take(events@, 0);
    }
    while i < events.len()
        invariant
            0 <= i <= events@.len(),
            old(game).score + spec_sum_hits(events@) <= u32::MAX,
            game.score == old(game).score + spec_sum_hits(events@.take(i as int)),
            spec_sum_hits(events@.take(i as int)) + spec_sum_hits(events@.skip(i as int))
                == spec_sum_hits(events@),
        decreases events@.len() - i,
    {
        proof {
            lemma_sum_hits_split(events@, i as int);
            lemma_sum_hits_split(events@, i + 1);
            assert(events@.skip(i as int)[0] == events@[i as int]);
            assert(spec_sum_hits(events@.skip(i as int)) == events@[i as int].count
                + spec_sum_hits(events@.skip(i + 1))) by {
                assert(events@.skip(i as int).drop_first() =~= events@.skip(i + 1));
            }
            assert(spec_sum_hits(events@.skip(i + 1)) >= 0) by {
                lemma_sum_hits_nonneg(events@.skip(i + 1));
            }
        }
        game.score = game.score + events[i].count;
        i += 1;
    }
    proof {
        assert(events@.take(events@.len() as int) =~= events@);
        lemma_sum_hits_nonneg(events@);
    }
}

pub proof fn lemma_sum_hits_nonneg(evs: Seq<BulletHit>)
    ensures
        spec_sum_hits(evs) >= 0,
    decreases evs.len(),
{
    if evs.len() > 0 {
        lemma_sum_hits_nonneg(evs.drop_first());
    }
}

/// Splitting a sequence of events splits the sum.
pub proof fn lemma_sum_hits_split(evs: Seq<BulletHit>, i: int)
    requires
        0 <= i <= evs.len(),
    ensures
        spec_sum_hits(evs.take(i)) + spec_sum_hits(evs.skip(i)) == spec_sum_hits(evs),
    decreases i,
{
    if i == 0 {
        assert(evs.take(0) =~= Seq::<BulletHit>::empty());
        assert(evs.skip(0) =~= evs);
    } else {
        lemma_sum_hits_split(evs.drop_first(), i - 1);
        assert(evs.take(i).drop_first() =~= evs.drop_first().take(i - 1));
        assert(evs.skip(i) =~= evs.drop_first().skip(i - 1));
        assert(spec_sum_hits(evs.take(i)) == evs[0].count + spec_sum_hits(
            evs.drop_first().take(i - 1),
        ));
    }
}

proof fn lemma_sum_hits_take(evs: Seq<BulletHit>, i: int)
    requires
        0 <= i <= evs.len(),
    ensures
        spec_sum_hits(evs.take(i)) + spec_sum_hits(evs.skip(i)) == spec_sum_hits(evs),
{
    lemma_sum_hits_split(evs, i);
}

/// Per-tick sums of a whole run: the score after the run is the starting
/// score plus the sum over all ticks of that tick's event counts, and the
/// score never decreases along the way.
pub open spec fn spec_fold_score(start: int, ticks: Seq<Seq<BulletHit>>) -> int
    decreases ticks.len(),
{
    if ticks.len() == 0 {
        start
    } else {
        spec_fold_score(start + spec_sum_hits(ticks[0]), ticks.drop_first())
    }
}

pub open spec fn spec_total_hits(ticks: Seq<Seq<BulletHit>>) -> int
    decreases ticks.len(),
{
    if ticks.len() == 0 {
        0
    } else {
        spec_sum_hits(ticks[0]) + spec_total_hits(ticks.drop_first())
    }
}

/// The score after a run of ticks equals the starting score plus the total
/// of every hit count emitted across those ticks.
pub proof fn lemma_score_over_run(start: int, ticks: Seq<Seq<BulletHit>>)
    ensures
        spec_fold_score(start, ticks) == start + spec_total_hits(ticks),
        spec_fold_score(start, ticks) >= start,
    decreases ticks.len(),
{
    if ticks.len() > 0 {
        lemma_score_over_run(start + spec_sum_hits(ticks[0]), ticks.drop_first());
        lemma_sum_hits_nonneg(ticks[0]);
    }
}

} // verus!
