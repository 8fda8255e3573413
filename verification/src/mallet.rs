//! The mallet and the resolution of its slam.
//!
//! The mallet is a two-state animation machine, `Idle` and `Slam`. A press
//! of the primary button begins the slam when the mallet is idle; once the
//! slam animation has run past 90% of its length the mallet returns to
//! idle and the frame counts as a completed slam. A completed slam
//! destroys every enemy whose distance to the pointer is below 0.7 grid
//! units. Positions are measured in milli-units of world space, so the
//! radius test is exact integer arithmetic: squared distances are compared
//! against 700 * 700 = 490000 square milli-units.

use crate::grid::Enemy;
use vstd::prelude::*;

verus! {

/// Animation progress, in permille, past which a slam counts as complete.
pub const SLAM_DONE_PERMILLE: u32 = 900;
/// Horizontal offset, in milli-units, from the pointer to the mallet sprite.
pub const MALLET_OFFSET_X: i64 = 550;
/// Vertical offset, in milli-units, from the pointer to the mallet sprite.
pub const MALLET_OFFSET_Y: i64 = 750;
/// Squared hit radius: (0.7 grid units)^2 in square milli-units.
pub const HIT_RADIUS_SQ: i64 = 490000;

/// The two named states of the mallet animation.
#[derive(Clone, Copy, PartialEq, Eq, Structural, Debug)]
pub enum MalletAnim {
    Idle,
    Slam,
}

/// The player's mallet; its position is recomputed from the pointer every
/// frame, so only the animation state is round state.
#[derive(Clone, Copy, PartialEq, Eq, Structural, Debug)]
pub struct Mallet {
    pub anim: MalletAnim,
}

impl Mallet {
    /// A fresh mallet, idle.
    pub fn new() -> (m: Mallet)
        ensures
            m.anim is Idle,
    {
        Mallet { anim: MalletAnim::Idle }
    }

    /// One frame of the animation machine. A press begins the slam only
    /// when the mallet is idle; a slam whose progress has passed 90%
    /// returns to idle and reports this frame as a completed slam.
    pub fn step(&mut self, pressed: bool, slam_progress: u32) -> (slam_completed: bool)
        ensures
            slam_completed == (old(self).anim is Slam && slam_progress
                > SLAM_DONE_PERMILLE),
            final(self).anim == (if slam_completed {
                MalletAnim::Idle
            } else if pressed && old(self).anim is Idle {
                MalletAnim::Slam
            } else {
                old(self).anim
            }),
    {
        match self.anim {
            MalletAnim::Idle => {
                if pressed {
                    self.anim = MalletAnim::Slam;
                }
                false
            },
            MalletAnim::Slam => {
                if slam_progress > SLAM_DONE_PERMILLE {
                    self.anim = MalletAnim::Idle;
                    true
                } else {
                    false
                }
            },
        }
    }
}

/// Where the mallet sprite sits this frame: the pointer position plus the
/// fixed visual offset.
pub fn mallet_position(px: i64, py: i64) -> (pos: (i64, i64))
    requires
        px + MALLET_OFFSET_X <= i64::MAX,
        py + MALLET_OFFSET_Y <= i64::MAX,
    ensures
        pos.0 == px + MALLET_OFFSET_X,
        pos.1 == py + MALLET_OFFSET_Y,
{
    (px + MALLET_OFFSET_X, py + MALLET_OFFSET_Y)
}

/// The enemy on cell `e` is within the hit radius of the pointer at
/// `(px, py)` milli-units: squared distance strictly below 490000.
pub open spec fn enemy_hit(e: Enemy, px: int, py: int) -> bool {
    (px - 1000 * e.x) * (px - 1000 * e.x) + (py - 1000 * e.y) * (py - 1000 * e.y)
        < HIT_RADIUS_SQ
}

/// Tests whether the enemy is within the hit radius of the pointer.
pub fn is_enemy_hit(e: &Enemy, px: i64, py: i64) -> (b: bool)
    ensures
        b == enemy_hit(*e, px as int, py as int),
{
    let dx: i128 = (px as i128) - 1000 * (e.x as i128);
    let dy: i128 = (py as i128) - 1000 * (e.y as i128);
    if dx > 700 || dx < -700 || dy > 700 || dy < -700 {
        proof {
            assert(dx * dx >= 0 && dy * dy >= 0) by (nonlinear_arith);
            assert((dx > 700 || dx < -700) ==> dx * dx > 490000) by (nonlinear_arith);
            assert((dy > 700 || dy < -700) ==> dy * dy > 490000) by (nonlinear_arith);
        }
        false
    } else {
        proof {
            assert(0 <= dx * dx <= 490000 && 0 <= dy * dy <= 490000) by (nonlinear_arith)
                requires
                    -700 <= dx <= 700,
                    -700 <= dy <= 700,
            ;
        }
        dx * dx + dy * dy < HIT_RADIUS_SQ as i128
    }
}

/// The enemies among the first `k` of `es` that a completed slam at
/// `(px, py)` leaves standing, in their original order.
pub open spec fn survivors_upto(es: Seq<Enemy>, px: int, py: int, k: int) -> Seq<Enemy>
    decreases k,
{
    if k <= 0 {
        Seq::empty()
    } else if enemy_hit(es[k - 1], px, py) {
        survivors_upto(es, px, py, k - 1)
    } else {
        survivors_upto(es, px, py, k - 1).push(es[k - 1])
    }
}

/// The enemies a completed slam at `(px, py)` leaves standing.
pub open spec fn survivors(es: Seq<Enemy>, px: int, py: int) -> Seq<Enemy> {
    survivors_upto(es, px, py, es.len() as int)
}

/// Survivors are enemies that were already standing: there are no more of
/// them than before, each comes from the original set, and they still
/// stand on interior cells, no two on the same one.
pub proof fn lemma_survivors_upto_props(es: Seq<Enemy>, px: int, py: int, k: int)
    requires
        0 <= k <= es.len(),
        crate::grid::all_wf(es),
        crate::grid::distinct_cells(es),
    ensures
        survivors_upto(es, px, py, k).len() <= k,
        forall|i: int|
            0 <= i < survivors_upto(es, px, py, k).len() ==> exists|j: int|
                0 <= j < k && #[trigger] survivors_upto(es, px, py, k)[i] == es[j],
        crate::grid::all_wf(survivors_upto(es, px, py, k)),
        crate::grid::distinct_cells(survivors_upto(es, px, py, k)),
    decreases k,
{
    if k > 0 {
        lemma_survivors_upto_props(es, px, py, k - 1);
        let prev = survivors_upto(es, px, py, k - 1);
        let cur = survivors_upto(es, px, py, k);
        if !enemy_hit(es[k - 1], px, py) {
            assert forall|i: int| 0 <= i < cur.len() implies exists|j: int|
                0 <= j < k && #[trigger] cur[i] == es[j] by {
                if i < prev.len() {
                    assert(cur[i] == prev[i]);
                    let j = choose|j: int| 0 <= j < k - 1 && prev[i] == es[j];
                    assert(cur[i] == es[j]);
                } else {
                    assert(cur[i] == es[k - 1]);
                }
            }
            assert forall|i: int, j: int|
                0 <= i < j < cur.len() implies !cur[j].at(
                cur[i].x as int,
                cur[i].y as int,
            ) by {
                if j < cur.len() - 1 {
                    assert(cur[i] == prev[i] && cur[j] == prev[j]);
                } else {
                    let a = choose|a: int| 0 <= a < k - 1 && prev[i] == es[a];
                    assert(cur[i] == es[a]);
                    assert(cur[j] == es[k - 1]);
                    assert(!es[k - 1].at(es[a].x as int, es[a].y as int));
                }
            }
        }
    }
}

/// One slam destroys every enemy within the hit radius, and only those:
/// no survivor is within the radius, and every enemy outside it is still
/// standing afterwards.
pub proof fn lemma_slam_destroys_exactly_the_hit(es: Seq<Enemy>, px: int, py: int)
    ensures
        forall|i: int|
            0 <= i < survivors(es, px, py).len() ==> !enemy_hit(
                #[trigger] survivors(es, px, py)[i],
                px,
                py,
            ),
        forall|j: int|
            0 <= j < es.len() && !enemy_hit(#[trigger] es[j], px, py) ==> survivors(
                es,
                px,
                py,
            ).contains(es[j]),
{
    lemma_survivors_upto_exact(es, px, py, es.len() as int);
}

/// Induction behind `lemma_slam_destroys_exactly_the_hit`, over the first
/// `k` enemies.
proof fn lemma_survivors_upto_exact(es: Seq<Enemy>, px: int, py: int, k: int)
    requires
        0 <= k <= es.len(),
    ensures
        forall|i: int|
            0 <= i < survivors_upto(es, px, py, k).len() ==> !enemy_hit(
                #[trigger] survivors_upto(es, px, py, k)[i],
                px,
                py,
            ),
        forall|j: int|
            0 <= j < k && !enemy_hit(#[trigger] es[j], px, py) ==> survivors_upto(
                es,
                px,
                py,
                k,
            ).contains(es[j]),
    decreases k,
{
    if k > 0 {
        lemma_survivors_upto_exact(es, px, py, k - 1);
        let prev = survivors_upto(es, px, py, k - 1);
        let cur = survivors_upto(es, px, py, k);
        assert forall|j: int|
            0 <= j < k && !enemy_hit(#[trigger] es[j], px, py) implies cur.contains(
            es[j],
        ) by {
            if j < k - 1 {
                let i = choose|i: int| 0 <= i < prev.len() && prev[i] == es[j];
                assert(cur[i] == es[j]);
            } else {
                assert(cur[cur.len() - 1] == es[k - 1]);
            }
        }
    }
}

/// Resolves a completed slam: every enemy within the hit radius of the
/// pointer is destroyed, survivors keep their order, and the number of
/// destroyed enemies is returned.
pub fn resolve_slam(enemies: &mut Vec<Enemy>, px: i64, py: i64) -> (hits: usize)
    requires
        crate::grid::all_wf(old(enemies)@),
        crate::grid::distinct_cells(old(enemies)@),
    ensures
        final(enemies)@ == survivors(old(enemies)@, px as int, py as int),
        hits == old(enemies)@.len() - final(enemies)@.len(),
        crate::grid::all_wf(final(enemies)@),
        crate::grid::distinct_cells(final(enemies)@),
{
    let ghost pre = enemies@;
    let mut kept: Vec<Enemy> = Vec::new();
    let mut i: usize = 0;
    while i < enemies.len()
        invariant
            i <= pre.len(),
            enemies@ == pre,
            kept@ == survivors_upto(pre, px as int, py as int, i as int),
            kept@.len() <= i,
        decreases pre.len() - i,
    {
        let e = enemies[i];
        if !is_enemy_hit(&e, px, py) {
            kept.push(e);
        }
        i = i + 1;
    }
    proof {
        lemma_survivors_upto_props(pre, px as int, py as int, pre.len() as int);
    }
    let hits: usize = enemies.len() - kept.len();
    *enemies = kept;
    hits
}

} // verus!
