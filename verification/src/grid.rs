//! The playfield grid and the enemies standing on it.
//!
//! The interior of the playfield is a 15 x 10 grid of cells, addressed by
//! coordinates `1..=15` x `1..=10`. Enemies sit on cells; no two enemies
//! ever share a cell. Spawn placement consumes random cell draws and
//! rejects occupied ones, falling back to the first free cell in scan
//! order so that placement always terminates.

use vstd::prelude::*;

verus! {

/// Number of columns of the interior grid.
pub const GRID_WIDTH: u8 = 15;
/// Number of rows of the interior grid.
pub const GRID_HEIGHT: u8 = 10;
/// Total number of interior cells.
pub const GRID_CELLS: usize = 150;

/// A destructible target occupying one cell of the playfield.
#[derive(Clone, Copy, PartialEq, Eq, Structural, Debug)]
pub struct Enemy {
    /// Column, `1..=15`.
    pub x: u8,
    /// Row, `1..=10`.
    pub y: u8,
}

/// Whether `(x, y)` addresses an interior cell of the grid.
pub open spec fn valid_cell(x: int, y: int) -> bool {
    &&& 1 <= x <= 15
    &&& 1 <= y <= 10
}

impl Enemy {
    /// The enemy stands on an interior cell.
    pub open spec fn wf(self) -> bool {
        valid_cell(self.x as int, self.y as int)
    }

    /// The enemy stands on the cell `(x, y)`.
    pub open spec fn at(self, x: int, y: int) -> bool {
        self.x == x && self.y == y
    }
}

/// Some enemy of `es` stands on `(x, y)`.
pub open spec fn occupied(es: Seq<Enemy>, x: int, y: int) -> bool {
    exists|i: int| 0 <= i < es.len() && es[i].at(x, y)
}

/// Every enemy of `es` stands on an interior cell.
pub open spec fn all_wf(es: Seq<Enemy>) -> bool {
    forall|i: int| 0 <= i < es.len() ==> es[i].wf()
}

/// No two enemies of `es` share a cell.
pub open spec fn distinct_cells(es: Seq<Enemy>) -> bool {
    forall|i: int, j: int|
        0 <= i < j < es.len() ==> !es[j].at(es[i].x as int, es[i].y as int)
}

/// The cell with scan index `k`: columns are walked outermost, rows
/// innermost, so index `k` is column `1 + k / 10`, row `1 + k % 10`.
pub open spec fn scan_cell(k: int) -> Enemy {
    Enemy { x: (1 + k / 10) as u8, y: (1 + k % 10) as u8 }
}

/// The position of a cell in scan order.
pub open spec fn cell_index(e: Enemy) -> int {
    (e.x - 1) * 10 + (e.y - 1)
}

/// Tests by linear scan whether any enemy of `enemies` stands on `(x, y)`.
pub fn is_cell_occupied(enemies: &Vec<Enemy>, x: u8, y: u8) -> (b: bool)
    ensures
        b == occupied(enemies@, x as int, y as int),
{
    let mut i: usize = 0;
    while i < enemies.len()
        invariant
            i <= enemies@.len(),
            forall|j: int| 0 <= j < i ==> !enemies@[j].at(x as int, y as int),
        decreases enemies@.len() - i,
    {
        if enemies[i].x == x && enemies[i].y == y {
            return true;
        }
        i = i + 1;
    }
    false
}

/// The enemies produced by the first `k` scatter draws, in scan order:
/// cell `k` receives an enemy exactly when its draw came up 1.
pub open spec fn scatter_upto(draws: Seq<u8>, k: int) -> Seq<Enemy>
    decreases k,
{
    if k <= 0 {
        Seq::empty()
    } else if draws[k - 1] == 1 {
        scatter_upto(draws, k - 1).push(scan_cell(k - 1))
    } else {
        scatter_upto(draws, k - 1)
    }
}

/// The full initial scatter: one draw per interior cell.
pub open spec fn initial_scatter(draws: Seq<u8>) -> Seq<Enemy> {
    scatter_upto(draws, 150)
}

/// The enemies of a scatter stand on interior cells, appear in strictly
/// increasing scan order, and hence no two of them share a cell.
pub proof fn lemma_scatter_upto_props(draws: Seq<u8>, k: int)
    requires
        0 <= k <= 150,
    ensures
        all_wf(scatter_upto(draws, k)),
        distinct_cells(scatter_upto(draws, k)),
        forall|i: int|
            0 <= i < scatter_upto(draws, k).len() ==> cell_index(
                #[trigger] scatter_upto(draws, k)[i],
            ) < k,
        forall|i: int, j: int|
            0 <= i < j < scatter_upto(draws, k).len() ==> cell_index(
                scatter_upto(draws, k)[i],
            ) < cell_index(scatter_upto(draws, k)[j]),
    decreases k,
{
    if k > 0 {
        lemma_scatter_upto_props(draws, k - 1);
        if draws[k - 1] == 1 {
            vstd::arithmetic::div_mod::lemma_fundamental_div_mod(k - 1, 10);
            assert(scan_cell(k - 1).wf());
            assert(cell_index(scan_cell(k - 1)) == k - 1);
            let s = scatter_upto(draws, k);
            assert forall|i: int, j: int|
                0 <= i < j < s.len() implies cell_index(s[i]) < cell_index(s[j]) by {
                if j < s.len() - 1 {
                    assert(s[i] == scatter_upto(draws, k - 1)[i]);
                    assert(s[j] == scatter_upto(draws, k - 1)[j]);
                }
            }
            assert forall|i: int, j: int|
                0 <= i < j < s.len() implies !s[j].at(s[i].x as int, s[i].y as int) by {
                assert(cell_index(s[i]) < cell_index(s[j]));
            }
        }
    }
}

/// A cell of the grid is occupied in the initial scatter exactly when it
/// is an interior cell whose draw came up 1.
pub proof fn lemma_scatter_occupancy(draws: Seq<u8>, x: int, y: int)
    requires
        draws.len() == 150,
    ensures
        occupied(initial_scatter(draws), x, y) <==> (valid_cell(x, y) && draws[(x - 1) * 10
            + (y - 1)] == 1),
{
    lemma_scatter_upto_occupancy(draws, x, y, 150);
}

/// Induction behind `lemma_scatter_occupancy`, over the first `k` draws.
proof fn lemma_scatter_upto_occupancy(draws: Seq<u8>, x: int, y: int, k: int)
    requires
        draws.len() == 150,
        0 <= k <= 150,
    ensures
        occupied(scatter_upto(draws, k), x, y) <==> (valid_cell(x, y) && (x - 1) * 10 + (y
            - 1) < k && draws[(x - 1) * 10 + (y - 1)] == 1),
    decreases k,
{
    let idx: int = (x - 1) * 10 + (y - 1);
    if k > 0 {
        lemma_scatter_upto_occupancy(draws, x, y, k - 1);
        vstd::arithmetic::div_mod::lemma_fundamental_div_mod(k - 1, 10);
        let prev = scatter_upto(draws, k - 1);
        let cur = scatter_upto(draws, k);
        if draws[k - 1] == 1 {
            assert(cur == prev.push(scan_cell(k - 1)));
            if scan_cell(k - 1).at(x, y) {
                assert(valid_cell(x, y));
                assert(idx == k - 1);
                assert(cur[cur.len() - 1].at(x, y));
            }
            if occupied(cur, x, y) && !occupied(prev, x, y) {
                let i = choose|i: int| 0 <= i < cur.len() && cur[i].at(x, y);
                if i < prev.len() {
                    assert(prev[i].at(x, y));
                } else {
                    assert(scan_cell(k - 1).at(x, y));
                }
            }
            if occupied(prev, x, y) {
                let i = choose|i: int| 0 <= i < prev.len() && prev[i].at(x, y);
                assert(cur[i].at(x, y));
            }
        }
    }
}

/// Builds the pre-populated scatter of a fresh round: one random draw per
/// interior cell, in scan order; a cell receives an enemy exactly when its
/// draw came up 1.
pub fn spawn_initial_enemies(draws: &Vec<u8>) -> (r: Vec<Enemy>)
    requires
        draws@.len() == 150,
    ensures
        r@ == initial_scatter(draws@),
        all_wf(r@),
        distinct_cells(r@),
{
    let mut r: Vec<Enemy> = Vec::new();
    let mut k: usize = 0;
    while k < 150
        invariant
            k <= 150,
            draws@.len() == 150,
            r@ == scatter_upto(draws@, k as int),
        decreases 150 - k,
    {
        if draws[k] == 1 {
            let x: u8 = (1 + k / 10) as u8;
            let y: u8 = (1 + k % 10) as u8;
            r.push(Enemy { x, y });
            assert(Enemy { x, y } == scan_cell(k as int));
        }
        k = k + 1;
    }
    proof {
        lemma_scatter_upto_props(draws@, 150);
    }
    r
}

/// The first draw that lands on a free cell, if any draw does.
pub open spec fn first_free_draw(es: Seq<Enemy>, draws: Seq<Enemy>) -> Option<Enemy>
    decreases draws.len(),
{
    if draws.len() == 0 {
        None
    } else if !occupied(es, draws[0].x as int, draws[0].y as int) {
        Some(draws[0])
    } else {
        first_free_draw(es, draws.drop_first())
    }
}

/// The first free cell at scan index `k` or beyond, if any.
pub open spec fn first_free_scan(es: Seq<Enemy>, k: int) -> Option<Enemy>
    decreases 150 - k,
{
    if k < 0 || k >= 150 {
        None
    } else if !occupied(es, scan_cell(k).x as int, scan_cell(k).y as int) {
        Some(scan_cell(k))
    } else {
        first_free_scan(es, k + 1)
    }
}

/// The cell a spawn lands on: the first free draw wins; if every draw is
/// rejected, the first free cell in scan order is taken; only a fully
/// occupied grid yields none.
pub open spec fn spawn_cell(es: Seq<Enemy>, draws: Seq<Enemy>) -> Option<Enemy> {
    if first_free_draw(es, draws) is Some {
        first_free_draw(es, draws)
    } else {
        first_free_scan(es, 0)
    }
}

/// A spawn never lands on an occupied cell, and always lands on an
/// interior cell.
pub proof fn lemma_spawn_cell_free(es: Seq<Enemy>, draws: Seq<Enemy>)
    requires
        forall|i: int| 0 <= i < draws.len() ==> #[trigger] draws[i].wf(),
    ensures
        spawn_cell(es, draws) matches Some(c) ==> !occupied(es, c.x as int, c.y as int)
            && c.wf(),
{
    lemma_first_free_draw_free(es, draws);
    lemma_first_free_scan_free(es, 0);
}

/// A free draw chosen by `first_free_draw` is free and well formed.
pub proof fn lemma_first_free_draw_free(es: Seq<Enemy>, draws: Seq<Enemy>)
    requires
        forall|i: int| 0 <= i < draws.len() ==> #[trigger] draws[i].wf(),
    ensures
        first_free_draw(es, draws) matches Some(c) ==> !occupied(es, c.x as int, c.y as int)
            && c.wf(),
    decreases draws.len(),
{
    if draws.len() > 0 && occupied(es, draws[0].x as int, draws[0].y as int) {
        lemma_first_free_draw_free(es, draws.drop_first());
    }
}

/// A cell chosen by the scan fallback is free and well formed.
pub proof fn lemma_first_free_scan_free(es: Seq<Enemy>, k: int)
    ensures
        first_free_scan(es, k) matches Some(c) ==> !occupied(es, c.x as int, c.y as int)
            && c.wf(),
    decreases 150 - k,
{
    if 0 <= k < 150 {
        vstd::arithmetic::div_mod::lemma_fundamental_div_mod(k, 10);
        assert(scan_cell(k).wf());
        lemma_first_free_scan_free(es, k + 1);
    }
}

/// As long as any interior cell is free, a spawn cell exists: the scan
/// fallback is sure to find a free cell, whatever the draws were.
pub proof fn lemma_spawn_cell_exists(es: Seq<Enemy>, draws: Seq<Enemy>, x: int, y: int)
    requires
        valid_cell(x, y),
        !occupied(es, x, y),
    ensures
        spawn_cell(es, draws) is Some,
{
    lemma_scan_finds_free(es, 0, x, y);
}

/// Induction behind `lemma_spawn_cell_exists`: the scan from index `k`
/// finds a free cell whenever the free cell `(x, y)` lies at `k` or
/// beyond.
proof fn lemma_scan_finds_free(es: Seq<Enemy>, k: int, x: int, y: int)
    requires
        valid_cell(x, y),
        !occupied(es, x, y),
        0 <= k <= (x - 1) * 10 + (y - 1),
    ensures
        first_free_scan(es, k) is Some,
    decreases 150 - k,
{
    let idx: int = (x - 1) * 10 + (y - 1);
    assert(0 <= idx < 150);
    if occupied(es, scan_cell(k).x as int, scan_cell(k).y as int) {
        if k == idx {
            vstd::arithmetic::div_mod::lemma_fundamental_div_mod_converse(idx, 10, x - 1, y - 1);
            assert(scan_cell(k).at(x, y));
            assert(false);
        }
        lemma_scan_finds_free(es, k + 1, x, y);
    }
}

/// Picks the cell for a newly spawned enemy: the first random draw on a
/// free cell wins; when every draw is rejected, the first free cell in
/// scan order is taken; `None` only when the grid is full.
pub fn choose_spawn_cell(enemies: &Vec<Enemy>, draws: &Vec<Enemy>) -> (r: Option<Enemy>)
    ensures
        r == spawn_cell(enemies@, draws@),
{
    let mut i: usize = 0;
    proof {
        assert(draws@.skip(0) =~= draws@);
    }
    while i < draws.len()
        invariant
            i <= draws@.len(),
            first_free_draw(enemies@, draws@) == first_free_draw(
                enemies@,
                draws@.skip(i as int),
            ),
        decreases draws@.len() - i,
    {
        let d = draws[i];
        proof {
            assert(draws@.skip(i as int)[0] == d);
        }
        if !is_cell_occupied(enemies, d.x, d.y) {
            return Some(d);
        }
        proof {
            assert(draws@.skip(i as int).drop_first() =~= draws@.skip(i as int + 1));
        }
        i = i + 1;
    }
    proof {
        assert(draws@.skip(draws@.len() as int) =~= Seq::<Enemy>::empty());
        assert(first_free_draw(enemies@, draws@) is None);
    }
    let mut k: usize = 0;
    while k < 150
        invariant
            k <= 150,
            first_free_draw(enemies@, draws@) is None,
            first_free_scan(enemies@, 0) == first_free_scan(enemies@, k as int),
        decreases 150 - k,
    {
        let x: u8 = (1 + k / 10) as u8;
        let y: u8 = (1 + k % 10) as u8;
        proof {
            assert(Enemy { x, y } == scan_cell(k as int));
        }
        if !is_cell_occupied(enemies, x, y) {
            return Some(Enemy { x, y });
        }
        k = k + 1;
    }
    None
}

} // verus!
