//! The evolution step: neighbour counting with a dead border and Conway's rule.
use vstd::prelude::*;
use vstd::arithmetic::div_mod::lemma_fundamental_div_mod_converse;
use crate::cell::{GridCell, cell_value};

verus! {

/// 1 when position (x, y) lies inside the `w` by `h` grid `g` and holds a live
/// cell, 0 otherwise: positions outside the grid count as dead.
pub open spec fn alive_at(g: Seq<GridCell>, w: int, h: int, x: int, y: int) -> int {
    if 0 <= x < w && 0 <= y < h {
        cell_value(g[y * w + x])
    } else {
        0
    }
}

/// The number of live cells among the eight positions around (x, y).
pub open spec fn live_neighbors(g: Seq<GridCell>, w: int, h: int, x: int, y: int) -> int {
    alive_at(g, w, h, x - 1, y - 1) + alive_at(g, w, h, x, y - 1) + alive_at(g, w, h, x + 1, y - 1)
        + alive_at(g, w, h, x - 1, y) + alive_at(g, w, h, x + 1, y)
        + alive_at(g, w, h, x - 1, y + 1) + alive_at(g, w, h, x, y + 1)
        + alive_at(g, w, h, x + 1, y + 1)
}

/// Conway's rule: a live cell with two or three live neighbours lives on, a
/// dead cell with exactly three comes alive, every other cell is dead.
pub open spec fn next_state(c: GridCell, n: int) -> GridCell {
    match c {
        GridCell::Alive => if n == 2 || n == 3 { GridCell::Alive } else { GridCell::Dead },
        GridCell::Dead => if n == 3 { GridCell::Alive } else { GridCell::Dead },
    }
}

/// The generation that follows `g`, a row-major grid `w` cells wide and `h` high.
pub open spec fn next_generation(g: Seq<GridCell>, w: int, h: int) -> Seq<GridCell> {
    Seq::new(g.len(), |i: int| next_state(g[i], live_neighbors(g, w, h, i % w, i / w)))
}

/// The number of indices below `n` at which `a` and `b` differ.
pub open spec fn changed_upto(a: Seq<GridCell>, b: Seq<GridCell>, n: int) -> nat
    decreases n,
{
    if n <= 0 {
        0
    } else {
        changed_upto(a, b, n - 1) + if a[n - 1] != b[n - 1] { 1nat } else { 0nat }
    }
}

/// The number of cells whose state differs between `a` and `b`.
pub open spec fn changed_count(a: Seq<GridCell>, b: Seq<GridCell>) -> nat {
    changed_upto(a, b, a.len() as int)
}

/// The count over a prefix reads only that prefix.
proof fn lemma_changed_upto_prefix(a1: Seq<GridCell>, b1: Seq<GridCell>, a2: Seq<GridCell>, b2: Seq<GridCell>, n: int)
    requires
        0 <= n <= a1.len(),
        n <= a2.len(),
        n <= b1.len(),
        n <= b2.len(),
        forall|j: int| 0 <= j < n ==> a1[j] == a2[j] && b1[j] == b2[j],
    ensures
        changed_upto(a1, b1, n) == changed_upto(a2, b2, n),
    decreases n,
{
    if n > 0 {
        lemma_changed_upto_prefix(a1, b1, a2, b2, n - 1);
    }
}

/// Index and coordinates of a cell agree.
proof fn lemma_index_coords(w: int, h: int, x: int, y: int)
    requires
        0 <= x < w,
        0 <= y < h,
    ensures
        0 <= y * w + x < w * h,
        (y * w + x) % w == x,
        (y * w + x) / w == y,
{
    assert(0 <= y * w + x < w * h) by (nonlinear_arith)
        requires 0 <= x < w, 0 <= y < h;
    lemma_fundamental_div_mod_converse(y * w + x, w, y, x);
}

/// Distinct positions inside the grid have distinct indices.
proof fn lemma_index_injective(w: int, h: int, x1: int, y1: int, x2: int, y2: int)
    requires
        0 <= x1 < w,
        0 <= y1 < h,
        0 <= x2 < w,
        0 <= y2 < h,
        y1 * w + x1 == y2 * w + x2,
    ensures
        x1 == x2,
        y1 == y2,
{
    lemma_index_coords(w, h, x1, y1);
    lemma_index_coords(w, h, x2, y2);
}

/// The rule on a dead cell: it comes alive with exactly three live neighbours,
/// and stays dead with two or with four.
pub proof fn lemma_birth(g: Seq<GridCell>, w: int, h: int, x: int, y: int)
    requires
        g.len() == w * h,
        0 <= x < w,
        0 <= y < h,
        g[y * w + x] == GridCell::Dead,
    ensures
        live_neighbors(g, w, h, x, y) == 3 ==> next_generation(g, w, h)[y * w + x] == GridCell::Alive,
        live_neighbors(g, w, h, x, y) == 2 || live_neighbors(g, w, h, x, y) == 4
            ==> next_generation(g, w, h)[y * w + x] == GridCell::Dead,
{
    lemma_index_coords(w, h, x, y);
}

/// No wraparound across columns: in a grid at least three cells wide, the
/// neighbour count of a cell in the leftmost column does not depend on the
/// rightmost column, whatever that column holds.
pub proof fn lemma_left_edge_ignores_right_column(g1: Seq<GridCell>, g2: Seq<GridCell>, w: int, h: int, y: int)
    requires
        w >= 3,
        g1.len() == w * h,
        g2.len() == w * h,
        0 <= y < h,
        forall|k: int| 0 <= k < w * h && k % w != w - 1 ==> g1[k] == g2[k],
    ensures
        live_neighbors(g1, w, h, 0, y) == live_neighbors(g2, w, h, 0, y),
{
    lemma_off_column_agrees(g1, g2, w, h, -1, y - 1);
    lemma_off_column_agrees(g1, g2, w, h, 0, y - 1);
    lemma_off_column_agrees(g1, g2, w, h, 1, y - 1);
    lemma_off_column_agrees(g1, g2, w, h, -1, y);
    lemma_off_column_agrees(g1, g2, w, h, 1, y);
    lemma_off_column_agrees(g1, g2, w, h, -1, y + 1);
    lemma_off_column_agrees(g1, g2, w, h, 0, y + 1);
    lemma_off_column_agrees(g1, g2, w, h, 1, y + 1);
}

/// Grids that agree off the rightmost column read alike anywhere else.
proof fn lemma_off_column_agrees(g1: Seq<GridCell>, g2: Seq<GridCell>, w: int, h: int, nx: int, ny: int)
    requires
        nx != w - 1,
        forall|k: int| 0 <= k < w * h && k % w != w - 1 ==> g1[k] == g2[k],
    ensures
        alive_at(g1, w, h, nx, ny) == alive_at(g2, w, h, nx, ny),
{
    if 0 <= nx < w && 0 <= ny < h {
        lemma_index_coords(w, h, nx, ny);
    }
}

/// Grids that agree off the bottom row read alike anywhere else.
proof fn lemma_off_row_agrees(g1: Seq<GridCell>, g2: Seq<GridCell>, w: int, h: int, nx: int, ny: int)
    requires
        ny != h - 1,
        forall|k: int| 0 <= k < w * h && k / w != h - 1 ==> g1[k] == g2[k],
    ensures
        alive_at(g1, w, h, nx, ny) == alive_at(g2, w, h, nx, ny),
{
    if 0 <= nx < w && 0 <= ny < h {
        lemma_index_coords(w, h, nx, ny);
    }
}

/// No wraparound across rows: in a grid at least three cells high, the
/// neighbour count of a cell in the top row does not depend on the bottom row,
/// whatever that row holds.
pub proof fn lemma_top_edge_ignores_bottom_row(g1: Seq<GridCell>, g2: Seq<GridCell>, w: int, h: int, x: int)
    requires
        h >= 3,
        g1.len() == w * h,
        g2.len() == w * h,
        0 <= x < w,
        forall|k: int| 0 <= k < w * h && k / w != h - 1 ==> g1[k] == g2[k],
    ensures
        live_neighbors(g1, w, h, x, 0) == live_neighbors(g2, w, h, x, 0),
{
    lemma_off_row_agrees(g1, g2, w, h, x - 1, -1);
    lemma_off_row_agrees(g1, g2, w, h, x, -1);
    lemma_off_row_agrees(g1, g2, w, h, x + 1, -1);
    lemma_off_row_agrees(g1, g2, w, h, x - 1, 0);
    lemma_off_row_agrees(g1, g2, w, h, x + 1, 0);
    lemma_off_row_agrees(g1, g2, w, h, x - 1, 1);
    lemma_off_row_agrees(g1, g2, w, h, x, 1);
    lemma_off_row_agrees(g1, g2, w, h, x + 1, 1);
}

/// A live cell with no other live cell in the grid, on the border or not, has
/// no live neighbours and dies in the next generation.
pub proof fn lemma_lone_cell_dies(g: Seq<GridCell>, w: int, h: int, x: int, y: int)
    requires
        g.len() == w * h,
        0 <= x < w,
        0 <= y < h,
        g[y * w + x] == GridCell::Alive,
        forall|k: int| 0 <= k < g.len() && k != y * w + x ==> g[k] == GridCell::Dead,
    ensures
        live_neighbors(g, w, h, x, y) == 0,
        next_generation(g, w, h)[y * w + x] == GridCell::Dead,
{
    lemma_other_cell_dead(g, w, h, x, y, x - 1, y - 1);
    lemma_other_cell_dead(g, w, h, x, y, x, y - 1);
    lemma_other_cell_dead(g, w, h, x, y, x + 1, y - 1);
    lemma_other_cell_dead(g, w, h, x, y, x - 1, y);
    lemma_other_cell_dead(g, w, h, x, y, x + 1, y);
    lemma_other_cell_dead(g, w, h, x, y, x - 1, y + 1);
    lemma_other_cell_dead(g, w, h, x, y, x, y + 1);
    lemma_other_cell_dead(g, w, h, x, y, x + 1, y + 1);
    lemma_index_coords(w, h, x, y);
}

/// With (x, y) the only live cell, every other position reads as dead.
proof fn lemma_other_cell_dead(g: Seq<GridCell>, w: int, h: int, x: int, y: int, nx: int, ny: int)
    requires
        g.len() == w * h,
        0 <= x < w,
        0 <= y < h,
        nx != x || ny != y,
        forall|k: int| 0 <= k < g.len() && k != y * w + x ==> g[k] == GridCell::Dead,
    ensures
        alive_at(g, w, h, nx, ny) == 0,
{
    if 0 <= nx < w && 0 <= ny < h {
        lemma_index_coords(w, h, nx, ny);
        if ny * w + nx == y * w + x {
            lemma_index_injective(w, h, nx, ny, x, y);
        }
    }
}

/// Whether the neighbour of (x, y) at offset (dx - 1, dy - 1) is alive, as 0 or 1.
fn neighbor(cells: &Vec<GridCell>, width: u16, height: u16, x: u16, y: u16, dx: u16, dy: u16) -> (r: u8)
    requires
        cells@.len() == width as int * height as int,
        x < width,
        y < height,
        dx <= 2,
        dy <= 2,
    ensures
        r as int == alive_at(cells@, width as int, height as int, x + dx - 1, y + dy - 1),
{
    let sx: usize = x as usize + dx as usize;
    let sy: usize = y as usize + dy as usize;
    if sx == 0 || sy == 0 {
        return 0;
    }
    let nx: usize = sx - 1;
    let ny: usize = sy - 1;
    if nx >= width as usize || ny >= height as usize {
        return 0;
    }
    let len: usize = cells.len();
    proof {
        lemma_index_coords(width as int, height as int, nx as int, ny as int);
        assert(ny * width <= ny * width + nx) by (nonlinear_arith)
            requires nx >= 0;
    }
    let i: usize = ny * width as usize + nx;
    GridCell::into(&cells[i])
}

/// The number of live neighbours of (x, y), counting positions outside the grid as dead.
pub fn count_live_neighbors(cells: &Vec<GridCell>, width: u16, height: u16, x: u16, y: u16) -> (r: u8)
    requires
        cells@.len() == width as int * height as int,
        x < width,
        y < height,
    ensures
        r as int == live_neighbors(cells@, width as int, height as int, x as int, y as int),
        r <= 8,
{
    neighbor(cells, width, height, x, y, 0, 0) + neighbor(cells, width, height, x, y, 1, 0)
        + neighbor(cells, width, height, x, y, 2, 0) + neighbor(cells, width, height, x, y, 0, 1)
        + neighbor(cells, width, height, x, y, 2, 1) + neighbor(cells, width, height, x, y, 0, 2)
        + neighbor(cells, width, height, x, y, 1, 2) + neighbor(cells, width, height, x, y, 2, 2)
}

/// The state that a cell in state `c` with `n` live neighbours takes in the next generation.
pub fn next_cell(c: GridCell, n: u8) -> (r: GridCell)
    ensures
        r == next_state(c, n as int),
{
    match c {
        GridCell::Alive => if n == 2 || n == 3 { GridCell::Alive } else { GridCell::Dead },
        GridCell::Dead => if n == 3 { GridCell::Alive } else { GridCell::Dead },
    }
}

/// Overwrites `dst` with the cells of `src`.
fn copy_generation(dst: &mut Vec<GridCell>, src: &Vec<GridCell>)
    requires
        old(dst)@.len() == src@.len(),
    ensures
        final(dst)@ == src@,
{
    let n: usize = src.len();
    let mut i: usize = 0;
    while i < n
        invariant
            n == src@.len(),
            dst@.len() == n,
            i <= n,
            forall|j: int| 0 <= j < i ==> dst@[j] == src@[j],
        decreases n - i,
    {
        dst.set(i, src[i]);
        i += 1;
    }
    assert(dst@ =~= src@);
}

/// Advances `current`, a row-major grid `width` cells wide and `height` high,
/// by one generation. `previous` first receives a copy of `current`, and every
/// neighbour count reads that copy, so no count sees a cell already updated.
/// Returns how many cells changed state.
pub fn evolve(current: &mut Vec<GridCell>, previous: &mut Vec<GridCell>, width: u16, height: u16) -> (diff: u32)
    requires
        old(current)@.len() == width as int * height as int,
        old(previous)@.len() == old(current)@.len(),
    ensures
        final(previous)@ == old(current)@,
        final(current)@ == next_generation(old(current)@, width as int, height as int),
        diff as int == changed_count(old(current)@, final(current)@),
{
    copy_generation(previous, current);
    let ghost g = previous@;
    let ghost w = width as int;
    let ghost h = height as int;
    let ghost next = next_generation(g, w, h);
    let mut diff: u32 = 0;
    let mut i: usize = 0;
    let mut y: u16 = 0;
    proof {
        assert(w * h <= 65535 * 65535) by (nonlinear_arith)
            requires 0 <= w <= 65535, 0 <= h <= 65535;
    }
    while y < height
        invariant
            g == previous@,
            g.len() == w * h,
            w * h <= 65535 * 65535,
            w == width,
            h == height,
            next == next_generation(g, w, h),
            current@.len() == g.len(),
            y <= height,
            i == y * w,
            forall|j: int| 0 <= j < i ==> current@[j] == next[j],
            forall|j: int| i <= j < g.len() ==> current@[j] == g[j],
            diff as int == changed_upto(g, current@, i as int),
            diff <= i,
        decreases height - y,
    {
        proof {
            assert(y * w + w <= w * h) by (nonlinear_arith)
                requires y < h, 0 <= w;
        }
        let mut x: u16 = 0;
        while x < width
            invariant
                g == previous@,
                g.len() == w * h,
                w * h <= 65535 * 65535,
                w == width,
                h == height,
                next == next_generation(g, w, h),
                current@.len() == g.len(),
                y < height,
                x <= width,
                i == y * w + x,
                y * w + w <= w * h,
                forall|j: int| 0 <= j < i ==> current@[j] == next[j],
                forall|j: int| i <= j < g.len() ==> current@[j] == g[j],
                diff as int == changed_upto(g, current@, i as int),
                diff <= i,
            decreases width - x,
        {
            proof {
                lemma_index_coords(w, h, x as int, y as int);
            }
            let n = count_live_neighbors(previous, width, height, x, y);
            let c = previous[i];
            let nc = next_cell(c, n);
            assert(nc == next[i as int]);
            let ghost before = current@;
            if nc != c {
                current.set(i, nc);
                diff += 1;
            }
            proof {
                lemma_changed_upto_prefix(g, before, g, current@, i as int);
            }
            i += 1;
            x += 1;
        }
        proof {
            assert((y + 1) * w == y * w + w) by (nonlinear_arith);
        }
        y += 1;
    }
    proof {
        assert(y * w == w * h) by (nonlinear_arith)
            requires y == h;
    }
    assert(current@ =~= next);
    diff
}

} // verus!
