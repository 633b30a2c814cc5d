//! The grid store: the live generation, its scratch copy, and the count of
//! cells that the last step changed.
use vstd::prelude::*;
use crate::cell::GridCell;
use crate::life::{changed_count, evolve, next_generation};

verus! {

/// Relies on rand::random::<bool>: a fair coin flip from the thread-local
/// generator. Nothing is promised of the value.
#[verifier::external_body]
fn random_bool() -> (r: bool) {
    rand::random::<bool>()
}

/// The character of a decimal digit below ten.
pub open spec fn digit_char(d: nat) -> char {
    seq!['0', '1', '2', '3', '4', '5', '6', '7', '8', '9'][d as int]
}

/// The decimal representation of `n`, without leading zeros.
pub open spec fn decimal(n: nat) -> Seq<char>
    decreases n,
{
    if n < 10 {
        seq![digit_char(n)]
    } else {
        decimal(n / 10).push(digit_char(n % 10))
    }
}

/// The status line for a step that changed `n` cells.
pub open spec fn changed_text(n: nat) -> Seq<char> {
    decimal(n) + " blocks changed"@
}

/// Relies on std's `format!` with `{}` on a `u32`: the number in decimal,
/// without sign, padding or leading zeros, followed by the literal text.
#[verifier::external_body]
fn format_changed(n: u32) -> (r: String)
    ensures
        r@ == changed_text(n as nat),
{
    format!("{n} blocks changed")
}

/// The two buffers of a grid, both laid out row-major: the generation shown
/// now, and the scratch copy that a step reads while it rewrites `current`.
pub struct Generations {
    pub current: Vec<GridCell>,
    pub previous: Vec<GridCell>,
}

/// The Game of Life state: `grid` holds the current generation and the scratch
/// copy of the previous one, or nothing before the first generation is made;
/// `diff` holds the number of cells that the last step changed until it is read.
pub struct GameOfLifeWidget {
    pub grid: Option<Generations>,
    pub diff: Option<u32>,
}

impl GameOfLifeWidget {
    /// A grid exists, its current generation holds `width * height` cells and
    /// the scratch buffer is as long.
    pub open spec fn is_sized(&self, width: int, height: int) -> bool {
        &&& self.grid is Some
        &&& self.grid->0.current@.len() == width * height
        &&& self.grid->0.previous@.len() == self.grid->0.current@.len()
    }

    /// The current generation, or the empty sequence when there is no grid.
    pub open spec fn current(&self) -> Seq<GridCell> {
        match self.grid {
            Some(g) => g.current@,
            None => Seq::empty(),
        }
    }

    /// What `ensure_sized(width, height)` may leave behind: the store unchanged
    /// when it was already sized, else a fresh generation of `width * height`
    /// cells, copied into the scratch buffer, with no pending change count.
    pub open spec fn ensure_sized_post(before: Self, after: Self, width: int, height: int) -> bool {
        if before.is_sized(width, height) {
            after == before
        } else {
            &&& after.is_sized(width, height)
            &&& after.grid->0.previous@ == after.grid->0.current@
            &&& after.diff is None
        }
    }

    /// An empty store: no grid and no pending change count.
    pub fn new() -> (r: Self)
        ensures
            r.grid is None,
            r.diff is None,
    {
        GameOfLifeWidget { grid: None, diff: None }
    }

    /// A store whose current generation is `cells`, with the scratch buffer a
    /// copy of it and no pending change count.
    pub fn with_cells(cells: Vec<GridCell>) -> (r: Self)
        ensures
            r.grid is Some,
            r.grid->0.current@ == cells@,
            r.grid->0.previous@ == cells@,
            r.diff is None,
    {
        let mut scratch: Vec<GridCell> = Vec::new();
        let mut i: usize = 0;
        while i < cells.len()
            invariant
                i <= cells@.len(),
                scratch@ == cells@.subrange(0, i as int),
            decreases cells@.len() - i,
        {
            scratch.push(cells[i]);
            i += 1;
        }
        assert(scratch@ =~= cells@);
        GameOfLifeWidget { grid: Some(Generations { current: cells, previous: scratch }), diff: None }
    }

    /// Clears the store: the next `ensure_sized` makes a fresh grid.
    pub fn reset(&mut self)
        ensures
            final(self).grid is None,
            final(self).diff is None,
    {
        self.grid = None;
        self.diff = None;
    }

    /// Replaces the grid with a random generation of `width * height` cells,
    /// each alive or dead by a coin flip, copies it into the scratch buffer and
    /// drops any pending change count.
    pub fn generate_game(&mut self, width: u16, height: u16)
        ensures
            final(self).is_sized(width as int, height as int),
            final(self).grid->0.previous@ == final(self).grid->0.current@,
            final(self).diff is None,
    {
        let mut cells: Vec<GridCell> = Vec::new();
        let mut scratch: Vec<GridCell> = Vec::new();
        let mut y: u16 = 0;
        while y < height
            invariant
                y <= height,
                cells@.len() == y as int * width as int,
                scratch@ == cells@,
            decreases height - y,
        {
            let mut x: u16 = 0;
            while x < width
                invariant
                    y < height,
                    x <= width,
                    cells@.len() == y as int * width as int + x as int,
                    scratch@ == cells@,
                decreases width - x,
            {
                let c = GridCell::from_bool(random_bool());
                cells.push(c);
                scratch.push(c);
                x += 1;
            }
            proof {
                assert((y + 1) * width == y * width + width) by (nonlinear_arith);
            }
            y += 1;
        }
        proof {
            assert(y as int * width as int == width as int * height as int) by (nonlinear_arith)
                requires y == height;
        }
        self.grid = Some(Generations { current: cells, previous: scratch });
        self.diff = None;
    }

    /// Makes sure the grid holds `width * height` cells: when there is no grid,
    /// or its size differs, a fresh random one replaces it. Returns whether it did.
    pub fn ensure_sized(&mut self, width: u16, height: u16) -> (regenerated: bool)
        ensures
            regenerated == !old(self).is_sized(width as int, height as int),
            final(self).is_sized(width as int, height as int),
            Self::ensure_sized_post(*old(self), *final(self), width as int, height as int),
    {
        proof {
            assert(width as int * height as int <= 65535 * 65535) by (nonlinear_arith)
                requires width <= 65535, height <= 65535;
        }
        let area: u64 = width as u64 * height as u64;
        let sized = match &self.grid {
            Some(g) => g.current.len() as u64 == area && g.previous.len() == g.current.len(),
            None => false,
        };
        if !sized {
            self.generate_game(width, height);
        }
        !sized
    }

    /// Advances the current generation by one step of Conway's rule, the
    /// scratch buffer keeping the generation before it, and records how many
    /// cells changed.
    pub fn step(&mut self, width: u16, height: u16)
        requires
            old(self).is_sized(width as int, height as int),
        ensures
            final(self).grid is Some,
            final(self).grid->0.current@ == next_generation(old(self).grid->0.current@, width as int, height as int),
            final(self).grid->0.previous@ == old(self).grid->0.current@,
            final(self).diff == Some(changed_count(old(self).grid->0.current@, final(self).grid->0.current@) as u32),
            changed_count(old(self).grid->0.current@, final(self).grid->0.current@) <= u32::MAX,
    {
        let g = self.grid.take();
        match g {
            Some(mut g) => {
                let diff = evolve(&mut g.current, &mut g.previous, width, height);
                self.grid = Some(g);
                self.diff = Some(diff);
            },
            None => {},
        }
    }

    /// One tick: a missing or wrongly sized grid is regenerated at random, and
    /// otherwise the grid advances by one step.
    pub fn calculate_game(&mut self, width: u16, height: u16)
        ensures
            !old(self).is_sized(width as int, height as int) ==> Self::ensure_sized_post(
                *old(self),
                *final(self),
                width as int,
                height as int,
            ),
            old(self).is_sized(width as int, height as int) ==> {
                &&& final(self).grid is Some
                &&& final(self).grid->0.current@ == next_generation(old(self).grid->0.current@, width as int, height as int)
                &&& final(self).grid->0.previous@ == old(self).grid->0.current@
                &&& final(self).diff == Some(changed_count(old(self).grid->0.current@, final(self).grid->0.current@) as u32)
            },
            final(self).is_sized(width as int, height as int),
    {
        if !self.ensure_sized(width, height) {
            self.step(width, height);
        }
    }

    /// The cell at column `x` of row `y` of the current generation, for a grid
    /// `width` cells wide; `None` when there is no grid or no such cell.
    pub fn cell_at(&self, x: u16, y: u16, width: u16) -> (r: Option<GridCell>)
        ensures
            r == (if x < width && (y as int) * (width as int) + (x as int) < self.current().len() {
                Some(self.current()[y as int * width as int + x as int])
            } else {
                None
            }),
    {
        match &self.grid {
            Some(g) => {
                if x >= width {
                    return None;
                }
                proof {
                    assert((y as int) * (width as int) + (x as int) <= 65535 * 65535 + 65535) by (nonlinear_arith)
                        requires y <= 65535, width <= 65535, x <= 65535;
                }
                let i: u64 = y as u64 * width as u64 + x as u64;
                if i < g.current.len() as u64 {
                    Some(g.current[i as usize])
                } else {
                    None
                }
            },
            None => None,
        }
    }

    /// A copy of the current generation; empty when there is no grid.
    pub fn current_cells(&self) -> (r: Vec<GridCell>)
        ensures
            r@ == self.current(),
    {
        let mut out: Vec<GridCell> = Vec::new();
        match &self.grid {
            Some(g) => {
                let mut i: usize = 0;
                while i < g.current.len()
                    invariant
                        i <= g.current@.len(),
                        out@ == g.current@.subrange(0, i as int),
                    decreases g.current@.len() - i,
                {
                    out.push(g.current[i]);
                    i += 1;
                }
                assert(out@ =~= g.current@);
            },
            None => {
                assert(out@ =~= Seq::<GridCell>::empty());
            },
        }
        out
    }

    /// Hands out the status line for the pending change count,
    /// "<count> blocks changed", and clears the count; `None` when none is pending.
    pub fn print_diff(&mut self) -> (r: Option<String>)
        ensures
            old(self).diff is None ==> r is None,
            old(self).diff is Some ==> r is Some && r->0@ == changed_text(old(self).diff->0 as nat),
            final(self).diff is None,
            final(self).grid == old(self).grid,
    {
        match self.diff.take() {
            Some(n) => Some(format_changed(n)),
            None => None,
        }
    }

    /// Hands out the pending change count and clears it.
    pub fn take_diff(&mut self) -> (r: Option<u32>)
        ensures
            r == old(self).diff,
            final(self).diff is None,
            final(self).grid == old(self).grid,
    {
        self.diff.take()
    }
}

/// Calling `ensure_sized` twice in a row with the same size regenerates at
/// most once: the second call leaves the store exactly as the first left it.
pub proof fn lemma_ensure_sized_idempotent(
    s0: GameOfLifeWidget,
    s1: GameOfLifeWidget,
    s2: GameOfLifeWidget,
    width: int,
    height: int,
)
    requires
        GameOfLifeWidget::ensure_sized_post(s0, s1, width, height),
        GameOfLifeWidget::ensure_sized_post(s1, s2, width, height),
    ensures
        s1.is_sized(width, height),
        s2 == s1,
{
}

} // verus!
