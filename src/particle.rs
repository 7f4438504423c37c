use vstd::prelude::*;
use rand::Rng;
use crate::grid::{Cells, Grid, in_bounds, set_cell};

verus! {

/// A grain of sand at column `xcoord`, row `ycoord`.
#[derive(Clone, Copy)]
pub struct SandParticle {
    pub xcoord: u32,
    pub ycoord: u32,
}

/// What a particle does in one tick.
#[derive(Clone, Copy)]
pub enum Move {
    Stay,
    Down,
    DownLeft,
    DownRight,
}

impl SandParticle {
    pub open spec fn pos(&self) -> (int, int) {
        (self.xcoord as int, self.ycoord as int)
    }
}

/// Outside the two-cell margin of a `w` by `h` grid, where all three cells
/// below the particle can be read.
pub open spec fn movable(w: int, h: int, c: (int, int)) -> bool {
    2 <= c.0 <= w - 2 && 2 <= c.1 <= h - 2
}

/// The fall rule: straight down if free, else the one free diagonal, else
/// (both diagonals free) the side picked by `right`; frozen in the margin
/// or when all three cells below are filled.
pub open spec fn decide(g: Cells, w: int, h: int, c: (int, int), right: bool) -> Move {
    let below = g[c.1 + 1][c.0];
    let below_left = g[c.1 + 1][c.0 - 1];
    let below_right = g[c.1 + 1][c.0 + 1];
    if !movable(w, h, c) {
        Move::Stay
    } else if !below {
        Move::Down
    } else if below_left && below_right {
        Move::Stay
    } else if below_left {
        Move::DownRight
    } else if below_right {
        Move::DownLeft
    } else if right {
        Move::DownRight
    } else {
        Move::DownLeft
    }
}

pub open spec fn destination(c: (int, int), m: Move) -> (int, int) {
    match m {
        Move::Stay => c,
        Move::Down => (c.0, c.1 + 1),
        Move::DownLeft => (c.0 - 1, c.1 + 1),
        Move::DownRight => (c.0 + 1, c.1 + 1),
    }
}

/// A draw from 1 to 100 sends a particle right when it is above 50: an even split.
pub open spec fn draws_right(draw: u32) -> bool {
    draw > 50
}

/// The field after a particle leaves `from` for `to`.
pub open spec fn relocate(g: Cells, from: (int, int), to: (int, int)) -> Cells {
    if from == to {
        g
    } else {
        set_cell(set_cell(g, from, false), to, true)
    }
}

/// Where the particle at `c` ends the tick, given the tie-break draw.
pub open spec fn fall_target(g: Cells, w: int, h: int, c: (int, int), draw: u32) -> (int, int) {
    destination(c, decide(g, w, h, c, draws_right(draw)))
}

/// The field after the particle at `c` has made its move.
pub open spec fn fall_cells(g: Cells, w: int, h: int, c: (int, int), draw: u32) -> Cells {
    relocate(g, c, fall_target(g, w, h, c, draw))
}

/// Relies on rand::thread_rng and Rng::gen_range: a value drawn from 1 to 100
/// (the range `1..101` is not empty, so the draw does not panic).
#[verifier::external_body]
pub(crate) fn random_percent() -> (r: u32)
    ensures
        1 <= r <= 100,
{
    rand::thread_rng().gen_range(1..101)
}

impl SandParticle {
    /// A particle at `(xcoord, ycoord)`, with its cell marked in `grid`.
    /// The cell is filled whether or not it was free; `Particles::spawn`
    /// checks first and refuses a filled cell.
    pub fn new(grid: &mut Grid, xcoord: u32, ycoord: u32) -> (r: SandParticle)
        requires
            old(grid).wf(),
            (xcoord as int) < old(grid).width,
            (ycoord as int) < old(grid).height,
        ensures
            r.xcoord == xcoord,
            r.ycoord == ycoord,
            final(grid).wf(),
            final(grid).width == old(grid).width,
            final(grid).height == old(grid).height,
            final(grid)@ == set_cell(old(grid)@, (xcoord as int, ycoord as int), true),
    {
        grid.occupy_cell(xcoord as usize, ycoord as usize);
        SandParticle { xcoord, ycoord }
    }

    /// Leaves the current cell and fills `(nx, ny)`.
    fn move_to(&mut self, grid: &mut Grid, nx: usize, ny: usize)
        requires
            old(grid).wf(),
            in_bounds(old(grid).width as int, old(grid).height as int, old(self).pos()),
            nx < old(grid).width,
            ny < old(grid).height,
            (nx as int, ny as int) != old(self).pos(),
        ensures
            final(self).pos() == (nx as int, ny as int),
            final(grid).wf(),
            final(grid).width == old(grid).width,
            final(grid).height == old(grid).height,
            final(grid)@ == relocate(old(grid)@, old(self).pos(), (nx as int, ny as int)),
    {
        grid.leave_cell(self.xcoord as usize, self.ycoord as usize);
        self.xcoord = nx as u32;
        self.ycoord = ny as u32;
        grid.occupy_cell(nx, ny);
    }

    /// One tick of the fall rule, with `draw` (1 to 100) settling the
    /// tie-break when both diagonals are free.
    pub fn fall_with(&mut self, grid: &mut Grid, draw: u32)
        requires
            old(grid).wf(),
        ensures
            final(grid).wf(),
            final(grid).width == old(grid).width,
            final(grid).height == old(grid).height,
            final(self).pos() == fall_target(
                old(grid)@,
                old(grid).width as int,
                old(grid).height as int,
                old(self).pos(),
                draw,
            ),
            final(grid)@ == fall_cells(
                old(grid)@,
                old(grid).width as int,
                old(grid).height as int,
                old(self).pos(),
                draw,
            ),
    {
        let bounded: bool = self.ycoord >= 2 && self.xcoord >= 2 && grid.height >= 2
            && grid.width >= 2 && (self.ycoord as usize) <= grid.height - 2
            && (self.xcoord as usize) <= grid.width - 2;
        if !bounded {
            return;
        }
        let x: usize = self.xcoord as usize;
        let y: usize = self.ycoord as usize;
        let below: bool = grid.is_occupied(x, y + 1);
        let bleft: bool = grid.is_occupied(x - 1, y + 1);
        let bright: bool = grid.is_occupied(x + 1, y + 1);
        let m: Move = if !below {
            Move::Down
        } else if bleft && bright {
            Move::Stay
        } else if bleft {
            Move::DownRight
        } else if bright {
            Move::DownLeft
        } else if draw > 50 {
            Move::DownRight
        } else {
            Move::DownLeft
        };
        match m {
            Move::Stay => {},
            Move::Down => self.move_to(grid, x, y + 1),
            Move::DownLeft => self.move_to(grid, x - 1, y + 1),
            Move::DownRight => self.move_to(grid, x + 1, y + 1),
        }
    }

    /// One tick of the fall rule, with a fresh random tie-break.
    pub fn fall(&mut self, grid: &mut Grid)
        requires
            old(grid).wf(),
        ensures
            final(grid).wf(),
            final(grid).width == old(grid).width,
            final(grid).height == old(grid).height,
            exists|draw: u32|
                1 <= draw <= 100 && final(self).pos() == fall_target(
                    old(grid)@,
                    old(grid).width as int,
                    old(grid).height as int,
                    old(self).pos(),
                    draw,
                ) && final(grid)@ == fall_cells(
                    old(grid)@,
                    old(grid).width as int,
                    old(grid).height as int,
                    old(self).pos(),
                    draw,
                ),
    {
        let draw: u32 = random_percent();
        self.fall_with(grid, draw);
    }
}

} // verus!
