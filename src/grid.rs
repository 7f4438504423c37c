use vstd::prelude::*;

verus! {

/// Width of the default simulation surface, in cells (one cell per pixel).
pub const WINDOW_WIDTH: usize = 800;

/// Height of the default simulation surface, in cells.
pub const WINDOW_HEIGHT: usize = 600;

/// Occupancy as a mathematical object: `g[y][x]` tells whether cell `(x, y)` is filled.
pub type Cells = Seq<Seq<bool>>;

/// `g` is a `w` by `h` field of cells, stored row by row.
pub open spec fn cells_shaped(g: Cells, w: int, h: int) -> bool {
    &&& g.len() == h
    &&& forall|y: int| 0 <= y < h ==> (#[trigger] g[y]).len() == w
}

pub open spec fn in_bounds(w: int, h: int, c: (int, int)) -> bool {
    0 <= c.0 < w && 0 <= c.1 < h
}

/// The field `g` with cell `c` set to `v`.
pub open spec fn set_cell(g: Cells, c: (int, int), v: bool) -> Cells {
    g.update(c.1, g[c.1].update(c.0, v))
}

/// One cell of the grid.
#[derive(Clone, Copy)]
pub struct GridCell {
    pub is_occupied: bool,
}

/// The occupancy grid: `cells[y][x]` is the cell at column `x`, row `y`.
/// Every method asks in its precondition for coordinates inside the grid,
/// so an access out of range cannot be written by a verified caller.
pub struct Grid {
    pub cells: Vec<Vec<GridCell>>,
    pub width: usize,
    pub height: usize,
}

impl View for Grid {
    type V = Cells;

    open spec fn view(&self) -> Cells {
        Seq::new(
            self.cells@.len(),
            |y: int| Seq::new(self.cells@[y]@.len(), |x: int| self.cells@[y]@[x].is_occupied),
        )
    }
}

impl Grid {
    /// The rows have the recorded shape, and coordinates fit in a `u32`.
    pub open spec fn wf(&self) -> bool {
        &&& self.cells@.len() == self.height
        &&& forall|y: int| 0 <= y < self.height ==> (#[trigger] self.cells@[y])@.len() == self.width
        &&& self.width <= u32::MAX
        &&& self.height <= u32::MAX
    }

    /// An empty grid of the default surface size.
    pub fn new() -> (r: Grid)
        ensures
            r.wf(),
            r.width == WINDOW_WIDTH,
            r.height == WINDOW_HEIGHT,
            forall|x: int, y: int| in_bounds(r.width as int, r.height as int, (x, y)) ==> !r@[y][x],
    {
        Grid::with_size(WINDOW_WIDTH, WINDOW_HEIGHT)
    }

    /// An empty grid of `width` by `height` cells.
    pub fn with_size(width: usize, height: usize) -> (r: Grid)
        requires
            width <= u32::MAX,
            height <= u32::MAX,
        ensures
            r.wf(),
            r.width == width,
            r.height == height,
            forall|x: int, y: int| in_bounds(width as int, height as int, (x, y)) ==> !r@[y][x],
    {
        let mut cells: Vec<Vec<GridCell>> = Vec::new();
        let mut y: usize = 0;
        while y < height
            invariant
                y <= height,
                cells@.len() == y,
                forall|j: int| 0 <= j < y ==> (#[trigger] cells@[j])@.len() == width,
                forall|j: int, x: int|
                    0 <= j < y && 0 <= x < width ==> !(#[trigger] cells@[j]@[x]).is_occupied,
            decreases height - y,
        {
            let mut row: Vec<GridCell> = Vec::new();
            let mut x: usize = 0;
            while x < width
                invariant
                    x <= width,
                    row@.len() == x,
                    forall|i: int| 0 <= i < x ==> !(#[trigger] row@[i]).is_occupied,
                decreases width - x,
            {
                row.push(GridCell { is_occupied: false });
                x = x + 1;
            }
            cells.push(row);
            y = y + 1;
        }
        Grid { cells, width, height }
    }

    /// Whether cell `(x, y)` is filled.
    pub fn is_occupied(&self, x: usize, y: usize) -> (r: bool)
        requires
            self.wf(),
            x < self.width,
            y < self.height,
        ensures
            r == self@[y as int][x as int],
    {
        self.cells[y][x].is_occupied
    }

    /// Marks cell `(x, y)` as filled; filling a filled cell changes nothing.
    pub fn occupy_cell(&mut self, x: usize, y: usize)
        requires
            old(self).wf(),
            x < old(self).width,
            y < old(self).height,
        ensures
            final(self).wf(),
            final(self).width == old(self).width,
            final(self).height == old(self).height,
            final(self)@ == set_cell(old(self)@, (x as int, y as int), true),
    {
        self.set_cell_state(x, y, true);
    }

    /// Marks cell `(x, y)` as empty.
    pub fn leave_cell(&mut self, x: usize, y: usize)
        requires
            old(self).wf(),
            x < old(self).width,
            y < old(self).height,
        ensures
            final(self).wf(),
            final(self).width == old(self).width,
            final(self).height == old(self).height,
            final(self)@ == set_cell(old(self)@, (x as int, y as int), false),
    {
        self.set_cell_state(x, y, false);
    }

    fn set_cell_state(&mut self, x: usize, y: usize, v: bool)
        requires
            old(self).wf(),
            x < old(self).width,
            y < old(self).height,
        ensures
            final(self).wf(),
            final(self).width == old(self).width,
            final(self).height == old(self).height,
            final(self)@ == set_cell(old(self)@, (x as int, y as int), v),
    {
        let ghost before = self@;
        self.cells[y].set(x, GridCell { is_occupied: v });
        assert(self@ =~~= set_cell(before, (x as int, y as int), v));
    }
}

} // verus!
