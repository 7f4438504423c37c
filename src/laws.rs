use vstd::prelude::*;
use crate::grid::{Cells, cells_shaped, in_bounds, set_cell};
use crate::particle::{fall_cells, fall_target, movable};
use crate::store::{
    consistent,
    lemma_consistent_count,
    lemma_tick_prefix_consistent,
    lemma_tick_prefix_len,
    occupied_set,
    tick,
    tick_prefix,
    ticks,
};

verus! {

/// After a tick every particle still sits on a filled cell of its own, and
/// the number of filled cells equals the number of particles.
pub proof fn lemma_tick_keeps_occupancy(
    g: Cells,
    w: int,
    h: int,
    ps: Seq<(int, int)>,
    draws: Seq<u32>,
)
    requires
        consistent(g, w, h, ps),
    ensures
        consistent(tick(g, w, h, ps, draws).0, w, h, tick(g, w, h, ps, draws).1),
        tick(g, w, h, ps, draws).1.len() == ps.len(),
        occupied_set(tick(g, w, h, ps, draws).0, w, h).len() == ps.len(),
{
    lemma_tick_prefix_consistent(g, w, h, ps, draws, ps.len());
    lemma_tick_prefix_len(g, w, h, ps, draws, ps.len());
    let r = tick(g, w, h, ps, draws);
    lemma_consistent_count(r.0, w, h, r.1);
}

proof fn lemma_tick_prefix_settled(
    g: Cells,
    w: int,
    h: int,
    ps: Seq<(int, int)>,
    draws: Seq<u32>,
    j: int,
    n: nat,
)
    requires
        0 <= j < n <= ps.len(),
    ensures
        tick_prefix(g, w, h, ps, draws, n).1[j] == tick_prefix(g, w, h, ps, draws, (j + 1) as nat).1[j],
    decreases n,
{
    if n > j + 1 {
        lemma_tick_prefix_settled(g, w, h, ps, draws, j, (n - 1) as nat);
        lemma_tick_prefix_len(g, w, h, ps, draws, (n - 1) as nat);
    }
}

/// A particle in the two-cell margin of the grid keeps its position
/// through a tick, whatever the draws.
pub proof fn lemma_margin_frozen(
    g: Cells,
    w: int,
    h: int,
    ps: Seq<(int, int)>,
    draws: Seq<u32>,
    i: int,
)
    requires
        0 <= i < ps.len(),
        ps[i].0 < 2 || ps[i].1 < 2 || ps[i].0 > w - 2 || ps[i].1 > h - 2,
    ensures
        tick(g, w, h, ps, draws).1[i] == ps[i],
{
    lemma_tick_prefix_settled(g, w, h, ps, draws, i, ps.len());
    lemma_tick_prefix_len(g, w, h, ps, draws, i as nat);
}

/// Ticks are a function of the field, the positions and the draws: two
/// runs from the same state with the same draws end in the same state.
pub proof fn lemma_ticks_deterministic(
    g1: Cells,
    g2: Cells,
    w: int,
    h: int,
    ps1: Seq<(int, int)>,
    ps2: Seq<(int, int)>,
    draws1: Seq<Seq<u32>>,
    draws2: Seq<Seq<u32>>,
    n: nat,
)
    requires
        g1 == g2,
        ps1 == ps2,
        draws1 == draws2,
    ensures
        ticks(g1, w, h, ps1, draws1, n) == ticks(g2, w, h, ps2, draws2, n),
{
}

/// A particle whose three cells below are all filled stays where it is,
/// and the field is left as it was.
pub proof fn lemma_blocked_stays(g: Cells, w: int, h: int, c: (int, int), draw: u32)
    requires
        g[c.1 + 1][c.0],
        g[c.1 + 1][c.0 - 1],
        g[c.1 + 1][c.0 + 1],
    ensures
        fall_target(g, w, h, c, draw) == c,
        fall_cells(g, w, h, c, draw) == g,
{
}

/// With the cell below and the one below-left filled and the one
/// below-right free, a particle slides down-right whatever the draw.
pub proof fn lemma_slides_right(g: Cells, w: int, h: int, c: (int, int), draw: u32)
    requires
        movable(w, h, c),
        g[c.1 + 1][c.0],
        g[c.1 + 1][c.0 - 1],
        !g[c.1 + 1][c.0 + 1],
    ensures
        fall_target(g, w, h, c, draw) == (c.0 + 1, c.1 + 1),
{
}

/// With the cell below filled and both diagonals free, draws from 51 to
/// 100 send the particle down-right and draws from 1 to 50 down-left.
pub proof fn lemma_tie_break(g: Cells, w: int, h: int, c: (int, int), draw: u32)
    requires
        movable(w, h, c),
        g[c.1 + 1][c.0],
        !g[c.1 + 1][c.0 - 1],
        !g[c.1 + 1][c.0 + 1],
    ensures
        draw > 50 ==> fall_target(g, w, h, c, draw) == (c.0 + 1, c.1 + 1),
        draw <= 50 ==> fall_target(g, w, h, c, draw) == (c.0 - 1, c.1 + 1),
{
}

/// The only filled cell of the `w` by `h` field `g` is `c`.
pub open spec fn only_filled(g: Cells, w: int, h: int, c: (int, int)) -> bool {
    &&& cells_shaped(g, w, h)
    &&& forall|x: int, y: int| in_bounds(w, h, (x, y)) ==> #[trigger] g[y][x] == ((x, y) == c)
}

proof fn lemma_lone_tick(g: Cells, w: int, h: int, c: (int, int), draws: Seq<u32>)
    requires
        only_filled(g, w, h, c),
        movable(w, h, c),
    ensures
        tick(g, w, h, seq![c], draws).1 == seq![(c.0, c.1 + 1)],
        only_filled(tick(g, w, h, seq![c], draws).0, w, h, (c.0, c.1 + 1)),
{
    let ps = seq![c];
    let below = (c.0, c.1 + 1);
    assert(tick_prefix(g, w, h, ps, draws, 0) == (g, ps));
    assert(!g[c.1 + 1][c.0]);
    assert(fall_target(g, w, h, c, draws[0]) == below);
    let g2 = fall_cells(g, w, h, c, draws[0]);
    assert(g2 == set_cell(set_cell(g, c, false), below, true));
    assert(ps.update(0, below) =~= seq![below]);
    assert forall|x: int, y: int| in_bounds(w, h, (x, y)) implies #[trigger] g2[y][x] == ((x, y)
        == below) by {}
}

/// A lone particle in an otherwise empty field falls one row per tick
/// while it stays out of the margin: after `n` ticks it is at `(x0, y0 + n)`.
pub proof fn lemma_straight_fall(
    g: Cells,
    w: int,
    h: int,
    x0: int,
    y0: int,
    draws: Seq<Seq<u32>>,
    n: nat,
)
    requires
        only_filled(g, w, h, (x0, y0)),
        2 <= x0 <= w - 2,
        2 <= y0,
        y0 + n <= h - 1,
    ensures
        ticks(g, w, h, seq![(x0, y0)], draws, n).1 == seq![(x0, y0 + n)],
        only_filled(ticks(g, w, h, seq![(x0, y0)], draws, n).0, w, h, (x0, y0 + n)),
    decreases n,
{
    if n > 0 {
        lemma_straight_fall(g, w, h, x0, y0, draws, (n - 1) as nat);
        let prev = ticks(g, w, h, seq![(x0, y0)], draws, (n - 1) as nat);
        lemma_lone_tick(prev.0, w, h, (x0, y0 + n - 1), draws[n - 1]);
    }
}

} // verus!
