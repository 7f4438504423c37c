use vstd::prelude::*;
use crate::grid::{Cells, Grid, cells_shaped, in_bounds, set_cell};
use crate::particle::{SandParticle, fall_cells, fall_target, random_percent};

verus! {

/// The particles in the order they were spawned.
pub struct Particles {
    pub particles: Vec<SandParticle>,
}

pub open spec fn positions(ps: Seq<SandParticle>) -> Seq<(int, int)> {
    ps.map_values(|p: SandParticle| p.pos())
}

/// Every particle sits on a filled cell of its own, and every filled cell
/// holds a particle.
pub open spec fn consistent(g: Cells, w: int, h: int, ps: Seq<(int, int)>) -> bool {
    &&& cells_shaped(g, w, h)
    &&& forall|i: int|
        0 <= i < ps.len() ==> in_bounds(w, h, #[trigger] ps[i]) && g[ps[i].1][ps[i].0]
    &&& ps.no_duplicates()
    &&& forall|x: int, y: int| in_bounds(w, h, (x, y)) && #[trigger] g[y][x] ==> ps.contains((x, y))
}

/// The filled cells of a `w` by `h` field.
pub open spec fn occupied_set(g: Cells, w: int, h: int) -> Set<(int, int)> {
    Set::new(|c: (int, int)| in_bounds(w, h, c) && g[c.1][c.0])
}

/// The field and positions after the first `n` particles, in order, have
/// each made one move, the `i`-th with tie-break draw `draws[i]`.
pub open spec fn tick_prefix(
    g: Cells,
    w: int,
    h: int,
    ps: Seq<(int, int)>,
    draws: Seq<u32>,
    n: nat,
) -> (Cells, Seq<(int, int)>)
    decreases n,
{
    if n == 0 {
        (g, ps)
    } else {
        let prev = tick_prefix(g, w, h, ps, draws, (n - 1) as nat);
        let c = prev.1[n - 1];
        (
            fall_cells(prev.0, w, h, c, draws[n - 1]),
            prev.1.update(n - 1, fall_target(prev.0, w, h, c, draws[n - 1])),
        )
    }
}

/// One full tick: every particle moves once, in order.
pub open spec fn tick(g: Cells, w: int, h: int, ps: Seq<(int, int)>, draws: Seq<u32>) -> (
    Cells,
    Seq<(int, int)>,
) {
    tick_prefix(g, w, h, ps, draws, ps.len())
}

/// The field and positions after `n` ticks, tick `t` using the draws `draws[t]`.
pub open spec fn ticks(
    g: Cells,
    w: int,
    h: int,
    ps: Seq<(int, int)>,
    draws: Seq<Seq<u32>>,
    n: nat,
) -> (Cells, Seq<(int, int)>)
    decreases n,
{
    if n == 0 {
        (g, ps)
    } else {
        let prev = ticks(g, w, h, ps, draws, (n - 1) as nat);
        tick(prev.0, w, h, prev.1, draws[n - 1])
    }
}

pub proof fn lemma_tick_prefix_len(
    g: Cells,
    w: int,
    h: int,
    ps: Seq<(int, int)>,
    draws: Seq<u32>,
    n: nat,
)
    requires
        n <= ps.len(),
    ensures
        tick_prefix(g, w, h, ps, draws, n).1.len() == ps.len(),
        forall|j: int| n <= j < ps.len() ==> #[trigger] tick_prefix(g, w, h, ps, draws, n).1[j] == ps[j],
    decreases n,
{
    if n > 0 {
        lemma_tick_prefix_len(g, w, h, ps, draws, (n - 1) as nat);
    }
}

/// One particle's move keeps the field consistent with the positions.
pub proof fn lemma_fall_consistent(g: Cells, w: int, h: int, ps: Seq<(int, int)>, i: int, draw: u32)
    requires
        consistent(g, w, h, ps),
        0 <= i < ps.len(),
    ensures
        consistent(
            fall_cells(g, w, h, ps[i], draw),
            w,
            h,
            ps.update(i, fall_target(g, w, h, ps[i], draw)),
        ),
{
    let c = ps[i];
    let t = fall_target(g, w, h, c, draw);
    let g2 = fall_cells(g, w, h, c, draw);
    let ps2 = ps.update(i, t);
    if t == c {
        assert(ps2 =~= ps);
    } else {
        assert(in_bounds(w, h, t) && !g[t.1][t.0]);
        assert(g2 == set_cell(set_cell(g, c, false), t, true));
        assert forall|x: int, y: int| in_bounds(w, h, (x, y)) implies #[trigger] g2[y][x] == (
        if (x, y) == t {
            true
        } else if (x, y) == c {
            false
        } else {
            g[y][x]
        }) by {}
        assert forall|j: int| 0 <= j < ps2.len() implies in_bounds(w, h, #[trigger] ps2[j])
            && g2[ps2[j].1][ps2[j].0] by {
            if j != i {
                assert(ps[j] != c);
                assert(ps[j] != t);
            }
        }
        assert forall|j: int, k: int| 0 <= j < ps2.len() && 0 <= k < ps2.len() && j != k implies ps2[j]
            != ps2[k] by {
            if j == i {
                assert(ps[k] != t);
            } else if k == i {
                assert(ps[j] != t);
            }
        }
        assert forall|x: int, y: int| in_bounds(w, h, (x, y)) && #[trigger] g2[y][x] implies ps2.contains(
            (x, y),
        ) by {
            if (x, y) == t {
                assert(ps2[i] == (x, y));
            } else {
                assert(g[y][x]);
                assert(ps.contains((x, y)));
                let j = choose|j: int| 0 <= j < ps.len() && ps[j] == (x, y);
                assert(j != i);
                assert(ps2[j] == (x, y));
            }
        }
    }
}

/// Every prefix of a tick keeps the field consistent with the positions.
pub proof fn lemma_tick_prefix_consistent(
    g: Cells,
    w: int,
    h: int,
    ps: Seq<(int, int)>,
    draws: Seq<u32>,
    n: nat,
)
    requires
        consistent(g, w, h, ps),
        n <= ps.len(),
    ensures
        consistent(tick_prefix(g, w, h, ps, draws, n).0, w, h, tick_prefix(g, w, h, ps, draws, n).1),
    decreases n,
{
    if n > 0 {
        lemma_tick_prefix_consistent(g, w, h, ps, draws, (n - 1) as nat);
        lemma_tick_prefix_len(g, w, h, ps, draws, (n - 1) as nat);
        let prev = tick_prefix(g, w, h, ps, draws, (n - 1) as nat);
        lemma_fall_consistent(prev.0, w, h, prev.1, n - 1, draws[n - 1]);
    }
}

/// Under consistency the filled cells are exactly the positions, one per particle.
pub proof fn lemma_consistent_count(g: Cells, w: int, h: int, ps: Seq<(int, int)>)
    requires
        consistent(g, w, h, ps),
    ensures
        occupied_set(g, w, h) == ps.to_set(),
        occupied_set(g, w, h).finite(),
        occupied_set(g, w, h).len() == ps.len(),
{
    assert forall|c: (int, int)| #[trigger] occupied_set(g, w, h).contains(c) <==> ps.to_set().contains(c) by {
        if ps.to_set().contains(c) {
            let j = choose|j: int| 0 <= j < ps.len() && ps[j] == c;
            assert(in_bounds(w, h, ps[j]));
        }
    }
    assert(occupied_set(g, w, h) =~= ps.to_set());
    ps.unique_seq_to_set();
}

/// Spawning onto an empty cell keeps the field consistent with the positions.
pub proof fn lemma_spawn_consistent(g: Cells, w: int, h: int, ps: Seq<(int, int)>, c: (int, int))
    requires
        consistent(g, w, h, ps),
        in_bounds(w, h, c),
        !g[c.1][c.0],
    ensures
        consistent(set_cell(g, c, true), w, h, ps.push(c)),
{
    let g2 = set_cell(g, c, true);
    let ps2 = ps.push(c);
    assert forall|j: int| 0 <= j < ps2.len() implies in_bounds(w, h, #[trigger] ps2[j])
        && g2[ps2[j].1][ps2[j].0] by {
        if j < ps.len() {
            assert(ps[j] != c);
        }
    }
    assert forall|j: int, k: int| 0 <= j < ps2.len() && 0 <= k < ps2.len() && j != k implies ps2[j]
        != ps2[k] by {
        if j == ps.len() {
            assert(ps[k] != c);
        } else if k == ps.len() {
            assert(ps[j] != c);
        }
    }
    assert forall|x: int, y: int| in_bounds(w, h, (x, y)) && #[trigger] g2[y][x] implies ps2.contains(
        (x, y),
    ) by {
        if (x, y) == c {
            assert(ps2[ps.len() as int] == (x, y));
        } else {
            assert(g[y][x]);
            let j = choose|j: int| 0 <= j < ps.len() && ps[j] == (x, y);
            assert(ps2[j] == (x, y));
        }
    }
}

impl Particles {
    /// Adds a particle at `(x, y)` and fills its cell, unless the cell is
    /// already filled: then nothing changes and the result is `false`.
    pub fn spawn(&mut self, grid: &mut Grid, x: u32, y: u32) -> (r: bool)
        requires
            old(grid).wf(),
            (x as int) < old(grid).width,
            (y as int) < old(grid).height,
        ensures
            r == !old(grid)@[y as int][x as int],
            final(grid).wf(),
            final(grid).width == old(grid).width,
            final(grid).height == old(grid).height,
            r ==> final(self).particles@ == old(self).particles@.push(
                SandParticle { xcoord: x, ycoord: y },
            ),
            r ==> final(grid)@ == set_cell(old(grid)@, (x as int, y as int), true),
            !r ==> final(self).particles@ == old(self).particles@,
            !r ==> final(grid)@ == old(grid)@,
            consistent(
                old(grid)@,
                old(grid).width as int,
                old(grid).height as int,
                positions(old(self).particles@),
            ) ==> consistent(
                final(grid)@,
                final(grid).width as int,
                final(grid).height as int,
                positions(final(self).particles@),
            ),
    {
        proof {
            if consistent(
                grid@,
                grid.width as int,
                grid.height as int,
                positions(self.particles@),
            ) && !grid@[y as int][x as int] {
                lemma_spawn_consistent(
                    grid@,
                    grid.width as int,
                    grid.height as int,
                    positions(self.particles@),
                    (x as int, y as int),
                );
                assert(positions(self.particles@.push(SandParticle { xcoord: x, ycoord: y }))
                    =~= positions(self.particles@).push((x as int, y as int)));
            }
        }
        if grid.is_occupied(x as usize, y as usize) {
            return false;
        }
        let p = SandParticle::new(grid, x, y);
        self.particles.push(p);
        true
    }
}

/// One tick: every particle, in spawn order, makes one move; the `i`-th
/// particle's tie-break, if it needs one, is settled by `draws[i]`.
pub fn physics_step_with(part_vec: &mut Particles, grid: &mut Grid, draws: &Vec<u32>)
    requires
        old(grid).wf(),
        draws@.len() == old(part_vec).particles@.len(),
    ensures
        final(grid).wf(),
        final(grid).width == old(grid).width,
        final(grid).height == old(grid).height,
        final(part_vec).particles@.len() == old(part_vec).particles@.len(),
        (final(grid)@, positions(final(part_vec).particles@)) == tick(
            old(grid)@,
            old(grid).width as int,
            old(grid).height as int,
            positions(old(part_vec).particles@),
            draws@,
        ),
        consistent(
            old(grid)@,
            old(grid).width as int,
            old(grid).height as int,
            positions(old(part_vec).particles@),
        ) ==> consistent(
            final(grid)@,
            final(grid).width as int,
            final(grid).height as int,
            positions(final(part_vec).particles@),
        ),
{
    let ghost g0 = grid@;
    let ghost ps0 = positions(part_vec.particles@);
    let ghost w = grid.width as int;
    let ghost h = grid.height as int;
    let n: usize = part_vec.particles.len();
    let mut i: usize = 0;
    while i < n
        invariant
            i <= n,
            n == draws@.len(),
            n == ps0.len(),
            grid.wf(),
            grid.width == w,
            grid.height == h,
            part_vec.particles@.len() == n,
            (grid@, positions(part_vec.particles@)) == tick_prefix(g0, w, h, ps0, draws@, i as nat),
        decreases n - i,
    {
        let ghost before = part_vec.particles@;
        let mut p: SandParticle = part_vec.particles[i];
        p.fall_with(grid, draws[i]);
        part_vec.particles.set(i, p);
        assert(positions(part_vec.particles@) =~= positions(before).update(i as int, p.pos()));
        i = i + 1;
    }
    proof {
        if consistent(g0, w, h, ps0) {
            lemma_tick_prefix_consistent(g0, w, h, ps0, draws@, n as nat);
        }
    }
}

/// One tick with fresh random tie-breaks.
pub fn physics_step(part_vec: &mut Particles, grid: &mut Grid)
    requires
        old(grid).wf(),
    ensures
        final(grid).wf(),
        final(grid).width == old(grid).width,
        final(grid).height == old(grid).height,
        final(part_vec).particles@.len() == old(part_vec).particles@.len(),
        exists|draws: Seq<u32>|
            draws.len() == old(part_vec).particles@.len() && (forall|i: int|
                0 <= i < draws.len() ==> 1 <= #[trigger] draws[i] <= 100) && (
            final(grid)@,
            positions(final(part_vec).particles@),
            ) == tick(
                old(grid)@,
                old(grid).width as int,
                old(grid).height as int,
                positions(old(part_vec).particles@),
                draws,
            ),
        consistent(
            old(grid)@,
            old(grid).width as int,
            old(grid).height as int,
            positions(old(part_vec).particles@),
        ) ==> consistent(
            final(grid)@,
            final(grid).width as int,
            final(grid).height as int,
            positions(final(part_vec).particles@),
        ),
{
    let n: usize = part_vec.particles.len();
    let mut draws: Vec<u32> = Vec::new();
    let mut i: usize = 0;
    while i < n
        invariant
            i <= n,
            draws@.len() == i,
            forall|j: int| 0 <= j < i ==> 1 <= #[trigger] draws@[j] <= 100,
        decreases n - i,
    {
        draws.push(random_percent());
        i = i + 1;
    }
    physics_step_with(part_vec, grid, &draws);
}

} // verus!
