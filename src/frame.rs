use vstd::prelude::*;
use vstd::arithmetic::div_mod::{lemma_fundamental_div_mod, lemma_fundamental_div_mod_converse};
use crate::grid::{WINDOW_HEIGHT, WINDOW_WIDTH, in_bounds};
use crate::store::{Particles, positions};

verus! {

/// The colour of a pixel that holds a particle.
pub const LIT: u32 = 0xFFFFFF;

/// The colour of every other pixel.
pub const BACKGROUND: u32 = 0;

/// The cell that pixel `k` of a row-major buffer `w` pixels wide shows.
pub open spec fn cell_of(k: int, w: int) -> (int, int) {
    (k % w, k / w)
}

/// The colour of pixel `k` of a `w`-wide frame showing the particles at `ps`.
pub open spec fn pixel(ps: Seq<(int, int)>, w: int, k: int) -> u32 {
    if ps.contains(cell_of(k, w)) {
        LIT
    } else {
        BACKGROUND
    }
}

proof fn lemma_index_cell(k: int, w: int, h: int)
    requires
        0 <= k < w * h,
        0 <= h,
    ensures
        w > 0,
        in_bounds(w, h, cell_of(k, w)),
        k == (k / w) * w + k % w,
{
    if w <= 0 {
        assert(w * h <= 0) by (nonlinear_arith)
            requires
                w <= 0,
                0 <= h,
        ;
    }
    lemma_fundamental_div_mod(k, w);
    let q = k / w;
    let r = k % w;
    assert(0 <= r < w);
    assert(k == w * q + r);
    assert(0 <= q < h) by (nonlinear_arith)
        requires
            k == w * q + r,
            0 <= r < w,
            0 <= k < w * h,
    ;
    assert(q * w == w * q) by (nonlinear_arith);
}

proof fn lemma_cell_index(x: int, y: int, w: int, h: int)
    requires
        in_bounds(w, h, (x, y)),
    ensures
        0 <= y * w + x < w * h,
        cell_of(y * w + x, w) == (x, y),
{
    assert(0 <= y * w + x < w * h) by (nonlinear_arith)
        requires
            0 <= x < w,
            0 <= y < h,
    ;
    lemma_fundamental_div_mod_converse(y * w + x, w, y, x);
}

/// A `width` by `height` row-major frame with `LIT` at each particle's pixel
/// and `BACKGROUND` elsewhere; particles outside the frame are skipped.
pub fn render_frame(part_vec: &Particles, width: usize, height: usize) -> (r: Vec<u32>)
    requires
        width * height <= usize::MAX,
    ensures
        r@.len() == width * height,
        forall|k: int|
            0 <= k < r@.len() ==> #[trigger] r@[k] == pixel(positions(part_vec.particles@), width as int, k),
        forall|x: int, y: int|
            in_bounds(width as int, height as int, (x, y)) ==> #[trigger] r@[y * width + x] == if positions(
                part_vec.particles@,
            ).contains((x, y)) {
                LIT
            } else {
                BACKGROUND
            },
{
    let ghost ps = positions(part_vec.particles@);
    let ghost w = width as int;
    let ghost h = height as int;
    let total: usize = width * height;
    let mut buffer: Vec<u32> = Vec::new();
    let mut k: usize = 0;
    while k < total
        invariant
            k <= total,
            buffer@.len() == k,
            forall|j: int| 0 <= j < k ==> buffer@[j] == BACKGROUND,
        decreases total - k,
    {
        buffer.push(BACKGROUND);
        k = k + 1;
    }
    let n: usize = part_vec.particles.len();
    let mut i: usize = 0;
    while i < n
        invariant
            i <= n,
            n == ps.len(),
            ps == positions(part_vec.particles@),
            w == width,
            h == height,
            total == w * h,
            buffer@.len() == total,
            forall|j: int|
                0 <= j < total ==> #[trigger] buffer@[j] == pixel(ps.take(i as int), w, j),
        decreases n - i,
    {
        let ghost before = buffer@;
        let x: usize = part_vec.particles[i].xcoord as usize;
        let y: usize = part_vec.particles[i].ycoord as usize;
        assert(ps.take(i + 1) =~= ps.take(i as int).push(ps[i as int]));
        assert(ps[i as int] == (x as int, y as int));
        if x < width && y < height {
            proof {
                lemma_cell_index(x as int, y as int, w, h);
                assert(y * width + x < width * height) by (nonlinear_arith)
                    requires
                        x < width,
                        y < height,
                ;
            }
            let idx: usize = y * width + x;
            buffer.set(idx, LIT);
            assert forall|j: int| 0 <= j < total implies #[trigger] buffer@[j] == pixel(
                ps.take(i + 1),
                w,
                j,
            ) by {
                if j == idx {
                    assert(ps.take(i + 1)[i as int] == cell_of(j, w));
                } else {
                    lemma_index_cell(j, w, h);
                    if cell_of(j, w) == (x as int, y as int) {
                        assert(j == y * w + x);
                    }
                    assert(ps.take(i + 1).contains(cell_of(j, w)) == ps.take(i as int).contains(
                        cell_of(j, w),
                    ));
                }
            }
        } else {
            assert forall|j: int| 0 <= j < total implies #[trigger] buffer@[j] == pixel(
                ps.take(i + 1),
                w,
                j,
            ) by {
                lemma_index_cell(j, w, h);
                assert(ps.take(i + 1).contains(cell_of(j, w)) == ps.take(i as int).contains(
                    cell_of(j, w),
                ));
            }
        }
        i = i + 1;
    }
    assert(ps.take(n as int) =~= ps);
    assert forall|x: int, y: int| in_bounds(w, h, (x, y)) implies #[trigger] buffer@[y * width + x]
        == if ps.contains((x, y)) {
        LIT
    } else {
        BACKGROUND
    } by {
        lemma_cell_index(x, y, w, h);
    }
    buffer
}

/// The frame for the default surface size.
pub fn new_frame(part_vec: &Particles) -> (r: Vec<u32>)
    ensures
        r@.len() == WINDOW_WIDTH * WINDOW_HEIGHT,
        forall|k: int|
            0 <= k < r@.len() ==> #[trigger] r@[k] == pixel(
                positions(part_vec.particles@),
                WINDOW_WIDTH as int,
                k,
            ),
        forall|x: int, y: int|
            in_bounds(WINDOW_WIDTH as int, WINDOW_HEIGHT as int, (x, y)) ==> #[trigger] r@[y
                * WINDOW_WIDTH + x] == if positions(part_vec.particles@).contains((x, y)) {
                LIT
            } else {
                BACKGROUND
            },
{
    render_frame(part_vec, WINDOW_WIDTH, WINDOW_HEIGHT)
}

} // verus!
