use falling_sand::frame::{new_frame, render_frame, BACKGROUND, LIT};
use falling_sand::grid::{Grid, WINDOW_HEIGHT, WINDOW_WIDTH};
use falling_sand::particle::SandParticle;
use falling_sand::store::{physics_step, physics_step_with, Particles};
use rand::rngs::StdRng;
use rand::{Rng, SeedableRng};

fn empty(width: usize, height: usize) -> (Grid, Particles) {
    (Grid::with_size(width, height), Particles { particles: Vec::new() })
}

fn occupied_count(grid: &Grid) -> usize {
    let mut n = 0;
    for y in 0..grid.height {
        for x in 0..grid.width {
            if grid.is_occupied(x, y) {
                n += 1;
            }
        }
    }
    n
}

fn pos(p: &SandParticle) -> (u32, u32) {
    (p.xcoord, p.ycoord)
}

#[test]
fn new_grid_is_empty_and_default_sized() {
    let grid = Grid::new();
    assert_eq!(grid.width, WINDOW_WIDTH);
    assert_eq!(grid.height, WINDOW_HEIGHT);
    assert_eq!(grid.cells.len(), 600);
    assert_eq!(grid.cells[0].len(), 800);
    assert!(!grid.is_occupied(0, 0));
    assert!(!grid.is_occupied(799, 599));
}

#[test]
fn occupy_and_leave_cell() {
    let mut grid = Grid::with_size(5, 4);
    grid.occupy_cell(3, 2);
    assert!(grid.is_occupied(3, 2));
    grid.occupy_cell(3, 2);
    assert!(grid.is_occupied(3, 2));
    assert_eq!(occupied_count(&grid), 1);
    grid.leave_cell(3, 2);
    assert!(!grid.is_occupied(3, 2));
    assert_eq!(occupied_count(&grid), 0);
}

#[test]
fn particle_new_marks_its_cell() {
    let mut grid = Grid::with_size(10, 10);
    let p = SandParticle::new(&mut grid, 4, 7);
    assert_eq!(pos(&p), (4, 7));
    assert!(grid.is_occupied(4, 7));
}

#[test]
fn spawn_onto_filled_cell_is_rejected() {
    let (mut grid, mut ps) = empty(10, 10);
    assert!(ps.spawn(&mut grid, 3, 3));
    assert!(!ps.spawn(&mut grid, 3, 3));
    assert_eq!(ps.particles.len(), 1);
    assert_eq!(occupied_count(&grid), 1);
}

#[test]
fn straight_fall_one_tick() {
    let (mut grid, mut ps) = empty(20, 20);
    assert!(ps.spawn(&mut grid, 5, 3));
    physics_step_with(&mut ps, &mut grid, &vec![1]);
    assert_eq!(pos(&ps.particles[0]), (5, 4));
    assert!(grid.is_occupied(5, 4));
    assert!(!grid.is_occupied(5, 3));
}

#[test]
fn straight_fall_many_ticks_then_margin_stops_it() {
    let (mut grid, mut ps) = empty(20, 20);
    assert!(ps.spawn(&mut grid, 5, 3));
    for n in 1..=15u32 {
        physics_step(&mut ps, &mut grid);
        assert_eq!(pos(&ps.particles[0]), (5, 3 + n));
    }
    // Row 18 is height - 2, the last row a particle may fall from.
    physics_step(&mut ps, &mut grid);
    assert_eq!(pos(&ps.particles[0]), (5, 19));
    physics_step(&mut ps, &mut grid);
    assert_eq!(pos(&ps.particles[0]), (5, 19));
}

#[test]
fn blocked_particle_settles() {
    let (mut grid, mut ps) = empty(20, 20);
    for x in 4..=6 {
        assert!(ps.spawn(&mut grid, x, 19));
    }
    assert!(ps.spawn(&mut grid, 5, 18));
    for draw in [1u32, 50, 51, 100] {
        let mut p = ps.particles[3];
        p.fall_with(&mut grid, draw);
        assert_eq!(pos(&p), (5, 18));
    }
    physics_step(&mut ps, &mut grid);
    assert_eq!(pos(&ps.particles[3]), (5, 18));
    assert_eq!(occupied_count(&grid), 4);
}

#[test]
fn slides_right_when_only_right_is_free() {
    for draw in [1u32, 50, 51, 100] {
        let mut grid = Grid::with_size(20, 20);
        grid.occupy_cell(5, 11);
        grid.occupy_cell(4, 11);
        let mut p = SandParticle::new(&mut grid, 5, 10);
        p.fall_with(&mut grid, draw);
        assert_eq!(pos(&p), (6, 11));
        assert!(grid.is_occupied(6, 11));
        assert!(!grid.is_occupied(5, 10));
    }
}

#[test]
fn slides_left_when_only_left_is_free() {
    for draw in [1u32, 50, 51, 100] {
        let mut grid = Grid::with_size(20, 20);
        grid.occupy_cell(5, 11);
        grid.occupy_cell(6, 11);
        let mut p = SandParticle::new(&mut grid, 5, 10);
        p.fall_with(&mut grid, draw);
        assert_eq!(pos(&p), (4, 11));
    }
}

#[test]
fn tie_break_follows_the_draw() {
    for (draw, expected) in [(1u32, (4u32, 11u32)), (50, (4, 11)), (51, (6, 11)), (100, (6, 11))] {
        let mut grid = Grid::with_size(20, 20);
        grid.occupy_cell(5, 11);
        let mut p = SandParticle::new(&mut grid, 5, 10);
        p.fall_with(&mut grid, draw);
        assert_eq!(pos(&p), expected);
    }
}

#[test]
fn random_split_is_even() {
    let trials = 4000;
    let mut right = 0;
    for _ in 0..trials {
        let mut grid = Grid::with_size(20, 20);
        grid.occupy_cell(5, 11);
        let mut p = SandParticle::new(&mut grid, 5, 10);
        p.fall(&mut grid);
        let (x, y) = pos(&p);
        assert_eq!(y, 11);
        assert!(x == 4 || x == 6);
        if x == 6 {
            right += 1;
        }
    }
    // Five standard deviations either side of 2000.
    assert!(right > 1840 && right < 2160, "right = {}", right);
}

#[test]
fn margin_particles_do_not_move() {
    let (mut grid, mut ps) = empty(20, 20);
    for (x, y) in [(0u32, 5u32), (1, 5), (19, 5), (5, 0), (5, 1), (5, 19), (0, 0), (19, 19)] {
        assert!(ps.spawn(&mut grid, x, y));
    }
    let before: Vec<(u32, u32)> = ps.particles.iter().map(pos).collect();
    for _ in 0..5 {
        physics_step(&mut ps, &mut grid);
    }
    let after: Vec<(u32, u32)> = ps.particles.iter().map(pos).collect();
    assert_eq!(before, after);
}

#[test]
fn occupancy_matches_particles_after_every_tick() {
    let (mut grid, mut ps) = empty(30, 30);
    let mut rng = StdRng::seed_from_u64(7);
    for _ in 0..60 {
        for _ in 0..3 {
            let x: u32 = rng.gen_range(0..30);
            let y: u32 = rng.gen_range(0..30);
            ps.spawn(&mut grid, x, y);
        }
        physics_step(&mut ps, &mut grid);
        assert_eq!(occupied_count(&grid), ps.particles.len());
        for p in &ps.particles {
            assert!(grid.is_occupied(p.xcoord as usize, p.ycoord as usize));
        }
        let mut seen: Vec<(u32, u32)> = ps.particles.iter().map(pos).collect();
        seen.sort();
        seen.dedup();
        assert_eq!(seen.len(), ps.particles.len());
    }
}

fn seeded_run(seed: u64) -> Vec<(u32, u32)> {
    let (mut grid, mut ps) = empty(40, 40);
    let mut rng = StdRng::seed_from_u64(seed);
    for t in 0..80u32 {
        ps.spawn(&mut grid, 20 + (t % 3), 2);
        let draws: Vec<u32> = (0..ps.particles.len()).map(|_| rng.gen_range(1..101)).collect();
        physics_step_with(&mut ps, &mut grid, &draws);
    }
    ps.particles.iter().map(pos).collect()
}

#[test]
fn same_seed_same_outcome() {
    let a = seeded_run(42);
    let b = seeded_run(42);
    assert_eq!(a, b);
    assert!(!a.is_empty());
}

#[test]
fn frame_lights_interior_and_edge_pixels() {
    let (mut grid, mut ps) = empty(8, 6);
    assert!(ps.spawn(&mut grid, 3, 2));
    let frame = render_frame(&ps, 8, 6);
    assert_eq!(frame.len(), 48);
    for (k, v) in frame.iter().enumerate() {
        assert_eq!(*v, if k == 2 * 8 + 3 { LIT } else { BACKGROUND });
    }

    let (mut grid, mut ps) = empty(8, 6);
    assert!(ps.spawn(&mut grid, 7, 5));
    let frame = render_frame(&ps, 8, 6);
    for (k, v) in frame.iter().enumerate() {
        assert_eq!(*v, if k == 47 { 0xFFFFFF } else { 0 });
    }
}

#[test]
fn frame_skips_particles_outside_it() {
    let ps = Particles {
        particles: vec![
            SandParticle { xcoord: 9, ycoord: 0 },
            SandParticle { xcoord: 1, ycoord: 6 },
        ],
    };
    let frame = render_frame(&ps, 8, 6);
    assert!(frame.iter().all(|v| *v == BACKGROUND));
}

#[test]
fn default_frame_maps_positions() {
    let mut grid = Grid::new();
    let mut ps = Particles { particles: Vec::new() };
    assert!(ps.spawn(&mut grid, 400, 300));
    assert!(ps.spawn(&mut grid, 0, 599));
    let frame = new_frame(&ps);
    assert_eq!(frame.len(), 800 * 600);
    assert_eq!(frame[300 * 800 + 400], LIT);
    assert_eq!(frame[599 * 800], LIT);
    assert_eq!(frame.iter().filter(|v| **v == LIT).count(), 2);
}
