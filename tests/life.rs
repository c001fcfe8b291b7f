use flatland::grid::{FlatLand, LifeError, LineLand, Neighbor};
use flatland::history::Simulation;

fn grid_with(y_size: usize, x_size: usize, live: &[(usize, usize)]) -> FlatLand {
    let mut g = FlatLand::new(y_size, x_size).unwrap();
    for &(x, y) in live {
        g.set_particle(x, y, true);
    }
    g
}

fn live_cells(g: &FlatLand) -> Vec<(usize, usize)> {
    let mut out = Vec::new();
    for y in 0..g.size {
        for x in 0..g.row_length {
            if g.get_particle(x, y) {
                out.push((x, y));
            }
        }
    }
    out
}

#[test]
fn neighbor_new_keeps_fields() {
    let n = Neighbor::new(true, 3, 7);
    assert!(n.live);
    assert_eq!(n.x, 3);
    assert_eq!(n.y, 7);
}

#[test]
fn line_land_starts_dead() {
    let row = LineLand::new(4);
    assert_eq!(row.size, 4);
    assert_eq!(row.particles, vec![false; 4]);
}

#[test]
fn new_grid_is_dead_with_given_shape() {
    let g = FlatLand::new(3, 5).unwrap();
    assert_eq!(g.size, 3);
    assert_eq!(g.row_length, 5);
    assert_eq!(g.rows.len(), 3);
    assert!(live_cells(&g).is_empty());
}

#[test]
fn set_particle_changes_one_cell() {
    let mut g = FlatLand::new(3, 4).unwrap();
    g.set_particle(3, 1, true);
    assert_eq!(live_cells(&g), vec![(3, 1)]);
    g.set_particle(3, 1, false);
    assert!(live_cells(&g).is_empty());
}

#[test]
fn initialize_rejects_zero_sizes() {
    assert!(matches!(FlatLand::initialize(0, 5), Err(LifeError::InvalidDimensions)));
    assert!(matches!(FlatLand::initialize(5, 0), Err(LifeError::InvalidDimensions)));
    assert!(matches!(FlatLand::initialize(0, 0), Err(LifeError::InvalidDimensions)));
}

#[test]
fn initialize_gives_requested_shape() {
    let g = FlatLand::initialize(3, 4).unwrap();
    assert_eq!(g.size, 3);
    assert_eq!(g.row_length, 4);
    assert_eq!(g.rows.len(), 3);
    for row in &g.rows {
        assert_eq!(row.particles.len(), 4);
    }
}

#[test]
fn randomize_keeps_shape() {
    let mut g = FlatLand::new(6, 2).unwrap();
    assert_eq!(g.randomize(), Ok(()));
    assert_eq!(g.size, 6);
    assert_eq!(g.row_length, 2);
    assert_eq!(g.rows.len(), 6);
    for row in &g.rows {
        assert_eq!(row.particles.len(), 2);
    }
}

#[test]
fn cell_state_reads_and_checks_bounds() {
    let g = grid_with(2, 3, &[(2, 1)]);
    assert_eq!(g.cell_state(2, 1), Ok(true));
    assert_eq!(g.cell_state(0, 0), Ok(false));
    assert_eq!(g.cell_state(3, 0), Err(LifeError::IndexOutOfRange));
    assert_eq!(g.cell_state(0, 2), Err(LifeError::IndexOutOfRange));
}

#[test]
fn has_converged_compares_cells() {
    let a = grid_with(4, 4, &[(1, 1), (2, 3)]);
    let b = grid_with(4, 4, &[(1, 1), (2, 3)]);
    let c = grid_with(4, 4, &[(1, 1)]);
    let d = grid_with(4, 5, &[(1, 1), (2, 3)]);
    assert!(a.has_converged(&b));
    assert!(!a.has_converged(&c));
    assert!(!a.has_converged(&d));
}

#[test]
fn tick_is_deterministic() {
    let cells = [(0, 0), (1, 0), (2, 1), (4, 3), (3, 3), (0, 4)];
    let mut a = grid_with(5, 6, &cells);
    let mut b = grid_with(5, 6, &cells);
    for _ in 0..4 {
        a.tick();
        b.tick();
        assert!(a.has_converged(&b));
        assert_eq!(live_cells(&a), live_cells(&b));
    }
}

#[test]
fn corner_counts_opposite_corner() {
    // (4,4) has live (4,3) and (3,4) directly, and (0,0) only across the wrap.
    let mut g = grid_with(5, 5, &[(4, 3), (3, 4), (0, 0)]);
    g.tick();
    assert!(g.get_particle(4, 4));
    let mut h = grid_with(5, 5, &[(4, 3), (3, 4)]);
    h.tick();
    assert!(!h.get_particle(4, 4));
}

#[test]
fn opposite_corner_counts_toward_origin() {
    let mut g = grid_with(5, 5, &[(1, 0), (0, 1), (4, 4)]);
    g.tick();
    assert!(g.get_particle(0, 0));
    let mut h = grid_with(5, 5, &[(1, 0), (0, 1)]);
    h.tick();
    assert!(!h.get_particle(0, 0));
}

#[test]
fn block_is_still_life() {
    let cells = vec![(1, 1), (2, 1), (1, 2), (2, 2)];
    let mut g = grid_with(4, 4, &cells);
    for _ in 0..5 {
        g.tick();
        assert_eq!(live_cells(&g), cells);
    }
    let edge = vec![(0, 0), (5, 0), (0, 3), (5, 3)];
    let mut w = grid_with(4, 6, &edge);
    for _ in 0..3 {
        w.tick();
        assert_eq!(live_cells(&w), edge);
    }
}

#[test]
fn blinker_alternates_and_converges_on_second_step() {
    let horizontal = vec![(1, 2), (2, 2), (3, 2)];
    let vertical = vec![(2, 1), (2, 2), (2, 3)];
    let mut sim = Simulation::new(grid_with(5, 5, &horizontal));
    assert!(!sim.step());
    assert_eq!(live_cells(&sim.current), vertical);
    assert!(sim.step());
    assert_eq!(live_cells(&sim.current), horizontal);
    assert!(sim.step());
    assert_eq!(live_cells(&sim.current), vertical);
}

#[test]
fn empty_grid_stays_dead_and_converges_on_second_step() {
    let mut sim = Simulation::new(FlatLand::new(4, 6).unwrap());
    assert!(!sim.step());
    assert!(live_cells(&sim.current).is_empty());
    assert!(sim.step());
    assert!(live_cells(&sim.current).is_empty());
    for _ in 0..3 {
        sim.step();
        assert!(live_cells(&sim.current).is_empty());
    }
}

#[test]
fn lone_cell_dies() {
    let mut g = grid_with(5, 5, &[(2, 2)]);
    g.tick();
    assert!(live_cells(&g).is_empty());
    let mut one = grid_with(1, 1, &[(0, 0)]);
    one.tick();
    assert!(!one.get_particle(0, 0));
}

#[test]
fn single_row_grid_wraps_without_error() {
    // On one row, up and down are the row itself: (2,0) is seen three times
    // from each of its horizontal neighbours, and never from itself.
    let mut g = grid_with(1, 5, &[(2, 0)]);
    g.tick();
    assert_eq!(live_cells(&g), vec![(1, 0), (3, 0)]);
}

#[test]
fn single_column_grid_wraps_without_error() {
    let mut g = grid_with(5, 1, &[(0, 2)]);
    g.tick();
    assert_eq!(live_cells(&g), vec![(0, 1), (0, 3)]);
}

#[test]
fn full_single_row_dies() {
    let mut g = grid_with(1, 3, &[(0, 0), (1, 0), (2, 0)]);
    g.tick();
    assert!(live_cells(&g).is_empty());
}

#[test]
fn successor_leaves_grid_unchanged() {
    let g = grid_with(3, 3, &[(0, 1), (1, 1), (2, 1)]);
    let next = g.successor();
    assert_eq!(live_cells(&g), vec![(0, 1), (1, 1), (2, 1)]);
    // On a 3x3 torus every cell sees all three: the middle row has two
    // neighbours and survives, the rest have three and are born.
    assert_eq!(live_cells(&next).len(), 9);
}

#[test]
fn new_rejects_invalid_sizes() {
    assert!(matches!(FlatLand::new(0, 5), Err(LifeError::InvalidDimensions)));
    assert!(matches!(FlatLand::new(5, 0), Err(LifeError::InvalidDimensions)));
    assert!(matches!(FlatLand::new(usize::MAX, 2), Err(LifeError::InvalidDimensions)));
    assert!(matches!(FlatLand::initialize(usize::MAX, 2), Err(LifeError::InvalidDimensions)));
}

#[test]
fn fill_places_draws_column_by_column() {
    // Two rows of three: cell (x, y) takes draw x * 2 + y.
    let mut g = FlatLand::new(2, 3).unwrap();
    g.fill(&vec![true, false, false, false, true, true]);
    assert_eq!(live_cells(&g), vec![(0, 0), (2, 0), (2, 1)]);
    g.fill(&vec![false, true, true, false, false, false]);
    assert_eq!(live_cells(&g), vec![(1, 0), (0, 1)]);
    g.fill(&vec![false; 6]);
    assert!(live_cells(&g).is_empty());
}

#[test]
fn randomized_grid_can_be_ticked() {
    let mut g = FlatLand::initialize(8, 9).unwrap();
    g.tick();
    assert_eq!(g.size, 8);
    assert_eq!(g.row_length, 9);
}
