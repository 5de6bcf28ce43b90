//! The ghost-cell grid: allocation, index translation, the physical
//! block accessor, and both boundary appliers.

use hll_core::grid::{Field, Grid2D};
use hll_core::Cons;

fn cell_v(x: u64) -> Cons {
    Cons { rho: x, rhou: 100 + x, rhov: 200 + x, e: 300 + x }
}

#[test]
fn new_grid_is_zeroed_and_shaped() {
    let g = Grid2D::new(4, 3, 1);
    assert_eq!(g.nx, 4);
    assert_eq!(g.ny, 3);
    assert_eq!(g.nghost, 1);
    for r in 0..5 {
        for c in 0..6 {
            assert_eq!(g.get(Field::Rho, r, c), 0);
            assert_eq!(g.get(Field::E, r, c), 0);
        }
    }
}

#[test]
fn idx_with_ghost_offsets_both_axes() {
    let g = Grid2D::new(4, 3, 2);
    assert_eq!(g.idx_with_ghost(0, 0), (2, 2));
    assert_eq!(g.idx_with_ghost(3, 1), (3, 5));
}

#[test]
fn set_and_get_round_trip_through_storage() {
    let mut g = Grid2D::new(3, 2, 1);
    let (r, c) = g.idx_with_ghost(2, 1);
    g.set_cell(r, c, cell_v(7));
    let back = g.cell(r, c);
    assert_eq!(back, cell_v(7));
    // a neighbour stays zero: the write touched one position only
    assert_eq!(g.get(Field::Rho, r, c - 1), 0);
}

#[test]
fn physical_field_copies_the_inner_block() {
    let mut g = Grid2D::new(3, 2, 1);
    for j in 0..2usize {
        for i in 0..3usize {
            let (r, c) = g.idx_with_ghost(i, j);
            g.set_cell(r, c, cell_v((10 * j + i) as u64));
        }
    }
    let rho = g.physical_field(Field::Rho);
    assert_eq!(rho.len(), 6);
    for j in 0..2usize {
        for i in 0..3usize {
            assert_eq!(rho[j * 3 + i], (10 * j + i) as u64);
        }
    }
}

#[test]
fn periodic_boundary_wraps_both_axes() {
    let nx = 4usize;
    let ny = 3usize;
    let mut g = Grid2D::new(nx, ny, 1);
    for j in 0..ny {
        for i in 0..nx {
            let (r, c) = g.idx_with_ghost(i, j);
            g.set_cell(r, c, cell_v((10 * j + i) as u64));
        }
    }
    g.apply_periodic_boundary();
    // left ghost column holds the rightmost physical column, and the
    // right ghost the leftmost
    for j in 0..ny {
        let row = j + 1;
        assert_eq!(g.cell(row, 0), cell_v((10 * j + (nx - 1)) as u64));
        assert_eq!(g.cell(row, nx + 1), cell_v((10 * j) as u64));
    }
    // bottom ghost row holds the top physical row and vice versa
    for i in 0..nx {
        let col = i + 1;
        assert_eq!(g.cell(0, col), cell_v((10 * (ny - 1) + i) as u64));
        assert_eq!(g.cell(ny + 1, col), cell_v(i as u64));
    }
    // a corner wraps on both axes
    assert_eq!(g.cell(0, 0), cell_v((10 * (ny - 1) + (nx - 1)) as u64));
}

#[test]
fn outflow_boundary_copies_edges_and_wraps_y() {
    let nx = 4usize;
    let ny = 3usize;
    let mut g = Grid2D::new(nx, ny, 1);
    for j in 0..ny {
        for i in 0..nx {
            let (r, c) = g.idx_with_ghost(i, j);
            g.set_cell(r, c, cell_v((10 * j + i) as u64));
        }
    }
    g.apply_outflow_boundary();
    // x ghosts repeat the boundary-adjacent physical cells
    for j in 0..ny {
        let row = j + 1;
        assert_eq!(g.cell(row, 0), cell_v((10 * j) as u64));
        assert_eq!(g.cell(row, nx + 1), cell_v((10 * j + (nx - 1)) as u64));
    }
    // y stays periodic
    for i in 0..nx {
        let col = i + 1;
        assert_eq!(g.cell(0, col), cell_v((10 * (ny - 1) + i) as u64));
        assert_eq!(g.cell(ny + 1, col), cell_v(i as u64));
    }
}
