use snes_paint::grid::subgrid;
use snes_paint::grid::CanvasGrid;
use snes_paint::grid::Grid;

#[test]
fn new_grid_is_all_zero() {
    let g = CanvasGrid::<8, 8>::new();
    assert_eq!(g.width(), 8);
    assert_eq!(g.height(), 8);
    for row in 0..8 {
        for col in 0..8 {
            assert_eq!(g.get(row, col), 0);
        }
    }
}

#[test]
fn default_grid_is_all_zero() {
    let g = CanvasGrid::<16, 16>::default();
    assert_eq!(Grid::width(&g), 16);
    assert_eq!(Grid::height(&g), 16);
    for i in 0..256 {
        assert_eq!(g.idx_linear(i), 0);
    }
}

#[test]
fn set_changes_one_cell() {
    let mut g = CanvasGrid::<8, 8>::new();
    g.set(2, 5, 3);
    for row in 0..8 {
        for col in 0..8 {
            let expected = if row == 2 && col == 5 { 3 } else { 0 };
            assert_eq!(g.get(row, col), expected);
        }
    }
}

#[test]
fn row_runs_along_the_width() {
    let mut g = CanvasGrid::<4, 2>::new();
    assert_eq!(g.width(), 4);
    assert_eq!(g.height(), 2);
    g.set(3, 1, 9);
    assert_eq!(g.get(3, 1), 9);
    assert_eq!(g.idx_linear(7), 9);
}

#[test]
fn linear_index_has_row_fastest() {
    let mut g = CanvasGrid::<8, 8>::new();
    g.set(1, 0, 11);
    g.set(0, 1, 22);
    assert_eq!(g.idx_linear(1), g.get(1, 0));
    assert_eq!(g.idx_linear(1), 11);
    assert_eq!(g.idx_linear(8), g.get(0, 1));
    assert_eq!(g.idx_linear(8), 22);
    assert_eq!(g.idx_linear(0), 0);
}

#[test]
fn linear_index_covers_every_cell_once() {
    let mut g = CanvasGrid::<8, 8>::new();
    for row in 0..8 {
        for col in 0..8 {
            g.set(row, col, 100 * col + row);
        }
    }
    for i in 0..64 {
        assert_eq!(g.idx_linear(i), 100 * (i / 8) + i % 8);
        assert_eq!(g.idx_linear(i), g.get(i % 8, i / 8));
    }
}

#[test]
fn set_pixel_writes_the_cell_that_get_reads() {
    let mut g = CanvasGrid::<8, 8>::new();
    g.set_pixel(1, 0, 7);
    assert_eq!(g.get(1, 0), 7);
    assert_eq!(g.get(0, 1), 0);
    assert_eq!(g.idx_linear(1), 7);
    assert_eq!(g.idx_linear(8), 0);
}

#[test]
fn set_pixel_and_set_address_the_same_cell() {
    for n in 0..64 {
        let (row, col) = (n % 8, n / 8);
        let mut by_set_pixel = CanvasGrid::<8, 8>::new();
        let mut by_set = CanvasGrid::<8, 8>::new();
        by_set_pixel.set_pixel(row, col, 3);
        by_set.set(row, col, 3);
        for i in 0..64 {
            assert_eq!(by_set_pixel.idx_linear(i), by_set.idx_linear(i));
            assert_eq!(by_set_pixel.idx_linear(i), if i == n { 3 } else { 0 });
        }
    }
    let mut g = CanvasGrid::<16, 16>::new();
    g.set_pixel(12, 3, 2);
    assert_eq!(g.get(12, 3), 2);
    assert_eq!(g.get(3, 12), 0);
}

#[test]
fn set_pixel_on_a_grid_that_is_not_square() {
    let mut g = CanvasGrid::<4, 2>::new();
    g.set_pixel(3, 1, 9);
    assert_eq!(g.get(3, 1), 9);
    assert_eq!(g.idx_linear(7), 9);
    for i in 0..7 {
        assert_eq!(g.idx_linear(i), 0);
    }
}

#[test]
fn subgrid_maps_its_origin_to_the_range_starts() {
    let mut g = CanvasGrid::<16, 16>::new();
    for row in 0..16 {
        for col in 0..16 {
            g.set(row, col, 16 * col + row);
        }
    }
    let tile = subgrid::<8, 8>(&g, (8, 16), (0, 8));
    assert_eq!(tile.width(), 8);
    assert_eq!(tile.height(), 8);
    assert_eq!(tile.get(0, 0), g.get(8, 0));
    for row in 0..8 {
        for col in 0..8 {
            assert_eq!(tile.get(row, col), 16 * col + row + 8);
        }
    }
    let tile = subgrid::<8, 8>(&g, (0, 8), (8, 16));
    for row in 0..8 {
        for col in 0..8 {
            assert_eq!(tile.get(row, col), 16 * (col + 8) + row);
        }
    }
}

#[test]
fn subgrid_of_a_trait_object() {
    let mut g = CanvasGrid::<8, 8>::new();
    g.set(3, 4, 2);
    let boxed: Box<dyn Grid<usize>> = Box::new(g);
    let copy = subgrid::<8, 8>(boxed.as_ref(), (0, 8), (0, 8));
    for row in 0..8 {
        for col in 0..8 {
            assert_eq!(copy.get(row, col), boxed.get(row, col));
        }
    }
}

#[test]
fn subgrid_smaller_than_its_target_leaves_zero() {
    let mut g = CanvasGrid::<8, 8>::new();
    for row in 0..8 {
        for col in 0..8 {
            g.set(row, col, 5);
        }
    }
    let part = subgrid::<8, 8>(&g, (2, 5), (1, 3));
    for row in 0..8 {
        for col in 0..8 {
            let expected = if row < 3 && col < 2 { 5 } else { 0 };
            assert_eq!(part.get(row, col), expected);
        }
    }
}

#[test]
fn subgrid_of_an_empty_range_is_all_zero() {
    let mut g = CanvasGrid::<8, 8>::new();
    g.set(0, 0, 5);
    let none = subgrid::<8, 8>(&g, (0, 0), (0, 8));
    let inverted = subgrid::<8, 8>(&g, (5, 2), (0, 8));
    for i in 0..64 {
        assert_eq!(none.idx_linear(i), 0);
        assert_eq!(inverted.idx_linear(i), 0);
    }
}

#[test]
fn grid_index_operator_gives_the_cells_of_one_col() {
    let mut g = CanvasGrid::<4, 2>::new();
    g.set(3, 1, 9);
    g.set(0, 0, 4);
    assert_eq!(g[0], [4, 0, 0, 0]);
    assert_eq!(g[1], [0, 0, 0, 9]);
    assert_eq!(g[1][3], g.get(3, 1));
}
