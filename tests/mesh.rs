use bevy_silk::mesh::{rectangle_grid, rectangle_indices};

#[test]
fn valid_rectangle_mesh() {
    assert_eq!(rectangle_grid(100, 100).len(), 100 * 100);
}

#[test]
fn rectangle_grid_is_row_major() {
    assert_eq!(rectangle_grid(3, 2), vec![(0, 0), (1, 0), (2, 0), (0, 1), (1, 1), (2, 1)]);
    assert!(rectangle_grid(0, 4).is_empty());
}

#[test]
fn rectangle_indices_of_one_cell() {
    assert_eq!(rectangle_indices(2, 2), vec![1, 0, 2, 2, 3, 1]);
}

#[test]
fn rectangle_indices_cover_every_cell() {
    let indices = rectangle_indices(4, 3);
    assert_eq!(indices.len(), 3 * 2 * (3 * 2));
    assert!(indices.iter().all(|i| *i < 12));
    assert!(rectangle_indices(5, 1).is_empty());
    assert!(rectangle_indices(0, 0).is_empty());
}
