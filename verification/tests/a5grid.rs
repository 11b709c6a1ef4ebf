use krabmaga::engine::fields::a5grid::SparseA5Grid;
use krabmaga::engine::fields::field::Field;
use krabmaga::engine::fields::grid_option::GridOption;

/// Produce a cell id by indexing a known location at resolution 3.
fn sample_cell(lon: f64, lat: f64) -> u64 {
    a5::lonlat_to_cell(a5::LonLat::new(lon, lat), 3).unwrap()
}

/// The cell of a longitude/latitude at the grid's own resolution.
fn grid_cell(grid: &SparseA5Grid, lon: f64, lat: f64) -> u64 {
    a5::lonlat_to_cell(a5::LonLat::new(lon, lat), grid.resolution()).expect("lonlat_to_cell failed")
}

/// The centre of a cell as (longitude, latitude) in degrees.
fn cell_centre(cell: u64) -> (f64, f64) {
    let ll = a5::cell_to_lonlat(cell).expect("cell_to_lonlat failed");
    (ll.longitude.get(), ll.latitude.get())
}

// -- basic set / get ---------------------------------------------------

#[test]
fn test_set_and_get() {
    let mut grid = SparseA5Grid::new(3);
    let obj: u64 = 1;
    let cell = sample_cell(0.0, 51.5);

    grid.set_object_location(obj, cell);
    grid.update();

    assert_eq!(grid.get(cell), Some(obj));
    assert_eq!(grid.get_location(&obj), Some(cell));
}

#[test]
fn test_get_empty_cell() {
    let grid = SparseA5Grid::new(3);
    let cell = sample_cell(0.0, 51.5);
    assert_eq!(grid.get(cell), None);
}

// -- remove ------------------------------------------------------------

#[test]
fn test_remove() {
    let mut grid = SparseA5Grid::new(3);
    let obj: u64 = 1;
    let cell = sample_cell(10.0, 48.0);

    grid.set_object_location(obj, cell);
    grid.update();

    grid.remove_object(&obj);
    grid.update();

    assert_eq!(grid.get(cell), None);
    assert_eq!(grid.get_location(&obj), None);
}

// -- double-buffer semantics -------------------------------------------

#[test]
fn test_lazy_update() {
    let mut grid = SparseA5Grid::new(3);
    let obj: u64 = 1;
    let cell = sample_cell(0.0, 0.0);

    grid.set_object_location(obj, cell);
    grid.lazy_update();

    assert_eq!(grid.get(cell), Some(obj));
    assert_eq!(grid.get_location(&obj), Some(cell));

    grid.lazy_update();
    assert_eq!(grid.get(cell), None);
}

#[test]
fn test_update_commits_and_clears_write() {
    let mut grid = SparseA5Grid::new(3);
    let obj: u64 = 1;
    let cell = sample_cell(0.0, 0.0);

    grid.set_object_location(obj, cell);
    grid.update();
    assert_eq!(grid.get(cell), Some(obj));
    assert_eq!(grid.get_unbuffered(cell), None);

    grid.update();
    assert_eq!(grid.get(cell), None);
}

// -- multiple objects in one cell --------------------------------------

#[test]
fn test_multiple_objects_same_cell() {
    let mut grid = SparseA5Grid::new(3);
    let obj1: u64 = 1;
    let obj2: u64 = 2;
    let cell = sample_cell(0.0, 0.0);

    grid.set_object_location(obj1, cell);
    grid.set_object_location(obj2, cell);
    grid.update();

    let objects = grid.get_objects(cell).unwrap();
    assert_eq!(objects.len(), 2);
    assert!(objects.contains(&obj1));
    assert!(objects.contains(&obj2));
}

// -- move object -------------------------------------------------------

#[test]
fn test_move_object() {
    let mut grid = SparseA5Grid::new(3);
    let obj: u64 = 1;
    let cell1 = sample_cell(0.0, 0.0);
    let cell2 = sample_cell(10.0, 10.0);

    grid.set_object_location(obj, cell1);
    grid.update();

    grid.set_object_location(obj, cell2);
    grid.update();

    assert_eq!(grid.get_location(&obj), Some(cell2));
    assert_eq!(grid.get(cell1), None);
    assert_eq!(grid.get(cell2), Some(obj));
}

// -- A5 neighbour queries ----------------------------------------------

#[test]
fn test_disk_and_neighbors_center_semantics() {
    let grid = SparseA5Grid::new(3);
    let cell = grid_cell(&grid, -0.12, 51.5);

    let disk0 = grid.get_disk(cell, 0);
    assert_eq!(disk0, vec![cell]);
    assert!(grid.get_neighbors(cell, 0).is_empty());

    let disk1 = grid.get_disk(cell, 1);
    let neigh1 = grid.get_neighbors(cell, 1);
    assert!(!disk1.is_empty());
    assert!(!disk1.contains(&cell));
    assert_eq!(disk1, neigh1);
    assert!(!neigh1.contains(&cell));
}

#[test]
fn test_neighbor_objects() {
    let mut grid = SparseA5Grid::new(3);
    let center = grid_cell(&grid, -0.12, 51.5);
    let neighbors = grid.get_neighbors(center, 1);

    let mut placed = Vec::new();
    for (i, &n) in neighbors.iter().enumerate() {
        let obj = i as u64;
        grid.set_object_location(obj, n);
        placed.push(obj);
    }
    grid.update();

    let found = grid.get_neighbor_objects(center, 1);
    assert_eq!(found.len(), placed.len());
}

// -- coordinate conversion helpers -------------------------------------

#[test]
fn test_lonlat_roundtrip() {
    let grid = SparseA5Grid::new(5);
    let cell = grid_cell(&grid, -0.12, 51.5);
    let (lon, lat) = cell_centre(cell);
    assert!((lon - (-0.12)).abs() < 1.0, "lon delta too large: {}", lon);
    assert!((lat - 51.5).abs() < 1.0, "lat delta too large: {}", lat);
}

#[test]
fn test_cell_resolution() {
    let grid = SparseA5Grid::new(7);
    let cell = grid_cell(&grid, 0.0, 0.0);
    assert_eq!(SparseA5Grid::cell_resolution(cell), 7);
}

// -- num_objects / get helpers -----------------------------------------

#[test]
fn test_num_objects() {
    let mut grid = SparseA5Grid::new(3);
    assert_eq!(grid.num_objects(), 0);

    let obj: u64 = 1;
    let cell = sample_cell(0.0, 0.0);
    grid.set_object_location(obj, cell);
    grid.update();

    assert_eq!(grid.num_objects(), 1);
}

#[test]
fn test_get_occupied_cells() {
    let mut grid = SparseA5Grid::new(3);
    let cell1 = sample_cell(0.0, 0.0);
    let cell2 = sample_cell(10.0, 10.0);

    grid.set_object_location(1, cell1);
    grid.set_object_location(2, cell2);
    grid.update();

    let occupied = grid.get_occupied_cells();
    assert_eq!(occupied.len(), 2);
    assert!(occupied.contains(&cell1));
    assert!(occupied.contains(&cell2));
}

#[test]
fn test_get_all_objects() {
    let mut grid = SparseA5Grid::new(3);
    let obj1: u64 = 1;
    let obj2: u64 = 2;

    grid.set_object_location(obj1, sample_cell(0.0, 0.0));
    grid.set_object_location(obj2, sample_cell(10.0, 10.0));
    grid.update();

    let all = grid.get_all_objects();
    assert_eq!(all.len(), 2);
    assert!(all.contains(&obj1));
    assert!(all.contains(&obj2));
}

#[test]
fn test_iter_objects() {
    let mut grid = SparseA5Grid::new(3);
    let obj1: u64 = 1;
    let obj2: u64 = 2;
    let cell1 = sample_cell(0.0, 0.0);
    let cell2 = sample_cell(10.0, 10.0);

    grid.set_object_location(obj1, cell1);
    grid.set_object_location(obj2, cell2);
    grid.update();

    let count = std::cell::Cell::new(0usize);
    grid.iter_objects(|_obj, _cell| {
        count.set(count.get() + 1);
    });
    assert_eq!(count.get(), 2);
}

#[test]
fn test_apply_to_all_values() {
    let mut grid = SparseA5Grid::new(3);
    let obj1: u64 = 1;
    let obj2: u64 = 2;
    let cell = sample_cell(0.0, 0.0);

    grid.set_object_location(obj1, cell);
    grid.set_object_location(obj2, cell);
    grid.update();

    let count = std::cell::Cell::new(0usize);
    grid.apply_to_all_values(
        |_cell, _obj| {
            count.set(count.get() + 1);
        },
        GridOption::READ,
    );
    assert_eq!(count.get(), 2);
}

#[test]
fn test_display() {
    let grid = SparseA5Grid::new(5);
    let s = grid.to_display_string();
    assert!(s.contains("SparseA5Grid"));
    assert!(s.contains("5"));
}

// -- unbuffered accessors ----------------------------------------------

#[test]
fn test_unbuffered_accessors() {
    let mut grid = SparseA5Grid::new(3);
    let obj: u64 = 42;
    let cell = sample_cell(5.0, 45.0);

    grid.set_object_location(obj, cell);
    assert_eq!(grid.get_unbuffered(cell), Some(obj));
    assert_eq!(grid.get_location_unbuffered(&obj), Some(cell));
    assert_eq!(grid.get_objects_unbuffered(cell).unwrap().len(), 1);
    assert_eq!(grid.num_objects_unbuffered(), 1);

    assert_eq!(grid.get(cell), None);
    assert_eq!(grid.num_objects(), 0);
}
