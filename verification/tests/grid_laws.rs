use krabmaga::engine::fields::a5grid::SparseA5Grid;
use krabmaga::engine::fields::field::Field;
use krabmaga::engine::fields::grid_option::GridOption;

fn sorted(mut v: Vec<u64>) -> Vec<u64> {
    v.sort();
    v
}

#[test]
fn placed_object_found_only_in_its_cell() {
    let mut grid = SparseA5Grid::new(3);
    grid.set_object_location(7, 100);
    grid.set_object_location(7, 200);
    assert_eq!(grid.get_location_unbuffered(&7), Some(200));
    assert_eq!(grid.get_objects_unbuffered(100), None);
    assert_eq!(grid.get_objects_unbuffered(200), Some(vec![7]));
}

#[test]
fn objects_kept_in_placement_order() {
    let mut grid = SparseA5Grid::new(3);
    grid.set_object_location(3, 100);
    grid.set_object_location(1, 100);
    grid.set_object_location(2, 100);
    assert_eq!(grid.get_objects_unbuffered(100), Some(vec![3, 1, 2]));
    assert_eq!(grid.get_unbuffered(100), Some(3));
    // Moving the first object away keeps the others in order.
    grid.set_object_location(3, 200);
    assert_eq!(grid.get_objects_unbuffered(100), Some(vec![1, 2]));
    assert_eq!(grid.get_unbuffered(100), Some(1));
    // Placing again at the same cell moves the object to the end.
    grid.set_object_location(1, 100);
    assert_eq!(grid.get_objects_unbuffered(100), Some(vec![2, 1]));
}

#[test]
fn placing_twice_is_placing_once() {
    let mut grid = SparseA5Grid::new(3);
    grid.set_object_location(1, 100);
    grid.set_object_location(2, 100);
    grid.set_object_location(2, 100);
    assert_eq!(grid.get_objects_unbuffered(100), Some(vec![1, 2]));
    assert_eq!(grid.num_objects_unbuffered(), 2);
}

#[test]
fn remove_undoes_place() {
    let mut grid = SparseA5Grid::new(3);
    grid.set_object_location(1, 100);
    grid.set_object_location(2, 300);
    grid.remove_object(&2);
    assert_eq!(grid.get_location_unbuffered(&2), None);
    assert_eq!(grid.get_objects_unbuffered(300), None);
    assert_eq!(grid.get_location_unbuffered(&1), Some(100));
    assert_eq!(grid.num_objects_unbuffered(), 1);
    // Removing an object that is not there changes nothing.
    grid.remove_object(&9);
    assert_eq!(grid.num_objects_unbuffered(), 1);
    assert_eq!(grid.get_objects_unbuffered(100), Some(vec![1]));
}

#[test]
fn read_after_update_and_drain() {
    let mut grid = SparseA5Grid::new(3);
    grid.set_object_location(5, 100);
    assert_eq!(grid.get_location(&5), None);
    grid.update();
    assert_eq!(grid.get_location(&5), Some(100));
    assert_eq!(grid.get_objects(100), Some(vec![5]));
    assert_eq!(grid.num_objects_unbuffered(), 0);
    grid.update();
    assert_eq!(grid.get_location(&5), None);
    assert_eq!(grid.num_objects(), 0);
}

#[test]
fn lazy_update_same_effect_as_update() {
    let mut a = SparseA5Grid::new(3);
    let mut b = SparseA5Grid::new(3);
    for g in [&mut a, &mut b] {
        g.set_object_location(1, 100);
        g.set_object_location(2, 200);
    }
    a.update();
    b.lazy_update();
    assert_eq!(sorted(a.get_all_objects()), sorted(b.get_all_objects()));
    assert_eq!(a.get_location(&2), b.get_location(&2));
    assert_eq!(a.num_objects_unbuffered(), 0);
    assert_eq!(b.num_objects_unbuffered(), 0);
}

#[test]
fn occupied_cells_leave_out_emptied_cells() {
    let mut grid = SparseA5Grid::new(3);
    grid.set_object_location(1, 100);
    grid.set_object_location(2, 200);
    grid.set_object_location(1, 200);
    grid.update();
    assert_eq!(grid.get_occupied_cells(), vec![200]);
    assert_eq!(grid.get(100), None);
}

#[test]
fn all_values_lists_each_pair() {
    let mut grid = SparseA5Grid::new(3);
    grid.set_object_location(1, 100);
    grid.set_object_location(2, 100);
    grid.set_object_location(3, 200);
    grid.update();
    grid.set_object_location(4, 300);
    let mut read = grid.all_values(GridOption::READ);
    read.sort();
    assert_eq!(read, vec![(100, 1), (100, 2), (200, 3)]);
    assert_eq!(grid.all_values(GridOption::WRITE), vec![(300, 4)]);
    let both = grid.all_values(GridOption::READWRITE);
    assert_eq!(both.len(), 4);
    assert_eq!(both[3], (300, 4));
    let mut locs = grid.object_locations();
    locs.sort();
    assert_eq!(locs, vec![(1, 100), (2, 100), (3, 200)]);
    assert_eq!(grid.object_locations_unbuffered(), vec![(4, 300)]);
}

#[test]
fn apply_to_all_values_visits_both_buffers() {
    let mut grid = SparseA5Grid::new(3);
    grid.set_object_location(1, 100);
    grid.update();
    grid.set_object_location(2, 100);
    let seen = std::cell::RefCell::new(Vec::new());
    grid.apply_to_all_values(|c, o| seen.borrow_mut().push((*c, *o)), GridOption::READWRITE);
    assert_eq!(seen.into_inner(), vec![(100, 1), (100, 2)]);
    let count = std::cell::Cell::new(0usize);
    grid.iter_objects_unbuffered(|_o, _c| count.set(count.get() + 1));
    assert_eq!(count.get(), 1);
}

#[test]
fn display_text_exact() {
    assert_eq!(SparseA5Grid::new(5).to_display_string(), "SparseA5Grid<resolution=5>");
    assert_eq!(SparseA5Grid::new(12).to_display_string(), "SparseA5Grid<resolution=12>");
    assert_eq!(SparseA5Grid::new(0).to_display_string(), "SparseA5Grid<resolution=0>");
    assert_eq!(SparseA5Grid::new(-1).to_display_string(), "SparseA5Grid<resolution=-1>");
    assert_eq!(
        SparseA5Grid::new(i32::MIN).to_display_string(),
        "SparseA5Grid<resolution=-2147483648>"
    );
    assert_eq!(SparseA5Grid::new(7).resolution(), 7);
}

#[test]
fn neighbors_exclude_center_and_objects_follow_cells() {
    let mut grid = SparseA5Grid::new(3);
    let center = a5::lonlat_to_cell(a5::LonLat::new(10.0, 48.0), 3).unwrap();
    let disk = grid.get_disk(center, 1);
    let neighbors = grid.get_neighbors(center, 1);
    let expected: Vec<u64> = disk.iter().copied().filter(|c| *c != center).collect();
    assert_eq!(neighbors, expected);
    assert!(!neighbors.contains(&center));
    grid.set_object_location(1000, center);
    for (i, &n) in neighbors.iter().enumerate() {
        grid.set_object_location(i as u64, n);
        grid.set_object_location(i as u64 + 500, n);
    }
    grid.update();
    let found = grid.get_neighbor_objects(center, 1);
    let mut expected_objs = Vec::new();
    for (i, _) in neighbors.iter().enumerate() {
        expected_objs.push(i as u64);
        expected_objs.push(i as u64 + 500);
    }
    assert_eq!(found, expected_objs);
    assert!(!found.contains(&1000));
}

#[test]
fn disk_of_radius_zero_and_resolution_of_world_cell() {
    let grid = SparseA5Grid::new(3);
    assert_eq!(grid.get_disk(12345, 0), vec![12345]);
    assert!(grid.get_neighbors(12345, 0).is_empty());
    assert_eq!(SparseA5Grid::cell_resolution(0), -1);
    let cell = a5::lonlat_to_cell(a5::LonLat::new(0.0, 0.0), 4).unwrap();
    assert_eq!(SparseA5Grid::cell_resolution(cell), 4);
}

#[test]
fn checked_disk_refuses_cells_without_resolution() {
    let mut grid = SparseA5Grid::new(3);
    // The world cell has resolution -1: A5 cannot search its neighbours.
    assert_eq!(grid.try_get_disk(0, 1), None);
    assert_eq!(grid.try_get_neighbors(0, 1), None);
    assert_eq!(grid.try_get_neighbor_objects(0, 1), None);
    // Radius 0 needs no search.
    assert_eq!(grid.try_get_disk(0, 0), Some(vec![0]));
    assert_eq!(grid.try_get_neighbors(0, 0), Some(vec![]));
    let center = a5::lonlat_to_cell(a5::LonLat::new(10.0, 48.0), 3).unwrap();
    let neighbors = grid.get_neighbors(center, 1);
    assert_eq!(grid.try_get_disk(center, 1), Some(grid.get_disk(center, 1)));
    assert_eq!(grid.try_get_neighbors(center, 1), Some(neighbors.clone()));
    grid.set_object_location(9, neighbors[0]);
    grid.update();
    assert_eq!(grid.try_get_neighbor_objects(center, 1), Some(vec![9]));
}

#[test]
fn all_values_keep_each_cells_order() {
    let mut grid = SparseA5Grid::new(3);
    grid.set_object_location(5, 100);
    grid.set_object_location(3, 200);
    grid.set_object_location(4, 100);
    grid.set_object_location(1, 100);
    grid.update();
    let values = grid.all_values(GridOption::READ);
    let at_100: Vec<(u64, u64)> = values.iter().copied().filter(|p| p.0 == 100).collect();
    assert_eq!(at_100, vec![(100, 5), (100, 4), (100, 1)]);
    let start = values.iter().position(|p| p.0 == 100).unwrap();
    assert_eq!(&values[start..start + 3], &at_100[..]);
}
