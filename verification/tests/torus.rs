use game_of_life::game::GameLogic;

#[test]
fn corner_neighbor_wraps_to_opposite_corner() {
    assert_eq!(GameLogic::make_coords_absolute(5, -1, -1), (4, 4));
    assert_eq!(GameLogic::make_coords_absolute(3, -1, -1), (2, 2));
}

#[test]
fn coordinate_past_last_wraps_to_first() {
    assert_eq!(GameLogic::make_coords_absolute(5, 5, 5), (0, 0));
    assert_eq!(GameLogic::make_coords_absolute(5, 5, 2), (0, 2));
    assert_eq!(GameLogic::make_coords_absolute(5, 2, 5), (2, 0));
}

#[test]
fn coordinate_on_grid_is_kept() {
    assert_eq!(GameLogic::make_coords_absolute(5, 2, 3), (2, 3));
    assert_eq!(GameLogic::make_coords_absolute(5, 0, 4), (0, 4));
}

#[test]
fn axes_are_not_swapped() {
    assert_eq!(GameLogic::make_coords_absolute(7, -1, 3), (6, 3));
    assert_eq!(GameLogic::make_coords_absolute(7, 3, -1), (3, 6));
    assert_eq!(GameLogic::make_coords_absolute(7, 7, -1), (0, 6));
}

#[test]
fn whole_turn_off_the_grid_is_brought_back() {
    assert_eq!(GameLogic::make_coords_absolute(5, -5, 9), (0, 4));
}

#[test]
fn side_of_one_wraps_everything_to_the_only_cell() {
    assert_eq!(GameLogic::make_coords_absolute(1, -1, -1), (0, 0));
    assert_eq!(GameLogic::make_coords_absolute(1, 0, 0), (0, 0));
    assert_eq!(GameLogic::make_coords_absolute(1, 1, 1), (0, 0));
}

#[test]
fn side_of_two_wraps_both_ways() {
    assert_eq!(GameLogic::make_coords_absolute(2, -1, 2), (1, 0));
    assert_eq!(GameLogic::make_coords_absolute(2, 1, 0), (1, 0));
}

#[test]
fn eight_neighbors_of_corner_are_on_grid_and_distinct() {
    let size: usize = 4;
    let mut seen: Vec<(usize, usize)> = Vec::new();
    for dy in -1..=1 {
        for dx in -1..=1 {
            if dx == 0 && dy == 0 {
                continue;
            }
            let place = GameLogic::make_coords_absolute(size, dx, dy);
            assert!(place.0 < size && place.1 < size);
            assert!(!seen.contains(&place));
            assert_ne!(place, (0, 0));
            seen.push(place);
        }
    }
    seen.sort();
    assert_eq!(seen, vec![(0, 1), (0, 3), (1, 0), (1, 1), (1, 3), (3, 0), (3, 1), (3, 3)]);
}

#[test]
fn largest_side_wraps_without_overflow() {
    let size: usize = 0x7fff_ffff;
    assert_eq!(GameLogic::make_coords_absolute(size, -1, 0x7fff_ffff), (0x7fff_fffe, 0));
}
