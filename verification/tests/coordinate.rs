use chess_board::coordinate::{
    cell_along_axis, checked_index_from_vec2, index_from_vec2, is_outside_board, square_under, vec2_from_index, Vec2,
    BOARD_HALF_SCALE, GRID_SCALE,
};

fn at(x: i32, y: i32) -> Vec2 {
    Vec2 { x, y }
}

#[test]
fn constants_describe_an_eight_by_eight_board() {
    assert_eq!(GRID_SCALE, 50);
    assert_eq!(BOARD_HALF_SCALE, 200);
    assert_eq!(GRID_SCALE * 8 / 2, BOARD_HALF_SCALE);
}

#[test]
fn square_positions_are_exact() {
    assert_eq!(vec2_from_index(0), at(-200, -200));
    assert_eq!(vec2_from_index(1), at(-150, -200));
    assert_eq!(vec2_from_index(7), at(150, -200));
    assert_eq!(vec2_from_index(8), at(-200, -150));
    assert_eq!(vec2_from_index(9), at(-150, -150));
    assert_eq!(vec2_from_index(36), at(0, 0));
    assert_eq!(vec2_from_index(63), at(150, 150));
}

#[test]
fn square_positions_beyond_the_board_continue_the_rows() {
    assert_eq!(vec2_from_index(64), at(-200, 200));
    assert_eq!(vec2_from_index(72), at(-200, 250));
    assert_eq!(vec2_from_index(255), at(150, 1350));
}

#[test]
fn round_trip_over_the_board() {
    for i in 0..64u8 {
        assert_eq!(index_from_vec2(vec2_from_index(i)), i);
    }
}

#[test]
fn round_trip_over_every_index() {
    for i in 0..=255u8 {
        assert_eq!(index_from_vec2(vec2_from_index(i)), i);
    }
}

#[test]
fn every_square_position_is_on_the_board() {
    for i in 0..64u8 {
        assert!(!is_outside_board(&vec2_from_index(i)));
    }
}

#[test]
fn bounds_are_inclusive() {
    assert!(!is_outside_board(&at(200, 200)));
    assert!(!is_outside_board(&at(-200, -200)));
    assert!(!is_outside_board(&at(200, -200)));
    assert!(!is_outside_board(&at(0, 0)));
}

#[test]
fn positions_beyond_four_cells_are_outside() {
    assert!(is_outside_board(&at(201, 0)));
    assert!(is_outside_board(&at(-201, 0)));
    assert!(is_outside_board(&at(0, 201)));
    assert!(is_outside_board(&at(0, -201)));
    assert!(is_outside_board(&at(i32::MAX, i32::MIN)));
    assert!(is_outside_board(&at(-225, -225)));
}

#[test]
fn a_click_anywhere_inside_a_cell_maps_to_that_cell() {
    // Square 9 is anchored at (-150, -150) and spans 25 units either way.
    assert_eq!(index_from_vec2(at(-175, -175)), 9);
    assert_eq!(index_from_vec2(at(-150, -150)), 9);
    assert_eq!(index_from_vec2(at(-126, -126)), 9);
    assert_eq!(index_from_vec2(at(-125, -150)), 10);
    assert_eq!(index_from_vec2(at(-150, -125)), 17);
    assert_eq!(index_from_vec2(at(-176, -150)), 8);
}

#[test]
fn cells_near_the_board_centre() {
    assert_eq!(index_from_vec2(at(0, 0)), 36);
    assert_eq!(index_from_vec2(at(-25, -25)), 36);
    assert_eq!(index_from_vec2(at(-26, -25)), 35);
    assert_eq!(index_from_vec2(at(-25, -26)), 28);
    assert_eq!(index_from_vec2(at(-26, -26)), 27);
    assert_eq!(index_from_vec2(at(24, 24)), 36);
    assert_eq!(index_from_vec2(at(25, 24)), 37);
    assert_eq!(index_from_vec2(at(25, 25)), 45);
}

#[test]
fn the_last_half_square_before_the_upper_bound_is_cell_eight() {
    assert_eq!(cell_along_axis(174), 7);
    assert_eq!(cell_along_axis(175), 8);
    assert_eq!(cell_along_axis(200), 8);
    assert_eq!(index_from_vec2(at(175, -200)), 8);
    assert_eq!(index_from_vec2(at(-200, 175)), 64);
    assert_eq!(index_from_vec2(at(200, 200)), 72);
}

#[test]
fn truncation_mirrors_coordinates_left_of_the_first_cell() {
    assert_eq!(cell_along_axis(-200), 0);
    assert_eq!(cell_along_axis(-225), 0);
    // Floor division would give cell -1 here; truncation gives 0.
    assert_eq!(cell_along_axis(-226), 0);
    assert_eq!(cell_along_axis(-274), 0);
    assert_eq!(cell_along_axis(-275), 1);
    assert_eq!(cell_along_axis(-324), 1);
    assert_eq!(cell_along_axis(-325), 2);
    assert_eq!(index_from_vec2(at(-230, -275)), 8);
}

#[test]
fn cells_saturate() {
    assert_eq!(cell_along_axis(12524), 254);
    assert_eq!(cell_along_axis(12525), 255);
    assert_eq!(cell_along_axis(12575), 255);
    assert_eq!(cell_along_axis(i32::MAX), 255);
    assert_eq!(cell_along_axis(i32::MIN), 255);
    assert_eq!(index_from_vec2(at(i32::MAX, -200)), 255);
}

#[test]
fn square_under_rejects_positions_outside_the_board() {
    assert_eq!(square_under(&at(201, 0)), None);
    assert_eq!(square_under(&at(0, -201)), None);
    assert_eq!(square_under(&at(-225, -200)), None);
    assert_eq!(square_under(&at(i32::MIN, i32::MAX)), None);
}

#[test]
fn square_under_resolves_positions_on_the_board() {
    assert_eq!(square_under(&at(-200, -200)), Some(0));
    assert_eq!(square_under(&at(0, 0)), Some(36));
    assert_eq!(square_under(&at(150, 150)), Some(63));
    assert_eq!(square_under(&at(200, 200)), Some(72));
    for i in 0..64u8 {
        assert_eq!(square_under(&vec2_from_index(i)), Some(i));
    }
}

#[test]
fn every_position_on_the_board_resolves_to_at_most_72() {
    let mut x = -200;
    while x <= 200 {
        let mut y = -200;
        while y <= 200 {
            let index = square_under(&at(x, y)).unwrap();
            assert!(index <= 72);
            assert_eq!(index, cell_along_axis(x) + 8 * cell_along_axis(y));
            y += 5;
        }
        x += 5;
    }
}

#[test]
fn checked_index_agrees_where_the_index_fits() {
    for i in 0..=255u8 {
        assert_eq!(checked_index_from_vec2(vec2_from_index(i)), Some(i));
    }
    assert_eq!(checked_index_from_vec2(at(200, 200)), Some(72));
    assert_eq!(checked_index_from_vec2(at(-230, -275)), Some(8));
    // File 7 of rank 31 is the last index that fits.
    assert_eq!(checked_index_from_vec2(at(150, 1350)), Some(255));
}

#[test]
fn checked_index_is_none_where_the_index_does_not_fit() {
    // File 0 of rank 32 would be index 256.
    assert_eq!(checked_index_from_vec2(at(-200, 1400)), None);
    assert_eq!(checked_index_from_vec2(at(175, 1350)), None);
    assert_eq!(checked_index_from_vec2(at(0, i32::MAX)), None);
    assert_eq!(checked_index_from_vec2(at(i32::MIN, i32::MIN)), None);
    assert_eq!(checked_index_from_vec2(at(i32::MAX, -200)), Some(255));
    assert_eq!(checked_index_from_vec2(at(i32::MAX, -175)), None);
}
