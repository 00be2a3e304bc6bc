use piece_scene::sheet::{sprite_index, PieceType, Team, PIECE_TYPES_PER_ROW};

fn team(row: usize) -> Team {
    Team::new(row).expect("row fits")
}

fn piece_type(column: usize) -> PieceType {
    PieceType::new(column).expect("column fits")
}

#[test]
fn sheet_row_holds_five_piece_types() {
    assert_eq!(PIECE_TYPES_PER_ROW, 5);
}

#[test]
fn index_of_row_one_column_three_is_eight() {
    assert_eq!(sprite_index(team(1), piece_type(3)), 8);
}

#[test]
fn index_is_row_times_five_plus_column() {
    for row in 0..40usize {
        for column in 0..5usize {
            assert_eq!(sprite_index(team(row), piece_type(column)), row * 5 + column);
        }
    }
}

#[test]
fn first_row_maps_columns_to_themselves() {
    for column in 0..5usize {
        assert_eq!(sprite_index(team(0), piece_type(column)), column);
    }
}

#[test]
fn rows_do_not_overlap() {
    assert_eq!(sprite_index(team(0), piece_type(4)), 4);
    assert_eq!(sprite_index(team(1), piece_type(0)), 5);
    assert_eq!(sprite_index(team(2), piece_type(0)), 10);
}

#[test]
fn piece_type_keeps_its_column() {
    for column in 0..5usize {
        assert_eq!(piece_type(column).as_usize(), column);
    }
}

#[test]
fn piece_type_outside_the_row_is_refused() {
    assert!(PieceType::new(4).is_some());
    assert!(PieceType::new(5).is_none());
    assert!(PieceType::new(6).is_none());
    assert!(PieceType::new(usize::MAX).is_none());
}

#[test]
fn team_keeps_its_row() {
    assert_eq!(team(0).as_usize(), 0);
    assert_eq!(team(3).as_usize(), 3);
    assert_eq!(team(1000).as_usize(), 1000);
}

#[test]
fn team_beyond_the_usual_rows_is_accepted() {
    // Rows are not held against the height of the sprite sheet.
    assert_eq!(sprite_index(team(1_000_000), piece_type(2)), 5_000_002);
}

#[test]
fn team_whose_cells_do_not_fit_is_refused() {
    let last = (usize::MAX - 4) / 5;
    assert!(Team::new(last).is_some());
    assert!(Team::new(last + 1).is_none());
    assert!(Team::new(usize::MAX).is_none());
    assert_eq!(sprite_index(team(last), piece_type(4)), last * 5 + 4);
}

#[test]
fn equal_teams_and_piece_types_compare_equal() {
    assert_eq!(team(2), team(2));
    assert_ne!(team(2), team(3));
    assert_eq!(piece_type(1), piece_type(1));
    assert_ne!(piece_type(1), piece_type(0));
}
