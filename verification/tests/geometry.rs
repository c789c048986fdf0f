use xqa_terminal::display::error::BoundsError;
use xqa_terminal::display::geometry::{
    cell_origin, grid_fits, BYTES_PER_PIXEL, CELL_BYTES, CELL_HEIGHT, CELL_WIDTH, COLUMN_OFFSET,
    DISPLAY_LOGICAL_HEIGHT, DISPLAY_LOGICAL_WIDTH, FRAME_BYTES, ROW_OFFSET,
};
use xqa_terminal::display::{DISPLAY_COLUMNS, DISPLAY_LINES};

#[test]
fn constants_are_those_of_the_display() {
    assert_eq!(DISPLAY_LOGICAL_WIDTH, 1280);
    assert_eq!(DISPLAY_LOGICAL_HEIGHT, 720);
    assert_eq!(COLUMN_OFFSET, 10);
    assert_eq!(ROW_OFFSET, 10);
    assert_eq!(CELL_WIDTH, 14);
    assert_eq!(CELL_HEIGHT, 28);
    assert_eq!(BYTES_PER_PIXEL, 4);
    assert_eq!(CELL_BYTES, 1568);
    assert_eq!(FRAME_BYTES, 3_686_400);
}

#[test]
fn first_cell_starts_at_the_offsets() {
    assert_eq!(cell_origin(0, 0), Ok((10, 10)));
}

#[test]
fn origin_steps_by_the_cell_size() {
    assert_eq!(cell_origin(1, 0), Ok((24, 10)));
    assert_eq!(cell_origin(0, 1), Ok((10, 38)));
    assert_eq!(cell_origin(5, 3), Ok((80, 94)));
}

#[test]
fn last_cell_lies_inside_the_frame() {
    let (x, y) = cell_origin(89, 24).unwrap();
    assert_eq!((x, y), (1256, 682));
    assert!(x + CELL_WIDTH <= 1280);
    assert!(y + CELL_HEIGHT <= 720);
    assert_eq!(x + CELL_WIDTH, 1270);
    assert_eq!(y + CELL_HEIGHT, 710);
}

#[test]
fn every_cell_lies_inside_the_frame() {
    for row in 0..DISPLAY_LINES {
        for column in 0..DISPLAY_COLUMNS {
            let (x, y) = cell_origin(column, row).unwrap();
            assert!(x + CELL_WIDTH <= DISPLAY_LOGICAL_WIDTH);
            assert!(y + CELL_HEIGHT <= DISPLAY_LOGICAL_HEIGHT);
        }
    }
}

#[test]
fn origin_of_a_cell_outside_the_grid_fails() {
    assert_eq!(cell_origin(90, 0), Err(BoundsError::Column { column: 90, limit: 90 }));
    assert_eq!(cell_origin(0, 25), Err(BoundsError::Row { row: 25, limit: 25 }));
    assert_eq!(cell_origin(90, 25), Err(BoundsError::Column { column: 90, limit: 90 }));
}

#[test]
fn the_grid_of_the_display_fits() {
    assert!(grid_fits(
        DISPLAY_COLUMNS,
        DISPLAY_LINES,
        CELL_WIDTH,
        CELL_HEIGHT,
        COLUMN_OFFSET,
        ROW_OFFSET,
        DISPLAY_LOGICAL_WIDTH,
        DISPLAY_LOGICAL_HEIGHT,
    ));
    assert!(grid_fits(90, 25, 14, 28, 10, 10, 1280, 720));
}

#[test]
fn a_grid_that_ends_on_the_edge_fits() {
    assert!(grid_fits(90, 25, 14, 28, 20, 20, 1280, 720));
    assert!(!grid_fits(90, 25, 14, 28, 21, 20, 1280, 720));
    assert!(!grid_fits(90, 25, 14, 28, 20, 21, 1280, 720));
}

#[test]
fn a_wider_cell_does_not_fit() {
    assert!(!grid_fits(90, 25, 15, 28, 10, 10, 1280, 720));
}

#[test]
fn a_taller_cell_does_not_fit() {
    assert!(!grid_fits(90, 25, 14, 29, 10, 10, 1280, 720));
}

#[test]
fn more_columns_or_lines_do_not_fit() {
    assert!(!grid_fits(91, 25, 14, 28, 10, 10, 1280, 720));
    assert!(!grid_fits(90, 26, 14, 28, 10, 10, 1280, 720));
}

#[test]
fn a_smaller_frame_does_not_fit() {
    assert!(!grid_fits(90, 25, 14, 28, 10, 10, 1269, 720));
    assert!(grid_fits(90, 25, 14, 28, 10, 10, 1270, 720));
    assert!(!grid_fits(90, 25, 14, 28, 10, 10, 1280, 709));
    assert!(grid_fits(90, 25, 14, 28, 10, 10, 1280, 710));
}

#[test]
fn sizes_beyond_the_machine_do_not_fit() {
    assert!(!grid_fits(usize::MAX, 25, 2, 28, 10, 10, usize::MAX, 720));
    assert!(!grid_fits(90, 25, 14, 28, usize::MAX, 10, usize::MAX, 720));
    assert!(!grid_fits(90, usize::MAX, 14, usize::MAX, 10, 10, 1280, usize::MAX));
}

#[test]
fn an_empty_grid_fits_wherever_its_corner_does() {
    assert!(grid_fits(0, 0, 14, 28, 1280, 720, 1280, 720));
    assert!(!grid_fits(0, 0, 14, 28, 1281, 720, 1280, 720));
}
