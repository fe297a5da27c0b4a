use microbit_core::animation::{Animation, Cursor, Frame, FRAME_HOLD_MS, LAP, LAST, SIDE};

fn lit_cells(frame: &Frame) -> Vec<(usize, usize)> {
    let mut cells = Vec::new();
    for row in 0..SIDE {
        for col in 0..SIDE {
            if frame.pixels[row][col] != 0 {
                cells.push((row, col));
            }
        }
    }
    cells
}

const CLOCKWISE: [(usize, usize); 16] = [
    (0, 0),
    (0, 1),
    (0, 2),
    (0, 3),
    (0, 4),
    (1, 4),
    (2, 4),
    (3, 4),
    (4, 4),
    (4, 3),
    (4, 2),
    (4, 1),
    (4, 0),
    (3, 0),
    (2, 0),
    (1, 0),
];

#[test]
fn grid_constants() {
    assert_eq!(SIDE, 5);
    assert_eq!(LAST, 4);
    assert_eq!(LAP, 16);
    assert_eq!(FRAME_HOLD_MS, 1000);
}

#[test]
fn animation_starts_top_left() {
    let animation = Animation::new();
    assert_eq!(animation.cursor(), Cursor { row: 0, col: 0 });
    assert_eq!(Cursor::origin(), Cursor { row: 0, col: 0 });
    assert_eq!(lit_cells(&animation.render()), vec![(0, 0)]);
}

#[test]
fn every_tick_lights_one_border_pixel_and_the_lap_closes() {
    let mut animation = Animation::new();
    let start = animation.cursor();
    for tick in 1..=16 {
        animation.advance();
        let cursor = animation.cursor();
        let frame = animation.render();
        assert_eq!(lit_cells(&frame), vec![(cursor.row, cursor.col)]);
        assert_eq!(frame.pixels[cursor.row][cursor.col], 1);
        assert!(cursor.row == 0 || cursor.row == 4 || cursor.col == 0 || cursor.col == 4);
        assert!(cursor.row < 5 && cursor.col < 5);
        assert_eq!((cursor.row, cursor.col), CLOCKWISE[tick % 16]);
    }
    assert_eq!(animation.cursor(), start);
}

#[test]
fn second_lap_repeats_the_first() {
    let mut animation = Animation::new();
    for tick in 1..=40 {
        animation.advance();
        let cursor = animation.cursor();
        assert_eq!((cursor.row, cursor.col), CLOCKWISE[tick % 16]);
    }
}

#[test]
fn turns_at_the_corners() {
    let corners = [
        (Cursor { row: 0, col: 4 }, Cursor { row: 1, col: 4 }),
        (Cursor { row: 4, col: 4 }, Cursor { row: 4, col: 3 }),
        (Cursor { row: 4, col: 0 }, Cursor { row: 3, col: 0 }),
        (Cursor { row: 0, col: 0 }, Cursor { row: 0, col: 1 }),
        (Cursor { row: 1, col: 0 }, Cursor { row: 0, col: 0 }),
    ];
    for (from, to) in corners {
        let mut cursor = from;
        cursor.advance();
        assert_eq!(cursor, to);
    }
}

#[test]
fn inner_cell_stays_where_it_is() {
    let mut cursor = Cursor { row: 2, col: 2 };
    cursor.advance();
    assert_eq!(cursor, Cursor { row: 2, col: 2 });
}

#[test]
fn dark_frame_has_no_lit_pixel() {
    assert_eq!(Frame::dark().pixels, [[0u8; 5]; 5]);
    assert!(lit_cells(&Frame::dark()).is_empty());
}

#[test]
fn single_frame_lights_the_given_cell_only() {
    let frame = Frame::single(Cursor { row: 3, col: 1 });
    assert_eq!(lit_cells(&frame), vec![(3, 1)]);
    let mut expected = [[0u8; 5]; 5];
    expected[3][1] = 1;
    assert_eq!(frame.pixels, expected);
}
