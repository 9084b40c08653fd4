use rabbit::frame::{Cell, CellStyle, Frame, FrameError};

#[test]
fn frame_new_sets_size_and_default() {
    let frame = Frame::new(3, 2);
    assert_eq!(frame.size(), (3, 2));
    for y in 0..2 {
        for x in 0..3 {
            assert_eq!(frame.get(x, y).unwrap(), &Cell::default());
        }
    }
}

#[test]
fn frame_set_get_in_bounds() {
    let mut frame = Frame::new(2, 2);
    let cell = Cell::from_char('R');
    frame.set(1, 1, cell.clone()).unwrap();
    assert_eq!(frame.get(1, 1).unwrap(), &cell);
}

#[test]
fn frame_set_out_of_bounds_returns_err() {
    let mut frame = Frame::new(2, 2);
    let cell = Cell::from_char('R');
    assert!(frame.set(10, 10, cell).is_err());
}

#[test]
fn frame_clear_resets_cells() {
    let mut frame = Frame::new(2, 2);
    frame.set(0, 0, Cell::from_char('R')).unwrap();
    frame.clear();
    assert_eq!(frame.get(0, 0).unwrap(), &Cell::default());
}

#[test]
fn cell_default_is_a_space() {
    assert_eq!(Cell::default(), Cell { ch: ' ', style: CellStyle });
    assert_eq!(Cell::from_char(' '), Cell::default());
    assert_eq!(Cell::from_char('x').ch, 'x');
}

#[test]
fn frame_get_out_of_bounds_names_the_coordinate() {
    let frame = Frame::new(3, 2);
    assert_eq!(
        frame.get(3, 0),
        Err(FrameError::OutOfBounds { x: 3, y: 0, width: 3, height: 2 })
    );
    assert_eq!(
        frame.get(0, 2),
        Err(FrameError::OutOfBounds { x: 0, y: 2, width: 3, height: 2 })
    );
    assert_eq!(
        frame.get(u16::MAX, u16::MAX),
        Err(FrameError::OutOfBounds { x: u16::MAX, y: u16::MAX, width: 3, height: 2 })
    );
}

#[test]
fn frame_set_out_of_bounds_changes_nothing() {
    let mut frame = Frame::new(2, 2);
    frame.set(1, 0, Cell::from_char('a')).unwrap();
    let before = frame.clone();
    assert_eq!(
        frame.set(2, 1, Cell::from_char('b')),
        Err(FrameError::OutOfBounds { x: 2, y: 1, width: 2, height: 2 })
    );
    assert_eq!(
        frame.set(1, 2, Cell::from_char('b')),
        Err(FrameError::OutOfBounds { x: 1, y: 2, width: 2, height: 2 })
    );
    assert_eq!(frame, before);
}

#[test]
fn frame_set_changes_one_cell_only() {
    let mut frame = Frame::new(3, 3);
    frame.set(2, 1, Cell::from_char('z')).unwrap();
    for y in 0..3 {
        for x in 0..3 {
            let expected = if (x, y) == (2, 1) { Cell::from_char('z') } else { Cell::default() };
            assert_eq!(frame.get(x, y).unwrap(), &expected);
        }
    }
}

#[test]
fn frame_clear_blanks_every_cell_and_keeps_size() {
    let mut frame = Frame::new(4, 3);
    for y in 0..3 {
        for x in 0..4 {
            frame.set(x, y, Cell::from_char('#')).unwrap();
        }
    }
    frame.clear();
    assert_eq!(frame.size(), (4, 3));
    assert_eq!(frame, Frame::new(4, 3));
}

#[test]
fn frame_without_cells_refuses_every_coordinate() {
    let mut frame = Frame::new(0, 5);
    assert_eq!(frame.size(), (0, 5));
    assert!(frame.get(0, 0).is_err());
    assert!(frame.set(0, 0, Cell::default()).is_err());
    let empty = Frame::new(5, 0);
    assert!(empty.get(0, 0).is_err());
}

#[test]
fn frame_clone_is_equal() {
    let mut frame = Frame::new(2, 1);
    frame.set(1, 0, Cell::from_char('q')).unwrap();
    assert_eq!(frame.clone(), frame);
}
