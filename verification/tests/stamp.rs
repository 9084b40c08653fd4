use rabbit::frame::{Cell, Frame};
use rabbit::stamp::stamp;

fn lines(rows: &[&str]) -> Vec<String> {
    rows.iter().map(|row| row.to_string()).collect()
}

fn filled(width: u16, height: u16, ch: char) -> Frame {
    let mut frame = Frame::new(width, height);
    for y in 0..height {
        for x in 0..width {
            frame.set(x, y, Cell::from_char(ch)).unwrap();
        }
    }
    frame
}

fn shown(frame: &Frame) -> Vec<String> {
    let (width, height) = frame.size();
    (0..height).map(|y| (0..width).map(|x| frame.get(x, y).unwrap().ch).collect()).collect()
}

#[test]
fn stamp_writes_characters_at_the_offset() {
    let mut frame = filled(4, 3, '.');
    stamp(&mut frame, &lines(&["ab", "cd"]), (1, 1));
    assert_eq!(shown(&frame), vec!["....", ".ab.", ".cd."]);
}

#[test]
fn stamp_space_never_overwrites() {
    let mut frame = filled(3, 2, '#');
    stamp(&mut frame, &lines(&["   ", " x "]), (0, 0));
    assert_eq!(shown(&frame), vec!["###", "#x#"]);
}

#[test]
fn stamp_fully_outside_changes_nothing() {
    let before = filled(3, 3, '+');
    let rows = lines(&["ab", "cd"]);
    for origin in [(3, 0), (0, 3), (-2, 0), (0, -2), (-2, -2), (3, 3), (i16::MAX, 0), (0, i16::MIN)]
    {
        let mut frame = before.clone();
        stamp(&mut frame, &rows, origin);
        assert_eq!(frame, before);
    }
}

#[test]
fn stamp_partly_outside_is_clipped() {
    let rows = lines(&["ab", "cd"]);
    let mut frame = filled(2, 2, '.');
    stamp(&mut frame, &rows, (-1, -1));
    assert_eq!(shown(&frame), vec!["d.", ".."]);
    let mut frame = filled(2, 2, '.');
    stamp(&mut frame, &rows, (1, 1));
    assert_eq!(shown(&frame), vec!["..", ".a"]);
    let mut frame = filled(2, 2, '.');
    stamp(&mut frame, &rows, (1, -1));
    assert_eq!(shown(&frame), vec![".c", ".."]);
}

#[test]
fn stamp_on_frame_without_cells() {
    let mut frame = Frame::new(0, 0);
    stamp(&mut frame, &lines(&["ab"]), (0, 0));
    assert_eq!(frame, Frame::new(0, 0));
}

#[test]
fn stamp_of_no_rows_changes_nothing() {
    let mut frame = filled(2, 2, 'o');
    stamp(&mut frame, &lines(&[]), (0, 0));
    stamp(&mut frame, &lines(&["", ""]), (0, 0));
    assert_eq!(frame, filled(2, 2, 'o'));
}

#[test]
fn stamp_later_overwrites_earlier() {
    let mut frame = Frame::new(3, 1);
    stamp(&mut frame, &lines(&["aaa"]), (0, 0));
    stamp(&mut frame, &lines(&["b b"]), (0, 0));
    assert_eq!(shown(&frame), vec!["bab"]);
}

#[test]
fn stamp_writes_the_default_style() {
    let mut frame = Frame::new(1, 1);
    stamp(&mut frame, &lines(&["q"]), (0, 0));
    assert_eq!(frame.get(0, 0).unwrap(), &Cell::from_char('q'));
}
