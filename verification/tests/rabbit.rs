use std::time::Duration;

use rabbit::actor::Actor;
use rabbit::frame::{Cell, Frame};
use rabbit::rabbit::{Rabbit, Sprite, SpriteError};

fn sprite(frames: &[&[&str]]) -> Sprite {
    let frames: Vec<Vec<String>> =
        frames.iter().map(|rows| rows.iter().map(|row| row.to_string()).collect()).collect();
    Sprite::new(frames).unwrap()
}

fn text(frame: &Frame) -> Vec<String> {
    let (width, height) = frame.size();
    (0..height).map(|y| (0..width).map(|x| frame.get(x, y).unwrap().ch).collect()).collect()
}

fn painted(rows: &[&str]) -> Frame {
    let mut frame = Frame::new(rows[0].chars().count() as u16, rows.len() as u16);
    for (y, row) in rows.iter().enumerate() {
        for (x, ch) in row.chars().enumerate() {
            frame.set(x as u16, y as u16, Cell::from_char(ch)).unwrap();
        }
    }
    frame
}

#[test]
fn sprite_new_rejects_empty_frames() {
    let frames: Vec<Vec<String>> = vec![];
    assert!(Sprite::new(frames).is_err());
}

#[test]
fn sprite_advance_wraps() {
    let frames = vec![vec!["R".to_string()], vec!["r".to_string()]];
    let mut sprite = Sprite::new(frames).unwrap();
    let first = sprite.current_frame().to_vec();
    sprite.advance();
    sprite.advance();
    assert_eq!(sprite.current_frame(), first.as_slice());
}

#[test]
fn rabbit_update_zero_velocity_no_move() {
    let frames = vec![vec!["R".to_string()]];
    let sprite = Sprite::new(frames).unwrap();
    let mut rabbit = Rabbit::new((1, 1), (0, 0), sprite);
    rabbit.update(Duration::from_secs(1).as_nanos());
    assert_eq!(rabbit.position(), (1, 1));
}

#[test]
fn rabbit_render_draws_sprite_at_position() {
    let frames = vec![vec!["R".to_string()]];
    let sprite = Sprite::new(frames).unwrap();
    let rabbit = Rabbit::new((0, 0), (0, 0), sprite);
    let mut frame = Frame::new(1, 1);
    rabbit.render(&mut frame);
    assert_eq!(frame.get(0, 0).unwrap(), &Cell::from_char('R'));
}

#[test]
fn sprite_new_gives_the_empty_frames_error() {
    assert_eq!(Sprite::new(Vec::new()), Err(SpriteError::EmptyFrames));
}

#[test]
fn sprite_starts_at_the_first_frame() {
    let sprite = sprite(&[&["a", "b"], &["c"]]);
    assert_eq!(sprite.current_frame(), &["a".to_string(), "b".to_string()]);
}

#[test]
fn sprite_cycles_after_as_many_steps_as_frames() {
    let mut sprite = sprite(&[&["1"], &["2"], &["3"]]);
    let first = sprite.current_frame().to_vec();
    sprite.advance();
    assert_eq!(sprite.current_frame(), &["2".to_string()]);
    assert_ne!(sprite.current_frame(), first.as_slice());
    sprite.advance();
    assert_eq!(sprite.current_frame(), &["3".to_string()]);
    assert_ne!(sprite.current_frame(), first.as_slice());
    sprite.advance();
    assert_eq!(sprite.current_frame(), first.as_slice());
}

#[test]
fn sprite_of_one_frame_stays() {
    let mut sprite = sprite(&[&["only"]]);
    sprite.advance();
    assert_eq!(sprite.current_frame(), &["only".to_string()]);
}

#[test]
fn sprite_may_hold_a_frame_without_rows() {
    let sprite = Sprite::new(vec![Vec::new()]).unwrap();
    assert!(sprite.current_frame().is_empty());
}

#[test]
fn rabbit_zero_elapsed_changes_nothing() {
    let mut rabbit = Rabbit::new((3, -2), (5, 7), sprite(&[&["a"], &["b"]]));
    let before = rabbit.clone();
    rabbit.update(0);
    assert_eq!(rabbit, before);
    assert_eq!(rabbit.position(), (3, -2));
}

#[test]
fn rabbit_at_rest_still_shows_its_next_frame() {
    let mut rabbit = Rabbit::new((1, 1), (0, 0), sprite(&[&["a"], &["b"]]));
    rabbit.update(1);
    assert_eq!(rabbit.position(), (1, 1));
    let mut frame = Frame::new(2, 2);
    rabbit.render(&mut frame);
    assert_eq!(text(&frame), vec!["  ", " b"]);
}

#[test]
fn rabbit_moves_by_velocity_times_time() {
    let mut rabbit = Rabbit::new((0, 0), (1, 2), sprite(&[&["R"]]));
    rabbit.update(1_500_000_000);
    assert_eq!(rabbit.position(), (1, 3));
    rabbit.update(500_000_000);
    assert_eq!(rabbit.position(), (2, 4));
}

#[test]
fn rabbit_keeps_parts_of_a_cell_between_updates() {
    let mut rabbit = Rabbit::new((0, 0), (1, 0), sprite(&[&["R"]]));
    for _ in 0..9 {
        rabbit.update(100_000_000);
        assert_eq!(rabbit.position(), (0, 0));
    }
    rabbit.update(100_000_000);
    assert_eq!(rabbit.position(), (1, 0));
}

#[test]
fn rabbit_position_rounds_towards_zero() {
    let mut rabbit = Rabbit::new((0, 0), (-1, 0), sprite(&[&["R"]]));
    rabbit.update(500_000_000);
    assert_eq!(rabbit.position(), (0, 0));
    rabbit.update(500_000_000);
    assert_eq!(rabbit.position(), (-1, 0));
    rabbit.update(999_999_999);
    assert_eq!(rabbit.position(), (-1, 0));
    rabbit.update(1);
    assert_eq!(rabbit.position(), (-2, 0));
}

#[test]
fn rabbit_position_stops_at_the_last_cell() {
    let mut rabbit = Rabbit::new((0, 0), (1, -1), sprite(&[&["R"]]));
    rabbit.update(40_000_000_000_000);
    assert_eq!(rabbit.position(), (i16::MAX, i16::MIN));
    rabbit.update(u128::MAX);
    assert_eq!(rabbit.position(), (i16::MAX, i16::MIN));
}

#[test]
fn rabbit_position_comes_back_from_beyond_the_last_cell() {
    let mut rabbit = Rabbit::new((i16::MAX, 0), (1, 0), sprite(&[&["R"]]));
    rabbit.update(2_000_000_000);
    assert_eq!(rabbit.position(), (i16::MAX, 0));
    let mut back = Rabbit::new((i16::MAX, 0), (-1, 0), sprite(&[&["R"]]));
    back.update(2_000_000_000);
    assert_eq!(back.position(), (i16::MAX - 2, 0));
}

#[test]
fn rabbit_far_away_holds_its_position_when_time_overflows() {
    let mut rabbit = Rabbit::new((0, 0), (i16::MAX, i16::MIN), sprite(&[&["R"]]));
    rabbit.update(u128::MAX);
    rabbit.update(u128::MAX);
    assert_eq!(rabbit.position(), (i16::MAX, i16::MIN));
}

#[test]
fn render_space_is_transparent() {
    let rabbit = Rabbit::new((0, 0), (0, 0), sprite(&[&["X Y", " Z "]]));
    let mut frame = painted(&["abc", "def"]);
    rabbit.render(&mut frame);
    assert_eq!(text(&frame), vec!["XbY", "dZf"]);
}

#[test]
fn render_outside_the_frame_changes_nothing() {
    let before = painted(&["ab", "cd"]);
    for pos in [(2, 0), (0, 2), (-2, 0), (0, -1), (i16::MAX, i16::MAX), (i16::MIN, i16::MIN)] {
        let rabbit = Rabbit::new(pos, (0, 0), sprite(&[&["XX"]]));
        let mut frame = before.clone();
        rabbit.render(&mut frame);
        assert_eq!(frame, before);
    }
}

#[test]
fn render_clips_at_the_edges() {
    let rabbit = Rabbit::new((-1, -1), (0, 0), sprite(&[&["123", "456", "789"]]));
    let mut frame = Frame::new(3, 3);
    rabbit.render(&mut frame);
    assert_eq!(text(&frame), vec!["56 ", "89 ", "   "]);
    let rabbit = Rabbit::new((2, 2), (0, 0), sprite(&[&["123", "456", "789"]]));
    let mut frame = Frame::new(3, 3);
    rabbit.render(&mut frame);
    assert_eq!(text(&frame), vec!["   ", "   ", "  1"]);
}

#[test]
fn render_draws_the_frame_that_is_shown() {
    let mut rabbit = Rabbit::new((0, 0), (0, 0), sprite(&[&["a"], &["b"]]));
    rabbit.update(5);
    let mut frame = Frame::new(1, 1);
    rabbit.render(&mut frame);
    assert_eq!(text(&frame), vec!["b"]);
}

#[test]
fn render_ragged_rows() {
    let rabbit = Rabbit::new((0, 0), (0, 0), sprite(&[&["1", "", "333"]]));
    let mut frame = painted(&["...", "...", "..."]);
    rabbit.render(&mut frame);
    assert_eq!(text(&frame), vec!["1..", "...", "333"]);
}

#[test]
fn rabbit_is_an_actor() {
    let mut rabbit = Rabbit::new((0, 0), (1, 0), sprite(&[&["R"]]));
    let actor: &mut dyn Actor = &mut rabbit;
    actor.update(1_000_000_000);
    let mut frame = Frame::new(2, 1);
    actor.render(&mut frame);
    assert_eq!(text(&frame), vec![" R"]);
}
