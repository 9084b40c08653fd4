use rabbit::actor::Actor;
use rabbit::app::{default_rabbit_sprite, Animal};
use rabbit::error::Error;
use rabbit::frame::Frame;
use rabbit::rabbit::{Rabbit, Sprite};
use rabbit::time::ClockError;
use rabbit::{AnimalKind, App, AppConfig};

fn config(fps: u32, width: u16, height: u16) -> AppConfig {
    AppConfig { fps, width, height, animal: AnimalKind::Rabbit }
}

#[test]
fn app_config_default() {
    let config = AppConfig::default();
    assert_eq!(config.fps, 30);
    assert_eq!(config.width, 80);
    assert_eq!(config.height, 24);
    assert_eq!(config.animal, AnimalKind::Rabbit);
}

#[test]
fn app_new_refuses_zero_fps() {
    let result = App::new(config(0, 80, 24), "#");
    assert!(matches!(result, Err(Error::Clock(ClockError::InvalidFps { fps: 0 }))));
}

#[test]
fn app_new_keeps_config_and_frame_duration() {
    let app = App::new(config(25, 10, 5), "#").unwrap();
    assert_eq!(app.config().fps, 25);
    assert_eq!(app.config().width, 10);
    assert_eq!(app.config().height, 5);
    assert_eq!(app.frame_duration(), 40_000_000);
}

#[test]
fn default_sprite_fits_in_seven_eighths_of_the_screen() {
    let art = "########\n########\n########\n########\n";
    let sprite = default_rabbit_sprite(art, (8, 8)).unwrap();
    let rows = sprite.current_frame();
    assert_eq!(rows.len(), 4);
    for row in rows {
        assert_eq!(row, "#######");
    }
}

#[test]
fn default_sprite_of_small_art_is_the_art() {
    let sprite = default_rabbit_sprite("ox\n#\n\n", (80, 24)).unwrap();
    assert_eq!(sprite.current_frame(), &["ox".to_string(), "# ".to_string()]);
}

#[test]
fn default_sprite_of_empty_art_is_one_empty_row() {
    let sprite = default_rabbit_sprite("", (80, 24)).unwrap();
    assert_eq!(sprite.current_frame(), &["".to_string()]);
}

#[test]
fn default_sprite_on_screen_without_cells() {
    let sprite = default_rabbit_sprite("##\n##\n", (0, 0)).unwrap();
    assert_eq!(sprite.current_frame(), &["#".to_string()]);
}

#[test]
fn app_advance_moves_and_paints() {
    let mut app = App::new(config(30, 4, 2), "#").unwrap();
    let mut frame = Frame::new(4, 2);
    let mut out = Vec::new();
    app.advance(0, &mut frame, &mut out);
    assert_eq!(out, b"\x1b[H#   \n    ".to_vec());
    out.clear();
    app.advance(2_000_000_000, &mut frame, &mut out);
    assert_eq!(out, b"\x1b[H  # \n    ".to_vec());
    out.clear();
    app.advance(2_000_000_000, &mut frame, &mut out);
    assert_eq!(out, b"\x1b[H    \n    ".to_vec());
}

#[test]
fn app_advance_clears_what_was_on_the_frame() {
    let mut app = App::new(config(30, 2, 1), "").unwrap();
    let mut frame = Frame::new(2, 1);
    frame.set(1, 0, rabbit::frame::Cell::from_char('z')).unwrap();
    let mut out = Vec::new();
    app.advance(1, &mut frame, &mut out);
    assert_eq!(frame, Frame::new(2, 1));
    assert_eq!(out, b"\x1b[H  ".to_vec());
}

#[test]
fn app_step_paints_one_frame() {
    let mut app = App::new(config(30, 3, 1), "#").unwrap();
    let mut frame = Frame::new(3, 1);
    let mut out = Vec::new();
    let nanos = app.step(&mut frame, &mut out);
    assert!(nanos < 1_000_000_000);
    assert_eq!(out, b"\x1b[H#  ".to_vec());
}

#[test]
fn animal_updates_and_draws_as_its_rabbit() {
    let sprite = Sprite::new(vec![vec!["R".to_string()]]).unwrap();
    let mut animal = Animal::Rabbit(Rabbit::new((0, 0), (1, 0), sprite.clone()));
    let mut rabbit = Rabbit::new((0, 0), (1, 0), sprite);
    Actor::update(&mut animal, 1_000_000_000);
    rabbit.update(1_000_000_000);
    let mut by_animal = Frame::new(2, 1);
    let mut by_rabbit = Frame::new(2, 1);
    Actor::render(&animal, &mut by_animal);
    rabbit.render(&mut by_rabbit);
    assert_eq!(by_animal, by_rabbit);
    assert_eq!(by_animal.get(1, 0).unwrap().ch, 'R');
}
