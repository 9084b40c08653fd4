//! The application: its configuration, how its parts are put together, and
//! what happens in one frame of the animation.

use crate::actor::Actor;
use crate::ascii::parse::{parse_ascii_art, parsed};
use crate::ascii::sample::{downsample, downsampled};
use crate::ascii::size::{at_least_one, dimensions, fit, fit_dimensions, max_width};
use crate::error::Error;
use crate::frame::{Frame, FrameView};
use crate::rabbit::{Rabbit, RabbitView, Sprite, SpriteView};
use crate::renderer::{screen_text, Renderer, RendererView};
use crate::time::{Clock, ClockError, NANOS_PER_SECOND};
use vstd::prelude::*;

verus! {

/// The animals that can be shown.
#[derive(Debug, Clone, Copy, PartialEq, Eq, Structural)]
pub enum AnimalKind {
    Rabbit,
}

/// What an application is made from: the frame rate, the size of the screen
/// and the animal.
#[derive(Debug, Clone)]
pub struct AppConfig {
    pub fps: u32,
    pub width: u16,
    pub height: u16,
    pub animal: AnimalKind,
}

impl Default for AppConfig {
    fn default() -> (config: AppConfig)
        ensures
            config.fps == 30,
            config.width == 80,
            config.height == 24,
            config.animal == AnimalKind::Rabbit,
    {
        AppConfig { fps: 30, width: 80, height: 24, animal: AnimalKind::Rabbit }
    }
}

/// The most that a sprite may take of a side of `cells` cells: seven eighths
/// of it, and one cell at least.
pub open spec fn sprite_bound(cells: nat) -> nat {
    at_least_one(cells * 7 / 8)
}

/// The rows of the sprite that `art` gives on a screen of the given size:
/// the art, shrunk in proportion until it fits in seven eighths of each side.
pub open spec fn sprite_rows(art: Seq<char>, screen: (nat, nat)) -> Seq<Seq<char>> {
    let rows = parsed(art);
    let size = fit((max_width(rows), rows.len()), (sprite_bound(screen.0), sprite_bound(screen.1)));
    downsampled(rows, size.0, size.1)
}

/// The sprite of one frame that `art` gives on a screen of the given size.
pub fn default_rabbit_sprite(art: &str, frame_size: (u16, u16)) -> (r: Result<Sprite, Error>)
    ensures
        r is Ok,
        r->Ok_0@ == (SpriteView {
            frames: seq![sprite_rows(art@, (frame_size.0 as nat, frame_size.1 as nat))],
            current: 0,
        }),
{
    let raw_lines = parse_ascii_art(art);
    let (raw_w, raw_h) = dimensions(raw_lines.as_slice());

    let frame_w: usize = frame_size.0 as usize;
    let frame_h: usize = frame_size.1 as usize;

    let max_w: usize = if frame_w * 7 / 8 == 0 { 1 } else { frame_w * 7 / 8 };
    let max_h: usize = if frame_h * 7 / 8 == 0 { 1 } else { frame_h * 7 / 8 };
    let (out_w, out_h) = fit_dimensions((raw_w, raw_h), (max_w, max_h));

    let frame = downsample(raw_lines.as_slice(), out_w, out_h);
    let mut frames: Vec<Vec<String>> = Vec::new();
    let ghost rows = frame.deep_view();
    frames.push(frame);
    assert(frames.deep_view() =~= seq![rows]);
    match Sprite::new(frames) {
        Ok(sprite) => Ok(sprite),
        Err(e) => Err(Error::from(e)),
    }
}

/// The mathematical content of an animal.
pub enum AnimalView {
    Rabbit(RabbitView),
}

impl AnimalView {
    /// The animal after `nanos` nanoseconds.
    pub open spec fn updated(self, nanos: nat) -> AnimalView {
        match self {
            AnimalView::Rabbit(rabbit) => AnimalView::Rabbit(rabbit.updated(nanos)),
        }
    }

    /// `frame` with the animal drawn on it.
    pub open spec fn drawn_on(self, frame: FrameView) -> FrameView {
        match self {
            AnimalView::Rabbit(rabbit) => rabbit.drawn_on(frame),
        }
    }
}

/// An animal that an application animates.
#[derive(Debug)]
pub enum Animal {
    Rabbit(Rabbit),
}

impl View for Animal {
    type V = AnimalView;

    open spec fn view(&self) -> AnimalView {
        match self {
            Animal::Rabbit(rabbit) => AnimalView::Rabbit(rabbit@),
        }
    }
}

impl Animal {
    /// Lets `nanos` nanoseconds pass.
    pub fn update(&mut self, nanos: u128)
        ensures
            final(self)@ == old(self)@.updated(nanos as nat),
    {
        match self {
            Animal::Rabbit(rabbit) => rabbit.update(nanos),
        }
    }

    /// Draws the animal on `frame`.
    pub fn render(&self, frame: &mut Frame)
        ensures
            final(frame)@ == self@.drawn_on(old(frame)@),
    {
        match self {
            Animal::Rabbit(rabbit) => rabbit.render(frame),
        }
    }
}

impl Actor for Animal {
    /// Lets `nanos` nanoseconds pass, as the animal itself does.
    fn update(&mut self, nanos: u128)
        ensures
            final(self)@ == old(self)@.updated(nanos as nat),
    {
        Animal::update(self, nanos);
    }

    /// Draws the animal on `frame`, as the animal itself does.
    fn render(&self, frame: &mut Frame)
        ensures
            final(frame)@ == self@.drawn_on(old(frame)@),
    {
        Animal::render(self, frame);
    }
}

/// The mathematical content of an application: its renderer, its animal,
/// and the nanoseconds that a frame lasts.
pub struct AppView {
    pub config: AppConfig,
    pub renderer: RendererView,
    pub animal: AnimalView,
    pub frame_nanos: nat,
}

impl AppView {
    /// The application that `config` describes, with the animal drawn after
    /// `art`: a rabbit in the first cell that moves one cell to the right
    /// each second.
    pub open spec fn starting(config: AppConfig, art: Seq<char>) -> AppView
        recommends
            config.fps > 0,
    {
        let screen = (config.width as nat, config.height as nat);
        AppView {
            config,
            renderer: RendererView {
                size: screen,
                last_frame: FrameView::blank(screen.0, screen.1),
            },
            animal: match config.animal {
                AnimalKind::Rabbit => AnimalView::Rabbit(
                    RabbitView::starting(
                        (0, 0),
                        (1, 0),
                        SpriteView { frames: seq![sprite_rows(art, screen)], current: 0 },
                    ),
                ),
            },
            frame_nanos: NANOS_PER_SECOND as nat / config.fps as nat,
        }
    }

    /// What is on `frame` after a frame of the animation in which `nanos`
    /// nanoseconds have passed: the animal as it then is, on the cleared
    /// frame.
    pub open spec fn painted(self, nanos: nat, frame: FrameView) -> FrameView {
        self.animal.updated(nanos).drawn_on(frame.cleared())
    }

    /// The application after a frame of the animation in which `nanos`
    /// nanoseconds have passed and which was drawn on `frame`.
    pub open spec fn stepped(self, nanos: nat, frame: FrameView) -> AppView {
        AppView {
            config: self.config,
            renderer: RendererView {
                size: self.renderer.size,
                last_frame: self.painted(nanos, frame),
            },
            animal: self.animal.updated(nanos),
            frame_nanos: self.frame_nanos,
        }
    }
}

/// An application: a renderer, a clock, and the animal that they animate.
pub struct App {
    config: AppConfig,
    renderer: Renderer,
    actor: Animal,
    clock: Clock,
}

impl View for App {
    type V = AppView;

    closed spec fn view(&self) -> AppView {
        AppView {
            config: self.config,
            renderer: self.renderer@,
            animal: self.actor@,
            frame_nanos: self.clock.frame_nanos(),
        }
    }
}

impl App {
    /// The application that `config` describes, with the animal drawn after
    /// `art`. A rate of no frames at all is refused.
    pub fn new(config: AppConfig, art: &str) -> (r: Result<App, Error>)
        ensures
            config.fps == 0 ==> r == Err::<App, Error>(
                Error::Clock(ClockError::InvalidFps { fps: config.fps }),
            ),
            config.fps > 0 ==> r is Ok && r->Ok_0@ == AppView::starting(config, art@),
    {
        let renderer = Renderer::new((config.width, config.height));
        let clock = match Clock::from_fps(config.fps) {
            Ok(clock) => clock,
            Err(e) => {
                return Err(Error::from(e));
            },
        };
        let actor = match config.animal {
            AnimalKind::Rabbit => {
                let sprite = match default_rabbit_sprite(art, (config.width, config.height)) {
                    Ok(sprite) => sprite,
                    Err(e) => {
                        return Err(e);
                    },
                };
                Animal::Rabbit(Rabbit::new((0, 0), (1, 0), sprite))
            },
        };
        Ok(App { config, renderer, actor, clock })
    }

    /// What the application was made from.
    pub fn config(&self) -> (config: &AppConfig)
        ensures
            *config == self@.config,
    {
        &self.config
    }

    /// The nanoseconds to wait between two frames.
    pub fn frame_duration(&self) -> (nanos: u64)
        ensures
            nanos == self@.frame_nanos,
    {
        self.clock.frame_duration()
    }

    /// One frame of the animation in which `nanos` nanoseconds have passed:
    /// the animal is moved on by that time and drawn on the cleared `frame`,
    /// and the bytes that paint the frame on the screen are appended to
    /// `out`.
    pub fn advance(&mut self, nanos: u128, frame: &mut Frame, out: &mut Vec<u8>)
        ensures
            final(self)@ == old(self)@.stepped(nanos as nat, old(frame)@),
            final(frame)@ == old(self)@.painted(nanos as nat, old(frame)@),
            final(out)@ == old(out)@ + vstd::utf8::encode_utf8(
                screen_text(final(frame)@, old(self)@.renderer.size),
            ),
    {
        self.actor.update(nanos);
        frame.clear();
        self.actor.render(frame);
        self.renderer.render_to(out, frame);
    }

    /// One frame of the animation, for the time that has passed since the
    /// last one, which is given back in nanoseconds.
    pub fn step(&mut self, frame: &mut Frame, out: &mut Vec<u8>) -> (nanos: u128)
        ensures
            final(self)@ == old(self)@.stepped(nanos as nat, old(frame)@),
            final(frame)@ == old(self)@.painted(nanos as nat, old(frame)@),
            final(out)@ == old(out)@ + vstd::utf8::encode_utf8(
                screen_text(final(frame)@, old(self)@.renderer.size),
            ),
    {
        let nanos = self.clock.tick();
        self.advance(nanos, frame, out);
        nanos
    }
}

} // verus!
