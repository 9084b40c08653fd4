//! The rabbit: a sprite that cycles through its frames and moves across the
//! frame buffer at a constant velocity.

use crate::actor::Actor;
use crate::frame::{Frame, FrameView};
use crate::motion::{lemma_moved, Position, PositionView};
use crate::stamp::{stamp, stamped};
use vstd::prelude::*;

verus! {

/// Why a sprite could not be made.
#[derive(Debug, Clone, PartialEq, Eq)]
pub enum SpriteError {
    EmptyFrames,
}

impl SpriteError {
    /// What the error says.
    pub open spec fn text(self) -> Seq<char> {
        match self {
            SpriteError::EmptyFrames => "sprite frames must not be empty"@,
        }
    }

    /// What the error says.
    pub fn message(&self) -> (text: String)
        ensures
            text@ == self.text(),
    {
        match self {
            SpriteError::EmptyFrames => "sprite frames must not be empty".to_owned(),
        }
    }
}

/// The mathematical content of a sprite: its frames, each as rows of
/// characters, and the place of the frame that is shown.
pub struct SpriteView {
    pub frames: Seq<Seq<Seq<char>>>,
    pub current: nat,
}

impl SpriteView {
    /// There is a frame at least, and the one shown is one of them.
    pub open spec fn wf(self) -> bool {
        self.current < self.frames.len()
    }

    /// The frame that is shown.
    pub open spec fn current_frame(self) -> Seq<Seq<char>>
        recommends
            self.wf(),
    {
        self.frames[self.current as int]
    }

    /// The sprite one frame on: behind the last frame comes the first.
    pub open spec fn advanced(self) -> SpriteView
        recommends
            self.wf(),
    {
        SpriteView { current: (self.current + 1) % self.frames.len(), ..self }
    }

    /// The sprite `steps` frames on.
    pub open spec fn advanced_by(self, steps: nat) -> SpriteView
        recommends
            self.wf(),
        decreases steps,
    {
        if steps == 0 {
            self
        } else {
            self.advanced_by((steps - 1) as nat).advanced()
        }
    }
}

/// Going `steps` frames on adds `steps` to the place of the frame shown,
/// counted round the frames.
pub proof fn lemma_advanced_by(sprite: SpriteView, steps: nat)
    requires
        sprite.wf(),
    ensures
        sprite.advanced_by(steps).wf(),
        sprite.advanced_by(steps).frames == sprite.frames,
        sprite.advanced_by(steps).current == (sprite.current + steps) % sprite.frames.len(),
    decreases steps,
{
    let n = sprite.frames.len() as int;
    if steps == 0 {
        vstd::arithmetic::div_mod::lemma_small_mod(sprite.current, n as nat);
    } else {
        lemma_advanced_by(sprite, (steps - 1) as nat);
        vstd::arithmetic::div_mod::lemma_add_mod_noop(sprite.current + steps - 1, 1, n);
        vstd::arithmetic::div_mod::lemma_mod_twice(sprite.current + steps - 1, n);
        vstd::arithmetic::div_mod::lemma_add_mod_noop((sprite.current + steps - 1) % n, 1, n);
        vstd::arithmetic::div_mod::lemma_mod_bound((sprite.current + steps) as int, n);
    }
}

/// A sprite shows its first frame again after as many steps as it has
/// frames, and not before.
pub proof fn lemma_advance_cycles(sprite: SpriteView)
    requires
        sprite.wf(),
    ensures
        sprite.advanced_by(sprite.frames.len()) == sprite,
        forall|steps: nat|
            0 < steps < sprite.frames.len() ==> (#[trigger] sprite.advanced_by(steps)).current
                != sprite.current,
{
    let n = sprite.frames.len() as int;
    let c = sprite.current as int;
    lemma_advanced_by(sprite, n as nat);
    vstd::arithmetic::div_mod::lemma_mod_add_multiples_vanish(c, n);
    vstd::arithmetic::div_mod::lemma_small_mod(c as nat, n as nat);
    assert forall|steps: nat| 0 < steps < n implies (#[trigger] sprite.advanced_by(steps)).current
        != sprite.current by {
        lemma_advanced_by(sprite, steps);
        if c + steps < n {
            vstd::arithmetic::div_mod::lemma_small_mod((c + steps) as nat, n as nat);
        } else {
            vstd::arithmetic::div_mod::lemma_mod_sub_multiples_vanish(c + steps, n);
            vstd::arithmetic::div_mod::lemma_small_mod((c + steps - n) as nat, n as nat);
        }
    }
}

/// One or more frames of rows of characters, one of which is shown.
#[derive(Debug, PartialEq, Eq)]
pub struct Sprite {
    frames: Vec<Vec<String>>,
    current: usize,
}

impl View for Sprite {
    type V = SpriteView;

    closed spec fn view(&self) -> SpriteView {
        SpriteView { frames: self.frames.deep_view(), current: self.current as nat }
    }
}

/// A copy of the rows.
fn clone_rows(rows: &Vec<String>) -> (copy: Vec<String>)
    ensures
        copy.deep_view() == rows.deep_view(),
{
    let mut copy: Vec<String> = Vec::new();
    let mut i: usize = 0;
    while i < rows.len()
        invariant
            i <= rows@.len(),
            copy@.len() == i,
            forall|k: int| 0 <= k < i ==> (#[trigger] copy@[k])@ == rows@[k]@,
        decreases rows@.len() - i,
    {
        copy.push(rows[i].clone());
        i += 1;
    }
    assert(copy.deep_view() =~= rows.deep_view());
    copy
}

impl Clone for Sprite {
    fn clone(&self) -> (sprite: Sprite)
        ensures
            sprite@ == self@,
    {
        proof {
            use_type_invariant(self);
        }
        let mut frames: Vec<Vec<String>> = Vec::new();
        let mut i: usize = 0;
        while i < self.frames.len()
            invariant
                i <= self.frames@.len(),
                frames@.len() == i,
                forall|k: int|
                    0 <= k < i ==> (#[trigger] frames@[k]).deep_view()
                        == self.frames@[k].deep_view(),
            decreases self.frames@.len() - i,
        {
            frames.push(clone_rows(&self.frames[i]));
            i += 1;
        }
        assert(frames.deep_view() =~= self.frames.deep_view());
        Sprite { frames, current: self.current }
    }
}

impl Sprite {
    #[verifier::type_invariant]
    pub open spec fn well_formed(&self) -> bool {
        self@.wf()
    }

    /// The sprite of the given frames, showing the first. Without a frame
    /// there is no sprite.
    pub fn new(frames: Vec<Vec<String>>) -> (r: Result<Sprite, SpriteError>)
        ensures
            frames@.len() == 0 ==> r == Err::<Sprite, SpriteError>(SpriteError::EmptyFrames),
            frames@.len() > 0 ==> r is Ok && r->Ok_0@ == (SpriteView {
                frames: frames.deep_view(),
                current: 0,
            }),
    {
        if frames.len() == 0 {
            return Err(SpriteError::EmptyFrames);
        }
        Ok(Sprite { frames, current: 0 })
    }

    /// The rows of the frame that is shown.
    pub fn current_frame(&self) -> (rows: &[String])
        ensures
            rows.deep_view() == self@.current_frame(),
    {
        proof {
            use_type_invariant(self);
            assert(self.frames.deep_view().len() == self.frames@.len());
        }
        let rows = self.frames[self.current].as_slice();
        assert(rows.deep_view() =~= self.frames.deep_view()[self.current as int]);
        rows
    }

    /// Shows the next frame, and the first one after the last.
    pub fn advance(&mut self)
        ensures
            final(self)@ == old(self)@.advanced(),
        no_unwind
    {
        proof {
            use_type_invariant(&*self);
            assert(self.frames.deep_view().len() == self.frames@.len());
        }
        let count: usize = self.frames.len();
        self.current = (self.current + 1) % count;
    }
}

/// The mathematical content of a rabbit: where it is, its velocity in cells
/// per second, and its sprite.
pub struct RabbitView {
    pub place: PositionView,
    pub velocity: (int, int),
    pub sprite: SpriteView,
}

impl RabbitView {
    /// The place and the sprite are sound, and the velocity fits in its
    /// machine integers.
    pub open spec fn wf(self) -> bool {
        &&& self.place.wf()
        &&& i16::MIN <= self.velocity.0 <= i16::MAX
        &&& i16::MIN <= self.velocity.1 <= i16::MAX
        &&& self.sprite.wf()
    }

    /// The rabbit that starts at the cell `pos`.
    pub open spec fn starting(pos: (int, int), velocity: (int, int), sprite: SpriteView)
        -> RabbitView {
        RabbitView { place: PositionView::at_cell(pos), velocity, sprite }
    }

    /// The rabbit after `nanos` nanoseconds. After no time at all it is as
    /// before. After any other time it has moved by its velocity and shows its
    /// next frame.
    pub open spec fn updated(self, nanos: nat) -> RabbitView {
        if nanos == 0 {
            self
        } else {
            RabbitView {
                place: self.place.moved(self.velocity, nanos),
                velocity: self.velocity,
                sprite: self.sprite.advanced(),
            }
        }
    }

    /// `frame` with the rabbit drawn on it.
    pub open spec fn drawn_on(self, frame: FrameView) -> FrameView {
        stamped(frame, self.sprite.current_frame(), self.place.cell.0, self.place.cell.1)
    }
}

/// A rabbit does not change at all when no time passes. When any time
/// passes it shows its next frame, and stays in its cell if it has no
/// velocity.
pub proof fn lemma_update_at_rest(rabbit: RabbitView, nanos: nat)
    requires
        rabbit.wf(),
    ensures
        rabbit.updated(0) == rabbit,
        rabbit.velocity == (0int, 0int) ==> rabbit.updated(nanos).place == rabbit.place,
        nanos > 0 ==> rabbit.updated(nanos).sprite == rabbit.sprite.advanced(),
{
    lemma_moved(rabbit.place, rabbit.velocity, nanos);
}

/// An update keeps a rabbit sound.
pub proof fn lemma_updated_wf(rabbit: RabbitView, nanos: nat)
    requires
        rabbit.wf(),
    ensures
        rabbit.updated(nanos).wf(),
{
    lemma_moved(rabbit.place, rabbit.velocity, nanos);
    if nanos > 0 {
        vstd::arithmetic::div_mod::lemma_mod_bound(
            rabbit.sprite.current as int + 1,
            rabbit.sprite.frames.len() as int,
        );
    }
}

/// A rabbit: a sprite at a cell of the frame buffer, moving at a constant
/// velocity.
#[derive(Debug, PartialEq, Eq)]
pub struct Rabbit {
    place: Position,
    velocity: (i16, i16),
    sprite: Sprite,
}

impl View for Rabbit {
    type V = RabbitView;

    closed spec fn view(&self) -> RabbitView {
        RabbitView {
            place: self.place@,
            velocity: (self.velocity.0 as int, self.velocity.1 as int),
            sprite: self.sprite@,
        }
    }
}

impl Clone for Rabbit {
    fn clone(&self) -> (rabbit: Rabbit)
        ensures
            rabbit@ == self@,
    {
        proof {
            use_type_invariant(self);
        }
        Rabbit { place: self.place, velocity: self.velocity, sprite: self.sprite.clone() }
    }
}

impl Rabbit {
    #[verifier::type_invariant]
    pub open spec fn well_formed(&self) -> bool {
        self@.wf()
    }

    /// A rabbit at the cell `pos` that moves `velocity` cells each second.
    pub fn new(pos: (i16, i16), velocity: (i16, i16), sprite: Sprite) -> (rabbit: Rabbit)
        ensures
            rabbit@ == RabbitView::starting(
                (pos.0 as int, pos.1 as int),
                (velocity.0 as int, velocity.1 as int),
                sprite@,
            ),
    {
        let place = Position::at_cell(pos);
        proof {
            use_type_invariant(&sprite);
            use_type_invariant(&place);
        }
        Rabbit { place, velocity, sprite }
    }

    /// The cell at which the rabbit is drawn.
    pub fn position(&self) -> (pos: (i16, i16))
        ensures
            pos.0 == self@.place.cell.0,
            pos.1 == self@.place.cell.1,
    {
        self.place.cell()
    }

    /// Lets `nanos` nanoseconds pass. After no time at all nothing changes.
    /// After any other time the rabbit has moved by its velocity and shows
    /// its next frame, also where its velocity is none.
    pub fn update(&mut self, nanos: u128)
        ensures
            final(self)@ == old(self)@.updated(nanos as nat),
            nanos == 0 ==> final(self)@ == old(self)@,
            old(self)@.velocity == (0int, 0int) ==> final(self)@.place == old(self)@.place,
            nanos > 0 ==> final(self)@.sprite == old(self)@.sprite.advanced(),
    {
        proof {
            use_type_invariant(&*self);
            lemma_update_at_rest(self@, nanos as nat);
        }
        if nanos > 0 {
            let place = self.place.moved(self.velocity, nanos);
            proof {
                use_type_invariant(&place);
            }
            self.place = place;
            self.sprite.advance();
        }
    }

    /// Stamps the frame that the sprite shows on `frame`, its first character
    /// at the rabbit's cell. Spaces leave what is beneath them, and what falls
    /// outside `frame` is left out.
    pub fn render(&self, frame: &mut Frame)
        ensures
            final(frame)@ == self@.drawn_on(old(frame)@),
    {
        stamp(frame, self.sprite.current_frame(), self.place.cell());
    }
}

impl Actor for Rabbit {
    /// Lets `nanos` nanoseconds pass, as the rabbit itself does: after no
    /// time at all nothing changes, and after any other time the rabbit has
    /// moved by its velocity and shows its next frame.
    fn update(&mut self, nanos: u128)
        ensures
            final(self)@ == old(self)@.updated(nanos as nat),
            nanos == 0 ==> final(self)@ == old(self)@,
            old(self)@.velocity == (0int, 0int) ==> final(self)@.place == old(self)@.place,
            nanos > 0 ==> final(self)@.sprite == old(self)@.sprite.advanced(),
    {
        Rabbit::update(self, nanos);
    }

    /// Stamps the frame that the sprite shows on `frame`, as the rabbit
    /// itself does.
    fn render(&self, frame: &mut Frame)
        ensures
            final(frame)@ == self@.drawn_on(old(frame)@),
    {
        Rabbit::render(self, frame);
    }
}

} // verus!
