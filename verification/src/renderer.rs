//! The renderer: a frame as the bytes that paint it on a terminal.

use crate::frame::{Frame, FrameView};
use vstd::prelude::*;

verus! {

/// The character shown at `(x, y)`: that of the frame's cell, and a space
/// where the frame has no cell.
pub open spec fn shown_char(frame: FrameView, x: int, y: int) -> char {
    if frame.contains(x, y) {
        frame.at(x, y).ch
    } else {
        ' '
    }
}

/// Row `y` of the screen, `width` characters wide.
pub open spec fn row_text(frame: FrameView, width: nat, y: int) -> Seq<char> {
    Seq::new(width, |x: int| shown_char(frame, x, y))
}

/// The first `rows` rows of the screen, with a line feed between each two.
pub open spec fn rows_text(frame: FrameView, width: nat, rows: nat) -> Seq<char>
    decreases rows,
{
    if rows == 0 {
        Seq::empty()
    } else if rows == 1 {
        row_text(frame, width, 0)
    } else {
        rows_text(frame, width, (rows - 1) as nat).push('\n') + row_text(frame, width, rows - 1)
    }
}

/// What paints the frame on a screen of the given size: the escape sequence
/// that sends the cursor home, then the rows.
pub open spec fn screen_text(frame: FrameView, size: (nat, nat)) -> Seq<char> {
    seq!['\x1b', '[', 'H'] + rows_text(frame, size.0, size.1)
}

/// The mathematical content of a renderer: the size of its screen and the
/// frame that it painted last.
pub struct RendererView {
    pub size: (nat, nat),
    pub last_frame: FrameView,
}

/// Paints frames on a screen of a fixed size.
#[derive(Debug)]
pub struct Renderer {
    size: (u16, u16),
    last_frame: Frame,
}

impl View for Renderer {
    type V = RendererView;

    closed spec fn view(&self) -> RendererView {
        RendererView {
            size: (self.size.0 as nat, self.size.1 as nat),
            last_frame: self.last_frame@,
        }
    }
}

impl Renderer {
    /// A renderer for a screen of the given size that has painted nothing
    /// yet.
    pub fn new(size: (u16, u16)) -> (renderer: Renderer)
        ensures
            renderer@ == (RendererView {
                size: (size.0 as nat, size.1 as nat),
                last_frame: FrameView::blank(size.0 as nat, size.1 as nat),
            }),
    {
        Renderer { size, last_frame: Frame::new(size.0, size.1) }
    }

    /// The width and the height of the screen.
    pub fn size(&self) -> (size: (u16, u16))
        ensures
            size.0 == self@.size.0,
            size.1 == self@.size.1,
    {
        self.size
    }

    /// Appends to `out` the bytes that paint `frame` on the screen, in UTF-8,
    /// and remembers the frame.
    pub fn render_to(&mut self, out: &mut Vec<u8>, frame: &Frame)
        ensures
            final(out)@ == old(out)@ + vstd::utf8::encode_utf8(
                screen_text(frame@, old(self)@.size),
            ),
            final(self)@ == (RendererView { size: old(self)@.size, last_frame: frame@ }),
    {
        let (width, height) = self.size;
        let mut text = String::new();
        text.push('\x1b');
        text.push('[');
        text.push('H');
        let ghost home = text@;
        assert(home =~= seq!['\x1b', '[', 'H']);
        let mut y: u16 = 0;
        while y < height
            invariant
                y <= height,
                text@ == home + rows_text(frame@, width as nat, y as nat),
            decreases height - y,
        {
            if y > 0 {
                text.push('\n');
            }
            let ghost start = text@;
            let mut x: u16 = 0;
            while x < width
                invariant
                    x <= width,
                    text@ == start + row_text(frame@, width as nat, y as int).take(x as int),
                decreases width - x,
            {
                let ch: char = match frame.get(x, y) {
                    Ok(cell) => cell.ch,
                    Err(_) => ' ',
                };
                text.push(ch);
                assert(row_text(frame@, width as nat, y as int).take(x + 1) =~= row_text(
                    frame@,
                    width as nat,
                    y as int,
                ).take(x as int).push(ch));
                x += 1;
            }
            proof {
                let row = row_text(frame@, width as nat, y as int);
                assert(row.take(width as int) =~= row);
                if y == 0 {
                    assert(start =~= home);
                    assert(text@ =~= home + rows_text(frame@, width as nat, 1));
                } else {
                    assert(text@ =~= home + rows_text(frame@, width as nat, (y + 1) as nat));
                }
            }
            y += 1;
        }
        let bytes = text.as_str().as_bytes();
        let mut i: usize = 0;
        while i < bytes.len()
            invariant
                i <= bytes@.len(),
                out@ == old(out)@ + bytes@.take(i as int),
            decreases bytes@.len() - i,
        {
            out.push(bytes[i]);
            assert(bytes@.take(i + 1) =~= bytes@.take(i as int).push(bytes@[i as int]));
            i += 1;
        }
        assert(bytes@.take(i as int) =~= bytes@);
        self.last_frame = frame.clone();
    }
}

} // verus!
