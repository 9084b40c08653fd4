//! Stamping: rows of characters written on a frame at an offset, with
//! spaces that let through what is beneath them.

use crate::frame::{
    lemma_index_in_range, lemma_same_cells_same_frame, lemma_with_cell_reads, Cell, Frame,
    FrameView,
};
use crate::text::chars_of;
use vstd::prelude::*;

verus! {

/// The cell at `(x, y)` once the rows have been stamped on the frame with
/// their first character at `(ox, oy)`. A character of the rows that is no
/// space takes the place of the cell beneath it. A space, and a place where
/// the rows have nothing, leave the cell as it was.
pub open spec fn stamped_cell(
    frame: FrameView,
    rows: Seq<Seq<char>>,
    ox: int,
    oy: int,
    x: int,
    y: int,
) -> Cell {
    if 0 <= y - oy < rows.len() && 0 <= x - ox < rows[y - oy].len() && rows[y - oy][x - ox]
        != ' ' {
        Cell::of(rows[y - oy][x - ox])
    } else {
        frame.at(x, y)
    }
}

/// The frame once the rows have been stamped on it with their first
/// character at `(ox, oy)`. What falls outside the frame is left out.
pub open spec fn stamped(frame: FrameView, rows: Seq<Seq<char>>, ox: int, oy: int) -> FrameView {
    FrameView {
        width: frame.width,
        height: frame.height,
        cells: Seq::new(
            frame.cells.len(),
            |i: int|
                stamped_cell(
                    frame,
                    rows,
                    ox,
                    oy,
                    i % (frame.width as int),
                    i / (frame.width as int),
                ),
        ),
    }
}

/// Each cell of a stamped frame is the stamped cell of its coordinate.
pub proof fn lemma_stamped_at(
    frame: FrameView,
    rows: Seq<Seq<char>>,
    ox: int,
    oy: int,
    x: int,
    y: int,
)
    requires
        frame.wf(),
        frame.contains(x, y),
    ensures
        stamped(frame, rows, ox, oy).wf(),
        stamped(frame, rows, ox, oy).at(x, y) == stamped_cell(frame, rows, ox, oy, x, y),
{
    let w = frame.width as int;
    lemma_index_in_range(frame.width, frame.height, x, y);
    vstd::arithmetic::div_mod::lemma_fundamental_div_mod_converse(y * w + x, w, y, x);
}

/// A space of the rows leaves the cell beneath it as it was.
pub proof fn lemma_space_is_transparent(
    frame: FrameView,
    rows: Seq<Seq<char>>,
    ox: int,
    oy: int,
    x: int,
    y: int,
)
    requires
        frame.wf(),
        frame.contains(x, y),
        0 <= y - oy < rows.len(),
        0 <= x - ox < rows[y - oy].len(),
        rows[y - oy][x - ox] == ' ',
    ensures
        stamped(frame, rows, ox, oy).at(x, y) == frame.at(x, y),
{
    lemma_stamped_at(frame, rows, ox, oy, x, y);
}

/// Rows that lie outside the frame altogether leave the frame as it was.
pub proof fn lemma_stamp_outside_changes_nothing(
    frame: FrameView,
    rows: Seq<Seq<char>>,
    ox: int,
    oy: int,
)
    requires
        frame.wf(),
        ox >= frame.width || oy >= frame.height || oy + rows.len() <= 0 || forall|dy: int|
            0 <= dy < rows.len() ==> ox + (#[trigger] rows[dy]).len() <= 0,
    ensures
        stamped(frame, rows, ox, oy) == frame,
{
    assert forall|x: int, y: int| frame.contains(x, y) implies stamped(frame, rows, ox, oy).at(
        x,
        y,
    ) == frame.at(x, y) by {
        lemma_stamped_at(frame, rows, ox, oy, x, y);
    }
    if frame.cells.len() > 0 {
        assert(frame.width > 0 && frame.height > 0) by (nonlinear_arith)
            requires
                frame.width * frame.height > 0,
        ;
        lemma_stamped_at(frame, rows, ox, oy, 0, 0);
    }
    lemma_same_cells_same_frame(stamped(frame, rows, ox, oy), frame);
}

/// The frame while the rows are being stamped on it: the rows before `dy`
/// are done, and of row `dy` the characters before `dx`.
spec fn stamped_so_far(
    frame: FrameView,
    rows: Seq<Seq<char>>,
    ox: int,
    oy: int,
    dy: int,
    dx: int,
    x: int,
    y: int,
) -> Cell {
    if y - oy < dy || (y - oy == dy && x - ox < dx) {
        stamped_cell(frame, rows, ox, oy, x, y)
    } else {
        frame.at(x, y)
    }
}

/// Stamps `lines` on `frame`, their first character at the cell `origin`.
/// Spaces leave what is beneath them, and what falls outside `frame` is left
/// out.
pub fn stamp(frame: &mut Frame, lines: &[String], origin: (i16, i16))
    ensures
        final(frame)@ == stamped(
            old(frame)@,
            lines.deep_view(),
            origin.0 as int,
            origin.1 as int,
        ),
{
    let (width, height) = frame.size();
    let (origin_x, origin_y) = origin;
    let ghost rows = lines.deep_view();
    let ghost ox = origin_x as int;
    let ghost oy = origin_y as int;
    let ghost before = frame@;
    proof {
        use_type_invariant(&*frame);
    }
    let mut dy: usize = 0;
    while dy < lines.len()
        invariant
            dy <= lines@.len(),
            rows == lines.deep_view(),
            ox == origin_x,
            oy == origin_y,
            before.wf(),
            frame@.wf(),
            frame@.width == before.width == width,
            frame@.height == before.height == height,
            forall|x: int, y: int|
                before.contains(x, y) ==> #[trigger] frame@.at(x, y) == stamped_so_far(
                    before,
                    rows,
                    ox,
                    oy,
                    dy as int,
                    0,
                    x,
                    y,
                ),
        decreases lines@.len() - dy,
    {
        let y: i128 = origin_y as i128 + dy as i128;
        let ghost row = rows[dy as int];
        assert(row == lines@[dy as int]@);
        if 0 <= y && y < height as i128 {
            let chars = chars_of(lines[dy].as_str());
            let mut dx: usize = 0;
            while dx < chars.len()
                invariant
                    dx <= chars@.len(),
                    chars@ == row,
                    row == rows[dy as int],
                    dy < rows.len(),
                    y == oy + dy,
                    ox == origin_x,
                    0 <= y < height,
                    before.wf(),
                    frame@.wf(),
                    frame@.width == before.width == width,
                    frame@.height == before.height == height,
                    forall|x: int, v: int|
                        before.contains(x, v) ==> #[trigger] frame@.at(x, v)
                            == stamped_so_far(before, rows, ox, oy, dy as int, dx as int, x, v),
                decreases chars@.len() - dx,
            {
                let ch: char = chars[dx];
                let x: i128 = origin_x as i128 + dx as i128;
                if ch != ' ' && 0 <= x && x < width as i128 {
                    let ghost earlier = frame@;
                    let _ = frame.set(x as u16, y as u16, Cell::from_char(ch));
                    proof {
                        lemma_with_cell_reads(earlier, x as int, y as int, Cell::of(ch));
                    }
                }
                dx += 1;
            }
        }
        dy += 1;
    }
    proof {
        assert forall|x: int, y: int| before.contains(x, y) implies frame@.at(x, y) == stamped(
            before,
            rows,
            ox,
            oy,
        ).at(x, y) by {
            lemma_stamped_at(before, rows, ox, oy, x, y);
        }
        if before.cells.len() > 0 {
            assert(before.width > 0 && before.height > 0) by (nonlinear_arith)
                requires
                    before.width * before.height > 0,
            ;
            lemma_stamped_at(before, rows, ox, oy, 0, 0);
        }
        lemma_same_cells_same_frame(frame@, stamped(before, rows, ox, oy));
    }
}

} // verus!
