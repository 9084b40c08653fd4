//! The frame buffer: a fixed-size grid of display cells with bounds-checked
//! access.

use crate::text::{decimal, decimal_string};
use vstd::prelude::*;

verus! {

/// The style of a cell. There is only one style so far.
#[derive(Debug, Clone, Copy, PartialEq, Eq, Default, Structural)]
pub struct CellStyle;

/// One display cell: a character and its style.
#[derive(Debug, PartialEq, Eq, Structural)]
pub struct Cell {
    pub ch: char,
    pub style: CellStyle,
}

impl Clone for Cell {
    fn clone(&self) -> (cell: Cell)
        ensures
            cell == *self,
    {
        Cell { ch: self.ch, style: self.style }
    }
}

impl Cell {
    /// The blank cell: a space in the default style.
    pub open spec fn blank() -> Cell {
        Cell { ch: ' ', style: CellStyle }
    }

    /// The cell that shows `ch` in the default style.
    pub open spec fn of(ch: char) -> Cell {
        Cell { ch, style: CellStyle }
    }

    /// The cell that shows `ch` in the default style.
    pub fn from_char(ch: char) -> (cell: Cell)
        ensures
            cell == Cell::of(ch),
    {
        Cell { ch, style: CellStyle }
    }
}

impl Default for Cell {
    fn default() -> (cell: Cell)
        ensures
            cell == Cell::blank(),
    {
        Cell { ch: ' ', style: CellStyle }
    }
}

/// Why a frame refused a coordinate.
#[derive(Debug, Clone, PartialEq, Eq)]
pub enum FrameError {
    OutOfBounds { x: u16, y: u16, width: u16, height: u16 },
}

impl FrameError {
    /// What the error says.
    pub open spec fn text(self) -> Seq<char> {
        match self {
            FrameError::OutOfBounds { x, y, width, height } => "out of bounds: x="@ + decimal(
                x as nat,
            ) + " y="@ + decimal(y as nat) + " for frame size "@ + decimal(width as nat) + "x"@
                + decimal(height as nat),
        }
    }

    /// What the error says.
    pub fn message(&self) -> (text: String)
        ensures
            text@ == self.text(),
    {
        match self {
            FrameError::OutOfBounds { x, y, width, height } => {
                let mut text = "out of bounds: x=".to_owned();
                text.append(decimal_string(*x as u64).as_str());
                text.append(" y=");
                text.append(decimal_string(*y as u64).as_str());
                text.append(" for frame size ");
                text.append(decimal_string(*width as u64).as_str());
                text.append("x");
                text.append(decimal_string(*height as u64).as_str());
                text
            },
        }
    }
}

/// The mathematical content of a frame: its size and its cells in row-major
/// order.
pub struct FrameView {
    pub width: nat,
    pub height: nat,
    pub cells: Seq<Cell>,
}

impl FrameView {
    /// There is exactly one cell for each coordinate, and every coordinate
    /// fits in sixteen bits.
    pub open spec fn wf(self) -> bool {
        &&& self.width <= u16::MAX
        &&& self.height <= u16::MAX
        &&& self.cells.len() == self.width * self.height
    }

    /// Whether `(x, y)` addresses a cell.
    pub open spec fn contains(self, x: int, y: int) -> bool {
        0 <= x < self.width && 0 <= y < self.height
    }

    /// The cell at `(x, y)`.
    pub open spec fn at(self, x: int, y: int) -> Cell
        recommends
            self.contains(x, y),
    {
        self.cells[y * self.width + x]
    }

    /// The frame of the given size in which every cell is blank.
    pub open spec fn blank(width: nat, height: nat) -> FrameView {
        FrameView { width, height, cells: Seq::new(width * height, |i: int| Cell::blank()) }
    }

    /// The same frame with every cell blank.
    pub open spec fn cleared(self) -> FrameView {
        FrameView::blank(self.width, self.height)
    }

    /// The same frame with `cell` at `(x, y)`.
    pub open spec fn with_cell(self, x: int, y: int, cell: Cell) -> FrameView
        recommends
            self.contains(x, y),
    {
        FrameView { cells: self.cells.update(y * self.width + x, cell), ..self }
    }

    /// The bounds error that a frame of this size gives for `(x, y)`.
    pub open spec fn out_of_bounds(self, x: u16, y: u16) -> FrameError {
        FrameError::OutOfBounds { x, y, width: self.width as u16, height: self.height as u16 }
    }
}

/// Each coordinate of a well-formed frame has a storage slot of its own.
pub proof fn lemma_index_in_range(width: nat, height: nat, x: int, y: int)
    requires
        0 <= x < width,
        0 <= y < height,
    ensures
        0 <= y * width + x < width * height,
{
    assert(0 <= y * width) by (nonlinear_arith)
        requires
            0 <= y,
            0 <= width,
    ;
    assert(y * width + width <= height * width) by (nonlinear_arith)
        requires
            y + 1 <= height,
            0 <= width,
    ;
    assert(height * width == width * height) by (nonlinear_arith);
}

/// Reading any cell of a frame that was just cleared gives the blank cell.
pub proof fn lemma_cleared_reads_blank(frame: FrameView, x: int, y: int)
    requires
        frame.wf(),
        frame.contains(x, y),
    ensures
        frame.cleared().wf(),
        frame.cleared().contains(x, y),
        frame.cleared().at(x, y) == Cell::blank(),
{
    lemma_index_in_range(frame.width, frame.height, x, y);
}

/// A cell that was written is read back, and every other cell is as before.
pub proof fn lemma_with_cell_reads(frame: FrameView, x: int, y: int, cell: Cell)
    requires
        frame.wf(),
        frame.contains(x, y),
    ensures
        frame.with_cell(x, y, cell).wf(),
        frame.with_cell(x, y, cell).width == frame.width,
        frame.with_cell(x, y, cell).height == frame.height,
        forall|u: int, v: int|
            frame.contains(u, v) ==> #[trigger] frame.with_cell(x, y, cell).at(u, v) == if u == x
                && v == y {
                cell
            } else {
                frame.at(u, v)
            },
{
    lemma_index_in_range(frame.width, frame.height, x, y);
    assert forall|u: int, v: int| frame.contains(u, v) implies #[trigger] frame.with_cell(
        x,
        y,
        cell,
    ).at(u, v) == if u == x && v == y {
        cell
    } else {
        frame.at(u, v)
    } by {
        lemma_index_in_range(frame.width, frame.height, u, v);
        if v != y {
            assert(y * frame.width + x != v * frame.width + u) by (nonlinear_arith)
                requires
                    v != y,
                    0 <= x < frame.width,
                    0 <= u < frame.width,
            ;
        }
    }
}

/// Two frames of one size that show the same cell at every coordinate are
/// the same frame.
pub proof fn lemma_same_cells_same_frame(a: FrameView, b: FrameView)
    requires
        a.wf(),
        b.wf(),
        a.width == b.width,
        a.height == b.height,
        forall|x: int, y: int| a.contains(x, y) ==> a.at(x, y) == b.at(x, y),
    ensures
        a == b,
{
    assert forall|i: int| 0 <= i < a.cells.len() implies a.cells[i] == b.cells[i] by {
        let w = a.width as int;
        assert(w > 0) by (nonlinear_arith)
            requires
                0 <= i < w * a.height,
                0 <= w,
        ;
        vstd::arithmetic::div_mod::lemma_fundamental_div_mod(i, w);
        vstd::arithmetic::div_mod::lemma_mod_bound(i, w);
        vstd::arithmetic::div_mod::lemma_div_pos_is_pos(i, w);
        vstd::arithmetic::div_mod::lemma_multiply_divide_lt(i, w, a.height as int);
        assert(a.contains(i % w, i / w));
        assert((i / w) * w + i % w == i) by (nonlinear_arith)
            requires
                i == w * (i / w) + i % w,
        ;
        assert(a.at(i % w, i / w) == a.cells[i]);
    }
    assert(a.cells =~= b.cells);
}

/// A fixed-size grid of cells.
#[derive(Debug, PartialEq, Eq)]
pub struct Frame {
    width: u16,
    height: u16,
    cells: Vec<Cell>,
}

impl View for Frame {
    type V = FrameView;

    closed spec fn view(&self) -> FrameView {
        FrameView { width: self.width as nat, height: self.height as nat, cells: self.cells@ }
    }
}

impl Clone for Frame {
    fn clone(&self) -> (frame: Frame)
        ensures
            frame@ == self@,
    {
        proof {
            use_type_invariant(self);
        }
        let mut cells: Vec<Cell> = Vec::new();
        let mut i: usize = 0;
        while i < self.cells.len()
            invariant
                i <= self.cells@.len(),
                cells@ == self.cells@.take(i as int),
            decreases self.cells@.len() - i,
        {
            cells.push(self.cells[i].clone());
            assert(self.cells@.take(i + 1) == self.cells@.take(i as int).push(
                self.cells@[i as int],
            ));
            i += 1;
        }
        assert(self.cells@.take(i as int) == self.cells@);
        Frame { width: self.width, height: self.height, cells }
    }
}

impl Frame {
    #[verifier::type_invariant]
    pub open spec fn well_formed(&self) -> bool {
        self@.wf()
    }

    /// A frame of the given size with every cell blank.
    pub fn new(width: u16, height: u16) -> (frame: Frame)
        ensures
            frame@ == FrameView::blank(width as nat, height as nat),
    {
        assert(width as nat * height as nat <= 0xffff * 0xffff) by (nonlinear_arith)
            requires
                width <= 0xffff,
                height <= 0xffff,
        ;
        let len: usize = (width as usize) * (height as usize);
        let mut cells: Vec<Cell> = Vec::new();
        let mut i: usize = 0;
        while i < len
            invariant
                i <= len,
                cells@.len() == i,
                forall|k: int| 0 <= k < i ==> cells@[k] == Cell::blank(),
            decreases len - i,
        {
            cells.push(Cell::default());
            i += 1;
        }
        assert(cells@ =~= FrameView::blank(width as nat, height as nat).cells);
        Frame { width, height, cells }
    }

    /// The width and the height.
    pub fn size(&self) -> (size: (u16, u16))
        ensures
            size.0 == self@.width,
            size.1 == self@.height,
    {
        (self.width, self.height)
    }

    /// Makes every cell blank again.
    pub fn clear(&mut self)
        ensures
            final(self)@ == old(self)@.cleared(),
    {
        proof {
            use_type_invariant(&*self);
        }
        let len: usize = self.cells.len();
        let mut i: usize = 0;
        while i < len
            invariant
                i <= len,
                self.width == old(self).width,
                self.height == old(self).height,
                self.cells@.len() == len,
                len == self.width as nat * self.height as nat,
                forall|k: int| 0 <= k < i ==> self.cells@[k] == Cell::blank(),
            decreases len - i,
        {
            self.cells[i] = Cell::default();
            i += 1;
        }
        assert(self.cells@ =~= old(self)@.cleared().cells);
    }

    /// The cell at `(x, y)`, or a bounds error where there is none.
    pub fn get(&self, x: u16, y: u16) -> (r: Result<&Cell, FrameError>)
        ensures
            self@.contains(x as int, y as int) ==> r is Ok && *r->Ok_0 == self@.at(
                x as int,
                y as int,
            ),
            !self@.contains(x as int, y as int) ==> r == Err::<&Cell, FrameError>(
                self@.out_of_bounds(x, y),
            ),
    {
        match self.index(x, y) {
            Ok(index) => Ok(&self.cells[index]),
            Err(e) => Err(e),
        }
    }

    /// Puts `cell` at `(x, y)`, or gives a bounds error and changes nothing.
    pub fn set(&mut self, x: u16, y: u16, cell: Cell) -> (r: Result<(), FrameError>)
        ensures
            old(self)@.contains(x as int, y as int) ==> r is Ok && final(self)@ == old(
                self,
            )@.with_cell(x as int, y as int, cell),
            !old(self)@.contains(x as int, y as int) ==> r == Err::<(), FrameError>(
                old(self)@.out_of_bounds(x, y),
            ) && final(self)@ == old(self)@,
    {
        proof {
            use_type_invariant(&*self);
        }
        match self.index(x, y) {
            Ok(index) => {
                self.cells[index] = cell;
                Ok(())
            },
            Err(e) => Err(e),
        }
    }

    /// The storage slot of `(x, y)`.
    fn index(&self, x: u16, y: u16) -> (r: Result<usize, FrameError>)
        ensures
            self@.contains(x as int, y as int) ==> r is Ok && r->Ok_0 == y * self@.width + x
                && r->Ok_0 < self.cells@.len(),
            !self@.contains(x as int, y as int) ==> r == Err::<usize, FrameError>(
                self@.out_of_bounds(x, y),
            ),
    {
        proof {
            use_type_invariant(self);
        }
        if x >= self.width || y >= self.height {
            return Err(FrameError::OutOfBounds { x, y, width: self.width, height: self.height });
        }
        proof {
            lemma_index_in_range(self.width as nat, self.height as nat, x as int, y as int);
            assert(self.width as nat * self.height as nat <= 0xffff * 0xffff) by (nonlinear_arith)
                requires
                    self.width <= 0xffff,
                    self.height <= 0xffff,
            ;
            assert(0 <= y * self.width) by (nonlinear_arith);
        }
        Ok((y as usize) * (self.width as usize) + (x as usize))
    }
}

} // verus!
