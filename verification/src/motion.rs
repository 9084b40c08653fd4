//! The position integrator: a place on the grid kept in nanocells, so that
//! many small steps add up without rounding drift, together with the cell in
//! which it lies.

use vstd::prelude::*;

verus! {

/// The nanocells that make one cell: positions are kept in nanocells, and a
/// velocity is in cells per second, which is nanocells per nanosecond.
pub const NANOCELLS: i128 = 1_000_000_000;

/// `value`, or the nearer of `low` and `high` where it lies outside them.
pub open spec fn clamped(value: int, low: int, high: int) -> int {
    if value > high {
        high
    } else if value < low {
        low
    } else {
        value
    }
}

/// `value / divisor`, rounded towards zero.
pub open spec fn truncated_quotient(value: int, divisor: int) -> int
    recommends
        divisor > 0,
{
    if value >= 0 {
        value / divisor
    } else {
        -((-value) / divisor)
    }
}

/// The cell in which a position in nanocells lies: the whole cells of the
/// position, or the first or last cell that can be named where it lies
/// beyond them.
pub open spec fn cell_of(nanocells: int) -> int {
    clamped(truncated_quotient(nanocells, NANOCELLS as int), i16::MIN as int, i16::MAX as int)
}

/// The position in nanocells after `nanos` nanoseconds at `velocity`. A
/// position beyond what can be held stays at the last one that can.
pub open spec fn moved(nanocells: int, velocity: int, nanos: nat) -> int {
    clamped(nanocells + velocity * nanos, i128::MIN as int, i128::MAX as int)
}

/// A position of whole cells lies in the cell of that number.
pub proof fn lemma_cell_of_whole_cells(cells: int)
    requires
        i16::MIN <= cells <= i16::MAX,
    ensures
        cell_of(cells * NANOCELLS) == cells,
{
    let n = NANOCELLS as int;
    if cells >= 0 {
        vstd::arithmetic::div_mod::lemma_div_multiples_vanish(cells, n);
        assert(cells * n == n * cells) by (nonlinear_arith);
        assert(cells * n >= 0) by (nonlinear_arith)
            requires
                cells >= 0,
                n > 0,
        ;
    } else {
        vstd::arithmetic::div_mod::lemma_div_multiples_vanish(-cells, n);
        assert(-(cells * n) == n * (-cells)) by (nonlinear_arith);
        assert(cells * n < 0) by (nonlinear_arith)
            requires
                cells < 0,
                n > 0,
        ;
    }
}

/// The mathematical content of a position: the cell in which it lies and
/// the position itself in nanocells.
pub struct PositionView {
    pub cell: (int, int),
    pub nanocells: (int, int),
}

impl PositionView {
    /// The cell is the one in which the position lies, and the position fits
    /// in its machine integers.
    pub open spec fn wf(self) -> bool {
        &&& self.cell.0 == cell_of(self.nanocells.0)
        &&& self.cell.1 == cell_of(self.nanocells.1)
        &&& i128::MIN <= self.nanocells.0 <= i128::MAX
        &&& i128::MIN <= self.nanocells.1 <= i128::MAX
    }

    /// The position of exactly `cell` whole cells.
    pub open spec fn at_cell(cell: (int, int)) -> PositionView {
        PositionView { cell, nanocells: (cell.0 * NANOCELLS, cell.1 * NANOCELLS) }
    }

    /// The position after `nanos` nanoseconds at `velocity`.
    pub open spec fn moved(self, velocity: (int, int), nanos: nat) -> PositionView {
        let nanocells = (
            moved(self.nanocells.0, velocity.0, nanos),
            moved(self.nanocells.1, velocity.1, nanos),
        );
        PositionView { cell: (cell_of(nanocells.0), cell_of(nanocells.1)), nanocells }
    }
}

/// A position does not change when no time passes, nor at no velocity, and
/// whatever passes it stays sound.
pub proof fn lemma_moved(position: PositionView, velocity: (int, int), nanos: nat)
    requires
        position.wf(),
    ensures
        position.moved(velocity, 0) == position,
        position.moved((0, 0), nanos) == position,
        position.moved(velocity, nanos).wf(),
{
    assert(velocity.0 * 0 == 0 && velocity.1 * 0 == 0) by (nonlinear_arith);
    assert(0 * nanos == 0) by (nonlinear_arith);
}

/// Two steps at one velocity lead where one step of both their times leads:
/// the parts of a cell that a step leaves over are not lost.
pub proof fn lemma_steps_add_up(
    position: PositionView,
    velocity: (int, int),
    first: nat,
    second: nat,
)
    requires
        position.wf(),
    ensures
        position.moved(velocity, first).moved(velocity, second) == position.moved(
            velocity,
            first + second,
        ),
{
    lemma_axis_steps_add_up(position.nanocells.0, velocity.0, first, second);
    lemma_axis_steps_add_up(position.nanocells.1, velocity.1, first, second);
}

/// Two steps along one axis lead where one step of both their times leads.
proof fn lemma_axis_steps_add_up(nanocells: int, velocity: int, first: nat, second: nat)
    requires
        i128::MIN <= nanocells <= i128::MAX,
    ensures
        moved(moved(nanocells, velocity, first), velocity, second) == moved(
            nanocells,
            velocity,
            first + second,
        ),
{
    assert(velocity * (first + second) == velocity * first + velocity * second)
        by (nonlinear_arith);
    if velocity >= 0 {
        assert(velocity * first >= 0 && velocity * second >= 0) by (nonlinear_arith)
            requires
                velocity >= 0,
        ;
    } else {
        assert(velocity * first <= 0 && velocity * second <= 0) by (nonlinear_arith)
            requires
                velocity < 0,
        ;
    }
}

/// `value`, or the nearest number that sixteen bits hold.
fn clamp_to_i16(value: i128) -> (out: i16)
    ensures
        out == clamped(value as int, i16::MIN as int, i16::MAX as int),
{
    if value > i16::MAX as i128 {
        i16::MAX
    } else if value < i16::MIN as i128 {
        i16::MIN
    } else {
        value as i16
    }
}

/// The cell in which a position in nanocells lies.
fn whole_cells(nanocells: i128) -> (out: i16)
    ensures
        out == cell_of(nanocells as int),
{
    clamp_to_i16(nanocells / NANOCELLS)
}

/// The position in nanocells after `nanos` nanoseconds at `velocity`.
fn advance_axis(nanocells: i128, velocity: i16, nanos: u128) -> (out: i128)
    ensures
        out == moved(nanocells as int, velocity as int, nanos as nat),
{
    if velocity == 0 {
        assert(0 * nanos == 0) by (nonlinear_arith);
        nanocells
    } else if velocity > 0 {
        let speed: u128 = velocity as u128;
        proof {
            if speed * nanos > u128::MAX {
                assert(nanocells + velocity * nanos > i128::MAX);
            }
        }
        match speed.checked_mul(nanos) {
            Some(distance) => match nanocells.checked_add_unsigned(distance) {
                Some(sum) => sum,
                None => i128::MAX,
            },
            None => i128::MAX,
        }
    } else {
        let speed: u128 = (-(velocity as i32)) as u128;
        proof {
            assert(velocity * nanos == -(speed * nanos)) by (nonlinear_arith)
                requires
                    speed == -velocity,
            ;
            if speed * nanos > u128::MAX {
                assert(nanocells + velocity * nanos < i128::MIN);
            }
        }
        match speed.checked_mul(nanos) {
            Some(distance) => match nanocells.checked_sub_unsigned(distance) {
                Some(difference) => difference,
                None => i128::MIN,
            },
            None => i128::MIN,
        }
    }
}

/// A position in nanocells together with the cell in which it lies.
#[derive(Debug, Clone, Copy, PartialEq, Eq)]
pub struct Position {
    cell: (i16, i16),
    nanocells: (i128, i128),
}

impl View for Position {
    type V = PositionView;

    closed spec fn view(&self) -> PositionView {
        PositionView {
            cell: (self.cell.0 as int, self.cell.1 as int),
            nanocells: (self.nanocells.0 as int, self.nanocells.1 as int),
        }
    }
}

impl Position {
    #[verifier::type_invariant]
    pub open spec fn well_formed(&self) -> bool {
        self@.wf()
    }

    /// The position of exactly `cell` whole cells.
    pub fn at_cell(cell: (i16, i16)) -> (position: Position)
        ensures
            position@ == PositionView::at_cell((cell.0 as int, cell.1 as int)),
    {
        proof {
            lemma_cell_of_whole_cells(cell.0 as int);
            lemma_cell_of_whole_cells(cell.1 as int);
            assert(-0x8000 * 1_000_000_000 <= cell.0 * NANOCELLS <= 0x7fff * 1_000_000_000)
                by (nonlinear_arith)
                requires
                    -0x8000 <= cell.0 <= 0x7fff,
                    NANOCELLS == 1_000_000_000,
            ;
            assert(-0x8000 * 1_000_000_000 <= cell.1 * NANOCELLS <= 0x7fff * 1_000_000_000)
                by (nonlinear_arith)
                requires
                    -0x8000 <= cell.1 <= 0x7fff,
                    NANOCELLS == 1_000_000_000,
            ;
        }
        Position {
            cell,
            nanocells: ((cell.0 as i128) * NANOCELLS, (cell.1 as i128) * NANOCELLS),
        }
    }

    /// The cell in which the position lies.
    pub fn cell(&self) -> (cell: (i16, i16))
        ensures
            cell.0 == self@.cell.0,
            cell.1 == self@.cell.1,
    {
        self.cell
    }

    /// The position after `nanos` nanoseconds at `velocity` cells each
    /// second.
    pub fn moved(&self, velocity: (i16, i16), nanos: u128) -> (position: Position)
        ensures
            position@ == self@.moved((velocity.0 as int, velocity.1 as int), nanos as nat),
    {
        let x: i128 = advance_axis(self.nanocells.0, velocity.0, nanos);
        let y: i128 = advance_axis(self.nanocells.1, velocity.1, nanos);
        Position { cell: (whole_cells(x), whole_cells(y)), nanocells: (x, y) }
    }
}

} // verus!
