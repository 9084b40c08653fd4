//! Shrinking art with a box filter: each character of the result shows the
//! mean density of the box of the source that it stands for.

use crate::ascii::ramp::{
    density, density_char, density_index, lemma_density_bounded, lemma_ramp_char_of_density, ramp,
    ramp_char, MAX_DENSITY,
};
use crate::ascii::size::{at_least_one, dimensions, lemma_max_width, max_width};
use crate::text::chars_of;
use vstd::prelude::*;

verus! {

/// The character at column `x` of row `y`: a space where the row is too
/// short to have one.
pub open spec fn cell(rows: Seq<Seq<char>>, x: int, y: int) -> char
    recommends
        0 <= y < rows.len(),
{
    if 0 <= x < rows[y].len() {
        rows[y][x]
    } else {
        ' '
    }
}

/// `row`, filled up with spaces to `width` characters.
pub open spec fn padded(row: Seq<char>, width: nat) -> Seq<char> {
    Seq::new(
        width,
        |x: int|
            if x < row.len() {
                row[x]
            } else {
                ' '
            },
    )
}

/// Where the source range of output index `i` begins, for a source of `len`
/// elements and an output of `out`.
pub open spec fn box_start(i: nat, len: nat, out: nat) -> nat
    recommends
        out > 0,
{
    i * len / out
}

/// Where the source range of output index `i` ends. A range that would be
/// empty is given one element.
pub open spec fn box_end(i: nat, len: nat, out: nat) -> nat
    recommends
        out > 0,
{
    let end = (i + 1) * len / out;
    if end <= box_start(i, len, out) {
        box_start(i, len, out) + 1
    } else {
        end
    }
}

/// The densities of row `y` from column `x0` up to `x1`, added up.
pub open spec fn row_density(rows: Seq<Seq<char>>, y: int, x0: int, x1: int) -> nat
    decreases x1 - x0,
{
    if x1 <= x0 {
        0
    } else {
        row_density(rows, y, x0, x1 - 1) + density(cell(rows, x1 - 1, y))
    }
}

/// The densities of the box of columns `x0` up to `x1` and rows `y0` up to
/// `y1`, added up.
pub open spec fn box_density(rows: Seq<Seq<char>>, x0: int, x1: int, y0: int, y1: int) -> nat
    decreases y1 - y0,
{
    if y1 <= y0 {
        0
    } else {
        box_density(rows, x0, x1, y0, y1 - 1) + row_density(rows, y1 - 1, x0, x1)
    }
}

/// The mean density of a box, with a half rounded up.
pub open spec fn box_level(rows: Seq<Seq<char>>, x0: int, x1: int, y0: int, y1: int) -> nat
    recommends
        x0 < x1,
        y0 < y1,
{
    let count = (x1 - x0) * (y1 - y0);
    ((box_density(rows, x0, x1, y0, y1) + count / 2) / count) as nat
}

/// The character that stands at `(x, y)` of the art shrunk to `out_w` by
/// `out_h`.
pub open spec fn downsampled_char(rows: Seq<Seq<char>>, out_w: nat, out_h: nat, x: int, y: int)
    -> char
    recommends
        0 <= x < out_w,
        0 <= y < out_h,
        max_width(rows) > 0,
        rows.len() > 0,
{
    let in_w = max_width(rows);
    let in_h = rows.len();
    ramp_char(
        box_level(
            rows,
            box_start(x as nat, in_w, out_w) as int,
            box_end(x as nat, in_w, out_w) as int,
            box_start(y as nat, in_h, out_h) as int,
            box_end(y as nat, in_h, out_h) as int,
        ),
    )
}

/// The art shrunk to `target_w` by `target_h`, where a target of 0 counts as
/// 1. Art without width or height gives empty rows.
pub open spec fn downsampled(rows: Seq<Seq<char>>, target_w: nat, target_h: nat) -> Seq<
    Seq<char>,
> {
    let out_w = at_least_one(target_w);
    let out_h = at_least_one(target_h);
    if max_width(rows) == 0 || rows.len() == 0 {
        Seq::new(out_h, |y: int| Seq::<char>::empty())
    } else {
        Seq::new(
            out_h,
            |y: int| Seq::new(out_w, |x: int| downsampled_char(rows, out_w, out_h, x, y)),
        )
    }
}

/// The source range of an output index is not empty and lies in the source.
pub proof fn lemma_box_in_source(i: nat, len: nat, out: nat)
    requires
        i < out,
        0 < len,
    ensures
        box_start(i, len, out) < box_end(i, len, out) <= len,
{
    assert(i * len < out * len) by (nonlinear_arith)
        requires
            i < out,
            0 < len,
    ;
    vstd::arithmetic::div_mod::lemma_multiply_divide_lt((i * len) as int, out as int, len as int);
    assert((i + 1) * len <= out * len) by (nonlinear_arith)
        requires
            i + 1 <= out,
            0 < len,
    ;
    vstd::arithmetic::div_mod::lemma_multiply_divide_le(
        ((i + 1) * len) as int,
        out as int,
        len as int,
    );
}

/// Where the output is no smaller than the source, the source range of an
/// output index is one element.
pub proof fn lemma_box_of_one(i: nat, len: nat, out: nat)
    requires
        i < out,
        0 < len <= out,
    ensures
        box_end(i, len, out) == box_start(i, len, out) + 1,
{
    let start = i * len / out;
    assert((i + 1) * len == i * len + len) by (nonlinear_arith);
    vstd::arithmetic::div_mod::lemma_fundamental_div_mod((i * len) as int, out as int);
    vstd::arithmetic::div_mod::lemma_mod_bound((i * len) as int, out as int);
    assert(out * (start + 2) == out * start + 2 * out) by (nonlinear_arith);
    assert((i + 1) * len < out * (start + 2));
    vstd::arithmetic::div_mod::lemma_multiply_divide_lt(
        ((i + 1) * len) as int,
        out as int,
        start as int + 2,
    );
}

/// Where the output is no smaller than the source in width and in height,
/// each character of the output shows one character of the source: the
/// ramp's character for its density.
pub proof fn lemma_enlarged_char(rows: Seq<Seq<char>>, out_w: nat, out_h: nat, x: int, y: int)
    requires
        0 <= x < out_w,
        0 <= y < out_h,
        0 < max_width(rows) <= out_w,
        0 < rows.len() <= out_h,
    ensures
        downsampled_char(rows, out_w, out_h, x, y) == ramp_char(
            density(
                cell(
                    rows,
                    box_start(x as nat, max_width(rows), out_w) as int,
                    box_start(y as nat, rows.len(), out_h) as int,
                ),
            ),
        ),
{
    lemma_box_of_one(x as nat, max_width(rows), out_w);
    lemma_box_of_one(y as nat, rows.len(), out_h);
    lemma_single_cell_level(
        rows,
        box_start(x as nat, max_width(rows), out_w) as int,
        box_start(y as nat, rows.len(), out_h) as int,
    );
}

/// A row's densities add up to at most the darkest level for each column.
pub proof fn lemma_row_density_bounded(rows: Seq<Seq<char>>, y: int, x0: int, x1: int)
    requires
        x0 <= x1,
    ensures
        row_density(rows, y, x0, x1) <= MAX_DENSITY * (x1 - x0),
    decreases x1 - x0,
{
    if x0 < x1 {
        lemma_row_density_bounded(rows, y, x0, x1 - 1);
        lemma_density_bounded(cell(rows, x1 - 1, y));
    }
}

/// A box's densities add up to at most the darkest level for each cell.
pub proof fn lemma_box_density_bounded(rows: Seq<Seq<char>>, x0: int, x1: int, y0: int, y1: int)
    requires
        x0 <= x1,
        y0 <= y1,
    ensures
        box_density(rows, x0, x1, y0, y1) <= MAX_DENSITY * ((x1 - x0) * (y1 - y0)),
    decreases y1 - y0,
{
    if y0 < y1 {
        lemma_box_density_bounded(rows, x0, x1, y0, y1 - 1);
        lemma_row_density_bounded(rows, y1 - 1, x0, x1);
        assert((x1 - x0) * (y1 - y0) == (x1 - x0) * (y1 - 1 - y0) + (x1 - x0))
            by (nonlinear_arith);
    } else {
        assert((x1 - x0) * (y1 - y0) == 0) by (nonlinear_arith)
            requires
                y1 - y0 == 0,
        ;
    }
}

/// The source range of output index `i`.
fn box_range(i: usize, len: usize, out: usize) -> (range: (usize, usize))
    requires
        i < out,
        0 < len,
    ensures
        range.0 == box_start(i as nat, len as nat, out as nat),
        range.1 == box_end(i as nat, len as nat, out as nat),
        range.0 < range.1 <= len,
{
    proof {
        lemma_box_in_source(i as nat, len as nat, out as nat);
        assert((i + 1) * len <= 0xffff_ffff_ffff_ffff * 0xffff_ffff_ffff_ffff) by (nonlinear_arith)
            requires
                0 <= i + 1 <= 0xffff_ffff_ffff_ffff,
                0 <= len <= 0xffff_ffff_ffff_ffff,
        ;
        assert(i * len <= (i + 1) * len) by (nonlinear_arith)
            requires
                0 <= i,
                0 <= len,
        ;
        assert(i * len / (out as int) <= (i + 1) * len / (out as int)) by {
            vstd::arithmetic::div_mod::lemma_div_is_ordered(
                (i * len) as int,
                ((i + 1) * len) as int,
                out as int,
            );
        }
    }
    let start: u128 = (i as u128) * (len as u128) / (out as u128);
    let end: u128 = (i as u128 + 1) * (len as u128) / (out as u128);
    if end <= start {
        (start as usize, start as usize + 1)
    } else {
        (start as usize, end as usize)
    }
}

/// The lines as rows of characters, each filled up with spaces to `width`.
fn padded_rows(lines: &[String], width: usize) -> (matrix: Vec<Vec<char>>)
    requires
        forall|y: int| 0 <= y < lines@.len() ==> (#[trigger] lines@[y])@.len() <= width,
    ensures
        matrix@.len() == lines@.len(),
        forall|y: int|
            0 <= y < lines@.len() ==> (#[trigger] matrix@[y])@ == padded(lines@[y]@, width as nat),
{
    let mut matrix: Vec<Vec<char>> = Vec::new();
    let mut y: usize = 0;
    while y < lines.len()
        invariant
            y <= lines@.len(),
            matrix@.len() == y,
            forall|k: int| 0 <= k < lines@.len() ==> (#[trigger] lines@[k])@.len() <= width,
            forall|k: int|
                0 <= k < y ==> (#[trigger] matrix@[k])@ == padded(lines@[k]@, width as nat),
        decreases lines@.len() - y,
    {
        let mut chars: Vec<char> = chars_of(lines[y].as_str());
        let ghost line = lines@[y as int]@;
        assert(line.len() <= width);
        while chars.len() < width
            invariant
                line.len() <= chars@.len() <= width,
                chars@.take(line.len() as int) == line,
                forall|x: int| line.len() <= x < chars@.len() ==> chars@[x] == ' ',
            decreases width - chars@.len(),
        {
            let ghost before = chars@;
            chars.push(' ');
            assert(chars@.take(line.len() as int) == before.take(line.len() as int));
        }
        proof {
            assert forall|x: int| 0 <= x < width implies chars@[x] == padded(
                line,
                width as nat,
            )[x] by {
                if x < line.len() {
                    assert(chars@[x] == chars@.take(line.len() as int)[x]);
                }
            }
            assert(chars@ =~= padded(line, width as nat));
        }
        matrix.push(chars);
        y += 1;
    }
    matrix
}

/// The mean density of a box of the padded rows, with a half rounded up.
fn box_level_of(
    matrix: &Vec<Vec<char>>,
    Ghost(rows): Ghost<Seq<Seq<char>>>,
    width: usize,
    x0: usize,
    x1: usize,
    y0: usize,
    y1: usize,
) -> (level: usize)
    requires
        matrix@.len() == rows.len(),
        forall|y: int|
            0 <= y < rows.len() ==> (#[trigger] matrix@[y])@ == padded(rows[y], width as nat),
        x0 < x1 <= width,
        y0 < y1 <= rows.len(),
    ensures
        level == box_level(rows, x0 as int, x1 as int, y0 as int, y1 as int),
{
    let ghost span = (x1 - x0) as int;
    proof {
        assert((x1 - x0) * (y1 - y0) <= 0xffff_ffff_ffff_ffff * 0xffff_ffff_ffff_ffff)
            by (nonlinear_arith)
            requires
                0 <= x1 - x0 <= 0xffff_ffff_ffff_ffff,
                0 <= y1 - y0 <= 0xffff_ffff_ffff_ffff,
        ;
        assert((x1 - x0) * (y1 - y0) >= 1) by (nonlinear_arith)
            requires
                1 <= x1 - x0,
                1 <= y1 - y0,
        ;
    }
    // The sum of the densities is kept as `whole * count + part`, which
    // cannot overflow however large the box is.
    let count: u128 = ((x1 - x0) as u128) * ((y1 - y0) as u128);
    let mut whole: u128 = 0;
    let mut part: u128 = 0;
    let mut y: usize = y0;
    assert(whole * count + part == 0) by (nonlinear_arith)
        requires
            whole == 0,
            part == 0,
    ;
    while y < y1
        invariant
            y0 <= y <= y1,
            y1 <= rows.len(),
            x0 < x1 <= width,
            span == x1 - x0,
            matrix@.len() == rows.len(),
            forall|k: int|
                0 <= k < rows.len() ==> (#[trigger] matrix@[k])@ == padded(rows[k], width as nat),
            1 <= count <= 0xffff_ffff_ffff_ffff * 0xffff_ffff_ffff_ffff,
            count == span * (y1 - y0),
            part < count,
            whole <= MAX_DENSITY,
            whole * count + part == box_density(rows, x0 as int, x1 as int, y0 as int, y as int),
        decreases y1 - y,
    {
        let mut x: usize = x0;
        assert(matrix@[y as int]@ == padded(rows[y as int], width as nat));
        while x < x1
            invariant
                x0 <= x <= x1,
                x1 <= width,
                y0 <= y < y1,
                y1 <= rows.len(),
                span == x1 - x0,
                matrix@.len() == rows.len(),
                matrix@[y as int]@ == padded(rows[y as int], width as nat),
                1 <= count <= 0xffff_ffff_ffff_ffff * 0xffff_ffff_ffff_ffff,
                count == span * (y1 - y0),
                part < count,
                whole <= MAX_DENSITY,
                whole * count + part == box_density(
                    rows,
                    x0 as int,
                    x1 as int,
                    y0 as int,
                    y as int,
                ) + row_density(rows, y as int, x0 as int, x as int),
            decreases x1 - x,
        {
            let ch: char = matrix[y][x];
            assert(ch == cell(rows, x as int, y as int));
            let level: u8 = density_index(ch);
            let total: u128 = part + level as u128;
            proof {
                lemma_box_density_bounded(rows, x0 as int, x1 as int, y0 as int, y as int);
                lemma_row_density_bounded(rows, y as int, x0 as int, x + 1);
                let sum = whole * count + total;
                assert(sum == box_density(rows, x0 as int, x1 as int, y0 as int, y as int)
                    + row_density(rows, y as int, x0 as int, x + 1));
                assert(span * (y - y0) + (x + 1 - x0) <= span * (y1 - y0)) by (nonlinear_arith)
                    requires
                        y0 <= y < y1,
                        x + 1 - x0 <= span,
                        0 <= span,
                ;
                assert(sum <= MAX_DENSITY * count) by (nonlinear_arith)
                    requires
                        sum <= MAX_DENSITY * (span * (y - y0)) + MAX_DENSITY * (x + 1 - x0),
                        span * (y - y0) + (x + 1 - x0) <= count,
                ;
                vstd::arithmetic::div_mod::lemma_fundamental_div_mod(total as int, count as int);
                vstd::arithmetic::div_mod::lemma_mod_bound(total as int, count as int);
                vstd::arithmetic::div_mod::lemma_div_pos_is_pos(total as int, count as int);
                let more = total as int / count as int;
                assert((whole + more) * count + total as int % count as int == sum)
                    by (nonlinear_arith)
                    requires
                        total as int == count as int * more + total as int % count as int,
                        sum == whole * count + total,
                ;
                assert(whole + more <= MAX_DENSITY) by (nonlinear_arith)
                    requires
                        (whole + more) * count + total as int % count as int == sum,
                        0 <= total as int % count as int,
                        sum <= MAX_DENSITY * count,
                        count >= 1,
                        0 <= whole + more,
                ;
            }
            whole = whole + total / count;
            part = total % count;
            x += 1;
        }
        y += 1;
    }
    proof {
        let sum = box_density(rows, x0 as int, x1 as int, y0 as int, y1 as int) as int;
        let c = count as int;
        if part >= count - count / 2 {
            assert(sum + c / 2 == (whole + 1) * c + (part + c / 2 - c)) by (nonlinear_arith)
                requires
                    sum == whole * c + part,
            ;
            vstd::arithmetic::div_mod::lemma_fundamental_div_mod_converse(
                sum + c / 2,
                c,
                whole + 1,
                part + c / 2 - c,
            );
        } else {
            vstd::arithmetic::div_mod::lemma_fundamental_div_mod_converse(
                sum + c / 2,
                c,
                whole as int,
                part + c / 2,
            );
        }
    }
    if part >= count - count / 2 {
        (whole + 1) as usize
    } else {
        whole as usize
    }
}

/// Shrinks the art to `out_w` by `out_h` characters, where 0 counts as 1.
/// Each character of the result stands for a box of the source, the lines of
/// which are filled up with spaces to the width of the longest: it is the
/// ramp's character for the mean density of the box. Art without width or
/// height gives empty rows.
pub fn downsample(lines: &[String], out_w: usize, out_h: usize) -> (out: Vec<String>)
    ensures
        out.deep_view() == downsampled(lines.deep_view(), out_w as nat, out_h as nat),
        out@.len() == at_least_one(out_h as nat),
        forall|y: int|
            0 <= y < out@.len() ==> (#[trigger] out@[y])@.len() == if max_width(lines.deep_view())
                == 0 || lines@.len() == 0 {
                0
            } else {
                at_least_one(out_w as nat)
            },
{
    let ghost rows = lines.deep_view();
    let ghost expected = downsampled(rows, out_w as nat, out_h as nat);
    let out_w: usize = if out_w == 0 { 1 } else { out_w };
    let out_h: usize = if out_h == 0 { 1 } else { out_h };
    let (in_w, in_h) = dimensions(lines);
    let mut out_lines: Vec<String> = Vec::new();

    if in_w == 0 || in_h == 0 {
        let mut y_out: usize = 0;
        while y_out < out_h
            invariant
                y_out <= out_h,
                out_lines@.len() == y_out,
                forall|k: int|
                    0 <= k < y_out ==> (#[trigger] out_lines@[k])@ == Seq::<char>::empty(),
            decreases out_h - y_out,
        {
            out_lines.push(String::new());
            y_out += 1;
        }
        assert(out_lines.deep_view() =~= expected);
        return out_lines;
    }
    proof {
        lemma_max_width(rows);
        assert forall|y: int| 0 <= y < lines@.len() implies (#[trigger] lines@[y])@.len()
            <= in_w by {
            assert(rows[y] == lines@[y]@);
        }
    }
    let matrix = padded_rows(lines, in_w);
    let mut y_out: usize = 0;
    while y_out < out_h
        invariant
            y_out <= out_h,
            0 < in_w == max_width(rows),
            0 < in_h == rows.len(),
            0 < out_w,
            rows == lines.deep_view(),
            matrix@.len() == rows.len(),
            forall|k: int|
                0 <= k < rows.len() ==> (#[trigger] matrix@[k])@ == padded(rows[k], in_w as nat),
            out_lines@.len() == y_out,
            forall|k: int|
                0 <= k < y_out ==> (#[trigger] out_lines@[k])@ == Seq::new(
                    out_w as nat,
                    |x: int| downsampled_char(rows, out_w as nat, out_h as nat, x, k),
                ),
        decreases out_h - y_out,
    {
        let (y0, y1) = box_range(y_out, in_h, out_h);
        let mut row = String::new();
        let mut x_out: usize = 0;
        while x_out < out_w
            invariant
                x_out <= out_w,
                y_out < out_h,
                0 < in_w == max_width(rows),
                0 < in_h == rows.len(),
                matrix@.len() == rows.len(),
                forall|k: int|
                    0 <= k < rows.len() ==> (#[trigger] matrix@[k])@ == padded(
                        rows[k],
                        in_w as nat,
                    ),
                y0 == box_start(y_out as nat, in_h as nat, out_h as nat),
                y1 == box_end(y_out as nat, in_h as nat, out_h as nat),
                y0 < y1 <= in_h,
                row@.len() == x_out,
                forall|x: int|
                    0 <= x < x_out ==> row@[x] == downsampled_char(
                        rows,
                        out_w as nat,
                        out_h as nat,
                        x,
                        y_out as int,
                    ),
            decreases out_w - x_out,
        {
            let (x0, x1) = box_range(x_out, in_w, out_w);
            let level = box_level_of(&matrix, Ghost(rows), in_w, x0, x1, y0, y1);
            row.push(density_char(level));
            x_out += 1;
        }
        assert(row@ =~= Seq::new(
            out_w as nat,
            |x: int| downsampled_char(rows, out_w as nat, out_h as nat, x, y_out as int),
        ));
        out_lines.push(row);
        y_out += 1;
    }
    assert(out_lines.deep_view() =~= expected);
    out_lines
}

/// Art of which every row has the full width, every character is one of the
/// ramp, and there is a row at least, comes back unchanged when it is shrunk
/// to its own size.
pub proof fn lemma_downsample_identity(rows: Seq<Seq<char>>)
    requires
        rows.len() > 0,
        forall|y: int| 0 <= y < rows.len() ==> (#[trigger] rows[y]).len() == max_width(rows),
        forall|y: int, x: int|
            0 <= y < rows.len() && 0 <= x < rows[y].len() ==> ramp().contains(
                #[trigger] rows[y][x],
            ),
    ensures
        downsampled(rows, max_width(rows), rows.len()) == rows,
{
    let w = max_width(rows);
    let h = rows.len();
    let out = downsampled(rows, w, h);
    assert(out.len() == rows.len());
    assert forall|y: int| 0 <= y < h implies out[y] == rows[y] by {
        if w == 0 {
            assert(out[y] =~= rows[y]);
        } else {
            assert forall|x: int| 0 <= x < w implies out[y][x] == rows[y][x] by {
                lemma_identity_box(x as nat, w);
                lemma_identity_box(y as nat, h);
                lemma_single_cell_level(rows, x, y);
                lemma_ramp_char_of_density(rows[y][x]);
            }
            assert(out[y] =~= rows[y]);
        }
    }
    assert(out =~= rows);
}

/// Where the output is as large as the source, the source range of an index
/// is that index alone.
pub proof fn lemma_identity_box(i: nat, len: nat)
    requires
        0 < len,
    ensures
        box_start(i, len, len) == i,
        box_end(i, len, len) == i + 1,
{
    vstd::arithmetic::div_mod::lemma_div_multiples_vanish(i as int, len as int);
    vstd::arithmetic::div_mod::lemma_div_multiples_vanish(i as int + 1, len as int);
    assert(i * len == len * i && (i + 1) * len == len * (i + 1)) by (nonlinear_arith);
}

/// The mean density of a box of one cell is the density of that cell.
pub proof fn lemma_single_cell_level(rows: Seq<Seq<char>>, x: int, y: int)
    ensures
        box_level(rows, x, x + 1, y, y + 1) == density(cell(rows, x, y)),
{
    assert(row_density(rows, y, x, x) == 0);
    assert(row_density(rows, y, x, x + 1) == density(cell(rows, x, y)));
    assert(box_density(rows, x, x + 1, y, y) == 0);
    assert(box_density(rows, x, x + 1, y, y + 1) == density(cell(rows, x, y)));
    assert((x + 1 - x) * (y + 1 - y) == 1) by (nonlinear_arith);
}

} // verus!
