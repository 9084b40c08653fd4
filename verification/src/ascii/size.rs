//! The size of a piece of art, and the size in which it fits into given
//! bounds while keeping its proportions.

use vstd::prelude::*;

verus! {

/// The length of the longest row, and 0 where there is no row.
pub open spec fn max_width(rows: Seq<Seq<char>>) -> nat
    decreases rows.len(),
{
    if rows.len() == 0 {
        0
    } else {
        let rest = max_width(rows.drop_last());
        if rows.last().len() > rest {
            rows.last().len()
        } else {
            rest
        }
    }
}

/// No row is longer than the width, and where there are rows one of them is
/// as long.
pub proof fn lemma_max_width(rows: Seq<Seq<char>>)
    ensures
        forall|i: int| 0 <= i < rows.len() ==> (#[trigger] rows[i]).len() <= max_width(rows),
        rows.len() > 0 ==> exists|i: int| 0 <= i < rows.len() && (#[trigger] rows[i]).len()
            == max_width(rows),
    decreases rows.len(),
{
    if rows.len() > 0 {
        let front = rows.drop_last();
        lemma_max_width(front);
        assert forall|i: int| 0 <= i < rows.len() implies (#[trigger] rows[i]).len() <= max_width(
            rows,
        ) by {
            if i < front.len() {
                assert(rows[i] == front[i]);
            }
        }
        if rows.last().len() > max_width(front) || front.len() == 0 {
            assert(rows[rows.len() - 1].len() == max_width(rows));
        } else {
            let i = choose|i: int| 0 <= i < front.len() && (#[trigger] front[i]).len() == max_width(
                front,
            );
            assert(rows[i] == front[i]);
        }
    }
}

/// The width and the height of the art: the length of its longest line and
/// the number of its lines.
pub fn dimensions(lines: &[String]) -> (size: (usize, usize))
    ensures
        size.0 == max_width(lines.deep_view()),
        size.1 == lines@.len(),
{
    let ghost rows = lines.deep_view();
    let mut width: usize = 0;
    let mut i: usize = 0;
    while i < lines.len()
        invariant
            i <= lines@.len(),
            rows == lines.deep_view(),
            width == max_width(rows.take(i as int)),
        decreases lines@.len() - i,
    {
        let len: usize = lines[i].as_str().unicode_len();
        proof {
            assert(rows.take(i + 1).drop_last() == rows.take(i as int));
            assert(rows.take(i + 1).last() == lines@[i as int]@);
        }
        if len > width {
            width = len;
        }
        i += 1;
    }
    assert(rows.take(i as int) == rows);
    (width, lines.len())
}

/// `n`, or 1 where `n` is 0.
pub open spec fn at_least_one(n: nat) -> nat {
    if n == 0 {
        1
    } else {
        n
    }
}

/// `input` scaled by `output_primary / input_primary`, rounded to the
/// nearest whole number.
pub open spec fn scaled(input: nat, output_primary: nat, input_primary: nat) -> nat
    recommends
        input_primary > 0,
{
    (input * output_primary + input_primary / 2) / input_primary
}

/// The size that `source` is shown in under `bound`. A bound of 0 counts as
/// 1, and a source without width or height gives `(1, 1)`. Otherwise the width
/// is cut to the bound first and the height follows in proportion; then the
/// height is cut to the bound and the width follows, in the proportion of the
/// source.
pub open spec fn fit(source: (nat, nat), bound: (nat, nat)) -> (nat, nat) {
    let max_w = at_least_one(bound.0);
    let max_h = at_least_one(bound.1);
    if source.0 == 0 || source.1 == 0 {
        (1, 1)
    } else {
        let first = if source.0 > max_w {
            (max_w, scaled(source.1, max_w, source.0))
        } else {
            source
        };
        let second = if first.1 > max_h {
            (scaled(source.0, max_h, source.1), max_h)
        } else {
            first
        };
        (at_least_one(second.0), at_least_one(second.1))
    }
}

/// Scaling down never gives more than there was.
pub proof fn lemma_scaled_le_input(input: nat, output_primary: nat, input_primary: nat)
    requires
        0 < input_primary,
        output_primary <= input_primary,
    ensures
        scaled(input, output_primary, input_primary) <= input,
{
    let q = input_primary as int;
    let x = input * output_primary + q / 2;
    assert(x < q * (input + 1)) by (nonlinear_arith)
        requires
            x == input * output_primary + q / 2,
            0 < q,
            0 <= output_primary <= q,
            0 <= input,
    ;
    vstd::arithmetic::div_mod::lemma_multiply_divide_lt(x, q, input as int + 1);
}

/// A fitted size has no side of 0 and no side beyond its bound, where a
/// bound of 0 counts as 1.
pub proof fn lemma_fit_within_bounds(source: (nat, nat), bound: (nat, nat))
    ensures
        1 <= fit(source, bound).0 <= at_least_one(bound.0),
        1 <= fit(source, bound).1 <= at_least_one(bound.1),
{
    let a = source.0 as int;
    let b = source.1 as int;
    let m = at_least_one(bound.0) as int;
    let n = at_least_one(bound.1) as int;
    if a != 0 && b != 0 {
        if a > m {
            let h1 = scaled(source.1, m as nat, source.0) as int;
            if h1 > n {
                let w2 = scaled(source.0, n as nat, source.1) as int;
                // The first pass left more than `n` rows, so `a * n` is well
                // below `b * m`.
                vstd::arithmetic::div_mod::lemma_fundamental_div_mod(b * m + a / 2, a);
                vstd::arithmetic::div_mod::lemma_mod_bound(b * m + a / 2, a);
                assert(a * n + a <= b * m + a / 2) by (nonlinear_arith)
                    requires
                        b * m + a / 2 == a * h1 + (b * m + a / 2) % a,
                        0 <= (b * m + a / 2) % a,
                        h1 >= n + 1,
                        a > 0,
                ;
                assert(a * n + b / 2 < b * (m + 1)) by (nonlinear_arith)
                    requires
                        a * n + a <= b * m + a / 2,
                        a > 0,
                        b > 0,
                ;
                vstd::arithmetic::div_mod::lemma_multiply_divide_lt(a * n + b / 2, b, m + 1);
            }
        } else {
            if b > n {
                lemma_scaled_le_input(source.0, n as nat, source.1);
            }
        }
    }
}

/// A size that lies within the bound already, and has no side of 0, is
/// fitted to itself.
pub proof fn lemma_fit_leaves_what_fits(source: (nat, nat), bound: (nat, nat))
    requires
        0 < source.0 <= bound.0,
        0 < source.1 <= bound.1,
    ensures
        fit(source, bound) == source,
{
}

/// `input * output_primary / input_primary`, rounded to the nearest whole
/// number.
fn scaled_dimension(input: usize, output_primary: usize, input_primary: usize) -> (out: usize)
    requires
        0 < input_primary,
        output_primary <= input_primary,
    ensures
        out == scaled(input as nat, output_primary as nat, input_primary as nat),
{
    proof {
        lemma_scaled_le_input(input as nat, output_primary as nat, input_primary as nat);
        assert(input * output_primary <= 0xffff_ffff_ffff_ffff * 0xffff_ffff_ffff_ffff)
            by (nonlinear_arith)
            requires
                0 <= input <= 0xffff_ffff_ffff_ffff,
                0 <= output_primary <= 0xffff_ffff_ffff_ffff,
        ;
    }
    let product: u128 = (input as u128) * (output_primary as u128);
    let rounded: u128 = (product + (input_primary / 2) as u128) / (input_primary as u128);
    rounded as usize
}

/// The size that an image of size `source` is shown in so that it keeps its
/// proportions and stays within `bound`.
pub fn fit_dimensions(source: (usize, usize), bound: (usize, usize)) -> (out: (usize, usize))
    ensures
        out.0 == fit((source.0 as nat, source.1 as nat), (bound.0 as nat, bound.1 as nat)).0,
        out.1 == fit((source.0 as nat, source.1 as nat), (bound.0 as nat, bound.1 as nat)).1,
        1 <= out.0 <= at_least_one(bound.0 as nat),
        1 <= out.1 <= at_least_one(bound.1 as nat),
{
    proof {
        lemma_fit_within_bounds(
            (source.0 as nat, source.1 as nat),
            (bound.0 as nat, bound.1 as nat),
        );
    }
    let (in_w, in_h) = source;
    let max_w: usize = if bound.0 == 0 { 1 } else { bound.0 };
    let max_h: usize = if bound.1 == 0 { 1 } else { bound.1 };

    if in_w == 0 || in_h == 0 {
        return (1, 1);
    }
    let mut out_w: usize = in_w;
    let mut out_h: usize = in_h;

    if out_w > max_w {
        out_w = max_w;
        out_h = scaled_dimension(in_h, out_w, in_w);
        proof {
            lemma_scaled_le_input(in_h as nat, max_w as nat, in_w as nat);
        }
    }
    if out_h > max_h {
        out_h = max_h;
        out_w = scaled_dimension(in_w, out_h, in_h);
    }
    (if out_w == 0 { 1 } else { out_w }, if out_h == 0 { 1 } else { out_h })
}

} // verus!
