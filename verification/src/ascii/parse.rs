//! Reading a block of text as rows of art.

use crate::text::string_of;
use vstd::prelude::*;

verus! {

/// The characters of `text` behind its last line feed: the line that no line
/// feed has ended yet.
pub open spec fn open_line(text: Seq<char>) -> Seq<char>
    decreases text.len(),
{
    if text.len() == 0 || text.last() == '\n' {
        Seq::empty()
    } else {
        open_line(text.drop_last()).push(text.last())
    }
}

/// The lines of `text` that a line feed ends, without the line feed.
pub open spec fn closed_lines(text: Seq<char>) -> Seq<Seq<char>>
    decreases text.len(),
{
    if text.len() == 0 {
        Seq::empty()
    } else if text.last() == '\n' {
        closed_lines(text.drop_last()).push(open_line(text.drop_last()))
    } else {
        closed_lines(text.drop_last())
    }
}

/// The lines of `text`: those that a line feed ends, and what follows the
/// last line feed if anything does.
pub open spec fn lines_of(text: Seq<char>) -> Seq<Seq<char>> {
    if open_line(text).len() > 0 {
        closed_lines(text).push(open_line(text))
    } else {
        closed_lines(text)
    }
}

/// `line` without the carriage return at its end, where it ends in one. A
/// carriage return before that one stays.
pub open spec fn without_trailing_cr(line: Seq<char>) -> Seq<char> {
    if line.len() > 0 && line.last() == '\r' {
        line.drop_last()
    } else {
        line
    }
}

/// `lines` without the empty lines at its end.
pub open spec fn without_blank_tail(lines: Seq<Seq<char>>) -> Seq<Seq<char>>
    decreases lines.len(),
{
    if lines.len() > 0 && lines.last().len() == 0 {
        without_blank_tail(lines.drop_last())
    } else {
        lines
    }
}

/// The lines of `text`, each without the carriage return at its end.
pub open spec fn clean_lines(text: Seq<char>) -> Seq<Seq<char>> {
    Seq::new(lines_of(text).len(), |i: int| without_trailing_cr(lines_of(text)[i]))
}

/// The rows of art that `text` holds: its lines, each without the carriage
/// return at its end, up to the last line that is not empty.
pub open spec fn parsed(text: Seq<char>) -> Seq<Seq<char>> {
    without_blank_tail(clean_lines(text))
}

/// `lines` as one text: each line with a line feed behind it.
pub open spec fn joined(lines: Seq<Seq<char>>) -> Seq<char>
    decreases lines.len(),
{
    if lines.len() == 0 {
        Seq::empty()
    } else {
        joined(lines.drop_last()) + lines.last().push('\n')
    }
}

/// A text is its closed lines, a line feed behind each, and then its open
/// line.
pub proof fn lemma_lines_join_to_text(text: Seq<char>)
    ensures
        joined(closed_lines(text)) + open_line(text) == text,
    decreases text.len(),
{
    if text.len() > 0 {
        let front = text.drop_last();
        lemma_lines_join_to_text(front);
        if text.last() == '\n' {
            assert(closed_lines(text).drop_last() == closed_lines(front));
            assert(joined(closed_lines(text)) + open_line(text) =~= (joined(closed_lines(front))
                + open_line(front)).push('\n'));
        } else {
            assert(joined(closed_lines(text)) + open_line(text) =~= (joined(closed_lines(front))
                + open_line(front)).push(text.last()));
        }
        assert(front.push(text.last()) =~= text);
    } else {
        assert(joined(closed_lines(text)) + open_line(text) =~= text);
    }
}

/// At most one character is taken from the end of a line, and only a
/// carriage return.
pub proof fn lemma_without_trailing_cr(line: Seq<char>)
    ensures
        line.len() - 1 <= without_trailing_cr(line).len() <= line.len(),
        without_trailing_cr(line) == line.take(without_trailing_cr(line).len() as int),
        without_trailing_cr(line).len() < line.len() ==> line.last() == '\r',
        without_trailing_cr(line) == line <==> line.len() == 0 || line.last() != '\r',
{
    if line.len() > 0 && line.last() == '\r' {
        assert(line.drop_last() =~= line.take(line.len() - 1));
    } else {
        assert(line.take(line.len() as int) =~= line);
    }
}

/// Taking the empty lines from the end leaves the lines before them as they
/// were, empty ones among them, takes only empty lines, and leaves no empty
/// line at the end.
pub proof fn lemma_without_blank_tail(lines: Seq<Seq<char>>)
    ensures
        without_blank_tail(lines).len() <= lines.len(),
        without_blank_tail(lines) == lines.take(without_blank_tail(lines).len() as int),
        forall|i: int|
            without_blank_tail(lines).len() <= i < lines.len() ==> (#[trigger] lines[i]).len() == 0,
        without_blank_tail(lines).len() > 0 ==> without_blank_tail(lines).last().len() > 0,
        without_blank_tail(without_blank_tail(lines)) == without_blank_tail(lines),
    decreases lines.len(),
{
    if lines.len() > 0 && lines.last().len() == 0 {
        let front = lines.drop_last();
        lemma_without_blank_tail(front);
        let kept = without_blank_tail(front);
        assert(front.take(kept.len() as int) =~= lines.take(kept.len() as int));
        assert forall|i: int| kept.len() <= i < lines.len() implies (#[trigger] lines[i]).len()
            == 0 by {
            if i < front.len() {
                assert(lines[i] == front[i]);
            }
        }
    } else {
        assert(lines.take(lines.len() as int) =~= lines);
    }
}

/// No line of a text holds a line feed.
pub proof fn lemma_lines_hold_no_line_feed(text: Seq<char>)
    ensures
        !open_line(text).contains('\n'),
        forall|i: int|
            0 <= i < closed_lines(text).len() ==> !(#[trigger] closed_lines(text)[i]).contains(
                '\n',
            ),
        forall|i: int|
            0 <= i < lines_of(text).len() ==> !(#[trigger] lines_of(text)[i]).contains('\n'),
    decreases text.len(),
{
    if text.len() > 0 {
        let front = text.drop_last();
        lemma_lines_hold_no_line_feed(front);
        if text.last() != '\n' {
            let line = open_line(text);
            assert forall|k: int| 0 <= k < line.len() implies line[k] != '\n' by {
                if k < line.len() - 1 {
                    assert(open_line(front).contains(open_line(front)[k]));
                }
            }
        } else {
            assert forall|i: int| 0 <= i < closed_lines(text).len() implies !(
            #[trigger] closed_lines(text)[i]).contains('\n') by {
                if i < closed_lines(front).len() {
                    assert(closed_lines(text)[i] == closed_lines(front)[i]);
                }
            }
        }
    }
    assert forall|i: int| 0 <= i < lines_of(text).len() implies !(#[trigger] lines_of(
        text,
    )[i]).contains('\n') by {
        if i < closed_lines(text).len() {
            assert(lines_of(text)[i] == closed_lines(text)[i]);
        }
    }
}

/// Takes the carriage return from the end of `line`, where it ends in one.
fn trim_carriage_return(line: &mut Vec<char>)
    ensures
        final(line)@ == without_trailing_cr(old(line)@),
{
    if line.len() > 0 && line[line.len() - 1] == '\r' {
        line.pop();
    }
}

/// Reads a block of text as rows of art: one row for each line, without the
/// carriage return at its end where it ends in one, up to the last line that
/// is not empty. Empty lines before that one stay.
pub fn parse_ascii_art(text: &str) -> (lines: Vec<String>)
    ensures
        lines.deep_view() == parsed(text@),
        lines@.len() > 0 ==> lines@.last()@.len() > 0,
        lines@.len() <= clean_lines(text@).len(),
        forall|i: int| 0 <= i < lines@.len() ==> (#[trigger] lines@[i])@ == clean_lines(text@)[i],
        forall|i: int|
            lines@.len() <= i < clean_lines(text@).len() ==> (#[trigger] clean_lines(
                text@,
            )[i]).len() == 0,
{
    let mut lines: Vec<String> = Vec::new();
    let mut current: Vec<char> = Vec::new();
    for ch in it: text.chars()
        invariant
            it.seq() == text@,
            current@ == open_line(text@.take(it.index() as int)),
            lines@.len() == closed_lines(text@.take(it.index() as int)).len(),
            forall|k: int|
                0 <= k < lines@.len() ==> (#[trigger] lines@[k])@ == without_trailing_cr(
                    closed_lines(text@.take(it.index() as int))[k],
                ),
    {
        let ghost before = text@.take(it.index() as int);
        let ghost after = text@.take(it.index() + 1);
        assert(after.drop_last() == before && after.last() == ch);
        if ch == '\n' {
            trim_carriage_return(&mut current);
            lines.push(string_of(current.as_slice()));
            current = Vec::new();
        } else {
            current.push(ch);
        }
    }
    assert(text@.take(text@.len() as int) == text@);
    if current.len() > 0 {
        trim_carriage_return(&mut current);
        lines.push(string_of(current.as_slice()));
    }
    assert(lines.deep_view() =~= clean_lines(text@));
    let ghost clean = lines.deep_view();
    while lines.len() > 0 && lines[lines.len() - 1].as_str().is_empty()
        invariant
            lines@.len() <= clean.len(),
            lines.deep_view() == clean.take(lines@.len() as int),
            without_blank_tail(lines.deep_view()) == without_blank_tail(clean),
        decreases lines@.len(),
    {
        let ghost longer = lines.deep_view();
        lines.pop();
        assert(lines.deep_view() =~= longer.drop_last());
        assert(longer.drop_last() =~= clean.take(lines@.len() as int));
    }
    proof {
        lemma_without_blank_tail(clean);
        assert(lines@.len() > 0 ==> lines.deep_view().last() == lines@.last()@);
        assert forall|i: int| 0 <= i < lines@.len() implies (#[trigger] lines@[i])@ == clean[i] by {
            assert(lines.deep_view()[i] == lines@[i]@);
        }
    }
    lines
}

} // verus!
