//! The density ramp: a fixed scale of characters from the lightest to the
//! darkest, and the density level of each character.

use vstd::prelude::*;

verus! {

/// The darkest density level.
pub const MAX_DENSITY: u8 = 8;

/// The density ramp, from the lightest character to the darkest.
pub open spec fn ramp() -> Seq<char> {
    seq![' ', '.', ',', ':', ';', 'o', 'x', '%', '#']
}

/// The density level of a character: its place in the ramp, and 0 for a
/// character that the ramp does not hold.
pub open spec fn density(ch: char) -> nat {
    if ramp().contains(ch) {
        ramp().index_of(ch) as nat
    } else {
        0
    }
}

/// The character of a density level. Levels above the darkest count as the
/// darkest.
pub open spec fn ramp_char(level: nat) -> char {
    if level < ramp().len() {
        ramp()[level as int]
    } else {
        ramp().last()
    }
}

/// No character stands twice in the ramp, so each level below its length is
/// the density of its own character.
pub proof fn lemma_density_of_ramp_char(level: nat)
    ensures
        density(ramp_char(level)) == if level <= MAX_DENSITY {
            level
        } else {
            MAX_DENSITY as nat
        },
{
    let r = ramp();
    let l: int = if level <= MAX_DENSITY { level as int } else { MAX_DENSITY as int };
    assert(r.len() == 9);
    assert(ramp_char(level) == r[l]);
    assert(r.contains(r[l]));
    let k = r.index_of(r[l]);
    assert(0 <= k < 9 && r[k] == r[l]);
    assert(r[0] == ' ' && r[1] == '.' && r[2] == ',' && r[3] == ':' && r[4] == ';' && r[5] == 'o'
        && r[6] == 'x' && r[7] == '%' && r[8] == '#');
}

/// A character of the ramp is the character of its own density.
pub proof fn lemma_ramp_char_of_density(ch: char)
    requires
        ramp().contains(ch),
    ensures
        ramp_char(density(ch)) == ch,
        density(ch) <= MAX_DENSITY,
{
    let k = ramp().index_of(ch);
    assert(0 <= k < ramp().len() && ramp()[k] == ch);
}

/// Every density is a level of the ramp.
pub proof fn lemma_density_bounded(ch: char)
    ensures
        density(ch) <= MAX_DENSITY,
{
    if ramp().contains(ch) {
        lemma_ramp_char_of_density(ch);
    }
}

/// The density level of `ch`.
pub fn density_index(ch: char) -> (level: u8)
    ensures
        level == density(ch),
        level <= MAX_DENSITY,
{
    let level: u8 = match ch {
        ' ' => 0,
        '.' => 1,
        ',' => 2,
        ':' => 3,
        ';' => 4,
        'o' => 5,
        'x' => 6,
        '%' => 7,
        '#' => 8,
        _ => 0,
    };
    proof {
        let r = ramp();
        assert(r[0] == ' ' && r[1] == '.' && r[2] == ',' && r[3] == ':' && r[4] == ';' && r[5]
            == 'o' && r[6] == 'x' && r[7] == '%' && r[8] == '#');
        if r.contains(ch) {
            let k = r.index_of(ch);
            assert(0 <= k < 9 && r[k] == ch);
        } else {
            assert(forall|i: int| 0 <= i < 9 ==> r[i] != ch);
        }
    }
    level
}

/// The character of a density level; a level above the darkest gives the
/// darkest character.
pub fn density_char(level: usize) -> (ch: char)
    ensures
        ch == ramp_char(level as nat),
{
    match level {
        0 => ' ',
        1 => '.',
        2 => ',',
        3 => ':',
        4 => ';',
        5 => 'o',
        6 => 'x',
        7 => '%',
        _ => '#',
    }
}

} // verus!
