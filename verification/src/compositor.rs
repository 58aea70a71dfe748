//! The box-drawing compositor: from the lines that meet at a cell to the one
//! character that draws them.
use vstd::prelude::*;

verus! {

/// The line, if any, that crosses one side of a cell.
#[derive(Clone, Copy, Debug, PartialEq, Eq, Structural)]
pub enum Edge {
    Absent,
    LightLine,
    HeavyLine,
}

/// The lines that meet at one character cell, side by side.
#[derive(Clone, Copy, Debug, PartialEq, Eq, Structural)]
pub struct Junction {
    pub top: Edge,
    pub right: Edge,
    pub bottom: Edge,
    pub left: Edge,
}

/// The glyph drawn where the table has none for a junction: a plain cross.
pub const FALLBACK: char = '┼';

/// The glyph of the empty junction: a blank cell.
pub const BLANK: char = ' ';

/// The characters the compositor draws with, laid out by
/// [`Junction::code`].
pub const GLYPHS: [char; 81] = [
    ' ', '╴', '╸',
    '╷', '┐', '┑',
    '╻', '┒', '┓',
    '╶', '─', '╾',
    '┌', '┬', '┭',
    '┎', '┰', '┱',
    '╺', '╼', '━',
    '┍', '┮', '┯',
    '┏', '┲', '┳',
    '╵', '┘', '┙',
    '│', '┤', '┥',
    '╽', '┧', '┪',
    '└', '┴', '┵',
    '├', '┼', '┽',
    '┟', '╁', '╅',
    '┕', '┶', '┷',
    '┝', '┾', '┿',
    '┢', '╆', '┼',
    '╹', '┚', '┛',
    '╿', '┦', '┩',
    '┃', '┨', '┫',
    '┖', '┸', '┹',
    '┞', '╀', '╃',
    '┠', '╂', '┼',
    '┗', '┺', '┻',
    '┡', '╄', '┼',
    '┣', '┼', '╋',
];

impl Edge {
    /// The digit that stands for this edge in a junction's code.
    pub open spec fn digit(self) -> nat {
        match self {
            Edge::Absent => 0,
            Edge::LightLine => 1,
            Edge::HeavyLine => 2,
        }
    }

    /// The edge's digit, computed.
    pub fn ordinal(self) -> (d: usize)
        ensures
            d == self.digit(),
    {
        match self {
            Edge::Absent => 0,
            Edge::LightLine => 1,
            Edge::HeavyLine => 2,
        }
    }
}

/// The lines that a character draws, for the characters the compositor
/// knows: the blank and the light and heavy box-drawing characters.
pub open spec fn lines_of(c: char) -> Option<Junction> {
    match c {
        ' ' => Some(Junction { top: Edge::Absent, right: Edge::Absent, bottom: Edge::Absent, left: Edge::Absent }),
        '─' => Some(Junction { top: Edge::Absent, right: Edge::LightLine, bottom: Edge::Absent, left: Edge::LightLine }),
        '━' => Some(Junction { top: Edge::Absent, right: Edge::HeavyLine, bottom: Edge::Absent, left: Edge::HeavyLine }),
        '│' => Some(Junction { top: Edge::LightLine, right: Edge::Absent, bottom: Edge::LightLine, left: Edge::Absent }),
        '┃' => Some(Junction { top: Edge::HeavyLine, right: Edge::Absent, bottom: Edge::HeavyLine, left: Edge::Absent }),
        '┌' => Some(Junction { top: Edge::Absent, right: Edge::LightLine, bottom: Edge::LightLine, left: Edge::Absent }),
        '┍' => Some(Junction { top: Edge::Absent, right: Edge::HeavyLine, bottom: Edge::LightLine, left: Edge::Absent }),
        '┎' => Some(Junction { top: Edge::Absent, right: Edge::LightLine, bottom: Edge::HeavyLine, left: Edge::Absent }),
        '┏' => Some(Junction { top: Edge::Absent, right: Edge::HeavyLine, bottom: Edge::HeavyLine, left: Edge::Absent }),
        '┐' => Some(Junction { top: Edge::Absent, right: Edge::Absent, bottom: Edge::LightLine, left: Edge::LightLine }),
        '┑' => Some(Junction { top: Edge::Absent, right: Edge::Absent, bottom: Edge::LightLine, left: Edge::HeavyLine }),
        '┒' => Some(Junction { top: Edge::Absent, right: Edge::Absent, bottom: Edge::HeavyLine, left: Edge::LightLine }),
        '┓' => Some(Junction { top: Edge::Absent, right: Edge::Absent, bottom: Edge::HeavyLine, left: Edge::HeavyLine }),
        '└' => Some(Junction { top: Edge::LightLine, right: Edge::LightLine, bottom: Edge::Absent, left: Edge::Absent }),
        '┕' => Some(Junction { top: Edge::LightLine, right: Edge::HeavyLine, bottom: Edge::Absent, left: Edge::Absent }),
        '┖' => Some(Junction { top: Edge::HeavyLine, right: Edge::LightLine, bottom: Edge::Absent, left: Edge::Absent }),
        '┗' => Some(Junction { top: Edge::HeavyLine, right: Edge::HeavyLine, bottom: Edge::Absent, left: Edge::Absent }),
        '┘' => Some(Junction { top: Edge::LightLine, right: Edge::Absent, bottom: Edge::Absent, left: Edge::LightLine }),
        '┙' => Some(Junction { top: Edge::LightLine, right: Edge::Absent, bottom: Edge::Absent, left: Edge::HeavyLine }),
        '┚' => Some(Junction { top: Edge::HeavyLine, right: Edge::Absent, bottom: Edge::Absent, left: Edge::LightLine }),
        '┛' => Some(Junction { top: Edge::HeavyLine, right: Edge::Absent, bottom: Edge::Absent, left: Edge::HeavyLine }),
        '├' => Some(Junction { top: Edge::LightLine, right: Edge::LightLine, bottom: Edge::LightLine, left: Edge::Absent }),
        '┝' => Some(Junction { top: Edge::LightLine, right: Edge::HeavyLine, bottom: Edge::LightLine, left: Edge::Absent }),
        '┞' => Some(Junction { top: Edge::HeavyLine, right: Edge::LightLine, bottom: Edge::LightLine, left: Edge::Absent }),
        '┟' => Some(Junction { top: Edge::LightLine, right: Edge::LightLine, bottom: Edge::HeavyLine, left: Edge::Absent }),
        '┠' => Some(Junction { top: Edge::HeavyLine, right: Edge::LightLine, bottom: Edge::HeavyLine, left: Edge::Absent }),
        '┡' => Some(Junction { top: Edge::HeavyLine, right: Edge::HeavyLine, bottom: Edge::LightLine, left: Edge::Absent }),
        '┢' => Some(Junction { top: Edge::LightLine, right: Edge::HeavyLine, bottom: Edge::HeavyLine, left: Edge::Absent }),
        '┣' => Some(Junction { top: Edge::HeavyLine, right: Edge::HeavyLine, bottom: Edge::HeavyLine, left: Edge::Absent }),
        '┤' => Some(Junction { top: Edge::LightLine, right: Edge::Absent, bottom: Edge::LightLine, left: Edge::LightLine }),
        '┥' => Some(Junction { top: Edge::LightLine, right: Edge::Absent, bottom: Edge::LightLine, left: Edge::HeavyLine }),
        '┦' => Some(Junction { top: Edge::HeavyLine, right: Edge::Absent, bottom: Edge::LightLine, left: Edge::LightLine }),
        '┧' => Some(Junction { top: Edge::LightLine, right: Edge::Absent, bottom: Edge::HeavyLine, left: Edge::LightLine }),
        '┨' => Some(Junction { top: Edge::HeavyLine, right: Edge::Absent, bottom: Edge::HeavyLine, left: Edge::LightLine }),
        '┩' => Some(Junction { top: Edge::HeavyLine, right: Edge::Absent, bottom: Edge::LightLine, left: Edge::HeavyLine }),
        '┪' => Some(Junction { top: Edge::LightLine, right: Edge::Absent, bottom: Edge::HeavyLine, left: Edge::HeavyLine }),
        '┫' => Some(Junction { top: Edge::HeavyLine, right: Edge::Absent, bottom: Edge::HeavyLine, left: Edge::HeavyLine }),
        '┬' => Some(Junction { top: Edge::Absent, right: Edge::LightLine, bottom: Edge::LightLine, left: Edge::LightLine }),
        '┭' => Some(Junction { top: Edge::Absent, right: Edge::LightLine, bottom: Edge::LightLine, left: Edge::HeavyLine }),
        '┮' => Some(Junction { top: Edge::Absent, right: Edge::HeavyLine, bottom: Edge::LightLine, left: Edge::LightLine }),
        '┯' => Some(Junction { top: Edge::Absent, right: Edge::HeavyLine, bottom: Edge::LightLine, left: Edge::HeavyLine }),
        '┰' => Some(Junction { top: Edge::Absent, right: Edge::LightLine, bottom: Edge::HeavyLine, left: Edge::LightLine }),
        '┱' => Some(Junction { top: Edge::Absent, right: Edge::LightLine, bottom: Edge::HeavyLine, left: Edge::HeavyLine }),
        '┲' => Some(Junction { top: Edge::Absent, right: Edge::HeavyLine, bottom: Edge::HeavyLine, left: Edge::LightLine }),
        '┳' => Some(Junction { top: Edge::Absent, right: Edge::HeavyLine, bottom: Edge::HeavyLine, left: Edge::HeavyLine }),
        '┴' => Some(Junction { top: Edge::LightLine, right: Edge::LightLine, bottom: Edge::Absent, left: Edge::LightLine }),
        '┵' => Some(Junction { top: Edge::LightLine, right: Edge::LightLine, bottom: Edge::Absent, left: Edge::HeavyLine }),
        '┶' => Some(Junction { top: Edge::LightLine, right: Edge::HeavyLine, bottom: Edge::Absent, left: Edge::LightLine }),
        '┷' => Some(Junction { top: Edge::LightLine, right: Edge::HeavyLine, bottom: Edge::Absent, left: Edge::HeavyLine }),
        '┸' => Some(Junction { top: Edge::HeavyLine, right: Edge::LightLine, bottom: Edge::Absent, left: Edge::LightLine }),
        '┹' => Some(Junction { top: Edge::HeavyLine, right: Edge::LightLine, bottom: Edge::Absent, left: Edge::HeavyLine }),
        '┺' => Some(Junction { top: Edge::HeavyLine, right: Edge::HeavyLine, bottom: Edge::Absent, left: Edge::LightLine }),
        '┻' => Some(Junction { top: Edge::HeavyLine, right: Edge::HeavyLine, bottom: Edge::Absent, left: Edge::HeavyLine }),
        '┼' => Some(Junction { top: Edge::LightLine, right: Edge::LightLine, bottom: Edge::LightLine, left: Edge::LightLine }),
        '┽' => Some(Junction { top: Edge::LightLine, right: Edge::LightLine, bottom: Edge::LightLine, left: Edge::HeavyLine }),
        '┾' => Some(Junction { top: Edge::LightLine, right: Edge::HeavyLine, bottom: Edge::LightLine, left: Edge::LightLine }),
        '┿' => Some(Junction { top: Edge::LightLine, right: Edge::HeavyLine, bottom: Edge::LightLine, left: Edge::HeavyLine }),
        '╀' => Some(Junction { top: Edge::HeavyLine, right: Edge::LightLine, bottom: Edge::LightLine, left: Edge::LightLine }),
        '╁' => Some(Junction { top: Edge::LightLine, right: Edge::LightLine, bottom: Edge::HeavyLine, left: Edge::LightLine }),
        '╂' => Some(Junction { top: Edge::HeavyLine, right: Edge::LightLine, bottom: Edge::HeavyLine, left: Edge::LightLine }),
        '╃' => Some(Junction { top: Edge::HeavyLine, right: Edge::LightLine, bottom: Edge::LightLine, left: Edge::HeavyLine }),
        '╄' => Some(Junction { top: Edge::HeavyLine, right: Edge::HeavyLine, bottom: Edge::LightLine, left: Edge::LightLine }),
        '╅' => Some(Junction { top: Edge::LightLine, right: Edge::LightLine, bottom: Edge::HeavyLine, left: Edge::HeavyLine }),
        '╆' => Some(Junction { top: Edge::LightLine, right: Edge::HeavyLine, bottom: Edge::HeavyLine, left: Edge::LightLine }),
        '╋' => Some(Junction { top: Edge::HeavyLine, right: Edge::HeavyLine, bottom: Edge::HeavyLine, left: Edge::HeavyLine }),
        '╴' => Some(Junction { top: Edge::Absent, right: Edge::Absent, bottom: Edge::Absent, left: Edge::LightLine }),
        '╵' => Some(Junction { top: Edge::LightLine, right: Edge::Absent, bottom: Edge::Absent, left: Edge::Absent }),
        '╶' => Some(Junction { top: Edge::Absent, right: Edge::LightLine, bottom: Edge::Absent, left: Edge::Absent }),
        '╷' => Some(Junction { top: Edge::Absent, right: Edge::Absent, bottom: Edge::LightLine, left: Edge::Absent }),
        '╸' => Some(Junction { top: Edge::Absent, right: Edge::Absent, bottom: Edge::Absent, left: Edge::HeavyLine }),
        '╹' => Some(Junction { top: Edge::HeavyLine, right: Edge::Absent, bottom: Edge::Absent, left: Edge::Absent }),
        '╺' => Some(Junction { top: Edge::Absent, right: Edge::HeavyLine, bottom: Edge::Absent, left: Edge::Absent }),
        '╻' => Some(Junction { top: Edge::Absent, right: Edge::Absent, bottom: Edge::HeavyLine, left: Edge::Absent }),
        '╼' => Some(Junction { top: Edge::Absent, right: Edge::HeavyLine, bottom: Edge::Absent, left: Edge::LightLine }),
        '╽' => Some(Junction { top: Edge::LightLine, right: Edge::Absent, bottom: Edge::HeavyLine, left: Edge::Absent }),
        '╾' => Some(Junction { top: Edge::Absent, right: Edge::LightLine, bottom: Edge::Absent, left: Edge::HeavyLine }),
        '╿' => Some(Junction { top: Edge::HeavyLine, right: Edge::Absent, bottom: Edge::LightLine, left: Edge::Absent }),
        _ => None,
    }
}

impl Junction {
    /// The junction's place in [`GLYPHS`]: its four edges read as a number in
    /// base three, the top edge first and the left edge last.
    pub open spec fn code(self) -> nat {
        self.top.digit() * 27 + self.right.digit() * 9 + self.bottom.digit() * 3
            + self.left.digit()
    }

    /// A cross of three heavy arms and one light arm.
    pub open spec fn is_lopsided_cross(self) -> bool {
        self.top.digit() + self.right.digit() + self.bottom.digit() + self.left.digit() == 7
    }

    /// The junction's code, computed.
    pub fn index(self) -> (i: usize)
        ensures
            i == self.code(),
            i < 81,
    {
        self.top.ordinal() * 27 + self.right.ordinal() * 9 + self.bottom.ordinal() * 3
            + self.left.ordinal()
    }
}

/// Whether some character draws exactly the lines of `j`.
pub open spec fn has_glyph(j: Junction) -> bool {
    exists|c: char| lines_of(c) == Some(j)
}

/// The character that stands for `j`: the one that draws its lines, or the
/// fallback for the four crosses that no character of the table draws.
pub open spec fn glyph(j: Junction) -> char {
    if j.is_lopsided_cross() {
        FALLBACK
    } else {
        choose|c: char| lines_of(c) == Some(j)
    }
}

/// No two characters draw the same lines.
pub proof fn lemma_lines_distinct(a: char, b: char)
    requires
        lines_of(a).is_some(),
        lines_of(a) == lines_of(b),
    ensures
        a == b,
{
}

/// The junctions without a glyph are the four crosses of three heavy arms
/// and one light arm, and no others.
pub proof fn lemma_uncovered(j: Junction)
    ensures
        has_glyph(j) <==> !j.is_lopsided_cross(),
{
    if j.is_lopsided_cross() {
        assert forall|c: char| lines_of(c) != Some(j) by {}
    } else {
        assert(lines_of(GLYPHS[j.code() as int]) == Some(j));
    }
}

/// Every junction has a glyph, and it is the blank or a character of the
/// box-drawing block.
pub proof fn lemma_glyph_defined(j: Junction)
    ensures
        glyph(j) == GLYPHS[j.code() as int],
        glyph(j) == BLANK || 0x2500 <= glyph(j) as u32 <= 0x257F,
        glyph(j) == BLANK <==> j.code() == 0,
{
    if !j.is_lopsided_cross() {
        assert(lines_of(GLYPHS[j.code() as int]) == Some(j));
        lemma_lines_distinct(GLYPHS[j.code() as int], glyph(j));
    }
}

/// There are 81 junctions, and each has a code of its own.
pub proof fn lemma_code_distinct(a: Junction, b: Junction)
    ensures
        a.code() < 81,
        a.code() == b.code() ==> a == b,
{
}

/// Junctions with a glyph of their own never share it.
pub proof fn lemma_glyph_distinct(a: Junction, b: Junction)
    requires
        !a.is_lopsided_cross(),
        !b.is_lopsided_cross(),
        glyph(a) == glyph(b),
    ensures
        a == b,
{
    lemma_uncovered(a);
    lemma_uncovered(b);
}

/// Picks the glyph for the lines that meet at a cell.
///
/// Never fails. A cross of three heavy arms and one light arm, which no
/// character of the table draws, gets [`FALLBACK`]; the empty junction gets
/// [`BLANK`]; every other junction gets the character that draws its lines.
pub fn compose(junction: Junction) -> (c: char)
    ensures
        c == glyph(junction),
        junction.is_lopsided_cross() ==> c == FALLBACK,
        !junction.is_lopsided_cross() ==> lines_of(c) == Some(junction),
{
    let c = GLYPHS[junction.index()];
    proof {
        if !junction.is_lopsided_cross() {
            assert(lines_of(c) == Some(junction));
            lemma_lines_distinct(c, glyph(junction));
        }
    }
    c
}

} // verus!
