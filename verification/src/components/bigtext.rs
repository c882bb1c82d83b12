//! Big text: letters four rows high, cut from a sheet of glyphs.

use vstd::prelude::*;

verus! {

/// Rows that a glyph takes up on the sheet and on screen.
pub const GLYPH_ROWS: usize = 4;

/// Where a letter lies on the sheet of glyphs: column and row of its upper
/// left corner, and its width in columns.
#[derive(Clone, Copy, Debug, PartialEq, Eq, Structural)]
pub struct Glyph {
    pub x: usize,
    pub y: usize,
    pub w: usize,
}

/// A glyph placed on screen.
#[derive(Clone, Copy, Debug, PartialEq, Eq, Structural)]
pub struct Cell {
    /// The column of the glyph's left edge.
    pub column: u16,
    pub glyph: Glyph,
}

/// The glyph of a character. Letters, digits, the full stop and the space
/// have one; any other character takes up no room.
pub open spec fn glyph_of(c: char) -> Glyph {
    if c == ' ' {
        Glyph { x: 41, y: 17, w: 2 }
    } else if c == '.' {
        Glyph { x: 39, y: 17, w: 2 }
    } else if c == '9' {
        Glyph { x: 35, y: 17, w: 4 }
    } else if c == '8' {
        Glyph { x: 31, y: 17, w: 4 }
    } else if c == '7' {
        Glyph { x: 27, y: 17, w: 4 }
    } else if c == '6' {
        Glyph { x: 23, y: 17, w: 4 }
    } else if c == '5' {
        Glyph { x: 19, y: 17, w: 4 }
    } else if c == '4' {
        Glyph { x: 15, y: 17, w: 4 }
    } else if c == '3' {
        Glyph { x: 11, y: 17, w: 4 }
    } else if c == '2' {
        Glyph { x: 7, y: 17, w: 4 }
    } else if c == '1' {
        Glyph { x: 4, y: 17, w: 3 }
    } else if c == '0' {
        Glyph { x: 0, y: 17, w: 4 }
    } else if c == 'z' {
        Glyph { x: 25, y: 13, w: 3 }
    } else if c == 'Z' {
        Glyph { x: 21, y: 13, w: 4 }
    } else if c == 'y' {
        Glyph { x: 18, y: 13, w: 3 }
    } else if c == 'Y' {
        Glyph { x: 15, y: 13, w: 3 }
    } else if c == 'x' {
        Glyph { x: 12, y: 13, w: 3 }
    } else if c == 'X' {
        Glyph { x: 8, y: 13, w: 4 }
    } else if c == 'w' {
        Glyph { x: 4, y: 13, w: 4 }
    } else if c == 'W' {
        Glyph { x: 0, y: 13, w: 4 }
    } else if c == 'v' {
        Glyph { x: 45, y: 9, w: 3 }
    } else if c == 'V' {
        Glyph { x: 41, y: 9, w: 4 }
    } else if c == 'u' {
        Glyph { x: 38, y: 9, w: 3 }
    } else if c == 'U' {
        Glyph { x: 34, y: 9, w: 4 }
    } else if c == 't' {
        Glyph { x: 31, y: 9, w: 3 }
    } else if c == 'T' {
        Glyph { x: 28, y: 9, w: 3 }
    } else if c == 's' {
        Glyph { x: 25, y: 9, w: 3 }
    } else if c == 'S' {
        Glyph { x: 21, y: 9, w: 4 }
    } else if c == 'r' {
        Glyph { x: 18, y: 9, w: 3 }
    } else if c == 'R' {
        Glyph { x: 14, y: 9, w: 4 }
    } else if c == 'q' {
        Glyph { x: 11, y: 9, w: 3 }
    } else if c == 'Q' {
        Glyph { x: 7, y: 9, w: 4 }
    } else if c == 'p' {
        Glyph { x: 4, y: 9, w: 3 }
    } else if c == 'P' {
        Glyph { x: 0, y: 9, w: 4 }
    } else if c == 'o' {
        Glyph { x: 50, y: 5, w: 3 }
    } else if c == 'O' {
        Glyph { x: 46, y: 5, w: 4 }
    } else if c == 'n' {
        Glyph { x: 43, y: 5, w: 3 }
    } else if c == 'N' {
        Glyph { x: 39, y: 5, w: 4 }
    } else if c == 'm' {
        Glyph { x: 35, y: 5, w: 4 }
    } else if c == 'M' {
        Glyph { x: 31, y: 5, w: 4 }
    } else if c == 'l' {
        Glyph { x: 29, y: 5, w: 2 }
    } else if c == 'L' {
        Glyph { x: 26, y: 5, w: 3 }
    } else if c == 'k' {
        Glyph { x: 23, y: 5, w: 3 }
    } else if c == 'K' {
        Glyph { x: 19, y: 5, w: 4 }
    } else if c == 'j' {
        Glyph { x: 16, y: 5, w: 3 }
    } else if c == 'J' {
        Glyph { x: 12, y: 5, w: 4 }
    } else if c == 'i' {
        Glyph { x: 10, y: 5, w: 2 }
    } else if c == 'I' {
        Glyph { x: 7, y: 5, w: 3 }
    } else if c == 'h' {
        Glyph { x: 4, y: 5, w: 3 }
    } else if c == 'H' {
        Glyph { x: 0, y: 5, w: 4 }
    } else if c == 'g' {
        Glyph { x: 46, y: 1, w: 3 }
    } else if c == 'G' {
        Glyph { x: 42, y: 1, w: 4 }
    } else if c == 'f' {
        Glyph { x: 39, y: 1, w: 3 }
    } else if c == 'F' {
        Glyph { x: 35, y: 1, w: 4 }
    } else if c == 'e' {
        Glyph { x: 32, y: 1, w: 3 }
    } else if c == 'E' {
        Glyph { x: 28, y: 1, w: 4 }
    } else if c == 'd' {
        Glyph { x: 25, y: 1, w: 3 }
    } else if c == 'D' {
        Glyph { x: 21, y: 1, w: 4 }
    } else if c == 'c' {
        Glyph { x: 18, y: 1, w: 3 }
    } else if c == 'C' {
        Glyph { x: 14, y: 1, w: 4 }
    } else if c == 'b' {
        Glyph { x: 11, y: 1, w: 3 }
    } else if c == 'B' {
        Glyph { x: 7, y: 1, w: 4 }
    } else if c == 'a' {
        Glyph { x: 4, y: 1, w: 3 }
    } else if c == 'A' {
        Glyph { x: 0, y: 1, w: 4 }
    } else {
        Glyph { x: 0, y: 0, w: 0 }
    }
}

/// The glyph of a character.
pub fn glyph(c: char) -> (g: Glyph)
    ensures
        g == glyph_of(c),
        g.w <= 4,
        g.x + g.w <= 53,
        g.y + GLYPH_ROWS <= 21,
{
    if c == ' ' {
        Glyph { x: 41, y: 17, w: 2 }
    } else if c == '.' {
        Glyph { x: 39, y: 17, w: 2 }
    } else if c == '9' {
        Glyph { x: 35, y: 17, w: 4 }
    } else if c == '8' {
        Glyph { x: 31, y: 17, w: 4 }
    } else if c == '7' {
        Glyph { x: 27, y: 17, w: 4 }
    } else if c == '6' {
        Glyph { x: 23, y: 17, w: 4 }
    } else if c == '5' {
        Glyph { x: 19, y: 17, w: 4 }
    } else if c == '4' {
        Glyph { x: 15, y: 17, w: 4 }
    } else if c == '3' {
        Glyph { x: 11, y: 17, w: 4 }
    } else if c == '2' {
        Glyph { x: 7, y: 17, w: 4 }
    } else if c == '1' {
        Glyph { x: 4, y: 17, w: 3 }
    } else if c == '0' {
        Glyph { x: 0, y: 17, w: 4 }
    } else if c == 'z' {
        Glyph { x: 25, y: 13, w: 3 }
    } else if c == 'Z' {
        Glyph { x: 21, y: 13, w: 4 }
    } else if c == 'y' {
        Glyph { x: 18, y: 13, w: 3 }
    } else if c == 'Y' {
        Glyph { x: 15, y: 13, w: 3 }
    } else if c == 'x' {
        Glyph { x: 12, y: 13, w: 3 }
    } else if c == 'X' {
        Glyph { x: 8, y: 13, w: 4 }
    } else if c == 'w' {
        Glyph { x: 4, y: 13, w: 4 }
    } else if c == 'W' {
        Glyph { x: 0, y: 13, w: 4 }
    } else if c == 'v' {
        Glyph { x: 45, y: 9, w: 3 }
    } else if c == 'V' {
        Glyph { x: 41, y: 9, w: 4 }
    } else if c == 'u' {
        Glyph { x: 38, y: 9, w: 3 }
    } else if c == 'U' {
        Glyph { x: 34, y: 9, w: 4 }
    } else if c == 't' {
        Glyph { x: 31, y: 9, w: 3 }
    } else if c == 'T' {
        Glyph { x: 28, y: 9, w: 3 }
    } else if c == 's' {
        Glyph { x: 25, y: 9, w: 3 }
    } else if c == 'S' {
        Glyph { x: 21, y: 9, w: 4 }
    } else if c == 'r' {
        Glyph { x: 18, y: 9, w: 3 }
    } else if c == 'R' {
        Glyph { x: 14, y: 9, w: 4 }
    } else if c == 'q' {
        Glyph { x: 11, y: 9, w: 3 }
    } else if c == 'Q' {
        Glyph { x: 7, y: 9, w: 4 }
    } else if c == 'p' {
        Glyph { x: 4, y: 9, w: 3 }
    } else if c == 'P' {
        Glyph { x: 0, y: 9, w: 4 }
    } else if c == 'o' {
        Glyph { x: 50, y: 5, w: 3 }
    } else if c == 'O' {
        Glyph { x: 46, y: 5, w: 4 }
    } else if c == 'n' {
        Glyph { x: 43, y: 5, w: 3 }
    } else if c == 'N' {
        Glyph { x: 39, y: 5, w: 4 }
    } else if c == 'm' {
        Glyph { x: 35, y: 5, w: 4 }
    } else if c == 'M' {
        Glyph { x: 31, y: 5, w: 4 }
    } else if c == 'l' {
        Glyph { x: 29, y: 5, w: 2 }
    } else if c == 'L' {
        Glyph { x: 26, y: 5, w: 3 }
    } else if c == 'k' {
        Glyph { x: 23, y: 5, w: 3 }
    } else if c == 'K' {
        Glyph { x: 19, y: 5, w: 4 }
    } else if c == 'j' {
        Glyph { x: 16, y: 5, w: 3 }
    } else if c == 'J' {
        Glyph { x: 12, y: 5, w: 4 }
    } else if c == 'i' {
        Glyph { x: 10, y: 5, w: 2 }
    } else if c == 'I' {
        Glyph { x: 7, y: 5, w: 3 }
    } else if c == 'h' {
        Glyph { x: 4, y: 5, w: 3 }
    } else if c == 'H' {
        Glyph { x: 0, y: 5, w: 4 }
    } else if c == 'g' {
        Glyph { x: 46, y: 1, w: 3 }
    } else if c == 'G' {
        Glyph { x: 42, y: 1, w: 4 }
    } else if c == 'f' {
        Glyph { x: 39, y: 1, w: 3 }
    } else if c == 'F' {
        Glyph { x: 35, y: 1, w: 4 }
    } else if c == 'e' {
        Glyph { x: 32, y: 1, w: 3 }
    } else if c == 'E' {
        Glyph { x: 28, y: 1, w: 4 }
    } else if c == 'd' {
        Glyph { x: 25, y: 1, w: 3 }
    } else if c == 'D' {
        Glyph { x: 21, y: 1, w: 4 }
    } else if c == 'c' {
        Glyph { x: 18, y: 1, w: 3 }
    } else if c == 'C' {
        Glyph { x: 14, y: 1, w: 4 }
    } else if c == 'b' {
        Glyph { x: 11, y: 1, w: 3 }
    } else if c == 'B' {
        Glyph { x: 7, y: 1, w: 4 }
    } else if c == 'a' {
        Glyph { x: 4, y: 1, w: 3 }
    } else if c == 'A' {
        Glyph { x: 0, y: 1, w: 4 }
    } else {
        Glyph { x: 0, y: 0, w: 0 }
    }
}

/// The column at which the glyph after the first `k` characters of a text
/// begins, when the text begins at column `x`.
pub open spec fn column_after(x: int, text: Seq<char>, k: int) -> int
    decreases k,
{
    if k <= 0 {
        x
    } else {
        column_after(x, text, k - 1) + glyph_of(text[k - 1]).w
    }
}

/// The glyphs of a text set side by side from column `x` on.
pub fn layout(x: u16, text: &Vec<char>) -> (cells: Vec<Cell>)
    requires
        x + 4 * text@.len() <= u16::MAX,
    ensures
        cells@.len() == text@.len(),
        forall|k: int|
            0 <= k < text@.len() ==> (#[trigger] cells@[k]).glyph == glyph_of(text@[k])
                && cells@[k].column == column_after(x as int, text@, k),
{
    let mut cells: Vec<Cell> = Vec::new();
    let mut current_x: u16 = x;
    let mut i: usize = 0;
    while i < text.len()
        invariant
            i <= text@.len(),
            x + 4 * text@.len() <= u16::MAX,
            current_x == column_after(x as int, text@, i as int),
            current_x <= x + 4 * i,
            cells@.len() == i,
            forall|k: int|
                0 <= k < i ==> (#[trigger] cells@[k]).glyph == glyph_of(text@[k])
                    && cells@[k].column == column_after(x as int, text@, k),
        decreases text@.len() - i,
    {
        let g = glyph(text[i]);
        cells.push(Cell { column: current_x, glyph: g });
        current_x = current_x + g.w as u16;
        i += 1;
    }
    cells
}

} // verus!
