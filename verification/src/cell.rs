//! Cells, lines and the drawing pen: the fixed-size units of the grid.

use vstd::prelude::*;

verus! {

/// A colour as the protocol names one.
#[derive(Debug, Clone, Copy, PartialEq, Eq, Structural)]
pub enum Color {
    /// The terminal's configured default for the ground it is used on.
    Default,
    /// One of the 256 palette entries.
    Indexed(u8),
    /// A direct red-green-blue triple.
    Rgb(u8, u8, u8),
}

/// The style-attribute set of a cell, one flag per graphic rendition.
#[derive(Debug, Clone, Copy, PartialEq, Eq, Structural)]
pub struct StyleFlags {
    pub bold: bool,
    pub italic: bool,
    pub underline: bool,
    pub strikethrough: bool,
    pub inverse: bool,
    pub hidden: bool,
    pub blink: bool,
}

impl StyleFlags {
    /// All attributes off.
    pub open spec fn plain_spec() -> StyleFlags {
        StyleFlags {
            bold: false,
            italic: false,
            underline: false,
            strikethrough: false,
            inverse: false,
            hidden: false,
            blink: false,
        }
    }

    /// All attributes off.
    pub fn plain() -> (r: StyleFlags)
        ensures
            r == StyleFlags::plain_spec(),
    {
        StyleFlags {
            bold: false,
            italic: false,
            underline: false,
            strikethrough: false,
            inverse: false,
            hidden: false,
            blink: false,
        }
    }
}

/// What the next printed cell will look like: the current graphic state.
#[derive(Debug, Clone, Copy, PartialEq, Eq, Structural)]
pub struct Pen {
    pub fg: Color,
    pub bg: Color,
    pub style: StyleFlags,
}

impl Pen {
    /// The reset-state pen: default colours, no attributes.
    pub open spec fn plain_spec() -> Pen {
        Pen { fg: Color::Default, bg: Color::Default, style: StyleFlags::plain_spec() }
    }

    /// The reset-state pen: default colours, no attributes.
    pub fn plain() -> (r: Pen)
        ensures
            r == Pen::plain_spec(),
    {
        Pen { fg: Color::Default, bg: Color::Default, style: StyleFlags::plain() }
    }
}

/// One grid position: a displayed scalar value (0 meaning empty) with its
/// colours and attributes.  Fixed-size and copyable.
#[derive(Debug, Clone, Copy, PartialEq, Eq, Structural)]
pub struct Cell {
    pub ch: u32,
    pub fg: Color,
    pub bg: Color,
    pub style: StyleFlags,
}

impl Cell {
    /// The cell an erasure leaves behind: empty glyph, the pen's background,
    /// no attributes.
    pub open spec fn erased_spec(pen: Pen) -> Cell {
        Cell { ch: 0, fg: Color::Default, bg: pen.bg, style: StyleFlags::plain_spec() }
    }

    /// The cell an erasure leaves behind.
    pub fn erased(pen: Pen) -> (r: Cell)
        ensures
            r == Cell::erased_spec(pen),
    {
        Cell { ch: 0, fg: Color::Default, bg: pen.bg, style: StyleFlags::plain() }
    }
}

/// Mathematical view of a [`Line`].
#[verifier::ext_equal]
pub struct LineV {
    pub cells: Seq<Cell>,
    pub wrapped: bool,
}

/// One row of the grid: a fixed-width run of cells plus the soft-wrap flag.
pub struct Line {
    pub cells: Vec<Cell>,
    pub wrapped: bool,
}

impl View for Line {
    type V = LineV;

    open spec fn view(&self) -> LineV {
        LineV { cells: self.cells@, wrapped: self.wrapped }
    }
}

/// A blank line of `w` erased cells, not wrapped.
pub open spec fn blank_line_spec(w: int, pen: Pen) -> LineV {
    LineV { cells: Seq::new(w as nat, |i: int| Cell::erased_spec(pen)), wrapped: false }
}

/// Builds a blank line of `w` erased cells.
pub fn blank_line(w: usize, pen: Pen) -> (r: Line)
    ensures
        r@ == blank_line_spec(w as int, pen),
{
    let mut cells: Vec<Cell> = Vec::new();
    let mut i: usize = 0;
    while i < w
        invariant
            i <= w,
            cells@ =~= Seq::new(i as nat, |j: int| Cell::erased_spec(pen)),
        decreases w - i,
    {
        cells.push(Cell::erased(pen));
        proof {
            assert(cells@ =~= Seq::new((i + 1) as nat, |j: int| Cell::erased_spec(pen)));
        }
        i += 1;
    }
    let r = Line { cells, wrapped: false };
    proof {
        assert(r@.cells =~= blank_line_spec(w as int, pen).cells);
        assert(r@ =~= blank_line_spec(w as int, pen));
    }
    r
}

/// A selectable character set for one of the four slots.
#[derive(Debug, Clone, Copy, PartialEq, Eq, Structural)]
pub enum Charset {
    /// Bytes map to themselves.
    Ascii,
    /// The DEC special graphics set: the box-drawing range.
    SpecialGraphics,
}

/// How a printed code point lands in a cell under the active character set:
/// in the special-graphics set the `0x60..=0x7e` range becomes line-drawing
/// glyphs; everything else is unchanged.
pub open spec fn charset_map_spec(cs: Charset, cp: u32) -> u32 {
    if cs == Charset::SpecialGraphics && 0x60 <= cp && cp <= 0x7e {
        special_graphic_spec(cp)
    } else {
        cp
    }
}

/// The DEC special graphics glyph for a byte in the `0x60..=0x7e` range.
pub open spec fn special_graphic_spec(cp: u32) -> u32 {
    if cp == 0x60 {
        0x25c6
    } else if cp == 0x61 {
        0x2592
    } else if cp == 0x62 {
        0x2409
    } else if cp == 0x63 {
        0x240c
    } else if cp == 0x64 {
        0x240d
    } else if cp == 0x65 {
        0x240a
    } else if cp == 0x66 {
        0xb0
    } else if cp == 0x67 {
        0xb1
    } else if cp == 0x68 {
        0x2424
    } else if cp == 0x69 {
        0x240b
    } else if cp == 0x6a {
        0x2518
    } else if cp == 0x6b {
        0x2510
    } else if cp == 0x6c {
        0x250c
    } else if cp == 0x6d {
        0x2514
    } else if cp == 0x6e {
        0x253c
    } else if cp == 0x6f {
        0x23ba
    } else if cp == 0x70 {
        0x23bb
    } else if cp == 0x71 {
        0x2500
    } else if cp == 0x72 {
        0x23bc
    } else if cp == 0x73 {
        0x23bd
    } else if cp == 0x74 {
        0x251c
    } else if cp == 0x75 {
        0x2524
    } else if cp == 0x76 {
        0x2534
    } else if cp == 0x77 {
        0x252c
    } else if cp == 0x78 {
        0x2502
    } else if cp == 0x79 {
        0x2264
    } else if cp == 0x7a {
        0x2265
    } else if cp == 0x7b {
        0x3c0
    } else if cp == 0x7c {
        0x2260
    } else if cp == 0x7d {
        0xa3
    } else {
        0xb7
    }
}

/// Executable twin of [`charset_map_spec`].
pub fn charset_map(cs: Charset, cp: u32) -> (r: u32)
    ensures
        r == charset_map_spec(cs, cp),
{
    if matches!(cs, Charset::SpecialGraphics) && 0x60 <= cp && cp <= 0x7e {
        special_graphic(cp)
    } else {
        cp
    }
}

/// Executable twin of [`special_graphic_spec`].
fn special_graphic(cp: u32) -> (r: u32)
    ensures
        r == special_graphic_spec(cp),
{
    if cp == 0x60 {
        0x25c6
    } else if cp == 0x61 {
        0x2592
    } else if cp == 0x62 {
        0x2409
    } else if cp == 0x63 {
        0x240c
    } else if cp == 0x64 {
        0x240d
    } else if cp == 0x65 {
        0x240a
    } else if cp == 0x66 {
        0xb0
    } else if cp == 0x67 {
        0xb1
    } else if cp == 0x68 {
        0x2424
    } else if cp == 0x69 {
        0x240b
    } else if cp == 0x6a {
        0x2518
    } else if cp == 0x6b {
        0x2510
    } else if cp == 0x6c {
        0x250c
    } else if cp == 0x6d {
        0x2514
    } else if cp == 0x6e {
        0x253c
    } else if cp == 0x6f {
        0x23ba
    } else if cp == 0x70 {
        0x23bb
    } else if cp == 0x71 {
        0x2500
    } else if cp == 0x72 {
        0x23bc
    } else if cp == 0x73 {
        0x23bd
    } else if cp == 0x74 {
        0x251c
    } else if cp == 0x75 {
        0x2524
    } else if cp == 0x76 {
        0x2534
    } else if cp == 0x77 {
        0x252c
    } else if cp == 0x78 {
        0x2502
    } else if cp == 0x79 {
        0x2264
    } else if cp == 0x7a {
        0x2265
    } else if cp == 0x7b {
        0x3c0
    } else if cp == 0x7c {
        0x2260
    } else if cp == 0x7d {
        0xa3
    } else {
        0xb7
    }
}

} // verus!
