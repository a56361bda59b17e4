//! The unit of the screen grid: a character together with its colors and
//! display attributes, and the pen that the emulator paints with.

use vstd::prelude::*;

verus! {

/// A color as the Select Graphic Rendition sequences name one: the default
/// color, one of the 16 basic colors, a 256-palette index, or a direct
/// red/green/blue triple.
#[derive(Clone, Copy, PartialEq, Eq, Structural, Debug)]
pub enum Color {
    Default,
    /// One of the 16 basic colors; values 0 to 7 are the standard set,
    /// 8 to 15 the bright set.
    Ansi(u8),
    /// An index into the 256-color palette.
    Indexed(u8),
    /// A direct 24-bit color.
    Rgb(u8, u8, u8),
}

/// The display attribute flags a cell can carry.  These are exactly the
/// flags that affect how a cell is rendered; structural flags play no part
/// in this emulator, which treats every character as one column wide.
#[derive(Clone, Copy, PartialEq, Eq, Structural, Debug)]
pub struct Attrs {
    pub bold: bool,
    pub dim: bool,
    pub italic: bool,
    pub underline: bool,
    pub inverse: bool,
    pub hidden: bool,
    pub strikeout: bool,
}

impl Attrs {
    /// All flags off.
    pub open spec fn spec_none() -> Attrs {
        Attrs {
            bold: false,
            dim: false,
            italic: false,
            underline: false,
            inverse: false,
            hidden: false,
            strikeout: false,
        }
    }

    /// All flags off.
    pub fn none() -> (r: Attrs)
        ensures
            r == Attrs::spec_none(),
    {
        Attrs {
            bold: false,
            dim: false,
            italic: false,
            underline: false,
            inverse: false,
            hidden: false,
            strikeout: false,
        }
    }
}

/// One cell of the grid: a display character, its colors, and its flags.
#[derive(Clone, Copy, PartialEq, Eq, Structural, Debug)]
pub struct Cell {
    pub ch: char,
    pub fg: Color,
    pub bg: Color,
    pub attrs: Attrs,
}

impl Cell {
    /// A blank cell: a space with default colors and no attributes.
    pub open spec fn spec_blank() -> Cell {
        Cell { ch: ' ', fg: Color::Default, bg: Color::Default, attrs: Attrs::spec_none() }
    }

    /// A blank cell: a space with default colors and no attributes.
    pub fn blank() -> (r: Cell)
        ensures
            r == Cell::spec_blank(),
    {
        Cell { ch: ' ', fg: Color::Default, bg: Color::Default, attrs: Attrs::none() }
    }

    /// Whether the cell's colors and flags are all default, so that it
    /// renders exactly like its bare character.
    pub open spec fn spec_is_plain(self) -> bool {
        self.fg == Color::Default && self.bg == Color::Default && self.attrs
            == Attrs::spec_none()
    }

    /// Whether the cell's colors and flags are all default.
    pub fn is_plain(&self) -> (r: bool)
        ensures
            r == self.spec_is_plain(),
    {
        self.fg == Color::Default && self.bg == Color::Default && self.attrs == Attrs::none()
    }
}

/// The pen: the attribute state that Select Graphic Rendition sequences set
/// and that every printed character is stamped with.
#[derive(Clone, Copy, PartialEq, Eq, Structural, Debug)]
pub struct Pen {
    pub fg: Color,
    pub bg: Color,
    pub attrs: Attrs,
}

impl Pen {
    /// The default pen: default colors, no attributes.
    pub open spec fn spec_default() -> Pen {
        Pen { fg: Color::Default, bg: Color::Default, attrs: Attrs::spec_none() }
    }

    /// The default pen: default colors, no attributes.
    pub fn plain() -> (r: Pen)
        ensures
            r == Pen::spec_default(),
    {
        Pen { fg: Color::Default, bg: Color::Default, attrs: Attrs::none() }
    }

    /// The cell this pen paints when given a character.
    pub open spec fn spec_paint(self, ch: char) -> Cell {
        Cell { ch, fg: self.fg, bg: self.bg, attrs: self.attrs }
    }

    /// The cell this pen paints when given a character.
    pub fn paint(&self, ch: char) -> (r: Cell)
        ensures
            r == self.spec_paint(ch),
    {
        Cell { ch, fg: self.fg, bg: self.bg, attrs: self.attrs }
    }
}

} // verus!
