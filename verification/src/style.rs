//! Colours and text attributes.

use vstd::prelude::*;

verus! {

/// The eight base colours of a terminal palette.
#[derive(Debug, Copy, Clone, PartialEq, Eq, Structural)]
pub enum TermColor {
    Black,
    Red,
    Green,
    Yellow,
    Blue,
    Purple,
    Cyan,
    White,
}

impl TermColor {
    /// The palette index of the dark variant of this colour.
    pub open spec fn code(self) -> u8 {
        match self {
            TermColor::Black => 0,
            TermColor::Red => 1,
            TermColor::Green => 2,
            TermColor::Yellow => 3,
            TermColor::Blue => 4,
            TermColor::Purple => 5,
            TermColor::Cyan => 6,
            TermColor::White => 7,
        }
    }

    /// The palette index of the dark variant of this colour.
    pub fn base_index(self) -> (c: u8)
        ensures
            c == self.code(),
    {
        match self {
            TermColor::Black => 0,
            TermColor::Red => 1,
            TermColor::Green => 2,
            TermColor::Yellow => 3,
            TermColor::Blue => 4,
            TermColor::Purple => 5,
            TermColor::Cyan => 6,
            TermColor::White => 7,
        }
    }
}

/// The palette index that an 8-bit grey level is drawn with.
///
/// The level is cut into sixteen bands. The darkest band is palette black,
/// the lightest is palette white, and the fourteen between them take the
/// first steps of the grey ramp.
pub open spec fn grey_index(level: u8) -> u8 {
    let band = level / 16;
    if band == 0 {
        16
    } else if band == 15 {
        231
    } else {
        (231 + band) as u8
    }
}

/// Whether the three channels fall in the same band of sixteen levels.
pub open spec fn same_band(red: u8, green: u8, blue: u8) -> bool {
    red / 16 == green / 16 && green / 16 == blue / 16
}

/// One channel on the six steps of the colour cube.
pub open spec fn cube_step(channel: u8) -> int {
    channel * 6 / 256
}

/// The palette index that a 24-bit colour is drawn with.
pub open spec fn color_index(red: u8, green: u8, blue: u8) -> u8 {
    if same_band(red, green, blue) {
        grey_index(red)
    } else {
        (16 + 36 * cube_step(red) + 6 * cube_step(green) + cube_step(blue)) as u8
    }
}

/// Whether a palette index lies on the grey ramp or is palette black.
pub open spec fn is_grey_index(index: u8) -> bool {
    index == 16 || index >= 232
}

/// A colour: either none, which leaves the terminal's default in place, or an
/// index into the 256-colour palette.
#[derive(Debug, Copy, Clone, PartialEq, Eq, Structural)]
pub struct DomColor(pub Option<u8>);

impl DomColor {
    /// The dark variant of a base colour.
    pub fn from_dark(color: TermColor) -> (c: DomColor)
        ensures
            c == DomColor(Some(color.code())),
    {
        DomColor(Some(color.base_index()))
    }

    /// The bright variant of a base colour.
    pub fn from_light(color: TermColor) -> (c: DomColor)
        ensures
            c == DomColor(Some((color.code() + 8) as u8)),
    {
        DomColor(Some(color.base_index() + 8))
    }

    /// The palette colour nearest to a grey level.
    pub fn from_grey(level: u8) -> (c: DomColor)
        ensures
            c == DomColor(Some(grey_index(level))),
    {
        let band: u8 = level >> 4;
        assert(band == level / 16) by (bit_vector)
            requires
                band == level >> 4,
        ;
        let index: u8 = if band == 0 {
            16
        } else if band == 15 {
            231
        } else {
            231 + band
        };
        DomColor(Some(index))
    }

    /// The palette colour nearest to a 24-bit colour.
    pub fn from_color_lo(red: u8, green: u8, blue: u8) -> (c: DomColor)
        ensures
            c == DomColor(Some(color_index(red, green, blue))),
    {
        assert(red >> 4 == red / 16) by (bit_vector);
        assert(green >> 4 == green / 16) by (bit_vector);
        assert(blue >> 4 == blue / 16) by (bit_vector);
        if (red >> 4) == (green >> 4) && (green >> 4) == (blue >> 4) {
            return DomColor::from_grey(red);
        }
        let r: u32 = red as u32 * 6 / 256;
        let g: u32 = green as u32 * 6 / 256;
        let b: u32 = blue as u32 * 6 / 256;
        let index: u32 = 16 + r * 36 + g * 6 + b;
        DomColor(Some(index as u8))
    }

    /// The palette index, if there is a colour.
    pub fn index(&self) -> (i: Option<u8>)
        ensures
            i == self.0,
    {
        self.0
    }
}

impl Default for DomColor {
    fn default() -> (c: DomColor)
        ensures
            c == DomColor(None),
    {
        DomColor(None)
    }
}

/// A grey input stays off the colour cube: where the three channels are equal
/// and below the lightest band, the colour is drawn with palette black or
/// with a step of the grey ramp.
pub proof fn lemma_grey_stays_grey(level: u8)
    requires
        level < 240,
    ensures
        is_grey_index(color_index(level, level, level)),
{
}

/// A grey input is always drawn as its grey level: the cube formula is never
/// applied where the three channels are equal.
pub proof fn lemma_grey_uses_grey_level(level: u8)
    ensures
        color_index(level, level, level) == grey_index(level),
        grey_index(level) == 16 || grey_index(level) == 231 || 232 <= grey_index(level) <= 245,
{
}

/// Every quantised colour lies in the extended part of the palette, past the
/// sixteen base colours.
pub proof fn lemma_color_index_range(red: u8, green: u8, blue: u8)
    ensures
        color_index(red, green, blue) >= 16,
        !same_band(red, green, blue) ==> color_index(red, green, blue) <= 231,
{
}

/// How text is set within its box.
#[derive(Debug, Copy, Clone, PartialEq, Eq, Structural)]
pub enum TextAlign {
    Left,
    Center,
    Right,
}

impl Default for TextAlign {
    fn default() -> (a: TextAlign)
        ensures
            a == TextAlign::Left,
    {
        TextAlign::Left
    }
}

/// The line that a border is drawn with.
#[derive(Debug, Copy, Clone, PartialEq, Eq, Structural)]
pub enum BorderType {
    Empty,
    Dash,
    Thin,
    Double,
    Bold,
}

impl Default for BorderType {
    fn default() -> (b: BorderType)
        ensures
            b == BorderType::Empty,
    {
        BorderType::Empty
    }
}

/// The appearance of one box.
#[derive(Debug, Copy, Clone, PartialEq, Eq, Structural)]
pub struct DomStyle {
    pub bg: DomColor,
    pub fg: DomColor,
    pub bold: bool,
    pub underline: bool,
    pub strikethrough: bool,
    pub italic: bool,
    pub extend: bool,
    pub align: TextAlign,
    pub border_type: BorderType,
    pub top_nb_type: BorderType,
    pub bottom_nb_type: BorderType,
    pub left_nb_type: BorderType,
    pub right_nb_type: BorderType,
}

/// What a terminal is told about a run of text: the two colours and the
/// attributes that have an escape code.
#[derive(Debug, Copy, Clone, PartialEq, Eq, Structural)]
pub struct TermStyle {
    pub foreground: Option<u8>,
    pub background: Option<u8>,
    pub is_bold: bool,
    pub is_underline: bool,
    pub is_strikethrough: bool,
    pub is_italic: bool,
}

impl TermStyle {
    /// The style that changes nothing.
    pub open spec fn plain() -> TermStyle {
        TermStyle {
            foreground: None,
            background: None,
            is_bold: false,
            is_underline: false,
            is_strikethrough: false,
            is_italic: false,
        }
    }

    /// The style that changes nothing.
    pub fn new() -> (s: TermStyle)
        ensures
            s == TermStyle::plain(),
    {
        TermStyle {
            foreground: None,
            background: None,
            is_bold: false,
            is_underline: false,
            is_strikethrough: false,
            is_italic: false,
        }
    }
}

impl DomStyle {
    /// The style of a box that nothing was said about.
    pub open spec fn initial() -> DomStyle {
        DomStyle {
            bg: DomColor(None),
            fg: DomColor(None),
            bold: false,
            underline: false,
            strikethrough: false,
            italic: false,
            extend: false,
            align: TextAlign::Left,
            border_type: BorderType::Empty,
            top_nb_type: BorderType::Empty,
            bottom_nb_type: BorderType::Empty,
            left_nb_type: BorderType::Empty,
            right_nb_type: BorderType::Empty,
        }
    }

    /// The part of this style that a terminal can show.
    pub open spec fn term_style(self) -> TermStyle {
        TermStyle {
            foreground: self.fg.0,
            background: self.bg.0,
            is_bold: self.bold,
            is_underline: self.underline,
            is_strikethrough: self.strikethrough,
            is_italic: self.italic,
        }
    }

    /// The part of this style that a terminal can show.
    pub fn to_ansi(&self) -> (s: TermStyle)
        ensures
            s == self.term_style(),
    {
        let mut astyle = TermStyle::new();
        match self.fg.index() {
            None => {},
            Some(idx) => {
                astyle.foreground = Some(idx);
            },
        }
        match self.bg.index() {
            None => {},
            Some(idx) => {
                astyle.background = Some(idx);
            },
        }
        if self.bold {
            astyle.is_bold = true;
        }
        if self.underline {
            astyle.is_underline = true;
        }
        if self.strikethrough {
            astyle.is_strikethrough = true;
        }
        if self.italic {
            astyle.is_italic = true;
        }
        astyle
    }
}

impl Default for DomStyle {
    fn default() -> (s: DomStyle)
        ensures
            s == DomStyle::initial(),
    {
        DomStyle {
            bg: DomColor(None),
            fg: DomColor(None),
            bold: false,
            underline: false,
            strikethrough: false,
            italic: false,
            extend: false,
            align: TextAlign::Left,
            border_type: BorderType::Empty,
            top_nb_type: BorderType::Empty,
            bottom_nb_type: BorderType::Empty,
            left_nb_type: BorderType::Empty,
            right_nb_type: BorderType::Empty,
        }
    }
}

} // verus!
