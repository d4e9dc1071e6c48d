//! Display styles of graphemes: colours and a set of text attributes.

use vstd::prelude::*;

verus! {

/// A terminal colour.
#[derive(Clone, Copy, Debug, PartialEq, Eq, Structural)]
pub enum Color {
    Reset,
    Black,
    DarkGrey,
    Red,
    DarkRed,
    Green,
    DarkGreen,
    Yellow,
    DarkYellow,
    Blue,
    DarkBlue,
    Magenta,
    DarkMagenta,
    Cyan,
    DarkCyan,
    White,
    Grey,
    Rgb { r: u8, g: u8, b: u8 },
    AnsiValue(u8),
}

/// A text attribute; each one owns one bit of an [`Attributes`] set.
#[derive(Clone, Copy, Debug, PartialEq, Eq, Structural)]
pub enum Attribute {
    Reset,
    Bold,
    Dim,
    Italic,
    Underlined,
    DoubleUnderlined,
    Undercurled,
    Underdotted,
    Underdashed,
    SlowBlink,
    RapidBlink,
    Reverse,
    Hidden,
    CrossedOut,
    Fraktur,
    NoBold,
    NormalIntensity,
    NoItalic,
    NoUnderline,
    NoBlink,
    NoReverse,
    NoHidden,
    NotCrossedOut,
    Framed,
    Encircled,
    OverLined,
    NotFramedOrEncircled,
    NotOverLined,
}

/// The position of an attribute's bit in an [`Attributes`] set.
pub open spec fn attribute_index(a: Attribute) -> nat {
    match a {
        Attribute::Reset => 1,
        Attribute::Bold => 2,
        Attribute::Dim => 3,
        Attribute::Italic => 4,
        Attribute::Underlined => 5,
        Attribute::DoubleUnderlined => 6,
        Attribute::Undercurled => 7,
        Attribute::Underdotted => 8,
        Attribute::Underdashed => 9,
        Attribute::SlowBlink => 10,
        Attribute::RapidBlink => 11,
        Attribute::Reverse => 12,
        Attribute::Hidden => 13,
        Attribute::CrossedOut => 14,
        Attribute::Fraktur => 15,
        Attribute::NoBold => 16,
        Attribute::NormalIntensity => 17,
        Attribute::NoItalic => 18,
        Attribute::NoUnderline => 19,
        Attribute::NoBlink => 20,
        Attribute::NoReverse => 21,
        Attribute::NoHidden => 22,
        Attribute::NotCrossedOut => 23,
        Attribute::Framed => 24,
        Attribute::Encircled => 25,
        Attribute::OverLined => 26,
        Attribute::NotFramedOrEncircled => 27,
        Attribute::NotOverLined => 28,
    }
}

impl Attribute {
    /// The single bit that stands for this attribute.
    pub fn bytes(self) -> (r: u32)
        ensures
            r == 1u32 << (attribute_index(self) as u32),
    {
        let i: u32 = match self {
            Attribute::Reset => 1,
            Attribute::Bold => 2,
            Attribute::Dim => 3,
            Attribute::Italic => 4,
            Attribute::Underlined => 5,
            Attribute::DoubleUnderlined => 6,
            Attribute::Undercurled => 7,
            Attribute::Underdotted => 8,
            Attribute::Underdashed => 9,
            Attribute::SlowBlink => 10,
            Attribute::RapidBlink => 11,
            Attribute::Reverse => 12,
            Attribute::Hidden => 13,
            Attribute::CrossedOut => 14,
            Attribute::Fraktur => 15,
            Attribute::NoBold => 16,
            Attribute::NormalIntensity => 17,
            Attribute::NoItalic => 18,
            Attribute::NoUnderline => 19,
            Attribute::NoBlink => 20,
            Attribute::NoReverse => 21,
            Attribute::NoHidden => 22,
            Attribute::NotCrossedOut => 23,
            Attribute::Framed => 24,
            Attribute::Encircled => 25,
            Attribute::OverLined => 26,
            Attribute::NotFramedOrEncircled => 27,
            Attribute::NotOverLined => 28,
        };
        1u32 << i
    }
}

/// A set of attributes, one bit each.
#[derive(Clone, Copy, Debug, PartialEq, Eq, Structural)]
pub struct Attributes(pub u32);

impl Attributes {
    /// The empty set.
    pub fn new() -> (r: Attributes)
        ensures
            r.0 == 0,
    {
        Attributes(0)
    }

    /// The set holding `a` alone.
    pub fn from_attribute(a: Attribute) -> (r: Attributes)
        ensures
            r.0 == 1u32 << (attribute_index(a) as u32),
    {
        Attributes(a.bytes())
    }

    /// Adds `a` to the set.
    pub fn set(&mut self, a: Attribute)
        ensures
            final(self).0 == old(self).0 | (1u32 << (attribute_index(a) as u32)),
    {
        self.0 = self.0 | a.bytes();
    }

    /// Whether `a` is in the set.
    pub fn has(&self, a: Attribute) -> (r: bool)
        ensures
            r == (self.0 & (1u32 << (attribute_index(a) as u32)) != 0),
    {
        self.0 & a.bytes() != 0
    }
}

/// The style of a grapheme: optional colours and a set of attributes.
#[derive(Clone, Copy, Debug, PartialEq, Eq, Structural)]
pub struct Style {
    pub foreground_color: Option<Color>,
    pub background_color: Option<Color>,
    pub underline_color: Option<Color>,
    pub attributes: Attributes,
}

impl Style {
    /// The plain style: no colour, no attribute.
    pub fn new() -> (r: Style)
        ensures
            r == Style::plain(),
    {
        Style {
            foreground_color: None,
            background_color: None,
            underline_color: None,
            attributes: Attributes(0),
        }
    }

    pub open spec fn plain() -> Style {
        Style {
            foreground_color: None,
            background_color: None,
            underline_color: None,
            attributes: Attributes(0),
        }
    }

    /// This style with `a` added to its attributes.
    pub open spec fn with_attribute(self, a: Attribute) -> Style {
        Style {
            attributes: Attributes(self.attributes.0 | (1u32 << (attribute_index(a) as u32))),
            ..self
        }
    }
}

} // verus!
