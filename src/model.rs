use crate::conversion::{family_of, hsl_of, parse_hex};
use vstd::prelude::*;

verus! {

/// A color as three 8-bit channels.
#[derive(Debug, Clone, Copy, PartialEq, Eq, Structural)]
pub struct Rgb {
    pub r: u8,
    pub g: u8,
    pub b: u8,
}

/// A color in hue / saturation / lightness form, in fixed point with three
/// decimals: `h` is in thousandths of a degree (0 up to but excluding
/// 360000), `s` and `l` are in thousandths of a percent (0 to 100000).
#[derive(Debug, Clone, Copy, PartialEq, Eq, Structural)]
pub struct Hsl {
    pub h: u32,
    pub s: u32,
    pub l: u32,
}

impl Hsl {
    /// Hue, saturation and lightness lie in their ranges.
    pub open spec fn in_range(self) -> bool {
        self.h < 360000 && self.s <= 100000 && self.l <= 100000
    }
}

/// A named catalog color with the values derived from its hex code.
#[derive(Debug, Clone)]
pub struct PantoneColor {
    pub name: String,
    pub hex: String,
    pub rgb: Rgb,
    pub hsl: Hsl,
    pub family: ColorFamily,
    pub library: ColorLibrary,
}

impl PantoneColor {
    /// The channels, HSL form and family are those of the hex code.
    pub open spec fn is_derived(&self) -> bool {
        &&& parse_hex(self.hex@) == Some(self.rgb)
        &&& self.hsl == hsl_of(self.rgb)
        &&& self.family == family_of(self.hsl)
    }

    /// The name and hex code, as text.
    pub open spec fn entry(&self) -> (Seq<char>, Seq<char>) {
        (self.name@, self.hex@)
    }
}

/// The family a color is classified into.
#[derive(Debug, Clone, Copy, PartialEq, Eq, Hash, Structural)]
pub enum ColorFamily {
    Red,
    Orange,
    Yellow,
    Green,
    Cyan,
    Blue,
    Purple,
    Pink,
    Brown,
    Neutral,
}

/// The catalog a color comes from.
#[derive(Debug, Clone, Copy, PartialEq, Eq, Hash, Structural)]
pub enum ColorLibrary {
    FashionHomeTcx,
    SolidCoated,
}

/// The orders in which a catalog can be listed.
#[derive(Debug, Clone, Copy, PartialEq, Eq, Structural)]
pub enum SortOrder {
    Name,
    Hue,
    Saturation,
    Lightness,
}

impl Default for ColorFamily {
    fn default() -> (r: Self)
        ensures
            r == ColorFamily::Red,
    {
        ColorFamily::Red
    }
}

impl Default for ColorLibrary {
    fn default() -> (r: Self)
        ensures
            r == ColorLibrary::FashionHomeTcx,
    {
        ColorLibrary::FashionHomeTcx
    }
}

impl Default for SortOrder {
    fn default() -> (r: Self)
        ensures
            r == SortOrder::Name,
    {
        SortOrder::Name
    }
}

impl ColorFamily {
    /// The name shown for the family.
    pub open spec fn shown_name(self) -> Seq<char> {
        match self {
            ColorFamily::Red => "Red"@,
            ColorFamily::Orange => "Orange"@,
            ColorFamily::Yellow => "Yellow"@,
            ColorFamily::Green => "Green"@,
            ColorFamily::Cyan => "Cyan"@,
            ColorFamily::Blue => "Blue"@,
            ColorFamily::Purple => "Purple"@,
            ColorFamily::Pink => "Pink"@,
            ColorFamily::Brown => "Brown"@,
            ColorFamily::Neutral => "Neutral"@,
        }
    }

    /// The name shown for the family.
    pub fn display_name(&self) -> (r: &'static str)
        ensures
            r@ == self.shown_name(),
    {
        match self {
            ColorFamily::Red => "Red",
            ColorFamily::Orange => "Orange",
            ColorFamily::Yellow => "Yellow",
            ColorFamily::Green => "Green",
            ColorFamily::Cyan => "Cyan",
            ColorFamily::Blue => "Blue",
            ColorFamily::Purple => "Purple",
            ColorFamily::Pink => "Pink",
            ColorFamily::Brown => "Brown",
            ColorFamily::Neutral => "Neutral",
        }
    }

    /// Every family, in a fixed order.
    pub fn all() -> (r: &'static [ColorFamily])
        ensures
            r@ == seq![
                ColorFamily::Red,
                ColorFamily::Orange,
                ColorFamily::Yellow,
                ColorFamily::Green,
                ColorFamily::Cyan,
                ColorFamily::Blue,
                ColorFamily::Purple,
                ColorFamily::Pink,
                ColorFamily::Brown,
                ColorFamily::Neutral,
            ],
    {
        &[
            ColorFamily::Red,
            ColorFamily::Orange,
            ColorFamily::Yellow,
            ColorFamily::Green,
            ColorFamily::Cyan,
            ColorFamily::Blue,
            ColorFamily::Purple,
            ColorFamily::Pink,
            ColorFamily::Brown,
            ColorFamily::Neutral,
        ]
    }
}

impl ColorLibrary {
    /// The full name of the library.
    pub fn display_name(&self) -> (r: &'static str)
        ensures
            r@ == match self {
                ColorLibrary::FashionHomeTcx => "Fashion, Home + Interiors (TCX)"@,
                ColorLibrary::SolidCoated => "Solid Coated"@,
            },
    {
        match self {
            ColorLibrary::FashionHomeTcx => "Fashion, Home + Interiors (TCX)",
            ColorLibrary::SolidCoated => "Solid Coated",
        }
    }

    /// The short name of the library.
    pub fn short_name(&self) -> (r: &'static str)
        ensures
            r@ == match self {
                ColorLibrary::FashionHomeTcx => "TCX"@,
                ColorLibrary::SolidCoated => "Solid Coated"@,
            },
    {
        match self {
            ColorLibrary::FashionHomeTcx => "TCX",
            ColorLibrary::SolidCoated => "Solid Coated",
        }
    }

    /// Every library, in a fixed order.
    pub fn all() -> (r: &'static [ColorLibrary])
        ensures
            r@ == seq![ColorLibrary::FashionHomeTcx, ColorLibrary::SolidCoated],
    {
        &[ColorLibrary::FashionHomeTcx, ColorLibrary::SolidCoated]
    }
}

impl SortOrder {
    /// The name shown for the order.
    pub fn display_name(&self) -> (r: &'static str)
        ensures
            r@ == match self {
                SortOrder::Name => "Name"@,
                SortOrder::Hue => "Hue"@,
                SortOrder::Saturation => "Saturation"@,
                SortOrder::Lightness => "Lightness"@,
            },
    {
        match self {
            SortOrder::Name => "Name",
            SortOrder::Hue => "Hue",
            SortOrder::Saturation => "Saturation",
            SortOrder::Lightness => "Lightness",
        }
    }

    /// Every order, in a fixed order.
    pub fn all() -> (r: &'static [SortOrder])
        ensures
            r@ == seq![SortOrder::Name, SortOrder::Hue, SortOrder::Saturation, SortOrder::Lightness],
    {
        &[SortOrder::Name, SortOrder::Hue, SortOrder::Saturation, SortOrder::Lightness]
    }
}

} // verus!
