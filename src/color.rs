//! Named web colors for colored text.

use vstd::prelude::*;

verus! {

/// Web colors that markup supports: forty named ones, and any other value
/// as text.
pub enum WebColor {
    Black,
    Sienna,
    DarkOliveGreen,
    DarkGreen,
    DarkSlateBlue,
    Navy,
    Indigo,
    DarkSlateGray,
    DarkRed,
    DarkOrange,
    Olive,
    Green,
    Teal,
    Blue,
    SlateGray,
    DimGray,
    Red,
    SandyBrown,
    YellowGreen,
    SeaGreen,
    MediumTurquoise,
    RoyalBlue,
    Purple,
    Gray,
    Magenta,
    Orange,
    Yellow,
    Lime,
    Cyan,
    DeepSkyBlue,
    DarkOrchid,
    Silver,
    Pink,
    Wheat,
    LemonChiffon,
    PaleGreen,
    PaleTurquoise,
    LightBlue,
    Plum,
    White,
    /// Any other color value, such as `#ff0000` or `rgb(255, 0, 0)`, kept
    /// as it is.
    Custom(String),
}

/// The text of a color: the variant's name, or the custom value.
pub open spec fn color_name(c: WebColor) -> Seq<char> {
    match c {
        WebColor::Black => "Black"@,
        WebColor::Sienna => "Sienna"@,
        WebColor::DarkOliveGreen => "DarkOliveGreen"@,
        WebColor::DarkGreen => "DarkGreen"@,
        WebColor::DarkSlateBlue => "DarkSlateBlue"@,
        WebColor::Navy => "Navy"@,
        WebColor::Indigo => "Indigo"@,
        WebColor::DarkSlateGray => "DarkSlateGray"@,
        WebColor::DarkRed => "DarkRed"@,
        WebColor::DarkOrange => "DarkOrange"@,
        WebColor::Olive => "Olive"@,
        WebColor::Green => "Green"@,
        WebColor::Teal => "Teal"@,
        WebColor::Blue => "Blue"@,
        WebColor::SlateGray => "SlateGray"@,
        WebColor::DimGray => "DimGray"@,
        WebColor::Red => "Red"@,
        WebColor::SandyBrown => "SandyBrown"@,
        WebColor::YellowGreen => "YellowGreen"@,
        WebColor::SeaGreen => "SeaGreen"@,
        WebColor::MediumTurquoise => "MediumTurquoise"@,
        WebColor::RoyalBlue => "RoyalBlue"@,
        WebColor::Purple => "Purple"@,
        WebColor::Gray => "Gray"@,
        WebColor::Magenta => "Magenta"@,
        WebColor::Orange => "Orange"@,
        WebColor::Yellow => "Yellow"@,
        WebColor::Lime => "Lime"@,
        WebColor::Cyan => "Cyan"@,
        WebColor::DeepSkyBlue => "DeepSkyBlue"@,
        WebColor::DarkOrchid => "DarkOrchid"@,
        WebColor::Silver => "Silver"@,
        WebColor::Pink => "Pink"@,
        WebColor::Wheat => "Wheat"@,
        WebColor::LemonChiffon => "LemonChiffon"@,
        WebColor::PaleGreen => "PaleGreen"@,
        WebColor::PaleTurquoise => "PaleTurquoise"@,
        WebColor::LightBlue => "LightBlue"@,
        WebColor::Plum => "Plum"@,
        WebColor::White => "White"@,
        WebColor::Custom(s) => s@,
    }
}

impl WebColor {
    /// The text of the color.
    pub fn to_string(&self) -> (r: String)
        ensures
            r@ == color_name(*self),
    {
        let name = match self {
            WebColor::Black => "Black",
            WebColor::Sienna => "Sienna",
            WebColor::DarkOliveGreen => "DarkOliveGreen",
            WebColor::DarkGreen => "DarkGreen",
            WebColor::DarkSlateBlue => "DarkSlateBlue",
            WebColor::Navy => "Navy",
            WebColor::Indigo => "Indigo",
            WebColor::DarkSlateGray => "DarkSlateGray",
            WebColor::DarkRed => "DarkRed",
            WebColor::DarkOrange => "DarkOrange",
            WebColor::Olive => "Olive",
            WebColor::Green => "Green",
            WebColor::Teal => "Teal",
            WebColor::Blue => "Blue",
            WebColor::SlateGray => "SlateGray",
            WebColor::DimGray => "DimGray",
            WebColor::Red => "Red",
            WebColor::SandyBrown => "SandyBrown",
            WebColor::YellowGreen => "YellowGreen",
            WebColor::SeaGreen => "SeaGreen",
            WebColor::MediumTurquoise => "MediumTurquoise",
            WebColor::RoyalBlue => "RoyalBlue",
            WebColor::Purple => "Purple",
            WebColor::Gray => "Gray",
            WebColor::Magenta => "Magenta",
            WebColor::Orange => "Orange",
            WebColor::Yellow => "Yellow",
            WebColor::Lime => "Lime",
            WebColor::Cyan => "Cyan",
            WebColor::DeepSkyBlue => "DeepSkyBlue",
            WebColor::DarkOrchid => "DarkOrchid",
            WebColor::Silver => "Silver",
            WebColor::Pink => "Pink",
            WebColor::Wheat => "Wheat",
            WebColor::LemonChiffon => "LemonChiffon",
            WebColor::PaleGreen => "PaleGreen",
            WebColor::PaleTurquoise => "PaleTurquoise",
            WebColor::LightBlue => "LightBlue",
            WebColor::Plum => "Plum",
            WebColor::White => "White",
            WebColor::Custom(s) => s.as_str(),
        };
        String::from_str(name)
    }
}

} // verus!
