//! The palette: every colour the simulation hands to a renderer.

use vstd::prelude::*;

verus! {

/// A named colour. The renderer turns it into red, green and blue with
/// [`Color::rgb`].
#[derive(Clone, Copy, Debug, PartialEq, Eq, Structural)]
pub enum Color {
    Black,
    White,
    LightGrey,
    Red,
    LightRed,
    DarkRed,
    DarkerRed,
    Orange,
    DarkerOrange,
    Yellow,
    LightYellow,
    Green,
    LightGreen,
    DarkGreen,
    DarkerGreen,
    DesaturatedGreen,
    LightCyan,
    Sky,
    LightBlue,
    Violet,
    LightViolet,
    /// A wall that was seen earlier and is out of sight now.
    DarkWall,
    /// A wall in sight.
    LightWall,
    /// Floor that was seen earlier and is out of sight now.
    DarkGround,
    /// Floor in sight.
    LightGround,
}

impl DeepView for Color {
    type V = Color;

    open spec fn deep_view(&self) -> Color {
        *self
    }
}

impl Color {
    /// The red, green and blue components of the colour.
    pub open spec fn components(self) -> (u8, u8, u8) {
        match self {
            Color::Black => (0, 0, 0),
            Color::White => (255, 255, 255),
            Color::LightGrey => (159, 159, 159),
            Color::Red => (255, 0, 0),
            Color::LightRed => (255, 63, 63),
            Color::DarkRed => (191, 0, 0),
            Color::DarkerRed => (127, 0, 0),
            Color::Orange => (255, 127, 0),
            Color::DarkerOrange => (127, 63, 0),
            Color::Yellow => (255, 255, 0),
            Color::LightYellow => (255, 255, 63),
            Color::Green => (0, 255, 0),
            Color::LightGreen => (63, 255, 63),
            Color::DarkGreen => (0, 191, 0),
            Color::DarkerGreen => (0, 127, 0),
            Color::DesaturatedGreen => (63, 127, 63),
            Color::LightCyan => (63, 255, 255),
            Color::Sky => (0, 191, 255),
            Color::LightBlue => (63, 63, 255),
            Color::Violet => (127, 0, 255),
            Color::LightViolet => (159, 63, 255),
            Color::DarkWall => (0, 0, 100),
            Color::LightWall => (130, 110, 50),
            Color::DarkGround => (50, 50, 150),
            Color::LightGround => (200, 180, 50),
        }
    }

    /// The red, green and blue components of the colour.
    pub fn rgb(self) -> (c: (u8, u8, u8))
        ensures
            c == self.components(),
    {
        match self {
            Color::Black => (0, 0, 0),
            Color::White => (255, 255, 255),
            Color::LightGrey => (159, 159, 159),
            Color::Red => (255, 0, 0),
            Color::LightRed => (255, 63, 63),
            Color::DarkRed => (191, 0, 0),
            Color::DarkerRed => (127, 0, 0),
            Color::Orange => (255, 127, 0),
            Color::DarkerOrange => (127, 63, 0),
            Color::Yellow => (255, 255, 0),
            Color::LightYellow => (255, 255, 63),
            Color::Green => (0, 255, 0),
            Color::LightGreen => (63, 255, 63),
            Color::DarkGreen => (0, 191, 0),
            Color::DarkerGreen => (0, 127, 0),
            Color::DesaturatedGreen => (63, 127, 63),
            Color::LightCyan => (63, 255, 255),
            Color::Sky => (0, 191, 255),
            Color::LightBlue => (63, 63, 255),
            Color::Violet => (127, 0, 255),
            Color::LightViolet => (159, 63, 255),
            Color::DarkWall => (0, 0, 100),
            Color::LightWall => (130, 110, 50),
            Color::DarkGround => (50, 50, 150),
            Color::LightGround => (200, 180, 50),
        }
    }
}

} // verus!
