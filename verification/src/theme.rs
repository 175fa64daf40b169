//! The colours of the window.

use vstd::prelude::*;

verus! {

/// A colour.
#[derive(Clone, Copy, Debug, PartialEq, Eq, Structural)]
pub struct Rgb {
    pub r: u8,
    pub g: u8,
    pub b: u8,
}

/// What a colour is used for.
#[derive(Clone, Copy, Debug, PartialEq, Eq, Structural)]
pub enum Tone {
    BackgroundPrimary,
    BackgroundSecondary,
    BackgroundCard,
    BackgroundWarning,
    Blue,
    Green,
    Red,
    Purple,
    Orange,
    Amber,
    Yellow,
    TextPrimary,
    TextSecondary,
    HeldYellow,
    HeldGreen,
}

impl Tone {
    /// The colour of a tone.
    pub open spec fn color(self) -> Rgb {
        match self {
            Tone::BackgroundPrimary => Rgb { r: 18, g: 18, b: 20 },
            Tone::BackgroundSecondary => Rgb { r: 28, g: 28, b: 32 },
            Tone::BackgroundCard => Rgb { r: 38, g: 38, b: 42 },
            Tone::BackgroundWarning => Rgb { r: 70, g: 48, b: 12 },
            Tone::Blue => Rgb { r: 0, g: 122, b: 255 },
            Tone::Green => Rgb { r: 52, g: 199, b: 89 },
            Tone::Red => Rgb { r: 255, g: 69, b: 58 },
            Tone::Purple => Rgb { r: 175, g: 82, b: 222 },
            Tone::Orange => Rgb { r: 255, g: 149, b: 0 },
            Tone::Amber => Rgb { r: 255, g: 204, b: 0 },
            Tone::Yellow => Rgb { r: 255, g: 255, b: 0 },
            Tone::TextPrimary => Rgb { r: 255, g: 255, b: 255 },
            Tone::TextSecondary => Rgb { r: 152, g: 152, b: 157 },
            Tone::HeldYellow => Rgb { r: 255, g: 244, b: 170 },
            Tone::HeldGreen => Rgb { r: 205, g: 255, b: 215 },
        }
    }

    /// The colour of a tone.
    pub fn rgb(self) -> (color: Rgb)
        ensures
            color == self.color(),
    {
        match self {
            Tone::BackgroundPrimary => Rgb { r: 18, g: 18, b: 20 },
            Tone::BackgroundSecondary => Rgb { r: 28, g: 28, b: 32 },
            Tone::BackgroundCard => Rgb { r: 38, g: 38, b: 42 },
            Tone::BackgroundWarning => Rgb { r: 70, g: 48, b: 12 },
            Tone::Blue => Rgb { r: 0, g: 122, b: 255 },
            Tone::Green => Rgb { r: 52, g: 199, b: 89 },
            Tone::Red => Rgb { r: 255, g: 69, b: 58 },
            Tone::Purple => Rgb { r: 175, g: 82, b: 222 },
            Tone::Orange => Rgb { r: 255, g: 149, b: 0 },
            Tone::Amber => Rgb { r: 255, g: 204, b: 0 },
            Tone::Yellow => Rgb { r: 255, g: 255, b: 0 },
            Tone::TextPrimary => Rgb { r: 255, g: 255, b: 255 },
            Tone::TextSecondary => Rgb { r: 152, g: 152, b: 157 },
            Tone::HeldYellow => Rgb { r: 255, g: 244, b: 170 },
            Tone::HeldGreen => Rgb { r: 205, g: 255, b: 215 },
        }
    }
}

} // verus!
