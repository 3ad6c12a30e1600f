use vstd::prelude::*;

verus! {

/// A 24-bit terminal color.
#[derive(Clone, Copy, Debug, PartialEq, Eq, Structural)]
pub struct Rgb {
    pub r: u8,
    pub g: u8,
    pub b: u8,
}

/// The palette of console output.
#[derive(Clone, Copy, Debug, PartialEq, Eq, Structural)]
pub enum SuzakuColor {
    Red,
    Orange,
    Green,
    Yellow,
    Cyan,
    White,
}

impl SuzakuColor {
    pub open spec fn rdg_spec(self, no_color: bool) -> Option<Rgb> {
        if no_color {
            None
        } else {
            match self {
                SuzakuColor::Red => Some(Rgb { r: 255, g: 0, b: 0 }),
                SuzakuColor::Orange => Some(Rgb { r: 255, g: 175, b: 0 }),
                SuzakuColor::Yellow => Some(Rgb { r: 255, g: 255, b: 0 }),
                SuzakuColor::Green => Some(Rgb { r: 0, g: 255, b: 0 }),
                SuzakuColor::Cyan => Some(Rgb { r: 0, g: 255, b: 255 }),
                SuzakuColor::White => None,
            }
        }
    }

    /// The foreground color to print with; `None` means the terminal default.
    pub fn rdg(&self, no_color: bool) -> (r: Option<Rgb>)
        ensures
            r == self.rdg_spec(no_color),
    {
        if no_color {
            return None;
        }
        match self {
            SuzakuColor::Red => Some(Rgb { r: 255, g: 0, b: 0 }),
            SuzakuColor::Orange => Some(Rgb { r: 255, g: 175, b: 0 }),
            SuzakuColor::Yellow => Some(Rgb { r: 255, g: 255, b: 0 }),
            SuzakuColor::Green => Some(Rgb { r: 0, g: 255, b: 0 }),
            SuzakuColor::Cyan => Some(Rgb { r: 0, g: 255, b: 255 }),
            SuzakuColor::White => None,
        }
    }
}

} // verus!
