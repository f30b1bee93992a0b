//! The colors a grid cell can hold.

use vstd::prelude::*;

verus! {

/// The content of one grid cell: either empty (`Transparent`) or one of
/// six hues.  A locked piece writes one of the hues; `Transparent` is the
/// sentinel for "unoccupied".
#[derive(Copy, Clone, Debug, PartialEq, Eq, Structural)]
pub enum Color {
    Transparent,
    Red,
    Green,
    Blue,
    Cyan,
    Magenta,
    Yellow,
}

/// The hue drawn for a generator index in `1..7`, in the order the piece
/// generator maps them.  The empty sentinel has no index: a falling piece
/// is never transparent.
pub open spec fn color_of_index(i: int) -> Color {
    if i == 1 {
        Color::Red
    } else if i == 2 {
        Color::Green
    } else if i == 3 {
        Color::Blue
    } else if i == 4 {
        Color::Cyan
    } else if i == 5 {
        Color::Magenta
    } else {
        Color::Yellow
    }
}

/// Returns the hue for a generator index.
pub fn color_from_index(i: u32) -> (c: Color)
    requires
        1 <= i < 7,
    ensures
        c == color_of_index(i as int),
        c != Color::Transparent,
{
    if i == 1 {
        Color::Red
    } else if i == 2 {
        Color::Green
    } else if i == 3 {
        Color::Blue
    } else if i == 4 {
        Color::Cyan
    } else if i == 5 {
        Color::Magenta
    } else {
        Color::Yellow
    }
}

impl Color {
    /// The red, green, blue and alpha channels of this color, for a
    /// renderer that wants raw pixel bytes.
    pub open spec fn rgba_spec(self) -> (u8, u8, u8, u8) {
        match self {
            Color::Transparent => (0, 0, 0, 255),
            Color::Red => (255, 0, 0, 255),
            Color::Green => (0, 255, 0, 255),
            Color::Blue => (0, 0, 255, 255),
            Color::Cyan => (0, 255, 255, 255),
            Color::Magenta => (255, 0, 255, 255),
            Color::Yellow => (255, 255, 0, 255),
        }
    }

    /// Returns the RGBA channels of this color.
    pub fn rgba(self) -> (r: (u8, u8, u8, u8))
        ensures
            r == self.rgba_spec(),
    {
        match self {
            Color::Transparent => (0, 0, 0, 255),
            Color::Red => (255, 0, 0, 255),
            Color::Green => (0, 255, 0, 255),
            Color::Blue => (0, 0, 255, 255),
            Color::Cyan => (0, 255, 255, 255),
            Color::Magenta => (255, 0, 255, 255),
            Color::Yellow => (255, 255, 0, 255),
        }
    }
}

} // verus!
