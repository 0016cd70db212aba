//! The symbolic colours a cell can carry.

use vstd::prelude::*;

verus! {

/// Number of palette colours a generated cell can take.
pub const PALETTE_SIZE: u32 = 6;

/// A colour tag. The first six variants are the playable palette; `Black`
/// marks a cell that has been cleared and takes no further part in matching.
#[derive(Clone, Copy, Debug, PartialEq, Eq, Structural)]
pub enum ColorId {
    White,
    DarkBlue,
    LightBlue,
    LightOrange,
    DarkOrange,
    WhiteOrange,
    Black,
}

/// The palette colour with the index `index`; none where the index is not
/// below `PALETTE_SIZE`.
pub open spec fn palette_color(index: int) -> Option<ColorId> {
    if index == 0 {
        Some(ColorId::White)
    } else if index == 1 {
        Some(ColorId::DarkBlue)
    } else if index == 2 {
        Some(ColorId::LightBlue)
    } else if index == 3 {
        Some(ColorId::LightOrange)
    } else if index == 4 {
        Some(ColorId::DarkOrange)
    } else if index == 5 {
        Some(ColorId::WhiteOrange)
    } else {
        None
    }
}

impl ColorId {
    /// True for the six playable colours, false for `Black`.
    pub open spec fn is_palette(self) -> bool {
        self != ColorId::Black
    }

    /// The palette colour with the given index, if the index names one.
    pub fn from_index(index: u32) -> (color: Option<ColorId>)
        ensures
            color == palette_color(index as int),
    {
        match index {
            0 => Some(ColorId::White),
            1 => Some(ColorId::DarkBlue),
            2 => Some(ColorId::LightBlue),
            3 => Some(ColorId::LightOrange),
            4 => Some(ColorId::DarkOrange),
            5 => Some(ColorId::WhiteOrange),
            _ => None,
        }
    }

    /// Whether the colour is the cleared marker.
    pub fn is_black(self) -> (black: bool)
        ensures
            black == !self.is_palette(),
    {
        self == ColorId::Black
    }
}

/// The palette holds `PALETTE_SIZE` colours, all different and none of them
/// `Black`, and every colour but `Black` is in it.
pub proof fn lemma_palette()
    ensures
        forall|i: int| 0 <= i < PALETTE_SIZE <==> (#[trigger] palette_color(i)) is Some,
        forall|i: int, j: int|
            0 <= i < PALETTE_SIZE && 0 <= j < PALETTE_SIZE && #[trigger] palette_color(i)
                == #[trigger] palette_color(j) ==> i == j,
        forall|i: int| palette_color(i) != Some(ColorId::Black),
        forall|color: ColorId|
            color.is_palette() ==> exists|i: int| #[trigger] palette_color(i) == Some(color),
{
    assert forall|color: ColorId| color.is_palette() implies exists|i: int| #[trigger]
        palette_color(i) == Some(color) by {
        match color {
            ColorId::White => assert(palette_color(0) == Some(color)),
            ColorId::DarkBlue => assert(palette_color(1) == Some(color)),
            ColorId::LightBlue => assert(palette_color(2) == Some(color)),
            ColorId::LightOrange => assert(palette_color(3) == Some(color)),
            ColorId::DarkOrange => assert(palette_color(4) == Some(color)),
            ColorId::WhiteOrange => assert(palette_color(5) == Some(color)),
            ColorId::Black => {},
        }
    }
}

} // verus!
