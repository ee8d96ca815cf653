//! Pixel colors of the black and white panel.

use vstd::prelude::*;

verus! {

/// The two colors that the panel shows.
#[derive(Clone, Copy, Debug, PartialEq, Eq, Structural)]
pub enum Color {
    Black,
    White,
}

impl Color {
    /// The byte that holds eight pixels of this color: a set bit is a white pixel.
    pub open spec fn byte_value(self) -> u8 {
        match self {
            Color::Black => 0x00,
            Color::White => 0xff,
        }
    }

    /// Eight pixels of this color, packed into one byte.
    pub fn get_byte_value(self) -> (value: u8)
        ensures
            value == self.byte_value(),
            value == if self == Color::White {
                0xffu8
            } else {
                0x00u8
            },
    {
        match self {
            Color::Black => 0x00,
            Color::White => 0xff,
        }
    }
}

/// A set bit is a white pixel and a clear one a black pixel: a white byte has every bit set, and
/// a black one none.
pub proof fn law_bytes_of_the_colors(color: Color)
    ensures
        color == Color::White <==> color.byte_value() == 0xff,
        color == Color::Black <==> color.byte_value() == 0x00,
{
}

} // verus!
