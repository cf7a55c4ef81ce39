//! Eight-bit colours as they are handed to the hardware.

use vstd::prelude::*;

verus! {

/// A colour with an alpha channel, eight bits each.
#[derive(Clone, Copy, Debug, PartialEq, Eq, Structural)]
pub struct Rgba {
    pub r: u8,
    pub g: u8,
    pub b: u8,
    pub a: u8,
}

/// An opaque colour, eight bits per channel.
#[derive(Clone, Copy, Debug, PartialEq, Eq, Structural)]
pub struct Rgb {
    pub r: u8,
    pub g: u8,
    pub b: u8,
}

impl Rgb {
    /// All channels off.
    pub fn black() -> (out: Rgb)
        ensures
            out == (Rgb { r: 0, g: 0, b: 0 }),
    {
        Rgb { r: 0, g: 0, b: 0 }
    }
}

/// A channel scaled by an alpha of `a / 256`, rounded down.
pub open spec fn spec_premultiply(channel: u8, alpha: u8) -> u8 {
    ((channel as int * alpha as int) / 256) as u8
}

/// Scales one channel by `alpha / 256`, rounding down.
pub fn premultiply(channel: u8, alpha: u8) -> (out: u8)
    ensures
        out == spec_premultiply(channel, alpha),
        out as int == (channel as int * alpha as int) / 256,
        out <= channel,
        out <= alpha,
{
    proof {
        assert(0 <= channel as int * alpha as int <= 255 * 255) by (nonlinear_arith)
            requires
                0 <= channel as int <= 255,
                0 <= alpha as int <= 255,
        ;
        assert(channel as int * alpha as int <= channel as int * 255) by (nonlinear_arith)
            requires
                0 <= channel as int,
                0 <= alpha as int <= 255,
        ;
        assert(channel as int * alpha as int <= 255 * alpha as int) by (nonlinear_arith)
            requires
                0 <= channel as int <= 255,
                0 <= alpha as int,
        ;
    }
    let product: u32 = (channel as u32) * (alpha as u32);
    (product / 256) as u8
}

impl Rgba {
    /// The colour with each channel scaled by its alpha.
    pub open spec fn spec_flatten(self) -> Rgb {
        Rgb {
            r: spec_premultiply(self.r, self.a),
            g: spec_premultiply(self.g, self.a),
            b: spec_premultiply(self.b, self.a),
        }
    }

    /// Drops the alpha channel after scaling the three others by it.
    pub fn flatten(self) -> (out: Rgb)
        ensures
            out == self.spec_flatten(),
    {
        Rgb {
            r: premultiply(self.r, self.a),
            g: premultiply(self.g, self.a),
            b: premultiply(self.b, self.a),
        }
    }
}

/// The value of a hexadecimal digit, or `None` for any other byte.
pub open spec fn spec_hex_digit(byte: u8) -> Option<u8> {
    if 0x30 <= byte <= 0x39 {
        Some((byte - 0x30) as u8)
    } else if 0x61 <= byte <= 0x66 {
        Some((byte - 0x61 + 10) as u8)
    } else if 0x41 <= byte <= 0x46 {
        Some((byte - 0x41 + 10) as u8)
    } else {
        None
    }
}

/// The value of a hexadecimal digit in either case.
pub fn hex_digit(byte: u8) -> (digit: Option<u8>)
    ensures
        digit == spec_hex_digit(byte),
        digit matches Some(d) ==> d < 16,
{
    if 0x30 <= byte && byte <= 0x39 {
        Some(byte - 0x30)
    } else if 0x61 <= byte && byte <= 0x66 {
        Some(byte - 0x61 + 10)
    } else if 0x41 <= byte && byte <= 0x46 {
        Some(byte - 0x41 + 10)
    } else {
        None
    }
}

/// The byte written by the two hexadecimal digits at `at` and `at + 1`.
pub open spec fn spec_hex_pair(text: Seq<u8>, at: int) -> Option<u8> {
    match (spec_hex_digit(text[at]), spec_hex_digit(text[at + 1])) {
        (Some(high), Some(low)) => Some((high * 16 + low) as u8),
        _ => None,
    }
}

/// The colour that `text` writes as `#rrggbb`, or `None` where `text` is
/// not a number sign followed by six hexadecimal digits.
pub open spec fn spec_from_hex(text: Seq<u8>) -> Option<Rgb> {
    if text.len() != 7 || text[0] != 0x23 {
        None
    } else {
        match (spec_hex_pair(text, 1), spec_hex_pair(text, 3), spec_hex_pair(text, 5)) {
            (Some(r), Some(g), Some(b)) => Some(Rgb { r, g, b }),
            _ => None,
        }
    }
}

/// Reads the two hexadecimal digits at `at` and `at + 1`.
fn hex_pair(text: &[u8], at: usize) -> (byte: Option<u8>)
    requires
        at + 1 < text@.len(),
    ensures
        byte == spec_hex_pair(text@, at as int),
{
    match (hex_digit(text[at]), hex_digit(text[at + 1])) {
        (Some(high), Some(low)) => Some(high * 16 + low),
        _ => None,
    }
}

impl Rgb {
    /// Reads a colour written as `#rrggbb`.
    pub fn from_hex(text: &[u8]) -> (color: Option<Rgb>)
        ensures
            color == spec_from_hex(text@),
    {
        if text.len() != 7 || text[0] != 0x23 {
            return None;
        }
        match (hex_pair(text, 1), hex_pair(text, 3), hex_pair(text, 5)) {
            (Some(r), Some(g), Some(b)) => Some(Rgb { r, g, b }),
            _ => None,
        }
    }
}

} // verus!
