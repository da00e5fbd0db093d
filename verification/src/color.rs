//! RGB colours and their 15-bit BGR555 packing.

use vstd::prelude::*;

verus! {

/// A colour with 8-bit red, green and blue channels.
#[derive(Clone, Copy, Debug, PartialEq, Eq, Structural)]
pub struct Color {
    pub r: u8,
    pub g: u8,
    pub b: u8,
}

impl Color {
    /// Black: every channel at zero.
    pub open spec fn spec_black() -> Color {
        Color { r: 0, g: 0, b: 0 }
    }

    /// White: every channel at its maximum.
    pub open spec fn spec_white() -> Color {
        Color { r: 255, g: 255, b: 255 }
    }

    /// Black, the colour of every palette slot that was never set.
    #[verifier::when_used_as_spec(spec_black)]
    pub fn black() -> (c: Color)
        ensures
            c == Color::spec_black(),
    {
        Color { r: 0, g: 0, b: 0 }
    }

    /// White.
    #[verifier::when_used_as_spec(spec_white)]
    pub fn white() -> (c: Color)
        ensures
            c == Color::spec_white(),
    {
        Color { r: 255, g: 255, b: 255 }
    }

    /// The 15-bit word of a colour: the top five bits of blue, green and red,
    /// blue in the high field and red in the low field.
    pub open spec fn bgr555(self) -> nat {
        ((self.b / 8) * 1024 + (self.g / 8) * 32 + self.r / 8) as nat
    }

    /// The colour that a 15-bit word stands for: each five-bit field becomes
    /// the top five bits of its channel. Bit 15 of the word is ignored.
    pub open spec fn of_bgr555(v: nat) -> Color {
        Color {
            r: ((v % 32) * 8) as u8,
            g: ((v / 32 % 32) * 8) as u8,
            b: ((v / 1024 % 32) * 8) as u8,
        }
    }

    /// The colour with the low three bits of each channel cleared: all that
    /// the 15-bit word keeps of a colour.
    pub open spec fn quantized(self) -> Color {
        Color {
            r: (self.r / 8 * 8) as u8,
            g: (self.g / 8 * 8) as u8,
            b: (self.b / 8 * 8) as u8,
        }
    }

    /// The colour with the given channels.
    pub fn from_rgb(r: u8, g: u8, b: u8) -> (c: Color)
        ensures
            c == (Color { r, g, b }),
    {
        Color { r, g, b }
    }

    /// Packs the colour into its 15-bit word.
    pub fn to_bgr555(self) -> (v: u16)
        ensures
            v == self.bgr555(),
    {
        let r: u16 = self.r as u16;
        let g: u16 = self.g as u16;
        let b: u16 = self.b as u16;
        assert(((b >> 3) << 10 | (g >> 3) << 5 | (r >> 3)) == (b / 8) * 1024 + (g / 8) * 32 + r / 8)
            by (bit_vector)
            requires
                r < 256,
                g < 256,
                b < 256,
        ;
        (b >> 3) << 10 | (g >> 3) << 5 | (r >> 3)
    }

    /// Unpacks a 15-bit word.
    pub fn from_bgr555(v: u16) -> (c: Color)
        ensures
            c == Color::of_bgr555(v as nat),
    {
        let r: u16 = (v & 0x1f) << 3;
        let g: u16 = ((v >> 5) & 0x1f) << 3;
        let b: u16 = ((v >> 10) & 0x1f) << 3;
        assert((v & 0x1f) << 3 == (v % 32) * 8) by (bit_vector);
        assert(((v >> 5) & 0x1f) << 3 == (v / 32 % 32) * 8) by (bit_vector);
        assert(((v >> 10) & 0x1f) << 3 == (v / 1024 % 32) * 8) by (bit_vector);
        Color { r: r as u8, g: g as u8, b: b as u8 }
    }
}

/// The word of a colour fits in 15 bits.
pub proof fn lemma_bgr555_bound(c: Color)
    ensures
        c.bgr555() < 0x8000,
{
}

/// Packing a colour and unpacking the word gives the colour back but for
/// the low three bits of each channel, which the word does not hold: the
/// five-bit value of each channel survives.
pub proof fn lemma_bgr555_round_trip(c: Color)
    ensures
        Color::of_bgr555(c.bgr555()) == c.quantized(),
        Color::of_bgr555(c.bgr555()).r / 8 == c.r / 8,
        Color::of_bgr555(c.bgr555()).g / 8 == c.g / 8,
        Color::of_bgr555(c.bgr555()).b / 8 == c.b / 8,
        Color::of_bgr555(c.bgr555()).bgr555() == c.bgr555(),
{
    let r5 = c.r as int / 8;
    let g5 = c.g as int / 8;
    let b5 = c.b as int / 8;
    let v = c.bgr555() as int;
    assert(v == 32 * (32 * b5 + g5) + r5);
    assert(v % 32 == r5 && v / 32 == 32 * b5 + g5);
    assert(v / 32 % 32 == g5);
    assert(v == 1024 * b5 + (32 * g5 + r5));
    assert(v / 1024 == b5);
    assert(b5 % 32 == b5);
    assert((r5 * 8) / 8 == r5 && (g5 * 8) / 8 == g5 && (b5 * 8) / 8 == b5);
}

/// Unpacking a 15-bit word and packing the colour gives the word back.
pub proof fn lemma_bgr555_unpack_pack(v: nat)
    requires
        v < 0x8000,
    ensures
        Color::of_bgr555(v).bgr555() == v,
{
    let r5 = v as int % 32;
    let g5 = v as int / 32 % 32;
    let b5 = v as int / 1024 % 32;
    assert(v as int / 1024 == v as int / 32 / 32);
    assert(b5 == v as int / 1024);
    assert((r5 * 8) / 8 == r5 && (g5 * 8) / 8 == g5 && (b5 * 8) / 8 == b5);
    assert(v == 1024 * b5 + 32 * g5 + r5);
}

} // verus!
