//! Three-channel, 8-bit colors with saturating addition and `0xRRGGBB` packing.

use vstd::prelude::*;

verus! {

/// An RGB color, one byte per channel.
#[derive(Debug, Clone, Copy, PartialEq, Eq, Structural)]
pub struct Color {
    pub r: u8,
    pub g: u8,
    pub b: u8,
}

/// The sum of two channel values, held at the largest value a channel can take.
pub open spec fn saturating_channel(a: u8, b: u8) -> u8 {
    if a + b > 255 {
        255u8
    } else {
        (a + b) as u8
    }
}

impl Color {
    /// The color that the low 24 bits of `hex` encode as `0xRRGGBB`;
    /// the high byte does not count.
    pub open spec fn spec_from_hex(hex: u32) -> Color {
        Color {
            r: ((hex / 0x1_0000) % 0x100) as u8,
            g: ((hex / 0x100) % 0x100) as u8,
            b: (hex % 0x100) as u8,
        }
    }

    /// The packed value `0xRRGGBB` of this color.
    pub open spec fn spec_to_hex(self) -> u32 {
        (self.r * 0x1_0000 + self.g * 0x100 + self.b) as u32
    }

    /// The channel-wise saturating sum of two colors.
    pub open spec fn spec_add(self, other: Color) -> Color {
        Color {
            r: saturating_channel(self.r, other.r),
            g: saturating_channel(self.g, other.g),
            b: saturating_channel(self.b, other.b),
        }
    }

    /// Builds a color from its three channels.
    pub fn new(r: u8, g: u8, b: u8) -> (color: Color)
        ensures
            color == (Color { r, g, b }),
    {
        Color { r, g, b }
    }

    /// Unpacks `0xRRGGBB`, ignoring the bits above the red channel.
    pub fn from_hex(hex: u32) -> (color: Color)
        ensures
            color == Color::spec_from_hex(hex),
    {
        let red: u32 = (hex >> 16) & 0xFF;
        let green: u32 = (hex >> 8) & 0xFF;
        let blue: u32 = hex & 0xFF;
        assert(red == (hex / 0x1_0000) % 0x100 && green == (hex / 0x100) % 0x100 && blue == hex
            % 0x100) by (bit_vector)
            requires
                red == (hex >> 16) & 0xFF,
                green == (hex >> 8) & 0xFF,
                blue == hex & 0xFF,
        ;
        Color { r: red as u8, g: green as u8, b: blue as u8 }
    }

    /// The color with all channels at zero.
    pub fn black() -> (color: Color)
        ensures
            color == (Color { r: 0, g: 0, b: 0 }),
    {
        Color { r: 0, g: 0, b: 0 }
    }

    /// Packs the color as `0xRRGGBB`.
    pub fn to_hex(&self) -> (hex: u32)
        ensures
            hex == self.spec_to_hex(),
            hex < 0x100_0000,
    {
        let red: u32 = self.r as u32;
        let green: u32 = self.g as u32;
        let blue: u32 = self.b as u32;
        let hex: u32 = (red << 16) | (green << 8) | blue;
        assert(hex == red * 0x1_0000 + green * 0x100 + blue && hex < 0x100_0000) by (bit_vector)
            requires
                red < 0x100,
                green < 0x100,
                blue < 0x100,
                hex == (red << 16) | (green << 8) | blue,
        ;
        hex
    }

    /// Whether every channel is zero.
    pub fn is_black(&self) -> (black: bool)
        ensures
            black <==> *self == (Color { r: 0, g: 0, b: 0 }),
    {
        self.r == 0 && self.g == 0 && self.b == 0
    }

    /// Adds two colors channel by channel; a channel that would pass 255 stays at 255.
    pub fn add(&self, other: Color) -> (sum: Color)
        ensures
            sum == self.spec_add(other),
    {
        Color {
            r: self.r.saturating_add(other.r),
            g: self.g.saturating_add(other.g),
            b: self.b.saturating_add(other.b),
        }
    }

    /// The red channel.
    pub fn r(&self) -> (red: u8)
        ensures
            red == self.r,
    {
        self.r
    }

    /// The green channel.
    pub fn g(&self) -> (green: u8)
        ensures
            green == self.g,
    {
        self.g
    }

    /// The blue channel.
    pub fn b(&self) -> (blue: u8)
        ensures
            blue == self.b,
    {
        self.b
    }
}

/// `a + b` is the saturating sum, as `Color::add` computes it.
impl core::ops::Add for Color {
    type Output = Color;

    fn add(self, other: Color) -> (sum: Color)
        ensures
            sum == self.spec_add(other),
    {
        Color {
            r: self.r.saturating_add(other.r),
            g: self.g.saturating_add(other.g),
            b: self.b.saturating_add(other.b),
        }
    }
}

impl vstd::std_specs::ops::AddSpecImpl for Color {
    open spec fn obeys_add_spec() -> bool {
        true
    }

    open spec fn add_req(self, other: Color) -> bool {
        true
    }

    open spec fn add_spec(self, other: Color) -> Color {
        self.spec_add(other)
    }
}

/// `a += b` replaces `a` by the saturating sum.
impl core::ops::AddAssign for Color {
    fn add_assign(&mut self, other: Color)
        ensures
            *final(self) == old(self).spec_add(other),
    {
        self.r = self.r.saturating_add(other.r);
        self.g = self.g.saturating_add(other.g);
        self.b = self.b.saturating_add(other.b);
    }
}

/// Unpacking a packed color gives the color back.
pub proof fn lemma_hex_round_trip(color: Color)
    ensures
        Color::spec_from_hex(color.spec_to_hex()) == color,
{
}

/// Packing an unpacked value keeps its low 24 bits and clears the rest.
pub proof fn lemma_hex_keeps_low_bits(hex: u32)
    ensures
        Color::spec_from_hex(hex).spec_to_hex() == hex % 0x100_0000,
{
}

/// Addition never wraps: each channel of a sum is the exact sum where that
/// fits in a byte and 255 where it does not, so it lies between the larger
/// operand channel and 255.
pub proof fn lemma_add_saturates(a: Color, b: Color)
    ensures
        a.spec_add(b).r == if a.r + b.r <= 255 { a.r + b.r } else { 255 },
        a.spec_add(b).g == if a.g + b.g <= 255 { a.g + b.g } else { 255 },
        a.spec_add(b).b == if a.b + b.b <= 255 { a.b + b.b } else { 255 },
        a.r <= a.spec_add(b).r <= 255 && b.r <= a.spec_add(b).r,
        a.g <= a.spec_add(b).g <= 255 && b.g <= a.spec_add(b).g,
        a.b <= a.spec_add(b).b <= 255 && b.b <= a.spec_add(b).b,
{
}

/// The order of the operands does not matter, and black changes nothing.
pub proof fn lemma_add_commutes(a: Color, b: Color)
    ensures
        a.spec_add(b) == b.spec_add(a),
        a.spec_add(Color { r: 0, g: 0, b: 0 }) == a,
{
}

/// Nor does it matter how a sum of several colors is grouped: light that is
/// gathered piece by piece adds up to the same color in any order.
pub proof fn lemma_add_associates(a: Color, b: Color, c: Color)
    ensures
        a.spec_add(b).spec_add(c) == a.spec_add(b.spec_add(c)),
{
}

} // verus!
