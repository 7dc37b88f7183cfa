use vstd::prelude::*;

verus! {

/// A colour packed into one word as `0xRRGGBBAA`.
pub type Hex = u32;

/// An 8-bit-per-channel colour.
#[derive(Debug, Clone, Copy, PartialEq, Eq)]
pub struct Rgba {
    pub r: u8,
    pub g: u8,
    pub b: u8,
    pub a: u8,
}

/// The four channels read as one big-endian word.
pub open spec fn pack_be(r: u8, g: u8, b: u8, a: u8) -> int {
    r as int * 0x1000000 + g as int * 0x10000 + b as int * 0x100 + a as int
}

/// The colour whose big-endian word is `h`.
pub open spec fn unpack_be(h: u32) -> Rgba {
    Rgba {
        r: (h / 0x1000000) as u8,
        g: ((h / 0x10000) % 0x100) as u8,
        b: ((h / 0x100) % 0x100) as u8,
        a: (h % 0x100) as u8,
    }
}

impl Rgba {
    pub fn new(r: u8, g: u8, b: u8, a: u8) -> (c: Self)
        ensures
            c == (Rgba { r, g, b, a }),
    {
        Rgba { r, g, b, a }
    }

    /// The colour as `0xRRGGBBAA`: its channels read as a big-endian word.
    pub fn to_hex(&self) -> (h: Hex)
        ensures
            h as int == pack_be(self.r, self.g, self.b, self.a),
    {
        let r = self.r as u32;
        let g = self.g as u32;
        let b = self.b as u32;
        let a = self.a as u32;
        r * 0x1000000 + g * 0x10000 + b * 0x100 + a
    }

    /// The colour written as `0xRRGGBBAA`.
    pub fn from_hex(hex: Hex) -> (c: Self)
        ensures
            c == unpack_be(hex),
    {
        Rgba {
            r: (hex / 0x1000000) as u8,
            g: ((hex / 0x10000) % 0x100) as u8,
            b: ((hex / 0x100) % 0x100) as u8,
            a: (hex % 0x100) as u8,
        }
    }
}

impl Default for Rgba {
    /// Fully transparent black.
    fn default() -> (c: Self)
        ensures
            c == (Rgba { r: 0, g: 0, b: 0, a: 0 }),
    {
        Rgba { r: 0, g: 0, b: 0, a: 0 }
    }
}

/// Packing a colour into a word and unpacking the word gives the colour back.
pub proof fn lemma_unpack_pack(c: Rgba)
    ensures
        0 <= pack_be(c.r, c.g, c.b, c.a) <= u32::MAX,
        unpack_be(pack_be(c.r, c.g, c.b, c.a) as u32) == c,
{
    let h = pack_be(c.r, c.g, c.b, c.a);
    let (r, g, b, a) = (c.r as int, c.g as int, c.b as int, c.a as int);
    assert(h / 0x1000000 == r && (h / 0x10000) % 0x100 == g && (h / 0x100) % 0x100 == b && h
        % 0x100 == a) by (nonlinear_arith)
        requires
            h == r * 0x1000000 + g * 0x10000 + b * 0x100 + a,
            0 <= r < 0x100,
            0 <= g < 0x100,
            0 <= b < 0x100,
            0 <= a < 0x100,
    ;
}

/// Unpacking a word into a colour and packing the colour gives the word back.
pub proof fn lemma_pack_unpack(h: u32)
    ensures
        pack_be(unpack_be(h).r, unpack_be(h).g, unpack_be(h).b, unpack_be(h).a) == h,
{
    let x = h as int;
    assert(x == (x / 0x1000000) * 0x1000000 + ((x / 0x10000) % 0x100) * 0x10000 + ((x / 0x100)
        % 0x100) * 0x100 + x % 0x100 && x / 0x1000000 < 0x100) by (nonlinear_arith)
        requires
            0 <= x < 0x1_0000_0000,
    ;
}

/// A colour's word is `0xRRGGBBAA`: red in the highest byte, then green,
/// blue, and alpha in the lowest.
pub proof fn lemma_hex_channels(r: u8, g: u8, b: u8, a: u8)
    ensures
        pack_be(r, g, b, a) / 0x1000000 == r,
        (pack_be(r, g, b, a) / 0x10000) % 0x100 == g,
        (pack_be(r, g, b, a) / 0x100) % 0x100 == b,
        pack_be(r, g, b, a) % 0x100 == a,
        unpack_be((0x1000000 * r as int + 0x10000 * g as int + 0x100 * b as int + a as int) as u32)
            == (Rgba { r, g, b, a }),
{
    lemma_unpack_pack(Rgba { r, g, b, a });
}

} // verus!
