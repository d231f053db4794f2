use vstd::prelude::*;

verus! {

/// An RGBA colour with eight bits per channel.
#[derive(Debug, Clone, Copy, PartialEq, Eq, Structural)]
pub struct Rgba {
    pub r: u8,
    pub g: u8,
    pub b: u8,
    pub a: u8,
}

/// Integer-truncated average of the three colour channels.
pub open spec fn gray_level(c: Rgba) -> int {
    (c.r + c.g + c.b) / 3
}

/// The grayscale version of a colour: each colour channel replaced by their
/// average, alpha kept.
pub open spec fn gray(c: Rgba) -> Rgba {
    Rgba { r: gray_level(c) as u8, g: gray_level(c) as u8, b: gray_level(c) as u8, a: c.a }
}

impl Rgba {
    pub fn new(r: u8, g: u8, b: u8, a: u8) -> (c: Rgba)
        ensures
            c == (Rgba { r, g, b, a }),
    {
        Rgba { r, g, b, a }
    }

    /// Replace each colour channel by the integer-truncated average of the three.
    pub fn grayscale(self) -> (c: Rgba)
        ensures
            c == gray(self),
    {
        let avg = ((self.r as u16 + self.g as u16 + self.b as u16) / 3) as u8;
        Rgba { r: avg, g: avg, b: avg, a: self.a }
    }

    /// The four bytes of this colour in frame order: red, green, blue, alpha.
    pub fn to_bytes(self) -> (bytes: [u8; 4])
        ensures
            bytes@ == seq![self.r, self.g, self.b, self.a],
    {
        let bytes = [self.r, self.g, self.b, self.a];
        assert(bytes@ =~= seq![self.r, self.g, self.b, self.a]);
        bytes
    }
}

/// Applying the grayscale filter a second time changes nothing.
pub proof fn lemma_grayscale_idempotent(c: Rgba)
    ensures
        gray(gray(c)) == gray(c),
{
}

} // verus!
