//! The canonical pixel: the 4-channel byte form every lattice value
//! converges to before it is written to the surface.
use vstd::prelude::*;

verus! {

/// An RGBA pixel, one byte per channel.
#[derive(Debug, Clone, Copy, PartialEq, Eq, Structural)]
pub struct Pixel {
    pub r: u8,
    pub g: u8,
    pub b: u8,
    pub a: u8,
}

impl Pixel {
    /// The fully transparent black pixel.
    pub fn zero() -> (p: Pixel)
        ensures
            p == (Pixel { r: 0, g: 0, b: 0, a: 0 }),
    {
        Pixel { r: 0, g: 0, b: 0, a: 0 }
    }

    pub fn new(r: u8, g: u8, b: u8, a: u8) -> (p: Pixel)
        ensures
            p == (Pixel { r, g, b, a }),
    {
        Pixel { r, g, b, a }
    }

    pub fn new_raw(values: [u8; 4]) -> (p: Pixel)
        ensures
            p == (Pixel { r: values[0], g: values[1], b: values[2], a: values[3] }),
    {
        Pixel { r: values[0], g: values[1], b: values[2], a: values[3] }
    }

    /// The channels in RGBA order.
    pub fn to_raw(&self) -> (raw: [u8; 4])
        ensures
            raw == [self.r, self.g, self.b, self.a],
    {
        [self.r, self.g, self.b, self.a]
    }

    pub fn get_r(&self) -> (v: u8)
        ensures
            v == self.r,
    {
        self.r
    }

    pub fn get_g(&self) -> (v: u8)
        ensures
            v == self.g,
    {
        self.g
    }

    pub fn get_b(&self) -> (v: u8)
        ensures
            v == self.b,
    {
        self.b
    }

    pub fn get_a(&self) -> (v: u8)
        ensures
            v == self.a,
    {
        self.a
    }
}

} // verus!
