//! The image surface the generator writes into: a width, a height, and a
//! flat RGBA byte buffer, 4 bytes per pixel, row-major, origin top-left.
use vstd::prelude::*;

use crate::pixel::Pixel;

verus! {

/// Why a surface could not be made.
#[derive(Debug, Clone, Copy, PartialEq, Eq, Structural)]
pub enum PlaneError {
    /// Width or height was zero.
    ValueGreaterZero,
    /// The byte buffer for `width * height` pixels would not fit in memory.
    CapacityError,
}

#[derive(Debug, Clone)]
pub struct Plane {
    width: u32,
    height: u32,
    data: Vec<u8>,
}

impl Plane {
    /// The buffer holds exactly 4 bytes per pixel; constructors establish
    /// it and every method keeps it.
    pub closed spec fn wf(&self) -> bool {
        self.data@.len() == 4 * (self.width as int) * (self.height as int)
    }

    pub closed spec fn spec_width(&self) -> u32 {
        self.width
    }

    pub closed spec fn spec_height(&self) -> u32 {
        self.height
    }

    pub closed spec fn spec_data(&self) -> Seq<u8> {
        self.data@
    }

    /// Wraps a finished byte buffer; the buffer must hold exactly
    /// `4 * width * height` bytes.
    pub fn from_data(width: u32, height: u32, data: Vec<u8>) -> (r: Plane)
        requires
            data@.len() == 4 * (width as int) * (height as int),
        ensures
            r.spec_width() == width,
            r.spec_height() == height,
            r.spec_data() == data@,
            r.wf(),
    {
        Plane { width, height, data }
    }

    /// An all-transparent surface of the given size; zero dimensions and
    /// buffers beyond the address space are rejected.
    pub fn new(width: u32, height: u32) -> (r: Result<Plane, PlaneError>)
        ensures
            match r {
                Ok(p) => width > 0 && height > 0 && 4 * (width as int) * (height as int)
                    <= usize::MAX && p.spec_width() == width && p.spec_height() == height
                    && p.wf() && p.spec_data() =~= Seq::new(
                    (4 * (width as int) * (height as int)) as nat,
                    |i: int| 0u8,
                ),
                Err(PlaneError::ValueGreaterZero) => width == 0 || height == 0,
                Err(PlaneError::CapacityError) => width > 0 && height > 0 && 4 * (width as int) * (
                height as int) > usize::MAX,
            },
    {
        if width == 0 || height == 0 {
            return Err(PlaneError::ValueGreaterZero);
        }
        proof {
            assert(4 * (width as int) * (height as int) <= 4 * 0x1_0000_0000 * 0x1_0000_0000int)
                by (nonlinear_arith)
                requires
                    0 <= width < 0x1_0000_0000,
                    0 <= height < 0x1_0000_0000,
            ;
        }
        let total: u128 = 4u128 * (width as u128) * (height as u128);
        if total > usize::MAX as u128 {
            return Err(PlaneError::CapacityError);
        }
        let n: usize = total as usize;
        let mut data: Vec<u8> = Vec::new();
        let mut i: usize = 0;
        while i < n
            invariant
                i <= n,
                data@.len() == i,
                forall|j: int| 0 <= j < i ==> data@[j] == 0u8,
            decreases n - i,
        {
            data.push(0u8);
            i = i + 1;
        }
        proof {
            assert(data@ =~= Seq::new((4 * (width as int) * (height as int)) as nat, |i: int| 0u8));
        }
        Ok(Plane { width, height, data })
    }

    pub fn width(&self) -> (r: u32)
        ensures
            r == self.spec_width(),
    {
        self.width
    }

    pub fn height(&self) -> (r: u32)
        ensures
            r == self.spec_height(),
    {
        self.height
    }

    /// The byte offset of a pixel: row-major, 4 bytes per pixel.
    pub open spec fn spec_index(&self, x: int, y: int) -> int {
        4 * (y * self.spec_width() + x)
    }

    /// Reads the pixel at `(x, y)`.
    pub fn pixel(&self, x: u32, y: u32) -> (r: Pixel)
        requires
            self.wf(),
            x < self.spec_width(),
            y < self.spec_height(),
        ensures
            r.r == self.spec_data()[self.spec_index(x as int, y as int)],
            r.g == self.spec_data()[self.spec_index(x as int, y as int) + 1],
            r.b == self.spec_data()[self.spec_index(x as int, y as int) + 2],
            r.a == self.spec_data()[self.spec_index(x as int, y as int) + 3],
    {
        let n = self.data.len();
        proof {
            assert(4 * ((y as int) * self.width + x) + 4 <= 4 * (self.width as int) * (
            self.height as int) && (y as int) * (self.width as int) + x + 1 <= (
            self.width as int) * (self.height as int) && 0 <= (self.width as int) * (
            self.height as int) && (self.width as int) * (self.height as int) <= 4 * (
            self.width as int) * (self.height as int)) by (nonlinear_arith)
                requires
                    0 <= x < self.width,
                    0 <= y < self.height,
            ;
        }
        let base: usize = 4 * ((y as usize) * (self.width as usize) + (x as usize));
        Pixel {
            r: self.data[base],
            g: self.data[base + 1],
            b: self.data[base + 2],
            a: self.data[base + 3],
        }
    }

    /// Writes the pixel at `(x, y)`; every other byte is kept.
    pub fn put_pixel(&mut self, x: u32, y: u32, p: Pixel)
        requires
            old(self).wf(),
            x < old(self).spec_width(),
            y < old(self).spec_height(),
        ensures
            final(self).wf(),
            final(self).spec_width() == old(self).spec_width(),
            final(self).spec_height() == old(self).spec_height(),
            final(self).spec_data() =~= old(self).spec_data().update(
                old(self).spec_index(x as int, y as int),
                p.r,
            ).update(
                old(self).spec_index(x as int, y as int) + 1,
                p.g,
            ).update(
                old(self).spec_index(x as int, y as int) + 2,
                p.b,
            ).update(
                old(self).spec_index(x as int, y as int) + 3,
                p.a,
            ),
    {
        let n = self.data.len();
        proof {
            assert(4 * ((y as int) * self.width + x) + 4 <= 4 * (self.width as int) * (
            self.height as int) && (y as int) * (self.width as int) + x + 1 <= (
            self.width as int) * (self.height as int) && 0 <= (self.width as int) * (
            self.height as int) && (self.width as int) * (self.height as int) <= 4 * (
            self.width as int) * (self.height as int)) by (nonlinear_arith)
                requires
                    0 <= x < self.width,
                    0 <= y < self.height,
            ;
        }
        let base: usize = 4 * ((y as usize) * (self.width as usize) + (x as usize));
        self.data.set(base, p.r);
        self.data.set(base + 1, p.g);
        self.data.set(base + 2, p.b);
        self.data.set(base + 3, p.a);
    }

    /// The whole buffer, flattened: 4 bytes per pixel in RGBA order.
    pub fn as_data_flatten(&self) -> (r: Vec<u8>)
        ensures
            r@ == self.spec_data(),
    {
        let mut out: Vec<u8> = Vec::new();
        let mut i: usize = 0;
        while i < self.data.len()
            invariant
                i <= self.data@.len(),
                out@ =~= self.data@.take(i as int),
            decreases self.data@.len() - i,
        {
            out.push(self.data[i]);
            i = i + 1;
        }
        proof {
            assert(self.data@.take(self.data@.len() as int) =~= self.data@);
        }
        out
    }
}

} // verus!
