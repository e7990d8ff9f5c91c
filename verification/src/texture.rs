//! The sampleable texture: a read-only 2D color source. A world coordinate is
//! reduced to its fractional part before it is scaled to a texel column or
//! row, so the texture tiles the world endlessly along both axes.
use vstd::prelude::*;

use crate::fixed::{trunc_rem, FP};

verus! {

/// A packed RGB color built from three channel bytes.
pub open spec fn spec_pack_rgb(r: u8, g: u8, b: u8) -> u32 {
    ((r as u32) << 16) | ((g as u32) << 8) | (b as u32)
}

/// Pack three color channel bytes into one RGB pixel value.
pub fn pack_rgb(r: u8, g: u8, b: u8) -> (c: u32)
    ensures
        c == spec_pack_rgb(r, g, b),
{
    ((r as u32) << 16) | ((g as u32) << 8) | (b as u32)
}

pub struct Texture {
    pub width: usize,
    pub height: usize,
    pub pixels: Vec<u32>,
}

impl Texture {
    /// One pixel per texel, with dimensions positive and small enough for
    /// every index computation to stay in range.
    pub open spec fn wf(self) -> bool {
        &&& self.pixels.len() == self.width * self.height
        &&& 1 <= self.width <= 4096
        &&& 1 <= self.height <= 4096
    }

    /// The color of texel `(x, y)`.
    pub open spec fn spec_texel(self, x: int, y: int) -> u32 {
        self.pixels@[y * self.width + x]
    }

    /// Build a texture from decoded image data: one RGBA byte quadruple per
    /// texel, rows in top-to-bottom order. Returns `None` iff the dimensions
    /// are out of range or the byte count does not match them.
    pub fn from_rgba(width: usize, height: usize, bytes: &Vec<u8>) -> (t: Option<Texture>)
        ensures
            t is Some <==> (1 <= width <= 4096 && 1 <= height <= 4096 && bytes@.len() == 4 * (
            width * height)),
            t is Some ==> {
                let tex = t->Some_0;
                &&& tex.wf()
                &&& tex.width == width
                &&& tex.height == height
                &&& forall|i: int|
                    0 <= i < width * height ==> tex.pixels@[i] == spec_pack_rgb(
                        bytes@[4 * i],
                        bytes@[4 * i + 1],
                        bytes@[4 * i + 2],
                    )
            },
    {
        if width < 1 || width > 4096 || height < 1 || height > 4096 {
            return None;
        }
        proof {
            assert(width * height <= 4096 * 4096) by (nonlinear_arith)
                requires
                    1 <= width <= 4096,
                    1 <= height <= 4096,
            ;
        }
        let n = width * height;
        if bytes.len() != 4 * n {
            return None;
        }
        let mut pixels: Vec<u32> = Vec::new();
        let mut i: usize = 0;
        while i < n
            invariant
                i <= n,
                n <= 16777216,
                n == width * height,
                bytes@.len() == 4 * n,
                pixels@.len() == i,
                forall|j: int|
                    0 <= j < i ==> pixels@[j] == spec_pack_rgb(
                        bytes@[4 * j],
                        bytes@[4 * j + 1],
                        bytes@[4 * j + 2],
                    ),
            decreases n - i,
        {
            let c = pack_rgb(bytes[4 * i], bytes[4 * i + 1], bytes[4 * i + 2]);
            pixels.push(c);
            i = i + 1;
        }
        Some(Texture { width, height, pixels })
    }

    /// Read texel `(x, y)` directly.
    pub fn texel(&self, x: usize, y: usize) -> (c: u32)
        requires
            self.wf(),
            x < self.width,
            y < self.height,
        ensures
            c == self.spec_texel(x as int, y as int),
    {
        proof {
            assert(y * self.width + x < self.width * self.height) by (nonlinear_arith)
                requires
                    0 <= x < self.width,
                    0 <= y < self.height,
            ;
        }
        self.pixels[y * self.width + x]
    }

    /// The texel column (or row, along the other axis) that a fixed-point
    /// world coordinate samples: the fractional part of the coordinate scaled
    /// by the texture dimension. A negative fractional part resolves to
    /// texel 0, as a saturating conversion does.
    pub open spec fn spec_world_to_texel(c: int, dim: int) -> int {
        let frac = trunc_rem(c, FP as int);
        if frac < 0 {
            0
        } else {
            frac * dim / (FP as int)
        }
    }

    /// Map a world coordinate to a texel index along an axis of size `dim`.
    pub fn world_to_texel(c: i64, dim: usize) -> (t: usize)
        requires
            c > i64::MIN,
            1 <= dim <= 4096,
        ensures
            t == Self::spec_world_to_texel(c as int, dim as int),
            t < dim,
    {
        let frac: i64 = if c >= 0 {
            c % FP
        } else {
            -((-c) % FP)
        };
        if frac < 0 {
            0
        } else {
            proof {
                assert(frac * dim < FP * dim) by (nonlinear_arith)
                    requires
                        0 <= frac < FP,
                        1 <= dim,
                ;
                vstd::arithmetic::div_mod::lemma_multiply_divide_lt(
                    frac * dim,
                    FP as int,
                    dim as int,
                );
            }
            (frac * (dim as i64) / FP) as usize
        }
    }

    /// Sample the texture at a pair of fixed-point world coordinates.
    pub fn sample_world(&self, wx: i64, wy: i64) -> (c: u32)
        requires
            self.wf(),
            wx > i64::MIN,
            wy > i64::MIN,
        ensures
            c == self.spec_texel(
                Self::spec_world_to_texel(wx as int, self.width as int),
                Self::spec_world_to_texel(wy as int, self.height as int),
            ),
    {
        let tx = Self::world_to_texel(wx, self.width);
        let ty = Self::world_to_texel(wy, self.height);
        self.texel(tx, ty)
    }
}

/// Texture sampling tiles: two world coordinates one whole world unit apart
/// sample the same texel. (This holds of non-negative coordinates; a negative
/// coordinate saturates to texel 0, so a coordinate just below zero and its
/// successor one unit up may differ.)
pub proof fn lemma_sampling_tiles(c: int, dim: int)
    requires
        c >= 0,
        dim >= 1,
    ensures
        Texture::spec_world_to_texel(c + FP, dim) == Texture::spec_world_to_texel(c, dim),
{
    vstd::arithmetic::div_mod::lemma_mod_add_multiples_vanish(c, FP as int);
    assert(trunc_rem(c + FP, FP as int) == trunc_rem(c, FP as int));
}

} // verus!
