//! The pixel surface: a flat row-major buffer of packed RGB colors with a
//! bounds-checked "set pixel" primitive and a "clear" primitive. A write
//! outside the surface is silently dropped, never an error.
use vstd::prelude::*;

verus! {

broadcast use vstd::arithmetic::mul::lemma_mul_is_commutative;

pub struct Framebuffer {
    pub width: usize,
    pub height: usize,
    pub buffer: Vec<u32>,
}

impl Framebuffer {
    /// The buffer holds exactly one color per pixel, and the dimensions are
    /// small enough that every pixel index fits comfortably in `usize`.
    pub open spec fn wf(self) -> bool {
        &&& self.buffer.len() == self.width * self.height
        &&& self.width <= 16384
        &&& self.height <= 16384
    }

    /// The color of pixel `(x, y)`.
    pub open spec fn pixel(self, x: int, y: int) -> u32 {
        self.buffer@[y * self.width + x]
    }

    /// A fresh all-black surface of the given dimensions.
    pub fn new(width: usize, height: usize) -> (fb: Framebuffer)
        requires
            width <= 16384,
            height <= 16384,
        ensures
            fb.wf(),
            fb.width == width,
            fb.height == height,
            fb.buffer@ == Seq::new((width * height) as nat, |i: int| 0u32),
    {
        let mut buffer: Vec<u32> = Vec::new();
        proof {
            assert(width * height <= 16384 * 16384) by (nonlinear_arith)
                requires
                    width <= 16384,
                    height <= 16384,
                    0 <= width,
                    0 <= height,
            ;
        }
        let n = width * height;
        let mut i: usize = 0;
        while i < n
            invariant
                i <= n,
                buffer@ =~= Seq::new(i as nat, |j: int| 0u32),
            decreases n - i,
        {
            buffer.push(0);
            proof {
                assert(buffer@ =~= Seq::new((i + 1) as nat, |j: int| 0u32));
            }
            i = i + 1;
        }
        let fb = Framebuffer { width, height, buffer };
        proof {
            assert(fb.buffer@ =~= Seq::new((width * height) as nat, |i: int| 0u32));
        }
        fb
    }

    /// Overwrite every pixel with `color`.
    pub fn clear(&mut self, color: u32)
        requires
            old(self).wf(),
        ensures
            final(self).wf(),
            final(self).width == old(self).width,
            final(self).height == old(self).height,
            final(self).buffer@ == Seq::new(old(self).buffer@.len(), |i: int| color),
    {
        let n = self.buffer.len();
        let mut i: usize = 0;
        while i < n
            invariant
                i <= n,
                self.buffer.len() == n,
                self.width == old(self).width,
                self.height == old(self).height,
                forall|j: int| 0 <= j < i ==> self.buffer@[j] == color,
            decreases n - i,
        {
            self.buffer.set(i, color);
            i = i + 1;
        }
        proof {
            assert(self.buffer@ =~= Seq::new(old(self).buffer@.len(), |i: int| color));
        }
    }

    /// What the buffer looks like after a `point` call: unchanged when the
    /// pixel is out of range, otherwise updated at the pixel's flat index.
    pub open spec fn spec_point(self, x: int, y: int, color: u32) -> Seq<u32> {
        if 0 <= x < self.width && 0 <= y < self.height {
            self.buffer@.update(y * self.width + x, color)
        } else {
            self.buffer@
        }
    }

    /// Set pixel `(x, y)` to `color`; a write outside the surface is a no-op.
    pub fn point(&mut self, x: usize, y: usize, color: u32)
        requires
            old(self).wf(),
        ensures
            final(self).wf(),
            final(self).width == old(self).width,
            final(self).height == old(self).height,
            final(self).buffer@ == old(self).spec_point(x as int, y as int, color),
            forall|j: int|
                0 <= j < old(self).buffer@.len() ==> final(self).buffer@[j] == old(self).buffer@[j]
                    || final(self).buffer@[j] == color,
            forall|j: int|
                0 <= j < old(self).buffer@.len() ==> final(self).buffer@[j] == (if j % (old(
                    self,
                ).width as int) == x as int && j / (old(self).width as int) == y as int {
                    color
                } else {
                    old(self).buffer@[j]
                }),
    {
        let ghost wi = self.width as int;
        if x < self.width && y < self.height {
            proof {
                assert(y * self.width + x < self.width * self.height) by (nonlinear_arith)
                    requires
                        x < self.width,
                        y < self.height,
                        0 <= x,
                        0 <= y,
                ;
                vstd::arithmetic::div_mod::lemma_fundamental_div_mod_converse(
                    (y as int) * wi + x,
                    wi,
                    y as int,
                    x as int,
                );
            }
            let idx = y * self.width + x;
            self.buffer.set(idx, color);
            proof {
                assert forall|j: int| 0 <= j < old(self).buffer@.len() && j != (y as int) * wi
                    + x implies !(#[trigger] (j % wi) == x as int && j / wi == y as int) by {
                    vstd::arithmetic::div_mod::lemma_fundamental_div_mod(j, wi);
                }
            }
        } else {
            proof {
                let hi = self.height as int;
                assert forall|j: int| 0 <= j < old(self).buffer@.len() implies !(#[trigger] (j
                    % wi) == x as int && j / wi == y as int) by {
                    assert(wi >= 1) by (nonlinear_arith)
                        requires
                            0 <= j,
                            j < wi * hi,
                            0 <= hi,
                    ;
                    vstd::arithmetic::div_mod::lemma_fundamental_div_mod(j, wi);
                    vstd::arithmetic::div_mod::lemma_mod_division_less_than_divisor(j, wi);
                    if (y as int) >= hi && j / wi == y as int {
                        assert(hi * wi <= (j / wi) * wi <= j) by (nonlinear_arith)
                            requires
                                hi <= j / wi,
                                wi > 0,
                                j >= 0,
                                j % wi >= 0,
                                j == (j / wi) * wi + j % wi,
                        ;
                        assert(hi * wi == wi * hi) by (nonlinear_arith);
                    }
                }
            }
        }
    }
}

} // verus!
