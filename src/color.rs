use vstd::prelude::*;

verus! {

/// Units per whole unit in every fixed-point value of the library.
pub const FIXED_ONE: i64 = 1_000_000;

/// An intensity clamped into `[0, FIXED_ONE]`.
pub open spec fn clamp_intensity(i: int) -> int {
    if i < 0 {
        0
    } else if i > FIXED_ONE {
        FIXED_ONE as int
    } else {
        i
    }
}

/// A channel scaled by an intensity that was already clamped, rounded down.
pub open spec fn scale_channel(c: u8, clamped: int) -> int {
    (c as int * clamped) / (FIXED_ONE as int)
}

/// The color model: a pixel type that can be scaled by a light intensity.
pub trait ColorSpace: Sized {
    /// The value of `self` after `shade(intensity)`.
    spec fn shaded(&self, intensity: int) -> Self;

    /// The model's zero value.
    spec fn black() -> Self;

    /// Multiplies the visible channels by `intensity / FIXED_ONE`, clamped
    /// into `[0, 1]` first.
    fn shade(&mut self, intensity: i64)
        ensures
            *final(self) == old(self).shaded(intensity as int),
            clamp_intensity(intensity as int) == 0 ==> *final(self) == Self::black(),
            clamp_intensity(intensity as int) == FIXED_ONE ==> *final(self) == *old(self),
    ;
}

fn shade_channel(c: u8, intensity: i64) -> (r: u8)
    ensures
        r as int == scale_channel(c, clamp_intensity(intensity as int)),
{
    let k: i64 = if intensity < 0 {
        0
    } else if intensity > FIXED_ONE {
        FIXED_ONE
    } else {
        intensity
    };
    assert(0 <= c as int * k <= 255 * FIXED_ONE) by (nonlinear_arith)
        requires 0 <= k <= FIXED_ONE, 0 <= c <= 255;
    let p: i64 = (c as i64) * k;
    let q: i64 = p / FIXED_ONE;
    assert(q <= 255) by (nonlinear_arith)
        requires q == p / FIXED_ONE, 0 <= p <= 255 * FIXED_ONE;
    q as u8
}

proof fn lemma_scale_ends(c: u8)
    ensures
        scale_channel(c, 0) == 0,
        scale_channel(c, FIXED_ONE as int) == c as int,
{
    assert((c as int * FIXED_ONE as int) / (FIXED_ONE as int) == c as int) by (nonlinear_arith);
}

/// A three-channel color.
#[derive(Clone, Copy, Debug, PartialEq, Eq, Structural)]
pub struct RGB {
    pub r: u8,
    pub g: u8,
    pub b: u8,
}

impl RGB {
    pub fn new(r: u8, g: u8, b: u8) -> (c: RGB)
        ensures
            c == (RGB { r, g, b }),
    {
        RGB { r, g, b }
    }
}

impl ColorSpace for RGB {
    open spec fn shaded(&self, intensity: int) -> RGB {
        let k = clamp_intensity(intensity);
        RGB {
            r: scale_channel(self.r, k) as u8,
            g: scale_channel(self.g, k) as u8,
            b: scale_channel(self.b, k) as u8,
        }
    }

    open spec fn black() -> RGB {
        RGB { r: 0, g: 0, b: 0 }
    }

    fn shade(&mut self, intensity: i64) {
        proof {
            lemma_scale_ends(self.r);
            lemma_scale_ends(self.g);
            lemma_scale_ends(self.b);
        }
        self.r = shade_channel(self.r, intensity);
        self.g = shade_channel(self.g, intensity);
        self.b = shade_channel(self.b, intensity);
    }
}

/// A single-channel intensity.
#[derive(Clone, Copy, Debug, PartialEq, Eq, Structural)]
pub struct Grayscale {
    pub i: u8,
}

impl Grayscale {
    pub fn new(i: u8) -> (c: Grayscale)
        ensures
            c == (Grayscale { i }),
    {
        Grayscale { i }
    }
}

impl ColorSpace for Grayscale {
    open spec fn shaded(&self, intensity: int) -> Grayscale {
        Grayscale { i: scale_channel(self.i, clamp_intensity(intensity)) as u8 }
    }

    open spec fn black() -> Grayscale {
        Grayscale { i: 0 }
    }

    fn shade(&mut self, intensity: i64) {
        proof {
            lemma_scale_ends(self.i);
        }
        self.i = shade_channel(self.i, intensity);
    }
}

} // verus!
