use vstd::prelude::*;

verus! {

/// One colour of the frame: red, green, blue and alpha, eight bits each.
#[derive(Clone, Copy, Debug, PartialEq, Eq, Structural)]
pub struct Pixel {
    pub r: u8,
    pub g: u8,
    pub b: u8,
    pub a: u8,
}

impl Pixel {
    /// Opaque black, the colour of a pixel whose ray misses the surface.
    pub open spec fn background() -> Pixel {
        Pixel { r: 0, g: 0, b: 0, a: 255 }
    }

    /// The channel `c` of the pixel, in the order red, green, blue, alpha.
    pub open spec fn channel(self, c: int) -> u8 {
        if c == 0 {
            self.r
        } else if c == 1 {
            self.g
        } else if c == 2 {
            self.b
        } else {
            self.a
        }
    }

    /// A new pixel is opaque black.
    pub fn new() -> (p: Self)
        ensures
            p == Pixel::background(),
    {
        Pixel { r: 0, g: 0, b: 0, a: 255 }
    }

    /// The pixel with the four channels of `v`, in the order red, green, blue, alpha.
    pub fn from(v: (u8, u8, u8, u8)) -> (p: Self)
        ensures
            p.r == v.0,
            p.g == v.1,
            p.b == v.2,
            p.a == v.3,
    {
        Pixel { r: v.0, g: v.1, b: v.2, a: v.3 }
    }

    /// The four channels, in the order red, green, blue, alpha.
    pub fn as_rgba8(&self) -> (v: (u8, u8, u8, u8))
        ensures
            v == (self.r, self.g, self.b, self.a),
    {
        (self.r, self.g, self.b, self.a)
    }
}

} // verus!
