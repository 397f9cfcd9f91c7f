use vstd::prelude::*;
use vstd::arithmetic::div_mod::lemma_fundamental_div_mod_converse;
use vstd::arithmetic::mul::lemma_mul_inequality;
use crate::pixel::Pixel;
use crate::sampling::{gap_filled, lemma_slot_point, sample_count, sample_slot, span_of};

verus! {

/// Where the bytes of pixel `(i, j)` start in a frame `width` pixels wide.
pub open spec fn pixel_offset(width: nat, i: nat, j: nat) -> nat {
    (j * width + i) * 4
}

/// Pixel `(i, j)` lies inside a `width` by `height` frame, with its four
/// bytes inside the buffer.
pub proof fn lemma_pixel_offset_bound(width: nat, height: nat, i: nat, j: nat)
    requires
        i < width,
        j < height,
    ensures
        j * width + i < width * height,
        pixel_offset(width, i, j) + 4 <= width * height * 4,
{
    lemma_mul_inequality(j as int, height - 1, width as int);
    assert((height - 1) * width == width * height - width) by (nonlinear_arith);
}

/// The RGBA bytes of a frame, row by row and four bytes a pixel.
pub struct Framebuffer {
    data: Vec<u8>,
    width: usize,
    height: usize,
}

impl View for Framebuffer {
    type V = Seq<u8>;

    closed spec fn view(&self) -> Seq<u8> {
        self.data@
    }
}

impl Framebuffer {
    /// The width of the frame in pixels.
    pub closed spec fn spec_width(&self) -> nat {
        self.width as nat
    }

    /// The height of the frame in pixels.
    pub closed spec fn spec_height(&self) -> nat {
        self.height as nat
    }

    /// The buffer holds four bytes for each pixel of the frame.
    pub open spec fn wf(&self) -> bool {
        &&& self@.len() == self.spec_width() * self.spec_height() * 4
        &&& self.spec_width() * self.spec_height() * 4 <= usize::MAX
    }

    /// The colour of pixel `(i, j)`.
    pub open spec fn pixel(&self, i: nat, j: nat) -> Pixel {
        let o = pixel_offset(self.spec_width(), i, j) as int;
        Pixel { r: self@[o], g: self@[o + 1], b: self@[o + 2], a: self@[o + 3] }
    }

    /// An empty frame, zero pixels wide and high.
    pub fn new() -> (fb: Self)
        ensures
            fb.wf(),
            fb.spec_width() == 0,
            fb.spec_height() == 0,
            fb@ == Seq::<u8>::empty(),
    {
        let fb = Framebuffer { data: Vec::new(), width: 0, height: 0 };
        assert(fb@ =~= Seq::<u8>::empty());
        assert(fb.spec_width() * fb.spec_height() * 4 == 0);
        fb
    }

    /// The width of the frame in pixels.
    pub fn width(&self) -> (r: usize)
        ensures
            r == self.spec_width(),
    {
        self.width
    }

    /// The height of the frame in pixels.
    pub fn height(&self) -> (r: usize)
        ensures
            r == self.spec_height(),
    {
        self.height
    }

    /// The bytes of the frame, for display.
    pub fn as_bytes(&self) -> (r: &Vec<u8>)
        ensures
            r@ == self@,
    {
        &self.data
    }

    /// Gives the frame the size `width` by `height`. A new size gets a buffer
    /// of zeros; the same size keeps the buffer; a size with no pixels is
    /// refused and changes nothing. Tells whether the buffer was replaced.
    pub fn resize(&mut self, width: usize, height: usize) -> (changed: bool)
        requires
            old(self).wf(),
            width * height * 4 <= usize::MAX,
        ensures
            final(self).wf(),
            changed == (width > 0 && height > 0 && (width != old(self).spec_width() || height
                != old(self).spec_height())),
            changed ==> final(self).spec_width() == width && final(self).spec_height() == height
                && final(self)@ == Seq::new((width * height * 4) as nat, |k: int| 0u8),
            !changed ==> *final(self) == *old(self),
    {
        if width == 0 || height == 0 || (width == self.width && height == self.height) {
            return false;
        }
        let n = width * height * 4;
        let mut data: Vec<u8> = Vec::new();
        while data.len() < n
            invariant
                data@.len() <= n,
                forall|k: int| 0 <= k < data@.len() ==> #[trigger] data@[k] == 0u8,
            decreases n - data@.len(),
        {
            data.push(0u8);
        }
        self.data = data;
        self.width = width;
        self.height = height;
        assert(self@ =~= Seq::new((width * height * 4) as nat, |k: int| 0u8));
        true
    }

    /// The colour of pixel `(i, j)`.
    pub fn get_pixel(&self, i: usize, j: usize) -> (p: Pixel)
        requires
            self.wf(),
            i < self.spec_width(),
            j < self.spec_height(),
        ensures
            p == self.pixel(i as nat, j as nat),
    {
        proof {
            lemma_pixel_offset_bound(self.width as nat, self.height as nat, i as nat, j as nat);
        }
        let o = (j * self.width + i) * 4;
        Pixel { r: self.data[o], g: self.data[o + 1], b: self.data[o + 2], a: self.data[o + 3] }
    }

    /// Paints pixel `(i, j)` with `p` and leaves every other byte as it was.
    pub fn set_pixel(&mut self, i: usize, j: usize, p: Pixel)
        requires
            old(self).wf(),
            i < old(self).spec_width(),
            j < old(self).spec_height(),
        ensures
            final(self).wf(),
            final(self).spec_width() == old(self).spec_width(),
            final(self).spec_height() == old(self).spec_height(),
            final(self)@.len() == old(self)@.len(),
            forall|k: int|
                0 <= k < old(self)@.len() ==> #[trigger] final(self)@[k] == {
                    let o = pixel_offset(old(self).spec_width(), i as nat, j as nat) as int;
                    if o <= k < o + 4 {
                        p.channel(k - o)
                    } else {
                        old(self)@[k]
                    }
                },
    {
        proof {
            lemma_pixel_offset_bound(self.width as nat, self.height as nat, i as nat, j as nat);
        }
        let o = (j * self.width + i) * 4;
        self.data[o] = p.r;
        self.data[o + 1] = p.g;
        self.data[o + 2] = p.b;
        self.data[o + 3] = p.a;
    }

    /// Paints the whole frame at stride `stride` from `samples`, one sample
    /// for each stride-aligned pixel, row by row: every pixel shows the sample
    /// taken at its nearest stride-aligned pixel above and to the left.
    pub fn fill_strided(&mut self, stride: usize, samples: &Vec<Pixel>)
        requires
            old(self).wf(),
            stride > 0,
            samples@.len() == sample_count(
                old(self).spec_width(),
                old(self).spec_height(),
                stride as nat,
            ),
        ensures
            final(self).wf(),
            final(self).spec_width() == old(self).spec_width(),
            final(self).spec_height() == old(self).spec_height(),
            final(self)@ == gap_filled(
                old(self).spec_width(),
                old(self).spec_height(),
                stride as nat,
                samples@,
            ),
    {
        let width = self.width;
        let height = self.height;
        let ghost target = gap_filled(width as nat, height as nat, stride as nat, samples@);
        if width == 0 || height == 0 {
            assert(self@ =~= target);
            return;
        }
        let cols = span_of(width, stride);
        let n = width * height;
        let count = samples.len();
        let mut p: usize = 0;
        let mut i: usize = 0;
        let mut j: usize = 0;
        while p < n
            invariant
                self.wf(),
                self.spec_width() == width,
                self.spec_height() == height,
                width > 0,
                stride > 0,
                cols == crate::sampling::span(width as nat, stride as nat),
                n == width * height,
                samples@.len() == sample_count(width as nat, height as nat, stride as nat),
                count == samples@.len(),
                target == gap_filled(width as nat, height as nat, stride as nat, samples@),
                p <= n,
                i < width,
                p == j * width + i,
                forall|k: int| 0 <= k < p * 4 ==> #[trigger] self@[k] == target[k],
            decreases n - p,
        {
            proof {
                if j >= height {
                    lemma_mul_inequality(height as int, j as int, width as int);
                    assert(height * width == width * height) by (nonlinear_arith);
                }
                lemma_slot_point(width as nat, height as nat, stride as nat, i as nat, j as nat);
                lemma_fundamental_div_mod_converse(p as int, width as int, j as int, i as int);
                assert((j / stride) * cols <= sample_slot(width as nat, stride as nat, i as nat, j as nat));
            }
            let px = samples[(j / stride) * cols + i / stride];
            self.set_pixel(i, j, px);
            assert forall|k: int| 0 <= k < (p + 1) * 4 implies #[trigger] self@[k] == target[k] by {
                if k >= p * 4 {
                    assert(k / 4 == p);
                }
            }
            p += 1;
            i += 1;
            if i == width {
                proof {
                    assert((j + 1) * width == j * width + width) by (nonlinear_arith);
                }
                i = 0;
                j += 1;
            }
        }
        assert(self@ =~= target);
    }
}

} // verus!
