use vstd::prelude::*;
use vstd::arithmetic::div_mod::{
    lemma_fundamental_div_mod,
    lemma_fundamental_div_mod_converse,
    lemma_mod_bound,
};
use vstd::arithmetic::mul::lemma_mul_inequality;
use crate::pixel::Pixel;

verus! {

/// The number of stride-aligned positions in `0..n`: `n / s`, rounded up.
pub open spec fn span(n: nat, s: nat) -> nat {
    if n % s == 0 {
        n / s
    } else {
        n / s + 1
    }
}

/// The number of sample points of a `width` by `height` frame at stride `s`.
pub open spec fn sample_count(width: nat, height: nat, s: nat) -> nat {
    span(width, s) * span(height, s)
}

/// The pixel at which sample `k` is taken: the samples run row by row over
/// the pixels whose two coordinates are multiples of the stride.
pub open spec fn sample_point(width: nat, s: nat, k: nat) -> (nat, nat) {
    ((k % span(width, s)) * s, (k / span(width, s)) * s)
}

/// The sample whose colour pixel `(i, j)` shows at stride `s`.
pub open spec fn sample_slot(width: nat, s: nat, i: nat, j: nat) -> nat {
    (j / s) * span(width, s) + i / s
}

/// The bytes of a `width` by `height` frame in which pixel `(i, j)` has the
/// colour `colour(i, j)`: row by row, four bytes a pixel, in the order red,
/// green, blue, alpha.
pub open spec fn frame_of(width: nat, height: nat, colour: spec_fn(nat, nat) -> Pixel) -> Seq<u8> {
    Seq::new(
        width * height * 4,
        |k: int| colour(((k / 4) % (width as int)) as nat, ((k / 4) / (width as int)) as nat).channel(k % 4),
    )
}

/// The frame painted at stride `s` from `samples`: each pixel shows the
/// sample that stands for its block.
pub open spec fn gap_filled(width: nat, height: nat, s: nat, samples: Seq<Pixel>) -> Seq<u8> {
    frame_of(width, height, |i: nat, j: nat| samples[sample_slot(width, s, i, j) as int])
}

/// Every position below `n` falls in one of the `span(n, s)` blocks.
pub proof fn lemma_below_span(i: nat, n: nat, s: nat)
    requires
        i < n,
        s > 0,
    ensures
        i / s < span(n, s),
{
    lemma_fundamental_div_mod(i as int, s as int);
    lemma_mod_bound(i as int, s as int);
    lemma_span_covers(n, s);
    if i / s >= span(n, s) {
        lemma_mul_inequality(span(n, s) as int, (i / s) as int, s as int);
        assert((i / s) * s == s * (i / s)) by (nonlinear_arith);
        assert(false);
    }
}

/// Every block starts below `n`.
pub proof fn lemma_span_start(c: nat, n: nat, s: nat)
    requires
        c < span(n, s),
        s > 0,
    ensures
        c * s < n,
{
    lemma_fundamental_div_mod(n as int, s as int);
    if n % s == 0 {
        lemma_mul_inequality(c as int, (n / s - 1) as int, s as int);
        assert((n / s - 1) * s == (n / s) * s - s) by (nonlinear_arith);
    } else {
        lemma_mul_inequality(c as int, (n / s) as int, s as int);
    }
}

/// The blocks cover `0..n`.
pub proof fn lemma_span_covers(n: nat, s: nat)
    requires
        s > 0,
    ensures
        span(n, s) * s >= n,
{
    lemma_fundamental_div_mod(n as int, s as int);
    lemma_mod_bound(n as int, s as int);
    assert((n / s) * s == s * (n / s)) by (nonlinear_arith);
    if n % s != 0 {
        assert((n / s + 1) * s == (n / s) * s + s) by (nonlinear_arith);
    }
}

/// The sample that pixel `(i, j)` shows exists, and is the one taken at the
/// nearest stride-aligned pixel above and to the left of it.
pub proof fn lemma_slot_point(width: nat, height: nat, s: nat, i: nat, j: nat)
    requires
        i < width,
        j < height,
        s > 0,
    ensures
        sample_slot(width, s, i, j) < sample_count(width, height, s),
        sample_point(width, s, sample_slot(width, s, i, j)) == ((i - i % s) as nat, (j - j % s) as nat),
{
    let cols = span(width, s);
    let rows = span(height, s);
    lemma_below_span(i, width, s);
    lemma_below_span(j, height, s);
    let slot = sample_slot(width, s, i, j);
    lemma_fundamental_div_mod_converse(slot as int, cols as int, (j / s) as int, (i / s) as int);
    lemma_mul_inequality((j / s) as int, (rows - 1) as int, cols as int);
    assert((rows - 1) * cols == rows * cols - cols) by (nonlinear_arith);
    lemma_fundamental_div_mod(i as int, s as int);
    lemma_fundamental_div_mod(j as int, s as int);
    assert((i / s) * s == s * (i / s)) by (nonlinear_arith);
    assert((j / s) * s == s * (j / s)) by (nonlinear_arith);
}

/// Byte `k` of a frame belongs to pixel `((k / 4) % width, (k / 4) / width)`,
/// which lies inside the frame.
pub proof fn lemma_byte_pixel(width: nat, height: nat, k: int)
    requires
        0 <= k < width * height * 4,
    ensures
        0 <= (k / 4) % (width as int) < width,
        0 <= (k / 4) / (width as int) < height,
{
    let p = k / 4;
    assert(p < width * height);
    assert(width > 0) by (nonlinear_arith)
        requires
            0 <= k < width * height * 4,
    ;
    lemma_fundamental_div_mod(p, width as int);
    lemma_mod_bound(p, width as int);
    if p / (width as int) >= height {
        lemma_mul_inequality(height as int, p / (width as int), width as int);
        assert(height * width == width * height) by (nonlinear_arith);
        assert((p / (width as int)) * width == width * (p / (width as int))) by (nonlinear_arith);
        assert(false);
    }
}

/// The gap-fill rule: where every sample holds the shade of its own point,
/// the filled frame shows at each pixel `(i, j)` the shade of the pixel
/// `(i - i % s, j - j % s)`.
pub proof fn lemma_gap_fill_shows_aligned_shade(
    width: nat,
    height: nat,
    s: nat,
    samples: Seq<Pixel>,
    shade: spec_fn(nat, nat) -> Pixel,
)
    requires
        s > 0,
        samples.len() == sample_count(width, height, s),
        forall|k: nat|
            k < samples.len() ==> #[trigger] samples[k as int] == shade(
                sample_point(width, s, k).0,
                sample_point(width, s, k).1,
            ),
    ensures
        gap_filled(width, height, s, samples) == frame_of(
            width,
            height,
            |i: nat, j: nat| shade((i - i % s) as nat, (j - j % s) as nat),
        ),
{
    let aligned = |i: nat, j: nat| shade((i - i % s) as nat, (j - j % s) as nat);
    let lhs = gap_filled(width, height, s, samples);
    let rhs = frame_of(width, height, aligned);
    assert forall|k: int| 0 <= k < lhs.len() implies lhs[k] == rhs[k] by {
        lemma_byte_pixel(width, height, k);
        let i = ((k / 4) % (width as int)) as nat;
        let j = ((k / 4) / (width as int)) as nat;
        lemma_slot_point(width, height, s, i, j);
        let slot = sample_slot(width, s, i, j);
        assert(samples[slot as int] == shade(sample_point(width, s, slot).0, sample_point(width, s, slot).1));
    }
    assert(lhs =~= rhs);
}

/// At stride one a frame filled from the shades of its sample points is the
/// full-resolution frame of that shading: every pixel shows its own shade.
pub proof fn lemma_full_resolution_fill(
    width: nat,
    height: nat,
    samples: Seq<Pixel>,
    shade: spec_fn(nat, nat) -> Pixel,
)
    requires
        samples.len() == sample_count(width, height, 1),
        forall|k: nat|
            k < samples.len() ==> #[trigger] samples[k as int] == shade(
                sample_point(width, 1, k).0,
                sample_point(width, 1, k).1,
            ),
    ensures
        gap_filled(width, height, 1, samples) == frame_of(width, height, shade),
{
    lemma_gap_fill_shows_aligned_shade(width, height, 1, samples, shade);
    let aligned = |i: nat, j: nat| shade((i - i % 1) as nat, (j - j % 1) as nat);
    assert(frame_of(width, height, aligned) =~= frame_of(width, height, shade));
}

/// `n / s`, rounded up.
pub fn span_of(n: usize, s: usize) -> (r: usize)
    requires
        s > 0,
    ensures
        r == span(n as nat, s as nat),
{
    if n % s == 0 {
        n / s
    } else {
        proof {
            lemma_fundamental_div_mod(n as int, s as int);
            lemma_mul_inequality(2, s as int, (n / s) as int);
        }
        n / s + 1
    }
}

/// The sample points of a `width` by `height` frame at stride `stride`, row
/// by row: the pixels whose two coordinates are multiples of the stride.
pub fn sample_points(width: usize, height: usize, stride: usize) -> (points: Vec<(usize, usize)>)
    requires
        stride > 0,
    ensures
        points@.len() == sample_count(width as nat, height as nat, stride as nat),
        forall|k: int|
            0 <= k < points@.len() ==> (#[trigger] points@[k]).0 == sample_point(width as nat, stride as nat, k as nat).0
                && points@[k].1 == sample_point(width as nat, stride as nat, k as nat).1,
{
    let cols = span_of(width, stride);
    let rows = span_of(height, stride);
    let mut points: Vec<(usize, usize)> = Vec::new();
    let mut r: usize = 0;
    while r < rows
        invariant
            stride > 0,
            cols == span(width as nat, stride as nat),
            rows == span(height as nat, stride as nat),
            r <= rows,
            points@.len() == r * cols,
            forall|k: int|
                0 <= k < points@.len() ==> (#[trigger] points@[k]).0 == sample_point(width as nat, stride as nat, k as nat).0
                    && points@[k].1 == sample_point(width as nat, stride as nat, k as nat).1,
        decreases rows - r,
    {
        proof {
            lemma_span_start(r as nat, height as nat, stride as nat);
        }
        let y = r * stride;
        let mut c: usize = 0;
        while c < cols
            invariant
                stride > 0,
                cols == span(width as nat, stride as nat),
                r < rows,
                y == r * stride,
                c <= cols,
                points@.len() == r * cols + c,
                forall|k: int|
                    0 <= k < points@.len() ==> (#[trigger] points@[k]).0 == sample_point(width as nat, stride as nat, k as nat).0
                        && points@[k].1 == sample_point(width as nat, stride as nat, k as nat).1,
            decreases cols - c,
        {
            proof {
                lemma_span_start(c as nat, width as nat, stride as nat);
                lemma_fundamental_div_mod_converse(
                    (r * cols + c) as int,
                    cols as int,
                    r as int,
                    c as int,
                );
            }
            points.push((c * stride, y));
            c += 1;
        }
        proof {
            assert((r + 1) * cols == r * cols + cols) by (nonlinear_arith);
        }
        r += 1;
    }
    proof {
        assert(rows * cols == cols * rows) by (nonlinear_arith);
    }
    points
}

} // verus!
