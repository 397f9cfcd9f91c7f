use vstd::prelude::*;
use crate::framebuffer::Framebuffer;
use crate::params::SceneParams;
use crate::pixel::Pixel;
use crate::refinement::RefinementState;
use crate::sampling::{
    frame_of,
    gap_filled,
    lemma_full_resolution_fill,
    sample_count,
    sample_point,
    sample_points as points_of,
};

verus! {

/// The coarsest stride of a new canvas.
pub const DEFAULT_MIN_ACCURACY: usize = 32;

/// Milliseconds from a reset of the refinement timer to its expiry.
pub const DEFAULT_MAX_TIMER: u64 = 500;

/// Milliseconds that one timer tick stands for.
pub const DEFAULT_TIMER_STEP: u64 = 250;

/// The renderer's state from frame to frame: the frame itself, the parameters
/// it was last asked for, the level of detail, and the stride it was last
/// drawn at.
///
/// A frame is rendered in two steps. `update` takes the parameters and the
/// size and tells whether the frame must be drawn again; if so, the caller
/// shades the pixels that `sample_points` lists and hands the colours to
/// `draw`, which fills the gaps between them.
pub struct Canvas {
    framebuffer: Framebuffer,
    params: Option<SceneParams>,
    refinement: RefinementState,
    previous_accuracy: usize,
}

impl Canvas {
    /// The bytes of the frame, row by row and four a pixel.
    pub closed spec fn frame(&self) -> Seq<u8> {
        self.framebuffer@
    }

    /// The width of the frame in pixels.
    pub closed spec fn spec_width(&self) -> nat {
        self.framebuffer.spec_width()
    }

    /// The height of the frame in pixels.
    pub closed spec fn spec_height(&self) -> nat {
        self.framebuffer.spec_height()
    }

    /// The parameters of the last update, if there was one.
    pub closed spec fn snapshot(&self) -> Option<SceneParams> {
        self.params
    }

    /// The level of detail.
    pub closed spec fn state(&self) -> RefinementState {
        self.refinement
    }

    /// The stride at which the frame was last asked to be drawn.
    pub closed spec fn drawn_accuracy(&self) -> nat {
        self.previous_accuracy as nat
    }

    /// The frame holds four bytes a pixel, and the level of detail is sound.
    pub open spec fn wf(&self) -> bool {
        &&& self.frame().len() == self.spec_width() * self.spec_height() * 4
        &&& self.spec_width() * self.spec_height() * 4 <= usize::MAX
        &&& self.state().wf()
    }

    /// `next` is `self` with the same frame, size and parameters.
    pub open spec fn same_picture(self, next: Canvas) -> bool {
        &&& next.frame() == self.frame()
        &&& next.spec_width() == self.spec_width()
        &&& next.spec_height() == self.spec_height()
        &&& next.snapshot() == self.snapshot()
    }

    /// What `update` does. A size with no pixels changes nothing. New
    /// parameters or a new size are recorded, put the level of detail back to
    /// the coarsest stride with a full timer, and ask for a recompute; a new
    /// size also gives a frame of zeros. Unchanged inputs ask for a recompute
    /// only where the stride has changed since the last one.
    pub open spec fn updated(
        self,
        next: Canvas,
        params: SceneParams,
        width: nat,
        height: nat,
        redraw: bool,
    ) -> bool {
        if width == 0 || height == 0 {
            !redraw && next == self
        } else if self.snapshot() != Some(params) || self.spec_width() != width
            || self.spec_height() != height {
            &&& redraw
            &&& next.snapshot() == Some(params)
            &&& next.spec_width() == width
            &&& next.spec_height() == height
            &&& next.state() == self.state().coarse()
            &&& next.drawn_accuracy() == self.state().min_accuracy
            &&& next.frame() == if self.spec_width() == width && self.spec_height() == height {
                self.frame()
            } else {
                Seq::new(width * height * 4, |k: int| 0u8)
            }
        } else if self.drawn_accuracy() != self.state().accuracy {
            &&& redraw
            &&& self.same_picture(next)
            &&& next.state() == self.state()
            &&& next.drawn_accuracy() == self.state().accuracy
        } else {
            !redraw && next == self
        }
    }

    /// What `draw` does: the frame is painted at the current stride from
    /// `samples`, and nothing else changes.
    pub open spec fn painted(self, next: Canvas, samples: Seq<Pixel>) -> bool {
        &&& next.frame() == gap_filled(
            self.spec_width(),
            self.spec_height(),
            self.state().accuracy as nat,
            samples,
        )
        &&& next.spec_width() == self.spec_width()
        &&& next.spec_height() == self.spec_height()
        &&& next.snapshot() == self.snapshot()
        &&& next.state() == self.state()
        &&& next.drawn_accuracy() == self.drawn_accuracy()
    }

    /// A canvas with the default level of detail.
    pub fn new() -> (c: Self)
        ensures
            c.wf(),
            c.frame() == Seq::<u8>::empty(),
            c.spec_width() == 0,
            c.spec_height() == 0,
            c.snapshot() is None,
            c.drawn_accuracy() == 1,
            c.state() == (RefinementState {
                accuracy: 1,
                min_accuracy: DEFAULT_MIN_ACCURACY,
                current_timer: 0,
                max_timer: DEFAULT_MAX_TIMER,
                timer_step: DEFAULT_TIMER_STEP,
            }),
    {
        Canvas::with_min_accuracy(DEFAULT_MIN_ACCURACY)
    }

    /// A canvas whose coarsest stride is `min_accuracy`, with the default
    /// timer.
    pub fn with_min_accuracy(min_accuracy: usize) -> (c: Self)
        requires
            min_accuracy >= 1,
        ensures
            c.wf(),
            c.frame() == Seq::<u8>::empty(),
            c.spec_width() == 0,
            c.spec_height() == 0,
            c.snapshot() is None,
            c.drawn_accuracy() == 1,
            c.state() == (RefinementState {
                accuracy: 1,
                min_accuracy,
                current_timer: 0,
                max_timer: DEFAULT_MAX_TIMER,
                timer_step: DEFAULT_TIMER_STEP,
            }),
    {
        Canvas {
            framebuffer: Framebuffer::new(),
            params: None,
            refinement: RefinementState::new(min_accuracy, DEFAULT_MAX_TIMER, DEFAULT_TIMER_STEP),
            previous_accuracy: 1,
        }
    }

    /// The width of the frame in pixels.
    pub fn width(&self) -> (r: usize)
        ensures
            r == self.spec_width(),
    {
        self.framebuffer.width()
    }

    /// The height of the frame in pixels.
    pub fn height(&self) -> (r: usize)
        ensures
            r == self.spec_height(),
    {
        self.framebuffer.height()
    }

    /// The current sampling stride.
    pub fn accuracy(&self) -> (r: usize)
        ensures
            r == self.state().accuracy,
    {
        self.refinement.accuracy
    }

    /// The level of detail.
    pub fn refinement(&self) -> (r: &RefinementState)
        ensures
            *r == self.state(),
    {
        &self.refinement
    }

    /// The bytes of the frame, for display.
    pub fn buffer(&self) -> (r: &Vec<u8>)
        ensures
            r@ == self.frame(),
    {
        self.framebuffer.as_bytes()
    }

    /// Takes the parameters and the size of the next frame, and tells whether
    /// the frame must be drawn again (see `updated`).
    pub fn update(&mut self, params: &SceneParams, width: usize, height: usize) -> (redraw: bool)
        requires
            old(self).wf(),
            width * height * 4 <= usize::MAX,
        ensures
            final(self).wf(),
            old(self).updated(*final(self), *params, width as nat, height as nat, redraw),
    {
        if width == 0 || height == 0 {
            return false;
        }
        let same_params = match self.params {
            Some(p) => p == *params,
            None => false,
        };
        if !same_params || width != self.framebuffer.width() || height != self.framebuffer.height() {
            self.framebuffer.resize(width, height);
            self.params = Some(*params);
            self.refinement.reset();
            self.previous_accuracy = self.refinement.accuracy;
            true
        } else if self.previous_accuracy != self.refinement.accuracy {
            self.previous_accuracy = self.refinement.accuracy;
            true
        } else {
            false
        }
    }

    /// The pixels to shade for the next `draw`: those whose two coordinates
    /// are multiples of the current stride, row by row.
    pub fn sample_points(&self) -> (points: Vec<(usize, usize)>)
        requires
            self.wf(),
        ensures
            points@.len() == sample_count(
                self.spec_width(),
                self.spec_height(),
                self.state().accuracy as nat,
            ),
            forall|k: int|
                0 <= k < points@.len() ==> (#[trigger] points@[k]).0 == sample_point(
                    self.spec_width(),
                    self.state().accuracy as nat,
                    k as nat,
                ).0 && points@[k].1 == sample_point(
                    self.spec_width(),
                    self.state().accuracy as nat,
                    k as nat,
                ).1,
    {
        points_of(self.framebuffer.width(), self.framebuffer.height(), self.refinement.accuracy)
    }

    /// Paints the frame from the colours of the sample points, in the order
    /// of `sample_points`, filling each gap from the sample of its block.
    pub fn draw(&mut self, samples: &Vec<Pixel>)
        requires
            old(self).wf(),
            samples@.len() == sample_count(
                old(self).spec_width(),
                old(self).spec_height(),
                old(self).state().accuracy as nat,
            ),
        ensures
            final(self).wf(),
            old(self).painted(*final(self), samples@),
    {
        self.framebuffer.fill_strided(self.refinement.accuracy, samples);
    }

    /// One tick of the refinement timer; tells whether the stride changed,
    /// which the next `update` answers with a recompute.
    pub fn tick(&mut self) -> (r: bool)
        requires
            old(self).wf(),
        ensures
            final(self).wf(),
            old(self).same_picture(*final(self)),
            final(self).drawn_accuracy() == old(self).drawn_accuracy(),
            final(self).state() == old(self).state().after_tick(),
            r == (final(self).state().accuracy != old(self).state().accuracy),
    {
        self.refinement.tick()
    }

    /// The user is moving the surface: back to the coarsest stride with a full
    /// timer.
    pub fn interact(&mut self)
        requires
            old(self).wf(),
        ensures
            final(self).wf(),
            old(self).same_picture(*final(self)),
            final(self).drawn_accuracy() == old(self).drawn_accuracy(),
            final(self).state() == old(self).state().coarse(),
    {
        self.refinement.reset();
    }
}

/// Rendering is idempotent: after one render (an update, then a draw where
/// the update asks for one), a second update with the same parameters and
/// size, and no interaction between, asks for no recompute and leaves the
/// canvas, and so its frame, byte for byte as it was.
pub proof fn lemma_render_idempotent(
    c0: Canvas,
    c1: Canvas,
    c2: Canvas,
    c3: Canvas,
    params: SceneParams,
    width: nat,
    height: nat,
    first: bool,
    second: bool,
    samples: Seq<Pixel>,
)
    requires
        c0.wf(),
        c0.updated(c1, params, width, height, first),
        first ==> c1.painted(c2, samples),
        !first ==> c2 == c1,
        c2.updated(c3, params, width, height, second),
    ensures
        !second,
        c3 == c2,
        c3.frame() == c2.frame(),
{
}

/// A change of parameters or of size resets refinement: however far the
/// stride had come down, the update asks for a recompute at the coarsest
/// stride, with a full timer.
pub proof fn lemma_change_resets_accuracy(
    c0: Canvas,
    c1: Canvas,
    params: SceneParams,
    width: nat,
    height: nat,
    redraw: bool,
)
    requires
        c0.wf(),
        width > 0,
        height > 0,
        c0.snapshot() != Some(params) || c0.spec_width() != width || c0.spec_height() != height,
        c0.updated(c1, params, width, height, redraw),
    ensures
        redraw,
        c1.state().accuracy == c0.state().min_accuracy,
        c1.state().current_timer == c0.state().max_timer,
{
}

/// Once the stride is one, a frame drawn from the shades of its sample points
/// is the full-resolution frame of that shading, whatever the canvas held
/// before.
pub proof fn lemma_full_resolution_draw(
    c: Canvas,
    next: Canvas,
    samples: Seq<Pixel>,
    shade: spec_fn(nat, nat) -> Pixel,
)
    requires
        c.wf(),
        c.state().accuracy == 1,
        samples.len() == sample_count(c.spec_width(), c.spec_height(), 1),
        forall|k: nat|
            k < samples.len() ==> #[trigger] samples[k as int] == shade(
                sample_point(c.spec_width(), 1, k).0,
                sample_point(c.spec_width(), 1, k).1,
            ),
        c.painted(next, samples),
    ensures
        next.frame() == frame_of(c.spec_width(), c.spec_height(), shade),
{
    lemma_full_resolution_fill(c.spec_width(), c.spec_height(), samples, shade);
}

} // verus!
