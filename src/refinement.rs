use vstd::prelude::*;
use crate::sampling::{lemma_span_covers, lemma_span_start, span};

verus! {

/// `2` to the power `k`.
pub open spec fn two_to(k: nat) -> nat
    decreases k,
{
    if k == 0 {
        1
    } else {
        2 * two_to((k - 1) as nat)
    }
}

/// The stride after one halving: half of it, rounded down, while it is above
/// one; one stays one.
pub open spec fn halved(accuracy: usize) -> usize {
    if accuracy > 1 {
        accuracy / 2
    } else {
        accuracy
    }
}

/// The level of detail of progressive refinement: the sampling stride, and
/// the timer that halves it while nothing changes.
#[derive(Clone, Copy, Debug, PartialEq, Eq, Structural)]
pub struct RefinementState {
    /// The current sampling stride; one is full resolution.
    pub accuracy: usize,
    /// The coarsest stride, taken again after every change.
    pub min_accuracy: usize,
    /// Milliseconds left until the stride is next halved.
    pub current_timer: u64,
    /// Milliseconds from a reset of the timer to its expiry.
    pub max_timer: u64,
    /// Milliseconds that one timer tick stands for.
    pub timer_step: u64,
}

impl RefinementState {
    /// The stride lies between one and the coarsest stride, and the timer
    /// between zero and its full period, which is not zero; a tick is not zero.
    pub open spec fn wf(self) -> bool {
        &&& 1 <= self.accuracy <= self.min_accuracy
        &&& 1 <= self.timer_step
        &&& 1 <= self.max_timer
        &&& self.current_timer <= self.max_timer
    }

    /// The state after one timer tick: the timer runs down by one tick; when
    /// that empties it, the stride is halved and the timer starts again.
    pub open spec fn after_tick(self) -> Self {
        if self.current_timer <= self.timer_step {
            RefinementState { accuracy: halved(self.accuracy), current_timer: self.max_timer, ..self }
        } else {
            RefinementState { current_timer: (self.current_timer - self.timer_step) as u64, ..self }
        }
    }

    /// The state after `n` timer ticks.
    pub open spec fn after_ticks(self, n: nat) -> Self
        decreases n,
    {
        if n == 0 {
            self
        } else {
            self.after_ticks((n - 1) as nat).after_tick()
        }
    }

    /// The number of ticks from a reset of the timer to its expiry: the full
    /// period over the tick, rounded up.
    pub open spec fn ticks_per_halving(self) -> nat {
        span(self.max_timer as nat, self.timer_step as nat)
    }

    /// The coarsest stride with a full timer, where every change puts the
    /// state.
    pub open spec fn coarse(self) -> Self {
        RefinementState { accuracy: self.min_accuracy, current_timer: self.max_timer, ..self }
    }

    /// A state at full resolution with an empty timer, that falls back to
    /// `min_accuracy` on a change and halves the stride every `max_timer`
    /// milliseconds, counted in ticks of `timer_step` milliseconds.
    pub fn new(min_accuracy: usize, max_timer: u64, timer_step: u64) -> (r: Self)
        requires
            min_accuracy >= 1,
            max_timer >= 1,
            timer_step >= 1,
        ensures
            r.wf(),
            r == (RefinementState { accuracy: 1, min_accuracy, current_timer: 0, max_timer, timer_step }),
    {
        RefinementState { accuracy: 1, min_accuracy, current_timer: 0, max_timer, timer_step }
    }

    /// Halves the stride if it is above one; tells whether it did.
    pub fn increase_accuracy(&mut self) -> (r: bool)
        requires
            old(self).wf(),
        ensures
            final(self).wf(),
            r == (old(self).accuracy > 1),
            *final(self) == (RefinementState { accuracy: halved(old(self).accuracy), ..*old(self) }),
    {
        if self.accuracy > 1 {
            self.accuracy = self.accuracy / 2;
            true
        } else {
            false
        }
    }

    /// Goes back to the coarsest stride.
    pub fn reset_accuracy(&mut self)
        requires
            old(self).wf(),
        ensures
            final(self).wf(),
            *final(self) == (RefinementState { accuracy: old(self).min_accuracy, ..*old(self) }),
    {
        self.accuracy = self.min_accuracy;
    }

    /// Starts the timer again from its full period.
    pub fn reset_timer(&mut self)
        requires
            old(self).wf(),
        ensures
            final(self).wf(),
            *final(self) == (RefinementState { current_timer: old(self).max_timer, ..*old(self) }),
    {
        self.current_timer = self.max_timer;
    }

    /// Goes back to the coarsest stride with a full timer, as after any
    /// change or interaction.
    pub fn reset(&mut self)
        requires
            old(self).wf(),
        ensures
            final(self).wf(),
            *final(self) == old(self).coarse(),
    {
        self.reset_accuracy();
        self.reset_timer();
    }

    /// One timer tick; tells whether the stride changed.
    pub fn tick(&mut self) -> (r: bool)
        requires
            old(self).wf(),
        ensures
            final(self).wf(),
            *final(self) == old(self).after_tick(),
            r == (final(self).accuracy != old(self).accuracy),
    {
        if self.current_timer <= self.timer_step {
            self.reset_timer();
            self.increase_accuracy()
        } else {
            self.current_timer = self.current_timer - self.timer_step;
            false
        }
    }
}

/// Ticks compose: `a + b` ticks are `a` ticks and then `b` more.
pub proof fn lemma_after_ticks_add(r: RefinementState, a: nat, b: nat)
    ensures
        r.after_ticks(a + b) == r.after_ticks(a).after_ticks(b),
    decreases b,
{
    if b > 0 {
        lemma_after_ticks_add(r, a, (b - 1) as nat);
        assert(r.after_ticks(a + b) == r.after_ticks((a + b - 1) as nat).after_tick());
    }
}

/// From a full timer, the first `t` ticks of a period only run the timer down.
proof fn lemma_timer_runs_down(r: RefinementState, t: nat)
    requires
        r.wf(),
        r.current_timer == r.max_timer,
        t < r.ticks_per_halving(),
    ensures
        r.after_ticks(t) == (RefinementState {
            current_timer: (r.max_timer - t * r.timer_step) as u64,
            ..r
        }),
        t * r.timer_step < r.max_timer,
    decreases t,
{
    lemma_span_start(t, r.max_timer as nat, r.timer_step as nat);
    if t > 0 {
        let prev = r.after_ticks((t - 1) as nat);
        lemma_timer_runs_down(r, (t - 1) as nat);
        assert((t - 1) * r.timer_step == t * r.timer_step - r.timer_step) by (nonlinear_arith);
        assert(prev.current_timer > prev.timer_step);
        assert(r.after_ticks(t) == prev.after_tick());
    } else {
        assert(t * r.timer_step == 0) by (nonlinear_arith)
            requires
                t == 0,
        ;
        assert(r.after_ticks(t) == r);
    }
}

/// From a full timer, one period of ticks halves the stride once and leaves
/// the timer full again.
pub proof fn lemma_one_halving(r: RefinementState)
    requires
        r.wf(),
        r.current_timer == r.max_timer,
    ensures
        r.after_ticks(r.ticks_per_halving()) == (RefinementState { accuracy: halved(r.accuracy), ..r }),
        r.ticks_per_halving() >= 1,
{
    let t = r.ticks_per_halving();
    lemma_span_covers(r.max_timer as nat, r.timer_step as nat);
    assert(t >= 1) by (nonlinear_arith)
        requires
            t * r.timer_step >= r.max_timer,
            r.max_timer >= 1,
    ;
    lemma_timer_runs_down(r, (t - 1) as nat);
    assert((t - 1) * r.timer_step == t * r.timer_step - r.timer_step) by (nonlinear_arith);
}

/// `2^k` is at least one.
proof fn lemma_two_to_positive(k: nat)
    ensures
        two_to(k) >= 1,
    decreases k,
{
    if k > 0 {
        lemma_two_to_positive((k - 1) as nat);
    }
}

/// From a full timer, `k` periods bring any stride up to `2^k` down to one.
proof fn lemma_halvings_reach_one(r: RefinementState, k: nat)
    requires
        r.wf(),
        r.current_timer == r.max_timer,
        two_to(k) >= r.accuracy,
    ensures
        r.after_ticks(k * r.ticks_per_halving()).accuracy == 1,
    decreases k,
{
    let t = r.ticks_per_halving();
    if k > 0 {
        lemma_one_halving(r);
        let next = r.after_ticks(t);
        lemma_two_to_positive((k - 1) as nat);
        assert(two_to(k) == 2 * two_to((k - 1) as nat));
        assert(next.ticks_per_halving() == t);
        lemma_halvings_reach_one(next, (k - 1) as nat);
        assert(k * t == t + (k - 1) * t) by (nonlinear_arith);
        lemma_after_ticks_add(r, t, ((k - 1) * t) as nat);
        assert(r.after_ticks(k * t) == next.after_ticks(((k - 1) * t) as nat));
    } else {
        assert(k * t == 0) by (nonlinear_arith)
            requires
                k == 0,
        ;
        assert(r.after_ticks(k * t) == r);
    }
}

/// Refinement converges: from the coarsest stride with a full timer, and with
/// no change, the stride is one after `k` periods of the timer whenever `2^k`
/// reaches the coarsest stride, so after the base-two logarithm of the
/// coarsest stride, rounded up.
pub proof fn lemma_refinement_converges(r: RefinementState, k: nat)
    requires
        r.wf(),
        r == r.coarse(),
        two_to(k) >= r.min_accuracy,
    ensures
        r.after_ticks(k * r.ticks_per_halving()).accuracy == 1,
{
    lemma_halvings_reach_one(r, k);
}

} // verus!
