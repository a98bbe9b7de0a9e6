//! Leaky integrate-and-fire (LIF) neuron in fixed point. The membrane
//! potential is one register; leak is a right shift; firing is a
//! compare-and-reset. This is exactly the synthesizable form.
//!
//! Stepped once per frame (50 Hz), driven by noise-gated frame power.
//! Sustained voice charges the membrane past threshold and produces a spike
//! train; the VAD downstream reads activity from that train, not from the
//! raw energy.
use vstd::prelude::*;

verus! {

use vstd::arithmetic::power2::{pow2, lemma_pow2_pos, lemma2_to64};
use vstd::bits::lemma_u32_shr_is_div;

/// Drive is saturated here so one impulsive bang (clap, door) cannot dump
/// unbounded charge in a single frame. 2^17.
pub const INPUT_CAP: u32 = 131_072;
/// Lose 1/8 of the potential per frame.
pub const LEAK_SHIFT: u32 = 3;
/// Firing threshold of the membrane potential: 2^18.
pub const SPIKE_THRESHOLD: u32 = 262_144;

/// Charge lost in one step: `potential >> leak_shift`, at least 1, at most
/// the whole potential.
pub open spec fn lif_leak(potential: u32, leak_shift: u32) -> u32 {
    let l = potential >> leak_shift;
    let l1 = if l < 1 { 1u32 } else { l };
    if l1 < potential { l1 } else { potential }
}

/// Potential after leaking and integrating `input` (saturating at `u32::MAX`).
pub open spec fn lif_charged(potential: u32, leak_shift: u32, input: u32) -> u32 {
    let rest = potential - lif_leak(potential, leak_shift);
    if rest + input > u32::MAX { u32::MAX } else { (rest + input) as u32 }
}

/// Whether one step fires.
pub open spec fn lif_fires(potential: u32, leak_shift: u32, threshold: u32, input: u32) -> bool {
    lif_charged(potential, leak_shift, input) >= threshold
}

/// Potential after one step: reset to zero on a spike.
pub open spec fn lif_next(potential: u32, leak_shift: u32, threshold: u32, input: u32) -> u32 {
    if lif_fires(potential, leak_shift, threshold, input) {
        0
    } else {
        lif_charged(potential, leak_shift, input)
    }
}

/// Potential after `n` steps of the same `input`.
pub open spec fn lif_drive(potential: u32, leak_shift: u32, threshold: u32, input: u32, n: nat) -> u32
    decreases n,
{
    if n == 0 {
        potential
    } else {
        lif_next(lif_drive(potential, leak_shift, threshold, input, (n - 1) as nat), leak_shift, threshold, input)
    }
}

pub struct LifNeuron {
    potential: u32,
    leak_shift: u32,
    threshold: u32,
}

impl LifNeuron {
    pub closed spec fn potential_spec(&self) -> u32 {
        self.potential
    }

    pub closed spec fn leak_shift_spec(&self) -> u32 {
        self.leak_shift
    }

    pub closed spec fn threshold_spec(&self) -> u32 {
        self.threshold
    }

    pub fn new(leak_shift: u32, threshold: u32) -> (r: Self)
        ensures
            r.potential_spec() == 0,
            r.leak_shift_spec() == leak_shift,
            r.threshold_spec() == threshold,
    {
        Self { potential: 0, leak_shift, threshold }
    }

    /// Tuning for the speech-onset neuron. Equilibrium potential is
    /// drive << LEAK_SHIFT, so it fires on sustained drive ≥ threshold >> 3
    /// (~ -44 dBFS above the noise gate) and within ~3 frames (60 ms) at the cap.
    pub fn vad_default() -> (r: Self)
        ensures
            r.potential_spec() == 0,
            r.leak_shift_spec() == LEAK_SHIFT,
            r.threshold_spec() == SPIKE_THRESHOLD,
    {
        Self::new(LEAK_SHIFT, SPIKE_THRESHOLD)
    }

    /// The membrane potential.
    #[verifier::when_used_as_spec(potential_spec)]
    pub fn potential(&self) -> (r: u32)
        ensures
            r == self.potential_spec(),
    {
        self.potential
    }

    /// Potential after leaking and integrating `input`, before the
    /// threshold test. The leak drains at least 1 so the potential reaches
    /// exactly zero instead of parking below the shift resolution.
    fn charged(&self, input: u32) -> (r: u32)
        requires
            self.leak_shift_spec() < 32,
        ensures
            r == lif_charged(self.potential_spec(), self.leak_shift_spec(), input),
    {
        let shifted = self.potential >> self.leak_shift;
        let at_least_one = if shifted < 1 { 1 } else { shifted };
        let leak = if at_least_one < self.potential { at_least_one } else { self.potential };
        let rest = self.potential - leak;
        rest.saturating_add(input)
    }

    /// Whether a step with `input` would fire, without taking it.
    pub fn fires(&self, input: u32) -> (r: bool)
        requires
            self.leak_shift_spec() < 32,
        ensures
            r == lif_fires(self.potential_spec(), self.leak_shift_spec(), self.threshold_spec(), input),
    {
        self.charged(input) >= self.threshold
    }

    /// One step: leak, integrate, fire. Returns true on a spike.
    pub fn step(&mut self, input: u32) -> (r: bool)
        requires
            old(self).leak_shift_spec() < 32,
        ensures
            r == lif_fires(old(self).potential_spec(), old(self).leak_shift_spec(), old(self).threshold_spec(), input),
            final(self).potential_spec() == lif_next(old(self).potential_spec(), old(self).leak_shift_spec(), old(self).threshold_spec(), input),
            final(self).leak_shift_spec() == old(self).leak_shift_spec(),
            final(self).threshold_spec() == old(self).threshold_spec(),
    {
        let charged = self.charged(input);
        if charged >= self.threshold {
            self.potential = 0;
            true
        } else {
            self.potential = charged;
            false
        }
    }
}

/// With no input, a charged membrane loses at least one unit per step and
/// an empty one stays empty.
pub proof fn lemma_idle_step_drains(potential: u32, leak_shift: u32, threshold: u32)
    ensures
        potential == 0 ==> lif_next(potential, leak_shift, threshold, 0) == 0,
        potential > 0 ==> lif_next(potential, leak_shift, threshold, 0) < potential,
{
}

/// A membrane left without drive leaks back to exactly zero: after at least
/// `potential` idle steps the potential is 0.
pub proof fn lemma_potential_leaks_to_zero(potential: u32, leak_shift: u32, threshold: u32, n: nat)
    requires
        n >= potential,
    ensures
        lif_drive(potential, leak_shift, threshold, 0, n) == 0,
    decreases n,
{
    lemma_idle_bound(potential, leak_shift, threshold, n);
}

proof fn lemma_idle_bound(potential: u32, leak_shift: u32, threshold: u32, n: nat)
    ensures
        lif_drive(potential, leak_shift, threshold, 0, n) <= if n >= potential { 0 } else { potential - n },
    decreases n,
{
    if n > 0 {
        lemma_idle_bound(potential, leak_shift, threshold, (n - 1) as nat);
        lemma_idle_step_drains(lif_drive(potential, leak_shift, threshold, 0, (n - 1) as nat), leak_shift, threshold);
    }
}

/// Largest potential that a constant drive can build up and keep:
/// `input * 2^leak_shift + 2^leak_shift - 1`.
pub open spec fn lif_equilibrium_bound(leak_shift: u32, input: u32) -> int {
    input * pow2(leak_shift as nat) + pow2(leak_shift as nat) - 1
}

/// One step of constant drive keeps a potential at or below the equilibrium
/// bound, and never fires while that bound is under the threshold.
pub proof fn lemma_subthreshold_step(potential: u32, leak_shift: u32, threshold: u32, input: u32)
    requires
        leak_shift < 32,
        potential <= lif_equilibrium_bound(leak_shift, input),
        lif_equilibrium_bound(leak_shift, input) < threshold,
    ensures
        !lif_fires(potential, leak_shift, threshold, input),
        lif_next(potential, leak_shift, threshold, input) <= lif_equilibrium_bound(leak_shift, input),
{
    let m = pow2(leak_shift as nat) as int;
    lemma_pow2_pos(leak_shift as nat);
    lemma_u32_shr_is_div(potential, leak_shift);
    let q = potential as int / m;
    let r = potential as int % m;
    assert(potential as int == q * m + r && 0 <= r < m && q >= 0) by (nonlinear_arith)
        requires
            m > 0,
            q == potential as int / m,
            r == potential as int % m,
    ;
    assert(q <= input) by (nonlinear_arith)
        requires
            potential as int == q * m + r,
            0 <= r < m,
            potential <= input * m + m - 1,
            m > 0,
    ;
    let b = lif_equilibrium_bound(leak_shift, input);
    assert((potential >> leak_shift) as int == q);
    if q >= 1 {
        assert(q <= potential);
        assert(lif_leak(potential, leak_shift) as int == q);
        assert(potential as int - q + input <= input * m + m - 1) by (nonlinear_arith)
            requires
                potential as int == q * m + r,
                0 <= r < m,
                q <= input,
                m >= 1,
        ;
    } else {
        assert(lif_leak(potential, leak_shift) <= potential);
        assert(input <= input * m) by (nonlinear_arith)
            requires
                m > 0,
        ;
        assert(q == 0);
        assert(q * m == 0) by (nonlinear_arith)
            requires
                q == 0,
        ;
        assert(potential as int == r);
    }
    assert(lif_charged(potential, leak_shift, input) <= b);
}

/// A constant drive whose equilibrium stays under the threshold never
/// fires, however long it lasts, when started at or below that equilibrium
/// (e.g. from rest).
pub proof fn lemma_weak_drive_never_spikes(potential: u32, leak_shift: u32, threshold: u32, input: u32, n: nat)
    requires
        leak_shift < 32,
        potential <= lif_equilibrium_bound(leak_shift, input),
        lif_equilibrium_bound(leak_shift, input) < threshold,
    ensures
        lif_drive(potential, leak_shift, threshold, input, n) <= lif_equilibrium_bound(leak_shift, input),
        !lif_fires(lif_drive(potential, leak_shift, threshold, input, n), leak_shift, threshold, input),
    decreases n,
{
    if n > 0 {
        lemma_weak_drive_never_spikes(potential, leak_shift, threshold, input, (n - 1) as nat);
        lemma_subthreshold_step(lif_drive(potential, leak_shift, threshold, input, (n - 1) as nat), leak_shift, threshold, input);
    }
    lemma_subthreshold_step(lif_drive(potential, leak_shift, threshold, input, n), leak_shift, threshold, input);
}

/// Under a constant drive of at least `SPIKE_THRESHOLD >> LEAK_SHIFT`
/// (32768), a membrane that has not fired yet gains at least one unit per
/// step: after `n` spike-free steps from rest its potential is at least `n`.
proof fn lemma_strong_drive_climbs(d: u32, n: nat)
    requires
        d >= 32768,
        forall|k: nat| k < n ==> !#[trigger] lif_fires(lif_drive(0, LEAK_SHIFT, SPIKE_THRESHOLD, d, k), LEAK_SHIFT, SPIKE_THRESHOLD, d),
    ensures
        lif_drive(0, LEAK_SHIFT, SPIKE_THRESHOLD, d, n) >= n,
        lif_drive(0, LEAK_SHIFT, SPIKE_THRESHOLD, d, n) < SPIKE_THRESHOLD,
    decreases n,
{
    if n > 0 {
        let m = (n - 1) as nat;
        lemma_strong_drive_climbs(d, m);
        let p = lif_drive(0, LEAK_SHIFT, SPIKE_THRESHOLD, d, m);
        assert(!lif_fires(p, LEAK_SHIFT, SPIKE_THRESHOLD, d));
        assert(p < 262144u32 ==> p >> 3u32 <= 32767u32) by (bit_vector);
        assert(lif_leak(p, LEAK_SHIFT) <= 32767);
    }
}

/// The speech-onset neuron, started at rest under a constant drive `d`,
/// fires at some step exactly when `d >= SPIKE_THRESHOLD >> LEAK_SHIFT`
/// (32768): below it the potential settles at most at `8 d + 7`, under the
/// threshold; at or above it the potential climbs every step and the neuron
/// fires within `SPIKE_THRESHOLD` steps.
pub proof fn lemma_constant_drive_fires_iff(d: u32)
    ensures
        (exists|n: nat| #[trigger] lif_fires(lif_drive(0, LEAK_SHIFT, SPIKE_THRESHOLD, d, n), LEAK_SHIFT, SPIKE_THRESHOLD, d))
            <==> d >= 32768,
        d >= 32768 ==> exists|n: nat|
            n < SPIKE_THRESHOLD && #[trigger] lif_fires(lif_drive(0, LEAK_SHIFT, SPIKE_THRESHOLD, d, n), LEAK_SHIFT, SPIKE_THRESHOLD, d),
{
    if d >= 32768 {
        if !(exists|n: nat|
            n < SPIKE_THRESHOLD && #[trigger] lif_fires(lif_drive(0, LEAK_SHIFT, SPIKE_THRESHOLD, d, n), LEAK_SHIFT, SPIKE_THRESHOLD, d))
        {
            lemma_strong_drive_climbs(d, SPIKE_THRESHOLD as nat);
        }
    } else {
        lemma2_to64();
        assert(lif_equilibrium_bound(LEAK_SHIFT, d) == d * 8 + 7);
        assert forall|n: nat| !#[trigger] lif_fires(lif_drive(0, LEAK_SHIFT, SPIKE_THRESHOLD, d, n), LEAK_SHIFT, SPIKE_THRESHOLD, d) by {
            lemma_weak_drive_never_spikes(0, LEAK_SHIFT, SPIKE_THRESHOLD, d, n);
        }
    }
}

/// One neuron step: the membrane loses `potential / 2^leak_shift` (at
/// least 1, at most all of it), gains the input (saturating at u32::MAX),
/// fires exactly when that reaches the threshold, and then resets to zero.
pub proof fn lemma_lif_step(potential: u32, leak_shift: u32, threshold: u32, input: u32)
    requires
        leak_shift < 32,
    ensures
        ({
            let q = potential as int / pow2(leak_shift as nat) as int;
            let leak = if q < 1 { 1 } else { q };
            let leak = if leak < potential { leak } else { potential as int };
            let charged = potential - leak + input;
            let charged = if charged > u32::MAX { u32::MAX as int } else { charged };
            &&& lif_fires(potential, leak_shift, threshold, input) == (charged >= threshold)
            &&& lif_next(potential, leak_shift, threshold, input) == if charged >= threshold { 0 } else { charged }
        }),
{
    lemma_u32_shr_is_div(potential, leak_shift);
}

} // verus!
