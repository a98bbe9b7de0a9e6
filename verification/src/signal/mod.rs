//! Portable signal core — the part that maps ~1-1 to FPGA logic.
//!
//! Rules for everything under `signal/` (the synthesizable subset):
//!   - integer arithmetic only: no floats, no division except power-of-two shifts
//!   - no heap allocation, no std collections — all state is fixed-size registers
//!   - one `tick()` per audio sample, mirroring one clock cycle per sample
//!   - outputs are a plain struct of strobes + values, mirroring RTL output ports
//!     (an `Option<T>` field maps to a valid bit plus a value bus)
pub mod energy;
pub mod lif;
pub mod run;
pub mod vad;

use vstd::prelude::*;

verus! {

use vstd::arithmetic::power2::{pow2, lemma2_to64};
use vstd::bits::lemma_u32_shr_is_div;

use self::energy::{EnergyAccumulator, frame_energy, lemma_sum_squares_bounds};
use self::run::engine_step;
use self::lif::{LifNeuron, lif_fires, lif_next, INPUT_CAP, LEAK_SHIFT, SPIKE_THRESHOLD};
use self::vad::{Vad, VadRegs, VadOutput, vad_next, vad_fits, lemma_quiet_strobe_lengths, SILENCE_FRAMES, LONG_PAUSE_FRAMES};

/// The core runs at a fixed rate; the host resamples the device stream to this.
/// On hardware this is the PDM decimator's output rate.
pub const CORE_SAMPLE_RATE: u32 = 16_000;
pub const FRAME_MS: u32 = 20;
/// Samples per frame: 320.
pub const FRAME_LEN: u32 = CORE_SAMPLE_RATE * FRAME_MS / 1000;

/// `frame_power` unit: per-frame sum of squares of i16 samples, >> 8.
/// The shift approximates dividing by FRAME_LEN (320) without a divider;
/// the constant ~1.25x factor is baked into every threshold below.
///
/// Energy-level report cadence: power of two so the average is a shift.
pub const ENERGY_WINDOW_FRAMES: u32 = 64;

/// Band boundaries in frame-power units (~ -50 dBFS and -35 dBFS).
pub const BAND_MED_MIN: u32 = 13_400;
pub const BAND_HIGH_MIN: u32 = 424_000;

/// Noise-floor tracker (frame-power units): ~ -55 dBFS starting guess.
pub const NOISE_FLOOR_INIT: u32 = 4_096;
pub const NOISE_FLOOR_MIN: u32 = 16;
/// The VAD gate never drops below this, so a dead-silent room cannot spike.
pub const ABS_GATE_MIN: u32 = 2_000;

#[derive(Clone, Copy, PartialEq, Eq, Debug, Structural)]
pub enum Band {
    Low,
    Med,
    High,
}

/// Per-frame output of the core — the module's "output ports".
/// Emitted once per completed 20 ms frame; `bool` fields are one-frame strobes.
#[derive(Clone, Copy, Debug, Default)]
pub struct FrameReport {
    pub frame_index: u64,
    pub frame_power: u32,
    pub noise_floor: u32,
    pub spike: bool,
    pub vad_active: bool,
    pub speaking_start: bool,
    /// Strobe; `utterance_frames` is valid only while this is set.
    pub speaking_stop: bool,
    pub utterance_frames: u32,
    /// Strobe when sustained quiet crosses the SILENCE threshold.
    pub silence: bool,
    pub silence_frames: u32,
    /// Strobe when quiet crosses the LONG_PAUSE threshold.
    pub long_pause: bool,
    /// (band, average frame power) every ENERGY_WINDOW_FRAMES frames.
    pub energy_band: Option<(Band, u32)>,
}

/// Frame power from a frame's sum of squares: `sum_sq >> 8`, saturated to u32.
pub open spec fn frame_power_of(sum_sq: u64) -> u32 {
    let p = sum_sq >> 8u64;
    if p > u32::MAX as u64 { u32::MAX } else { p as u32 }
}

/// The neuron's gate: four times the noise floor (+~6 dB), saturating, and
/// never below `ABS_GATE_MIN`.
pub open spec fn gate_of(noise_floor: u32) -> u32 {
    let g = if noise_floor * 4 > u32::MAX { u32::MAX } else { (noise_floor * 4) as u32 };
    if g < ABS_GATE_MIN { ABS_GATE_MIN } else { g }
}

/// Neuron drive: frame power above its noise gate, capped at `INPUT_CAP`.
pub open spec fn drive_of(frame_power: u32, noise_floor: u32) -> u32 {
    let gate = gate_of(noise_floor);
    let d = if frame_power > gate { (frame_power - gate) as u32 } else { 0u32 };
    if d < INPUT_CAP { d } else { INPUT_CAP }
}

/// One step of a shift-based exponential moving average, nudged by 1 so
/// small deltas still converge.
pub open spec fn ema(current: u32, target: u32, shift: u32) -> u32 {
    if target >= current {
        let delta = ((target - current) as u32) >> shift;
        let step = if target > current && delta < 1 { 1u32 } else { delta };
        (current + step) as u32
    } else {
        let delta = ((current - target) as u32) >> shift;
        let step = if delta < 1 { 1u32 } else { delta };
        (current - step) as u32
    }
}

/// Noise floor after a frame: tracked while quiet, only creeping downward
/// during speech, and never below `NOISE_FLOOR_MIN`.
pub open spec fn next_noise_floor(noise_floor: u32, frame_power: u32, active: bool) -> u32 {
    let n = if !active {
        ema(noise_floor, frame_power, 6)
    } else if frame_power < noise_floor {
        ema(noise_floor, frame_power, 9)
    } else {
        noise_floor
    };
    if n < NOISE_FLOOR_MIN { NOISE_FLOOR_MIN } else { n }
}

/// Energy band of an average frame power.
pub open spec fn band_of(avg: u32) -> Band {
    if avg >= BAND_HIGH_MIN {
        Band::High
    } else if avg >= BAND_MED_MIN {
        Band::Med
    } else {
        Band::Low
    }
}

/// The core's per-frame registers (everything but the sample accumulator).
pub struct CoreRegs {
    pub potential: u32,
    pub vad: VadRegs,
    pub noise_floor: u32,
    pub frame_index: u64,
    pub window_power_sum: u64,
    pub window_frames: u32,
}

/// Registers of a freshly started core.
pub open spec fn initial_core_regs() -> CoreRegs {
    CoreRegs {
        potential: 0,
        vad: VadRegs { speech: false, frames_in_state: 0, frames_since_spike: 0 },
        noise_floor: NOISE_FLOOR_INIT,
        frame_index: 0,
        window_power_sum: 0,
        window_frames: 0,
    }
}

/// The per-frame chain: registers and report after a frame whose sum of
/// squares is `sum_sq`.
pub open spec fn core_frame(regs: CoreRegs, sum_sq: u64) -> (CoreRegs, FrameReport) {
    let frame_power = frame_power_of(sum_sq);
    let drive = drive_of(frame_power, regs.noise_floor);
    let spike = frame_spike(regs, sum_sq);
    let potential = lif_next(regs.potential, LEAK_SHIFT, SPIKE_THRESHOLD, drive);
    let (vad, v) = vad_next(regs.vad, spike);
    let noise_floor = next_noise_floor(regs.noise_floor, frame_power, v.active);
    let sum = (regs.window_power_sum + frame_power) as u64;
    let frames = (regs.window_frames + 1) as u32;
    let full = frames == ENERGY_WINDOW_FRAMES;
    let avg = (sum >> 6u64) as u32;
    (
        CoreRegs {
            potential,
            vad,
            noise_floor,
            frame_index: (regs.frame_index + 1) as u64,
            window_power_sum: if full { 0 } else { sum },
            window_frames: if full { 0 } else { frames },
        },
        FrameReport {
            frame_index: regs.frame_index,
            frame_power,
            noise_floor,
            spike,
            vad_active: v.active,
            speaking_start: v.speaking_start,
            speaking_stop: v.speaking_stop,
            utterance_frames: v.utterance_frames,
            silence: v.silence,
            silence_frames: v.silence_frames,
            long_pause: v.long_pause,
            energy_band: if full { Some((band_of(avg), avg)) } else { None },
        },
    )
}

/// Whether a frame with sum of squares `sum_sq` makes the neuron spike.
pub open spec fn frame_spike(regs: CoreRegs, sum_sq: u64) -> bool {
    lif_fires(regs.potential, LEAK_SHIFT, SPIKE_THRESHOLD, drive_of(frame_power_of(sum_sq), regs.noise_floor))
}

/// Whether the core can take `sample`: when it completes a frame, the frame
/// counter and the VAD counters that this frame advances have room.
pub open spec fn tick_fits(regs: CoreRegs, pending: Seq<i16>, sample: i16) -> bool {
    pending.len() + 1 >= FRAME_LEN ==> {
        &&& regs.frame_index < u64::MAX
        &&& vad_fits(regs.vad, frame_spike(regs, frame_energy(pending.push(sample))))
    }
}

/// Register bounds that the core keeps between samples.
pub open spec fn core_regs_wf(regs: CoreRegs) -> bool {
    &&& regs.noise_floor >= NOISE_FLOOR_MIN
    &&& regs.window_frames < ENERGY_WINDOW_FRAMES
    &&& regs.window_power_sum <= regs.window_frames as int * u32::MAX as int
    &&& regs.vad.frames_in_state <= regs.frame_index
    &&& regs.vad.frames_since_spike <= regs.frame_index
}


/// A quiet frame leaves a neuron at rest: with no charge and frame power at
/// or below the noise gate there is no spike, the potential stays zero, and
/// a silent VAD does not start speech. So a silent input never starts an
/// utterance.
pub proof fn lemma_quiet_frame_at_rest(regs: CoreRegs, sum_sq: u64)
    requires
        regs.potential == 0,
        frame_power_of(sum_sq) <= gate_of(regs.noise_floor),
    ensures
        !core_frame(regs, sum_sq).1.spike,
        core_frame(regs, sum_sq).0.potential == 0,
        !regs.vad.speech ==> {
            &&& !core_frame(regs, sum_sq).0.vad.speech
            &&& !core_frame(regs, sum_sq).1.speaking_start
            &&& !core_frame(regs, sum_sq).1.vad_active
        },
{
}

/// The tracked noise floor never drops below `NOISE_FLOOR_MIN`, and the
/// report carries the updated floor.
pub proof fn lemma_noise_floor_bounded(regs: CoreRegs, sum_sq: u64)
    ensures
        core_frame(regs, sum_sq).0.noise_floor >= NOISE_FLOOR_MIN,
        core_frame(regs, sum_sq).1.noise_floor == core_frame(regs, sum_sq).0.noise_floor,
{
}

/// Energy levels come on a fixed cadence: a frame reports a band exactly
/// when it completes a window of `ENERGY_WINDOW_FRAMES` frames, with the
/// window's average power; the window then restarts. Reports carry
/// consecutive frame indices.
pub proof fn lemma_energy_cadence(regs: CoreRegs, sum_sq: u64)
    requires
        core_regs_wf(regs),
        regs.frame_index < u64::MAX,
    ensures
        core_frame(regs, sum_sq).1.energy_band is Some <==> regs.window_frames + 1 == ENERGY_WINDOW_FRAMES,
        core_frame(regs, sum_sq).0.window_frames == (regs.window_frames + 1) % (ENERGY_WINDOW_FRAMES as int),
        core_frame(regs, sum_sq).1.energy_band matches Some((band, avg)) ==> {
            &&& avg == (regs.window_power_sum + frame_power_of(sum_sq)) / 64
            &&& band == band_of(avg)
        },
        core_frame(regs, sum_sq).1.frame_index == regs.frame_index,
        core_frame(regs, sum_sq).0.frame_index == regs.frame_index + 1,
{
    let sum = (regs.window_power_sum + frame_power_of(sum_sq)) as u64;
    assert(sum >> 6u64 == sum / 64) by (bit_vector);
}

pub struct Engine {
    acc: EnergyAccumulator,
    lif: LifNeuron,
    vad: Vad,
    noise_floor: u32,
    frame_index: u64,
    window_power_sum: u64,
    window_frames: u32,
}

impl Engine {
    /// The per-frame registers.
    pub closed spec fn regs(&self) -> CoreRegs {
        CoreRegs {
            potential: self.lif.potential_spec(),
            vad: self.vad.regs(),
            noise_floor: self.noise_floor,
            frame_index: self.frame_index,
            window_power_sum: self.window_power_sum,
            window_frames: self.window_frames,
        }
    }

    /// Samples of the frame in progress.
    pub closed spec fn pending(&self) -> Seq<i16> {
        self.acc.pending()
    }

    pub closed spec fn wf(&self) -> bool {
        &&& self.acc.wf()
        &&& self.lif.leak_shift_spec() == LEAK_SHIFT
        &&& self.lif.threshold_spec() == SPIKE_THRESHOLD
        &&& core_regs_wf(self.regs())
    }

    /// A well-formed core holds less than one frame of pending samples.
    pub proof fn lemma_pending_bound(&self)
        requires
            self.wf(),
        ensures
            self.pending().len() < FRAME_LEN,
            core_regs_wf(self.regs()),
    {
        self.acc.lemma_pending_bound();
    }

    pub fn new() -> (r: Self)
        ensures
            r.wf(),
            r.regs() == initial_core_regs(),
            r.pending() == Seq::<i16>::empty(),
    {
        Self {
            acc: EnergyAccumulator::new(),
            lif: LifNeuron::vad_default(),
            vad: Vad::new(),
            noise_floor: NOISE_FLOOR_INIT,
            frame_index: 0,
            window_power_sum: 0,
            window_frames: 0,
        }
    }

    /// Process one 16 kHz mono sample. Returns a report on each frame boundary.
    /// The sample is consumed here and nowhere retained — this is the privacy
    /// boundary the FPGA enforces in hardware.
    pub fn tick(&mut self, sample: i16) -> (r: Option<FrameReport>)
        requires
            old(self).wf(),
            tick_fits(old(self).regs(), old(self).pending(), sample),
        ensures
            final(self).wf(),
            (final(self).regs(), final(self).pending(), r) == engine_step(old(self).regs(), old(self).pending(), sample),
            old(self).pending().len() + 1 < FRAME_LEN ==> {
                &&& r is None
                &&& final(self).regs() == old(self).regs()
                &&& final(self).pending() == old(self).pending().push(sample)
            },
            old(self).pending().len() + 1 == FRAME_LEN ==> {
                &&& final(self).pending() == Seq::<i16>::empty()
                &&& r == Some(core_frame(old(self).regs(), frame_energy(old(self).pending().push(sample))).1)
                &&& final(self).regs() == core_frame(old(self).regs(), frame_energy(old(self).pending().push(sample))).0
            },
    {
        let ghost old_regs = self.regs();
        let ghost frame = self.acc.pending().push(sample);
        proof {
            reveal(engine_step);
        }
        let pushed = self.acc.push(sample);
        let sum_sq = match pushed {
            Some(s) => s,
            None => {
                return None;
            },
        };
        proof {
            lemma_sum_squares_bounds(frame);
        }
        // Frame boundary: the whole per-frame chain below is combinational
        // logic plus a handful of state registers.
        let (frame_power, drive) = frame_drive(sum_sq, self.noise_floor);
        let spike = self.lif.step(drive);
        let v = self.vad.step(spike);

        // Track the noise floor while quiet; only creep downward during
        // speech so sustained loud input cannot freeze its noise gate forever.
        if !v.active {
            self.noise_floor = ema_step(self.noise_floor, frame_power, 6);
        } else if frame_power < self.noise_floor {
            self.noise_floor = ema_step(self.noise_floor, frame_power, 9);
        }
        if self.noise_floor < NOISE_FLOOR_MIN {
            self.noise_floor = NOISE_FLOOR_MIN;
        }

        // Coarse energy level over a power-of-two window of frames.
        self.window_power_sum = self.window_power_sum + frame_power as u64;
        self.window_frames = self.window_frames + 1;
        let energy_band = if self.window_frames == ENERGY_WINDOW_FRAMES {
            let total = self.window_power_sum;
            proof {
                assert(total <= 0x3F_FFFF_FFC0u64);
                assert(total <= 0x3F_FFFF_FFC0u64 ==> total >> 6u64 <= 0xFFFF_FFFFu64) by (bit_vector);
            }
            let avg = (total >> 6) as u32;  // / ENERGY_WINDOW_FRAMES
            self.window_power_sum = 0;
            self.window_frames = 0;
            let band = if avg >= BAND_HIGH_MIN {
                Band::High
            } else if avg >= BAND_MED_MIN {
                Band::Med
            } else {
                Band::Low
            };
            Some((band, avg))
        } else {
            None
        };

        let report = FrameReport {
            frame_index: self.frame_index,
            frame_power,
            noise_floor: self.noise_floor,
            spike,
            vad_active: v.active,
            speaking_start: v.speaking_start,
            speaking_stop: v.speaking_stop,
            utterance_frames: v.utterance_frames,
            silence: v.silence,
            silence_frames: v.silence_frames,
            long_pause: v.long_pause,
            energy_band,
        };
        self.frame_index = self.frame_index + 1;
        proof {
            assert(core_frame(old_regs, sum_sq).1 == report);
            assert(core_frame(old_regs, sum_sq).0 == self.regs());
        }
        Some(report)
    }

    /// Whether `sample` would complete a frame, and if so whether that
    /// frame spikes — without taking the sample.
    pub fn pending_spike(&self, sample: i16) -> (r: Option<bool>)
        requires
            self.wf(),
        ensures
            r == if self.pending().len() + 1 >= FRAME_LEN {
                Some(frame_spike(self.regs(), frame_energy(self.pending().push(sample))))
            } else {
                None::<bool>
            },
    {
        proof {
            self.acc.lemma_pending_bound();
        }
        match self.acc.peek(sample) {
            Some(sum_sq) => {
                let (_, drive) = frame_drive(sum_sq, self.noise_floor);
                Some(self.lif.fires(drive))
            },
            None => None,
        }
    }

    /// Whether `tick` can take `sample`: when it completes a frame, the
    /// frame counter and the VAD counters that frame advances have room.
    pub fn can_tick(&self, sample: i16) -> (r: bool)
        requires
            self.wf(),
        ensures
            r == tick_fits(self.regs(), self.pending(), sample),
    {
        match self.pending_spike(sample) {
            Some(spike) => self.frame_index < u64::MAX && self.vad.fits(spike),
            None => true,
        }
    }

    /// Whether `sample` completes a frame that strobes LONG_PAUSE.
    pub fn long_pause_next(&self, sample: i16) -> (r: bool)
        requires
            self.wf(),
            tick_fits(self.regs(), self.pending(), sample),
        ensures
            r == (self.pending().len() + 1 >= FRAME_LEN && vad_next(
                self.regs().vad,
                frame_spike(self.regs(), frame_energy(self.pending().push(sample))),
            ).1.long_pause),
    {
        match self.pending_spike(sample) {
            Some(spike) => self.vad.long_pause_next(spike),
            None => false,
        }
    }

    pub fn frames_processed(&self) -> (r: u64)
        ensures
            r == self.regs().frame_index,
    {
        self.frame_index
    }
}

/// Frame power of a frame's sum of squares (`>> 8`, saturated to u32) and
/// the neuron drive it gives: the power above the noise gate (+~6 dB),
/// capped at `INPUT_CAP`.
fn frame_drive(sum_sq: u64, noise_floor: u32) -> (r: (u32, u32))
    ensures
        r.0 == frame_power_of(sum_sq),
        r.1 == drive_of(r.0, noise_floor),
{
    let shifted = sum_sq >> 8;
    let frame_power = if shifted > 0xFFFF_FFFF { u32::MAX } else { shifted as u32 };
    let gate = gate(noise_floor);
    let drive = frame_power.saturating_sub(gate);
    let drive = if drive < INPUT_CAP { drive } else { INPUT_CAP };
    (frame_power, drive)
}

/// Four times the noise floor, saturating, and at least `ABS_GATE_MIN`.
pub fn gate(noise_floor: u32) -> (r: u32)
    ensures
        r == gate_of(noise_floor),
{
    let g = if noise_floor > u32::MAX / 4 { u32::MAX } else { noise_floor * 4 };
    if g < ABS_GATE_MIN { ABS_GATE_MIN } else { g }
}

/// One step of a shift-based exponential moving average:
/// `current += (target - current) >> shift`, nudged by 1 so small
/// deltas still converge instead of sticking below the shift resolution.
/// The result moves toward the target, strictly when it differs, and never
/// overshoots it.
fn ema_step(current: u32, target: u32, shift: u32) -> (r: u32)
    requires
        shift < 32,
    ensures
        r == ema(current, target, shift),
        current <= target ==> current <= r <= target,
        target < current ==> target <= r < current,
        current != target ==> r != current,
{
    if target >= current {
        let diff = target - current;
        let delta = diff >> shift;
        assert(diff >> shift <= diff) by (bit_vector);
        let step = if target > current && delta < 1 { 1 } else { delta };
        current + step
    } else {
        let diff = current - target;
        let delta = diff >> shift;
        assert(diff >> shift <= diff) by (bit_vector);
        let step = if delta < 1 { 1 } else { delta };
        current - step
    }
}

/// One EMA step moves toward its target by the difference divided by
/// `2^shift`, at least 1, and never overshoots; on target it stays put.
pub proof fn lemma_ema_toward_target(current: u32, target: u32, shift: u32)
    requires
        shift < 32,
    ensures
        target > current ==> current < ema(current, target, shift) <= target,
        target < current ==> target <= ema(current, target, shift) < current,
        target == current ==> ema(current, target, shift) == current,
        target > current ==> ema(current, target, shift) == current + {
            let step = (target - current) / pow2(shift as nat) as int;
            if step < 1 { 1 } else { step }
        },
        target < current ==> ema(current, target, shift) == current - {
            let step = (current - target) / pow2(shift as nat) as int;
            if step < 1 { 1 } else { step }
        },
{
    if target >= current {
        let diff = (target - current) as u32;
        assert(diff >> shift <= diff) by (bit_vector);
        lemma_u32_shr_is_div(diff, shift);
    } else {
        let diff = (current - target) as u32;
        assert(diff >> shift <= diff) by (bit_vector);
        lemma_u32_shr_is_div(diff, shift);
    }
}

/// What one frame reports, in terms of its sum of squares and the
/// registers before it:
/// - the frame power is the sum of squares divided by 256, saturated to u32;
/// - the neuron is driven by the power above the noise gate (four times the
///   noise floor, saturated, and at least `ABS_GATE_MIN`), capped at
///   `INPUT_CAP`;
/// - an energy report's band is High from `BAND_HIGH_MIN` up, Med from
///   `BAND_MED_MIN` up to below `BAND_HIGH_MIN`, and Low below `BAND_MED_MIN`;
/// - SILENCE reports `SILENCE_FRAMES` quiet frames and LONG_PAUSE reports
///   `LONG_PAUSE_FRAMES`;
/// - from a noise floor at or above `NOISE_FLOOR_MIN`, while quiet the
///   floor moves toward the frame power by 1/64 of the difference (at least
///   1) without passing it, never below `NOISE_FLOOR_MIN`; during speech it
///   only creeps down toward a quieter frame, by 1/512 of the difference
///   (at least 1), and otherwise holds.
pub proof fn lemma_frame_report_laws(regs: CoreRegs, sum_sq: u64)
    requires
        regs.noise_floor >= NOISE_FLOOR_MIN,
    ensures
        ({
            let (next, r) = core_frame(regs, sum_sq);
            let p = r.frame_power;
            let g = if 4 * regs.noise_floor > u32::MAX { u32::MAX as int } else { 4 * regs.noise_floor };
            let gate = if g < ABS_GATE_MIN { ABS_GATE_MIN as int } else { g };
            let above = if p > gate { p - gate } else { 0int };
            let d = if above < INPUT_CAP { above } else { INPUT_CAP as int };
            &&& sum_sq / 256 <= u32::MAX ==> p == sum_sq / 256
            &&& sum_sq / 256 > u32::MAX ==> p == u32::MAX
            &&& r.spike == lif_fires(regs.potential, LEAK_SHIFT, SPIKE_THRESHOLD, d as u32)
            &&& r.energy_band matches Some((band, avg)) ==> {
                &&& (band == Band::High) == (avg >= BAND_HIGH_MIN)
                &&& (band == Band::Med) == (BAND_MED_MIN <= avg && avg < BAND_HIGH_MIN)
                &&& (band == Band::Low) == (avg < BAND_MED_MIN)
            }
            &&& r.silence ==> r.silence_frames == SILENCE_FRAMES
            &&& r.long_pause ==> r.silence_frames == LONG_PAUSE_FRAMES
            &&& r.noise_floor >= NOISE_FLOOR_MIN
            &&& !r.vad_active && p >= regs.noise_floor ==> regs.noise_floor <= r.noise_floor <= p
            &&& !r.vad_active && p > regs.noise_floor ==> regs.noise_floor < r.noise_floor
            &&& !r.vad_active && p < regs.noise_floor ==> r.noise_floor <= regs.noise_floor && (p <= r.noise_floor
                || r.noise_floor == NOISE_FLOOR_MIN)
            &&& !r.vad_active && p < regs.noise_floor && regs.noise_floor > NOISE_FLOOR_MIN ==> r.noise_floor
                < regs.noise_floor
            &&& r.vad_active && p >= regs.noise_floor ==> r.noise_floor == regs.noise_floor
            &&& r.vad_active && p < regs.noise_floor ==> r.noise_floor <= regs.noise_floor
            &&& !r.vad_active && p > regs.noise_floor ==> r.noise_floor == regs.noise_floor + {
                let step = (p - regs.noise_floor) / 64;
                if step < 1 { 1 } else { step }
            }
            &&& !r.vad_active && p < regs.noise_floor ==> r.noise_floor == {
                let step = (regs.noise_floor - p) / 64;
                let n = regs.noise_floor - if step < 1 { 1 } else { step };
                if n < NOISE_FLOOR_MIN { NOISE_FLOOR_MIN as int } else { n }
            }
            &&& r.vad_active && p < regs.noise_floor ==> r.noise_floor == {
                let step = (regs.noise_floor - p) / 512;
                let n = regs.noise_floor - if step < 1 { 1 } else { step };
                if n < NOISE_FLOOR_MIN { NOISE_FLOOR_MIN as int } else { n }
            }
        }),
{
    assert(sum_sq >> 8u64 == sum_sq / 256) by (bit_vector);
    let r = core_frame(regs, sum_sq).1;
    let p = frame_power_of(sum_sq);
    lemma_quiet_strobe_lengths(regs.vad, frame_spike(regs, sum_sq));
    lemma_ema_toward_target(regs.noise_floor, p, 6);
    lemma_ema_toward_target(regs.noise_floor, p, 9);
    lemma2_to64();
    assert(drive_of(p, regs.noise_floor) as int == {
        let g = if 4 * regs.noise_floor > u32::MAX { u32::MAX as int } else { 4 * regs.noise_floor };
        let gate = if g < ABS_GATE_MIN { ABS_GATE_MIN as int } else { g };
        let above = if p > gate { p - gate } else { 0int };
        if above < INPUT_CAP { above } else { INPUT_CAP as int }
    });
}

} // verus!
