//! The core over a whole run: what a fresh `Engine` reports after any
//! sequence of samples, derived from the per-sample step that `tick` is
//! specified by.
use vstd::prelude::*;

use super::{
    CoreRegs, FrameReport, core_frame, initial_core_regs, frame_power_of, band_of, gate_of, ABS_GATE_MIN,
    ENERGY_WINDOW_FRAMES, FRAME_LEN, lemma_quiet_frame_at_rest,
};
use super::energy::{acc_step, acc_after, acc_output_at, frame_energy, lemma_accumulator_run};

verus! {

/// Registers after a run of frames with the given sums of squares, from a
/// fresh core.
pub open spec fn core_after(es: Seq<u64>) -> CoreRegs
    decreases es.len(),
{
    if es.len() == 0 {
        initial_core_regs()
    } else {
        core_frame(core_after(es.drop_last()), es.last()).0
    }
}

/// Report of frame `k` of a run of frames.
pub open spec fn core_report_at(es: Seq<u64>, k: int) -> FrameReport {
    core_frame(core_after(es.take(k)), es[k]).1
}

/// Summed frame power of frames `a..b` of a run.
pub open spec fn power_sum(es: Seq<u64>, a: int, b: int) -> int
    decreases b - a,
{
    if b <= a {
        0
    } else {
        power_sum(es, a, b - 1) + frame_power_of(es[b - 1])
    }
}

proof fn lemma_power_sum_bounds(es: Seq<u64>, a: int, b: int)
    requires
        a <= b,
    ensures
        0 <= power_sum(es, a, b) <= (b - a) * (u32::MAX as int),
    decreases b - a,
{
    if b > a {
        lemma_power_sum_bounds(es, a, b - 1);
    }
}

proof fn lemma_power_sum_take(es: Seq<u64>, a: int, b: int, k: int)
    requires
        0 <= a,
        b <= k <= es.len(),
    ensures
        power_sum(es.take(k), a, b) == power_sum(es, a, b),
    decreases b - a,
{
    if b > a {
        lemma_power_sum_take(es, a, b - 1, k);
    }
}

/// The frame-level run: after `L` frames the core has counted `L` frames,
/// and its energy window holds the last `L % 64` frames and their summed
/// power.
pub proof fn lemma_core_run(es: Seq<u64>)
    requires
        es.len() < u64::MAX,
    ensures
        core_after(es).frame_index == es.len(),
        core_after(es).window_frames == (es.len() as int) % (ENERGY_WINDOW_FRAMES as int),
        core_after(es).window_power_sum == power_sum(
            es,
            es.len() as int - (es.len() as int) % (ENERGY_WINDOW_FRAMES as int),
            es.len() as int,
        ),
    decreases es.len(),
{
    let l = es.len() as int;
    if l > 0 {
        let pre = es.drop_last();
        lemma_core_run(pre);
        let m = l - 1;
        let a = m - m % 64;
        lemma_power_sum_take(es, a, m, m);
        assert(pre =~= es.take(m));
        lemma_power_sum_bounds(es, a, m);
        assert(power_sum(es, a, m) <= 63 * (u32::MAX as int)) by (nonlinear_arith)
            requires
                power_sum(es, a, m) <= (m - a) * (u32::MAX as int),
                0 <= m - a <= 63,
        ;
        if m % 64 + 1 == 64 {
            assert(l % 64 == 0);
        } else {
            assert(l % 64 == m % 64 + 1);
        }
    }
}

/// Frame `k` of a run reports index `k`; it reports an energy band exactly
/// when it completes a window of 64 frames, with the mean power of those 64
/// frames (`sum >> 6`) and the band of that mean.
pub proof fn lemma_core_reports(es: Seq<u64>, k: int)
    requires
        0 <= k < es.len(),
        es.len() < u64::MAX,
    ensures
        core_report_at(es, k).frame_index == k,
        core_report_at(es, k).frame_power == frame_power_of(es[k]),
        core_report_at(es, k).energy_band is Some <==> (k + 1) % (ENERGY_WINDOW_FRAMES as int) == 0,
        core_report_at(es, k).energy_band matches Some((band, avg)) ==> {
            &&& avg == power_sum(es, k + 1 - ENERGY_WINDOW_FRAMES, k + 1) / 64
            &&& band == band_of(avg)
        },
{
    let pre = es.take(k);
    lemma_core_run(pre);
    let a = k - k % 64;
    lemma_power_sum_take(es, a, k, k);
    lemma_power_sum_bounds(es, a, k);
    assert(power_sum(es, a, k) <= 63 * (u32::MAX as int)) by (nonlinear_arith)
        requires
            power_sum(es, a, k) <= (k - a) * (u32::MAX as int),
            0 <= k - a <= 63,
    ;
    let sum = (power_sum(es, a, k) + frame_power_of(es[k])) as u64;
    assert(sum >> 6u64 == sum / 64) by (bit_vector);
    if (k + 1) % 64 == 0 {
        assert(a == k + 1 - 64);
    }
}

/// A room that never rises above the absolute gate never spikes: if every
/// frame of a run has power at most `ABS_GATE_MIN`, the neuron stays at
/// rest, the VAD stays silent, and no frame reports a spike, activity or a
/// speaking strobe — whatever the noise floor does.
pub proof fn lemma_quiet_run(es: Seq<u64>, k: int)
    requires
        0 <= k < es.len(),
        forall|j: int| 0 <= j < es.len() ==> frame_power_of(#[trigger] es[j]) <= ABS_GATE_MIN,
    ensures
        core_after(es.take(k)).potential == 0,
        !core_after(es.take(k)).vad.speech,
        !core_report_at(es, k).spike,
        !core_report_at(es, k).vad_active,
        !core_report_at(es, k).speaking_start,
        !core_report_at(es, k).speaking_stop,
    decreases k,
{
    if k > 0 {
        lemma_quiet_run(es, k - 1);
        assert(es.take(k).drop_last() =~= es.take(k - 1));
        assert(es.take(k).last() == es[k - 1]);
        lemma_quiet_frame_at_rest(core_after(es.take(k - 1)), es[k - 1]);
    }
    lemma_quiet_frame_at_rest(core_after(es.take(k)), es[k]);
}

/// One sample of a core: registers, pending samples and report after it.
#[verifier::opaque]
pub open spec fn engine_step(regs: CoreRegs, pending: Seq<i16>, sample: i16) -> (CoreRegs, Seq<i16>, Option<FrameReport>) {
    let (p, o) = acc_step(pending, sample);
    match o {
        Some(e) => (core_frame(regs, e).0, p, Some(core_frame(regs, e).1)),
        None => (regs, p, None),
    }
}

/// Registers and pending samples after feeding `samples` to a fresh core.
pub open spec fn engine_after(samples: Seq<i16>) -> (CoreRegs, Seq<i16>)
    decreases samples.len(),
{
    if samples.len() == 0 {
        (initial_core_regs(), Seq::empty())
    } else {
        let (regs, pending) = engine_after(samples.drop_last());
        let (r2, p2, _) = engine_step(regs, pending, samples.last());
        (r2, p2)
    }
}

/// Result of tick number `n` (from 0) in a run of `samples` from a fresh core.
pub open spec fn engine_report_at(samples: Seq<i16>, n: int) -> Option<FrameReport> {
    let (regs, pending) = engine_after(samples.take(n));
    engine_step(regs, pending, samples[n]).2
}

/// Sums of squares of the complete frames of `samples`.
pub open spec fn frame_energies(samples: Seq<i16>) -> Seq<u64> {
    Seq::new(
        samples.len() / (FRAME_LEN as nat),
        |j: int| frame_energy(samples.subrange(j * FRAME_LEN, j * FRAME_LEN + FRAME_LEN)),
    )
}

proof fn lemma_engine_after(samples: Seq<i16>)
    ensures
        engine_after(samples) == (core_after(frame_energies(samples)), acc_after(samples)),
    decreases samples.len(),
{
    let l = samples.len() as int;
    assert(FRAME_LEN == 320);
    reveal(engine_step);
    if l > 0 {
        let pre = samples.drop_last();
        lemma_engine_after(pre);
        assert(pre =~= samples.take(l - 1));
        lemma_accumulator_run(samples, l - 1);
        let fp = frame_energies(pre);
        let fs = frame_energies(samples);
        assert forall|j: int| 0 <= j < fp.len() implies #[trigger] fp[j] == fs[j] by {
            assert(pre.subrange(j * 320, j * 320 + 320) =~= samples.subrange(j * 320, j * 320 + 320));
        }
        if l % 320 == 0 {
            assert(fs.len() == fp.len() + 1);
            assert(fs.drop_last() =~= fp);
            assert(fs.last() == frame_energy(samples.subrange(l - 320, l)));
        } else {
            assert(fs =~= fp);
        }
    }
}

/// The core over a run of samples from a fresh `Engine`: tick `n` reports
/// exactly when it completes a frame (`(n + 1) % 320 == 0`). That report
/// has frame index `(n + 1) / 320 - 1`, the power of its 320 samples, and
/// an energy band exactly when its frame completes a window of 64 frames —
/// it is the report of the frame-level run over the frames' sums of
/// squares. After the run the core has counted `L / 320` frames and holds
/// the last `L % 320` samples.
pub proof fn lemma_engine_run(samples: Seq<i16>, n: int)
    requires
        0 <= n < samples.len(),
        samples.len() < u64::MAX,
    ensures
        engine_after(samples).0.frame_index == samples.len() / (FRAME_LEN as nat),
        engine_after(samples).1 == samples.subrange(samples.len() as int - (samples.len() as int) % (FRAME_LEN as int), samples.len() as int),
        engine_report_at(samples, n) is Some <==> (n + 1) % (FRAME_LEN as int) == 0,
        engine_report_at(samples, n) matches Some(r) ==> {
            let k = (n + 1) / (FRAME_LEN as int) - 1;
            &&& r == core_report_at(frame_energies(samples), k)
            &&& r.frame_index == k
            &&& r.frame_power == frame_power_of(frame_energy(samples.subrange(n + 1 - FRAME_LEN, n + 1)))
            &&& (r.energy_band is Some <==> (k + 1) % (ENERGY_WINDOW_FRAMES as int) == 0)
        },
{
    assert(FRAME_LEN == 320);
    reveal(engine_step);
    lemma_engine_after(samples);
    lemma_core_run(frame_energies(samples));
    lemma_accumulator_run(samples, n);
    lemma_engine_after(samples.take(n));
    if (n + 1) % 320 == 0 {
        let k = (n + 1) / 320 - 1;
        let fs = frame_energies(samples);
        let ft = frame_energies(samples.take(n));
        assert(ft.len() == k);
        assert forall|j: int| 0 <= j < k implies #[trigger] ft[j] == fs[j] by {
            assert(samples.take(n).subrange(j * 320, j * 320 + 320) =~= samples.subrange(j * 320, j * 320 + 320));
        }
        assert(ft =~= fs.take(k));
        assert(fs[k] == frame_energy(samples.subrange(n + 1 - 320, n + 1)));
        lemma_core_reports(fs, k);
    }
}

/// Number of reports in a run of samples.
pub open spec fn report_count(samples: Seq<i16>) -> nat
    decreases samples.len(),
{
    if samples.len() == 0 {
        0
    } else {
        report_count(samples.drop_last()) + if engine_report_at(samples, samples.len() - 1) is Some { 1nat } else { 0nat }
    }
}

/// The frame count that `frames_processed` returns after a run equals the
/// number of reports the run returned.
pub proof fn lemma_frames_counted(samples: Seq<i16>)
    requires
        samples.len() < u64::MAX,
    ensures
        report_count(samples) == samples.len() / (FRAME_LEN as nat),
        report_count(samples) == engine_after(samples).0.frame_index,
    decreases samples.len(),
{
    assert(FRAME_LEN == 320);
    let l = samples.len() as int;
    if l > 0 {
        let pre = samples.drop_last();
        lemma_frames_counted(pre);
        lemma_engine_run(samples, l - 1);
        if l % 320 == 0 {
            assert(l / 320 == (l - 1) / 320 + 1);
        } else {
            assert(l / 320 == (l - 1) / 320);
        }
    } else {
        lemma_engine_after(samples);
    }
}

} // verus!
