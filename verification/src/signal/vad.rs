//! Voice-activity state machine, driven by the LIF neuron's spike train.
//! Two states and three counters — a direct FSM in RTL.
use vstd::prelude::*;

verus! {

/// Frames without a spike before an utterance is considered over (400 ms).
pub const HANGOVER_FRAMES: u32 = 20;
/// Quiet frames before a SILENCE strobe (1.5 s).
pub const SILENCE_FRAMES: u32 = 75;
/// Quiet frames before a LONG_PAUSE strobe (4 s).
pub const LONG_PAUSE_FRAMES: u32 = 200;

#[derive(Clone, Copy, Debug)]
pub struct VadOutput {
    pub active: bool,
    pub speaking_start: bool,
    pub speaking_stop: bool,
    /// Valid only when `speaking_stop` is set; hangover tail excluded.
    pub utterance_frames: u32,
    pub silence: bool,
    pub silence_frames: u32,
    pub long_pause: bool,
}

/// The all-clear output: no strobe, not active, zero counts.
pub open spec fn quiet_output() -> VadOutput {
    VadOutput {
        active: false,
        speaking_start: false,
        speaking_stop: false,
        utterance_frames: 0,
        silence: false,
        silence_frames: 0,
        long_pause: false,
    }
}

/// The VAD's registers: whether it is in speech, frames in the current
/// state, frames since the last spike.
pub struct VadRegs {
    pub speech: bool,
    pub frames_in_state: u32,
    pub frames_since_spike: u32,
}

/// Registers and output after one frame with the given spike input.
pub open spec fn vad_next(regs: VadRegs, spike: bool) -> (VadRegs, VadOutput) {
    if !regs.speech {
        if spike {
            (
                VadRegs { speech: true, frames_in_state: 0, frames_since_spike: 0 },
                VadOutput { active: true, speaking_start: true, ..quiet_output() },
            )
        } else {
            let n = (regs.frames_in_state + 1) as u32;
            let silence = n == SILENCE_FRAMES;
            let long_pause = n == LONG_PAUSE_FRAMES;
            (
                VadRegs { frames_in_state: n, ..regs },
                VadOutput {
                    silence,
                    long_pause,
                    silence_frames: if silence || long_pause { n } else { 0 },
                    ..quiet_output()
                },
            )
        }
    } else {
        let n = (regs.frames_in_state + 1) as u32;
        let since = if spike { 0 } else { (regs.frames_since_spike + 1) as u32 };
        if since >= HANGOVER_FRAMES {
            let voiced = if n >= since { (n - since) as u32 } else { 0 };
            (
                VadRegs { speech: false, frames_in_state: 0, frames_since_spike: since },
                VadOutput {
                    speaking_stop: true,
                    utterance_frames: if voiced < 1 { 1 } else { voiced },
                    ..quiet_output()
                },
            )
        } else {
            (
                VadRegs { speech: true, frames_in_state: n, frames_since_spike: since },
                VadOutput { active: true, ..quiet_output() },
            )
        }
    }
}

/// Whether the counters that a frame with the given spike input advances
/// fit their registers: in silence a spike resets them and a quiet frame
/// advances the state counter; in speech the state counter advances, and
/// the spike counter too unless the frame spikes.
pub open spec fn vad_fits(regs: VadRegs, spike: bool) -> bool {
    if !regs.speech {
        spike || regs.frames_in_state < u32::MAX
    } else {
        regs.frames_in_state < u32::MAX && (spike || regs.frames_since_spike < u32::MAX)
    }
}

#[derive(PartialEq, Eq)]
enum State {
    Silence,
    Speech,
}

pub struct Vad {
    state: State,
    frames_in_state: u32,
    frames_since_spike: u32,
}

impl Vad {
    /// The registers of this VAD.
    pub closed spec fn regs(&self) -> VadRegs {
        VadRegs {
            speech: self.state == State::Speech,
            frames_in_state: self.frames_in_state,
            frames_since_spike: self.frames_since_spike,
        }
    }

    pub fn new() -> (r: Self)
        ensures
            r.regs() == (VadRegs { speech: false, frames_in_state: 0, frames_since_spike: 0 }),
    {
        Self { state: State::Silence, frames_in_state: 0, frames_since_spike: 0 }
    }

    /// Whether a frame with the given spike input can be taken.
    pub fn fits(&self, spike: bool) -> (r: bool)
        ensures
            r == vad_fits(self.regs(), spike),
    {
        match self.state {
            State::Silence => spike || self.frames_in_state < u32::MAX,
            State::Speech => self.frames_in_state < u32::MAX && (spike || self.frames_since_spike < u32::MAX),
        }
    }

    /// Whether a frame with the given spike input strobes LONG_PAUSE.
    pub fn long_pause_next(&self, spike: bool) -> (r: bool)
        requires
            vad_fits(self.regs(), spike),
        ensures
            r == vad_next(self.regs(), spike).1.long_pause,
    {
        match self.state {
            State::Silence => !spike && self.frames_in_state + 1 == LONG_PAUSE_FRAMES,
            State::Speech => false,
        }
    }

    pub fn step(&mut self, spike: bool) -> (out: VadOutput)
        requires
            vad_fits(old(self).regs(), spike),
        ensures
            (final(self).regs(), out) == vad_next(old(self).regs(), spike),
    {
        let mut out = VadOutput {
            active: false,
            speaking_start: false,
            speaking_stop: false,
            utterance_frames: 0,
            silence: false,
            silence_frames: 0,
            long_pause: false,
        };
        match self.state {
            State::Silence => {
                if spike {
                    self.state = State::Speech;
                    self.frames_in_state = 0;
                    self.frames_since_spike = 0;
                    out.speaking_start = true;
                    out.active = true;
                } else {
                    self.frames_in_state += 1;
                    if self.frames_in_state == SILENCE_FRAMES {
                        out.silence = true;
                        out.silence_frames = self.frames_in_state;
                    }
                    if self.frames_in_state == LONG_PAUSE_FRAMES {
                        out.long_pause = true;
                        out.silence_frames = self.frames_in_state;
                    }
                }
            },
            State::Speech => {
                self.frames_in_state += 1;
                if spike {
                    self.frames_since_spike = 0;
                } else {
                    self.frames_since_spike += 1;
                }
                if self.frames_since_spike >= HANGOVER_FRAMES {
                    out.speaking_stop = true;
                    // At least 1: the starting spike frame itself was voiced.
                    let voiced = self.frames_in_state.saturating_sub(self.frames_since_spike);
                    out.utterance_frames = if voiced < 1 { 1 } else { voiced };
                    self.state = State::Silence;
                    self.frames_in_state = 0;
                } else {
                    out.active = true;
                }
            },
        }
        out
    }
}

/// Registers after `k` spike-free frames spent in silence.
pub open spec fn vad_quiet_regs(regs: VadRegs, k: nat) -> VadRegs
    decreases k,
{
    if k == 0 {
        regs
    } else {
        vad_next(vad_quiet_regs(regs, (k - 1) as nat), false).0
    }
}

/// In silence, each spike-free frame advances the quiet counter by one.
pub proof fn lemma_quiet_counter(regs: VadRegs, k: nat)
    requires
        !regs.speech,
        regs.frames_in_state + k <= u32::MAX,
    ensures
        !vad_quiet_regs(regs, k).speech,
        vad_quiet_regs(regs, k).frames_in_state == regs.frames_in_state + k,
    decreases k,
{
    if k > 0 {
        lemma_quiet_counter(regs, (k - 1) as nat);
    }
}

/// Within one quiet stretch, SILENCE strobes on at most one frame and
/// LONG_PAUSE on at most one frame: the `k`-th spike-free frame strobes
/// SILENCE exactly when the quiet counter reaches `SILENCE_FRAMES`, and
/// LONG_PAUSE exactly when it reaches `LONG_PAUSE_FRAMES`.
pub proof fn lemma_silence_strobes_once(regs: VadRegs, k1: nat, k2: nat)
    requires
        !regs.speech,
        regs.frames_in_state + k1 < u32::MAX,
        regs.frames_in_state + k2 < u32::MAX,
    ensures
        vad_next(vad_quiet_regs(regs, k1), false).1.silence <==> regs.frames_in_state + k1 + 1 == SILENCE_FRAMES,
        vad_next(vad_quiet_regs(regs, k1), false).1.long_pause <==> regs.frames_in_state + k1 + 1 == LONG_PAUSE_FRAMES,
        vad_next(vad_quiet_regs(regs, k1), false).1.silence && vad_next(vad_quiet_regs(regs, k2), false).1.silence ==> k1 == k2,
        vad_next(vad_quiet_regs(regs, k1), false).1.long_pause && vad_next(vad_quiet_regs(regs, k2), false).1.long_pause ==> k1 == k2,
        !vad_next(vad_quiet_regs(regs, k1), false).1.active,
        !vad_next(vad_quiet_regs(regs, k1), false).1.speaking_start,
{
    lemma_quiet_counter(regs, k1);
    lemma_quiet_counter(regs, k2);
}

/// Hangover: once speech has had a spike, it stays active through the next
/// `HANGOVER_FRAMES - 1` spike-free frames, and the `HANGOVER_FRAMES`-th
/// spike-free frame strobes SPEAKING_STOP with the hangover tail excluded
/// from the utterance length.
pub proof fn lemma_hangover_ends_speech(regs: VadRegs, k: nat)
    requires
        regs.speech,
        regs.frames_since_spike == 0,
        regs.frames_in_state + HANGOVER_FRAMES < u32::MAX,
        k < HANGOVER_FRAMES,
    ensures
        vad_quiet_regs(regs, k).speech,
        vad_quiet_regs(regs, k).frames_since_spike == k,
        vad_quiet_regs(regs, k).frames_in_state == regs.frames_in_state + k,
        k + 1 < HANGOVER_FRAMES ==> {
            let out = vad_next(vad_quiet_regs(regs, k), false).1;
            out.active && !out.speaking_stop
        },
        k + 1 == HANGOVER_FRAMES ==> {
            let out = vad_next(vad_quiet_regs(regs, k), false).1;
            &&& out.speaking_stop
            &&& !out.active
            &&& out.utterance_frames == if regs.frames_in_state < 1 { 1 } else { regs.frames_in_state }
        },
    decreases k,
{
    if k > 0 {
        lemma_hangover_ends_speech(regs, (k - 1) as nat);
    }
}

/// SPEAKING_START comes only out of silence and SPEAKING_STOP only out of
/// speech, never both in one frame, and a stop always reports at least one
/// voiced frame (the frame of the starting spike).
pub proof fn lemma_strobes_follow_state(regs: VadRegs, spike: bool)
    ensures
        vad_next(regs, spike).1.speaking_start ==> !regs.speech && spike && vad_next(regs, spike).0.speech,
        vad_next(regs, spike).1.speaking_stop ==> regs.speech && !vad_next(regs, spike).0.speech,
        vad_next(regs, spike).1.speaking_stop ==> vad_next(regs, spike).1.utterance_frames >= 1,
        vad_next(regs, spike).1.active == vad_next(regs, spike).0.speech,
{
}

/// Registers of a fresh VAD.
pub open spec fn vad_initial() -> VadRegs {
    VadRegs { speech: false, frames_in_state: 0, frames_since_spike: 0 }
}

/// Registers just after a SPEAKING_START (the starting spike's frame).
pub open spec fn vad_speech_start() -> VadRegs {
    VadRegs { speech: true, frames_in_state: 0, frames_since_spike: 0 }
}

/// Registers after feeding the spike inputs `xs`, one frame each.
pub open spec fn vad_after(regs: VadRegs, xs: Seq<bool>) -> VadRegs
    decreases xs.len(),
{
    if xs.len() == 0 {
        regs
    } else {
        vad_next(vad_after(regs, xs.drop_last()), xs.last()).0
    }
}

/// Output of frame `k` of the run `xs` from `regs`.
pub open spec fn vad_output_at(regs: VadRegs, xs: Seq<bool>, k: int) -> VadOutput {
    vad_next(vad_after(regs, xs.take(k)), xs[k]).1
}

/// Whether a VAD run from rest is active before frame `k` (false before
/// the first frame).
pub open spec fn active_before(xs: Seq<bool>, k: int) -> bool {
    if k <= 0 { false } else { vad_output_at(vad_initial(), xs, k - 1).active }
}

/// SPEAKING_START and SPEAKING_STOP strictly alternate over a run from rest,
/// beginning with a start: a frame strobes SPEAKING_START exactly when it
/// spikes while inactive, SPEAKING_STOP only while active, and activity
/// changes only on those strobes — it stays on until a stop, and while
/// inactive it follows the spike.
pub proof fn lemma_strobes_alternate(xs: Seq<bool>, k: int)
    requires
        0 <= k < xs.len(),
    ensures
        vad_after(vad_initial(), xs.take(k)).speech == active_before(xs, k),
        vad_output_at(vad_initial(), xs, k).speaking_start == (xs[k] && !active_before(xs, k)),
        vad_output_at(vad_initial(), xs, k).speaking_stop ==> active_before(xs, k),
        vad_output_at(vad_initial(), xs, k).active == if active_before(xs, k) {
            !vad_output_at(vad_initial(), xs, k).speaking_stop
        } else {
            xs[k]
        },
        (vad_output_at(vad_initial(), xs, k).active != active_before(xs, k)) <==> (vad_output_at(vad_initial(), xs, k).speaking_start
            || vad_output_at(vad_initial(), xs, k).speaking_stop),
{
    if k > 0 {
        assert(xs.take(k).drop_last() =~= xs.take(k - 1));
        assert(xs.take(k).last() == xs[k - 1]);
        lemma_strobes_follow_state(vad_after(vad_initial(), xs.take(k - 1)), xs[k - 1]);
    }
}

/// 1-based position of the last spike in `xs`, 0 when there is none.
pub open spec fn last_spike(xs: Seq<bool>) -> int
    decreases xs.len(),
{
    if xs.len() == 0 {
        0
    } else if xs.last() {
        xs.len() as int
    } else {
        last_spike(xs.drop_last())
    }
}

proof fn lemma_last_spike_bounds(xs: Seq<bool>)
    ensures
        0 <= last_spike(xs) <= xs.len(),
    decreases xs.len(),
{
    if xs.len() > 0 {
        lemma_last_spike_bounds(xs.drop_last());
    }
}

/// Utterance length: counting the frame of the starting spike as frame 0
/// and the frames `xs` after it as 1, 2, ..., the utterance stays in speech
/// with its counters tracking the frames since the start and since the last
/// spike; it ends on the first frame `i` that leaves `HANGOVER_FRAMES`
/// spike-free frames after the last spike, and SPEAKING_STOP then reports
/// the frames from the start to the last spike — the hangover tail
/// excluded — and at least 1 (a lone starting spike).
pub proof fn lemma_utterance_length(xs: Seq<bool>, i: int)
    requires
        0 <= i < xs.len(),
        i + 1 < u32::MAX,
        forall|j: int| 0 <= j < i ==> !(#[trigger] vad_output_at(vad_speech_start(), xs, j)).speaking_stop,
    ensures
        vad_after(vad_speech_start(), xs.take(i)) == (VadRegs {
            speech: true,
            frames_in_state: i as u32,
            frames_since_spike: (i - last_spike(xs.take(i))) as u32,
        }),
        vad_output_at(vad_speech_start(), xs, i).speaking_stop <==> i + 1 - last_spike(xs.take(i + 1)) >= HANGOVER_FRAMES,
        vad_output_at(vad_speech_start(), xs, i).speaking_stop ==> vad_output_at(vad_speech_start(), xs, i).utterance_frames
            == if last_spike(xs.take(i + 1)) < 1 { 1 } else { last_spike(xs.take(i + 1)) },
    decreases i,
{
    let r = vad_speech_start();
    if i > 0 {
        lemma_utterance_length(xs, i - 1);
        lemma_last_spike_bounds(xs.take(i - 1));
        assert(xs.take(i).drop_last() =~= xs.take(i - 1));
        assert(xs.take(i).last() == xs[i - 1]);
        assert(!vad_output_at(r, xs, i - 1).speaking_stop);
    }
    assert(xs.take(i + 1).drop_last() =~= xs.take(i));
    assert(xs.take(i + 1).last() == xs[i]);
    lemma_last_spike_bounds(xs.take(i));
    lemma_last_spike_bounds(xs.take(i + 1));
}

/// A SPEAKING_START leaves the VAD in the utterance's initial registers.
pub proof fn lemma_start_registers(regs: VadRegs, spike: bool)
    ensures
        vad_next(regs, spike).1.speaking_start ==> vad_next(regs, spike).0 == vad_speech_start(),
{
}

/// Feeding `a` then `b` is feeding `a + b`.
pub proof fn lemma_vad_after_concat(regs: VadRegs, a: Seq<bool>, b: Seq<bool>)
    ensures
        vad_after(regs, a + b) == vad_after(vad_after(regs, a), b),
    decreases b.len(),
{
    if b.len() == 0 {
        assert(a + b =~= a);
    } else {
        lemma_vad_after_concat(regs, a, b.drop_last());
        assert((a + b).drop_last() =~= a + b.drop_last());
    }
}

/// The utterance law over a run from rest: if frame `s` strobes
/// SPEAKING_START and no SPEAKING_STOP comes in frames `s+1..i`, frame `i`
/// strobes SPEAKING_STOP exactly when `HANGOVER_FRAMES` spike-free frames
/// have passed since the last spike `l` (the starting spike counts), and
/// then reports `max(1, l - s)` voiced frames.
pub proof fn lemma_utterance_in_run(xs: Seq<bool>, s: int, i: int)
    requires
        0 <= s < i < xs.len(),
        i < u32::MAX,
        vad_output_at(vad_initial(), xs, s).speaking_start,
        forall|j: int| s < j < i ==> !(#[trigger] vad_output_at(vad_initial(), xs, j)).speaking_stop,
    ensures
        ({
            let l = s + last_spike(xs.subrange(s + 1, i + 1));
            &&& vad_output_at(vad_initial(), xs, i).speaking_stop <==> i - l >= HANGOVER_FRAMES
            &&& vad_output_at(vad_initial(), xs, i).speaking_stop ==> vad_output_at(vad_initial(), xs, i).utterance_frames
                == if l - s < 1 { 1 } else { l - s }
        }),
{
    let init = vad_initial();
    let ys = xs.subrange(s + 1, xs.len() as int);
    assert(xs.take(s + 1).drop_last() =~= xs.take(s));
    assert(xs.take(s + 1).last() == xs[s]);
    lemma_start_registers(vad_after(init, xs.take(s)), xs[s]);
    assert(vad_after(init, xs.take(s + 1)) == vad_speech_start());
    assert forall|j: int| s < j < xs.len() implies #[trigger] vad_output_at(init, xs, j) == vad_output_at(
        vad_speech_start(),
        ys,
        j - s - 1,
    ) by {
        assert(xs.take(j) =~= xs.take(s + 1) + ys.take(j - s - 1));
        lemma_vad_after_concat(init, xs.take(s + 1), ys.take(j - s - 1));
        assert(ys[j - s - 1] == xs[j]);
    }
    assert forall|j: int| 0 <= j < i - s - 1 implies !(#[trigger] vad_output_at(vad_speech_start(), ys, j)).speaking_stop by {
        assert(vad_output_at(init, xs, j + s + 1) == vad_output_at(vad_speech_start(), ys, j));
    }
    assert(vad_output_at(init, xs, i) == vad_output_at(vad_speech_start(), ys, i - s - 1));
    lemma_utterance_length(ys, i - s - 1);
    assert(ys.take(i - s) =~= xs.subrange(s + 1, i + 1));
}

/// SILENCE and LONG_PAUSE strobes report how long the quiet has lasted: a
/// SILENCE strobe reports exactly `SILENCE_FRAMES` quiet frames, a
/// LONG_PAUSE strobe exactly `LONG_PAUSE_FRAMES`, the two never coincide,
/// both come only from a spike-free frame in silence, and a frame with
/// neither reports 0.
pub proof fn lemma_quiet_strobe_lengths(regs: VadRegs, spike: bool)
    ensures
        vad_next(regs, spike).1.silence ==> vad_next(regs, spike).1.silence_frames == SILENCE_FRAMES,
        vad_next(regs, spike).1.long_pause ==> vad_next(regs, spike).1.silence_frames == LONG_PAUSE_FRAMES,
        !(vad_next(regs, spike).1.silence && vad_next(regs, spike).1.long_pause),
        (vad_next(regs, spike).1.silence || vad_next(regs, spike).1.long_pause) ==> !regs.speech && !spike,
        !vad_next(regs, spike).1.silence && !vad_next(regs, spike).1.long_pause ==> vad_next(regs, spike).1.silence_frames == 0,
{
}

} // verus!
