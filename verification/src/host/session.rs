//! Shared live/demo processing path. Social analysis consumes public metadata.
//!
//! A session runs one core on the mixed input and, with separate participant
//! channels, one core per channel. Each frame's outputs — the schema events,
//! derived social events and periodic snapshots — are appended to an output
//! list that the host prints and broadcasts.
use vstd::prelude::*;

use crate::signal::{
    Engine, FrameReport, CoreRegs, FRAME_LEN, FRAME_MS, gate, gate_of, core_frame, initial_core_regs, frame_spike,
    tick_fits, ABS_GATE_MIN,
};
use crate::signal::vad::{VadRegs, vad_fits, vad_next};
use crate::signal::energy::frame_energy;
use super::analytics::{
    SessionAnalytics, Summary, AnalyticsState, absorb, absorb_one, lemma_absorb_concat, spans_fit,
    summarizes, total_ms, closed_spans,
};
use super::events::{Event, event_time, from_report, frame_ms, report_events, report_parts, lemma_report_events_at_time};
use super::social::{
    SocialSignals, SocialState, SocialSummary, initial_social, snapshot_of, lemma_overlap_within_speech,
    lemma_derived_events_at_time,
};

verus! {

/// One unit of session output, in emission order.
pub enum Output {
    /// A schema event line.
    Event(Event),
    /// A SOCIAL_SIGNALS snapshot.
    Social(SocialSummary),
    /// The SESSION_ANALYTICS summary.
    Analytics(Summary),
}

/// Events as outputs.
pub open spec fn as_outputs(events: Seq<Event>) -> Seq<Output> {
    events.map_values(|e: Event| Output::Event(e))
}

/// The mixed sample fed to the aggregate core: the mean of both channels
/// (rounded toward zero) with separate channels, the first one in mono.
pub open spec fn mix(dual: bool, samples: [i16; 2]) -> i16 {
    if dual {
        let sum = samples[0] + samples[1];
        (if sum >= 0 { sum / 2 } else { -((-sum) / 2) }) as i16
    } else {
        samples[0]
    }
}

/// A channel frame is voiced when its VAD is active and its power is above
/// the noise gate (this drops the VAD's 400 ms hangover tail).
pub open spec fn voiced(r: FrameReport) -> bool {
    r.vad_active && r.frame_power > gate_of(r.noise_floor)
}

/// Channel activity and quiet-frame count after a frame: voiced frames are
/// active, and at most two low-energy frames (40 ms) are bridged inside a turn.
pub open spec fn channel_next(r: FrameReport, active: bool, quiet: u32) -> (bool, u32) {
    let q = if voiced(r) { 0u32 } else if quiet == u32::MAX { u32::MAX } else { (quiet + 1) as u32 };
    (voiced(r) || (active && q < 3), q)
}

/// Report of a channel core for the sample that completes its frame.
pub open spec fn channel_report(e: Engine, sample: i16) -> FrameReport {
    core_frame(e.regs(), frame_energy(e.pending().push(sample))).1
}

/// The activity transition event at `t`.
pub open spec fn activity_event(t: u64, next: (bool, bool)) -> Event {
    Event::ChannelActivity { t, active_a: next.0, active_b: next.1 }
}

/// Social outputs of a two-channel frame at `t`: a transition and what the
/// tracker derives from it, or what it derives from the clock alone.
pub open spec fn social_outputs(social: SocialState, activity: (bool, bool), next: (bool, bool), t: u64) -> Seq<
    Output,
> {
    if next != activity {
        seq![Output::Event(activity_event(t, next))] + as_outputs(social.observed(activity_event(t, next)).1)
    } else {
        as_outputs(social.advanced(t).1)
    }
}

/// `after` is the core `before` after ticking `sample`.
pub open spec fn engine_stepped(before: Engine, after: Engine, sample: i16) -> bool {
    if before.pending().len() + 1 < FRAME_LEN {
        &&& after.regs() == before.regs()
        &&& after.pending() == before.pending().push(sample)
    } else {
        &&& after.regs() == core_frame(before.regs(), frame_energy(before.pending().push(sample))).0
        &&& after.pending() == Seq::<i16>::empty()
    }
}

/// Outputs that only separate channels can produce.
pub open spec fn is_channel_output(o: Output) -> bool {
    match o {
        Output::Event(e) => e is ChannelActivity || e is TurnTaken || e is OverlapDetected || e is Interruption,
        _ => false,
    }
}

/// The analytics state agrees with the mixed core after `fi` frames: at
/// most one long pause per frame, every utterance ended by now, an
/// utterance is open exactly while the VAD is in speech (opened at the
/// frame where speech started), and the utterances' summed time is within
/// the time before the open utterance (or before now).
pub open spec fn analytics_consistent(a: AnalyticsState, vad: VadRegs, fi: u64) -> bool {
    &&& a.2 <= fi
    &&& forall|i: int| 0 <= i < a.0.len() ==> #[trigger] a.0[i].0 + a.0[i].1 <= fi * FRAME_MS
    &&& (vad.speech <==> a.1 is Some)
    &&& vad.speech ==> {
        &&& vad.frames_in_state + 1 <= fi
        &&& a.1 == Some(((fi - 1 - vad.frames_in_state) * FRAME_MS) as u64)
    }
    &&& total_ms(a.0) <= match a.1 {
        Some(s) => s as int,
        None => fi * FRAME_MS,
    }
}

proof fn lemma_absorb_single(m: AnalyticsState, e: Event)
    ensures
        absorb(m, seq![e]) == absorb_one(m, e),
{
    assert(seq![e].drop_last() =~= Seq::<Event>::empty());
    assert(absorb(m, Seq::<Event>::empty()) == m);
    assert(seq![e].last() == e);
}

/// What one frame's schema events do to the analytics state.
proof fn lemma_absorb_report(m: AnalyticsState, r: FrameReport)
    requires
        !(r.speaking_start && r.speaking_stop),
    ensures
        ({
            let t = frame_ms(r.frame_index);
            let m2 = absorb(m, report_events(r));
            &&& m2.1 == (if r.speaking_start { Some(t) } else if r.speaking_stop { None } else { m.1 })
            &&& m2.0 == (if r.speaking_stop && m.1 is Some {
                m.0.push((m.1.unwrap(), (r.utterance_frames * FRAME_MS) as u64))
            } else {
                m.0
            })
            &&& m2.2 == m.2 + (if r.long_pause { 1int } else { 0int })
        }),
{
    let t = frame_ms(r.frame_index);
    let (a, b, c, d, e) = report_parts(r);
    lemma_absorb_concat(m, a, b);
    lemma_absorb_concat(m, a + b, c);
    lemma_absorb_concat(m, a + b + c, d);
    lemma_absorb_concat(m, a + b + c + d, e);
    assert(absorb(m, Seq::<Event>::empty()) == m);
    if r.speaking_start {
        lemma_absorb_single(m, Event::SpeakingStart { t });
    }
    let ma = absorb(m, a);
    if r.speaking_stop {
        lemma_absorb_single(ma, Event::SpeakingStop { t, utterance_ms: (r.utterance_frames * FRAME_MS) as u64 });
    }
    let mb = absorb(ma, b);
    if r.silence {
        lemma_absorb_single(mb, Event::Silence { t, since_ms: (r.silence_frames * FRAME_MS) as u64 });
    }
    let mc = absorb(mb, c);
    if r.long_pause {
        lemma_absorb_single(mc, Event::LongPause { t, pause_ms: (r.silence_frames * FRAME_MS) as u64 });
    }
    let md = absorb(mc, d);
    if let Some((band, avg_power)) = r.energy_band {
        lemma_absorb_single(md, Event::EnergyLevel { t, band, avg_power });
    }
}

proof fn lemma_absorb_prefix_step(m: AnalyticsState, events: Seq<Event>, i: int)
    requires
        0 <= i < events.len(),
    ensures
        absorb(m, events.take(i + 1)) == absorb_one(absorb(m, events.take(i)), events[i]),
{
    assert(events.take(i + 1).drop_last() =~= events.take(i));
}

proof fn lemma_absorb_count_mono(m: AnalyticsState, events: Seq<Event>, i: int)
    requires
        0 <= i <= events.len(),
    ensures
        absorb(m, events.take(i)).2 <= absorb(m, events).2,
    decreases events.len(),
{
    if i == events.len() {
        assert(events.take(i) =~= events);
    } else {
        lemma_absorb_count_mono(m, events.drop_last(), i);
        assert(events.drop_last().take(i) =~= events.take(i));
    }
}

/// One frame keeps the analytics consistent with the mixed core.
proof fn lemma_analytics_frame(a: AnalyticsState, regs: CoreRegs, sum_sq: u64)
    requires
        analytics_consistent(a, regs.vad, regs.frame_index),
        vad_fits(regs.vad, frame_spike(regs, sum_sq)),
        2 * (regs.frame_index + 1) * FRAME_MS <= u64::MAX,
    ensures
        !(core_frame(regs, sum_sq).1.speaking_start && core_frame(regs, sum_sq).1.speaking_stop),
        analytics_consistent(
            absorb(a, report_events(core_frame(regs, sum_sq).1)),
            core_frame(regs, sum_sq).0.vad,
            (regs.frame_index + 1) as u64,
        ),
{
    let (regs2, r) = core_frame(regs, sum_sq);
    lemma_absorb_report(a, r);
    let a2 = absorb(a, report_events(r));
    let fi = regs.frame_index;
    let fi2 = (fi + 1) as u64;
    if r.speaking_stop {
        let s = a.1.unwrap();
        assert(r.utterance_frames <= regs.vad.frames_in_state + 1);
        assert(a2.0 == a.0.push((s, (r.utterance_frames * FRAME_MS) as u64)));
        assert forall|i: int| 0 <= i < a2.0.len() implies #[trigger] a2.0[i].0 + a2.0[i].1 <= fi2 * FRAME_MS by {
            if i < a.0.len() {
                assert(a2.0[i] == a.0[i]);
            }
        }
        assert(a.0.push((s, (r.utterance_frames * FRAME_MS) as u64)).drop_last() =~= a.0);
    } else {
        assert forall|i: int| 0 <= i < a2.0.len() implies #[trigger] a2.0[i].0 + a2.0[i].1 <= fi2 * FRAME_MS by {
            assert(a2.0[i] == a.0[i]);
        }
    }
}


fn mix_sample(dual: bool, samples: [i16; 2]) -> (r: i16)
    ensures
        r == mix(dual, samples),
{
    if dual {
        let sum = samples[0] as i32 + samples[1] as i32;
        let half = if sum >= 0 { sum / 2 } else { -((-sum) / 2) };
        half as i16
    } else {
        samples[0]
    }
}

fn channel_step(r: &FrameReport, active: bool, quiet: u32) -> (next: (bool, u32))
    ensures
        next == channel_next(*r, active, quiet),
{
    let voiced = r.vad_active && r.frame_power > gate(r.noise_floor);
    let quiet = if voiced { 0 } else { quiet.saturating_add(1) };
    (voiced || (active && quiet < 3), quiet)
}

fn push_events(out: &mut Vec<Output>, events: &Vec<Event>)
    ensures
        final(out)@ == old(out)@ + as_outputs(events@),
{
    let ghost start = out@;
    let mut i: usize = 0;
    while i < events.len()
        invariant
            0 <= i <= events@.len(),
            out@ == start + as_outputs(events@.take(i as int)),
        decreases events@.len() - i,
    {
        out.push(Output::Event(events[i]));
        i = i + 1;
        assert(as_outputs(events@.take(i as int)) =~= as_outputs(events@.take(i - 1)).push(Output::Event(events@[i - 1])));
    }
    assert(events@.take(i as int) =~= events@);
}

/// The mixed sample of a two-channel session is the mean of both channels
/// rounded toward zero: twice it differs from their sum by at most 1,
/// toward zero; a mono session feeds the first channel unchanged.
pub proof fn lemma_mix_is_mean(dual: bool, samples: [i16; 2])
    ensures
        ({
            let sum = samples[0] as int + samples[1] as int;
            let m = mix(dual, samples) as int;
            &&& dual && sum >= 0 ==> 0 <= sum - 2 * m <= 1
            &&& dual && sum < 0 ==> 0 <= 2 * m - sum <= 1
            &&& !dual ==> m == samples[0]
        }),
{
}

/// Channel activity per frame: a frame is voiced when its VAD is active and
/// its power is above the noise gate (four times the noise floor,
/// saturated, and at least `ABS_GATE_MIN`); a voiced frame makes the channel
/// active and restarts the quiet count; an unvoiced frame adds one quiet
/// frame (saturating) and keeps an active channel active only through its
/// first two quiet frames, and never activates an inactive one.
pub proof fn lemma_channel_activity(r: FrameReport, active: bool, quiet: u32)
    ensures
        ({
            let g = if 4 * r.noise_floor > u32::MAX { u32::MAX as int } else { 4 * r.noise_floor };
            let gate = if g < ABS_GATE_MIN { ABS_GATE_MIN as int } else { g };
            let v = r.vad_active && r.frame_power > gate;
            let (next, q) = channel_next(r, active, quiet);
            &&& voiced(r) == v
            &&& v ==> next && q == 0
            &&& !v ==> q == (if quiet == u32::MAX { u32::MAX as int } else { quiet + 1 })
            &&& !v ==> (next == (active && q <= 2))
        }),
{
}

/// Channel activity and quiet count after a run of frame reports.
pub open spec fn channel_after(active: bool, quiet: u32, rs: Seq<FrameReport>) -> (bool, u32)
    decreases rs.len(),
{
    if rs.len() == 0 {
        (active, quiet)
    } else {
        let (a, q) = channel_after(active, quiet, rs.drop_last());
        channel_next(rs.last(), a, q)
    }
}

/// A turn bridges at most two low-energy frames (40 ms): after a voiced
/// frame, a run of `k` unvoiced frames leaves the channel active exactly
/// when `k <= 2`.
pub proof fn lemma_bridge_two_frames(rs: Seq<FrameReport>)
    requires
        forall|j: int| 0 <= j < rs.len() ==> !voiced(#[trigger] rs[j]),
    ensures
        channel_after(true, 0, rs) == (rs.len() <= 2, rs.len() as u32) || rs.len() >= u32::MAX,
        rs.len() < u32::MAX ==> (channel_after(true, 0, rs).0 <==> rs.len() <= 2),
    decreases rs.len(),
{
    if rs.len() > 0 {
        let pre = rs.drop_last();
        assert forall|j: int| 0 <= j < pre.len() implies !voiced(#[trigger] pre[j]) by {
            assert(pre[j] == rs[j]);
        }
        lemma_bridge_two_frames(pre);
        assert(!voiced(rs[rs.len() - 1]));
    }
}

/// Whether an input device with `channels` channels can serve the mode:
/// dual-channel mode needs two separate participant channels.
pub fn input_supported(dual: bool, channels: u16) -> (r: bool)
    ensures
        r == (!dual || channels >= 2),
{
    !dual || channels >= 2
}

/// Frames between periodic SOCIAL_SIGNALS snapshots (1 s).
pub const SNAPSHOT_FRAMES: u64 = 50;

pub struct Session {
    mixed: Engine,
    channel_a: Engine,
    channel_b: Engine,
    dual: bool,
    activity: (bool, bool),
    quiet_frames: (u32, u32),
    analytics: SessionAnalytics,
    social: SocialSignals,
    /// Masks of the CHANNEL_ACTIVITY lines emitted so far, in order.
    masks: Ghost<Seq<(bool, bool)>>,
}

/// The channel mask before the `i`-th CHANNEL_ACTIVITY line: the previous
/// line's mask, or both inactive before the first.
pub open spec fn mask_before(masks: Seq<(bool, bool)>, i: int) -> (bool, bool) {
    if i <= 0 { (false, false) } else { masks[i - 1] }
}

/// Each CHANNEL_ACTIVITY line changes the mask, and the current activity
/// is the last line's mask.
pub open spec fn masks_valid(masks: Seq<(bool, bool)>, activity: (bool, bool)) -> bool {
    &&& forall|i: int| 0 <= i < masks.len() ==> #[trigger] masks[i] != mask_before(masks, i)
    &&& activity == mask_before(masks, masks.len() as int)
}

impl Session {
    /// Masks of the CHANNEL_ACTIVITY lines emitted so far, in order.
    pub closed spec fn channel_masks(&self) -> Seq<(bool, bool)> {
        self.masks@
    }

    pub closed spec fn is_dual(&self) -> bool {
        self.dual
    }

    pub closed spec fn mixed(&self) -> Engine {
        self.mixed
    }

    pub closed spec fn channel_a(&self) -> Engine {
        self.channel_a
    }

    pub closed spec fn channel_b(&self) -> Engine {
        self.channel_b
    }

    pub closed spec fn activity(&self) -> (bool, bool) {
        self.activity
    }

    pub closed spec fn quiet(&self) -> (u32, u32) {
        self.quiet_frames
    }

    pub closed spec fn analytics(&self) -> SessionAnalytics {
        self.analytics
    }

    pub closed spec fn social(&self) -> SocialState {
        self.social@
    }

    /// Frames completed by the mixed core.
    pub closed spec fn frames(&self) -> u64 {
        self.mixed.regs().frame_index
    }

    pub closed spec fn wf(&self) -> bool {
        let fi = self.mixed.regs().frame_index;
        let vad = self.mixed.regs().vad;
        let a = self.analytics.state();
        &&& 2 * fi * FRAME_MS <= u64::MAX
        &&& self.mixed.wf()
        &&& self.channel_a.wf()
        &&& self.channel_b.wf()
        &&& self.dual ==> {
            &&& self.channel_a.pending().len() == self.mixed.pending().len()
            &&& self.channel_b.pending().len() == self.mixed.pending().len()
            &&& self.channel_a.regs().frame_index == fi
            &&& self.channel_b.regs().frame_index == fi
        }
        &&& self.social@.wf()
        &&& self.social@.is_available() == self.dual
        &&& self.social@.clock() <= fi * FRAME_MS
        &&& self.social@.turn_count() <= 2 * fi
        &&& self.social@.overlap_count() <= fi
        &&& self.dual ==> self.social@.activity() == self.activity
        &&& !self.dual ==> self.activity == (false, false)
        &&& analytics_consistent(a, vad, fi)
        &&& masks_valid(self.masks@, self.activity)
        &&& !self.dual ==> self.masks@.len() == 0
    }

    /// CHANNEL_ACTIVITY over a whole session: every line's mask differs
    /// from the one before it (both inactive before the first), the current
    /// activity is the last mask, and a mono session emits none.
    pub proof fn lemma_channel_masks(&self)
        requires
            self.wf(),
        ensures
            masks_valid(self.channel_masks(), self.activity()),
            !self.is_dual() ==> self.channel_masks().len() == 0,
    {
    }

    /// A well-formed session's mixed core holds less than one frame.
    pub proof fn lemma_pending_bound(&self)
        requires
            self.wf(),
        ensures
            self.mixed().pending().len() < FRAME_LEN,
    {
        self.mixed.lemma_pending_bound();
    }

    /// Whether `samples` can be taken: every core in use can take its
    /// sample, and when the mixed core completes a frame the session clock
    /// has room for it and, if the frame strobes LONG_PAUSE, so does the
    /// long-pause counter.
    pub closed spec fn tick_ready(&self, samples: [i16; 2]) -> bool {
        let m = mix(self.dual, samples);
        &&& tick_fits(self.mixed.regs(), self.mixed.pending(), m)
        &&& self.dual ==> {
            &&& tick_fits(self.channel_a.regs(), self.channel_a.pending(), samples[0])
            &&& tick_fits(self.channel_b.regs(), self.channel_b.pending(), samples[1])
        }
        &&& self.mixed.pending().len() + 1 >= FRAME_LEN ==> {
            &&& 2 * (self.mixed.regs().frame_index + 1) * FRAME_MS <= u64::MAX
            &&& vad_next(
                self.mixed.regs().vad,
                frame_spike(self.mixed.regs(), frame_energy(self.mixed.pending().push(m))),
            ).1.long_pause ==> self.analytics.long_pause_count() < u32::MAX
        }
    }

    /// Whether `tick` can take `samples` without a counter overflowing.
    pub fn can_tick(&self, samples: [i16; 2]) -> (r: bool)
        requires
            self.wf(),
        ensures
            r == self.tick_ready(samples),
    {
        proof {
            self.mixed.lemma_pending_bound();
        }
        let m = mix_sample(self.dual, samples);
        if !self.mixed.can_tick(m) {
            return false;
        }
        if self.dual && !(self.channel_a.can_tick(samples[0]) && self.channel_b.can_tick(samples[1])) {
            return false;
        }
        match self.mixed.pending_spike(m) {
            None => true,
            Some(_) => {
                let frames = self.mixed.frames_processed();
                assert((frames < u64::MAX / 40) == (2 * (frames + 1) * 20 <= u64::MAX)) by (nonlinear_arith);
                frames < u64::MAX / 40 && (!self.mixed.long_pause_next(m) || self.analytics.long_pauses() < u32::MAX)
            },
        }
    }

    pub fn new(dual: bool) -> (r: Self)
        ensures
            r.wf(),
            r.is_dual() == dual,
            r.frames() == 0,
            r.mixed().regs() == initial_core_regs(),
            r.mixed().pending() == Seq::<i16>::empty(),
            r.channel_a().regs() == initial_core_regs(),
            r.channel_a().pending() == Seq::<i16>::empty(),
            r.channel_b().regs() == initial_core_regs(),
            r.channel_b().pending() == Seq::<i16>::empty(),
            r.activity() == (false, false),
            r.quiet() == (0u32, 0u32),
            r.analytics().state() == (Seq::<(u64, u64)>::empty(), None::<u64>, 0int, Seq::<(u64, u32)>::empty()),
            r.social() == initial_social(dual),
            r.channel_masks() == Seq::<(bool, bool)>::empty(),
    {
        Self {
            mixed: Engine::new(),
            channel_a: Engine::new(),
            channel_b: Engine::new(),
            dual,
            activity: (false, false),
            quiet_frames: (0, 0),
            analytics: SessionAnalytics::new(),
            social: SocialSignals::new(dual),
            masks: Ghost(Seq::empty()),
        }
    }

    /// Frames completed by the mixed core.
    pub fn frames_processed(&self) -> (r: u64)
        ensures
            r == self.frames(),
    {
        self.mixed.frames_processed()
    }

    /// Process one pair of 16 kHz samples (the second is ignored in mono).
    /// On each frame boundary this appends the frame's outputs to `out` and
    /// returns the mixed core's report.
    #[verifier::rlimit(50)]
    #[verifier::spinoff_prover]
    pub fn tick(&mut self, samples: [i16; 2], out: &mut Vec<Output>) -> (r: Option<FrameReport>)
        requires
            old(self).wf(),
            old(self).tick_ready(samples),
        ensures
            final(self).wf(),
            final(self).is_dual() == old(self).is_dual(),
            r is None <==> old(self).mixed().pending().len() + 1 < FRAME_LEN,
            r is None ==> final(out)@ == old(out)@,
            old(self).mixed().pending().len() + 1 < FRAME_LEN ==> r is None && final(out)@ == old(out)@
                && final(self).frames() == old(self).frames(),
            old(self).mixed().pending().len() + 1 == FRAME_LEN ==> r == Some(
                channel_report(old(self).mixed(), mix(old(self).is_dual(), samples)),
            ) && final(self).frames() == old(self).frames() + 1,
            r matches Some(rep) ==> ({
                let t = frame_ms(rep.frame_index);
                let (na, _) = channel_next(
                    channel_report(old(self).channel_a(), samples[0]),
                    old(self).activity().0,
                    old(self).quiet().0,
                );
                let (nb, _) = channel_next(
                    channel_report(old(self).channel_b(), samples[1]),
                    old(self).activity().1,
                    old(self).quiet().1,
                );
                let social_part = if old(self).is_dual() {
                    social_outputs(old(self).social(), old(self).activity(), (na, nb), t)
                } else {
                    Seq::<Output>::empty()
                };
                let base = old(out)@ + as_outputs(report_events(rep)) + social_part;
                if (rep.frame_index + 1) % (SNAPSHOT_FRAMES as int) == 0 {
                    &&& final(out)@.len() == base.len() + 1
                    &&& final(out)@.take(base.len() as int) == base
                    &&& final(out)@.last() matches Output::Social(s) && snapshot_of(s, final(self).social(), t, false)
                } else {
                    final(out)@ == base
                }
            }),
            !old(self).is_dual() ==> forall|k: int|
                old(out)@.len() <= k < final(out)@.len() ==> !is_channel_output(#[trigger] final(out)@[k]),
            // The cores: the mixed one always, the channel ones with separate channels.
            engine_stepped(old(self).mixed(), final(self).mixed(), mix(old(self).is_dual(), samples)),
            old(self).is_dual() ==> engine_stepped(old(self).channel_a(), final(self).channel_a(), samples[0])
                && engine_stepped(old(self).channel_b(), final(self).channel_b(), samples[1]),
            !old(self).is_dual() ==> final(self).channel_a() == old(self).channel_a()
                && final(self).channel_b() == old(self).channel_b(),
            // Analytics, activity and social state change only on a frame.
            r is None ==> final(self).analytics().state() == old(self).analytics().state()
                && final(self).activity() == old(self).activity() && final(self).quiet() == old(self).quiet()
                && final(self).social() == old(self).social() && final(self).channel_masks() == old(self).channel_masks(),
            r matches Some(rep) ==> ({
                let t = frame_ms(rep.frame_index);
                let (na, qa) = channel_next(
                    channel_report(old(self).channel_a(), samples[0]),
                    old(self).activity().0,
                    old(self).quiet().0,
                );
                let (nb, qb) = channel_next(
                    channel_report(old(self).channel_b(), samples[1]),
                    old(self).activity().1,
                    old(self).quiet().1,
                );
                &&& final(self).analytics().state() == absorb(old(self).analytics().state(), report_events(rep))
                &&& old(self).is_dual() ==> {
                    &&& final(self).quiet() == (qa, qb)
                    &&& final(self).activity() == (na, nb)
                    &&& final(self).channel_masks() == if (na, nb) != old(self).activity() {
                        old(self).channel_masks().push((na, nb))
                    } else {
                        old(self).channel_masks()
                    }
                    &&& final(self).social() == if (na, nb) != old(self).activity() {
                        old(self).social().observed(activity_event(t, (na, nb))).0
                    } else {
                        old(self).social().advanced(t).0
                    }
                }
                &&& !old(self).is_dual() ==> final(self).activity() == old(self).activity() && final(self).quiet()
                    == old(self).quiet() && final(self).social() == old(self).social()
                    && final(self).channel_masks() == old(self).channel_masks()
            }),
    {
        let ghost old_out = out@;
        let ghost old_self = *self;
        proof {
            self.mixed.lemma_pending_bound();
            self.channel_a.lemma_pending_bound();
            self.channel_b.lemma_pending_bound();
        }
        let (report_a, report_b) = if self.dual {
            (self.channel_a.tick(samples[0]), self.channel_b.tick(samples[1]))
        } else {
            (None, None)
        };
        let mixed = mix_sample(self.dual, samples);
        let report = match self.mixed.tick(mixed) {
            Some(report) => report,
            None => {
                assert(self.mixed.regs() == old_self.mixed.regs());
                assert(self.analytics == old_self.analytics);
                assert(self.social == old_self.social);
                assert(self.dual ==> self.channel_a.regs() == old_self.channel_a.regs());
                assert(self.dual ==> self.channel_b.regs() == old_self.channel_b.regs());
                return None;
            },
        };
        let ghost a0 = old_self.analytics.state();
        let ghost mid_self = *self;
        proof {
            lemma_analytics_frame(a0, old_self.mixed.regs(), frame_energy(old_self.mixed.pending().push(mixed)));
            lemma_absorb_report(a0, report);
        }
        let events = from_report(&report);
        let mut i: usize = 0;
        while i < events.len()
            invariant
                events@ == report_events(report),
                0 <= i <= events@.len(),
                self.analytics.state() == absorb(a0, events@.take(i as int)),
                absorb(a0, events@).2 <= u32::MAX,
                out@ == old_out + as_outputs(events@.take(i as int)),
                self.mixed == mid_self.mixed,
                self.channel_a == mid_self.channel_a,
                self.channel_b == mid_self.channel_b,
                self.dual == mid_self.dual,
                self.activity == mid_self.activity,
                self.quiet_frames == mid_self.quiet_frames,
                self.social == mid_self.social,
                self.masks == mid_self.masks,
            decreases events@.len() - i,
        {
            let event = events[i];
            proof {
                lemma_absorb_prefix_step(a0, events@, i as int);
                lemma_absorb_count_mono(a0, events@, i + 1);
            }
            self.analytics.observe(&event);
            out.push(Output::Event(event));
            i = i + 1;
            assert(as_outputs(events@.take(i as int)) =~= as_outputs(events@.take(i - 1)).push(Output::Event(event)));
        }
        assert(events@.take(i as int) =~= events@);
        let ghost after_events = out@;
        let t = report.frame_index * FRAME_MS as u64;
        if self.dual {
            let ra = report_a.expect("channel frames stay synchronized");
            let rb = report_b.expect("channel frames stay synchronized");
            // Remove the mixed VAD's 400 ms tail from overlap measurement.
            // Bridge at most two low-energy frames (40 ms) inside a turn.
            let (next_a, quiet_a) = channel_step(&ra, self.activity.0, self.quiet_frames.0);
            let (next_b, quiet_b) = channel_step(&rb, self.activity.1, self.quiet_frames.1);
            self.quiet_frames = (quiet_a, quiet_b);
            let next = (next_a, next_b);
            if next_a != self.activity.0 || next_b != self.activity.1 {
                let event = Event::ChannelActivity { t, active_a: next_a, active_b: next_b };
                out.push(Output::Event(event));
                let derived = self.social.observe(&event);
                push_events(out, &derived);
                proof {
                    let m = self.masks@;
                    let m2 = m.push(next);
                    assert forall|i: int| 0 <= i < m2.len() implies #[trigger] m2[i] != mask_before(m2, i) by {
                        if i < m.len() {
                            assert(m2[i] == m[i]);
                            assert(mask_before(m2, i) == mask_before(m, i));
                        }
                    }
                }
                self.masks = Ghost(self.masks@.push(next));
                self.activity = next;
            } else {
                let derived = self.social.advance(t);
                push_events(out, &derived);
            }
        }
        proof {
            lemma_overlap_within_speech(self.social@);
        }
        if (report.frame_index + 1) % SNAPSHOT_FRAMES == 0 {
            out.push(Output::Social(self.social.snapshot(t, false)));
        }
        Some(report)
    }

    /// End the session: close open channel activity, then append the final
    /// SESSION_ANALYTICS, SOCIAL_SIGNALS, PRIVACY_SUMMARY and SESSION_END
    /// outputs. Returns the analytics summary and the final social snapshot.
    pub fn finish(self, samples_discarded: u64, out: &mut Vec<Output>) -> (r: (Summary, SocialSummary))
        requires
            self.wf(),
        ensures
            ({
                let t = (self.frames() * FRAME_MS) as u64;
                let end = activity_event(t, (false, false));
                let closing = if self.is_dual() && self.activity() != (false, false) {
                    seq![Output::Event(end)]
                } else {
                    Seq::<Output>::empty()
                };
                let base = old(out)@ + closing + as_outputs(self.social().observed(end).1);
                &&& summarizes(r.0, self.analytics(), t)
                &&& r.0.speech_ms <= t
                &&& snapshot_of(r.1, self.social().observed(end).0, t, true)
                &&& final(out)@.len() == base.len() + 4
                &&& final(out)@.take(base.len() as int) == base
                &&& final(out)@[base.len() as int] matches Output::Analytics(s) && summarizes(s, self.analytics(), t)
                &&& final(out)@[base.len() + 1int] == Output::Social(r.1)
                &&& final(out)@[base.len() + 2int] == Output::Event(
                    Event::PrivacySummary { t, frames_processed: self.frames(), audio_samples_discarded: samples_discarded },
                )
                &&& final(out)@[base.len() + 3int] == Output::Event(Event::SessionEnd { t })
            }),
    {
        let ghost old_out = out@;
        let frames = self.mixed.frames_processed();
        let t = frames * FRAME_MS as u64;
        let Session { analytics, social, dual, activity, .. } = self;
        let mut social = social;
        // The closing transition is public, so downstream consumers can also
        // close any turns still open at shutdown.
        if dual && (activity.0 || activity.1) {
            out.push(Output::Event(Event::ChannelActivity { t, active_a: false, active_b: false }));
        }
        let ended = social.finish(t);
        push_events(out, &ended);
        let ghost base = out@;
        proof {
            let a = analytics.state();
            if let Some(s) = a.1 {
                assert(a.0.push((s, (t - s) as u64)).drop_last() =~= a.0);
            }
        }
        let summary = analytics.finalize(t);
        proof {
            lemma_overlap_within_speech(social@);
        }
        let snapshot = social.snapshot(t, true);
        out.push(Output::Analytics(summary.copy()));
        out.push(Output::Social(snapshot));
        out.push(Output::Event(Event::PrivacySummary { t, frames_processed: frames, audio_samples_discarded: samples_discarded }));
        out.push(Output::Event(Event::SessionEnd { t }));
        assert(out@.take(base.len() as int) =~= base);
        (summary, snapshot)
    }
}

/// The time field of an output line.
pub open spec fn output_time(o: Output) -> u64 {
    match o {
        Output::Event(e) => event_time(e),
        Output::Social(s) => s.t,
        Output::Analytics(s) => s.duration_ms,
    }
}

/// Monotonic time: every line a frame produces — its schema events, the
/// channel transition and what the social tracker derives from it or from
/// the clock — carries that frame's time, 20 ms per frame index. The
/// session's frame indices count up one per frame, so times never decrease.
pub proof fn lemma_frame_outputs_at_frame_time(
    r: FrameReport,
    social: SocialState,
    activity: (bool, bool),
    next: (bool, bool),
)
    ensures
        ({
            let t = frame_ms(r.frame_index);
            let outs = as_outputs(report_events(r)) + social_outputs(social, activity, next, t);
            forall|k: int| 0 <= k < outs.len() ==> output_time(#[trigger] outs[k]) == t
        }),
{
    let t = frame_ms(r.frame_index);
    let evs = report_events(r);
    lemma_report_events_at_time(r);
    lemma_derived_events_at_time(social, t, next);
    let sp = social_outputs(social, activity, next, t);
    assert forall|k: int| 0 <= k < sp.len() implies output_time(#[trigger] sp[k]) == t by {
        if next != activity {
            let derived = social.observed(activity_event(t, next)).1;
            assert(derived == social.transitioned(t, next).1 || derived == Seq::<Event>::empty());
            if k >= 1 {
                assert(sp[k] == as_outputs(derived)[k - 1]);
                assert(as_outputs(derived)[k - 1] == Output::Event(derived[k - 1]));
            }
        } else {
            assert(sp[k] == Output::Event(social.advanced(t).1[k]));
        }
    }
    let outs = as_outputs(evs) + sp;
    assert forall|k: int| 0 <= k < outs.len() implies output_time(#[trigger] outs[k]) == t by {
        if k < evs.len() {
            assert(outs[k] == Output::Event(evs[k]));
        } else {
            assert(outs[k] == sp[k - evs.len()]);
        }
    }
}

} // verus!
