//! Session analytics — the app-side layer (this runs on the phone in the
//! product). It consumes ONLY schema events, never frame reports, so every
//! number here is derivable from the privacy-safe metadata contract.
//!
//! Definitions (kept in the event schema):
//!   - utterance: one continuous stretch of voiced activity, any speaker
//!   - energy trend: mean dBFS of the second half vs the first half, ±2 dB
//!   - momentum: speech density of the second half vs the first half, ±0.10
//!
//! The energy average and trend are floating-point means of dBFS values;
//! the summary hands over the session's energy levels for them.
use vstd::prelude::*;

use super::events::Event;
use super::ratio::Ratio;
use super::json::{decimal, push_decimal};

verus! {

/// `a - b`, or 0 when `b > a`.
pub open spec fn sat_sub(a: u64, b: u64) -> u64 {
    if a >= b { (a - b) as u64 } else { 0 }
}

pub open spec fn max_int(a: int, b: int) -> int {
    if a >= b { a } else { b }
}

pub open spec fn min_int(a: int, b: int) -> int {
    if a <= b { a } else { b }
}

/// Closed utterances plus the one still open at `duration` (if any).
pub open spec fn closed_spans(spans: Seq<(u64, u64)>, since: Option<u64>, duration: u64) -> Seq<(u64, u64)> {
    match since {
        Some(start) => spans.push((start, sat_sub(duration, start))),
        None => spans,
    }
}

/// Summed duration of the utterances.
pub open spec fn total_ms(spans: Seq<(u64, u64)>) -> int
    decreases spans.len(),
{
    if spans.len() == 0 {
        0
    } else {
        total_ms(spans.drop_last()) + spans.last().1
    }
}

/// Scanning the utterances in order: (end of the latest utterance so far,
/// longest gap before an utterance so far).
pub open spec fn lull_scan(spans: Seq<(u64, u64)>) -> (int, int)
    decreases spans.len(),
{
    if spans.len() == 0 {
        (0, 0)
    } else {
        let (cursor, lull) = lull_scan(spans.drop_last());
        let (start, dur) = spans.last();
        (max_int(cursor, start + dur), max_int(lull, max_int(start - cursor, 0)))
    }
}

/// Longest lull: biggest gap between utterances, including the gaps before
/// the first one and after the last one.
pub open spec fn longest_lull(spans: Seq<(u64, u64)>, duration: u64) -> int {
    let (cursor, lull) = lull_scan(spans);
    max_int(lull, max_int(duration - cursor, 0))
}

/// Overlap in ms between an utterance and the window `[a, b)`.
pub open spec fn span_overlap(span: (u64, u64), a: int, b: int) -> int {
    max_int(min_int(span.0 + span.1, b) - max_int(span.0 as int, a), 0)
}

/// Speech time of the utterances inside the window `[a, b)`.
pub open spec fn window_ms(spans: Seq<(u64, u64)>, a: int, b: int) -> int
    decreases spans.len(),
{
    if spans.len() == 0 {
        0
    } else {
        window_ms(spans.drop_last(), a, b) + span_overlap(spans.last(), a, b)
    }
}

/// Momentum: speech density of the second half vs the first half, beyond
/// ±0.10 of the half length. The test is made on exact integers; it agrees
/// with the floating-point comparison of `(second - first) / mid` against
/// ±0.10 for every half length below 10^15 ms.
pub open spec fn momentum_of(first: int, second: int, mid: int) -> &'static str {
    if mid == 0 {
        "STEADY"
    } else if 10 * (second - first) > mid {
        "GAINING"
    } else if 10 * (first - second) > mid {
        "FADING"
    } else {
        "STEADY"
    }
}

/// Every utterance ends within `u64`.
pub open spec fn spans_fit(spans: Seq<(u64, u64)>) -> bool {
    forall|i: int| 0 <= i < spans.len() ==> #[trigger] spans[i].0 + spans[i].1 <= u64::MAX
}

/// Utterances after observing an event; an open utterance closes on SPEAKING_STOP.
pub open spec fn spans_after(spans: Seq<(u64, u64)>, since: Option<u64>, e: Event) -> Seq<(u64, u64)> {
    match e {
        Event::SpeakingStop { utterance_ms, .. } => match since {
            Some(start) => spans.push((start, utterance_ms)),
            None => spans,
        },
        _ => spans,
    }
}

/// Start of the open utterance after observing an event.
pub open spec fn since_after(since: Option<u64>, e: Event) -> Option<u64> {
    match e {
        Event::SpeakingStart { t } => Some(t),
        Event::SpeakingStop { .. } => None,
        _ => since,
    }
}

/// ENERGY_LEVEL readings (time, average frame power) after observing an event.
pub open spec fn energy_after(energy: Seq<(u64, u32)>, e: Event) -> Seq<(u64, u32)> {
    match e {
        Event::EnergyLevel { t, avg_power, .. } => energy.push((t, avg_power)),
        _ => energy,
    }
}

/// `r` is the summary of the session `a` at `duration` ms.
pub open spec fn summarizes(r: Summary, a: SessionAnalytics, duration_ms: u64) -> bool {
    let spans = closed_spans(a.spans(), a.speaking_since(), duration_ms);
    let mid = duration_ms / 2;
    &&& r.duration_ms == duration_ms
    &&& r.speech_ms == total_ms(spans)
    &&& r.utterances == spans.len() as u32
    &&& r.longest_lull_ms == longest_lull(spans, duration_ms)
    &&& r.long_pauses == a.long_pause_count()
    &&& r.momentum == momentum_of(
        window_ms(spans, 0, mid as int),
        window_ms(spans, mid as int, duration_ms as int),
        mid as int,
    )
    &&& r.energy@ == a.energy()
    &&& duration_ms > 0 ==> r.speech_ratio == (Ratio { num: r.speech_ms, den: duration_ms })
        && r.utterances_per_min == (Ratio { num: (r.utterances * 60_000) as u64, den: duration_ms })
    &&& duration_ms == 0 ==> r.speech_ratio == (Ratio { num: 0, den: 1 }) && r.utterances_per_min == (Ratio {
        num: 0,
        den: 1,
    })
}

/// Analytics state: (utterances, open utterance start, long pauses, energy readings).
pub type AnalyticsState = (Seq<(u64, u64)>, Option<u64>, int, Seq<(u64, u32)>);

/// Analytics state after observing one event.
pub open spec fn absorb_one(m: AnalyticsState, e: Event) -> AnalyticsState {
    (spans_after(m.0, m.1, e), since_after(m.1, e), m.2 + (if e is LongPause { 1int } else { 0int }), energy_after(m.3, e))
}

/// Analytics state after observing a run of events in order.
pub open spec fn absorb(m: AnalyticsState, events: Seq<Event>) -> AnalyticsState
    decreases events.len(),
{
    if events.len() == 0 {
        m
    } else {
        absorb_one(absorb(m, events.drop_last()), events.last())
    }
}

/// Observing `a` then `b` is observing `a + b`.
pub proof fn lemma_absorb_concat(m: AnalyticsState, a: Seq<Event>, b: Seq<Event>)
    ensures
        absorb(m, a + b) == absorb(absorb(m, a), b),
    decreases b.len(),
{
    if b.len() == 0 {
        assert(a + b =~= a);
    } else {
        lemma_absorb_concat(m, a, b.drop_last());
        assert((a + b).drop_last() =~= a + b.drop_last());
    }
}

pub struct SessionAnalytics {
    /// Closed utterances as (start_t_ms, duration_ms).
    spans: Vec<(u64, u64)>,
    speaking_since: Option<u64>,
    long_pauses: u32,
    /// (t_ms, average frame power) from ENERGY_LEVEL events.
    energy: Vec<(u64, u32)>,
}

/// Integer session summary. `speech_ratio` and `utterances_per_min` are
/// exact ratios; `energy` holds the ENERGY_LEVEL readings from which the
/// dBFS average and trend are computed.
pub struct Summary {
    pub duration_ms: u64,
    pub speech_ms: u64,
    pub speech_ratio: Ratio,
    pub utterances: u32,
    pub utterances_per_min: Ratio,
    pub longest_lull_ms: u64,
    pub long_pauses: u32,
    pub momentum: &'static str,
    pub energy: Vec<(u64, u32)>,
}

impl SessionAnalytics {
    /// The analytics state.
    pub open spec fn state(&self) -> AnalyticsState {
        (self.spans(), self.speaking_since(), self.long_pause_count() as int, self.energy())
    }

    pub closed spec fn spans(&self) -> Seq<(u64, u64)> {
        self.spans@
    }

    pub closed spec fn speaking_since(&self) -> Option<u64> {
        self.speaking_since
    }

    pub closed spec fn long_pause_count(&self) -> u32 {
        self.long_pauses
    }

    pub closed spec fn energy(&self) -> Seq<(u64, u32)> {
        self.energy@
    }

    pub fn new() -> (r: Self)
        ensures
            r.spans() == Seq::<(u64, u64)>::empty(),
            r.speaking_since() is None,
            r.long_pause_count() == 0,
            r.energy() == Seq::<(u64, u32)>::empty(),
    {
        Self { spans: Vec::new(), speaking_since: None, long_pauses: 0, energy: Vec::new() }
    }

    /// LONG_PAUSE events seen so far.
    pub fn long_pauses(&self) -> (r: u32)
        ensures
            r == self.long_pause_count(),
    {
        self.long_pauses
    }

    pub fn observe(&mut self, event: &Event)
        requires
            event is LongPause ==> old(self).long_pause_count() < u32::MAX,
        ensures
            final(self).spans() == spans_after(old(self).spans(), old(self).speaking_since(), *event),
            final(self).speaking_since() == since_after(old(self).speaking_since(), *event),
            final(self).long_pause_count() == old(self).long_pause_count() + (if event is LongPause { 1int } else { 0int }),
            final(self).energy() == energy_after(old(self).energy(), *event),
    {
        match *event {
            Event::SpeakingStart { t } => self.speaking_since = Some(t),
            Event::SpeakingStop { utterance_ms, .. } => {
                if let Some(start) = self.speaking_since.take() {
                    self.spans.push((start, utterance_ms));
                }
            },
            Event::LongPause { .. } => self.long_pauses = self.long_pauses + 1,
            Event::EnergyLevel { t, avg_power, .. } => self.energy.push((t, avg_power)),
            _ => {},
        }
    }

    pub fn finalize(self, duration_ms: u64) -> (r: Summary)
        requires
            spans_fit(self.spans()),
            total_ms(closed_spans(self.spans(), self.speaking_since(), duration_ms)) <= u64::MAX,
        ensures
            summarizes(r, self, duration_ms),
    {
        let ghost spans = closed_spans(self.spans@, self.speaking_since, duration_ms);
        let long_pauses = self.long_pauses;
        let energy = self.energy;
        let mut closed = self.spans;
        // Close an utterance still open when the session ends.
        if let Some(start) = self.speaking_since {
            let dur = if duration_ms >= start { duration_ms - start } else { 0 };
            closed.push((start, dur));
        }
        assert(closed@ == spans);
        assert(spans_fit(spans));

        let mid = duration_ms / 2;
        let n = closed.len();
        let mut speech_ms: u64 = 0;
        let mut cursor: u64 = 0;
        let mut lull: u64 = 0;
        let mut first: u64 = 0;
        let mut second: u64 = 0;
        let mut i: usize = 0;
        while i < n
            invariant
                n == closed@.len(),
                closed@ == spans,
                spans_fit(spans),
                total_ms(spans) <= u64::MAX,
                mid == duration_ms / 2,
                i <= n,
                speech_ms == total_ms(spans.take(i as int)),
                (cursor as int, lull as int) == lull_scan(spans.take(i as int)),
                first == window_ms(spans.take(i as int), 0, mid as int),
                second == window_ms(spans.take(i as int), mid as int, duration_ms as int),
            decreases n - i,
        {
            let (start, dur) = closed[i];
            proof {
                let pre = spans.take(i as int);
                let next = spans.take(i + 1);
                assert(next.drop_last() =~= pre);
                assert(next.last() == spans[i as int]);
                lemma_total_prefix(spans, i as int + 1);
                lemma_window_within_total(next, 0, mid as int);
                lemma_window_within_total(next, mid as int, duration_ms as int);
                lemma_lull_scan_bounded(next);
            }
            speech_ms = speech_ms + dur;
            if start > cursor && start - cursor > lull {
                lull = start - cursor;
            }
            if start + dur > cursor {
                cursor = start + dur;
            }
            first = first + overlap((start, dur), 0, mid);
            second = second + overlap((start, dur), mid, duration_ms);
            i = i + 1;
        }
        assert(spans.take(n as int) =~= spans);
        if duration_ms > cursor && duration_ms - cursor > lull {
            lull = duration_ms - cursor;
        }
        let momentum = if mid == 0 {
            "STEADY"
        } else if second as u128 * 10 > first as u128 * 10 + mid as u128 {
            "GAINING"
        } else if first as u128 * 10 > second as u128 * 10 + mid as u128 {
            "FADING"
        } else {
            "STEADY"
        };
        let utterances = n as u32;
        let (speech_ratio, utterances_per_min) = if duration_ms > 0 {
            (
                Ratio { num: speech_ms, den: duration_ms },
                Ratio { num: utterances as u64 * 60_000, den: duration_ms },
            )
        } else {
            (Ratio { num: 0, den: 1 }, Ratio { num: 0, den: 1 })
        };
        Summary {
            duration_ms,
            speech_ms,
            speech_ratio,
            utterances,
            utterances_per_min,
            longest_lull_ms: lull,
            long_pauses,
            momentum,
            energy,
        }
    }
}

/// The SESSION_ANALYTICS line, with the given texts printed as its
/// speech ratio, pace, average dBFS and energy trend.
pub open spec fn analytics_json(
    s: Summary,
    speech_ratio: Seq<char>,
    utterances_per_min: Seq<char>,
    avg_dbfs: Seq<char>,
    energy_trend: Seq<char>,
) -> Seq<char> {
    "{\"t\":"@ + decimal(s.duration_ms as nat) + ",\"event\":\"SESSION_ANALYTICS\",\"duration_ms\":"@ + decimal(
        s.duration_ms as nat,
    ) + ",\"speech_ms\":"@ + decimal(s.speech_ms as nat) + ",\"speech_ratio\":"@ + speech_ratio
        + ",\"utterances\":"@ + decimal(s.utterances as nat) + ",\"utterances_per_min\":"@ + utterances_per_min
        + ",\"longest_lull_ms\":"@ + decimal(s.longest_lull_ms as nat) + ",\"long_pauses\":"@ + decimal(
        s.long_pauses as nat,
    ) + ",\"avg_dbfs\":"@ + avg_dbfs + ",\"energy_trend\":\""@ + energy_trend + "\",\"momentum\":\""@
        + s.momentum@ + "\"}"@
}

impl Summary {
    /// The SESSION_ANALYTICS line. Its speech ratio, pace and average dBFS
    /// are floating-point values and its energy trend is decided on them;
    /// they are printed by the host and passed in as text.
    pub fn to_json_with(
        &self,
        speech_ratio: &str,
        utterances_per_min: &str,
        avg_dbfs: &str,
        energy_trend: &str,
    ) -> (r: String)
        ensures
            r@ == analytics_json(*self, speech_ratio@, utterances_per_min@, avg_dbfs@, energy_trend@),
    {
        let mut s = String::new();
        s.append("{\"t\":");
        push_decimal(&mut s, self.duration_ms);
        s.append(",\"event\":\"SESSION_ANALYTICS\",\"duration_ms\":");
        push_decimal(&mut s, self.duration_ms);
        s.append(",\"speech_ms\":");
        push_decimal(&mut s, self.speech_ms);
        s.append(",\"speech_ratio\":");
        s.append(speech_ratio);
        s.append(",\"utterances\":");
        push_decimal(&mut s, self.utterances as u64);
        s.append(",\"utterances_per_min\":");
        s.append(utterances_per_min);
        s.append(",\"longest_lull_ms\":");
        push_decimal(&mut s, self.longest_lull_ms);
        s.append(",\"long_pauses\":");
        push_decimal(&mut s, self.long_pauses as u64);
        s.append(",\"avg_dbfs\":");
        s.append(avg_dbfs);
        s.append(",\"energy_trend\":\"");
        s.append(energy_trend);
        s.append("\",\"momentum\":\"");
        s.append(self.momentum);
        s.append("\"}");
        assert(s@ =~= analytics_json(*self, speech_ratio@, utterances_per_min@, avg_dbfs@, energy_trend@));
        s
    }

    /// A field-by-field copy.
    pub fn copy(&self) -> (r: Summary)
        ensures
            r.duration_ms == self.duration_ms,
            r.speech_ms == self.speech_ms,
            r.speech_ratio == self.speech_ratio,
            r.utterances == self.utterances,
            r.utterances_per_min == self.utterances_per_min,
            r.longest_lull_ms == self.longest_lull_ms,
            r.long_pauses == self.long_pauses,
            r.momentum == self.momentum,
            r.energy@ == self.energy@,
    {
        let mut energy = Vec::new();
        let mut i: usize = 0;
        while i < self.energy.len()
            invariant
                i <= self.energy@.len(),
                energy@ == self.energy@.take(i as int),
            decreases self.energy@.len() - i,
        {
            energy.push(self.energy[i]);
            i = i + 1;
            assert(energy@ =~= self.energy@.take(i as int));
        }
        assert(self.energy@.take(i as int) =~= self.energy@);
        Summary {
            duration_ms: self.duration_ms,
            speech_ms: self.speech_ms,
            speech_ratio: self.speech_ratio,
            utterances: self.utterances,
            utterances_per_min: self.utterances_per_min,
            longest_lull_ms: self.longest_lull_ms,
            long_pauses: self.long_pauses,
            momentum: self.momentum,
            energy,
        }
    }
}

/// Overlap in ms between a span and the window [a, b).
fn overlap(span: (u64, u64), a: u64, b: u64) -> (r: u64)
    requires
        span.0 + span.1 <= u64::MAX,
    ensures
        r == span_overlap(span, a as int, b as int),
        r <= span.1,
{
    let (start, dur) = span;
    let end = start + dur;
    let hi = if end < b { end } else { b };
    let lo = if start > a { start } else { a };
    if hi > lo { hi - lo } else { 0 }
}

proof fn lemma_total_prefix(spans: Seq<(u64, u64)>, i: int)
    requires
        0 <= i <= spans.len(),
    ensures
        0 <= total_ms(spans.take(i)) <= total_ms(spans),
    decreases spans.len(),
{
    if spans.len() > 0 {
        if i == spans.len() {
            assert(spans.take(i) =~= spans);
            lemma_total_prefix(spans.drop_last(), i - 1);
            assert(spans.drop_last().take(i - 1) =~= spans.drop_last());
        } else {
            lemma_total_prefix(spans.drop_last(), i);
            assert(spans.drop_last().take(i) =~= spans.take(i));
        }
    }
}

proof fn lemma_window_within_total(spans: Seq<(u64, u64)>, a: int, b: int)
    ensures
        0 <= window_ms(spans, a, b) <= total_ms(spans),
    decreases spans.len(),
{
    if spans.len() > 0 {
        lemma_window_within_total(spans.drop_last(), a, b);
    }
}

proof fn lemma_lull_scan_bounded(spans: Seq<(u64, u64)>)
    requires
        spans_fit(spans),
    ensures
        0 <= lull_scan(spans).0 <= u64::MAX,
        0 <= lull_scan(spans).1 <= u64::MAX,
    decreases spans.len(),
{
    if spans.len() > 0 {
        let pre = spans.drop_last();
        assert forall|i: int| 0 <= i < pre.len() implies #[trigger] pre[i].0 + pre[i].1 <= u64::MAX by {
            assert(pre[i] == spans[i]);
        }
        lemma_lull_scan_bounded(pre);
        assert(spans.last() == spans[spans.len() - 1]);
    }
}

/// The overlap of an utterance with a window is the length of their
/// intersection: at most the utterance's duration and the window's length,
/// the whole duration when the window contains the utterance, nothing when
/// they are disjoint, and splitting a window at any point splits the
/// overlap into the overlaps with the two parts.
pub proof fn lemma_span_overlap_intersection(span: (u64, u64), a: int, m: int, b: int)
    requires
        a <= m <= b,
    ensures
        0 <= span_overlap(span, a, b) <= span.1,
        span_overlap(span, a, b) <= b - a,
        a <= span.0 && span.0 + span.1 <= b ==> span_overlap(span, a, b) == span.1,
        span.0 + span.1 <= a || b <= span.0 ==> span_overlap(span, a, b) == 0,
        span_overlap(span, a, m) + span_overlap(span, m, b) == span_overlap(span, a, b),
{
}

proof fn lemma_lull_scan_laws(spans: Seq<(u64, u64)>, i: int, x: int)
    ensures
        lull_scan(spans).0 >= 0,
        lull_scan(spans).1 >= 0,
        0 <= i < spans.len() ==> spans[i].0 + spans[i].1 <= lull_scan(spans).0,
        x >= 0 && (forall|j: int| 0 <= j < spans.len() ==> #[trigger] spans[j].0 + spans[j].1 <= x) ==> lull_scan(
            spans,
        ).0 <= x,
        0 <= i < spans.len() && x >= 0 && (forall|j: int| 0 <= j < i ==> #[trigger] spans[j].0 + spans[j].1 <= x)
            ==> lull_scan(spans).1 >= spans[i].0 - x,
        x >= 0 && (forall|j: int| 0 <= j < spans.len() ==> #[trigger] spans[j].0 <= x) ==> lull_scan(spans).1 <= x,
    decreases spans.len(),
{
    if spans.len() > 0 {
        let pre = spans.drop_last();
        let n = spans.len() - 1;
        lemma_lull_scan_laws(pre, i, x);
        assert forall|j: int| 0 <= j < pre.len() implies #[trigger] pre[j] == spans[j] by {}
        if 0 <= i < n {
            assert(pre[i] == spans[i]);
        }
        if 0 <= i < spans.len() && x >= 0 && (forall|j: int| 0 <= j < i ==> #[trigger] spans[j].0 + spans[j].1 <= x) {
            if i == n {
                // The cursor before the last span is at most x.
                assert forall|j: int| 0 <= j < pre.len() implies #[trigger] pre[j].0 + pre[j].1 <= x by {
                    assert(pre[j] == spans[j]);
                }
                lemma_lull_scan_laws(pre, 0, x);
            } else {
                assert forall|j: int| 0 <= j < i implies #[trigger] pre[j].0 + pre[j].1 <= x by {
                    assert(pre[j] == spans[j]);
                }
            }
        }
        if x >= 0 && (forall|j: int| 0 <= j < spans.len() ==> #[trigger] spans[j].0 + spans[j].1 <= x) {
            assert forall|j: int| 0 <= j < pre.len() implies #[trigger] pre[j].0 + pre[j].1 <= x by {
                assert(pre[j] == spans[j]);
            }
            assert(spans[n].0 + spans[n].1 <= x);
        }
        if x >= 0 && (forall|j: int| 0 <= j < spans.len() ==> #[trigger] spans[j].0 <= x) {
            assert forall|j: int| 0 <= j < pre.len() implies #[trigger] pre[j].0 <= x by {
                assert(pre[j] == spans[j]);
            }
            assert(spans[n].0 <= x);
        }
        if 0 <= i < n {
            assert(pre[i].0 + pre[i].1 <= lull_scan(pre).0);
        }
    }
}

/// The longest lull is the largest gap without speech, the gaps before the
/// first utterance and after the last one included: it is at least the
/// time from any point that every utterance has ended by to the end of the
/// session, at least the time from any point that every earlier utterance
/// has ended by to the start of the next one (from the session start for
/// the first), and at most any bound on the session end and on every
/// utterance's start.
pub proof fn lemma_longest_lull_gaps(spans: Seq<(u64, u64)>, duration: u64, i: int, x: int)
    requires
        x >= 0,
    ensures
        longest_lull(spans, duration) >= 0,
        (forall|j: int| 0 <= j < spans.len() ==> #[trigger] spans[j].0 + spans[j].1 <= x) ==> longest_lull(
            spans,
            duration,
        ) >= duration - x,
        0 <= i < spans.len() && (forall|j: int| 0 <= j < i ==> #[trigger] spans[j].0 + spans[j].1 <= x)
            ==> longest_lull(spans, duration) >= spans[i].0 - x,
        spans.len() > 0 ==> longest_lull(spans, duration) >= spans[0].0,
        spans.len() == 0 ==> longest_lull(spans, duration) == duration,
        duration <= x && (forall|j: int| 0 <= j < spans.len() ==> #[trigger] spans[j].0 <= x) ==> longest_lull(
            spans,
            duration,
        ) <= x,
{
    lemma_lull_scan_laws(spans, i, x);
    lemma_lull_scan_laws(spans, 0, 0);
}

/// Speech in adjacent windows adds up: the speech time in `[a, b)` plus
/// that in `[b, c)` is the speech time in `[a, c)`, and a window holding
/// every utterance holds all the speech.
pub proof fn lemma_window_split(spans: Seq<(u64, u64)>, a: int, b: int, c: int)
    requires
        a <= b <= c,
    ensures
        window_ms(spans, a, b) + window_ms(spans, b, c) == window_ms(spans, a, c),
        (forall|j: int| 0 <= j < spans.len() ==> a <= #[trigger] spans[j].0 && spans[j].0 + spans[j].1 <= c)
            ==> window_ms(spans, a, c) == total_ms(spans),
    decreases spans.len(),
{
    if spans.len() > 0 {
        let pre = spans.drop_last();
        lemma_window_split(pre, a, b, c);
        lemma_span_overlap_intersection(spans.last(), a, b, c);
        if forall|j: int| 0 <= j < spans.len() ==> a <= #[trigger] spans[j].0 && spans[j].0 + spans[j].1 <= c {
            assert forall|j: int| 0 <= j < pre.len() implies a <= #[trigger] pre[j].0 && pre[j].0 + pre[j].1 <= c by {
                assert(pre[j] == spans[j]);
            }
            assert(spans.last() == spans[spans.len() - 1]);
        }
    }
}

/// What a session summary says of its utterances: they are the closed
/// utterances plus the one still open at the end (closed there); speech
/// time is their summed duration and never negative; momentum is GAINING
/// when the second half holds more than a tenth of a half's length more
/// speech than the first half, FADING in the opposite case, and STEADY
/// otherwise (always for a session shorter than 2 ms).
pub proof fn lemma_summary_laws(r: Summary, a: SessionAnalytics, duration_ms: u64)
    requires
        summarizes(r, a, duration_ms),
    ensures
        ({
            let spans = closed_spans(a.spans(), a.speaking_since(), duration_ms);
            let mid = duration_ms / 2;
            let first = window_ms(spans, 0, mid as int);
            let second = window_ms(spans, mid as int, duration_ms as int);
            &&& spans.len() == a.spans().len() + if a.speaking_since() is Some { 1int } else { 0int }
            &&& a.speaking_since() matches Some(s) ==> spans.last() == (s, if duration_ms >= s {
                (duration_ms - s) as u64
            } else {
                0u64
            })
            &&& first + second == window_ms(spans, 0, duration_ms as int)
            &&& mid > 0 && 10 * (second - first) > mid ==> r.momentum == "GAINING"
            &&& mid > 0 && 10 * (first - second) > mid ==> r.momentum == "FADING"
            &&& !(mid > 0 && 10 * (second - first) > mid) && !(mid > 0 && 10 * (first - second) > mid)
                ==> r.momentum == "STEADY"
        }),
{
    let spans = closed_spans(a.spans(), a.speaking_since(), duration_ms);
    lemma_window_split(spans, 0, (duration_ms / 2) as int, duration_ms as int);
}

} // verus!
