//! Social estimates from anonymous channel-activity metadata only.
//! A/B identify input positions, never voices or persistent people.
use vstd::prelude::*;

use super::events::{Event, event_time};
use super::ratio::Ratio;
use super::json::{decimal, json_bool, push_bool, push_decimal};

verus! {

/// Simultaneous activity shorter than this is not an overlap episode.
pub const MIN_OVERLAP_MS: u64 = 200;
/// A newcomer must stay active alone this long to confirm a takeover.
pub const TAKEOVER_MS: u64 = 300;

/// Label of an input channel: "A" for the first, "B" for the second.
pub open spec fn label(i: usize) -> &'static str {
    if i == 0 { "A" } else { "B" }
}

fn label_of(i: usize) -> (r: &'static str)
    ensures
        r == label(i),
{
    if i == 0 { "A" } else { "B" }
}

/// Channel `i` of a pair.
pub open spec fn chan<T>(pair: (T, T), i: usize) -> T {
    if i == 0 { pair.0 } else { pair.1 }
}

fn pick(pair: (bool, bool), i: usize) -> (r: bool)
    ensures
        r == chan(pair, i),
{
    if i == 0 { pair.0 } else { pair.1 }
}

/// `r` is the summary of the tracker `s` at time `t`.
pub open spec fn snapshot_of(r: SocialSummary, s: SocialState, t: u64, final_summary: bool) -> bool {
    let (a, b) = s.speech();
    &&& r.t == t
    &&& r.final_summary == final_summary
    &&& r.available == s.is_available()
    &&& r.speech_ms[0] == a
    &&& r.speech_ms[1] == b
    &&& (s.is_available() && a + b > 0) ==> (r.shares matches Some(sh) && {
        &&& sh[0] == (Ratio { num: a, den: (a + b) as u64 })
        &&& sh[1] == (Ratio { num: b, den: (a + b) as u64 })
    })
    &&& !(s.is_available() && a + b > 0) ==> r.shares is None
    &&& r.turns == s.turn_count()
    &&& r.overlap_ms == s.overlap_total()
    &&& r.overlaps == s.overlap_count()
    &&& r.interruptions == s.interruption_count()
    &&& r.suggestion == suggestion_code(s.is_available(), t, a, b, s.interruption_count())
}

/// The tracker's state.
pub struct SocialState {
    pub available: bool,
    pub last_t: u64,
    pub active: (bool, bool),
    pub starts: (Option<u64>, Option<u64>),
    pub speech_ms: (u64, u64),
    pub turns: u64,
    pub overlap_start: Option<u64>,
    pub incumbent: Option<usize>,
    pub overlap_ms: u64,
    pub overlaps: u64,
    pub interruptions: u64,
    /// Newcomer, start of its solo activity, overlap duration.
    pub pending: Option<(usize, u64, u64)>,
}

pub struct SocialSignals {
    state: SocialState,
}

impl View for SocialSignals {
    type V = SocialState;

    closed spec fn view(&self) -> SocialState {
        self.state
    }
}

impl SocialState {
    pub open spec fn is_available(&self) -> bool {
        self.available
    }

    /// Metadata clock: time of the last observed event, in ms.
    pub open spec fn clock(&self) -> u64 {
        self.last_t
    }

    /// Current activity of channels A and B.
    pub open spec fn activity(&self) -> (bool, bool) {
        self.active
    }

    /// Accumulated activity time of channels A and B, in ms.
    pub open spec fn speech(&self) -> (u64, u64) {
        self.speech_ms
    }

    /// Completed turns.
    pub open spec fn turn_count(&self) -> u64 {
        self.turns
    }

    /// Accumulated simultaneous activity, in ms.
    pub open spec fn overlap_total(&self) -> u64 {
        self.overlap_ms
    }

    /// Completed overlap episodes of at least `MIN_OVERLAP_MS`.
    pub open spec fn overlap_count(&self) -> u64 {
        self.overlaps
    }

    /// Confirmed possible interruptions.
    pub open spec fn interruption_count(&self) -> u64 {
        self.interruptions
    }

    /// A takeover waiting for confirmation: newcomer, start of its solo
    /// activity, overlap duration.
    pub open spec fn pending_takeover(&self) -> Option<(usize, u64, u64)> {
        self.pending
    }

    /// The consistency of the tracker's state.
    pub open spec fn wf(&self) -> bool {
        &&& self.speech_ms.0 <= self.last_t
        &&& self.speech_ms.1 <= self.last_t
        &&& self.overlap_ms <= self.speech_ms.0
        &&& self.overlap_ms <= self.speech_ms.1
        &&& (self.active.0 <==> self.starts.0 is Some)
        &&& (self.active.1 <==> self.starts.1 is Some)
        &&& (self.starts.0 matches Some(s) ==> s <= self.last_t)
        &&& (self.starts.1 matches Some(s) ==> s <= self.last_t)
        &&& ((self.active.0 && self.active.1) <==> self.overlap_start is Some)
        &&& (self.overlap_start matches Some(s) ==> s <= self.last_t)
        &&& (self.incumbent matches Some(i) ==> i < 2 && self.active.0 && self.active.1)
        &&& (self.pending matches Some((n, since, ov)) ==> {
            &&& n < 2
            &&& since <= self.last_t
            &&& ov >= MIN_OVERLAP_MS
            &&& chan(self.active, n)
            &&& !chan(self.active, (1 - n) as usize)
        })
        &&& self.interruptions + (if self.pending is Some { 1int } else { 0int }) <= self.overlaps
        &&& !self.available ==> {
            &&& self.active == (false, false)
            &&& self.speech_ms == (0u64, 0u64)
            &&& self.turns == 0
            &&& self.overlap_ms == 0
            &&& self.overlaps == 0
            &&& self.interruptions == 0
            &&& self.pending is None
        }
    }

    /// Room in the event counters for one more transition.
    pub open spec fn counts_fit(&self) -> bool {
        &&& self.turn_count() + 2 <= u64::MAX
        &&& self.overlap_count() + 1 <= u64::MAX
    }

    /// State and derived events after advancing the clock to `t`: activity
    /// time accrues over `[last_t, t)`, and a pending takeover that has
    /// lasted `TAKEOVER_MS` is confirmed as a possible interruption.
    pub open spec fn advanced(self, t: u64) -> (SocialState, Seq<Event>) {
        let elapsed = (t - self.last_t) as u64;
        let s1 = SocialState {
            speech_ms: (
                if self.active.0 { (self.speech_ms.0 + elapsed) as u64 } else { self.speech_ms.0 },
                if self.active.1 { (self.speech_ms.1 + elapsed) as u64 } else { self.speech_ms.1 },
            ),
            overlap_ms: if self.active.0 && self.active.1 {
                (self.overlap_ms + elapsed) as u64
            } else {
                self.overlap_ms
            },
            last_t: t,
            ..self
        };
        match s1.pending {
            Some((newcomer, since, overlap_ms)) => if t - since >= TAKEOVER_MS {
                (
                    SocialState {
                        pending: None,
                        interruptions: (s1.interruptions + 1) as u64,
                        ..s1
                    },
                    seq![
                        Event::Interruption {
                            t,
                            speaker: label(newcomer),
                            interrupted: label((1 - newcomer) as usize),
                            overlap_ms,
                        },
                    ],
                )
            } else {
                (s1, Seq::empty())
            },
            None => (s1, Seq::empty()),
        }
    }

    /// Closing an overlap at `t` when activity changes to `next`.
    pub open spec fn overlap_closed(self, t: u64, next: (bool, bool)) -> (SocialState, Seq<Event>) {
        if self.active.0 && self.active.1 {
            let duration = (t - self.overlap_start.unwrap()) as u64;
            let s1 = SocialState { overlap_start: None, incumbent: None, ..self };
            if duration >= MIN_OVERLAP_MS {
                let pending = match self.incumbent {
                    Some(old) => if !chan(next, old) && chan(next, (1 - old) as usize) {
                        Some(((1 - old) as usize, t, duration))
                    } else {
                        None
                    },
                    None => None,
                };
                (
                    SocialState { overlaps: (self.overlaps + 1) as u64, pending, ..s1 },
                    seq![Event::OverlapDetected { t, overlap_ms: duration }],
                )
            } else {
                (s1, Seq::empty())
            }
        } else {
            (self, Seq::empty())
        }
    }

    /// Opening an overlap at `t` when activity changes to `next`; the
    /// channel that was active alone before is the incumbent.
    pub open spec fn overlap_opened(self, t: u64, next: (bool, bool)) -> SocialState {
        if next.0 && next.1 {
            SocialState {
                overlap_start: Some(t),
                incumbent: if self.active.0 && !self.active.1 {
                    Some(0usize)
                } else if !self.active.0 && self.active.1 {
                    Some(1usize)
                } else {
                    None
                },
                ..self
            }
        } else {
            self
        }
    }

    /// Turn bookkeeping of channel A at `t`: a start opens a turn, a stop
    /// completes one.
    pub open spec fn turn_a(self, t: u64, next: (bool, bool)) -> (SocialState, Seq<Event>) {
        if next.0 && !self.active.0 {
            (SocialState { starts: (Some(t), self.starts.1), ..self }, Seq::empty())
        } else if !next.0 && self.active.0 {
            (
                SocialState { turns: (self.turns + 1) as u64, starts: (None, self.starts.1), ..self },
                seq![Event::TurnTaken { t, speaker: "A", turn_ms: (t - self.starts.0.unwrap()) as u64 }],
            )
        } else {
            (self, Seq::empty())
        }
    }

    /// Turn bookkeeping of channel B at `t`.
    pub open spec fn turn_b(self, t: u64, next: (bool, bool)) -> (SocialState, Seq<Event>) {
        if next.1 && !self.active.1 {
            (SocialState { starts: (self.starts.0, Some(t)), ..self }, Seq::empty())
        } else if !next.1 && self.active.1 {
            (
                SocialState { turns: (self.turns + 1) as u64, starts: (self.starts.0, None), ..self },
                seq![Event::TurnTaken { t, speaker: "B", turn_ms: (t - self.starts.1.unwrap()) as u64 }],
            )
        } else {
            (self, Seq::empty())
        }
    }

    /// State and derived events after observing an activity transition to
    /// `next` at `t` (on a tracker with separate channels).
    pub open spec fn transitioned(self, t: u64, next: (bool, bool)) -> (SocialState, Seq<Event>) {
        let (s1, e1) = self.advanced(t);
        if next == s1.active {
            (s1, e1)
        } else {
            let s2 = SocialState { pending: None, ..s1 };
            let (s3, e3) = s2.overlap_closed(t, next);
            let s4 = s3.overlap_opened(t, next);
            let (s5, e5) = s4.turn_a(t, next);
            let (s6, e6) = s5.turn_b(t, next);
            (SocialState { active: next, ..s6 }, e1 + e3 + e5 + e6)
        }
    }

    /// State and derived events after observing any schema event.
    pub open spec fn observed(self, event: Event) -> (SocialState, Seq<Event>) {
        match event {
            Event::ChannelActivity { t, active_a, active_b } => if !self.available {
                (self, Seq::empty())
            } else {
                self.transitioned(t, (active_a, active_b))
            },
            _ => (self, Seq::empty()),
        }
    }
}

/// State of a fresh tracker.
pub open spec fn initial_social(available: bool) -> SocialState {
    SocialState {
        available,
        last_t: 0,
        active: (false, false),
        starts: (None, None),
        speech_ms: (0, 0),
        turns: 0,
        overlap_start: None,
        incumbent: None,
        overlap_ms: 0,
        overlaps: 0,
        interruptions: 0,
        pending: None,
    }
}

impl SocialSignals {
    pub fn new(available: bool) -> (r: Self)
        ensures
            r@ == initial_social(available),
            r@.wf(),
            r@.is_available() == available,
            r@.clock() == 0,
            r@.activity() == (false, false),
            r@.speech() == (0u64, 0u64),
            r@.turn_count() == 0,
            r@.overlap_total() == 0,
            r@.overlap_count() == 0,
            r@.interruption_count() == 0,
            r@.pending_takeover() is None,
    {
        let state = SocialState {
            available,
            last_t: 0,
            active: (false, false),
            starts: (None, None),
            speech_ms: (0, 0),
            turns: 0,
            overlap_start: None,
            incumbent: None,
            overlap_ms: 0,
            overlaps: 0,
            interruptions: 0,
            pending: None,
        };
        Self { state }
    }

    /// Advance the metadata clock, accounting for half-open intervals [start, end).
    pub fn advance(&mut self, t: u64) -> (events: Vec<Event>)
        requires
            old(self)@.wf(),
            t >= old(self)@.clock(),
        ensures
            (final(self)@, events@) == old(self)@.advanced(t),
            final(self)@.wf(),
            final(self)@.clock() == t,
            final(self)@.is_available() == old(self)@.is_available(),
            final(self)@.turn_count() == old(self)@.turn_count(),
            final(self)@.overlap_count() == old(self)@.overlap_count(),
            final(self)@.activity() == old(self)@.activity(),
            !old(self)@.is_available() ==> events@ == Seq::<Event>::empty(),
    {
        let elapsed = t - self.state.last_t;
        if self.state.active.0 {
            self.state.speech_ms.0 = self.state.speech_ms.0 + elapsed;
        }
        if self.state.active.1 {
            self.state.speech_ms.1 = self.state.speech_ms.1 + elapsed;
        }
        if self.state.active.0 && self.state.active.1 {
            self.state.overlap_ms = self.state.overlap_ms + elapsed;
        }
        self.state.last_t = t;
        if let Some((newcomer, since, overlap_ms)) = self.state.pending {
            if t - since >= TAKEOVER_MS {
                self.state.pending = None;
                self.state.interruptions = self.state.interruptions + 1;
                let mut events = Vec::new();
                events.push(
                    Event::Interruption {
                        t,
                        speaker: label_of(newcomer),
                        interrupted: label_of(1 - newcomer),
                        overlap_ms,
                    },
                );
                return events;
            }
        }
        Vec::new()
    }

    pub fn observe(&mut self, event: &Event) -> (events: Vec<Event>)
        requires
            old(self)@.wf(),
            event matches Event::ChannelActivity { t, .. } ==> (old(self)@.is_available() ==> t >= old(self)@.clock()
                && old(self)@.counts_fit()),
        ensures
            (final(self)@, events@) == old(self)@.observed(*event),
            final(self)@.wf(),
            final(self)@.is_available() == old(self)@.is_available(),
            final(self)@.turn_count() <= old(self)@.turn_count() + 2,
            final(self)@.overlap_count() <= old(self)@.overlap_count() + 1,
            event matches Event::ChannelActivity { t, .. } ==> (old(self)@.is_available() ==> final(self)@.clock() == t),
            event matches Event::ChannelActivity { active_a, active_b, .. } ==> (old(self)@.is_available()
                ==> final(self)@.activity() == (*active_a, *active_b)),
            !(event matches Event::ChannelActivity { .. } && old(self)@.is_available()) ==> final(self)@ == old(self)@,
            !old(self)@.is_available() ==> events@ == Seq::<Event>::empty(),
    {
        let (t, next) = match *event {
            Event::ChannelActivity { t, active_a, active_b } => (t, (active_a, active_b)),
            _ => {
                return Vec::new();
            },
        };
        if !self.state.available {
            return Vec::new();
        }
        let mut events = self.advance(t);
        let ghost s1 = self@;
        let ghost e1 = events@;
        if next.0 == self.state.active.0 && next.1 == self.state.active.1 {
            return events;
        }
        // A pending takeover requires uninterrupted solo activity.
        self.state.pending = None;
        let ghost s2 = self@;
        if self.state.active.0 && self.state.active.1 {
            let start = self.state.overlap_start.unwrap();
            self.state.overlap_start = None;
            let duration = t - start;
            if duration >= MIN_OVERLAP_MS {
                self.state.overlaps = self.state.overlaps + 1;
                events.push(Event::OverlapDetected { t, overlap_ms: duration });
                if let Some(old) = self.state.incumbent {
                    if !pick(next, old) && pick(next, 1 - old) {
                        self.state.pending = Some((1 - old, t, duration));
                    }
                }
            }
            self.state.incumbent = None;
        }
        let ghost s3 = self@;
        let ghost e3 = events@;
        assert((s3, e3) == (s2.overlap_closed(t, next).0, e1 + s2.overlap_closed(t, next).1));
        if next.0 && next.1 {
            self.state.overlap_start = Some(t);
            self.state.incumbent = if self.state.active.0 && !self.state.active.1 {
                Some(0)
            } else if !self.state.active.0 && self.state.active.1 {
                Some(1)
            } else {
                None
            };
        }
        let ghost s4 = self@;
        assert(s4 == s3.overlap_opened(t, next));
        if next.0 && !self.state.active.0 {
            self.state.starts.0 = Some(t);
        } else if !next.0 && self.state.active.0 {
            self.state.turns = self.state.turns + 1;
            let start = self.state.starts.0.take().unwrap();
            events.push(Event::TurnTaken { t, speaker: "A", turn_ms: t - start });
        }
        let ghost s5 = self@;
        let ghost e5 = events@;
        assert((s5, e5) == (s4.turn_a(t, next).0, e3 + s4.turn_a(t, next).1));
        if next.1 && !self.state.active.1 {
            self.state.starts.1 = Some(t);
        } else if !next.1 && self.state.active.1 {
            self.state.turns = self.state.turns + 1;
            let start = self.state.starts.1.take().unwrap();
            events.push(Event::TurnTaken { t, speaker: "B", turn_ms: t - start });
        }
        let ghost s6 = self@;
        assert((s6, events@) == (s5.turn_b(t, next).0, e5 + s5.turn_b(t, next).1));
        self.state.active = next;
        events
    }

    /// Summary of the signals at time `t`.
    pub fn snapshot(&self, t: u64, final_summary: bool) -> (r: SocialSummary)
        requires
            self@.speech().0 + self@.speech().1 <= u64::MAX,
        ensures
            snapshot_of(r, self@, t, final_summary),
    {
        let total = self.state.speech_ms.0 + self.state.speech_ms.1;
        let shares = if self.state.available && total > 0 {
            Some([Ratio { num: self.state.speech_ms.0, den: total }, Ratio { num: self.state.speech_ms.1, den: total }])
        } else {
            None
        };
        let larger = if self.state.speech_ms.0 > self.state.speech_ms.1 { self.state.speech_ms.0 } else { self.state.speech_ms.1 };
        let suggestion = if !self.state.available {
            "REFLECT_TOGETHER"
        } else if t < 10_000 || total < 5_000 {
            "KEEP_LISTENING"
        } else if self.state.interruptions > 0 {
            "LEAVE_SPACE"
        } else if larger as u128 * 10 >= total as u128 * 7 {
            "INVITE_OTHER"
        } else {
            "ASK_FOLLOW_UP"
        };
        SocialSummary {
            t,
            final_summary,
            available: self.state.available,
            speech_ms: [self.state.speech_ms.0, self.state.speech_ms.1],
            shares,
            turns: self.state.turns,
            overlap_ms: self.state.overlap_ms,
            overlaps: self.state.overlaps,
            interruptions: self.state.interruptions,
            suggestion,
        }
    }

    /// Close ongoing turns and overlap exactly once. Ending a session does
    /// not establish that either participant interrupted the other.
    pub fn finish(&mut self, t: u64) -> (events: Vec<Event>)
        requires
            old(self)@.wf(),
            old(self)@.is_available() ==> t >= old(self)@.clock() && old(self)@.counts_fit(),
        ensures
            (final(self)@, events@) == old(self)@.observed(
                Event::ChannelActivity { t, active_a: false, active_b: false },
            ),
            final(self)@.wf(),
            final(self)@.is_available() == old(self)@.is_available(),
            final(self)@.activity() == (false, false),
            final(self)@.turn_count() <= old(self)@.turn_count() + 2,
            final(self)@.overlap_count() <= old(self)@.overlap_count() + 1,
            old(self)@.is_available() ==> final(self)@.clock() == t,
            !old(self)@.is_available() ==> final(self)@ == old(self)@ && events@ == Seq::<Event>::empty(),
    {
        self.observe(&Event::ChannelActivity { t, active_a: false, active_b: false })
    }
}


/// Suggestion code, in priority order: mono input; too little evidence
/// (under 10 s of session or 5 s of summed activity); a confirmed possible
/// interruption; one channel holding at least 70% of the activity;
/// otherwise an open follow-up. The 70% test is made on exact integers
/// (`10 * max >= 7 * total`); it agrees with comparing the floating-point
/// share against 0.70 for every total below 10^15 ms.
pub open spec fn suggestion_code(available: bool, t: u64, a: u64, b: u64, interruptions: u64) -> &'static str {
    if !available {
        "REFLECT_TOGETHER"
    } else if t < 10_000 || a + b < 5_000 {
        "KEEP_LISTENING"
    } else if interruptions > 0 {
        "LEAVE_SPACE"
    } else if 10 * (if a > b { a } else { b }) >= 7 * (a + b) {
        "INVITE_OTHER"
    } else {
        "ASK_FOLLOW_UP"
    }
}

#[derive(Clone, Copy)]
pub struct SocialSummary {
    pub t: u64,
    pub final_summary: bool,
    pub available: bool,
    pub speech_ms: [u64; 2],
    pub shares: Option<[Ratio; 2]>,
    pub turns: u64,
    pub overlap_ms: u64,
    pub overlaps: u64,
    pub interruptions: u64,
    pub suggestion: &'static str,
}

/// Prompt text of a suggestion code.
pub open spec fn suggestion_text_of(code: Seq<char>) -> Seq<char> {
    if code == "KEEP_LISTENING"@ {
        "Keep listening; there is not enough activity for a useful suggestion yet."@
    } else if code == "LEAVE_SPACE"@ {
        "Try leaving a short pause before responding so each person can finish."@
    } else if code == "INVITE_OTHER"@ {
        "Consider inviting the person who spoke less to share their perspective."@
    } else if code == "ASK_FOLLOW_UP"@ {
        "Consider asking an open follow-up question about something they shared."@
    } else {
        "Ask each other how the conversation felt and whether you would like to continue."@
    }
}

/// Whether two strings hold the same characters.
fn str_eq(a: &str, b: &str) -> (r: bool)
    ensures
        r == (a@ == b@),
{
    let n = a.unicode_len();
    if n != b.unicode_len() {
        return false;
    }
    let mut i: usize = 0;
    while i < n
        invariant
            n == a@.len(),
            n == b@.len(),
            i <= n,
            forall|j: int| 0 <= j < i ==> a@[j] == b@[j],
        decreases n - i,
    {
        if a.get_char(i) != b.get_char(i) {
            return false;
        }
        i = i + 1;
    }
    assert(a@ =~= b@);
    true
}

/// The `reason` field of SOCIAL_SIGNALS.
pub open spec fn reason_of(available: bool) -> Seq<char> {
    if available { "SEPARATE_CHANNELS"@ } else { "SEPARATE_CHANNELS_REQUIRED"@ }
}

/// The measured counts of SOCIAL_SIGNALS, or nulls when they cannot be made.
pub open spec fn counts_json(s: SocialSummary) -> Seq<char> {
    if s.available {
        "\"speech_ms\":["@ + decimal(s.speech_ms[0] as nat) + ","@ + decimal(s.speech_ms[1] as nat)
            + "],\"turns\":"@ + decimal(s.turns as nat) + ",\"overlap_ms\":"@ + decimal(s.overlap_ms as nat)
            + ",\"overlaps\":"@ + decimal(s.overlaps as nat) + ",\"interruptions\":"@ + decimal(
            s.interruptions as nat,
        )
    } else {
        "\"speech_ms\":null,\"turns\":null,\"overlap_ms\":null,\"overlaps\":null,\"interruptions\":null"@
    }
}

/// The SOCIAL_SIGNALS line, with `shares` printed as its shares value.
pub open spec fn social_json(s: SocialSummary, shares: Seq<char>) -> Seq<char> {
    "{\"t\":"@ + decimal(s.t as nat) + ",\"event\":\"SOCIAL_SIGNALS\",\"final\":"@ + json_bool(s.final_summary)
        + ",\"available\":"@ + json_bool(s.available) + ",\"estimated\":true,\"reason\":\""@ + reason_of(
        s.available,
    ) + "\",\"shares\":"@ + shares + ","@ + counts_json(s) + ",\"suggestion\":\""@ + s.suggestion@
        + "\",\"suggestion_text\":\""@ + suggestion_text_of(s.suggestion@) + "\"}"@
}

impl SocialSummary {
    pub fn suggestion_text(&self) -> (r: &'static str)
        ensures
            r@ == suggestion_text_of(self.suggestion@),
    {
        if str_eq(self.suggestion, "KEEP_LISTENING") {
            "Keep listening; there is not enough activity for a useful suggestion yet."
        } else if str_eq(self.suggestion, "LEAVE_SPACE") {
            "Try leaving a short pause before responding so each person can finish."
        } else if str_eq(self.suggestion, "INVITE_OTHER") {
            "Consider inviting the person who spoke less to share their perspective."
        } else if str_eq(self.suggestion, "ASK_FOLLOW_UP") {
            "Consider asking an open follow-up question about something they shared."
        } else {
            "Ask each other how the conversation felt and whether you would like to continue."
        }
    }

    fn counts_text(&self) -> (r: String)
        ensures
            r@ == counts_json(*self),
    {
        let mut s = String::new();
        if self.available {
            s.append("\"speech_ms\":[");
            push_decimal(&mut s, self.speech_ms[0]);
            s.append(",");
            push_decimal(&mut s, self.speech_ms[1]);
            s.append("],\"turns\":");
            push_decimal(&mut s, self.turns);
            s.append(",\"overlap_ms\":");
            push_decimal(&mut s, self.overlap_ms);
            s.append(",\"overlaps\":");
            push_decimal(&mut s, self.overlaps);
            s.append(",\"interruptions\":");
            push_decimal(&mut s, self.interruptions);
        } else {
            s.append("\"speech_ms\":null,\"turns\":null,\"overlap_ms\":null,\"overlaps\":null,\"interruptions\":null");
        }
        assert(s@ =~= counts_json(*self));
        s
    }

    /// The SOCIAL_SIGNALS line, with `shares` printed as the shares value.
    pub fn to_json_with_shares(&self, shares: &str) -> (r: String)
        ensures
            r@ == social_json(*self, shares@),
    {
        let mut s = String::new();
        s.append("{\"t\":");
        push_decimal(&mut s, self.t);
        s.append(",\"event\":\"SOCIAL_SIGNALS\",\"final\":");
        push_bool(&mut s, self.final_summary);
        s.append(",\"available\":");
        push_bool(&mut s, self.available);
        if self.available {
            s.append(",\"estimated\":true,\"reason\":\"SEPARATE_CHANNELS");
        } else {
            s.append(",\"estimated\":true,\"reason\":\"SEPARATE_CHANNELS_REQUIRED");
        }
        let ghost head = s@;
        s.append("\",\"shares\":");
        s.append(shares);
        s.append(",");
        let counts = self.counts_text();
        s.append(counts.as_str());
        s.append(",\"suggestion\":\"");
        s.append(self.suggestion);
        s.append("\",\"suggestion_text\":\"");
        s.append(self.suggestion_text());
        s.append("\"}");
        proof {
            assert(head =~= "{\"t\":"@ + decimal(self.t as nat) + ",\"event\":\"SOCIAL_SIGNALS\",\"final\":"@
                + json_bool(self.final_summary) + ",\"available\":"@ + json_bool(self.available)
                + ",\"estimated\":true,\"reason\":\""@ + reason_of(self.available)) by {
                reveal_strlit(",\"estimated\":true,\"reason\":\"SEPARATE_CHANNELS");
                reveal_strlit(",\"estimated\":true,\"reason\":\"SEPARATE_CHANNELS_REQUIRED");
                reveal_strlit(",\"estimated\":true,\"reason\":\"");
                reveal_strlit("SEPARATE_CHANNELS");
                reveal_strlit("SEPARATE_CHANNELS_REQUIRED");
            }
        }
        assert(s@ =~= social_json(*self, shares@));
        s
    }

    /// The SOCIAL_SIGNALS line. Shares are floating-point values in the
    /// line; when there are shares to print this returns `None` and the line
    /// is rendered with `to_json_with_shares`.
    pub fn to_json(&self) -> (r: Option<String>)
        ensures
            self.shares is Some ==> r is None,
            self.shares is None ==> (r matches Some(s) && s@ == social_json(*self, "null"@)),
    {
        if self.shares.is_some() {
            None
        } else {
            Some(self.to_json_with_shares("null"))
        }
    }
}


/// Simultaneous activity is counted in each channel's activity time, so the
/// overlap total never exceeds either channel's time, and no channel's time
/// exceeds the metadata clock.
pub proof fn lemma_overlap_within_speech(s: SocialState)
    requires
        s.wf(),
    ensures
        s.overlap_total() <= s.speech().0 <= s.clock(),
        s.overlap_total() <= s.speech().1 <= s.clock(),
{
}

/// Every possible interruption was preceded by its own qualifying overlap
/// episode: interruptions never outnumber overlaps.
pub proof fn lemma_interruptions_within_overlaps(s: SocialState)
    requires
        s.wf(),
    ensures
        s.interruption_count() <= s.overlap_count(),
{
}

/// Mono input makes no measurement: observing any event derives nothing and
/// leaves every count at zero.
pub proof fn lemma_mono_measures_nothing(s: SocialState, e: Event)
    requires
        s.wf(),
        !s.is_available(),
    ensures
        s.observed(e).1 == Seq::<Event>::empty(),
        s.observed(e).0 == s,
        s.speech() == (0u64, 0u64),
        s.turn_count() == 0,
        s.overlap_total() == 0,
        s.overlap_count() == 0,
        s.interruption_count() == 0,
{
}

/// An INTERRUPTION is derived only from a takeover: an overlap of at least
/// `MIN_OVERLAP_MS` that the incumbent left, after which the newcomer has
/// been active alone for at least `TAKEOVER_MS`. It names the newcomer as
/// speaker and the other channel as interrupted.
pub proof fn lemma_interruption_needs_takeover(s: SocialState, t: u64)
    requires
        s.wf(),
        t >= s.clock(),
    ensures
        s.advanced(t).1.len() <= 1,
        s.advanced(t).1.len() == 1 ==> {
            &&& s.pending_takeover() matches Some((newcomer, since, ov))
            &&& t - since >= TAKEOVER_MS
            &&& ov >= MIN_OVERLAP_MS
            &&& chan(s.activity(), newcomer)
            &&& !chan(s.activity(), (1 - newcomer) as usize)
            &&& s.advanced(t).1[0] == Event::Interruption {
                t,
                speaker: label(newcomer),
                interrupted: label((1 - newcomer) as usize),
                overlap_ms: ov,
            }
        },
{
}

/// Any change of activity cancels a pending takeover unless that change is
/// itself the end of a new qualifying overlap: a newcomer that stops, or is
/// joined, before `TAKEOVER_MS` establishes no interruption.
pub proof fn lemma_activity_change_cancels_takeover(s: SocialState, t: u64, next: (bool, bool))
    requires
        s.wf(),
        s.is_available(),
        t >= s.clock(),
        next != s.activity(),
        !(s.activity().0 && s.activity().1),
    ensures
        s.transitioned(t, next).0.pending_takeover() is None,
{
}

/// Ending a session closes open turns and overlap exactly once, without
/// inventing a takeover: after `finish` both channels are inactive and no
/// takeover is pending, the only interruption it can count is one whose
/// newcomer had already stayed alone for `TAKEOVER_MS` by then, and
/// finishing again at the same time derives nothing and changes nothing.
pub proof fn lemma_finish_closes_once(s: SocialState, t: u64)
    requires
        s.wf(),
        t >= s.clock(),
    ensures
        ({
            let end = Event::ChannelActivity { t, active_a: false, active_b: false };
            let (s1, _) = s.observed(end);
            &&& s1.activity() == (false, false)
            &&& s1.pending_takeover() is None
            &&& s1.interruption_count() == (if s.is_available() {
                s.advanced(t).0.interruption_count()
            } else {
                s.interruption_count()
            })
            &&& s1.observed(end) == (s1, Seq::<Event>::empty())
        }),
{
}

/// A turn closes only when its channel stops: the derived TURN_TAKEN events
/// of a transition are exactly the channels that were active and are not any
/// more, each with the duration since that channel started.
pub proof fn lemma_turns_close_on_stop(s: SocialState, t: u64, next: (bool, bool))
    requires
        s.wf(),
        s.is_available(),
        t >= s.clock(),
        s.counts_fit(),
    ensures
        s.transitioned(t, next).0.turn_count() == s.turn_count()
            + (if s.activity().0 && !next.0 { 1int } else { 0int })
            + (if s.activity().1 && !next.1 { 1int } else { 0int }),
{
}


/// When shares exist they divide each channel's activity time by the sum of
/// both, overlap included in each, in the order [A, B]: they sum to one.
/// They exist exactly for a tracker with separate channels once some
/// activity has been measured.
pub proof fn lemma_shares_sum_to_one(r: SocialSummary, s: SocialState, t: u64, final_summary: bool)
    requires
        snapshot_of(r, s, t, final_summary),
        s.speech().0 + s.speech().1 <= u64::MAX,
    ensures
        r.shares matches Some(sh) ==> sh[0].num + sh[1].num == sh[0].den && sh[0].den == sh[1].den && sh[0].den > 0,
        r.shares matches Some(sh) ==> sh[0].num == r.speech_ms[0] && sh[1].num == r.speech_ms[1],
        r.speech_ms[0] == s.speech().0 && r.speech_ms[1] == s.speech().1,
        r.shares is Some <==> s.is_available() && s.speech().0 + s.speech().1 > 0,
{
}

/// Input channel positions are labelled A for the first and B for the
/// second.
pub proof fn lemma_channel_labels()
    ensures
        label(0) == "A",
        label(1) == "B",
{
}


/// An overlap episode is counted exactly when simultaneous activity of at
/// least `MIN_OVERLAP_MS` ends; shorter simultaneous activity only adds to
/// the overlap time.
pub proof fn lemma_overlap_episode_counted(s: SocialState, t: u64, next: (bool, bool))
    requires
        s.wf(),
        s.is_available(),
        t >= s.clock(),
        s.counts_fit(),
        next != s.activity(),
    ensures
        s.transitioned(t, next).0.overlap_count() == s.overlap_count() + (if s.activity() == (true, true) && t
            - s.overlap_start.unwrap() >= MIN_OVERLAP_MS { 1int } else { 0int }),
        s.transitioned(t, next).0.overlap_total() == s.overlap_total() + (if s.activity() == (true, true) {
            t - s.clock()
        } else {
            0int
        }),
{
}

/// A takeover is pending only after an overlap of at least
/// `MIN_OVERLAP_MS` that one channel joined while the other was speaking
/// alone (the incumbent), when the incumbent stops and the newcomer stays
/// active. Simultaneous starts or stops, and a newcomer that stops first,
/// establish no takeover.
pub proof fn lemma_takeover_needs_incumbent_leaving(s: SocialState, t: u64, next: (bool, bool))
    requires
        s.wf(),
        s.is_available(),
        t >= s.clock(),
        next != s.activity(),
    ensures
        s.transitioned(t, next).0.pending_takeover() matches Some((newcomer, since, ov)) ==> {
            &&& s.activity() == (true, true)
            &&& s.incumbent == Some((1 - newcomer) as usize)
            &&& !chan(next, (1 - newcomer) as usize)
            &&& chan(next, newcomer)
            &&& since == t
            &&& ov == t - s.overlap_start.unwrap()
            &&& ov >= MIN_OVERLAP_MS
        },
{
}

/// Every event the tracker derives carries the time of what it observed:
/// advancing the clock to `t` derives events at `t`, and a transition at `t`
/// derives events at `t`.
pub proof fn lemma_derived_events_at_time(s: SocialState, t: u64, next: (bool, bool))
    ensures
        forall|k: int| 0 <= k < s.advanced(t).1.len() ==> event_time(#[trigger] s.advanced(t).1[k]) == t,
        forall|k: int|
            0 <= k < s.transitioned(t, next).1.len() ==> event_time(#[trigger] s.transitioned(t, next).1[k]) == t,
{
    let (s1, e1) = s.advanced(t);
    if next != s1.active {
        let s2 = SocialState { pending: None, ..s1 };
        let (s3, e3) = s2.overlap_closed(t, next);
        let s4 = s3.overlap_opened(t, next);
        let (s5, e5) = s4.turn_a(t, next);
        let (s6, e6) = s5.turn_b(t, next);
        let all = e1 + e3 + e5 + e6;
        assert forall|k: int| 0 <= k < all.len() implies event_time(#[trigger] all[k]) == t by {
            if k < e1.len() {
                assert(all[k] == e1[k]);
            } else if k < e1.len() + e3.len() {
                assert(all[k] == e3[k - e1.len()]);
            } else if k < e1.len() + e3.len() + e5.len() {
                assert(all[k] == e5[k - e1.len() - e3.len()]);
            } else {
                assert(all[k] == e6[k - e1.len() - e3.len() - e5.len()]);
            }
        }
    }
}

/// What a transition derives, in order: an interruption that the clock
/// confirms by `t`; an OVERLAP_DETECTED with the overlap's duration exactly
/// when simultaneous activity of at least `MIN_OVERLAP_MS` ends; a
/// TURN_TAKEN for each channel that stops, A before B, with the time since
/// that channel started. Turn and overlap counts grow by those events.
pub proof fn lemma_transition_events(s: SocialState, t: u64, next: (bool, bool))
    requires
        s.wf(),
        s.counts_fit(),
        next != s.activity(),
        t >= s.clock(),
    ensures
        ({
            let (a, b) = s.activity();
            let overlap_ends = a && b && t - s.overlap_start.unwrap() >= MIN_OVERLAP_MS;
            let overlap = if overlap_ends {
                seq![Event::OverlapDetected { t, overlap_ms: (t - s.overlap_start.unwrap()) as u64 }]
            } else {
                Seq::<Event>::empty()
            };
            let turn_a = if a && !next.0 {
                seq![Event::TurnTaken { t, speaker: "A", turn_ms: (t - s.starts.0.unwrap()) as u64 }]
            } else {
                Seq::<Event>::empty()
            };
            let turn_b = if b && !next.1 {
                seq![Event::TurnTaken { t, speaker: "B", turn_ms: (t - s.starts.1.unwrap()) as u64 }]
            } else {
                Seq::<Event>::empty()
            };
            &&& s.transitioned(t, next).1 == s.advanced(t).1 + overlap + turn_a + turn_b
            &&& s.transitioned(t, next).0.turn_count() == s.turn_count() + turn_a.len() + turn_b.len()
            &&& s.transitioned(t, next).0.overlap_count() == s.overlap_count() + overlap.len()
        }),
{
}

/// Advancing the clock to `t` accrues the elapsed `[clock, t)` to each
/// active channel's activity time, and to the overlap total exactly when
/// both are active; it moves the clock to `t` and changes neither activity,
/// turns nor overlap episodes.
pub proof fn lemma_advance_accrues(s: SocialState, t: u64)
    requires
        s.wf(),
        t >= s.clock(),
    ensures
        s.advanced(t).0.clock() == t,
        s.advanced(t).0.speech().0 == s.speech().0 + (if s.activity().0 { t - s.clock() } else { 0int }),
        s.advanced(t).0.speech().1 == s.speech().1 + (if s.activity().1 { t - s.clock() } else { 0int }),
        s.advanced(t).0.overlap_total() == s.overlap_total() + (if s.activity().0 && s.activity().1 {
            t - s.clock()
        } else {
            0int
        }),
        s.advanced(t).0.activity() == s.activity(),
        s.advanced(t).0.turn_count() == s.turn_count(),
        s.advanced(t).0.overlap_count() == s.overlap_count(),
{
}

/// The follow-up suggestion of a snapshot, in priority order: a mono
/// tracker always suggests REFLECT_TOGETHER; with separate channels, under
/// 10 s of session or under 5 s of summed channel activity it suggests
/// KEEP_LISTENING; otherwise a confirmed possible interruption gives
/// LEAVE_SPACE; otherwise one channel holding at least 70% of the summed
/// activity gives INVITE_OTHER; and anything else ASK_FOLLOW_UP.
pub proof fn lemma_suggestion_priority(r: SocialSummary, s: SocialState, t: u64, final_summary: bool)
    requires
        snapshot_of(r, s, t, final_summary),
    ensures
        ({
            let a = r.speech_ms[0] as int;
            let b = r.speech_ms[1] as int;
            let total = a + b;
            let evidence = t >= 10_000 && total >= 5_000;
            let dominant = 10 * a >= 7 * total || 10 * b >= 7 * total;
            &&& !r.available ==> r.suggestion == "REFLECT_TOGETHER"
            &&& r.available && !evidence ==> r.suggestion == "KEEP_LISTENING"
            &&& r.available && evidence && r.interruptions > 0 ==> r.suggestion == "LEAVE_SPACE"
            &&& r.available && evidence && r.interruptions == 0 && dominant ==> r.suggestion == "INVITE_OTHER"
            &&& r.available && evidence && r.interruptions == 0 && !dominant ==> r.suggestion == "ASK_FOLLOW_UP"
        }),
{
}

/// The prompt of each suggestion code.
pub proof fn lemma_suggestion_texts(code: Seq<char>)
    ensures
        code == "KEEP_LISTENING"@ ==> suggestion_text_of(code)
            == "Keep listening; there is not enough activity for a useful suggestion yet."@,
        code == "LEAVE_SPACE"@ ==> suggestion_text_of(code)
            == "Try leaving a short pause before responding so each person can finish."@,
        code == "INVITE_OTHER"@ ==> suggestion_text_of(code)
            == "Consider inviting the person who spoke less to share their perspective."@,
        code == "ASK_FOLLOW_UP"@ ==> suggestion_text_of(code)
            == "Consider asking an open follow-up question about something they shared."@,
        code == "REFLECT_TOGETHER"@ ==> suggestion_text_of(code)
            == "Ask each other how the conversation felt and whether you would like to continue."@,
{
    reveal_strlit("KEEP_LISTENING");
    reveal_strlit("LEAVE_SPACE");
    reveal_strlit("INVITE_OTHER");
    reveal_strlit("ASK_FOLLOW_UP");
    reveal_strlit("REFLECT_TOGETHER");
    assert("KEEP_LISTENING"@.len() == 14);
    assert("LEAVE_SPACE"@.len() == 11);
    assert("INVITE_OTHER"@.len() == 12);
    assert("ASK_FOLLOW_UP"@.len() == 13);
    assert("REFLECT_TOGETHER"@.len() == 16);
}

/// The SOCIAL_SIGNALS line: time, `final` and `available` flags, the
/// `estimated` marker and the reason (SEPARATE_CHANNELS, or
/// SEPARATE_CHANNELS_REQUIRED for mono), the shares, then either the
/// measured counts (separate channels) or nulls for every count (mono,
/// where no measurement can be made), then the suggestion code and its
/// prompt.
pub proof fn lemma_social_line(s: SocialSummary, shares: Seq<char>)
    ensures
        social_json(s, shares) == "{\"t\":"@ + decimal(s.t as nat) + ",\"event\":\"SOCIAL_SIGNALS\",\"final\":"@
            + json_bool(s.final_summary) + ",\"available\":"@ + json_bool(s.available) + ",\"estimated\":true,\"reason\":\""@
            + (if s.available { "SEPARATE_CHANNELS"@ } else { "SEPARATE_CHANNELS_REQUIRED"@ }) + "\",\"shares\":"@ + shares
            + ","@ + counts_json(s) + ",\"suggestion\":\""@ + s.suggestion@ + "\",\"suggestion_text\":\""@
            + suggestion_text_of(s.suggestion@) + "\"}"@,
        s.available ==> counts_json(s) == "\"speech_ms\":["@ + decimal(s.speech_ms[0] as nat) + ","@ + decimal(
            s.speech_ms[1] as nat,
        ) + "],\"turns\":"@ + decimal(s.turns as nat) + ",\"overlap_ms\":"@ + decimal(s.overlap_ms as nat)
            + ",\"overlaps\":"@ + decimal(s.overlaps as nat) + ",\"interruptions\":"@ + decimal(s.interruptions as nat),
        !s.available ==> counts_json(s)
            == "\"speech_ms\":null,\"turns\":null,\"overlap_ms\":null,\"overlaps\":null,\"interruptions\":null"@,
{
}

/// When both channels become active, the overlap starts at that time and
/// its incumbent is the channel that was already speaking alone (none when
/// both start together); any other transition leaves no open overlap.
pub proof fn lemma_overlap_opens_with_incumbent(s: SocialState, t: u64, next: (bool, bool))
    requires
        s.wf(),
        next != s.activity(),
        t >= s.clock(),
    ensures
        next == (true, true) ==> s.transitioned(t, next).0.overlap_start == Some(t),
        next == (true, true) && s.activity() == (true, false) ==> s.transitioned(t, next).0.incumbent == Some(0usize),
        next == (true, true) && s.activity() == (false, true) ==> s.transitioned(t, next).0.incumbent == Some(1usize),
        next == (true, true) && s.activity() == (false, false) ==> s.transitioned(t, next).0.incumbent is None,
        next != (true, true) ==> s.transitioned(t, next).0.overlap_start is None && s.transitioned(t, next).0.incumbent is None,
{
}

} // verus!
