//! Typed metadata events and their JSONL form (the event schema).
//!
//! The JSONL stream is the only data that ever leaves the engine. The
//! analytics layer consumes these same typed events — never frame data —
//! so everything the app computes is derivable from the metadata contract
//! alone. On hardware, this enum is what crosses the USB/BLE link.
//!
//! ENERGY_LEVEL carries the core's integer average frame power; its dBFS
//! value is a floating-point conversion made where the line is printed.
use vstd::prelude::*;

use crate::signal::{Band, FrameReport, FRAME_MS};
use super::json::{decimal, digit_char, json_bool, push_bool, push_decimal};

verus! {

/// Version string reported in SESSION_START.
pub const ENGINE_VERSION: &'static str = "0.1.0";

#[derive(Clone, Copy, Debug, PartialEq)]
pub enum Event {
    SessionStart,
    SpeakingStart { t: u64 },
    SpeakingStop { t: u64, utterance_ms: u64 },
    Silence { t: u64, since_ms: u64 },
    LongPause { t: u64, pause_ms: u64 },
    EnergyLevel { t: u64, band: Band, avg_power: u32 },
    PrivacySummary { t: u64, frames_processed: u64, audio_samples_discarded: u64 },
    SessionEnd { t: u64 },
    SocialConfig { dual_channel: bool, demo: bool },
    ChannelActivity { t: u64, active_a: bool, active_b: bool },
    TurnTaken { t: u64, speaker: &'static str, turn_ms: u64 },
    OverlapDetected { t: u64, overlap_ms: u64 },
    Interruption { t: u64, speaker: &'static str, interrupted: &'static str, overlap_ms: u64 },
}

/// The `t` field of an event's line: SESSION_START and SOCIAL_CONFIG are
/// at 0, every other event carries its own time.
pub open spec fn event_time(e: Event) -> u64 {
    match e {
        Event::SessionStart => 0,
        Event::SpeakingStart { t } => t,
        Event::SpeakingStop { t, .. } => t,
        Event::Silence { t, .. } => t,
        Event::LongPause { t, .. } => t,
        Event::EnergyLevel { t, .. } => t,
        Event::PrivacySummary { t, .. } => t,
        Event::SessionEnd { t } => t,
        Event::SocialConfig { .. } => 0,
        Event::ChannelActivity { t, .. } => t,
        Event::TurnTaken { t, .. } => t,
        Event::OverlapDetected { t, .. } => t,
        Event::Interruption { t, .. } => t,
    }
}

/// Schema name of an energy band.
pub open spec fn band_name(band: Band) -> Seq<char> {
    match band {
        Band::Low => "LOW"@,
        Band::Med => "MED"@,
        Band::High => "HIGH"@,
    }
}

/// A line that starts with the envelope's time field: `{"t":<t>` + rest.
pub open spec fn timed(t: u64, rest: Seq<char>) -> Seq<char> {
    "{\"t\":"@ + decimal(t as nat) + rest
}

/// The JSONL line of an event. `dbfs` is the printed dBFS value of an
/// ENERGY_LEVEL event; other events do not use it.
pub open spec fn event_json(e: Event, dbfs: Seq<char>) -> Seq<char> {
    match e {
        Event::SessionStart => "{\"t\":0,\"event\":\"SESSION_START\",\"frame_ms\":"@ + decimal(FRAME_MS as nat)
            + ",\"engine_version\":\""@ + ENGINE_VERSION@ + "\"}"@,
        Event::SpeakingStart { t } => timed(t, ",\"event\":\"SPEAKING_START\"}"@),
        Event::SpeakingStop { t, utterance_ms } => timed(
            t,
            ",\"event\":\"SPEAKING_STOP\",\"utterance_ms\":"@ + decimal(utterance_ms as nat) + "}"@,
        ),
        Event::Silence { t, since_ms } => timed(
            t,
            ",\"event\":\"SILENCE\",\"since_ms\":"@ + decimal(since_ms as nat) + "}"@,
        ),
        Event::LongPause { t, pause_ms } => timed(
            t,
            ",\"event\":\"LONG_PAUSE\",\"pause_ms\":"@ + decimal(pause_ms as nat) + "}"@,
        ),
        Event::EnergyLevel { t, band, avg_power } => timed(
            t,
            ",\"event\":\"ENERGY_LEVEL\",\"band\":\""@ + band_name(band) + "\",\"dbfs\":"@ + dbfs + "}"@,
        ),
        Event::PrivacySummary { t, frames_processed, audio_samples_discarded } => timed(
            t,
            ",\"event\":\"PRIVACY_SUMMARY\",\"frames_processed\":"@ + decimal(frames_processed as nat)
                + ",\"audio_samples_discarded\":"@ + decimal(audio_samples_discarded as nat)
                + ",\"audio_bytes_persisted\":0,\"words_transcribed\":0}"@,
        ),
        Event::SessionEnd { t } => timed(
            t,
            ",\"event\":\"SESSION_END\",\"duration_ms\":"@ + decimal(t as nat) + "}"@,
        ),
        Event::SocialConfig { dual_channel, demo } => "{\"t\":0,\"event\":\"SOCIAL_CONFIG\",\"mode\":\""@
            + (if dual_channel { "DUAL_CHANNEL"@ } else { "MONO"@ }) + "\",\"estimated\":true,\"demo\":"@
            + json_bool(demo) + "}"@,
        Event::ChannelActivity { t, active_a, active_b } => timed(
            t,
            ",\"event\":\"CHANNEL_ACTIVITY\",\"active_a\":"@ + json_bool(active_a) + ",\"active_b\":"@
                + json_bool(active_b) + "}"@,
        ),
        Event::TurnTaken { t, speaker, turn_ms } => timed(
            t,
            ",\"event\":\"TURN_TAKEN\",\"speaker\":\""@ + speaker@ + "\",\"turn_ms\":"@ + decimal(turn_ms as nat)
                + ",\"estimated\":true}"@,
        ),
        Event::OverlapDetected { t, overlap_ms } => timed(
            t,
            ",\"event\":\"OVERLAP_DETECTED\",\"overlap_ms\":"@ + decimal(overlap_ms as nat) + ",\"estimated\":true}"@,
        ),
        Event::Interruption { t, speaker, interrupted, overlap_ms } => timed(
            t,
            ",\"event\":\"INTERRUPTION\",\"speaker\":\""@ + speaker@ + "\",\"interrupted\":\""@ + interrupted@
                + "\",\"overlap_ms\":"@ + decimal(overlap_ms as nat) + ",\"estimated\":true}"@,
        ),
    }
}

fn timed_start(t: u64) -> (s: String)
    ensures
        s@ == "{\"t\":"@ + decimal(t as nat),
{
    let mut s = String::new();
    s.append("{\"t\":");
    push_decimal(&mut s, t);
    s
}

/// `timed(t, a + x + b)` for a number `x`.
fn timed_num(t: u64, a: &str, x: u64, b: &str) -> (s: String)
    ensures
        s@ == timed(t, a@ + decimal(x as nat) + b@),
{
    let mut s = timed_start(t);
    s.append(a);
    push_decimal(&mut s, x);
    s.append(b);
    assert(s@ =~= timed(t, a@ + decimal(x as nat) + b@));
    s
}

/// `timed(t, a + x + b + y + c)` for numbers `x`, `y`.
fn timed_num2(t: u64, a: &str, x: u64, b: &str, y: u64, c: &str) -> (s: String)
    ensures
        s@ == timed(t, a@ + decimal(x as nat) + b@ + decimal(y as nat) + c@),
{
    let mut s = timed_start(t);
    s.append(a);
    push_decimal(&mut s, x);
    s.append(b);
    push_decimal(&mut s, y);
    s.append(c);
    assert(s@ =~= timed(t, a@ + decimal(x as nat) + b@ + decimal(y as nat) + c@));
    s
}

/// `timed(t, a + x + b + y + c)` for booleans `x`, `y`.
fn timed_bool2(t: u64, a: &str, x: bool, b: &str, y: bool, c: &str) -> (s: String)
    ensures
        s@ == timed(t, a@ + json_bool(x) + b@ + json_bool(y) + c@),
{
    let mut s = timed_start(t);
    s.append(a);
    push_bool(&mut s, x);
    s.append(b);
    push_bool(&mut s, y);
    s.append(c);
    assert(s@ =~= timed(t, a@ + json_bool(x) + b@ + json_bool(y) + c@));
    s
}

/// `timed(t, a + x + b + n + c)` for a text `x` and a number `n`.
fn timed_text_num(t: u64, a: &str, x: &str, b: &str, n: u64, c: &str) -> (s: String)
    ensures
        s@ == timed(t, a@ + x@ + b@ + decimal(n as nat) + c@),
{
    let mut s = timed_start(t);
    s.append(a);
    s.append(x);
    s.append(b);
    push_decimal(&mut s, n);
    s.append(c);
    assert(s@ =~= timed(t, a@ + x@ + b@ + decimal(n as nat) + c@));
    s
}

/// `timed(t, a + x + b + y + c)` for texts `x`, `y`.
fn timed_text2(t: u64, a: &str, x: &str, b: &str, y: &str, c: &str) -> (s: String)
    ensures
        s@ == timed(t, a@ + x@ + b@ + y@ + c@),
{
    let mut s = timed_start(t);
    s.append(a);
    s.append(x);
    s.append(b);
    s.append(y);
    s.append(c);
    assert(s@ =~= timed(t, a@ + x@ + b@ + y@ + c@));
    s
}

fn interruption_json(t: u64, speaker: &str, interrupted: &str, overlap_ms: u64) -> (s: String)
    ensures
        s@ == event_json(
            Event::Interruption { t, speaker: speaker, interrupted: interrupted, overlap_ms },
            Seq::empty(),
        ),
{
    let mut s = timed_start(t);
    s.append(",\"event\":\"INTERRUPTION\",\"speaker\":\"");
    s.append(speaker);
    s.append("\",\"interrupted\":\"");
    s.append(interrupted);
    s.append("\",\"overlap_ms\":");
    push_decimal(&mut s, overlap_ms);
    s.append(",\"estimated\":true}");
    assert(s@ =~= timed(
        t,
        ",\"event\":\"INTERRUPTION\",\"speaker\":\""@ + speaker@ + "\",\"interrupted\":\""@ + interrupted@
            + "\",\"overlap_ms\":"@ + decimal(overlap_ms as nat) + ",\"estimated\":true}"@,
    ));
    s
}

fn session_start_json() -> (s: String)
    ensures
        s@ == event_json(Event::SessionStart, Seq::empty()),
{
    let mut s = String::new();
    s.append("{\"t\":0,\"event\":\"SESSION_START\",\"frame_ms\":");
    push_decimal(&mut s, FRAME_MS as u64);
    s.append(",\"engine_version\":\"");
    s.append(ENGINE_VERSION);
    s.append("\"}");
    assert(s@ =~= event_json(Event::SessionStart, Seq::empty()));
    s
}

fn social_config_json(dual_channel: bool, demo: bool) -> (s: String)
    ensures
        s@ == event_json(Event::SocialConfig { dual_channel, demo }, Seq::empty()),
{
    let mut s = String::new();
    s.append("{\"t\":0,\"event\":\"SOCIAL_CONFIG\",\"mode\":\"");
    if dual_channel {
        s.append("DUAL_CHANNEL");
    } else {
        s.append("MONO");
    }
    s.append("\",\"estimated\":true,\"demo\":");
    push_bool(&mut s, demo);
    s.append("}");
    assert(s@ =~= event_json(Event::SocialConfig { dual_channel, demo }, Seq::empty()));
    s
}

impl Event {
    /// The event's JSONL line, with `dbfs` printed as the dBFS value of an
    /// ENERGY_LEVEL event (other events ignore it).
    pub fn to_json_with_dbfs(self, dbfs: &str) -> (r: String)
        ensures
            r@ == event_json(self, dbfs@),
    {
        match self {
            Event::SessionStart => session_start_json(),
            Event::SpeakingStart { t } => {
                let mut s = timed_start(t);
                s.append(",\"event\":\"SPEAKING_START\"}");
                s
            },
            Event::SpeakingStop { t, utterance_ms } => timed_num(
                t,
                ",\"event\":\"SPEAKING_STOP\",\"utterance_ms\":",
                utterance_ms,
                "}",
            ),
            Event::Silence { t, since_ms } => timed_num(t, ",\"event\":\"SILENCE\",\"since_ms\":", since_ms, "}"),
            Event::LongPause { t, pause_ms } => timed_num(
                t,
                ",\"event\":\"LONG_PAUSE\",\"pause_ms\":",
                pause_ms,
                "}",
            ),
            Event::EnergyLevel { t, band, avg_power } => timed_text2(
                t,
                ",\"event\":\"ENERGY_LEVEL\",\"band\":\"",
                band_str(band),
                "\",\"dbfs\":",
                dbfs,
                "}",
            ),
            Event::PrivacySummary { t, frames_processed, audio_samples_discarded } => timed_num2(
                t,
                ",\"event\":\"PRIVACY_SUMMARY\",\"frames_processed\":",
                frames_processed,
                ",\"audio_samples_discarded\":",
                audio_samples_discarded,
                ",\"audio_bytes_persisted\":0,\"words_transcribed\":0}",
            ),
            Event::SessionEnd { t } => timed_num(t, ",\"event\":\"SESSION_END\",\"duration_ms\":", t, "}"),
            Event::SocialConfig { dual_channel, demo } => social_config_json(dual_channel, demo),
            Event::ChannelActivity { t, active_a, active_b } => timed_bool2(
                t,
                ",\"event\":\"CHANNEL_ACTIVITY\",\"active_a\":",
                active_a,
                ",\"active_b\":",
                active_b,
                "}",
            ),
            Event::TurnTaken { t, speaker, turn_ms } => timed_text_num(
                t,
                ",\"event\":\"TURN_TAKEN\",\"speaker\":\"",
                speaker,
                "\",\"turn_ms\":",
                turn_ms,
                ",\"estimated\":true}",
            ),
            Event::OverlapDetected { t, overlap_ms } => timed_num(
                t,
                ",\"event\":\"OVERLAP_DETECTED\",\"overlap_ms\":",
                overlap_ms,
                ",\"estimated\":true}",
            ),
            Event::Interruption { t, speaker, interrupted, overlap_ms } => interruption_json(
                t,
                speaker,
                interrupted,
                overlap_ms,
            ),
        }
    }

    /// The event's JSONL line. ENERGY_LEVEL is the one event whose line holds
    /// a floating-point value (its dBFS); for it this returns `None` and the
    /// line is rendered with `to_json_with_dbfs`.
    pub fn to_json(self) -> (r: Option<String>)
        ensures
            self is EnergyLevel ==> r is None,
            !(self is EnergyLevel) ==> (r matches Some(s) && s@ == event_json(self, Seq::empty())),
    {
        if let Event::EnergyLevel { .. } = self {
            None
        } else {
            Some(self.to_json_with_dbfs(""))
        }
    }
}

/// Schema name of an energy band.
pub fn band_str(band: Band) -> (r: &'static str)
    ensures
        r@ == band_name(band),
{
    match band {
        Band::Low => "LOW",
        Band::Med => "MED",
        Band::High => "HIGH",
    }
}

/// Milliseconds since session start of a frame index.
pub open spec fn frame_ms(frame_index: u64) -> u64 {
    (frame_index * FRAME_MS) as u64
}

fn ms(frame_index: u64) -> (r: u64)
    requires
        frame_index * FRAME_MS <= u64::MAX,
    ensures
        r == frame_ms(frame_index),
{
    frame_index * FRAME_MS as u64
}

/// The parts of a frame's schema events, in order: speaking start,
/// speaking stop, silence, long pause, energy level (each empty or one event).
pub open spec fn report_parts(r: FrameReport) -> (Seq<Event>, Seq<Event>, Seq<Event>, Seq<Event>, Seq<Event>) {
    let t = frame_ms(r.frame_index);
    (
        if r.speaking_start { seq![Event::SpeakingStart { t }] } else { Seq::empty() },
        if r.speaking_stop {
            seq![Event::SpeakingStop { t, utterance_ms: (r.utterance_frames * FRAME_MS) as u64 }]
        } else {
            Seq::empty()
        },
        if r.silence {
            seq![Event::Silence { t, since_ms: (r.silence_frames * FRAME_MS) as u64 }]
        } else {
            Seq::empty()
        },
        if r.long_pause {
            seq![Event::LongPause { t, pause_ms: (r.silence_frames * FRAME_MS) as u64 }]
        } else {
            Seq::empty()
        },
        match r.energy_band {
            Some((band, avg_power)) => seq![Event::EnergyLevel { t, band, avg_power }],
            None => Seq::empty(),
        },
    )
}

/// The schema events triggered by one frame's strobes, in order: speaking
/// start, speaking stop, silence, long pause, energy level.
pub open spec fn report_events(r: FrameReport) -> Seq<Event> {
    let (a, b, c, d, e) = report_parts(r);
    a + b + c + d + e
}

/// Every schema event of a frame carries the frame's time.
pub proof fn lemma_report_events_at_time(r: FrameReport)
    ensures
        forall|k: int|
            0 <= k < report_events(r).len() ==> event_time(#[trigger] report_events(r)[k]) == frame_ms(r.frame_index),
{
    let t = frame_ms(r.frame_index);
    let (a, b, c, d, e) = report_parts(r);
    let ab = a + b;
    let abc = ab + c;
    let abcd = abc + d;
    let evs = abcd + e;
    assert forall|k: int| 0 <= k < evs.len() implies event_time(#[trigger] evs[k]) == t by {
        if k < abcd.len() {
            assert(evs[k] == abcd[k]);
            if k < abc.len() {
                assert(abcd[k] == abc[k]);
                if k < ab.len() {
                    assert(abc[k] == ab[k]);
                    if k < a.len() {
                        assert(ab[k] == a[k]);
                    } else {
                        assert(ab[k] == b[k - a.len()]);
                    }
                } else {
                    assert(abc[k] == c[k - ab.len()]);
                }
            } else {
                assert(abcd[k] == d[k - abc.len()]);
            }
        } else {
            assert(evs[k] == e[k - abcd.len()]);
        }
    }
}

/// The 0..n schema events triggered by one frame's strobes.
pub fn from_report(r: &FrameReport) -> (events: Vec<Event>)
    requires
        r.frame_index * FRAME_MS <= u64::MAX,
    ensures
        events@ == report_events(*r),
{
    let t = ms(r.frame_index);
    let mut events = Vec::new();
    if r.speaking_start {
        events.push(Event::SpeakingStart { t });
    }
    if r.speaking_stop {
        events.push(Event::SpeakingStop { t, utterance_ms: r.utterance_frames as u64 * FRAME_MS as u64 });
    }
    if r.silence {
        events.push(Event::Silence { t, since_ms: r.silence_frames as u64 * FRAME_MS as u64 });
    }
    if r.long_pause {
        events.push(Event::LongPause { t, pause_ms: r.silence_frames as u64 * FRAME_MS as u64 });
    }
    if let Some((band, avg_power)) = r.energy_band {
        events.push(Event::EnergyLevel { t, band, avg_power });
    }
    events
}

/// The JSONL lines of the schema: each is `{"t":<t>,"event":"<NAME>"`
/// followed by the event's fields in schema order and `}`, numbers in
/// decimal, booleans as `true`/`false`, and SESSION_START and SOCIAL_CONFIG
/// at t 0.
pub proof fn lemma_event_lines(e: Event, dbfs: Seq<char>)
    ensures
        e matches Event::SessionStart ==> event_json(e, dbfs) == "{\"t\":0,\"event\":\"SESSION_START\",\"frame_ms\":20,\"engine_version\":\"0.1.0\"}"@,
        e matches Event::SpeakingStart { t } ==> event_json(e, dbfs) == "{\"t\":"@ + decimal(t as nat)
            + ",\"event\":\"SPEAKING_START\"}"@,
        e matches Event::SpeakingStop { t, utterance_ms } ==> event_json(e, dbfs) == "{\"t\":"@ + decimal(t as nat)
            + ",\"event\":\"SPEAKING_STOP\",\"utterance_ms\":"@ + decimal(utterance_ms as nat) + "}"@,
        e matches Event::Silence { t, since_ms } ==> event_json(e, dbfs) == "{\"t\":"@ + decimal(t as nat)
            + ",\"event\":\"SILENCE\",\"since_ms\":"@ + decimal(since_ms as nat) + "}"@,
        e matches Event::LongPause { t, pause_ms } ==> event_json(e, dbfs) == "{\"t\":"@ + decimal(t as nat)
            + ",\"event\":\"LONG_PAUSE\",\"pause_ms\":"@ + decimal(pause_ms as nat) + "}"@,
        e matches Event::EnergyLevel { t, band, .. } ==> event_json(e, dbfs) == "{\"t\":"@ + decimal(t as nat)
            + ",\"event\":\"ENERGY_LEVEL\",\"band\":\""@ + (match band {
            Band::Low => "LOW"@,
            Band::Med => "MED"@,
            Band::High => "HIGH"@,
        }) + "\",\"dbfs\":"@ + dbfs + "}"@,
        e matches Event::PrivacySummary { t, frames_processed, audio_samples_discarded } ==> event_json(e, dbfs)
            == "{\"t\":"@ + decimal(t as nat) + ",\"event\":\"PRIVACY_SUMMARY\",\"frames_processed\":"@ + decimal(
            frames_processed as nat,
        ) + ",\"audio_samples_discarded\":"@ + decimal(audio_samples_discarded as nat)
            + ",\"audio_bytes_persisted\":0,\"words_transcribed\":0}"@,
        e matches Event::SessionEnd { t } ==> event_json(e, dbfs) == "{\"t\":"@ + decimal(t as nat)
            + ",\"event\":\"SESSION_END\",\"duration_ms\":"@ + decimal(t as nat) + "}"@,
        e matches Event::SocialConfig { dual_channel, demo } ==> event_json(e, dbfs)
            == "{\"t\":0,\"event\":\"SOCIAL_CONFIG\",\"mode\":\""@ + (if dual_channel {
            "DUAL_CHANNEL"@
        } else {
            "MONO"@
        }) + "\",\"estimated\":true,\"demo\":"@ + (if demo { "true"@ } else { "false"@ }) + "}"@,
        e matches Event::ChannelActivity { t, active_a, active_b } ==> event_json(e, dbfs) == "{\"t\":"@ + decimal(
            t as nat,
        ) + ",\"event\":\"CHANNEL_ACTIVITY\",\"active_a\":"@ + (if active_a { "true"@ } else { "false"@ })
            + ",\"active_b\":"@ + (if active_b { "true"@ } else { "false"@ }) + "}"@,
        e matches Event::TurnTaken { t, speaker, turn_ms } ==> event_json(e, dbfs) == "{\"t\":"@ + decimal(t as nat)
            + ",\"event\":\"TURN_TAKEN\",\"speaker\":\""@ + speaker@ + "\",\"turn_ms\":"@ + decimal(turn_ms as nat)
            + ",\"estimated\":true}"@,
        e matches Event::OverlapDetected { t, overlap_ms } ==> event_json(e, dbfs) == "{\"t\":"@ + decimal(t as nat)
            + ",\"event\":\"OVERLAP_DETECTED\",\"overlap_ms\":"@ + decimal(overlap_ms as nat)
            + ",\"estimated\":true}"@,
        e matches Event::Interruption { t, speaker, interrupted, overlap_ms } ==> event_json(e, dbfs) == "{\"t\":"@
            + decimal(t as nat) + ",\"event\":\"INTERRUPTION\",\"speaker\":\""@ + speaker@ + "\",\"interrupted\":\""@
            + interrupted@ + "\",\"overlap_ms\":"@ + decimal(overlap_ms as nat) + ",\"estimated\":true}"@,
{
    reveal_strlit("0.1.0");
    reveal_strlit("{\"t\":0,\"event\":\"SESSION_START\",\"frame_ms\":");
    reveal_strlit(",\"engine_version\":\"");
    reveal_strlit("\"}");
    reveal_strlit("{\"t\":0,\"event\":\"SESSION_START\",\"frame_ms\":20,\"engine_version\":\"0.1.0\"}");
    assert(decimal(20) =~= seq!['2', '0']) by {
        assert(decimal(2) == seq![digit_char(2)]);
    }
    if e is SessionStart {
        assert(event_json(e, dbfs) =~= "{\"t\":0,\"event\":\"SESSION_START\",\"frame_ms\":20,\"engine_version\":\"0.1.0\"}"@);
    }
}

/// The events of one frame report, in order: SPEAKING_START when speech
/// starts, SPEAKING_STOP with the utterance length in ms when it stops,
/// SILENCE and LONG_PAUSE with the quiet time in ms when they strobe, and
/// ENERGY_LEVEL with the band and average power when a window completes —
/// all at the frame's time, 20 ms per frame index.
pub proof fn lemma_report_event_contents(r: FrameReport)
    ensures
        ({
            let t = (r.frame_index * 20) as u64;
            let (a, b, c, d, e) = report_parts(r);
            &&& report_events(r) == a + b + c + d + e
            &&& a == if r.speaking_start { seq![Event::SpeakingStart { t }] } else { Seq::empty() }
            &&& b == if r.speaking_stop {
                seq![Event::SpeakingStop { t, utterance_ms: (r.utterance_frames * 20) as u64 }]
            } else {
                Seq::empty()
            }
            &&& c == if r.silence { seq![Event::Silence { t, since_ms: (r.silence_frames * 20) as u64 }] } else { Seq::empty() }
            &&& d == if r.long_pause { seq![Event::LongPause { t, pause_ms: (r.silence_frames * 20) as u64 }] } else { Seq::empty() }
            &&& e == match r.energy_band {
                Some((band, avg_power)) => seq![Event::EnergyLevel { t, band, avg_power }],
                None => Seq::empty(),
            }
        }),
{
}

} // verus!
