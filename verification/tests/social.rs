use ice_engine::host::events::Event;
use ice_engine::host::social::{SocialSignals, SocialSummary};

fn activity(s: &mut SocialSignals, t: u64, a: bool, b: bool) -> Vec<Event> {
    s.observe(&Event::ChannelActivity {
        t,
        active_a: a,
        active_b: b,
    })
}

/// Shares as the floating-point fractions the event line prints.
fn shares(summary: &SocialSummary) -> Option<[f64; 2]> {
    summary
        .shares
        .map(|s| [s[0].num as f64 / s[0].den as f64, s[1].num as f64 / s[1].den as f64])
}

#[test]
fn balanced_turns_and_silence_do_not_imply_overlap() {
    let mut s = SocialSignals::new(true);
    activity(&mut s, 0, true, false);
    activity(&mut s, 4000, false, false);
    activity(&mut s, 5000, false, true);
    s.finish(9000);
    let summary = s.snapshot(10000, true);
    assert_eq!(summary.speech_ms, [4000, 4000]);
    assert_eq!(shares(&summary), Some([0.5, 0.5]));
    assert_eq!(
        (summary.turns, summary.overlaps, summary.interruptions),
        (2, 0, 0)
    );
    assert_eq!(summary.suggestion, "ASK_FOLLOW_UP");
}

#[test]
fn interruption_requires_overlap_and_sustained_takeover() {
    let mut s = SocialSignals::new(true);
    activity(&mut s, 0, true, false);
    activity(&mut s, 1000, true, true);
    let events = activity(&mut s, 1400, false, true);
    assert!(events.contains(&Event::OverlapDetected {
        t: 1400,
        overlap_ms: 400
    }));
    assert!(s.advance(1699).is_empty());
    assert_eq!(
        s.advance(1700),
        vec![Event::Interruption {
            t: 1700,
            speaker: "B",
            interrupted: "A",
            overlap_ms: 400
        }]
    );
    assert!(s.advance(2000).is_empty());
    s.finish(10000);
    assert_eq!(s.snapshot(10000, true).suggestion, "LEAVE_SPACE");
}

#[test]
fn backchannel_simultaneous_start_and_short_overlap_are_not_interruptions() {
    for (initial, end, duration) in [
        ([true, false], [true, false], 400),
        ([false, false], [false, true], 400),
        ([true, false], [false, true], 199),
    ] {
        let mut s = SocialSignals::new(true);
        activity(&mut s, 0, initial[0], initial[1]);
        activity(&mut s, 1000, true, true);
        activity(&mut s, 1000 + duration, end[0], end[1]);
        s.advance(3000);
        assert_eq!(s.snapshot(3000, false).interruptions, 0);
    }
}

#[test]
fn interrupted_takeover_is_cancelled_and_end_closes_once() {
    let mut s = SocialSignals::new(true);
    activity(&mut s, 0, true, false);
    activity(&mut s, 1000, true, true);
    activity(&mut s, 1400, false, true);
    activity(&mut s, 1600, false, false);
    s.finish(5000);
    assert_eq!(s.snapshot(5000, true).interruptions, 0);
    activity(&mut s, 6000, true, true);
    let end = s.finish(7000);
    assert_eq!(end.len(), 3); // one overlap, two turns
    assert!(s.finish(7000).is_empty());
    assert_eq!(s.snapshot(7000, true).speech_ms, [2400, 1600]);
}

#[test]
fn empty_mono_and_dominant_sessions_have_honest_suggestions() {
    assert_eq!(shares(&SocialSignals::new(true).snapshot(0, true)), None);
    let mono = SocialSignals::new(false).snapshot(10000, true);
    assert!(mono
        .to_json()
        .unwrap()
        .contains(r#""shares":null,"speech_ms":null"#));
    assert_eq!(mono.suggestion, "REFLECT_TOGETHER");
    let mut s = SocialSignals::new(true);
    activity(&mut s, 0, true, false);
    s.finish(10000);
    assert_eq!(s.snapshot(10000, true).suggestion, "INVITE_OTHER");
}

#[test]
fn social_line_prints_counts_and_prompt() {
    let mut s = SocialSignals::new(true);
    activity(&mut s, 0, true, false);
    activity(&mut s, 1000, true, true);
    activity(&mut s, 1400, false, true);
    s.advance(1700);
    s.finish(20000);
    let summary = s.snapshot(20000, true);
    assert!(summary.to_json().is_none());
    assert_eq!(
        summary.to_json_with_shares("[0.0714,0.9286]"),
        r#"{"t":20000,"event":"SOCIAL_SIGNALS","final":true,"available":true,"estimated":true,"reason":"SEPARATE_CHANNELS","shares":[0.0714,0.9286],"speech_ms":[1400,19000],"turns":2,"overlap_ms":400,"overlaps":1,"interruptions":1,"suggestion":"LEAVE_SPACE","suggestion_text":"Try leaving a short pause before responding so each person can finish."}"#
    );
}

#[test]
fn mono_tracker_ignores_activity() {
    let mut s = SocialSignals::new(false);
    assert!(activity(&mut s, 1000, true, true).is_empty());
    assert!(s.finish(5000).is_empty());
    let summary = s.snapshot(20000, true);
    assert_eq!(summary.speech_ms, [0, 0]);
    assert_eq!(summary.turns, 0);
    assert_eq!(summary.suggestion_text(), "Ask each other how the conversation felt and whether you would like to continue.");
}

#[test]
fn turns_report_channel_and_duration() {
    let mut s = SocialSignals::new(true);
    activity(&mut s, 100, false, true);
    let events = activity(&mut s, 2100, false, false);
    assert_eq!(
        events,
        vec![Event::TurnTaken {
            t: 2100,
            speaker: "B",
            turn_ms: 2000
        }]
    );
    assert_eq!(
        events[0].to_json().as_deref(),
        Some(r#"{"t":2100,"event":"TURN_TAKEN","speaker":"B","turn_ms":2000,"estimated":true}"#)
    );
}

#[test]
fn suggestion_priority_keep_listening_first() {
    let mut s = SocialSignals::new(true);
    activity(&mut s, 0, true, false);
    activity(&mut s, 1000, true, true);
    activity(&mut s, 1400, false, true);
    s.advance(1700);
    s.finish(4000);
    // An interruption exists, but under 10 s of session comes first.
    assert_eq!(s.snapshot(4000, false).suggestion, "KEEP_LISTENING");
}

#[test]
fn overlap_is_counted_in_both_channels() {
    let mut s = SocialSignals::new(true);
    activity(&mut s, 0, true, true);
    activity(&mut s, 150, true, false);
    s.finish(1000);
    let summary = s.snapshot(1000, true);
    // 150 ms of overlap (too short for an episode) is still in both totals.
    assert_eq!(summary.overlap_ms, 150);
    assert_eq!(summary.overlaps, 0);
    assert_eq!(summary.speech_ms, [1000, 150]);
    let shares = summary.shares.unwrap();
    assert_eq!(shares[0].num + shares[1].num, shares[0].den);
    assert!(summary.interruptions <= summary.overlaps);
}

#[test]
fn finish_confirms_only_an_elapsed_takeover() {
    // B joins A's turn, A stops after 400 ms of overlap: a takeover is pending.
    let mut early = SocialSignals::new(true);
    activity(&mut early, 0, true, false);
    activity(&mut early, 1000, true, true);
    activity(&mut early, 1400, false, true);
    // Ending 100 ms later does not establish an interruption.
    let end = early.finish(1500);
    assert!(end.iter().all(|e| !matches!(e, Event::Interruption { .. })));
    assert_eq!(early.snapshot(1500, true).interruptions, 0);

    let mut late = SocialSignals::new(true);
    activity(&mut late, 0, true, false);
    activity(&mut late, 1000, true, true);
    activity(&mut late, 1400, false, true);
    // B has stayed alone for 300 ms by the end: the takeover is confirmed once.
    let end = late.finish(1700);
    assert_eq!(
        end[0],
        Event::Interruption { t: 1700, speaker: "B", interrupted: "A", overlap_ms: 400 }
    );
    assert_eq!(late.snapshot(1700, true).interruptions, 1);
    assert!(late.finish(1700).is_empty());
}
