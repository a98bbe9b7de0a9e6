use ice_engine::host::demo::{schedule, FRAMES};
use ice_engine::host::events::Event;
use ice_engine::host::session::{input_supported, Output, Session};
use ice_engine::signal::{CORE_SAMPLE_RATE, FRAME_LEN};

/// The JSONL line of an output; floating-point fields get fixed stand-ins,
/// which none of the checks below read.
fn line(o: &Output) -> String {
    match o {
        Output::Event(e) => e.to_json_with_dbfs("-90.0"),
        Output::Social(s) => s.to_json().unwrap_or_else(|| s.to_json_with_shares("[0.5,0.5]")),
        Output::Analytics(s) => s.to_json_with("0.00", "0.0", "-90.0", "STEADY"),
    }
}

#[test]
fn mono_and_empty_sessions_do_not_invent_social_measurements() {
    for frames in [0u32, 100] {
        let mut out = Vec::new();
        let mut session = Session::new(false);
        for _ in 0..frames * FRAME_LEN {
            session.tick([8000, 0], &mut out);
        }
        let (_, social) = session.finish(frames as u64 * FRAME_LEN as u64, &mut out);
        assert!(!social.available);
        assert_eq!(social.shares, None);
        for line in out.iter().map(line) {
            assert!(!line.contains("CHANNEL_ACTIVITY"));
            assert!(!line.contains("TURN_TAKEN"));
            assert!(!line.contains("OVERLAP_DETECTED"));
            assert!(!line.contains("INTERRUPTION"));
        }
    }
}

#[test]
fn full_pipeline_detects_handoff_without_vad_tail_overlap() {
    let mut out = Vec::new();
    let mut session = Session::new(true);
    for frame in 0..600 {
        let samples = match frame {
            0..=199 => [8000, 0],
            200..=399 => [0, 8000],
            _ => [0, 0],
        };
        for _ in 0..FRAME_LEN {
            session.tick(samples, &mut out);
        }
    }
    let (_, social) = session.finish(600 * FRAME_LEN as u64 * 2, &mut out);
    assert_eq!(social.turns, 2);
    assert_eq!(social.overlaps, 0);
    assert_eq!(social.interruptions, 0);
    let shares = social.shares.unwrap();
    assert!((shares[0].num as f64 / shares[0].den as f64 - 0.5).abs() < 0.02);
    assert!(line(out.last().unwrap()).contains("SESSION_END"));
}

/// The synthetic demo frame: 180 Hz on A and 250 Hz on B while active.
fn demo_frame(index: u32) -> Vec<[i16; 2]> {
    let active = schedule(index);
    (0..FRAME_LEN)
        .map(|offset| {
            let sample_index = index * FRAME_LEN + offset;
            std::array::from_fn(|i| {
                if !active[i] {
                    return 0;
                }
                let phase = sample_index as f64 * [180.0, 250.0][i] / CORE_SAMPLE_RATE as f64;
                (phase * std::f64::consts::TAU).sin().mul_add(8000.0, 0.0) as i16
            })
        })
        .collect()
}

#[test]
fn demo_exercises_the_complete_social_pipeline() {
    let mut out = Vec::new();
    let mut session = Session::new(true);
    for index in 0..FRAMES {
        for samples in demo_frame(index) {
            session.tick(samples, &mut out);
        }
    }
    let (summary, social) = session.finish(FRAMES as u64 * FRAME_LEN as u64 * 2, &mut out);
    assert_eq!(summary.duration_ms, 20000);
    assert_eq!(social.turns, 5);
    assert_eq!(social.overlaps, 1);
    assert_eq!(social.interruptions, 1);
    assert_eq!(social.suggestion, "LEAVE_SPACE");
}

#[test]
fn session_ends_with_summary_lines_in_order() {
    let mut out = Vec::new();
    let mut session = Session::new(true);
    for _ in 0..(50 * FRAME_LEN) {
        session.tick([0, 0], &mut out);
    }
    let snapshots = out.iter().filter(|o| matches!(o, Output::Social(_))).count();
    assert_eq!(snapshots, 1);
    let before = out.len();
    session.finish(100, &mut out);
    let tail: Vec<String> = out[before..].iter().map(line).collect();
    assert_eq!(tail.len(), 4);
    assert!(tail[0].contains("SESSION_ANALYTICS"));
    assert!(tail[1].contains("SOCIAL_SIGNALS") && tail[1].contains(r#""final":true"#));
    assert_eq!(
        tail[2],
        r#"{"t":1000,"event":"PRIVACY_SUMMARY","frames_processed":50,"audio_samples_discarded":100,"audio_bytes_persisted":0,"words_transcribed":0}"#
    );
    assert_eq!(tail[3], r#"{"t":1000,"event":"SESSION_END","duration_ms":1000}"#);
}

#[test]
fn speech_never_exceeds_session_duration() {
    let mut out = Vec::new();
    let mut session = Session::new(false);
    for frame in 0..300u32 {
        let sample = if (40..260).contains(&frame) { 8000 } else { 0 };
        for i in 0..FRAME_LEN {
            let s = if i % 2 == 0 { sample } else { -sample };
            session.tick([s, 0], &mut out);
        }
    }
    let (summary, _) = session.finish(0, &mut out);
    assert_eq!(summary.duration_ms, 6000);
    assert_eq!(summary.utterances, 1);
    assert!(summary.speech_ms <= summary.duration_ms);
    assert!(summary.speech_ms > 0);
}

/// The `t` field of a JSONL line.
fn line_time(line: &str) -> u64 {
    let rest = line.strip_prefix(r#"{"t":"#).expect("line starts with t");
    let end = rest.find(',').expect("t is followed by a field");
    rest[..end].parse().expect("t is an integer")
}

#[test]
fn demo_stream_times_never_decrease() {
    let mut out = Vec::new();
    let mut session = Session::new(true);
    for index in 0..FRAMES {
        for samples in demo_frame(index) {
            session.tick(samples, &mut out);
        }
    }
    session.finish(0, &mut out);
    let times: Vec<u64> = out.iter().map(|o| line_time(&line(o))).collect();
    assert!(times.len() > 20);
    assert!(times.windows(2).all(|w| w[0] <= w[1]), "times: {times:?}");
    assert_eq!(*times.last().unwrap(), 20000);
}

#[test]
fn demo_channel_masks_change_on_every_line() {
    let mut out = Vec::new();
    let mut session = Session::new(true);
    for index in 0..FRAMES {
        for samples in demo_frame(index) {
            session.tick(samples, &mut out);
        }
    }
    session.finish(0, &mut out);
    let masks: Vec<(bool, bool)> = out
        .iter()
        .filter_map(|o| match o {
            Output::Event(Event::ChannelActivity { active_a, active_b, .. }) => Some((*active_a, *active_b)),
            _ => None,
        })
        .collect();
    assert!(masks.len() >= 10);
    let mut before = (false, false);
    for m in masks {
        assert_ne!(m, before);
        before = m;
    }
}

#[test]
fn ticks_inside_a_frame_emit_nothing() {
    let mut out = Vec::new();
    let mut session = Session::new(true);
    for _ in 0..FRAME_LEN - 1 {
        assert!(session.can_tick([1000, -1000]));
        assert!(session.tick([1000, -1000], &mut out).is_none());
    }
    assert!(out.is_empty());
    assert!(session.tick([1000, -1000], &mut out).is_some());
    assert!(input_supported(false, 1));
    assert!(!input_supported(true, 1));
    assert!(input_supported(true, 2));
}
