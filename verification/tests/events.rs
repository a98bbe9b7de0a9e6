use ice_engine::host::events::{band_str, from_report, Event};
use ice_engine::signal::{Band, FrameReport};

#[test]
fn speaking_stop_line_matches_schema() {
    let r = FrameReport {
        frame_index: 617,
        speaking_stop: true,
        utterance_frames: 160,
        ..Default::default()
    };
    let events = from_report(&r);
    assert_eq!(
        events,
        vec![Event::SpeakingStop {
            t: 12340,
            utterance_ms: 3200
        }]
    );
    assert_eq!(
        events[0].to_json().as_deref(),
        Some(r#"{"t":12340,"event":"SPEAKING_STOP","utterance_ms":3200}"#)
    );
}

#[test]
fn energy_level_line_takes_printed_dbfs() {
    let e = Event::EnergyLevel {
        t: 1260,
        band: Band::Med,
        avg_power: 20_000,
    };
    assert_eq!(e.to_json(), None);
    assert_eq!(
        e.to_json_with_dbfs("-32.4"),
        r#"{"t":1260,"event":"ENERGY_LEVEL","band":"MED","dbfs":-32.4}"#
    );
    assert_eq!(band_str(Band::High), "HIGH");
}

#[test]
fn lifecycle_lines_match_schema() {
    assert_eq!(
        Event::SessionStart.to_json().as_deref(),
        Some(r#"{"t":0,"event":"SESSION_START","frame_ms":20,"engine_version":"0.1.0"}"#)
    );
    assert_eq!(
        Event::SocialConfig {
            dual_channel: false,
            demo: true
        }
        .to_json()
        .as_deref(),
        Some(r#"{"t":0,"event":"SOCIAL_CONFIG","mode":"MONO","estimated":true,"demo":true}"#)
    );
    assert_eq!(
        Event::ChannelActivity {
            t: 20,
            active_a: true,
            active_b: false
        }
        .to_json()
        .as_deref(),
        Some(r#"{"t":20,"event":"CHANNEL_ACTIVITY","active_a":true,"active_b":false}"#)
    );
    assert_eq!(
        Event::Interruption {
            t: 1700,
            speaker: "B",
            interrupted: "A",
            overlap_ms: 400
        }
        .to_json()
        .as_deref(),
        Some(r#"{"t":1700,"event":"INTERRUPTION","speaker":"B","interrupted":"A","overlap_ms":400,"estimated":true}"#)
    );
}

#[test]
fn every_strobe_becomes_an_event_in_order() {
    let r = FrameReport {
        frame_index: 200,
        long_pause: true,
        silence_frames: 200,
        energy_band: Some((Band::Low, 5)),
        ..Default::default()
    };
    assert_eq!(
        from_report(&r),
        vec![
            Event::LongPause {
                t: 4000,
                pause_ms: 4000
            },
            Event::EnergyLevel {
                t: 4000,
                band: Band::Low,
                avg_power: 5
            }
        ]
    );
}
