use ice_engine::host::analytics::{SessionAnalytics, Summary};
use ice_engine::host::events::Event;
use ice_engine::host::ratio::Ratio;
use ice_engine::signal::Band;

fn utterance(a: &mut SessionAnalytics, start: u64, dur: u64) {
    a.observe(&Event::SpeakingStart { t: start });
    a.observe(&Event::SpeakingStop {
        t: start + dur + 400,
        utterance_ms: dur,
    });
}

/// A ratio as the floating-point value the event line prints.
fn value(r: Ratio) -> f64 {
    r.num as f64 / r.den as f64
}

/// dBFS of a core frame power, as the host prints it.
fn dbfs(frame_power: u32) -> f32 {
    if frame_power == 0 {
        return -90.0;
    }
    let mean_sq = frame_power as f64 * 256.0 / 320.0;
    (10.0 * (mean_sq / (32768.0f64 * 32768.0)).log10()).max(-90.0) as f32
}

fn mean(values: impl Iterator<Item = f32>) -> f32 {
    let (sum, n) = values.fold((0.0f32, 0u32), |(s, n), v| (s + v, n + 1));
    if n == 0 {
        0.0
    } else {
        sum / n as f32
    }
}

/// Average dBFS and energy trend of a summary's energy levels, computed as
/// the host computes them for the SESSION_ANALYTICS line.
fn energy(summary: &Summary) -> (f32, &'static str) {
    if summary.energy.is_empty() {
        return (-90.0, "STEADY");
    }
    let mid = summary.duration_ms / 2;
    let avg = mean(summary.energy.iter().map(|&(_, p)| dbfs(p)));
    let (a, b): (Vec<_>, Vec<_>) = summary.energy.iter().partition(|&&(t, _)| t < mid);
    let trend = if a.is_empty() || b.is_empty() {
        "STEADY"
    } else {
        let delta = mean(b.iter().map(|&&(_, p)| dbfs(p))) - mean(a.iter().map(|&&(_, p)| dbfs(p)));
        if delta > 2.0 {
            "RISING"
        } else if delta < -2.0 {
            "FALLING"
        } else {
            "STEADY"
        }
    };
    (avg, trend)
}

/// The SESSION_ANALYTICS line with its floating-point fields computed from
/// the summary as the host prints them.
fn analytics_line(s: &Summary) -> String {
    let (avg, trend) = energy(s);
    s.to_json_with(
        &format!("{:.2}", value(s.speech_ratio)),
        &format!("{:.1}", value(s.utterances_per_min)),
        &format!("{:.1}", avg),
        trend,
    )
}

#[test]
fn ratio_lulls_and_pace() {
    let mut a = SessionAnalytics::new();
    utterance(&mut a, 2_000, 2_500); // ends 4 500
    utterance(&mut a, 12_000, 2_500); // ends 14 500
    a.observe(&Event::LongPause {
        t: 9_000,
        pause_ms: 4_000,
    });
    let s = a.finalize(20_000);

    assert_eq!(s.utterances, 2);
    assert_eq!(s.speech_ms, 5_000);
    assert!((value(s.speech_ratio) - 0.25).abs() < 1e-9);
    assert!((value(s.utterances_per_min) - 6.0).abs() < 1e-9);
    assert_eq!(s.longest_lull_ms, 7_500); // 4 500 → 12 000
    assert_eq!(s.long_pauses, 1);
    assert_eq!(s.momentum, "STEADY"); // 2 500 ms in each half
}

#[test]
fn momentum_gaining_when_second_half_denser() {
    let mut a = SessionAnalytics::new();
    utterance(&mut a, 0, 1_000);
    utterance(&mut a, 10_000, 9_000);
    let s = a.finalize(20_000);
    assert_eq!(s.momentum, "GAINING");
}

#[test]
fn momentum_fading_when_first_half_denser() {
    let mut a = SessionAnalytics::new();
    utterance(&mut a, 0, 9_000);
    utterance(&mut a, 12_000, 500);
    let s = a.finalize(20_000);
    assert_eq!(s.momentum, "FADING");
}

#[test]
fn momentum_boundary_is_steady() {
    // Second half denser by exactly 0.10 of the half length: not beyond ±0.10.
    let mut a = SessionAnalytics::new();
    utterance(&mut a, 10_000, 1_000);
    assert_eq!(a.finalize(20_000).momentum, "STEADY");
    let mut b = SessionAnalytics::new();
    utterance(&mut b, 10_000, 1_001);
    assert_eq!(b.finalize(20_000).momentum, "GAINING");
}

#[test]
fn open_utterance_is_closed_at_session_end() {
    let mut a = SessionAnalytics::new();
    a.observe(&Event::SpeakingStart { t: 18_000 });
    let s = a.finalize(20_000);
    assert_eq!(s.utterances, 1);
    assert_eq!(s.speech_ms, 2_000);
}

#[test]
fn empty_session_is_all_zeroes() {
    let s = SessionAnalytics::new().finalize(0);
    assert_eq!(value(s.speech_ratio), 0.0);
    assert_eq!(s.utterances, 0);
    assert_eq!(s.longest_lull_ms, 0);
    assert!(s.energy.is_empty());
    assert_eq!(energy(&s).1, "STEADY");
}

#[test]
fn energy_levels_are_kept_in_order() {
    let mut a = SessionAnalytics::new();
    a.observe(&Event::EnergyLevel {
        t: 1_280,
        band: Band::Med,
        avg_power: 20_000,
    });
    a.observe(&Event::EnergyLevel {
        t: 2_560,
        band: Band::High,
        avg_power: 500_000,
    });
    let s = a.finalize(3_000);
    assert_eq!(s.energy, vec![(1_280, 20_000), (2_560, 500_000)]);
}

#[test]
fn json_line_is_stable() {
    let mut a = SessionAnalytics::new();
    utterance(&mut a, 2_000, 2_500);
    utterance(&mut a, 12_000, 2_500);
    let json = analytics_line(&a.finalize(20_000));
    assert_eq!(
        json,
        r#"{"t":20000,"event":"SESSION_ANALYTICS","duration_ms":20000,"speech_ms":5000,"speech_ratio":0.25,"utterances":2,"utterances_per_min":6.0,"longest_lull_ms":7500,"long_pauses":0,"avg_dbfs":-90.0,"energy_trend":"STEADY","momentum":"STEADY"}"#
    );
}

#[test]
fn energy_trend_rises_with_louder_second_half() {
    let mut a = SessionAnalytics::new();
    // Average frame powers of -40, -38, -33 and -31 dBFS.
    for (t, avg_power) in [(1_000, 134_218), (3_000, 212_721), (5_000, 672_682), (7_000, 1_066_129)] {
        a.observe(&Event::EnergyLevel { t, band: Band::Med, avg_power });
    }
    let s = a.finalize(8_000);
    let (avg, trend) = energy(&s);
    assert_eq!(trend, "RISING");
    assert!((avg - -35.5).abs() < 0.01);
}
