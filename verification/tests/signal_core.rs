use ice_engine::signal::energy::EnergyAccumulator;
use ice_engine::signal::lif::{LifNeuron, INPUT_CAP};
use ice_engine::signal::vad::{Vad, VadOutput, HANGOVER_FRAMES, LONG_PAUSE_FRAMES, SILENCE_FRAMES};
use ice_engine::signal::{Band, Engine, FrameReport, FRAME_LEN};

#[test]
fn emits_exactly_on_frame_boundary() {
    let mut acc = EnergyAccumulator::new();
    for _ in 0..FRAME_LEN - 1 {
        assert_eq!(acc.push(1000), None);
    }
    assert!(acc.push(1000).is_some());
    assert_eq!(acc.push(1000), None); // next frame started fresh
}

#[test]
fn full_scale_square_wave_energy_is_exact() {
    let mut acc = EnergyAccumulator::new();
    let mut out = None;
    for i in 0..FRAME_LEN {
        let s = if i % 2 == 0 { 32767 } else { -32767 };
        out = acc.push(s);
    }
    assert_eq!(out, Some(FRAME_LEN as u64 * 32767 * 32767));
}

#[test]
fn silence_is_zero() {
    let mut acc = EnergyAccumulator::new();
    let mut out = None;
    for _ in 0..FRAME_LEN {
        out = acc.push(0);
    }
    assert_eq!(out, Some(0));
}

#[test]
fn strong_drive_spikes_within_three_frames() {
    let mut n = LifNeuron::vad_default();
    let spikes: Vec<bool> = (0..3).map(|_| n.step(INPUT_CAP)).collect();
    assert!(spikes.contains(&true), "no spike in 3 frames: {spikes:?}");
}

#[test]
fn weak_drive_never_spikes() {
    let mut n = LifNeuron::vad_default();
    // Equilibrium = 8 * 8000 = 64k, well under the 262k threshold.
    assert!((0..1000).all(|_| !n.step(8_000)));
}

#[test]
fn potential_leaks_back_to_zero() {
    let mut n = LifNeuron::vad_default();
    n.step(INPUT_CAP);
    for _ in 0..200 {
        n.step(0);
    }
    assert_eq!(n.potential(), 0);
}

#[test]
fn sustained_drive_produces_a_spike_train() {
    let mut n = LifNeuron::vad_default();
    let spikes = (0..50).filter(|_| n.step(INPUT_CAP)).count();
    assert!(spikes >= 10, "only {spikes} spikes in 50 frames");
}

fn feed(engine: &mut Engine, samples: impl Iterator<Item = i16>) -> Vec<FrameReport> {
    samples.filter_map(|s| engine.tick(s)).collect()
}

/// ±8000 square wave: frame_power ≈ 8000² * 320 >> 8 = 8e7, loud speech.
fn loud(n_frames: u32) -> impl Iterator<Item = i16> {
    (0..n_frames * FRAME_LEN).map(|i| if i % 2 == 0 { 8000 } else { -8000 })
}

fn quiet(n_frames: u32) -> impl Iterator<Item = i16> {
    (0..n_frames * FRAME_LEN).map(|_| 0)
}

#[test]
fn silence_emits_no_speech_events() {
    let mut engine = Engine::new();
    let reports = feed(&mut engine, quiet(100));
    assert_eq!(reports.len(), 100);
    assert!(reports.iter().all(|r| !r.speaking_start && !r.vad_active));
    // Initial quiet crosses the SILENCE threshold exactly once.
    assert_eq!(reports.iter().filter(|r| r.silence).count(), 1);
}

#[test]
fn speech_then_silence_produces_full_event_sequence() {
    let mut engine = Engine::new();
    let mut reports = feed(&mut engine, quiet(50));
    reports.extend(feed(&mut engine, loud(50)));
    reports.extend(feed(&mut engine, quiet(250)));

    let start = reports.iter().position(|r| r.speaking_start).expect("start");
    assert!((50..60).contains(&start), "onset at frame {start}");

    let stop = reports.iter().find(|r| r.speaking_stop).expect("stop");
    assert!(
        (30..=50).contains(&stop.utterance_frames),
        "utterance {} frames",
        stop.utterance_frames
    );

    assert!(reports.iter().any(|r| r.silence));
    assert!(reports.iter().any(|r| r.long_pause));
}

#[test]
fn energy_band_reports_on_window_cadence() {
    let mut engine = Engine::new();
    let reports = feed(&mut engine, quiet(64));
    let bands: Vec<_> = reports.iter().filter_map(|r| r.energy_band).collect();
    assert_eq!(bands, vec![(Band::Low, 0)]);

    let reports = feed(&mut engine, loud(64));
    let bands: Vec<_> = reports.iter().filter_map(|r| r.energy_band).collect();
    assert_eq!(bands.len(), 1);
    assert_eq!(bands[0].0, Band::High);
}

#[test]
fn spike_starts_speech_and_hangover_ends_it() {
    let mut vad = Vad::new();
    let out = vad.step(true);
    assert!(out.speaking_start && out.active);

    // Spike every 3rd frame for 30 frames keeps the utterance alive.
    for i in 1..=30 {
        let out = vad.step(i % 3 == 0);
        assert!(out.active && !out.speaking_stop, "dropped at frame {i}");
    }

    // Then silence: stop fires exactly at the hangover boundary.
    for i in 1..HANGOVER_FRAMES {
        assert!(!vad.step(false).speaking_stop, "early stop at +{i}");
    }
    let out = vad.step(false);
    assert!(out.speaking_stop);
    // 31 frames of speech + 19 quiet, minus the 20-frame hangover tail.
    assert_eq!(out.utterance_frames, 30);
}

#[test]
fn silence_and_long_pause_strobe_once_each() {
    let mut vad = Vad::new();
    let outs: Vec<VadOutput> = (0..LONG_PAUSE_FRAMES + 50).map(|_| vad.step(false)).collect();
    assert_eq!(outs.iter().filter(|o| o.silence).count(), 1);
    assert_eq!(outs.iter().filter(|o| o.long_pause).count(), 1);
    assert!(outs[SILENCE_FRAMES as usize - 1].silence);
}

#[test]
fn noise_floor_never_drops_below_minimum() {
    let mut engine = Engine::new();
    let mut reports = feed(&mut engine, loud(30));
    reports.extend(feed(&mut engine, quiet(1200)));
    assert!(reports.iter().all(|r| r.noise_floor >= ice_engine::signal::NOISE_FLOOR_MIN));
    // A silent room pulls the floor down to the minimum.
    assert_eq!(reports.last().unwrap().noise_floor, ice_engine::signal::NOISE_FLOOR_MIN);
}

#[test]
fn reports_carry_consecutive_frame_indices() {
    let mut engine = Engine::new();
    let reports = feed(&mut engine, quiet(5));
    let indices: Vec<u64> = reports.iter().map(|r| r.frame_index).collect();
    assert_eq!(indices, vec![0, 1, 2, 3, 4]);
    assert_eq!(engine.frames_processed(), 5);
}

#[test]
fn loud_frame_power_and_band_are_exact() {
    let mut engine = Engine::new();
    let reports = feed(&mut engine, loud(64));
    // 320 * 8000² >> 8 = 80_000_000.
    assert!(reports.iter().all(|r| r.frame_power == 80_000_000));
    assert_eq!(reports[63].energy_band, Some((Band::High, 80_000_000)));
}

#[test]
fn weak_drive_from_rest_settles_below_threshold() {
    let mut n = LifNeuron::new(3, 1000);
    // Equilibrium bound 8 * 100 + 7 = 807 < 1000: never fires.
    for _ in 0..500 {
        assert!(!n.step(100));
        assert!(n.potential() <= 807);
    }
}

#[test]
fn vad_utterance_is_at_least_one_frame() {
    let mut vad = Vad::new();
    vad.step(true);
    let mut last = vad.step(false);
    for _ in 1..HANGOVER_FRAMES {
        last = vad.step(false);
    }
    assert!(last.speaking_stop);
    assert_eq!(last.utterance_frames, 1);
    assert!(!last.active);
}

#[test]
fn drive_at_onset_level_fires_and_just_below_never_does() {
    let mut n = LifNeuron::vad_default();
    let fired = (0..262_144).position(|_| n.step(32_768));
    assert!(fired.is_some());
    let mut n = LifNeuron::vad_default();
    assert!((0..20_000).all(|_| !n.step(32_767)));
}

#[test]
fn speaking_strobes_alternate_starting_with_start() {
    let mut vad = Vad::new();
    let mut active = false;
    let mut last_strobe_was_start = false;
    let mut strobes = 0;
    for i in 0..2_000u32 {
        let spike = (i / 37) % 3 == 0 && i % 5 == 0;
        let out = vad.step(spike);
        assert_eq!(out.speaking_start, spike && !active);
        if out.speaking_start {
            assert!(strobes == 0 || !last_strobe_was_start);
            last_strobe_was_start = true;
            strobes += 1;
        }
        if out.speaking_stop {
            assert!(last_strobe_was_start);
            last_strobe_was_start = false;
            strobes += 1;
        }
        active = out.active;
    }
    assert!(strobes >= 4);
}

#[test]
fn frames_processed_counts_reports() {
    let mut engine = Engine::new();
    let mut reports = 0u64;
    for i in 0..(FRAME_LEN * 130 + 17) {
        if let Some(r) = engine.tick(if i % 2 == 0 { 3000 } else { -3000 }) {
            assert_eq!(r.frame_index, reports);
            assert_eq!(r.energy_band.is_some(), (r.frame_index + 1) % 64 == 0);
            reports += 1;
        }
    }
    assert_eq!(reports, 130);
    assert_eq!(engine.frames_processed(), reports);
}

#[test]
fn first_quiet_frame_moves_noise_floor_one_ema_step() {
    let mut engine = Engine::new();
    let report = (0..FRAME_LEN).filter_map(|_| engine.tick(0)).next().unwrap();
    // 4096 - (4096 >> 6) toward a silent frame.
    assert_eq!(report.noise_floor, 4032);
}
