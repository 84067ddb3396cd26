use autotabber::FrameAssembler;
use autotabber::Key;
use autotabber::estimate;
use autotabber::freq_to_midi;
use autotabber::get_buffer_note;
use autotabber::handle_note;
use autotabber::DebounceState;

/// One channel of a pure sine at `freq` Hz in the fixed-point representation
/// the library works on: unit-range samples scaled by 10000.
fn sine_samples(freq: f64, rate: u32, count: usize) -> Vec<i32> {
    (0..count)
        .map(|i| {
            let t = i as f64 / rate as f64;
            (10000.0 * (2.0 * std::f64::consts::PI * freq * t).sin()).round() as i32
        })
        .collect()
}

fn frames_of(samples: &[i32], size: usize) -> Vec<Vec<i32>> {
    let mut assembler = FrameAssembler::new(size);
    let mut frames = Vec::new();
    for &s in samples {
        if let Some(frame) = assembler.push(s) {
            frames.push(frame);
        }
    }
    frames
}

#[test]
fn assembler_hands_out_full_frames_and_resets() {
    let mut a = FrameAssembler::new(3);
    assert_eq!(a.push(1), None);
    assert_eq!(a.push(2), None);
    assert_eq!(a.push(3), Some(vec![1, 2, 3]));
    assert_eq!(a.push(4), None);
    assert_eq!(a.push(5), None);
    assert_eq!(a.push(6), Some(vec![4, 5, 6]));
    // a short final fragment is simply never handed out
    assert_eq!(a.push(7), None);
}

#[test]
fn quiet_frame_is_silence_whatever_it_holds() {
    // summed absolute amplitude at or below min_volume: no detection
    let frame: Vec<i32> = (0..512).map(|i| if i % 2 == 0 { 5 } else { -5 }).collect();
    // sum of |samples| is 2560
    assert_eq!(estimate(&frame, 2560, 44100), None);
    assert_eq!(estimate(&frame, 1_000_000, 44100), None);
    // a threshold below the sum no longer forces silence
    let loud = sine_samples(261.63, 44100, 512);
    assert!(estimate(&loud, 100, 44100).is_some());
}

#[test]
fn all_zero_frames_detect_nothing_and_emit_nothing() {
    // ten consecutive all-zero frames: no detection, no emission
    let mut state = DebounceState::new();
    for _ in 0..10 {
        let frame = vec![0i32; 512];
        assert_eq!(estimate(&frame, 100, 44100), None);
        let symbol = get_buffer_note(&frame, 100, 44100, Key::C);
        assert_eq!(symbol, "");
        let out = handle_note(symbol, &mut state, 4);
        assert_eq!(out.note, None);
        assert!(!out.line_break);
    }
}

#[test]
fn middle_c_sine_emits_hole_one_after_min_count_frames() {
    // a 261.63 Hz sine framed at 512 samples / 44100 Hz, key C,
    // min_count 4: the fourth consecutive frame emits "1"
    let samples = sine_samples(261.63, 44100, 512 * 6);
    let frames = frames_of(&samples, 512);
    assert_eq!(frames.len(), 6);
    let mut state = DebounceState::new();
    let mut emitted: Vec<(usize, &str)> = Vec::new();
    for (i, frame) in frames.iter().enumerate() {
        let symbol = get_buffer_note(frame, 100, 44100, Key::C);
        let out = handle_note(symbol, &mut state, 4);
        if let Some(n) = out.note {
            emitted.push((i + 1, n));
        }
    }
    assert_eq!(emitted, vec![(4, "1")]);
}

#[test]
fn middle_c_sine_in_key_g_emits_shifted_symbol() {
    // the same signal under key G (offset -5): the symbol at index
    // midi - 60 + 5, distinct from the key C symbol
    let samples = sine_samples(261.63, 44100, 512 * 6);
    let frames = frames_of(&samples, 512);
    let mut state = DebounceState::new();
    let mut emitted: Vec<(usize, &str)> = Vec::new();
    for (i, frame) in frames.iter().enumerate() {
        let symbol = get_buffer_note(frame, 100, 44100, Key::G);
        let out = handle_note(symbol, &mut state, 4);
        if let Some(n) = out.note {
            emitted.push((i + 1, n));
        }
    }
    assert_eq!(emitted, vec![(4, "-2''")]);
    assert_ne!(emitted[0].1, "1");
}

#[test]
fn sine_estimates_land_within_one_semitone() {
    // pure sines across the playable range, 512 samples at 44100 Hz; the
    // estimated frequency stays within one semitone of the true one (below
    // roughly 110 Hz a 512-sample window cannot hold a full period, so the
    // range starts above that)
    for &f in &[130.81, 200.0, 261.63, 329.63, 440.0, 523.25, 660.0, 880.0, 1046.5, 1318.51, 1760.0, 2000.0] {
        let samples = sine_samples(f, 44100, 512 * 3);
        let frames = frames_of(&samples, 512);
        for frame in frames.iter() {
            let e = estimate(frame, 100, 44100).expect("a loud periodic frame detects a pitch");
            let fest = e.sample_rate as f64 / e.lag as f64;
            let semitones = 12.0 * (fest / f).log2().abs();
            assert!(
                semitones <= 1.0,
                "estimate for a sine strayed by more than a semitone"
            );
        }
    }
}

#[test]
fn quantizer_matches_equal_temperament() {
    // exact values of round(12*log2((rate/lag)/440) + 69)
    assert_eq!(freq_to_midi(44100, 168), 60);
    assert_eq!(freq_to_midi(44100, 169), 60);
    assert_eq!(freq_to_midi(44100, 100), 69);
    assert_eq!(freq_to_midi(44100, 50), 81);
    assert_eq!(freq_to_midi(44100, 1), 149);
    assert_eq!(freq_to_midi(44100, 551), 39);
    assert_eq!(freq_to_midi(48000, 109), 69);
    // saturation at both ends of the note range
    assert_eq!(freq_to_midi(1, 1 << 48), 0);
    assert_eq!(freq_to_midi(4_000_000_000, 1), 255);
}

#[test]
fn full_pipeline_symbol_for_concert_a() {
    let samples = sine_samples(440.0, 44100, 512 * 2);
    let frames = frames_of(&samples, 512);
    for frame in frames.iter() {
        // A440 is MIDI 69, index 9 in key C: the "-3''" draw bend
        assert_eq!(get_buffer_note(frame, 100, 44100, Key::C), "-3''");
    }
}
