use echo_ffmpeg_player::float_bits::{Double, Single};
use echo_ffmpeg_player::tempo::{
    is_normalized, normalize_speed, Piece, TempoProcessor, TempoRate, FRAME_SIZE, OVERLAP,
};

fn single(value: f32) -> Single {
    Single { bits: value.to_bits() }
}

fn blended(piece: &Piece) -> f32 {
    match piece {
        Piece::Plain(sample) => f32::from_bits(sample.bits),
        Piece::Blend { prev, next, step, steps } => {
            let theta = (step + 1) as f32 / (steps + 1) as f32 * std::f32::consts::PI / 2.0;
            f32::from_bits(prev.bits) * theta.cos() + f32::from_bits(next.bits) * theta.sin()
        }
    }
}

/// A sine wave, interleaved for two channels.
fn sine(samples: usize, freq: f32, sample_rate: u32) -> Vec<Single> {
    (0..samples)
        .flat_map(|i| {
            let v = (2.0 * std::f32::consts::PI * freq * i as f32 / sample_rate as f32).sin();
            [single(v), single(v)]
        })
        .collect()
}

fn process(p: &mut TempoProcessor, input: &[Single], speed: f32, out: &mut Vec<Piece>) {
    assert!(p.can_process(single(speed)));
    p.process(input, single(speed), out);
}

/// What the overlap-add of whole buffers gives, in floating point.
fn overlap_add(input: &[Single], channels: usize, speed: f32) -> Vec<f32> {
    let frame_total = FRAME_SIZE * channels;
    let overlap_total = OVERLAP * channels;
    let hop = ((OVERLAP as f32 * speed) as usize).max(1) * channels;
    let mut pending: Vec<f32> = Vec::new();
    let mut position = 0;
    while position + frame_total <= input.len() {
        let frame: Vec<f32> = input[position..position + frame_total]
            .iter()
            .map(|s| f32::from_bits(s.bits))
            .collect();
        if pending.is_empty() {
            pending.extend_from_slice(&frame);
        } else {
            let start = pending.len() - overlap_total;
            for i in 0..overlap_total {
                let theta =
                    (i + 1) as f32 / (overlap_total + 1) as f32 * std::f32::consts::PI / 2.0;
                pending[start + i] = pending[start + i] * theta.cos() + frame[i] * theta.sin();
            }
            pending.extend_from_slice(&frame[overlap_total..]);
        }
        position += hop;
    }
    let keep = pending.len().saturating_sub(overlap_total);
    pending.truncate(keep);
    pending
}

#[test]
fn bypass_returns_input_unchanged() {
    let mut p = TempoProcessor::new(2);
    let input = sine(2000, 440.0, 44100);
    let mut out = Vec::new();
    process(&mut p, &input, 1.0, &mut out);
    assert_eq!(out.len(), input.len());
    for (a, b) in out.iter().zip(input.iter()) {
        assert!((blended(a) - f32::from_bits(b.bits)).abs() < 1e-6);
    }
}

#[test]
fn speed_2x_produces_fewer_samples() {
    let mut p = TempoProcessor::new(2);
    let input = sine(44100, 440.0, 44100);
    let mut out = Vec::new();
    process(&mut p, &input, 2.0, &mut out);
    assert!(
        out.len() < input.len() * 9 / 10,
        "expected 2x speed to produce fewer samples, got {} vs {}",
        out.len(),
        input.len()
    );
}

#[test]
fn speed_0_5x_produces_more_samples() {
    let mut p = TempoProcessor::new(2);
    let input = sine(44100, 440.0, 44100);
    let mut out = Vec::new();
    process(&mut p, &input, 0.5, &mut out);
    assert!(
        out.len() > input.len() * 11 / 10,
        "expected 0.5x speed to produce more samples, got {} vs {}",
        out.len(),
        input.len()
    );
}

#[test]
fn flush_emits_remaining_samples() {
    let mut p = TempoProcessor::new(2);
    let input = sine(100, 440.0, 44100);
    let mut out = Vec::new();
    process(&mut p, &input, 2.0, &mut out);
    assert_eq!(out.len(), 0);
    p.flush(&mut out);
    assert!(out.len() > 0, "flush should emit remaining samples");
}

#[test]
fn speed_change_resets_state() {
    let mut p = TempoProcessor::new(2);
    let input = sine(44100, 440.0, 44100);
    let mut out = Vec::new();
    process(&mut p, &input, 2.0, &mut out);
    out.clear();

    let input2 = sine(44100, 440.0, 44100);
    process(&mut p, &input2, 0.5, &mut out);
    assert!(out.len() > 0);
}

#[test]
fn stretched_samples_are_those_of_the_overlap_add() {
    let input = sine(9000, 440.0, 44100);
    for speed in [0.25f32, 0.5, 0.9, 1.1, 1.5, 2.0] {
        let mut p = TempoProcessor::new(2);
        let mut out = Vec::new();
        process(&mut p, &input, speed, &mut out);
        let got: Vec<f32> = out.iter().map(blended).collect();
        assert_eq!(got, overlap_add(&input, 2, speed));
    }
}

#[test]
fn portions_give_what_the_whole_gives() {
    let input = sine(9000, 440.0, 44100);
    let mut whole = Vec::new();
    let mut p = TempoProcessor::new(2);
    process(&mut p, &input, 1.5, &mut whole);
    p.flush(&mut whole);
    let mut parts = Vec::new();
    let mut p = TempoProcessor::new(2);
    for part in input.chunks(777) {
        process(&mut p, part, 1.5, &mut parts);
    }
    p.flush(&mut parts);
    assert_eq!(whole, parts);
}

#[test]
fn output_is_in_proportion() {
    let input = sine(FRAME_SIZE * 5, 440.0, 44100);
    let mut out = Vec::new();
    let mut p = TempoProcessor::new(2);
    process(&mut p, &input, 2.0, &mut out);
    assert_eq!(out.len() * 2, input.len());
}

#[test]
fn a_new_speed_releases_what_was_pending() {
    let input = sine(FRAME_SIZE, 440.0, 44100);
    let mut out = Vec::new();
    let mut p = TempoProcessor::new(2);
    process(&mut p, &input, 2.0, &mut out);
    assert_eq!(out.len(), OVERLAP * 2);
    assert_eq!(p.current_speed(), single(2.0));
    process(&mut p, &[], 1.0, &mut out);
    let plain: Vec<Piece> = input.iter().map(|s| Piece::Plain(*s)).collect();
    assert_eq!(out, plain);
    assert_eq!(p.current_speed(), single(1.0));
}

#[test]
fn a_flush_fills_the_last_frame_with_silence() {
    let input = sine(10, 440.0, 44100);
    let mut out = Vec::new();
    let mut p = TempoProcessor::new(2);
    process(&mut p, &input, 2.0, &mut out);
    p.flush(&mut out);
    assert_eq!(out.len(), FRAME_SIZE * 2);
    assert_eq!(out[3], Piece::Plain(input[3]));
    assert_eq!(out[20], Piece::Plain(single(0.0)));
    out.clear();
    p.flush(&mut out);
    assert_eq!(out.len(), 0);
}

#[test]
fn no_sample_is_lost_to_a_new_mode() {
    let mut p = TempoProcessor::new(2);
    let mut out = Vec::new();
    process(&mut p, &[single(0.5); 200], 2.0, &mut out);
    assert!(out.is_empty());
    process(&mut p, &[single(0.25), single(-0.25)], 1.0, &mut out);
    assert_eq!(out[..200], [Piece::Plain(single(0.5)); 200]);
    assert_eq!(out[out.len() - 2..], [Piece::Plain(single(0.25)), Piece::Plain(single(-0.25))]);
    assert_eq!(out.len(), 202);
}

#[test]
fn no_sample_is_lost_to_a_new_speed() {
    let input = sine(FRAME_SIZE + OVERLAP + 30, 440.0, 44100);
    let mut switched = Vec::new();
    let mut p = TempoProcessor::new(2);
    process(&mut p, &input, 1.5, &mut switched);
    assert_eq!(switched.len(), OVERLAP * 2);
    process(&mut p, &[], 0.5, &mut switched);
    let held: Vec<Piece> = input[OVERLAP * 2..FRAME_SIZE * 2]
        .iter()
        .chain(&input[OVERLAP * 3..])
        .map(|sample| Piece::Plain(*sample))
        .collect();
    assert_eq!(switched[OVERLAP * 2..], held);
    let before = switched.len();
    process(&mut p, &[], 1.0, &mut switched);
    assert_eq!(switched.len(), before);
}

#[test]
fn a_new_speed_begins_with_what_was_held_back() {
    let input = sine(44100, 440.0, 44100);
    for next in [0.5f32, 1.0] {
        let mut p = TempoProcessor::new(2);
        let mut out = Vec::new();
        process(&mut p, &input, 2.0, &mut out);
        out.clear();
        process(&mut p, &input, next, &mut out);
        let frames = 44100 / FRAME_SIZE;
        let held = &input[(frames * FRAME_SIZE - OVERLAP) * 2..frames * FRAME_SIZE * 2];
        let waiting = &input[frames * FRAME_SIZE * 2..];
        assert_eq!(waiting.len(), 136);
        let expected: Vec<Piece> =
            held.iter().chain(waiting).map(|sample| Piece::Plain(*sample)).collect();
        assert_eq!(out[..expected.len()], expected);
        let mut fresh = Vec::new();
        process(&mut TempoProcessor::new(2), &input, next, &mut fresh);
        assert_eq!(out[expected.len()..], fresh);
    }
}

#[test]
fn one_frame_at_the_highest_speed_gives_its_first_half() {
    let mut p = TempoProcessor::new(2);
    let mut out = Vec::new();
    process(&mut p, &[single(0.5); 2048], 4.0, &mut out);
    assert_eq!(out, vec![Piece::Plain(single(0.5)); 1024]);
}

#[test]
fn fast_speeds_skip_later_input() {
    let input = sine(9000, 440.0, 44100);
    for speed in [2.01f32, 2.5, 3.0, 3.7, 4.0] {
        let mut whole = Vec::new();
        process(&mut TempoProcessor::new(2), &input, speed, &mut whole);
        let blended_whole: Vec<f32> = whole.iter().map(blended).collect();
        assert_eq!(blended_whole, overlap_add(&input, 2, speed));
        for portion in [1usize, 7, 100, 1000, 2048, 3000] {
            let mut parts = Vec::new();
            let mut p = TempoProcessor::new(2);
            for part in input.chunks(portion) {
                process(&mut p, part, speed, &mut parts);
            }
            assert_eq!(parts, whole);
        }
    }
}

#[test]
fn a_flushed_processor_starts_again() {
    let input = sine(5000, 440.0, 44100);
    for kept in [0.5f32, 2.0, 4.0, 1.0] {
        for speed in [0.5f32, 2.0005, 3.0, 1.0] {
            let mut flushed = TempoProcessor::new(2);
            process(&mut flushed, &input, kept, &mut Vec::new());
            flushed.flush(&mut Vec::new());
            let mut fresh = TempoProcessor::new(2);
            let mut after = Vec::new();
            let mut expected = Vec::new();
            for part in input.chunks(777) {
                process(&mut flushed, part, speed, &mut after);
                process(&mut fresh, part, speed, &mut expected);
            }
            flushed.flush(&mut after);
            fresh.flush(&mut expected);
            assert_eq!(after, expected);
        }
    }
}

#[test]
fn rates_without_a_channel_or_a_hop_are_not_accepted() {
    let p = TempoProcessor::new(2);
    assert_eq!(p.rate(single(4.0)).advance, 4 * OVERLAP);
    assert!(p.can_process(single(4.0)));
    assert!(p.can_process(single(1000.0)) && p.can_process(single(-1.0)));
    assert!(!TempoProcessor::new(0).can_process(single(4.0)));
    assert!(TempoProcessor::new(0).can_process(single(1.0)));
    assert!(!p.can_process(single(f32::INFINITY)));
    assert!(is_normalized(single(0.25)) && is_normalized(single(4.0)));
    assert!(is_normalized(single(f32::NAN)));
    assert!(!is_normalized(single(4.5)) && !is_normalized(single(-1.0)));
}

#[test]
fn rates_are_those_of_floating_point() {
    let speeds: Vec<f32> = {
        let mut bits: Vec<u32> = (0x3e80_0000u32..=0x4080_0000).step_by(65521).collect();
        for around in [0x3f7f_be76u32, 0x3f80_20c5, 0x3f80_0000, 0x3e80_0000, 0x4080_0000] {
            bits.extend(around.saturating_sub(5)..=around + 5);
        }
        bits.into_iter().map(f32::from_bits).filter(|s| *s >= 0.25 && *s <= 4.0).collect()
    };
    for speed in &speeds {
        for current in [0.25f32, 0.999, 1.0, 1.001, 1.0010001, 2.0, *speed, speed + 0.001] {
            if current < 0.25 || current > 4.0 {
                continue;
            }
            let rate = TempoRate::for_speed(single(*speed), single(current));
            assert_eq!(rate.bypass, (speed - 1.0).abs() < 0.001);
            assert_eq!(rate.changed, (speed - current).abs() > 0.001);
            assert_eq!(rate.advance, (OVERLAP as f32 * speed) as usize);
        }
    }
    let mut bits: u32 = 0x3a5f_1234;
    let mut any: Vec<f32> = vec![
        0.0,
        -0.0,
        0.001,
        -0.001,
        1e-45,
        1e-40,
        -1.0,
        f32::MAX,
        f32::MIN,
        f32::INFINITY,
        f32::NEG_INFINITY,
        f32::NAN,
        0.0010000001,
        0.0009999999,
        5.8207661e-11,
        2.9103830e-11,
        4294967296.0,
    ];
    for _ in 0..300 {
        bits = bits.wrapping_mul(1664525).wrapping_add(1013904223);
        any.push(f32::from_bits(bits));
        any.push(f32::from_bits(0x3a80_0000 + (bits >> 10)));
        any.push(f32::from_bits(0x3a83_1260 + (bits >> 27)));
    }
    for speed in &any {
        for current in &any {
            let rate = TempoRate::for_speed(single(*speed), single(*current));
            assert_eq!(rate.bypass, (speed - 1.0).abs() < 0.001);
            assert_eq!(rate.changed, (speed - current).abs() > 0.001);
            assert_eq!(rate.advance, (OVERLAP as f32 * speed) as usize);
        }
    }
    let odd = TempoRate::for_speed(single(f32::NAN), single(1.0));
    assert!(!odd.bypass && !odd.changed && odd.advance == 0);
    assert!(!TempoRate::for_speed(single(2.0), single(f32::NAN)).changed);
}

#[test]
fn speeds_are_brought_into_range() {
    for value in [0.0f64, 0.1, 0.25, 0.3, 1.0, 1.1, 3.999999999, 4.0, 5.0, -1.0, f64::INFINITY] {
        let speed = normalize_speed(Double { bits: value.to_bits() });
        assert_eq!(f32::from_bits(speed.bits), value.clamp(0.25, 4.0) as f32);
    }
    let speed = normalize_speed(Double { bits: f64::NAN.to_bits() });
    assert!(f32::from_bits(speed.bits).is_nan());
}
