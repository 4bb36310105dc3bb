use echo_ffmpeg_player::float_bits::{Double, Single};
use echo_ffmpeg_player::player::{PlaybackSession, Worker};
use echo_ffmpeg_player::shared::{PlaybackSignal, PushOutcome, SharedAudio, SIGNAL_CAPACITY};

fn single(value: f32) -> Single {
    Single { bits: value.to_bits() }
}

fn singles(values: &[f32]) -> Vec<Single> {
    values.iter().map(|value| single(*value)).collect()
}

fn floats(values: &[Single]) -> Vec<f32> {
    values.iter().map(|value| f32::from_bits(value.bits)).collect()
}

fn double(value: f64) -> Double {
    Double { bits: value.to_bits() }
}

fn position(shared: &SharedAudio) -> f64 {
    f64::from_bits(shared.position_secs().bits)
}

fn shared(sample_rate: u32, buffer_secs: f64) -> SharedAudio {
    SharedAudio::new(sample_rate, double(buffer_secs), single(1.0))
}

fn push(shared: &mut SharedAudio, values: &[f32]) -> bool {
    shared.push_samples(&singles(values), 0) == PushOutcome::Done
}

#[test]
fn pop_into_advances_position_by_consumed_frames() {
    let mut shared = shared(100, 0.1);
    assert!(push(&mut shared, &[0.1, 0.2, 0.3, 0.4]));

    let mut output = singles(&[1.0f32; 8]);
    let frames = shared.pop_into(&mut output);

    assert_eq!(frames, 2);
    assert_eq!(&floats(&output)[..4], &[0.1, 0.2, 0.3, 0.4]);
    assert_eq!(&floats(&output)[4..], &[0.0, 0.0, 0.0, 0.0]);
    assert!((position(&shared) - 0.02).abs() < f64::EPSILON);
}

#[test]
fn eof_is_reported_only_after_buffer_is_drained() {
    let mut shared = shared(100, 0.1);
    assert!(push(&mut shared, &[0.1, 0.2]));

    shared.mark_eof();
    assert!(!shared.is_drained());

    let mut output = singles(&[0.0f32; 2]);
    shared.pop_into(&mut output);

    assert!(shared.is_drained());
    assert!(shared.mark_end_reported());
    assert!(!shared.mark_end_reported());
}

#[test]
fn reset_for_decode_resume_clears_buffer_and_sets_position() {
    let mut shared = shared(100, 0.1);
    assert!(push(&mut shared, &[0.1, 0.2, 0.3, 0.4]));
    shared.mark_eof();

    shared.reset_for_decode_resume(double(1.25));

    let mut output = singles(&[1.0f32; 4]);
    assert_eq!(shared.pop_into(&mut output), 0);
    assert_eq!(floats(&output), [0.0; 4]);
    assert!((position(&shared) - 1.25).abs() < f64::EPSILON);
    assert!(!shared.is_drained());
    assert!(shared.mark_end_reported());
}

#[test]
fn a_fresh_state_is_paused_at_the_start() {
    let shared = shared(48000, 0.5);
    assert!(shared.is_paused());
    assert!(!shared.is_stopped());
    assert!(!shared.should_stop_output());
    assert!(!shared.should_stop_decoding());
    assert!(!shared.is_drained());
    assert!(!shared.is_interrupted());
    assert_eq!(shared.volume(), single(1.0));
    assert_eq!(shared.current_speed(), single(1.0));
    assert_eq!(shared.sample_rate(), 48000);
    assert_eq!(shared.spectrum_capacity(), 96000);
    assert_eq!(shared.position_secs(), double(0.0));
}

#[test]
fn the_queue_takes_no_more_than_its_capacity() {
    let mut shared = shared(100, 0.1);
    let values: Vec<f32> = (0..30).map(|i| i as f32).collect();
    let samples = singles(&values);
    assert_eq!(shared.push_samples(&samples, 0), PushOutcome::Full { offset: 20 });
    assert_eq!(shared.push_samples(&samples, 20), PushOutcome::Full { offset: 20 });

    let mut output = singles(&[0.0; 6]);
    assert_eq!(shared.pop_into(&mut output), 3);
    assert_eq!(floats(&output), [0.0, 1.0, 2.0, 3.0, 4.0, 5.0]);
    assert_eq!(shared.push_samples(&samples, 20), PushOutcome::Full { offset: 26 });

    let mut output = singles(&[0.0; 20]);
    assert_eq!(shared.pop_into(&mut output), 10);
    assert_eq!(floats(&output), &values[6..26]);
    assert_eq!(shared.push_samples(&samples, 26), PushOutcome::Done);
}

#[test]
fn the_capacity_is_at_least_a_tenth_of_the_rate() {
    let mut shared = shared(100, 0.0);
    let samples = singles(&[0.5; 12]);
    assert_eq!(shared.push_samples(&samples, 0), PushOutcome::Full { offset: 10 });
    let mut empty = self::shared(9, 0.0);
    assert_eq!(empty.push_samples(&samples, 0), PushOutcome::Full { offset: 0 });
    let mut huge = self::shared(9, 1e300);
    assert_eq!(huge.push_samples(&samples, 0), PushOutcome::Done);
}

#[test]
fn a_stopped_decoder_pushes_nothing() {
    let mut shared = shared(100, 0.1);
    shared.request_decode_stop();
    assert!(shared.should_stop_decoding());
    assert!(!shared.should_stop_output());
    let samples = singles(&[0.5; 2]);
    assert_eq!(shared.push_samples(&samples, 0), PushOutcome::Stopped);
    assert_eq!(shared.push_samples(&[], 0), PushOutcome::Done);
    let mut output = singles(&[1.0; 2]);
    assert_eq!(shared.pop_into(&mut output), 0);
    assert_eq!(floats(&output), [0.0, 0.0]);
}

#[test]
fn a_stop_is_for_good() {
    let mut shared = shared(100, 0.1);
    shared.bind_interrupt();
    shared.bind_signal_sender();
    shared.request_stop();
    assert!(shared.is_stopped());
    assert!(shared.is_interrupted());
    assert_eq!(shared.next_signal(), Some(PlaybackSignal::Stop));
    assert_eq!(shared.next_signal(), None);
    shared.prepare_output_restart();
    shared.reset_for_decode_resume(double(0.0));
    assert!(shared.should_stop_output());
    assert!(shared.should_stop_decoding());
}

#[test]
fn an_output_can_restart() {
    let mut shared = shared(100, 0.1);
    shared.mark_output_started();
    shared.request_output_stop();
    assert!(shared.should_stop_output());
    assert!(!shared.should_stop_decoding());
    shared.prepare_output_restart();
    assert!(!shared.should_stop_output());
}

#[test]
fn time_updates_come_a_fifth_of_a_second_apart() {
    let mut shared = shared(100, 10.0);
    shared.bind_signal_sender();
    assert!(push(&mut shared, &[0.5; 200]));
    let mut output = singles(&[0.0; 38]);
    assert_eq!(shared.pop_into(&mut output), 19);
    assert_eq!(shared.next_signal(), None);
    let mut output = singles(&[0.0; 2]);
    assert_eq!(shared.pop_into(&mut output), 1);
    assert_eq!(shared.next_signal(), Some(PlaybackSignal::TimeUpdate));
    let mut output = singles(&[0.0; 38]);
    shared.pop_into(&mut output);
    assert_eq!(shared.next_signal(), None);
    let mut output = singles(&[0.0; 100]);
    shared.pop_into(&mut output);
    assert_eq!(shared.next_signal(), Some(PlaybackSignal::TimeUpdate));
    assert_eq!(shared.next_signal(), None);
}

#[test]
fn signals_are_lost_where_too_many_wait() {
    let mut shared = shared(100, 0.1);
    shared.notify_signal(PlaybackSignal::Stop);
    assert_eq!(shared.next_signal(), None);
    shared.bind_signal_sender();
    shared.notify_signal(PlaybackSignal::PlaybackEnd);
    for _ in 0..SIGNAL_CAPACITY {
        shared.notify_signal(PlaybackSignal::TimeUpdate);
    }
    assert_eq!(shared.next_signal(), Some(PlaybackSignal::PlaybackEnd));
    for _ in 1..SIGNAL_CAPACITY {
        assert_eq!(shared.next_signal(), Some(PlaybackSignal::TimeUpdate));
    }
    assert_eq!(shared.next_signal(), None);
}

#[test]
fn changes_of_the_queue_are_noted_once() {
    let mut shared = shared(100, 0.1);
    assert!(!shared.take_queue_changed());
    assert!(push(&mut shared, &[0.5; 2]));
    assert!(shared.take_queue_changed());
    assert!(!shared.take_queue_changed());
    shared.mark_eof();
    assert!(shared.take_queue_changed());
    shared.mark_decode_failed();
    assert!(!shared.take_queue_changed());
    let mut output = singles(&[0.0; 2]);
    shared.pop_into(&mut output);
    assert!(shared.take_queue_changed());
    shared.pop_into(&mut output);
    assert!(!shared.take_queue_changed());
}

#[test]
fn settings_are_kept() {
    let mut shared = shared(100, 0.1);
    shared.set_speed(single(2.0));
    shared.set_volume(single(0.25));
    shared.set_paused(false);
    shared.reset_for_decode_resume(double(7.0));
    assert_eq!(shared.current_speed(), single(2.0));
    assert_eq!(shared.volume(), single(0.25));
    assert!(!shared.is_paused());
    assert_eq!(position(&shared), 7.0);
}

#[test]
fn threads_are_waited_for_in_order() {
    let mut shared = shared(100, 0.1);
    let session = PlaybackSession {
        id: 3,
        sample_rate: 100,
        output_thread: true,
        decode_thread: true,
        position_thread: true,
    };
    assert_eq!(
        session.stop_blocking(&mut shared),
        vec![Worker::Decode, Worker::Output, Worker::Position]
    );
    assert!(shared.is_stopped());
    let without = PlaybackSession { decode_thread: false, ..session };
    assert_eq!(without.stop_blocking(&mut shared), vec![Worker::Output, Worker::Position]);
}

#[test]
fn samples_pass_through_a_full_queue_in_order() {
    let values: Vec<f32> = (1..=57).map(|i| i as f32).collect();
    let samples = singles(&values);
    let mut shared = shared(100, 0.1);
    let mut offset = 0;
    let mut received = Vec::new();
    while received.len() < samples.len() {
        match shared.push_samples(&samples, offset) {
            PushOutcome::Done => offset = samples.len(),
            PushOutcome::Full { offset: next } => {
                assert!(next < samples.len());
                offset = next;
            }
            PushOutcome::Stopped => panic!("nobody asked to stop"),
        }
        let mut output = singles(&[9.0f32; 7]);
        shared.pop_into(&mut output);
        let left = samples.len() - received.len();
        received.extend(floats(&output).into_iter().take(left));
    }
    assert_eq!(received, values);
}

#[test]
fn portions_get_what_one_output_gets() {
    let mut whole = shared(100, 0.1);
    let mut parts = shared(100, 0.1);
    assert!(push(&mut whole, &[0.1, 0.2, 0.3, 0.4, 0.5]));
    assert!(push(&mut parts, &[0.1, 0.2, 0.3, 0.4, 0.5]));
    let mut output = singles(&[1.0f32; 7]);
    whole.pop_into(&mut output);
    let mut first = singles(&[1.0f32; 3]);
    let mut second = singles(&[1.0f32; 4]);
    parts.pop_into(&mut first);
    parts.pop_into(&mut second);
    first.extend(second);
    assert_eq!(first, output);
    assert_eq!(floats(&output), [0.1, 0.2, 0.3, 0.4, 0.5, 0.0, 0.0]);
}

#[test]
fn positions_are_those_of_floating_point() {
    let mut secs: f64 = 0.0001;
    for step in 0..400 {
        for rate in [44100u32, 48000, 192000, 11025, 7] {
            let mut shared = shared(rate, 0.1);
            shared.reset_for_decode_resume(double(secs));
            let samples = (secs * rate as f64) as u64;
            assert_eq!(position(&shared), samples as f64 / rate as f64);
        }
        secs = secs * 1.07 + step as f64 / 3.0;
    }
    let mut shared = shared(48000, 0.1);
    for before_start in [-1.0, f64::NAN, f64::NEG_INFINITY] {
        shared.reset_for_decode_resume(double(before_start));
        assert_eq!(position(&shared), 0.0);
    }
    shared.reset_for_decode_resume(double(1e300));
    assert_eq!(position(&shared), u64::MAX as f64 / 48000.0);
}
