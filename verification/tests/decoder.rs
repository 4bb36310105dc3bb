use echo_ffmpeg_player::decoder::{
    audio_stream_ordinal_from_track_id, emit_decode_error, emit_decode_warning,
    list_tracks_for_url, DecodeAction, DecodeEvent, DecoderData, ReadFailure,
};
use echo_ffmpeg_player::events::{LogLevel, Notice, PlayerErrorCode, PlayerEvent};
use echo_ffmpeg_player::float_bits::{Double, Single};
use echo_ffmpeg_player::shared::SharedAudio;
use echo_ffmpeg_player::tempo::{Piece, TempoProcessor};

fn single(value: f32) -> Single {
    Single { bits: value.to_bits() }
}

fn shared(speed: f32) -> SharedAudio {
    SharedAudio::new(100, Double { bits: 10.0f64.to_bits() }, single(speed))
}

fn failure(position: Option<u128>) -> ReadFailure {
    ReadFailure {
        reason: "bad".to_string(),
        interrupted: false,
        invalid_data: true,
        position,
        tolerance: 10,
    }
}

fn messages(events: &[PlayerEvent]) -> Vec<String> {
    events
        .iter()
        .map(|event| match event {
            PlayerEvent::Log { level, notice } => format!("{}: {}", level.name(), notice.message()),
            PlayerEvent::Error { code: PlayerErrorCode::Decode, notice } => {
                format!("error: {}", notice.message())
            }
            _ => panic!("unexpected event"),
        })
        .collect()
}

fn step(
    decoder: &mut DecoderData,
    event: DecodeEvent,
    shared: &mut SharedAudio,
) -> (DecodeAction, Vec<String>) {
    let mut events = Vec::new();
    let action = decoder.decode_into(event, shared, &mut events);
    (action, messages(&events))
}

#[test]
fn tracks_name_streams() {
    assert_eq!(audio_stream_ordinal_from_track_id(1), Some(0));
    assert_eq!(audio_stream_ordinal_from_track_id(7), Some(6));
    assert_eq!(audio_stream_ordinal_from_track_id(0), None);
    assert_eq!(audio_stream_ordinal_from_track_id(-3), None);
    assert_eq!(audio_stream_ordinal_from_track_id(i64::MIN), None);
}

#[test]
fn a_source_has_one_audio_track() {
    let tracks = list_tracks_for_url("https://example.org/a.flac");
    assert_eq!(tracks.len(), 1);
    assert_eq!(tracks[0].id, 1);
    assert_eq!(tracks[0].kind, "audio");
    assert!(tracks[0].selected);
    assert!(tracks[0].title.is_none());
    assert!(tracks[0].lang.is_none());
}

#[test]
fn a_source_is_decoded_to_its_end() {
    let mut shared = shared(1.0);
    let mut decoder = DecoderData::new(None);
    assert!(matches!(step(&mut decoder, DecodeEvent::Started, &mut shared).0, DecodeAction::Receive));
    assert!(matches!(step(&mut decoder, DecodeEvent::NoSamples, &mut shared).0, DecodeAction::Receive));
    let samples = vec![single(0.1), single(0.2)];
    assert!(decoder.can_take(&shared));
    let (action, _) = step(&mut decoder, DecodeEvent::Samples(samples.clone()), &mut shared);
    match action {
        DecodeAction::Push(pieces) => {
            assert_eq!(pieces, vec![Piece::Plain(samples[0]), Piece::Plain(samples[1])]);
        }
        _ => panic!("expected a push"),
    }
    assert!(matches!(step(&mut decoder, DecodeEvent::Pushed(true), &mut shared).0, DecodeAction::Receive));
    assert!(matches!(step(&mut decoder, DecodeEvent::EndOfStream, &mut shared).0, DecodeAction::DrainResampler));
    let (action, _) = step(&mut decoder, DecodeEvent::Drained(Some(samples)), &mut shared);
    match action {
        DecodeAction::PushLast(first, last) => {
            assert_eq!(first.len(), 2);
            assert_eq!(last.len(), 0);
        }
        _ => panic!("expected the last push"),
    }
    assert!(!shared.is_drained());
    let (action, messages) = step(&mut decoder, DecodeEvent::LastPushed, &mut shared);
    assert!(matches!(action, DecodeAction::Finish { keep: false }));
    assert!(messages.is_empty());
    assert!(shared.is_drained());
}

#[test]
fn stretched_samples_wait_for_a_frame() {
    let mut shared = shared(2.0);
    let mut decoder = DecoderData::new(None);
    let samples = vec![single(0.5); 100];
    let (action, _) = step(&mut decoder, DecodeEvent::Samples(samples), &mut shared);
    assert!(matches!(action, DecodeAction::Receive));
    let (action, _) = step(&mut decoder, DecodeEvent::Drained(None), &mut shared);
    match action {
        DecodeAction::PushLast(first, last) => {
            assert_eq!(first.len(), 0);
            assert_eq!(last.len(), 2048);
            assert_eq!(last[99], Piece::Plain(single(0.5)));
            assert_eq!(last[100], Piece::Plain(single(0.0)));
        }
        _ => panic!("expected the last push"),
    }
}

#[test]
fn the_highest_speed_is_decoded() {
    let mut shared = shared(4.0);
    let mut decoder = DecoderData::new(None);
    assert!(decoder.can_take(&shared));
    let samples = vec![single(0.5); 2048];
    let (action, _) = step(&mut decoder, DecodeEvent::Samples(samples.clone()), &mut shared);
    match action {
        DecodeAction::Push(pieces) => assert_eq!(pieces, vec![Piece::Plain(single(0.5)); 1024]),
        _ => panic!("expected a push"),
    }
    let (action, _) = step(&mut decoder, DecodeEvent::Samples(samples), &mut shared);
    assert!(matches!(action, DecodeAction::Receive));
    assert!(decoder.can_take(&self::shared(5.0)));
    assert!(!decoder.can_take(&self::shared(f32::INFINITY)));
}

#[test]
fn a_new_speed_pushes_what_waited() {
    let mut shared = shared(2.0);
    let mut decoder = DecoderData::new(None);
    let samples = vec![single(0.5); 100];
    let (action, _) = step(&mut decoder, DecodeEvent::Samples(samples), &mut shared);
    assert!(matches!(action, DecodeAction::Receive));
    shared.set_speed(single(1.0));
    let (action, _) = step(&mut decoder, DecodeEvent::Samples(vec![single(0.25)]), &mut shared);
    match action {
        DecodeAction::Push(pieces) => {
            assert_eq!(pieces[..100], vec![Piece::Plain(single(0.5)); 100]);
            assert_eq!(pieces.last(), Some(&Piece::Plain(single(0.25))));
        }
        _ => panic!("expected a push"),
    }
}

#[test]
fn a_stopped_decoder_is_handed_back() {
    let mut shared = shared(1.0);
    let mut decoder = DecoderData::new(None);
    step(&mut decoder, DecodeEvent::Started, &mut shared);
    assert!(!shared.is_interrupted());
    shared.request_decode_stop();
    assert!(shared.is_interrupted());
    let (action, messages) = step(&mut decoder, DecodeEvent::NoSamples, &mut shared);
    assert!(matches!(action, DecodeAction::Finish { keep: true }));
    assert!(messages.is_empty());
    let (action, _) = step(&mut decoder, DecodeEvent::Pushed(false), &mut shared);
    assert!(matches!(action, DecodeAction::Finish { keep: true }));
    let (action, messages) = step(&mut decoder, DecodeEvent::Failed(failure(None)), &mut shared);
    assert!(matches!(action, DecodeAction::Finish { keep: true }));
    assert!(messages.is_empty());
    shared.request_stop();
    let (action, _) = step(&mut decoder, DecodeEvent::Pushed(true), &mut shared);
    assert!(matches!(action, DecodeAction::Finish { keep: false }));
}

#[test]
fn failures_are_told() {
    let mut shared = shared(1.0);
    let mut decoder = DecoderData::new(Some(100));
    let (action, messages) =
        step(&mut decoder, DecodeEvent::ResampleFailed("odd".to_string()), &mut shared);
    assert!(matches!(action, DecodeAction::Finish { keep: false }));
    assert_eq!(messages, ["error: failed to resample audio frame: odd"]);
    let (action, messages) = step(&mut decoder, DecodeEvent::Failed(failure(Some(95))), &mut shared);
    assert!(matches!(action, DecodeAction::Finish { keep: false }));
    assert_eq!(messages, ["error: failed to decode audio source: bad"]);
    let interrupted = ReadFailure { interrupted: true, ..failure(None) };
    let (action, messages) = step(&mut decoder, DecodeEvent::Failed(interrupted), &mut shared);
    assert!(matches!(action, DecodeAction::Finish { keep: true }));
    assert!(messages.is_empty());
}

#[test]
fn a_failure_near_the_end_is_taken_for_it() {
    let mut shared = shared(1.0);
    let mut decoder = DecoderData::new(Some(100));
    assert_eq!(decoder.duration(), Some(100));
    assert!(!decoder.is_recoverable_tail_error(&failure(Some(95))));
    step(&mut decoder, DecodeEvent::Samples(vec![single(0.5); 2]), &mut shared);
    assert!(decoder.is_recoverable_tail_error(&failure(Some(90))));
    assert!(!decoder.is_recoverable_tail_error(&failure(Some(89))));
    assert!(!decoder.is_recoverable_tail_error(&failure(None)));
    assert!(decoder.is_recoverable_tail_error(&failure(Some(u128::MAX))));
    let other = ReadFailure { invalid_data: false, ..failure(Some(95)) };
    assert!(!decoder.is_recoverable_tail_error(&other));
    let (action, messages) = step(&mut decoder, DecodeEvent::Failed(failure(Some(95))), &mut shared);
    assert!(matches!(action, DecodeAction::DrainResampler));
    assert_eq!(messages, ["warn: treating trailing decode error as EOF: bad"]);
    let mut endless = DecoderData::new(None);
    step(&mut endless, DecodeEvent::Samples(vec![single(0.5); 2]), &mut shared);
    assert!(!endless.is_recoverable_tail_error(&failure(Some(95))));
    step(&mut decoder, DecodeEvent::Started, &mut shared);
    assert!(!decoder.is_recoverable_tail_error(&failure(Some(95))));
}

#[test]
fn decoder_events_have_their_kind() {
    assert!(matches!(
        emit_decode_error(Notice::DecodeFailed("x".to_string())),
        PlayerEvent::Error { code: PlayerErrorCode::Decode, notice: Notice::DecodeFailed(_) }
    ));
    assert!(matches!(
        emit_decode_warning(Notice::TailErrorTakenForEnd("x".to_string())),
        PlayerEvent::Log { level: LogLevel::Warn, notice: Notice::TailErrorTakenForEnd(_) }
    ));
    assert_eq!(LogLevel::Debug.name(), "debug");
    assert_eq!(LogLevel::Info.name(), "info");
    assert_eq!(
        Notice::LoopRestartFailed("x".to_string()).message(),
        "failed to restart loop playback: x"
    );
}

#[test]
fn a_whole_course_pushes_everything_in_order() {
    let samples: Vec<Single> = (0..5000).map(|i| single(i as f32)).collect();
    let mut shared = shared(1.5);
    let mut decoder = DecoderData::new(None);
    let mut pushed: Vec<Piece> = Vec::new();
    let mut chunks = samples[..4000].chunks(700);
    let mut event = DecodeEvent::Started;
    loop {
        assert!(!shared.is_drained());
        event = match step(&mut decoder, event, &mut shared).0 {
            DecodeAction::Receive => match chunks.next() {
                Some(chunk) => DecodeEvent::Samples(chunk.to_vec()),
                None => DecodeEvent::EndOfStream,
            },
            DecodeAction::Push(pieces) => {
                pushed.extend(pieces);
                DecodeEvent::Pushed(true)
            }
            DecodeAction::DrainResampler => DecodeEvent::Drained(Some(samples[4000..].to_vec())),
            DecodeAction::PushLast(first, last) => {
                pushed.extend(first);
                pushed.extend(last);
                DecodeEvent::LastPushed
            }
            DecodeAction::Finish { keep } => {
                assert!(!keep);
                break;
            }
        };
    }
    assert!(shared.is_drained());
    let mut tempo = TempoProcessor::new(2);
    let mut expected = Vec::new();
    tempo.process(&samples, single(1.5), &mut expected);
    tempo.flush(&mut expected);
    assert_eq!(pushed, expected);
}
