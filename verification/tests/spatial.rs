use echo_ffmpeg_player::events::{PlayerError, PlayerEvent};
use echo_ffmpeg_player::float_bits::{Double, Single};
use echo_ffmpeg_player::player::{initialize, Command, PlaybackSession, Player};
use echo_ffmpeg_player::settings::{clamp_spatial_mix, DspSettings, PlayerConfig, PreparedSpatialEffect};
use echo_ffmpeg_player::spatial::{
    finish_impulse_response, parse_impulse_response_payload, set_impulse_response,
    set_impulse_response_mix, spatial_request, SpatialPayload,
};
use serde_json::Value;

fn double(value: f64) -> Double {
    Double { bits: value.to_bits() }
}

fn single(value: f32) -> Single {
    Single { bits: value.to_bits() }
}

fn json(text: &str) -> Value {
    serde_json::from_str(text).unwrap()
}

fn player(session: Option<u64>) -> Player {
    let mut player = Player::new();
    initialize(
        &mut player,
        PlayerConfig {
            audio_device: "auto".to_string(),
            exclusive_output: false,
            audio_buffer_secs: double(0.5),
            network_timeout_secs: double(30.0),
            http_proxy: None,
        },
        DspSettings {
            speed: single(1.0),
            equalizer: vec![single(0.0); 4],
            normalization_gain_db: single(0.0),
            spatial: None,
        },
        single(0.35),
        &mut Vec::new(),
    );
    player.runtime.as_mut().unwrap().session = session.map(|id| PlaybackSession {
        id,
        sample_rate: 48000,
        output_thread: true,
        decode_thread: true,
        position_thread: true,
    });
    player
}

fn effect(path: &str, sample_rate: u32) -> PreparedSpatialEffect {
    PreparedSpatialEffect {
        file_path: path.to_string(),
        mix: single(0.9),
        sample_rate,
        response: 1,
    }
}

fn parsed(text: &str) -> Option<(String, f32)> {
    parse_impulse_response_payload(&json(text), single(0.35))
        .ok()
        .unwrap()
        .map(|request| (request.file_path, f32::from_bits(request.mix.bits)))
}

#[test]
fn payloads_are_read() {
    assert_eq!(parsed("null"), None);
    assert_eq!(parsed("\"  \""), None);
    assert_eq!(parsed("\" hall.wav \""), Some(("hall.wav".to_string(), 0.35)));
    assert_eq!(parsed("{}"), None);
    assert_eq!(parsed("{\"filePath\": 3, \"mix\": 1}"), None);
    assert_eq!(
        parsed("{\"filePath\": \"hall.wav\\n\"}"),
        Some(("hall.wav".to_string(), 0.35))
    );
    assert_eq!(
        parsed("{\"filePath\": \"hall.wav\", \"mix\": 0.6}"),
        Some(("hall.wav".to_string(), 0.6))
    );
    assert_eq!(
        parsed("{\"filePath\": \"hall.wav\", \"mix\": 7}"),
        Some(("hall.wav".to_string(), 1.0))
    );
    assert_eq!(
        parsed("{\"filePath\": \"hall.wav\", \"mix\": -7}"),
        Some(("hall.wav".to_string(), 0.0))
    );
    assert_eq!(
        parsed("{\"filePath\": \"hall.wav\", \"mix\": \"much\"}"),
        Some(("hall.wav".to_string(), 0.35))
    );
}

#[test]
fn other_payloads_are_refused() {
    for text in ["true", "3", "[\"hall.wav\"]"] {
        let refused = parse_impulse_response_payload(&json(text), single(0.35));
        assert!(matches!(refused, Err(PlayerError::InvalidPayload)));
    }
    assert!(matches!(
        spatial_request(SpatialPayload::Other, single(0.35)),
        Err(PlayerError::InvalidPayload)
    ));
    assert_eq!(PlayerError::InvalidPayload.message(), "invalid impulse response payload");
    let mut commands = Vec::new();
    let task = set_impulse_response(json("false"));
    let refused = task.compute(&mut Player::new(), 44100, &mut commands);
    assert!(matches!(refused, Err(PlayerError::InvalidPayload)));
    let task = set_impulse_response(json("\"hall.wav\""));
    let refused = task.compute(&mut Player::new(), 44100, &mut commands);
    assert!(matches!(refused, Err(PlayerError::NotInitialized)));
    assert!(commands.is_empty());
}

#[test]
fn a_request_on_plain_values() {
    let payload = SpatialPayload::Object {
        file_path: Some("\t a b \u{a0}".to_string()),
        mix: Some(double(0.25)),
    };
    let request = spatial_request(payload, single(2.0)).ok().unwrap().unwrap();
    assert_eq!(request.file_path, "a b");
    assert_eq!(request.mix, single(0.25));
    let payload = SpatialPayload::Object { file_path: Some("a".to_string()), mix: None };
    assert_eq!(spatial_request(payload, single(2.0)).ok().unwrap().unwrap().mix, single(1.0));
    let payload = SpatialPayload::Path("a".to_string());
    assert_eq!(spatial_request(payload, single(2.0)).ok().unwrap().unwrap().mix, single(2.0));
}

#[test]
fn a_response_is_prepared_and_put_to_use() {
    let mut player = player(Some(3));
    let mut commands = Vec::new();
    let task = set_impulse_response(json("{\"filePath\": \"hall.wav\", \"mix\": 0.6}"));
    let preparation = task.compute(&mut player, 44100, &mut commands).ok().unwrap().unwrap();
    assert!(commands.is_empty());
    assert_eq!(preparation.file_path, "hall.wav");
    assert_eq!(preparation.mix, single(0.6));
    assert_eq!(preparation.sample_rate, 48000);
    assert_eq!(preparation.request_seq, 1);
    let done = finish_impulse_response(&mut player, 1, Ok(effect("hall.wav", 48000)), &mut commands);
    assert!(done.is_ok());
    match commands.as_slice() {
        [Command::UpdateEffects { session: 3 }, Command::Emit(PlayerEvent::ImpulseResponseEnabled { path, mix })] =>
        {
            assert_eq!(path, "hall.wav");
            assert_eq!(*mix, single(0.6));
        }
        _ => panic!("expected the effect to be enabled"),
    }
    commands.clear();
    let task = set_impulse_response(json("{\"filePath\": \"hall.wav\", \"mix\": 0.1}"));
    assert!(task.compute(&mut player, 44100, &mut commands).ok().unwrap().is_none());
    match commands.as_slice() {
        [Command::SetSpatialMix { session: 3, mix }] => assert_eq!(*mix, single(0.1)),
        _ => panic!("expected the mix to be set"),
    }
    let runtime = player.runtime.as_ref().unwrap();
    assert_eq!(runtime.dsp_settings.spatial.as_ref().unwrap().mix, single(0.1));
    assert_eq!(runtime.spatial_request_seq, 2);
}

#[test]
fn only_the_last_request_is_put_to_use() {
    let mut player = player(None);
    let mut commands = Vec::new();
    let first = set_impulse_response(json("\"a.wav\""));
    let preparation = first.compute(&mut player, 44100, &mut commands).ok().unwrap().unwrap();
    assert_eq!(preparation.sample_rate, 44100);
    let none = set_impulse_response(json("null"));
    assert!(none.compute(&mut player, 44100, &mut commands).ok().unwrap().is_none());
    match commands.as_slice() {
        [Command::Emit(PlayerEvent::Log { notice, .. })] => {
            assert_eq!(notice.message(), "impulse response disabled");
        }
        _ => panic!("expected a log"),
    }
    commands.clear();
    let done = finish_impulse_response(
        &mut player,
        preparation.request_seq,
        Ok(effect("a.wav", 44100)),
        &mut commands,
    );
    assert!(done.is_ok());
    match commands.as_slice() {
        [Command::Emit(PlayerEvent::Log { notice, .. })] => {
            assert_eq!(notice.message(), "stale impulse response load ignored");
        }
        _ => panic!("expected a log"),
    }
    assert!(player.runtime.as_ref().unwrap().dsp_settings.spatial.is_none());
}

#[test]
fn a_response_that_cannot_be_prepared_is_told() {
    let mut player = player(None);
    let mut commands = Vec::new();
    let failed = finish_impulse_response(&mut player, 0, Err("no file".to_string()), &mut commands);
    match failed {
        Err(error) => assert_eq!(error.message(), "no file"),
        Ok(()) => panic!("expected an error"),
    }
    assert!(matches!(
        commands.as_slice(),
        [Command::Emit(PlayerEvent::ImpulseResponseFailed(_))]
    ));
    let refused =
        finish_impulse_response(&mut Player::new(), 0, Ok(effect("a.wav", 1)), &mut commands);
    assert!(matches!(refused, Err(PlayerError::NotInitialized)));
}

#[test]
fn a_mix_set_meanwhile_is_used() {
    let mut player = player(Some(3));
    let mut commands = Vec::new();
    let task = set_impulse_response(json("{\"filePath\": \"a.wav\", \"mix\": 0.6}"));
    let preparation = task.compute(&mut player, 44100, &mut commands).ok().unwrap().unwrap();
    set_impulse_response_mix(&mut player, double(3.0), &mut commands).ok().unwrap();
    finish_impulse_response(
        &mut player,
        preparation.request_seq,
        Ok(effect("a.wav", 48000)),
        &mut commands,
    )
    .ok()
    .unwrap();
    let runtime = player.runtime.as_ref().unwrap();
    assert_eq!(runtime.dsp_settings.spatial.as_ref().unwrap().mix, single(1.0));
    assert_eq!(clamp_spatial_mix(single(-0.5)), single(0.0));
    assert_eq!(clamp_spatial_mix(single(0.5)), single(0.5));
}

#[test]
fn a_response_is_ignored_after_several_requests() {
    let mut player = player(None);
    let mut commands = Vec::new();
    let preparation = set_impulse_response(json("\"a.wav\""))
        .compute(&mut player, 44100, &mut commands)
        .ok()
        .unwrap()
        .unwrap();
    for payload in ["null", "\"b.wav\"", "{\"filePath\": \"a.wav\"}"] {
        set_impulse_response(json(payload))
            .compute(&mut player, 44100, &mut commands)
            .ok()
            .unwrap();
    }
    assert_eq!(player.runtime.as_ref().unwrap().spatial_request_seq, 4);
    finish_impulse_response(
        &mut player,
        preparation.request_seq,
        Ok(effect("a.wav", 44100)),
        &mut commands,
    )
    .ok()
    .unwrap();
    assert!(player.runtime.as_ref().unwrap().dsp_settings.spatial.is_none());
}
