use echo_ffmpeg_player::events::{PlayerError, PlayerEvent, PlayerState};
use echo_ffmpeg_player::float_bits::{Double, Single};
use echo_ffmpeg_player::output::{
    attach_output, get_audio_devices, restart_output_for_config, set_audio_device,
    set_exclusive_output, GetAudioDevicesTask, OutputAction, OutputEvent,
};
use echo_ffmpeg_player::player::{
    carry_out, destroy, finish_loop_restart, get_audio_filter, get_state, get_track_list, handle_signal, initialize, load_file,
    load_mkv_track, pause, play, replace_source_async, restart_loop_if_enabled, set_loop_file,
    stop, take_current_for_replace, Command, Player, SourceRequest,
};
use echo_ffmpeg_player::seek::{seek, SeekReply};
use echo_ffmpeg_player::settings::{DspSettings, PlayerConfig};
use echo_ffmpeg_player::shared::{PlaybackSignal, PushOutcome};

fn double(value: f64) -> Double {
    Double { bits: value.to_bits() }
}

fn single(value: f32) -> Single {
    Single { bits: value.to_bits() }
}

fn config() -> PlayerConfig {
    PlayerConfig {
        audio_device: "auto".to_string(),
        exclusive_output: false,
        audio_buffer_secs: double(0.5),
        network_timeout_secs: double(30.0),
        http_proxy: None,
    }
}

fn settings() -> DspSettings {
    DspSettings {
        speed: single(1.0),
        equalizer: vec![single(0.0); 10],
        normalization_gain_db: single(0.0),
        spatial: None,
    }
}

fn player() -> Player {
    let mut player = Player::new();
    let mut commands = Vec::new();
    initialize(&mut player, config(), settings(), single(0.5), &mut commands);
    assert!(commands.is_empty());
    player
}

fn open(player: &mut Player, request: SourceRequest, id: u64) -> Vec<String> {
    let mut commands = Vec::new();
    let prepared = request.prepare_source(double(60.0), id, 48000);
    replace_source_async(player, Ok(prepared), &mut commands).unwrap();
    texts(&commands)
}

fn loaded(id: u64) -> Player {
    let mut player = player();
    let mut commands = Vec::new();
    let request = load_file("a.flac".to_string(), Some(double(7.0)))
        .compute(&mut player, &mut commands)
        .ok()
        .unwrap();
    open(&mut player, request, id);
    player
}

fn state_text(state: &PlayerState) -> String {
    format!(
        "{} {} {} {}",
        state.playing,
        state.paused,
        f64::from_bits(state.duration.bits),
        f64::from_bits(state.time_pos.bits)
    )
}

fn texts(commands: &[Command]) -> Vec<String> {
    commands
        .iter()
        .map(|command| match command {
            Command::Emit(PlayerEvent::TimeUpdate(position)) => {
                format!("time {}", f64::from_bits(position.bits))
            }
            Command::Emit(PlayerEvent::PlaybackEnd) => "end".to_string(),
            Command::Emit(PlayerEvent::DurationChange(duration)) => {
                format!("duration {}", f64::from_bits(duration.bits))
            }
            Command::Emit(PlayerEvent::FileLoaded { url, seq }) => format!("loaded {url} {seq}"),
            Command::Emit(PlayerEvent::StateChange(state)) => format!("state {}", state_text(state)),
            Command::Emit(PlayerEvent::Log { level, notice }) => {
                format!("{} {}", level.name(), notice.message())
            }
            Command::Emit(PlayerEvent::Error { code, notice }) => {
                format!("error {code:?} {}", notice.message())
            }
            Command::StopSession(session) => format!("stop {}", session.id),
            Command::SetPaused { session, paused } => format!("paused {session} {paused}"),
            Command::RequestDecodeStop { session } => format!("decode stop {session}"),
            Command::ResumeDecoding { session, position, .. } => {
                format!("resume {session} {}", f64::from_bits(position.bits))
            }
            other => format!("{other:?}"),
        })
        .collect()
}

#[test]
fn nothing_works_before_initialization() {
    let mut player = Player::new();
    let mut commands = Vec::new();
    assert!(matches!(pause(&mut player, &mut commands), Err(PlayerError::NotInitialized)));
    assert!(matches!(stop(&mut player, &mut commands), Err(PlayerError::NotInitialized)));
    assert!(matches!(play().compute(&mut player, &mut commands), Err(PlayerError::NotInitialized)));
    assert!(matches!(get_state(&mut player, double(1.0)), Err(PlayerError::NotInitialized)));
    assert!(matches!(set_loop_file(&mut player, true), Err(PlayerError::NotInitialized)));
    assert!(matches!(get_audio_filter(&player), Err(PlayerError::NotInitialized)));
    assert!(load_file("a".to_string(), None).compute(&mut player, &mut commands).is_err());
    assert!(seek(double(1.0)).compute(&mut player, true, &mut commands).is_err());
    assert!(set_audio_device("x".to_string()).compute(&player).is_err());
    assert!(set_exclusive_output(true).compute(&player).is_err());
    assert!(restart_output_for_config(&mut player, config(), Ok(())).is_err());
    assert!(attach_output(&mut player, 1).is_err());
    assert!(restart_loop_if_enabled(&mut player, 1, &mut commands).is_none());
    assert!(get_track_list(&player).compute().is_empty());
    assert!(commands.is_empty());
    assert!(player.session_id().is_none());
    assert_eq!(PlayerError::NotInitialized.message(), "player addon not initialized");
}

#[test]
fn a_fresh_player_is_paused_without_a_source() {
    let mut player = player();
    let state = get_state(&mut player, double(5.0)).ok().unwrap();
    assert_eq!(state_text(&state), "false true 0 0");
    let mut commands = Vec::new();
    let refused = play().compute(&mut player, &mut commands);
    assert!(matches!(refused, Err(PlayerError::NoSource)));
    assert_eq!(PlayerError::NoSource.message(), "no audio source loaded");
    assert!(commands.is_empty());
    pause(&mut player, &mut commands).ok().unwrap();
    assert_eq!(texts(&commands), ["state false true 0 0"]);
    assert_eq!(get_audio_filter(&player).ok().unwrap(), "");
    let runtime = player.runtime.as_mut().unwrap();
    let nothing = take_current_for_replace(runtime, None, None, None, double(0.0), false, &mut commands);
    assert!(matches!(nothing, Err(PlayerError::NoSource)));
}

#[test]
fn a_source_is_loaded_paused() {
    let mut player = player();
    let mut commands = Vec::new();
    let task = load_mkv_track("a.mkv".to_string(), 3, Some(double(7.9)));
    let request = task.compute(&mut player, &mut commands).ok().unwrap();
    assert!(commands.is_empty());
    assert_eq!(request.url, "a.mkv");
    assert_eq!(request.audio_stream_ordinal, Some(2));
    assert_eq!(request.seq, 7);
    assert!(!request.autostart);
    assert!(request.seek_position().is_none());
    let mut shared = request.shared_audio(48000);
    let samples = vec![single(0.5); 48001];
    assert_eq!(shared.push_samples(&samples, 0), PushOutcome::Full { offset: 48000 });
    assert!(shared.is_paused());
    assert!(!shared.is_interrupted());
    shared.notify_signal(PlaybackSignal::Stop);
    assert_eq!(shared.next_signal(), Some(PlaybackSignal::Stop));
    assert_eq!(
        open(&mut player, request, 1),
        ["duration 60", "loaded a.mkv 7", "state false true 60 0"]
    );
    assert_eq!(player.session_id(), Some(1));
    assert_eq!(get_track_list(&player).compute().len(), 1);
    let state = get_state(&mut player, double(2.5)).ok().unwrap();
    assert_eq!(state_text(&state), "false true 60 2.5");
}

#[test]
fn request_numbers_are_whole_and_not_negative() {
    assert_eq!(load_file("a".to_string(), None).seq, 0);
    assert_eq!(load_file("a".to_string(), Some(double(-4.0))).seq, 0);
    assert_eq!(load_file("a".to_string(), Some(double(f64::NAN))).seq, 0);
    assert_eq!(load_file("a".to_string(), Some(double(1e300))).seq, u64::MAX);
    assert_eq!(load_mkv_track("a".to_string(), 0, None).audio_stream_ordinal, None);
}

#[test]
fn loading_stops_what_was_played() {
    let mut player = loaded(1);
    let mut commands = Vec::new();
    play().compute(&mut player, &mut commands).ok().unwrap();
    assert_eq!(texts(&commands), ["paused 1 false", "state true false 60 0"]);
    commands.clear();
    load_file("b.flac".to_string(), None).compute(&mut player, &mut commands).ok().unwrap();
    assert_eq!(texts(&commands), ["stop 1"]);
    let state = get_state(&mut player, double(9.0)).ok().unwrap();
    assert_eq!(state_text(&state), "false true 60 0");
}

#[test]
fn a_source_that_could_not_be_opened_is_an_error() {
    let mut player = player();
    let mut commands = Vec::new();
    let result = replace_source_async(&mut player, Err("gone".to_string()), &mut commands);
    match result {
        Err(error) => assert_eq!(error.message(), "gone"),
        Ok(()) => panic!("expected an error"),
    }
    assert!(commands.is_empty());
}

#[test]
fn playing_pausing_and_stopping_are_told() {
    let mut player = loaded(4);
    let mut commands = Vec::new();
    play().compute(&mut player, &mut commands).ok().unwrap();
    pause(&mut player, &mut commands).ok().unwrap();
    stop(&mut player, &mut commands).ok().unwrap();
    stop(&mut player, &mut commands).ok().unwrap();
    assert_eq!(
        texts(&commands),
        [
            "paused 4 false",
            "state true false 60 0",
            "paused 4 true",
            "state false true 60 0",
            "stop 4",
            "state false true 60 0",
            "state false true 60 0",
        ]
    );
    assert!(player.session_id().is_none());
}

#[test]
fn initializing_anew_and_destroying_stop_the_session() {
    let mut player = loaded(2);
    let mut commands = Vec::new();
    initialize(&mut player, config(), settings(), single(0.5), &mut commands);
    assert_eq!(texts(&commands), ["stop 2"]);
    assert!(get_track_list(&player).url.is_none());
    destroy(&mut player, &mut commands);
    assert_eq!(commands.len(), 1);
    assert!(player.runtime.is_none());
}

#[test]
fn signals_are_handled() {
    let mut player = loaded(1);
    let mut commands = Vec::new();
    let step = handle_signal(&mut player, 1, PlaybackSignal::TimeUpdate, double(3.0), false, &mut commands);
    assert!(step.go_on && step.restart.is_none());
    let step = handle_signal(&mut player, 1, PlaybackSignal::TimeUpdate, double(4.0), true, &mut commands);
    assert!(!step.go_on);
    let step = handle_signal(&mut player, 1, PlaybackSignal::Stop, double(4.0), false, &mut commands);
    assert!(!step.go_on);
    let step = handle_signal(&mut player, 1, PlaybackSignal::PlaybackEnd, double(4.0), false, &mut commands);
    assert!(!step.go_on && step.restart.is_none());
    assert_eq!(texts(&commands), ["time 3", "time 4", "end"]);
}

#[test]
fn a_looping_source_is_played_again() {
    let mut player = loaded(1);
    set_loop_file(&mut player, true).ok().unwrap();
    let mut commands = Vec::new();
    assert!(restart_loop_if_enabled(&mut player, 2, &mut commands).is_none());
    let step = handle_signal(&mut player, 1, PlaybackSignal::PlaybackEnd, double(60.0), false, &mut commands);
    assert!(!step.go_on);
    assert_eq!(texts(&commands), ["stop 1"]);
    let request = step.restart.unwrap();
    assert_eq!(request.url, "a.flac");
    assert_eq!(request.seq, 7);
    assert!(request.autostart);
    assert_eq!(open(&mut player, request, 2)[2], "state true false 60 0");
    assert!(restart_loop_if_enabled(&mut player, 1, &mut commands).is_none());
}

#[test]
fn a_seek_goes_on_with_the_decoder() {
    let mut player = loaded(1);
    let mut commands = Vec::new();
    let plan = seek(double(12.5)).compute(&mut player, false, &mut commands).ok().unwrap().unwrap();
    assert_eq!(texts(&commands), ["paused 1 true", "decode stop 1"]);
    assert!(plan.decode_thread);
    assert!(!player.runtime.as_ref().unwrap().session.unwrap().decode_thread);
    commands.clear();
    let reopened = plan.finish(&mut player, SeekReply::Sought, &mut commands).ok().unwrap();
    assert!(reopened.is_none());
    assert_eq!(texts(&commands), ["resume 1 12.5", "paused 1 false", "time 12.5"]);
    let runtime = player.runtime.as_ref().unwrap();
    assert!(runtime.session.unwrap().decode_thread);
    assert_eq!(runtime.state.time_pos, double(12.5));
}

#[test]
fn a_seek_opens_the_source_anew_where_it_must() {
    let mut player = loaded(1);
    let mut commands = Vec::new();
    let plan = seek(double(-3.0)).compute(&mut player, true, &mut commands).ok().unwrap().unwrap();
    commands.clear();
    let request = plan
        .finish(&mut player, SeekReply::Failed("no".to_string()), &mut commands)
        .ok()
        .unwrap()
        .unwrap();
    assert_eq!(
        texts(&commands),
        ["warn decoder seek reuse failed, reopening source: no", "stop 1"]
    );
    assert_eq!(request.url, "a.flac");
    assert_eq!(request.start_position, double(0.0));
    assert!(!request.autostart);
    assert!(request.seek_position().is_none());
    assert!(player.session_id().is_none());
}

#[test]
fn a_seek_of_an_old_session_leaves_the_new_one() {
    let mut player = loaded(1);
    let mut commands = Vec::new();
    let plan = seek(double(5.0)).compute(&mut player, false, &mut commands).ok().unwrap().unwrap();
    let request = load_file("b.flac".to_string(), None).compute(&mut player, &mut commands).ok().unwrap();
    open(&mut player, request, 2);
    commands.clear();
    assert!(plan.finish(&mut player, SeekReply::Sought, &mut commands).ok().unwrap().is_none());
    assert!(commands.is_empty());
    assert_eq!(player.session_id(), Some(2));

    let plan = seek(double(5.0)).compute(&mut player, false, &mut commands).ok().unwrap().unwrap();
    let request = load_file("c.flac".to_string(), None).compute(&mut player, &mut commands).ok().unwrap();
    open(&mut player, request, 3);
    commands.clear();
    let request = plan.finish(&mut player, SeekReply::NoDecoder, &mut commands).ok().unwrap().unwrap();
    assert!(commands.is_empty());
    assert_eq!(request.url, "b.flac");
    assert!(request.autostart);
    assert_eq!(request.seek_position(), Some(double(5.0)));
    assert_eq!(player.session_id(), Some(3));
}

#[test]
fn a_seek_without_a_session_does_nothing() {
    let mut player = player();
    let mut commands = Vec::new();
    assert!(seek(double(5.0)).compute(&mut player, false, &mut commands).ok().unwrap().is_none());
    assert!(commands.is_empty());
}

#[test]
fn an_output_moves_to_another_device() {
    let mut player = loaded(1);
    let next = set_audio_device("usb".to_string()).compute(&player).ok().unwrap();
    assert_eq!(next.audio_device, "usb");
    let refused = restart_output_for_config(&mut player, next.copy(), Err("no such".to_string()));
    assert!(matches!(refused, Err(PlayerError::Outside(_))));
    assert_eq!(player.runtime.as_ref().unwrap().config.audio_device, "auto");
    let restart = restart_output_for_config(&mut player, next, Ok(())).ok().unwrap().unwrap();
    assert_eq!(restart.session, 1);
    assert!(restart.output_thread);
    assert_eq!(restart.audio_device, "usb");
    assert!(!restart.exclusive_output);
    assert!(!player.runtime.as_ref().unwrap().session.unwrap().output_thread);
    assert_eq!(attach_output(&mut player, 9).ok(), Some(false));
    assert_eq!(attach_output(&mut player, 1).ok(), Some(true));
    assert!(player.runtime.as_ref().unwrap().session.unwrap().output_thread);
    let next = set_exclusive_output(true).compute(&player).ok().unwrap();
    assert_eq!(next.audio_device, "usb");
    assert!(next.exclusive_output);
}

#[test]
fn without_a_session_only_the_configuration_changes() {
    let mut player = player();
    let next = set_exclusive_output(true).compute(&player).ok().unwrap();
    assert!(restart_output_for_config(&mut player, next, Ok(())).ok().unwrap().is_none());
    assert!(player.runtime.as_ref().unwrap().config.exclusive_output);
    assert_eq!(attach_output(&mut player, 1).ok(), Some(false));
    let GetAudioDevicesTask = get_audio_devices();
}

#[test]
fn a_source_that_is_opened_anew_stays_the_source() {
    let mut player = loaded(1);
    let mut commands = Vec::new();
    let plan = seek(double(20.0)).compute(&mut player, false, &mut commands).ok().unwrap().unwrap();
    let request = plan.finish(&mut player, SeekReply::NoDecoder, &mut commands).ok().unwrap().unwrap();
    assert_eq!(
        open(&mut player, request, 2),
        ["duration 60", "loaded a.flac 7", "state true false 60 20"]
    );
    assert_eq!(player.session_id(), Some(2));
}

#[test]
fn a_loop_restart_is_taken_up_or_its_failure_told() {
    let mut player = loaded(1);
    set_loop_file(&mut player, true).ok().unwrap();
    let mut commands = Vec::new();
    let request = restart_loop_if_enabled(&mut player, 1, &mut commands).unwrap();
    commands.clear();
    finish_loop_restart(&mut player, Err("gone".to_string()), &mut commands);
    assert_eq!(texts(&commands), ["error Decode failed to restart loop playback: GenericFailure, gone"]);
    assert!(player.session_id().is_none());

    commands.clear();
    let prepared = request.prepare_source(double(60.0), 2, 48000);
    finish_loop_restart(&mut player, Ok(prepared), &mut commands);
    assert_eq!(
        texts(&commands),
        ["duration 60", "loaded a.flac 7", "state true false 60 0"]
    );
    assert_eq!(player.session_id(), Some(2));

    let request = restart_loop_if_enabled(&mut player, 2, &mut Vec::new()).unwrap();
    destroy(&mut player, &mut Vec::new());
    commands.clear();
    let prepared = request.prepare_source(double(60.0), 3, 48000);
    finish_loop_restart(&mut player, Ok(prepared), &mut commands);
    assert_eq!(
        texts(&commands),
        ["error Decode failed to restart loop playback: GenericFailure, player addon not initialized"]
    );
    assert!(player.session_id().is_none());
}

#[test]
fn errors_are_shown_with_their_status() {
    assert_eq!(PlayerError::NoSource.display(), "GenericFailure, no audio source loaded");
    assert_eq!(PlayerError::Outside(String::new()).display(), "GenericFailure");
}

#[test]
fn commands_reach_the_shared_state_of_their_session() {
    let mut player = loaded(1);
    let request = load_file("b".to_string(), None).compute(&mut player, &mut Vec::new()).ok().unwrap();
    let mut shared = request.shared_audio(48000);
    carry_out(&Command::SetPaused { session: 2, paused: false }, 1, &mut shared);
    assert!(shared.is_paused());
    carry_out(&Command::SetPaused { session: 1, paused: false }, 1, &mut shared);
    assert!(!shared.is_paused());
    carry_out(&Command::SetVolume { session: 1, volume: single(0.25) }, 1, &mut shared);
    assert_eq!(shared.volume(), single(0.25));
    carry_out(&Command::SetSpeed { session: 1, speed: single(2.0) }, 1, &mut shared);
    assert_eq!(shared.current_speed(), single(2.0));
    shared.push_samples(&[single(0.5)], 0);
    carry_out(&Command::RequestDecodeStop { session: 1 }, 1, &mut shared);
    assert!(shared.should_stop_decoding() && shared.is_interrupted());
    let resume = Command::ResumeDecoding { session: 1, position: double(1.5), settings: settings() };
    carry_out(&resume, 2, &mut shared);
    assert!(shared.should_stop_decoding());
    carry_out(&resume, 1, &mut shared);
    assert!(!shared.should_stop_decoding() && !shared.is_interrupted());
    assert_eq!(shared.position_secs(), double(1.5));
    carry_out(&Command::SetFadeStop(true), 1, &mut shared);
    assert!(!shared.is_paused() && !shared.is_stopped());
}

#[test]
fn a_seek_moves_the_shared_state() {
    for paused in [false, true] {
        let mut player = loaded(1);
        let request = restartable(&mut player);
        let mut shared = request.shared_audio(48000);
        shared.set_paused(paused);
        let mut commands = Vec::new();
        let plan = seek(double(2.0)).compute(&mut player, paused, &mut commands).ok().unwrap().unwrap();
        for command in &commands {
            carry_out(command, plan.session, &mut shared);
        }
        assert!(shared.is_paused() && shared.should_stop_decoding());
        commands.clear();
        let session = plan.session;
        plan.finish(&mut player, SeekReply::Sought, &mut commands).ok().unwrap();
        for command in &commands {
            carry_out(command, session, &mut shared);
        }
        assert_eq!(shared.is_paused(), paused);
        assert!(!shared.should_stop_decoding());
        assert_eq!(shared.position_secs(), double(2.0));
    }
}

fn restartable(player: &mut Player) -> SourceRequest {
    set_loop_file(player, true).ok().unwrap();
    let id = player.session_id().unwrap();
    let request = restart_loop_if_enabled(player, id, &mut Vec::new()).unwrap();
    let again = load_file("a.flac".to_string(), None).compute(player, &mut Vec::new()).ok().unwrap();
    open(player, again, id);
    request
}

#[test]
fn an_output_is_moved_step_by_step() {
    let mut player = loaded(1);
    let mut shared = restartable(&mut player).shared_audio(48000);
    let next = set_audio_device("usb".to_string()).compute(&player).ok().unwrap();
    let restart = restart_output_for_config(&mut player, next, Ok(())).ok().unwrap().unwrap();
    let action = restart.advance(OutputEvent::Planned, &mut player, &mut shared);
    assert_eq!(action.ok(), Some(OutputAction::AwaitOld));
    assert!(shared.should_stop_output());
    let action = restart.advance(OutputEvent::OldEnded, &mut player, &mut shared);
    assert_eq!(action.ok(), Some(OutputAction::Start));
    assert!(!shared.should_stop_output());
    let action = restart.advance(OutputEvent::NewStarted, &mut player, &mut shared);
    assert_eq!(action.ok(), Some(OutputAction::Keep));
    assert!(!shared.should_stop_output());
    assert!(player.runtime.as_ref().unwrap().session.unwrap().output_thread);

    stop(&mut player, &mut Vec::new()).ok().unwrap();
    let action = restart.advance(OutputEvent::NewStarted, &mut player, &mut shared);
    assert_eq!(action.ok(), Some(OutputAction::AwaitNew));
    assert!(shared.should_stop_output());
    let action = restart.advance(OutputEvent::NewEnded, &mut player, &mut shared);
    assert_eq!(action.ok(), Some(OutputAction::Finish));
    let action = restart.advance(OutputEvent::NewStarted, &mut Player::new(), &mut shared);
    assert!(matches!(action, Err(PlayerError::NotInitialized)));
}
