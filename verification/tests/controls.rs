use echo_ffmpeg_player::controls::{
    configure_spectrum, get_spectrum_snapshot, get_spectrum_status, set_equalizer, set_http_proxy,
    set_network_timeout, set_normalization_gain, set_speed, set_volume,
};
use echo_ffmpeg_player::events::{PlayerError, PlayerEvent, SpectrumFrame};
use echo_ffmpeg_player::fade::{cancel_fade, fade, pause_with_fade, play_with_fade, step_count, FadeRun};
use echo_ffmpeg_player::float_bits::{Double, Single};
use echo_ffmpeg_player::player::{initialize, Command, PlaybackSession, Player};
use echo_ffmpeg_player::settings::{DspSettings, PlayerConfig};

fn double(value: f64) -> Double {
    Double { bits: value.to_bits() }
}

fn single(value: f32) -> Single {
    Single { bits: value.to_bits() }
}

fn player(session: Option<u64>) -> Player {
    let mut player = Player::new();
    initialize(
        &mut player,
        PlayerConfig {
            audio_device: "auto".to_string(),
            exclusive_output: false,
            audio_buffer_secs: double(0.5),
            network_timeout_secs: double(30.0),
            http_proxy: None,
        },
        DspSettings {
            speed: single(1.0),
            equalizer: vec![single(0.0); 4],
            normalization_gain_db: single(0.0),
            spatial: None,
        },
        single(0.5),
        &mut Vec::new(),
    );
    player.runtime.as_mut().unwrap().session = session.map(|id| PlaybackSession {
        id,
        sample_rate: 48000,
        output_thread: true,
        decode_thread: true,
        position_thread: true,
    });
    player
}

fn frame(peak: f64, rms: f64) -> SpectrumFrame {
    SpectrumFrame { peak: double(peak), rms: double(rms), bins: vec![double(0.0); 8] }
}

#[test]
fn controls_need_a_player() {
    let mut player = Player::new();
    let mut commands = Vec::new();
    assert!(matches!(set_volume(&player, double(1.0), &mut commands), Err(PlayerError::NotInitialized)));
    assert!(set_speed(double(1.0)).compute(&mut player, &mut commands).is_err());
    assert!(set_equalizer(&mut player, Vec::new(), &mut commands).is_err());
    assert!(set_normalization_gain(&mut player, double(1.0), &mut commands).is_err());
    assert!(set_network_timeout(&mut player, double(1.0)).is_err());
    assert!(set_http_proxy(&mut player, "x").is_err());
    assert!(configure_spectrum(&mut player, &mut commands).is_err());
    assert!(get_spectrum_status(&player).is_err());
    assert!(get_spectrum_snapshot(&mut player, None, &mut commands).is_err());
    assert!(cancel_fade(&player, &mut commands).is_err());
    assert!(fade(double(0.0), double(1.0), double(1.0))
        .compute(&mut player, &mut commands)
        .is_err());
    assert!(commands.is_empty());
}

#[test]
fn the_volume_stays_in_range() {
    let player = player(Some(3));
    for (percent, level) in [(50.0, 0.5f32), (200.0, 1.5), (-1.0, 0.0), (10.0, 0.1), (33.0, 0.33)] {
        let mut commands = Vec::new();
        set_volume(&player, double(percent), &mut commands).ok().unwrap();
        match commands.as_slice() {
            [Command::SetVolume { session: 3, volume }] => assert_eq!(*volume, single(level)),
            _ => panic!("expected a volume"),
        }
    }
    let mut commands = Vec::new();
    set_volume(&self::player(None), double(1.0), &mut commands).ok().unwrap();
    assert!(commands.is_empty());
}

#[test]
fn the_speed_reaches_player_and_session() {
    let mut player = player(Some(3));
    let mut commands = Vec::new();
    set_speed(double(9.0)).compute(&mut player, &mut commands).ok().unwrap();
    assert_eq!(player.runtime.as_ref().unwrap().dsp_settings.speed, single(4.0));
    match commands.as_slice() {
        [Command::SetSpeed { session: 3, speed }] => assert_eq!(*speed, single(4.0)),
        _ => panic!("expected a speed"),
    }
}

#[test]
fn equalizer_gains_are_clamped_and_filled_up() {
    let mut player = player(Some(3));
    let mut commands = Vec::new();
    set_equalizer(&mut player, vec![double(-20.0), double(3.5)], &mut commands).ok().unwrap();
    assert_eq!(
        player.runtime.as_ref().unwrap().dsp_settings.equalizer,
        vec![single(-12.0), single(3.5), single(0.0), single(0.0)]
    );
    assert!(matches!(commands.as_slice(), [Command::UpdateEffects { session: 3 }]));
    set_equalizer(&mut player, vec![double(20.0); 9], &mut commands).ok().unwrap();
    assert_eq!(
        player.runtime.as_ref().unwrap().dsp_settings.equalizer,
        vec![single(12.0); 4]
    );
}

#[test]
fn gain_and_timeout_are_clamped() {
    let mut player = player(None);
    let mut commands = Vec::new();
    set_normalization_gain(&mut player, double(-30.0), &mut commands).ok().unwrap();
    assert!(commands.is_empty());
    set_network_timeout(&mut player, double(0.5)).ok().unwrap();
    let runtime = player.runtime.as_ref().unwrap();
    assert_eq!(runtime.dsp_settings.normalization_gain_db, single(-24.0));
    assert_eq!(runtime.config.network_timeout_secs, double(1.0));
    set_network_timeout(&mut player, double(400.0)).ok().unwrap();
    assert_eq!(player.runtime.as_ref().unwrap().config.network_timeout_secs, double(300.0));
}

#[test]
fn the_proxy_is_trimmed() {
    let mut player = player(None);
    set_http_proxy(&mut player, " \u{3000}http://proxy:1\t\n").ok().unwrap();
    assert_eq!(
        player.runtime.as_ref().unwrap().config.http_proxy.as_deref(),
        Some("http://proxy:1")
    );
    set_http_proxy(&mut player, " \n ").ok().unwrap();
    assert!(player.runtime.as_ref().unwrap().config.http_proxy.is_none());
}

#[test]
fn the_first_signal_of_a_spectrum_is_logged() {
    let mut player = player(Some(3));
    let mut commands = Vec::new();
    let silent = get_spectrum_snapshot(&mut player, Some(frame(0.0, 0.0)), &mut commands);
    assert!(silent.ok().unwrap().is_some());
    assert!(get_spectrum_snapshot(&mut player, None, &mut commands).ok().unwrap().is_none());
    assert!(commands.is_empty());
    let loud = get_spectrum_snapshot(&mut player, Some(frame(0.0, 0.25)), &mut commands);
    assert_eq!(loud.ok().unwrap().unwrap().rms, double(0.25));
    match commands.as_slice() {
        [Command::Emit(PlayerEvent::SpectrumSignal { rms, bins: 8, .. })] => {
            assert_eq!(*rms, double(0.25));
        }
        _ => panic!("expected a log"),
    }
    let again = get_spectrum_snapshot(&mut player, Some(frame(1.0, 0.25)), &mut commands);
    assert!(again.is_ok());
    assert_eq!(commands.len(), 1);
    let status = configure_spectrum(&mut player, &mut commands).ok().unwrap();
    assert!(status.available && status.running && status.reason.is_none());
    assert!(matches!(commands[1], Command::RebuildSpectrum));
    get_spectrum_snapshot(&mut player, Some(frame(1.0, 0.25)), &mut commands).ok().unwrap();
    assert_eq!(commands.len(), 3);
    assert!(get_spectrum_status(&player).ok().unwrap().available);
    let mut idle = self::player(None);
    let none = get_spectrum_snapshot(&mut idle, Some(frame(1.0, 1.0)), &mut commands);
    assert!(none.ok().unwrap().is_none());
}

#[test]
fn fade_steps_last_as_long_as_the_fade() {
    for duration in [
        0.0, -5.0, 1.0, 15.9, 16.0, 16.1, 32.0, 33.0, 500.0, 1000.5, 1e6, 6.8719476736e10,
        6.8719476735e10, 1e12, 1e300, f64::INFINITY, f64::NAN, 5e-324,
    ] {
        assert_eq!(step_count(double(duration)), (duration / 16.0).ceil().max(1.0) as u32);
    }
}

#[test]
fn a_fade_goes_through_its_steps() {
    let mut player = player(Some(3));
    let mut commands = Vec::new();
    let task = fade(double(100.0), double(0.0), double(40.0));
    let mut run = task.compute(&mut player, &mut commands).ok().unwrap();
    assert!(matches!(commands.as_slice(), [Command::SetFadeStop(false)]));
    let mut steps = Vec::new();
    while let Some(step) = run.next_step(false) {
        steps.push(step);
    }
    assert_eq!(steps, [0, 1, 2, 3]);
    assert_eq!(run.next_step(false), None);
}

#[test]
fn a_fade_sets_the_volume_at_every_step() {
    let mut player = player(Some(3));
    let mut commands = Vec::new();
    let task = fade(double(80.0), double(15.5), double(100.0));
    let mut run = task.compute(&mut player, &mut commands).ok().unwrap();
    commands.clear();
    while task.step(&mut run, &player, false, &mut commands).ok().unwrap() {}
    let volumes: Vec<Single> = commands
        .iter()
        .map(|command| match command {
            Command::SetVolume { session: 3, volume } => *volume,
            _ => panic!("expected a volume"),
        })
        .collect();
    let expected: Vec<Single> = (0..=7)
        .map(|step| {
            let t = step as f64 / 7.0;
            let value: f64 = 80.0 + (15.5 - 80.0) * t;
            single((value / 100.0).clamp(0.0, 1.5) as f32)
        })
        .collect();
    assert_eq!(volumes, expected);
    assert_eq!(task.step(&mut run, &player, false, &mut commands).ok(), Some(false));
    let mut run = FadeRun { next: Some(0), steps: 3 };
    assert!(task.step(&mut run, &Player::new(), false, &mut commands).is_err());
    assert_eq!(task.step(&mut run, &player, true, &mut commands).ok(), Some(false));
}

#[test]
fn fades_meet_their_ends() {
    for volume in [100.0, 33.3, 0.1, 7.0] {
        let down = pause_with_fade(double(volume), double(500.0));
        assert_eq!(down.volume_at(0, 32), double(volume));
        assert_eq!(down.volume_at(32, 32), double(0.0));
        let up = play_with_fade(double(volume), double(500.0));
        assert_eq!(up.volume_at(0, 32), double(0.0));
        assert_eq!(up.volume_at(32, 32), double(volume));
    }
}

#[test]
fn volumes_are_those_of_floating_point() {
    let player = player(Some(1));
    let mut percent: f64 = -3.0;
    while percent < 160.0 {
        let mut commands = Vec::new();
        set_volume(&player, double(percent), &mut commands).ok().unwrap();
        match commands.as_slice() {
            [Command::SetVolume { session: 1, volume }] => {
                assert_eq!(*volume, single((percent / 100.0).clamp(0.0, 1.5) as f32));
            }
            _ => panic!("expected a volume"),
        }
        percent += 0.37;
    }
}

#[test]
fn fading_in_starts_to_play() {
    let mut player = player(Some(3));
    let mut commands = Vec::new();
    let task = play_with_fade(double(80.0), double(16.0));
    assert_eq!(task.from, double(0.0));
    let mut run = task.compute(&mut player, &mut commands).ok().unwrap();
    match commands.as_slice() {
        [Command::SetFadeStop(false), Command::SetVolume { session: 3, volume }, Command::SetPaused { session: 3, paused: false }, Command::Emit(PlayerEvent::StateChange(state))] =>
        {
            assert_eq!(*volume, single(0.0));
            assert!(state.playing && !state.paused);
        }
        _ => panic!("expected the start of playing"),
    }
    assert_eq!(run.next_step(false), Some(1));
    assert_eq!(run.next_step(false), None);
}

#[test]
fn a_cancelled_fade_ends() {
    let mut run = FadeRun { next: Some(0), steps: u32::MAX };
    assert_eq!(run.next_step(false), Some(0));
    assert_eq!(run.next_step(true), None);
    assert_eq!(run.next_step(false), None);
    let mut commands = Vec::new();
    cancel_fade(&player(None), &mut commands).ok().unwrap();
    assert!(matches!(commands.as_slice(), [Command::SetFadeStop(true)]));
    let task = pause_with_fade(double(70.0), double(10.0));
    assert_eq!((task.from, task.to), (double(70.0), double(0.0)));
    assert!(!task.start_playback);
}
