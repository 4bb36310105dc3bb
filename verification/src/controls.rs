//! Levels, network settings and the spectrum.

use vstd::prelude::*;

use crate::events::{PlayerError, PlayerEvent, SpectrumFrame, SpectrumStatus};
use crate::float_bits::{narrowing_keeps_singles, Double, Single};
use crate::player::{
    effects, request_for, Command, LoadFileTask, Player, PlayerRuntime, SourceRequest,
};
use crate::settings::{
    band_gains, bands_take_their_own_values, equalizer_gains, gains_in_range_are_kept,
    network_timeout, normalization_gain, timeouts_in_range_are_kept, volume_level, DspSettings,
    PlayerConfig, GAIN_HIGH, GAIN_LOW, TIMEOUT_HIGH, TIMEOUT_LOW, VOLUME_HIGH,
};
use crate::shared::SharedView;
use crate::spatial::update_effects;
use crate::tempo::{normalize_speed, SPEED_HIGH, SPEED_LOW};
use crate::text::trimmed;

verus! {

impl PlayerRuntime {
    /// What tells the session its volume.
    pub open spec fn volume_commands(self, percent: Double) -> Seq<Command> {
        match self.session {
            Some(session) => seq![
                Command::SetVolume { session: session.id, volume: volume_level(percent) },
            ],
            None => Seq::empty(),
        }
    }

    /// What tells the session its speed.
    pub open spec fn speed_commands(self, speed: Single) -> Seq<Command> {
        match self.session {
            Some(session) => seq![Command::SetSpeed { session: session.id, speed }],
            None => Seq::empty(),
        }
    }
}

/// Tells the session, if there is one, its volume.
pub(crate) fn push_volume(runtime: &PlayerRuntime, percent: Double, commands: &mut Vec<Command>)
    ensures
        final(commands)@ == old(commands)@ + runtime.volume_commands(percent),
{
    let ghost before = commands@;
    let volume: Single = percent.divide(100).clamp(
        Double { bits: 0 },
        Double { bits: VOLUME_HIGH },
    ).to_single();
    match runtime.session {
        Some(session) => {
            commands.push(Command::SetVolume { session: session.id, volume });
        },
        None => {},
    }
    assert(commands@ =~= before + runtime.volume_commands(percent));
}

/// Sets the volume of the session in percent of the full volume: from nothing to one
/// and a half times.
pub fn set_volume(player: &Player, volume: Double, commands: &mut Vec<Command>) -> (result: Result<
    (),
    PlayerError,
>)
    ensures
        match player.runtime {
            None => {
                &&& result == Err::<(), PlayerError>(PlayerError::NotInitialized)
                &&& final(commands)@ == old(commands)@
            },
            Some(runtime) => {
                &&& result is Ok
                &&& final(commands)@ == old(commands)@ + runtime.volume_commands(volume)
            },
        },
{
    match &player.runtime {
        None => Err(PlayerError::NotInitialized),
        Some(runtime) => {
            push_volume(runtime, volume, commands);
            Ok(())
        },
    }
}

/// A request for a speed.
pub struct SetSpeedTask {
    pub speed: Double,
}

/// A request for a speed.
pub fn set_speed(speed: Double) -> (result: SetSpeedTask)
    ensures
        result.speed == speed,
{
    SetSpeedTask { speed }
}

impl SetSpeedTask {
    /// The speed that is set.
    pub open spec fn normal(self) -> Single {
        self.speed.clamped(Double { bits: SPEED_LOW }, Double { bits: SPEED_HIGH }).narrowed()
    }

    /// What becomes of the request: the player and the session have that speed.
    pub open spec fn taken(
        self,
        before: Player,
        after: Player,
        before_commands: Seq<Command>,
        after_commands: Seq<Command>,
        result: Result<(), PlayerError>,
    ) -> bool {
        match before.runtime {
            None => result == Err::<(), PlayerError>(PlayerError::NotInitialized),
            Some(runtime) => {
                &&& result is Ok
                &&& after.runtime == Some(
                    runtime.with_settings(
                        DspSettings { speed: self.normal(), ..runtime.dsp_settings },
                    ),
                )
                &&& after_commands == before_commands + runtime.speed_commands(self.normal())
            },
        }
    }

    /// Sets the speed of the player and of the session.
    pub fn compute(&self, player: &mut Player, commands: &mut Vec<Command>) -> (result: Result<
        (),
        PlayerError,
    >)
        ensures
            old(player).wf() ==> final(player).wf(),
            old(player).refuses(*final(player), old(commands)@, final(commands)@),
            self.taken(*old(player), *final(player), old(commands)@, final(commands)@, result),
    {
        let ghost before = commands@;
        match &mut player.runtime {
            None => Err(PlayerError::NotInitialized),
            Some(runtime) => {
                let speed: Single = normalize_speed(self.speed);
                runtime.dsp_settings.speed = speed;
                match runtime.session {
                    Some(session) => {
                        commands.push(Command::SetSpeed { session: session.id, speed });
                    },
                    None => {},
                }
                assert(commands@ =~= before + runtime.speed_commands(speed));
                Ok(())
            },
        }
    }
}

/// What becomes of a request for gains of the equalizer bands.
pub open spec fn equalizer_set(
    gains: Seq<Double>,
    before: Player,
    after: Player,
    before_commands: Seq<Command>,
    after_commands: Seq<Command>,
    result: Result<(), PlayerError>,
) -> bool {
    match before.runtime {
        None => result == Err::<(), PlayerError>(PlayerError::NotInitialized),
        Some(runtime) => {
            &&& result is Ok
            &&& after.runtime matches Some(now) && now == runtime.with_settings(
                DspSettings {
                    equalizer: now.dsp_settings.equalizer,
                    ..runtime.dsp_settings
                },
            ) && now.dsp_settings.equalizer@ == band_gains(
                gains,
                runtime.dsp_settings.equalizer@.len(),
            )
            &&& after_commands == before_commands + runtime.effects_commands()
        },
    }
}

/// Sets the gains of the equalizer bands in decibel. Bands for which none is given
/// are flat, and gains for which there is no band do not count.
pub fn set_equalizer(
    player: &mut Player,
    gains: Vec<Double>,
    commands: &mut Vec<Command>,
) -> (result: Result<(), PlayerError>)
    ensures
        old(player).wf() ==> final(player).wf(),
        old(player).refuses(*final(player), old(commands)@, final(commands)@),
        equalizer_set(
            gains@,
            *old(player),
            *final(player),
            old(commands)@,
            final(commands)@,
            result,
        ),
{
    match &mut player.runtime {
        None => Err(PlayerError::NotInitialized),
        Some(runtime) => {
            let bands: usize = runtime.dsp_settings.equalizer.len();
            runtime.dsp_settings.equalizer = equalizer_gains(&gains, bands);
            update_effects(runtime, commands);
            Ok(())
        },
    }
}

/// What becomes of a request for a gain that brings sources to one loudness.
pub open spec fn normalization_set(
    gain_db: Double,
    before: Player,
    after: Player,
    before_commands: Seq<Command>,
    after_commands: Seq<Command>,
    result: Result<(), PlayerError>,
) -> bool {
    match before.runtime {
        None => result == Err::<(), PlayerError>(PlayerError::NotInitialized),
        Some(runtime) => {
            &&& result is Ok
            &&& after.runtime == Some(
                runtime.with_settings(
                    DspSettings {
                        normalization_gain_db: normalization_gain(gain_db),
                        ..runtime.dsp_settings
                    },
                ),
            )
            &&& after_commands == before_commands + runtime.effects_commands()
        },
    }
}

/// Sets the gain that brings sources to one loudness, in decibel.
pub fn set_normalization_gain(
    player: &mut Player,
    gain_db: Double,
    commands: &mut Vec<Command>,
) -> (result: Result<(), PlayerError>)
    ensures
        old(player).wf() ==> final(player).wf(),
        old(player).refuses(*final(player), old(commands)@, final(commands)@),
        normalization_set(
            gain_db,
            *old(player),
            *final(player),
            old(commands)@,
            final(commands)@,
            result,
        ),
{
    match &mut player.runtime {
        None => Err(PlayerError::NotInitialized),
        Some(runtime) => {
            runtime.dsp_settings.normalization_gain_db = gain_db.clamp(
                Double { bits: GAIN_LOW },
                Double { bits: GAIN_HIGH },
            ).to_single();
            update_effects(runtime, commands);
            Ok(())
        },
    }
}

/// What becomes of a request for a network timeout in seconds.
pub open spec fn network_timeout_set(
    seconds: Double,
    before: Player,
    after: Player,
    result: Result<(), PlayerError>,
) -> bool {
    match before.runtime {
        None => {
            &&& result == Err::<(), PlayerError>(PlayerError::NotInitialized)
            &&& after == before
        },
        Some(runtime) => {
            &&& result is Ok
            &&& after.runtime == Some(
                PlayerRuntime {
                    config: PlayerConfig {
                        network_timeout_secs: network_timeout(seconds),
                        ..runtime.config
                    },
                    ..runtime
                },
            )
        },
    }
}

/// Sets the network timeout in seconds.
pub fn set_network_timeout(player: &mut Player, seconds: Double) -> (result: Result<
    (),
    PlayerError,
>)
    ensures
        old(player).wf() ==> final(player).wf(),
        network_timeout_set(seconds, *old(player), *final(player), result),
{
    match &mut player.runtime {
        None => Err(PlayerError::NotInitialized),
        Some(runtime) => {
            runtime.config.network_timeout_secs = seconds.clamp(
                Double { bits: TIMEOUT_LOW },
                Double { bits: TIMEOUT_HIGH },
            );
            Ok(())
        },
    }
}

/// What becomes of a request for a proxy.
pub open spec fn http_proxy_set(
    proxy: Seq<char>,
    before: Player,
    after: Player,
    result: Result<(), PlayerError>,
) -> bool {
    match before.runtime {
        None => {
            &&& result == Err::<(), PlayerError>(PlayerError::NotInitialized)
            &&& after == before
        },
        Some(runtime) => {
            &&& result is Ok
            &&& after.runtime matches Some(now) && now == (PlayerRuntime {
                config: PlayerConfig {
                    http_proxy: now.config.http_proxy,
                    ..runtime.config
                },
                ..runtime
            }) && match now.config.http_proxy {
                Some(set) => trimmed(proxy).len() > 0 && set@ == trimmed(proxy),
                None => trimmed(proxy).len() == 0,
            }
        },
    }
}

/// Sets the proxy, without white space at its ends; none where nothing is left.
pub fn set_http_proxy(player: &mut Player, proxy: &str) -> (result: Result<(), PlayerError>)
    ensures
        old(player).wf() ==> final(player).wf(),
        http_proxy_set(proxy@, *old(player), *final(player), result),
{
    match &mut player.runtime {
        None => Err(PlayerError::NotInitialized),
        Some(runtime) => {
            let proxy: &str = proxy.trim();
            runtime.config.http_proxy = if proxy.is_empty() {
                None
            } else {
                Some(proxy.to_string())
            };
            Ok(())
        },
    }
}

/// A spectrum is there, whatever is played.
fn spectrum_status() -> (result: SpectrumStatus)
    ensures
        result == (SpectrumStatus { available: true, running: true, reason: None }),
{
    SpectrumStatus { available: true, running: true, reason: None }
}

/// Takes up another configuration of the spectrum. The next signal in it is logged.
pub fn configure_spectrum(player: &mut Player, commands: &mut Vec<Command>) -> (result: Result<
    SpectrumStatus,
    PlayerError,
>)
    ensures
        old(player).wf() ==> final(player).wf(),
        old(player).refuses(*final(player), old(commands)@, final(commands)@),
        match old(player).runtime {
            None => result == Err::<SpectrumStatus, PlayerError>(PlayerError::NotInitialized),
            Some(runtime) => {
                &&& result == Ok::<SpectrumStatus, PlayerError>(
                    SpectrumStatus { available: true, running: true, reason: None },
                )
                &&& final(player).runtime == Some(
                    PlayerRuntime { spectrum_signal_logged: false, ..runtime },
                )
                &&& final(commands)@ == old(commands)@.push(Command::RebuildSpectrum)
            },
        },
{
    match &mut player.runtime {
        None => Err(PlayerError::NotInitialized),
        Some(runtime) => {
            runtime.spectrum_signal_logged = false;
            commands.push(Command::RebuildSpectrum);
            Ok(spectrum_status())
        },
    }
}

/// Whether a spectrum can be had.
pub fn get_spectrum_status(player: &Player) -> (result: Result<SpectrumStatus, PlayerError>)
    ensures
        result == match player.runtime {
            None => Err::<SpectrumStatus, PlayerError>(PlayerError::NotInitialized),
            Some(_) => Ok(SpectrumStatus { available: true, running: true, reason: None }),
        },
{
    match &player.runtime {
        None => Err(PlayerError::NotInitialized),
        Some(_) => Ok(spectrum_status()),
    }
}

/// The frame shows a signal.
pub open spec fn has_signal(frame: SpectrumFrame) -> bool {
    Double { bits: 0 }.less(frame.peak) || Double { bits: 0 }.less(frame.rms)
}

/// What becomes of a request for the spectrum, which `frame` holds where it could be taken.
pub open spec fn spectrum_taken(
    before: Player,
    frame: Option<SpectrumFrame>,
    after: Player,
    before_commands: Seq<Command>,
    after_commands: Seq<Command>,
    result: Result<Option<SpectrumFrame>, PlayerError>,
) -> bool {
    match before.runtime {
        None => result == Err::<Option<SpectrumFrame>, PlayerError>(
            PlayerError::NotInitialized,
        ),
        Some(runtime) => if runtime.session is None {
            &&& result matches Ok(None)
            &&& after == before
            &&& after_commands == before_commands
        } else {
            let logs = !runtime.spectrum_signal_logged && frame is Some && has_signal(
                frame->0,
            );
            &&& result == Ok::<Option<SpectrumFrame>, PlayerError>(frame)
            &&& after.runtime == Some(
                PlayerRuntime {
                    spectrum_signal_logged: runtime.spectrum_signal_logged || logs,
                    ..runtime
                },
            )
            &&& after_commands == if logs {
                before_commands.push(
                    Command::Emit(
                        PlayerEvent::SpectrumSignal {
                            peak: frame->0.peak,
                            rms: frame->0.rms,
                            bins: frame->0.bins.len(),
                        },
                    ),
                )
            } else {
                before_commands
            }
        },
    }
}

/// The spectrum of the session, which `frame` holds where it could be taken. The
/// first signal in it is logged.
pub fn get_spectrum_snapshot(
    player: &mut Player,
    frame: Option<SpectrumFrame>,
    commands: &mut Vec<Command>,
) -> (result: Result<Option<SpectrumFrame>, PlayerError>)
    ensures
        old(player).wf() ==> final(player).wf(),
        old(player).refuses(*final(player), old(commands)@, final(commands)@),
        spectrum_taken(
            *old(player),
            frame,
            *final(player),
            old(commands)@,
            final(commands)@,
            result,
        ),
{
    match &mut player.runtime {
        None => Err(PlayerError::NotInitialized),
        Some(runtime) => {
            if runtime.session.is_none() {
                return Ok(None);
            }
            match &frame {
                Some(frame) => {
                    if !runtime.spectrum_signal_logged && (frame.peak.is_positive()
                        || frame.rms.is_positive()) {
                        runtime.spectrum_signal_logged = true;
                        commands.push(
                            Command::Emit(
                                PlayerEvent::SpectrumSignal {
                                    peak: frame.peak,
                                    rms: frame.rms,
                                    bins: frame.bins.len(),
                                },
                            ),
                        );
                    }
                },
                None => {},
            }
            Ok(frame)
        },
    }
}

/// The speed that is set is the one that was asked for where that is from a quarter to
/// four, and the nearer of these where it is not.
pub proof fn speeds_in_range_are_kept(task: SetSpeedTask)
    ensures
        0x3fd0_0000_0000_0000 <= task.speed.bits <= 0x4010_0000_0000_0000 ==> task.normal()
            == task.speed.narrowed(),
        task.speed.bits < 0x3fd0_0000_0000_0000 ==> task.normal().bits == 0x3e80_0000,
        task.speed.negative() && !task.speed.not_a_number() ==> task.normal().bits == 0x3e80_0000,
        0x4010_0000_0000_0000 < task.speed.bits <= 0x7ff0_0000_0000_0000 ==> task.normal().bits
            == 0x4080_0000,
        task.speed.not_a_number() ==> task.normal() == task.speed.narrowed(),
{
    narrowing_keeps_singles(125, 0, false);
    narrowing_keeps_singles(129, 0, false);
}

/// A speed that was set is that of every source that is opened after it, whatever is
/// opened and whatever the speed was before: the one that was asked for, brought into the
/// range from a quarter to four.
pub proof fn a_speed_is_that_of_the_next_source(
    task: SetSpeedTask,
    runtime: PlayerRuntime,
    url: Option<String>,
    audio_stream_ordinal: Option<usize>,
    seq: Option<u64>,
    start_position: Double,
    autostart: bool,
    request: SourceRequest,
    sample_rate: u32,
)
    requires
        request_for(
            runtime.with_settings(DspSettings { speed: task.normal(), ..runtime.dsp_settings }),
            url,
            audio_stream_ordinal,
            seq,
            start_position,
            autostart,
            request,
        ),
    ensures
        request.dsp_settings.speed == task.speed.clamped(
            Double { bits: 0x3fd0_0000_0000_0000 },
            Double { bits: 0x4010_0000_0000_0000 },
        ).narrowed(),
        request.session_state(sample_rate).speed == task.speed.clamped(
            Double { bits: 0x3fd0_0000_0000_0000 },
            Double { bits: 0x4010_0000_0000_0000 },
        ).narrowed(),
        request.dsp_settings.equalizer@ == runtime.dsp_settings.equalizer@,
        request.dsp_settings.normalization_gain_db == runtime.dsp_settings.normalization_gain_db,
        request.dsp_settings.spatial == runtime.dsp_settings.spatial,
{
}

/// Setting the volume or the speed reaches the session in use and changes nothing else
/// of it.
pub proof fn the_session_gets_volume_and_speed(
    runtime: PlayerRuntime,
    percent: Double,
    speed: Single,
    shared: SharedView,
)
    ensures
        runtime.session matches Some(session) ==> {
            &&& effects(runtime.volume_commands(percent), session.id, shared) == (SharedView {
                volume: volume_level(percent),
                ..shared
            })
            &&& effects(runtime.speed_commands(speed), session.id, shared) == (SharedView {
                speed,
                ..shared
            })
        },
        runtime.session is None ==> runtime.volume_commands(percent).len() == 0
            && runtime.speed_commands(speed).len() == 0,
{
    reveal_with_fuel(effects, 2);
}

/// New settings of the signal processing leave the rest of the player alone.
pub proof fn settings_leave_the_player_alone(runtime: PlayerRuntime, settings: DspSettings)
    ensures
        ({
            let now = runtime.with_settings(settings);
            &&& now.dsp_settings == settings
            &&& now.session == runtime.session
            &&& now.state == runtime.state
            &&& now.config == runtime.config
            &&& runtime.same_source(now)
            &&& now.loop_file == runtime.loop_file
            &&& now.audio_filter == runtime.audio_filter
            &&& now.spatial_request_seq == runtime.spatial_request_seq
            &&& now.spatial_mix == runtime.spatial_mix
        }),
{
}

/// A frame shows a signal where its peak or its mean is above zero.
pub proof fn a_signal_is_above_zero(frame: SpectrumFrame)
    ensures
        has_signal(frame) == ((0 < frame.peak.bits <= 0x7ff0_0000_0000_0000) || (0 < frame.rms.bits
            <= 0x7ff0_0000_0000_0000)),
{
}

/// A speed that is set, and then a source that is loaded: the source plays at the speed,
/// brought into the range from a quarter to four, and the session in use got it before.
pub proof fn setting_the_speed_before_a_load(
    task: SetSpeedTask,
    load: LoadFileTask,
    before: Player,
    set: Player,
    after: Player,
    commands: Seq<Command>,
    set_commands: Seq<Command>,
    after_commands: Seq<Command>,
    set_result: Result<(), PlayerError>,
    result: Result<SourceRequest, PlayerError>,
    sample_rate: u32,
)
    requires
        before.runtime is Some,
        task.taken(before, set, commands, set_commands, set_result),
        load.begun(set, after, set_commands, after_commands, result),
    ensures
        set_result is Ok,
        result is Ok,
        ({
            let speed = task.speed.clamped(
                Double { bits: 0x3fd0_0000_0000_0000 },
                Double { bits: 0x4010_0000_0000_0000 },
            ).narrowed();
            &&& set.runtime matches Some(now) && now.dsp_settings.speed == speed
            &&& result->Ok_0.dsp_settings.speed == speed
            &&& (result->Ok_0).session_state(sample_rate).speed == speed
            &&& after.runtime matches Some(now) && now.dsp_settings.speed == speed
            &&& before.runtime->0.session matches Some(session) ==> set_commands == commands.push(
                Command::SetSpeed { session: session.id, speed },
            )
            &&& before.runtime->0.session is None ==> set_commands == commands
        }),
{
}

/// The first signal in the spectrum of a session is logged, and no further one: the second
/// of two requests logs nothing where the first saw a signal. Each gets the spectrum as it
/// was taken.
pub proof fn the_first_signal_is_logged_once(
    before: Player,
    between: Player,
    after: Player,
    first: Option<SpectrumFrame>,
    second: Option<SpectrumFrame>,
    commands: Seq<Command>,
    between_commands: Seq<Command>,
    after_commands: Seq<Command>,
    first_result: Result<Option<SpectrumFrame>, PlayerError>,
    second_result: Result<Option<SpectrumFrame>, PlayerError>,
)
    requires
        before.runtime matches Some(runtime) && runtime.session is Some
            && !runtime.spectrum_signal_logged,
        spectrum_taken(before, first, between, commands, between_commands, first_result),
        spectrum_taken(
            between,
            second,
            after,
            between_commands,
            after_commands,
            second_result,
        ),
    ensures
        first_result == Ok::<Option<SpectrumFrame>, PlayerError>(first),
        second_result == Ok::<Option<SpectrumFrame>, PlayerError>(second),
        ({
            let signal = match first {
                Some(frame) => 0 < frame.peak.bits <= 0x7ff0_0000_0000_0000 || 0 < frame.rms.bits
                    <= 0x7ff0_0000_0000_0000,
                None => false,
            };
            &&& signal ==> between_commands == commands.push(
                Command::Emit(
                    PlayerEvent::SpectrumSignal {
                        peak: first->0.peak,
                        rms: first->0.rms,
                        bins: first->0.bins.len(),
                    },
                ),
            )
            &&& !signal ==> between_commands == commands
            &&& signal ==> after_commands == between_commands
            &&& after_commands.len() <= commands.len() + 1
        }),
{
}

/// Setting the gains of the equalizer sets every band to the value at its place, brought
/// within 12 decibel, and the bands without one to zero. The other settings stay, and the
/// session in use is told to take the settings up.
pub proof fn the_equalizer_takes_the_gains(
    gains: Seq<Double>,
    before: Player,
    after: Player,
    before_commands: Seq<Command>,
    after_commands: Seq<Command>,
    result: Result<(), PlayerError>,
    i: int,
)
    requires
        before.runtime is Some,
        equalizer_set(gains, before, after, before_commands, after_commands, result),
        0 <= i < before.runtime->0.dsp_settings.equalizer@.len(),
    ensures
        result is Ok,
        after.runtime is Some,
        ({
            let runtime = before.runtime->0;
            let now = after.runtime->0;
            let set = now.dsp_settings.equalizer@;
            &&& set.len() == runtime.dsp_settings.equalizer@.len()
            &&& i >= gains.len() ==> set[i].bits == 0
            &&& i < gains.len() && gains[i].magnitude() <= 0x4028_0000_0000_0000 ==> set[i]
                == gains[i].narrowed()
            &&& i < gains.len() && 0x4028_0000_0000_0000 < gains[i].magnitude()
                <= 0x7ff0_0000_0000_0000 ==> set[i].bits == if gains[i].negative() {
                0xc140_0000u32
            } else {
                0x4140_0000u32
            }
            &&& now.dsp_settings.speed == runtime.dsp_settings.speed
            &&& now.dsp_settings.normalization_gain_db
                == runtime.dsp_settings.normalization_gain_db
            &&& now.dsp_settings.spatial == runtime.dsp_settings.spatial
            &&& now.session == runtime.session
            &&& now.state == runtime.state
            &&& now.config == runtime.config
            &&& runtime.session matches Some(session) ==> after_commands == before_commands.push(
                Command::UpdateEffects { session: session.id },
            )
            &&& runtime.session is None ==> after_commands == before_commands
        }),
{
    bands_take_their_own_values(gains, before.runtime->0.dsp_settings.equalizer@.len(), i);
}

/// Setting the normalization sets the gain that was asked for, brought within 24 decibel;
/// the other settings stay, and the session in use is told to take the settings up.
pub proof fn the_normalization_takes_the_gain(
    gain_db: Double,
    before: Player,
    after: Player,
    before_commands: Seq<Command>,
    after_commands: Seq<Command>,
    result: Result<(), PlayerError>,
)
    requires
        before.runtime is Some,
        normalization_set(gain_db, before, after, before_commands, after_commands, result),
    ensures
        result is Ok,
        after.runtime is Some,
        ({
            let runtime = before.runtime->0;
            let now = after.runtime->0;
            let set = now.dsp_settings.normalization_gain_db;
            &&& gain_db.magnitude() <= 0x4038_0000_0000_0000 ==> set == gain_db.narrowed()
            &&& 0x4038_0000_0000_0000 < gain_db.magnitude() <= 0x7ff0_0000_0000_0000 ==> set.bits
                == if gain_db.negative() {
                0xc1c0_0000u32
            } else {
                0x41c0_0000u32
            }
            &&& now.dsp_settings.speed == runtime.dsp_settings.speed
            &&& now.dsp_settings.equalizer == runtime.dsp_settings.equalizer
            &&& now.dsp_settings.spatial == runtime.dsp_settings.spatial
            &&& now.session == runtime.session
            &&& now.state == runtime.state
            &&& now.config == runtime.config
            &&& runtime.session matches Some(session) ==> after_commands == before_commands.push(
                Command::UpdateEffects { session: session.id },
            )
            &&& runtime.session is None ==> after_commands == before_commands
        }),
{
    gains_in_range_are_kept(gain_db);
}

/// The network settings are taken up as they were asked for: a timeout from 1 to 300
/// seconds as it is and another one as the nearer of these, and a proxy without white space
/// at its ends, none where nothing else is in it. Nothing else of the player changes.
pub proof fn network_settings_are_taken_up(
    seconds: Double,
    proxy: Seq<char>,
    before: Player,
    timed: Player,
    after: Player,
    timeout_result: Result<(), PlayerError>,
    proxy_result: Result<(), PlayerError>,
)
    requires
        before.runtime is Some,
        network_timeout_set(seconds, before, timed, timeout_result),
        http_proxy_set(proxy, timed, after, proxy_result),
    ensures
        timeout_result is Ok,
        proxy_result is Ok,
        after.runtime is Some,
        ({
            let runtime = before.runtime->0;
            let now = after.runtime->0;
            &&& 0x3ff0_0000_0000_0000 <= seconds.bits <= 0x4072_c000_0000_0000
                ==> now.config.network_timeout_secs == seconds
            &&& seconds.bits < 0x3ff0_0000_0000_0000 ==> now.config.network_timeout_secs.bits
                == 0x3ff0_0000_0000_0000
            &&& 0x4072_c000_0000_0000 < seconds.bits <= 0x7ff0_0000_0000_0000
                ==> now.config.network_timeout_secs.bits == 0x4072_c000_0000_0000
            &&& match now.config.http_proxy {
                Some(set) => set@ == trimmed(proxy) && set@.len() > 0,
                None => trimmed(proxy).len() == 0,
            }
            &&& now.config.audio_device == runtime.config.audio_device
            &&& now.config.exclusive_output == runtime.config.exclusive_output
            &&& now.config.audio_buffer_secs == runtime.config.audio_buffer_secs
            &&& now.dsp_settings == runtime.dsp_settings
            &&& now.session == runtime.session
            &&& now.state == runtime.state
            &&& runtime.same_source(now)
            &&& now.loop_file == runtime.loop_file
        }),
{
    timeouts_in_range_are_kept(seconds);
}

} // verus!
