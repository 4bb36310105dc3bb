//! Moving the output of a session to another device.

use vstd::prelude::*;

use crate::events::PlayerError;
use crate::player::{PlaybackSession, Player, PlayerRuntime};
use crate::settings::PlayerConfig;
use crate::shared::{SharedAudio, SharedView};

verus! {

/// An output to be started in place of the one in use.
pub struct OutputRestart {
    pub session: u64,
    /// The output thread was attached; the host waits for it.
    pub output_thread: bool,
    pub audio_device: String,
    pub exclusive_output: bool,
}

impl PlayerRuntime {
    /// With or without the output thread attached.
    pub open spec fn with_output(self, output_thread: bool) -> PlayerRuntime {
        match self.session {
            Some(session) => PlayerRuntime {
                session: Some(PlaybackSession { output_thread, ..session }),
                ..self
            },
            None => self,
        }
    }
}

/// The session with the output thread attached or not.
fn with_output_thread(session: PlaybackSession, output_thread: bool) -> (result: PlaybackSession)
    ensures
        result == (PlaybackSession { output_thread, ..session }),
{
    PlaybackSession {
        id: session.id,
        sample_rate: session.sample_rate,
        output_thread,
        decode_thread: session.decode_thread,
        position_thread: session.position_thread,
    }
}

/// What becomes of a configuration whose device can be used, or cannot be.
pub open spec fn output_restart_planned(
    before: Player,
    config: PlayerConfig,
    validated: Result<(), String>,
    after: Player,
    result: Result<Option<OutputRestart>, PlayerError>,
) -> bool {
    match validated {
        Err(reason) => {
            &&& result == Err::<Option<OutputRestart>, PlayerError>(
                PlayerError::Outside(reason),
            )
            &&& after == before
        },
        Ok(_) => match before.runtime {
            None => {
                &&& result == Err::<Option<OutputRestart>, PlayerError>(
                    PlayerError::NotInitialized,
                )
                &&& after == before
            },
            Some(runtime) => {
                &&& after.runtime == Some(
                    PlayerRuntime { config, ..runtime.with_output(false) },
                )
                &&& match runtime.session {
                    None => result matches Ok(None),
                    Some(session) => result == Ok::<Option<OutputRestart>, PlayerError>(
                        Some(
                            OutputRestart {
                                session: session.id,
                                output_thread: session.output_thread,
                                audio_device: config.audio_device,
                                exclusive_output: config.exclusive_output,
                            },
                        ),
                    ),
                }
            },
        },
    }
}

/// Takes up a configuration, where its device can be used, and says which output to
/// stop and which to start: none without a session.
pub fn restart_output_for_config(
    player: &mut Player,
    config: PlayerConfig,
    validated: Result<(), String>,
) -> (result: Result<Option<OutputRestart>, PlayerError>)
    ensures
        old(player).wf() ==> final(player).wf(),
        output_restart_planned(*old(player), config, validated, *final(player), result),
{
    match validated {
        Err(reason) => {
            return Err(PlayerError::Outside(reason));
        },
        Ok(_) => {},
    }
    match &mut player.runtime {
        None => Err(PlayerError::NotInitialized),
        Some(runtime) => {
            let audio_device: String = config.audio_device.clone();
            let exclusive_output: bool = config.exclusive_output;
            runtime.config = config;
            match runtime.session {
                None => Ok(None),
                Some(session) => {
                    runtime.session = Some(with_output_thread(session, false));
                    Ok(
                        Some(
                            OutputRestart {
                                session: session.id,
                                output_thread: session.output_thread,
                                audio_device,
                                exclusive_output,
                            },
                        ),
                    )
                },
            }
        },
    }
}

/// What becomes of an output that was started for a session.
pub open spec fn output_attached(
    session: u64,
    before: Player,
    after: Player,
    result: Result<bool, PlayerError>,
) -> bool {
    match before.runtime {
        None => {
            &&& result == Err::<bool, PlayerError>(PlayerError::NotInitialized)
            &&& after == before
        },
        Some(runtime) => {
            &&& result == Ok::<bool, PlayerError>(runtime.is_current(session))
            &&& after.runtime == Some(
                if runtime.is_current(session) {
                    runtime.with_output(true)
                } else {
                    runtime
                },
            )
        },
    }
}

/// Attaches an output that was started for a session, where it is still the current
/// one. Where the result is false, the host stops that output again.
pub fn attach_output(player: &mut Player, session: u64) -> (result: Result<bool, PlayerError>)
    ensures
        old(player).wf() ==> final(player).wf(),
        output_attached(session, *old(player), *final(player), result),
{
    match &mut player.runtime {
        None => Err(PlayerError::NotInitialized),
        Some(runtime) => {
            match runtime.session {
                Some(current) => {
                    if current.id != session {
                        return Ok(false);
                    }
                    runtime.session = Some(with_output_thread(current, true));
                    Ok(true)
                },
                None => Ok(false),
            }
        },
    }
}

/// What the work of moving the output came to.
#[derive(Clone, Copy, Debug, PartialEq, Eq, Structural)]
pub enum OutputEvent {
    /// It is known which output to start.
    Planned,
    /// The old output has ended, or there was none.
    OldEnded,
    /// The new output was started.
    NewStarted,
    /// The new output has ended again.
    NewEnded,
}

/// What is to be done to move the output.
#[derive(Clone, Copy, Debug, PartialEq, Eq, Structural)]
pub enum OutputAction {
    /// Wait for the old output to end, if there is one.
    AwaitOld,
    /// Start the new output on the device that is asked for.
    Start,
    /// Keep the new output with the session; there is nothing more to do.
    Keep,
    /// Wait for the new output to end.
    AwaitNew,
    /// There is nothing more to do.
    Finish,
}

impl OutputRestart {
    /// What to do next. Where the player is no longer initialized, a new output cannot be
    /// attached.
    pub open spec fn decided(self, event: OutputEvent, player: Player) -> Result<
        OutputAction,
        PlayerError,
    > {
        match event {
            OutputEvent::Planned => Ok(OutputAction::AwaitOld),
            OutputEvent::OldEnded => Ok(OutputAction::Start),
            OutputEvent::NewStarted => match player.runtime {
                None => Err(PlayerError::NotInitialized),
                Some(runtime) => Ok(
                    if runtime.is_current(self.session) {
                        OutputAction::Keep
                    } else {
                        OutputAction::AwaitNew
                    },
                ),
            },
            OutputEvent::NewEnded => Ok(OutputAction::Finish),
        }
    }

    /// The shared state of the session afterwards: the old output is asked to stop, a new
    /// one may start once it has ended, and one that could not be attached is asked to
    /// stop again.
    pub open spec fn shared_after(
        self,
        event: OutputEvent,
        player: Player,
        shared: SharedView,
    ) -> SharedView {
        match event {
            OutputEvent::Planned => shared.output_stop_requested(),
            OutputEvent::OldEnded => shared.output_restart_prepared(),
            OutputEvent::NewStarted => if self.decided(event, player)
                == Ok::<OutputAction, PlayerError>(OutputAction::AwaitNew) {
                shared.output_stop_requested()
            } else {
                shared
            },
            OutputEvent::NewEnded => shared,
        }
    }

    /// The player afterwards: a new output that was started is attached to the session,
    /// where it is still the current one.
    pub open spec fn player_after(self, event: OutputEvent, player: Player) -> Player {
        match player.runtime {
            Some(runtime) if event is NewStarted && runtime.is_current(self.session) => Player {
                runtime: Some(runtime.with_output(true)),
            },
            _ => player,
        }
    }

    /// Takes what the work of moving the output came to, and says what to do next.
    pub fn advance(
        &self,
        event: OutputEvent,
        player: &mut Player,
        shared: &mut SharedAudio,
    ) -> (result: Result<OutputAction, PlayerError>)
        ensures
            result == self.decided(event, *old(player)),
            *final(player) == self.player_after(event, *old(player)),
            final(shared)@ == self.shared_after(event, *old(player), old(shared)@),
            old(player).wf() ==> final(player).wf(),
    {
        match event {
            OutputEvent::Planned => {
                shared.request_output_stop();
                Ok(OutputAction::AwaitOld)
            },
            OutputEvent::OldEnded => {
                shared.prepare_output_restart();
                Ok(OutputAction::Start)
            },
            OutputEvent::NewStarted => match attach_output(player, self.session) {
                Err(error) => Err(error),
                Ok(attached) => if attached {
                    Ok(OutputAction::Keep)
                } else {
                    shared.request_output_stop();
                    Ok(OutputAction::AwaitNew)
                },
            },
            OutputEvent::NewEnded => Ok(OutputAction::Finish),
        }
    }
}

/// A request for the output devices.
pub struct GetAudioDevicesTask;

/// A request for the output devices.
pub fn get_audio_devices() -> (result: GetAudioDevicesTask)
    ensures
        result == GetAudioDevicesTask,
{
    GetAudioDevicesTask
}

/// A request to use an output device.
pub struct SetAudioDeviceTask {
    pub device_name: String,
}

/// A request to use an output device.
pub fn set_audio_device(device_name: String) -> (result: SetAudioDeviceTask)
    ensures
        result.device_name == device_name,
{
    SetAudioDeviceTask { device_name }
}

impl SetAudioDeviceTask {
    /// The configuration to take up: the one in use, with that device.
    pub fn compute(&self, player: &Player) -> (result: Result<PlayerConfig, PlayerError>)
        ensures
            result == match player.runtime {
                None => Err::<PlayerConfig, PlayerError>(PlayerError::NotInitialized),
                Some(runtime) => Ok(
                    PlayerConfig { audio_device: self.device_name, ..runtime.config },
                ),
            },
    {
        match &player.runtime {
            None => Err(PlayerError::NotInitialized),
            Some(runtime) => {
                let mut config: PlayerConfig = runtime.config.copy();
                config.audio_device = self.device_name.clone();
                Ok(config)
            },
        }
    }
}

/// A request to use the output device alone, or not.
pub struct SetExclusiveTask {
    pub exclusive: bool,
}

/// A request to use the output device alone, or not.
pub fn set_exclusive_output(exclusive: bool) -> (result: SetExclusiveTask)
    ensures
        result.exclusive == exclusive,
{
    SetExclusiveTask { exclusive }
}

impl SetExclusiveTask {
    /// The configuration to take up: the one in use, with that choice.
    pub fn compute(&self, player: &Player) -> (result: Result<PlayerConfig, PlayerError>)
        ensures
            result == match player.runtime {
                None => Err::<PlayerConfig, PlayerError>(PlayerError::NotInitialized),
                Some(runtime) => Ok(
                    PlayerConfig { exclusive_output: self.exclusive, ..runtime.config },
                ),
            },
    {
        match &player.runtime {
            None => Err(PlayerError::NotInitialized),
            Some(runtime) => {
                let mut config: PlayerConfig = runtime.config.copy();
                config.exclusive_output = self.exclusive;
                Ok(config)
            },
        }
    }
}

/// Restarting the output changes the configuration and nothing else: once the new
/// output is attached, the session is as it was.
pub proof fn an_output_restart_keeps_the_session(runtime: PlayerRuntime)
    requires
        runtime.session matches Some(session) && session.output_thread,
    ensures
        runtime.with_output(false).with_output(true) == runtime,
        runtime.with_output(false).is_current(runtime.session->0.id),
{
}

/// Moving the output, from its plan to its end: the old output is to stop before the new
/// one is started; the new one may run, unless everything is to stop; and in the end
/// either the session has it, or it is to stop as well.
pub proof fn an_output_is_moved_or_stopped(
    restart: OutputRestart,
    player: Player,
    shared: SharedView,
)
    requires
        player.runtime is Some,
    ensures
        ({
            let stopping = restart.shared_after(OutputEvent::Planned, player, shared);
            let ready = restart.shared_after(OutputEvent::OldEnded, player, stopping);
            let done = restart.shared_after(OutputEvent::NewStarted, player, ready);
            let current = (player.runtime->0).is_current(restart.session);
            &&& stopping.stopping_output()
            &&& ready.stopping_output() == shared.stop
            &&& restart.decided(OutputEvent::NewStarted, player) == Ok::<OutputAction, PlayerError>(
                if current {
                    OutputAction::Keep
                } else {
                    OutputAction::AwaitNew
                },
            )
            &&& current ==> done.stopping_output() == shared.stop
            &&& current ==> restart.player_after(OutputEvent::NewStarted, player).runtime == Some(
                (player.runtime->0).with_output(true),
            )
            &&& !current ==> done.stopping_output() && restart.player_after(
                OutputEvent::NewStarted,
                player,
            ) == player
            &&& done.queue == shared.queue && done.played == shared.played && done.paused
                == shared.paused
        }),
{
}

/// What is done to move an output, step by step: the old one is waited for, then the new
/// one is started; it is kept where the session is still the current one, else waited for
/// as well; and then there is nothing more to do. A player that is no longer there is an
/// error.
pub proof fn an_output_is_moved_step_by_step(restart: OutputRestart, player: Player)
    ensures
        restart.decided(OutputEvent::Planned, player) == Ok::<OutputAction, PlayerError>(
            OutputAction::AwaitOld,
        ),
        restart.decided(OutputEvent::OldEnded, player) == Ok::<OutputAction, PlayerError>(
            OutputAction::Start,
        ),
        restart.decided(OutputEvent::NewEnded, player) == Ok::<OutputAction, PlayerError>(
            OutputAction::Finish,
        ),
        match player.runtime {
            None => restart.decided(OutputEvent::NewStarted, player) == Err::<
                OutputAction,
                PlayerError,
            >(PlayerError::NotInitialized),
            Some(runtime) => restart.decided(OutputEvent::NewStarted, player) == Ok::<
                OutputAction,
                PlayerError,
            >(
                match runtime.session {
                    Some(session) if session.id == restart.session => OutputAction::Keep,
                    _ => OutputAction::AwaitNew,
                },
            ),
        },
        restart.player_after(OutputEvent::Planned, player) == player,
        restart.player_after(OutputEvent::OldEnded, player) == player,
        restart.player_after(OutputEvent::NewEnded, player) == player,
        player.runtime is None ==> restart.player_after(OutputEvent::NewStarted, player) == player,
{
}

/// Moving the output touches the output alone: the decoder, what is queued, the position
/// and the settings of the session stay as they are.
pub proof fn moving_the_output_leaves_the_rest_alone(
    restart: OutputRestart,
    event: OutputEvent,
    player: Player,
    shared: SharedView,
)
    ensures
        ({
            let after = restart.shared_after(event, player, shared);
            &&& shared.same_settings(after)
            &&& shared.same_progress(after)
            &&& after.stop == shared.stop
            &&& after.decode_stop == shared.decode_stop
            &&& after.interrupt == shared.interrupt
            &&& event is NewEnded ==> after == shared
            &&& event is NewStarted && player.runtime is None ==> after == shared
        }),
{
}

/// Attaching or detaching the output thread changes nothing else of the player.
pub proof fn only_the_output_thread_is_moved(runtime: PlayerRuntime, output_thread: bool)
    ensures
        runtime.same_source(runtime.with_output(output_thread)),
        runtime.same_settings(runtime.with_output(output_thread)),
        runtime.with_output(output_thread).state == runtime.state,
        match runtime.session {
            Some(session) => {
                &&& runtime.with_output(output_thread).session matches Some(now)
                &&& now.output_thread == output_thread
                &&& now.id == session.id
                &&& now.sample_rate == session.sample_rate
                &&& now.decode_thread == session.decode_thread
                &&& now.position_thread == session.position_thread
            },
            None => runtime.with_output(output_thread).session is None,
        },
{
}

/// A configuration whose device can be used is taken up, and the output of the session in
/// use is to be started anew on that device, shared or not as it says; nothing else of the
/// player changes. One whose device cannot be used changes nothing.
pub proof fn a_usable_device_is_taken_up(
    before: Player,
    config: PlayerConfig,
    validated: Result<(), String>,
    after: Player,
    result: Result<Option<OutputRestart>, PlayerError>,
)
    requires
        before.runtime is Some,
        output_restart_planned(before, config, validated, after, result),
    ensures
        validated matches Err(reason) ==> after == before && result == Err::<
            Option<OutputRestart>,
            PlayerError,
        >(PlayerError::Outside(reason)),
        validated is Ok ==> {
            let runtime = before.runtime->0;
            &&& result is Ok
            &&& after.runtime matches Some(now)
            &&& now.config == config
            &&& now.dsp_settings == runtime.dsp_settings
            &&& now.state == runtime.state
            &&& runtime.same_source(now)
            &&& now.loop_file == runtime.loop_file
            &&& result->Ok_0 is Some == runtime.session is Some
            &&& runtime.session matches Some(session) ==> {
                let restart = result->Ok_0->0;
                &&& restart.session == session.id
                &&& restart.output_thread == session.output_thread
                &&& restart.audio_device == config.audio_device
                &&& restart.exclusive_output == config.exclusive_output
                &&& now.session matches Some(current) && current.id == session.id
                    && !current.output_thread && current.decode_thread == session.decode_thread
                    && current.position_thread == session.position_thread
                    && current.sample_rate == session.sample_rate
            }
        },
{
}

/// An output is attached to the session that it was started for and to no other.
pub proof fn an_output_is_attached_to_its_own_session(
    session: u64,
    before: Player,
    after: Player,
    result: Result<bool, PlayerError>,
)
    requires
        before.runtime is Some,
        output_attached(session, before, after, result),
    ensures
        after.runtime is Some,
        match before.runtime->0.session {
            Some(current) if current.id == session => {
                &&& result == Ok::<bool, PlayerError>(true)
                &&& after.runtime->0.session matches Some(now) && now.output_thread && now.id
                    == session && now.decode_thread == current.decode_thread
                    && now.position_thread == current.position_thread && now.sample_rate
                    == current.sample_rate
                &&& after.runtime->0.state == before.runtime->0.state
                &&& (before.runtime->0).same_source(after.runtime->0)
                &&& (before.runtime->0).same_settings(after.runtime->0)
            },
            _ => result == Ok::<bool, PlayerError>(false) && after.runtime == before.runtime,
        },
{
}

} // verus!
