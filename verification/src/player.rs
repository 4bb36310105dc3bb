//! The player: one source at a time, and what is to be done about it.
//!
//! A function of the player changes its state and leaves [`Command`]s for the
//! host, which carries them out in order. The threads and the shared state of a
//! source belong to the host; the player knows them by the number of the session.

use vstd::arithmetic::power2::pow2;
use vstd::prelude::*;

use crate::decoder::{
    audio_stream_ordinal_from_track_id, decode_error, emit_decode_error, list_tracks_for_url,
};
use crate::events::{Notice, PlayerError, PlayerEvent, PlayerState, TrackInfo};
use crate::float_bits::{zero, Double, Single};
use crate::float_ops::{truncation_rounds_down, units};
use crate::settings::{clone_text, DspSettings, PlayerConfig};
use crate::shared::{samples_until, PlaybackSignal, SharedAudio, SharedView};
use crate::tempo::normalized;

verus! {

/// A source that is open, and its threads.
#[derive(Clone, Copy, Debug, PartialEq, Eq, Structural)]
pub struct PlaybackSession {
    /// The number of the session. No two sessions share one.
    pub id: u64,
    pub sample_rate: u32,
    /// The output thread is attached.
    pub output_thread: bool,
    /// The decoding thread is attached.
    pub decode_thread: bool,
    /// The signal thread is attached.
    pub position_thread: bool,
}

/// A thread of a session.
#[derive(Clone, Copy, Debug, PartialEq, Eq, Structural)]
pub enum Worker {
    Decode,
    Output,
    Position,
}

impl PlaybackSession {
    /// The threads that are attached, in the order in which they are waited for.
    pub open spec fn workers(self) -> Seq<Worker> {
        (if self.decode_thread {
            seq![Worker::Decode]
        } else {
            Seq::empty()
        }) + (if self.output_thread {
            seq![Worker::Output]
        } else {
            Seq::empty()
        }) + (if self.position_thread {
            seq![Worker::Position]
        } else {
            Seq::empty()
        })
    }

    /// Asks everything to stop, and says which threads to wait for, in order.
    pub fn stop_blocking(self, shared: &mut SharedAudio) -> (result: Vec<Worker>)
        ensures
            final(shared)@ == old(shared)@.stop_requested(),
            result@ == self.workers(),
    {
        shared.request_stop();
        let mut workers: Vec<Worker> = Vec::new();
        if self.decode_thread {
            workers.push(Worker::Decode);
        }
        if self.output_thread {
            workers.push(Worker::Output);
        }
        if self.position_thread {
            workers.push(Worker::Position);
        }
        assert(workers@ =~= self.workers());
        workers
    }
}

/// What the host is to do.
#[derive(Debug)]
pub enum Command {
    Emit(PlayerEvent),
    /// Stop the session in the background and wait for its threads.
    StopSession(PlaybackSession),
    SetPaused { session: u64, paused: bool },
    SetVolume { session: u64, volume: Single },
    SetSpeed { session: u64, speed: Single },
    /// Bring the effects of the session up to the settings of the player.
    UpdateEffects { session: u64 },
    SetSpatialMix { session: u64, mix: Single },
    RequestDecodeStop { session: u64 },
    /// Reset the shared state, and the effects to these settings, to go on at this
    /// position in seconds, and start a decoding thread with the decoder at hand.
    ResumeDecoding { session: u64, position: Double, settings: DspSettings },
    /// Raise or lower the flag that ends a fade.
    SetFadeStop(bool),
    /// Replace the spectrum analyzer by one with the configuration at hand.
    RebuildSpectrum,
}

impl Command {
    /// What the command makes of the shared state of a session. One for another session,
    /// and one that is about something else, leaves it as it is.
    pub open spec fn effect(self, session: u64, shared: SharedView) -> SharedView {
        match self {
            Command::SetPaused { session: id, paused } if id == session => SharedView {
                paused,
                ..shared
            },
            Command::SetVolume { session: id, volume } if id == session => SharedView {
                volume,
                ..shared
            },
            Command::SetSpeed { session: id, speed } if id == session => SharedView {
                speed,
                ..shared
            },
            Command::RequestDecodeStop { session: id } if id == session =>
                shared.decode_stop_requested(),
            Command::ResumeDecoding { session: id, position, .. } if id == session => SharedView {
                interrupt: Some(false),
                ..shared.reset_to(samples_until(position, shared.sample_rate))
            },
            _ => shared,
        }
    }
}

/// Carries out a command on the shared state of a session, as far as it concerns it.
pub fn carry_out(command: &Command, session: u64, shared: &mut SharedAudio)
    ensures
        final(shared)@ == command.effect(session, old(shared)@),
{
    match command {
        Command::SetPaused { session: id, paused } => {
            if *id == session {
                shared.set_paused(*paused);
            }
        },
        Command::SetVolume { session: id, volume } => {
            if *id == session {
                shared.set_volume(*volume);
            }
        },
        Command::SetSpeed { session: id, speed } => {
            if *id == session {
                shared.set_speed(*speed);
            }
        },
        Command::RequestDecodeStop { session: id } => {
            if *id == session {
                shared.request_decode_stop();
            }
        },
        Command::ResumeDecoding { session: id, position, .. } => {
            if *id == session {
                shared.reset_for_decode_resume(*position);
                shared.bind_interrupt();
            }
        },
        _ => {},
    }
}

/// The shared state of a session after commands, one after the other.
pub open spec fn effects(commands: Seq<Command>, session: u64, shared: SharedView) -> SharedView
    decreases commands.len(),
{
    if commands.len() == 0 {
        shared
    } else {
        effects(commands.drop_first(), session, commands.first().effect(session, shared))
    }
}

/// A player that was initialized.
pub struct PlayerRuntime {
    pub config: PlayerConfig,
    pub session: Option<PlaybackSession>,
    pub state: PlayerState,
    pub current_url: Option<String>,
    pub current_audio_stream_ordinal: Option<usize>,
    pub current_seq: u64,
    pub dsp_settings: DspSettings,
    pub loop_file: bool,
    pub audio_filter: String,
    pub spectrum_signal_logged: bool,
    pub spatial_request_seq: u64,
    pub spatial_mix: Single,
    /// The share of the processed signal where a request names none.
    pub default_spatial_mix: Single,
}

/// The player, initialized or not.
pub struct Player {
    pub runtime: Option<PlayerRuntime>,
}

/// A source to be opened.
pub struct SourceRequest {
    pub url: String,
    pub audio_stream_ordinal: Option<usize>,
    pub seq: u64,
    /// Where to start, in seconds.
    pub start_position: Double,
    pub autostart: bool,
    pub config: PlayerConfig,
    pub dsp_settings: DspSettings,
}

/// A source that was opened.
pub struct PreparedSource {
    pub session: PlaybackSession,
    pub url: String,
    pub audio_stream_ordinal: Option<usize>,
    pub seq: u64,
    pub duration: Double,
    pub start_position: Double,
    pub autostart: bool,
}

impl PlayerRuntime {
    /// The player either plays or is paused.
    pub open spec fn wf(self) -> bool {
        &&& self.state.playing == !self.state.paused
        &&& normalized(self.dsp_settings.speed)
    }

    /// A player as it is initialized: paused, without a source.
    pub open spec fn is_fresh(
        self,
        config: PlayerConfig,
        settings: DspSettings,
        default_spatial_mix: Single,
    ) -> bool {
        &&& self.config == config
        &&& self.session is None
        &&& self.state == (PlayerState {
            playing: false,
            paused: true,
            duration: Double { bits: 0 },
            time_pos: Double { bits: 0 },
        })
        &&& self.current_url is None
        &&& self.current_audio_stream_ordinal is None
        &&& self.current_seq == 0
        &&& self.dsp_settings == settings
        &&& !self.loop_file
        &&& self.audio_filter@ == Seq::<char>::empty()
        &&& !self.spectrum_signal_logged
        &&& self.spatial_request_seq == 0
        &&& self.spatial_mix == default_spatial_mix
        &&& self.default_spatial_mix == default_spatial_mix
    }

    /// The other player has the same source in use.
    pub open spec fn same_source(self, other: PlayerRuntime) -> bool {
        &&& other.current_url == self.current_url
        &&& other.current_audio_stream_ordinal == self.current_audio_stream_ordinal
        &&& other.current_seq == self.current_seq
    }

    /// The other player has the same configuration and settings, the same loop and filter
    /// and the same request for an impulse response.
    pub open spec fn same_settings(self, other: PlayerRuntime) -> bool {
        &&& other.config == self.config
        &&& other.dsp_settings == self.dsp_settings
        &&& other.loop_file == self.loop_file
        &&& other.audio_filter == self.audio_filter
        &&& other.spectrum_signal_logged == self.spectrum_signal_logged
        &&& other.spatial_request_seq == self.spatial_request_seq
        &&& other.spatial_mix == self.spatial_mix
        &&& other.default_spatial_mix == self.default_spatial_mix
    }

    /// The session of that number is the current one.
    pub open spec fn is_current(self, session: u64) -> bool {
        self.session matches Some(current) && current.id == session
    }

    /// Without a session, and paused.
    pub open spec fn stopped(self) -> PlayerRuntime {
        PlayerRuntime {
            session: None,
            state: PlayerState { playing: false, paused: true, ..self.state },
            ..self
        }
    }

    /// At that position.
    pub open spec fn at(self, position: Double) -> PlayerRuntime {
        PlayerRuntime { state: PlayerState { time_pos: position, ..self.state }, ..self }
    }

    /// Playing.
    pub open spec fn resumed(self) -> PlayerRuntime {
        PlayerRuntime {
            state: PlayerState { playing: true, paused: false, ..self.state },
            ..self
        }
    }

    /// Paused.
    pub open spec fn held(self) -> PlayerRuntime {
        PlayerRuntime {
            state: PlayerState { playing: false, paused: true, ..self.state },
            ..self
        }
    }

    /// What stopping the session takes.
    pub open spec fn stop_commands(self) -> Seq<Command> {
        match self.session {
            Some(session) => seq![Command::StopSession(session)],
            None => Seq::empty(),
        }
    }

    /// What pausing or resuming the session takes.
    pub open spec fn pause_commands(self, paused: bool) -> Seq<Command> {
        match self.session {
            Some(session) => seq![Command::SetPaused { session: session.id, paused }],
            None => Seq::empty(),
        }
    }

    /// What tells the host the state.
    pub open spec fn state_commands(self) -> Seq<Command> {
        seq![Command::Emit(PlayerEvent::StateChange(self.state))]
    }

    /// With a source that was opened.
    pub open spec fn loaded(self, prepared: PreparedSource) -> PlayerRuntime {
        PlayerRuntime {
            session: Some(prepared.session),
            current_url: Some(prepared.url),
            current_audio_stream_ordinal: prepared.audio_stream_ordinal,
            current_seq: prepared.seq,
            state: PlayerState {
                duration: prepared.duration,
                time_pos: prepared.start_position,
                playing: prepared.autostart,
                paused: !prepared.autostart,
            },
            ..self
        }
    }

    /// What tells the host of a source that was opened.
    pub open spec fn loaded_commands(self, prepared: PreparedSource) -> Seq<Command> {
        seq![
            Command::Emit(PlayerEvent::DurationChange(prepared.duration)),
            Command::Emit(PlayerEvent::FileLoaded { url: prepared.url, seq: prepared.seq }),
            Command::Emit(PlayerEvent::StateChange(self.loaded(prepared).state)),
        ]
    }

    /// The source in use loops, and this is its session.
    pub open spec fn restarts(self, session: u64) -> bool {
        self.loop_file && self.is_current(session) && self.current_url is Some
    }

    /// Stops the session, if there is one.
    pub fn stop_session(&mut self, commands: &mut Vec<Command>)
        ensures
            *final(self) == old(self).stopped(),
            final(commands)@ == old(commands)@ + old(self).stop_commands(),
            final(self).state.playing == !final(self).state.paused,
    {
        let ghost before = commands@;
        match self.session {
            Some(session) => {
                commands.push(Command::StopSession(session));
            },
            None => {},
        }
        assert(commands@ =~= before + self.stop_commands());
        self.session = None;
        self.state.playing = false;
        self.state.paused = true;
    }
}

impl Player {
    pub open spec fn wf(self) -> bool {
        self.runtime matches Some(runtime) ==> runtime.wf()
    }

    /// Where the player is not initialized, it stays as it is, and nothing is left to
    /// do.
    pub open spec fn refuses(
        self,
        after: Player,
        before_commands: Seq<Command>,
        after_commands: Seq<Command>,
    ) -> bool {
        self.runtime is None ==> after == self && after_commands == before_commands
    }

    /// A player that is not initialized.
    pub fn new() -> (result: Player)
        ensures
            result.runtime is None,
            result.wf(),
    {
        Player { runtime: None }
    }

    /// The number of the current session.
    pub fn session_id(&self) -> (result: Option<u64>)
        ensures
            result == match self.runtime {
                Some(runtime) => match runtime.session {
                    Some(session) => Some(session.id),
                    None => None,
                },
                None => None,
            },
    {
        match &self.runtime {
            Some(runtime) => match runtime.session {
                Some(session) => Some(session.id),
                None => None,
            },
            None => None,
        }
    }
}

/// Takes the player down: the session is stopped.
pub fn destroy(player: &mut Player, commands: &mut Vec<Command>)
    ensures
        final(player).runtime is None,
        final(commands)@ == old(commands)@ + match old(player).runtime {
            Some(runtime) => runtime.stop_commands(),
            None => Seq::empty(),
        },
{
    let ghost before = commands@;
    match player.runtime.take() {
        Some(mut runtime) => {
            runtime.stop_session(commands);
        },
        None => {
            assert(commands@ =~= before + Seq::<Command>::empty());
        },
    }
}

/// Initializes the player anew: what was there is taken down, and the player is
/// paused, without a source.
pub fn initialize(
    player: &mut Player,
    config: PlayerConfig,
    settings: DspSettings,
    default_spatial_mix: Single,
    commands: &mut Vec<Command>,
)
    ensures
        final(player).runtime matches Some(runtime) && runtime.is_fresh(
            config,
            settings,
            default_spatial_mix,
        ),
        normalized(settings.speed) ==> final(player).wf(),
        final(commands)@ == old(commands)@ + match old(player).runtime {
            Some(runtime) => runtime.stop_commands(),
            None => Seq::empty(),
        },
{
    destroy(player, commands);
    player.runtime = Some(
        PlayerRuntime {
            config,
            session: None,
            state: PlayerState {
                playing: false,
                paused: true,
                duration: zero(),
                time_pos: zero(),
            },
            current_url: None,
            current_audio_stream_ordinal: None,
            current_seq: 0,
            dsp_settings: settings,
            loop_file: false,
            audio_filter: String::new(),
            spectrum_signal_logged: false,
            spatial_request_seq: 0,
            spatial_mix: default_spatial_mix,
            default_spatial_mix,
        },
    );
}

impl SourceRequest {
    /// The shared state for the source.
    pub open spec fn session_state(self, sample_rate: u32) -> SharedView {
        SharedView {
            paused: !self.autostart,
            interrupt: Some(false),
            signals: Some(Seq::empty()),
            ..SharedView::fresh(
                sample_rate,
                self.config.audio_buffer_secs,
                self.dsp_settings.speed,
            )
        }
    }

    /// The source, opened with that length in seconds as that session.
    pub open spec fn opened(self, duration: Double, id: u64, sample_rate: u32) -> PreparedSource {
        PreparedSource {
            session: PlaybackSession {
                id,
                sample_rate,
                output_thread: true,
                decode_thread: true,
                position_thread: true,
            },
            url: self.url,
            audio_stream_ordinal: self.audio_stream_ordinal,
            seq: self.seq,
            duration,
            start_position: self.start_position.positive_part(),
            autostart: self.autostart,
        }
    }

    /// Where to seek before the source is played: nowhere at its start.
    pub fn seek_position(&self) -> (result: Option<Double>)
        ensures
            result == if zero().less(self.start_position) {
                Some(self.start_position)
            } else {
                None
            },
    {
        if self.start_position.is_positive() {
            Some(self.start_position)
        } else {
            None
        }
    }

    /// The shared state for the source: with a queue as long as configured, at full
    /// volume, at the requested speed, playing where it is to start by itself, with an
    /// interrupt flag and a signal thread bound.
    pub fn shared_audio(&self, sample_rate: u32) -> (result: SharedAudio)
        ensures
            result@.wf(),
            result@ == self.session_state(sample_rate),
            result@ == (SharedView {
                paused: !self.autostart,
                interrupt: Some(false),
                signals: Some(Seq::empty()),
                ..SharedView::fresh(
                    sample_rate,
                    self.config.audio_buffer_secs,
                    self.dsp_settings.speed,
                )
            }),
    {
        let mut shared: SharedAudio = SharedAudio::new(
            sample_rate,
            self.config.audio_buffer_secs,
            self.dsp_settings.speed,
        );
        shared.set_paused(!self.autostart);
        shared.bind_interrupt();
        shared.bind_signal_sender();
        shared
    }

    /// The source, opened with that length in seconds as that session, with all its
    /// threads.
    pub fn prepare_source(self, duration: Double, id: u64, sample_rate: u32) -> (result:
        PreparedSource)
        ensures
            result == self.opened(duration, id, sample_rate),
            result == (PreparedSource {
                session: PlaybackSession {
                    id,
                    sample_rate,
                    output_thread: true,
                    decode_thread: true,
                    position_thread: true,
                },
                url: self.url,
                audio_stream_ordinal: self.audio_stream_ordinal,
                seq: self.seq,
                duration,
                start_position: self.start_position.positive_part(),
                autostart: self.autostart,
            }),
    {
        PreparedSource {
            session: PlaybackSession {
                id,
                sample_rate,
                output_thread: true,
                decode_thread: true,
                position_thread: true,
            },
            url: self.url,
            audio_stream_ordinal: self.audio_stream_ordinal,
            seq: self.seq,
            duration,
            start_position: self.start_position.max_zero(),
            autostart: self.autostart,
        }
    }
}

/// Takes up a source that was opened, and tells the host.
pub fn apply_prepared_source(
    runtime: &mut PlayerRuntime,
    prepared: PreparedSource,
    commands: &mut Vec<Command>,
)
    ensures
        *final(runtime) == old(runtime).loaded(prepared),
        final(commands)@ == old(commands)@ + old(runtime).loaded_commands(prepared),
        old(runtime).wf() ==> final(runtime).wf(),
{
    let ghost before = commands@;
    let ghost loaded = runtime.loaded(prepared);
    runtime.session = Some(prepared.session);
    runtime.current_url = Some(prepared.url.clone());
    runtime.current_audio_stream_ordinal = prepared.audio_stream_ordinal;
    runtime.current_seq = prepared.seq;
    runtime.state.duration = prepared.duration;
    runtime.state.time_pos = prepared.start_position;
    runtime.state.playing = prepared.autostart;
    runtime.state.paused = !prepared.autostart;
    assert(*runtime == loaded);
    commands.push(Command::Emit(PlayerEvent::DurationChange(prepared.duration)));
    commands.push(
        Command::Emit(PlayerEvent::FileLoaded { url: prepared.url, seq: prepared.seq }),
    );
    commands.push(Command::Emit(PlayerEvent::StateChange(runtime.state)));
    assert(commands@ =~= before + old(runtime).loaded_commands(prepared));
}

/// What becomes of a source that was opened, or of why it could not be.
pub open spec fn source_replaced(
    prepared: Result<PreparedSource, String>,
    before: Player,
    after: Player,
    before_commands: Seq<Command>,
    after_commands: Seq<Command>,
    result: Result<(), PlayerError>,
) -> bool {
    match prepared {
        Err(reason) => {
            &&& result == Err::<(), PlayerError>(PlayerError::Outside(reason))
            &&& after == before
            &&& after_commands == before_commands
        },
        Ok(source) => match before.runtime {
            None => {
                &&& result == Err::<(), PlayerError>(PlayerError::NotInitialized)
                &&& after == before
                &&& after_commands == before_commands
            },
            Some(runtime) => {
                &&& result is Ok
                &&& after.runtime == Some(runtime.loaded(source))
                &&& after_commands == before_commands + runtime.loaded_commands(source)
            },
        },
    }
}

/// Takes up a source where it could be opened, and fails as the opening did.
pub fn replace_source_async(
    player: &mut Player,
    prepared: Result<PreparedSource, String>,
    commands: &mut Vec<Command>,
) -> (result: Result<(), PlayerError>)
    ensures
        old(player).wf() ==> final(player).wf(),
        source_replaced(
            prepared,
            *old(player),
            *final(player),
            old(commands)@,
            final(commands)@,
            result,
        ),
{
    match prepared {
        Err(reason) => Err(PlayerError::Outside(reason)),
        Ok(source) => match &mut player.runtime {
            None => Err(PlayerError::NotInitialized),
            Some(runtime) => {
                apply_prepared_source(runtime, source, commands);
                Ok(())
            },
        },
    }
}

/// A request for the source in use, or for another one.
pub open spec fn request_for(
    runtime: PlayerRuntime,
    url: Option<String>,
    audio_stream_ordinal: Option<usize>,
    seq: Option<u64>,
    start_position: Double,
    autostart: bool,
    request: SourceRequest,
) -> bool {
    &&& Some(request.url) == if url is Some {
        url
    } else {
        runtime.current_url
    }
    &&& request.audio_stream_ordinal == if audio_stream_ordinal is Some {
        audio_stream_ordinal
    } else {
        runtime.current_audio_stream_ordinal
    }
    &&& request.seq == match seq {
        Some(seq) => seq,
        None => runtime.current_seq,
    }
    &&& request.start_position == start_position
    &&& request.autostart == autostart
    &&& request.config == runtime.config
    &&& request.dsp_settings.same(runtime.dsp_settings)
}

/// Stops the session and makes a request for a source. What the caller leaves out
/// is taken from the source in use; without one there is nothing to open.
pub fn take_current_for_replace(
    runtime: &mut PlayerRuntime,
    url: Option<String>,
    audio_stream_ordinal: Option<usize>,
    seq: Option<u64>,
    start_position: Double,
    autostart: bool,
    commands: &mut Vec<Command>,
) -> (result: Result<SourceRequest, PlayerError>)
    ensures
        *final(runtime) == old(runtime).stopped(),
        final(commands)@ == old(commands)@ + old(runtime).stop_commands(),
        match result {
            Ok(request) => request_for(
                *old(runtime),
                url,
                audio_stream_ordinal,
                seq,
                start_position,
                autostart,
                request,
            ),
            Err(error) => error == PlayerError::NoSource && url is None
                && old(runtime).current_url is None,
        },
{
    runtime.stop_session(commands);
    let url: String = match url {
        Some(url) => url,
        None => match &runtime.current_url {
            Some(url) => url.clone(),
            None => {
                return Err(PlayerError::NoSource);
            },
        },
    };
    Ok(
        SourceRequest {
            url,
            audio_stream_ordinal: match audio_stream_ordinal {
                Some(ordinal) => Some(ordinal),
                None => runtime.current_audio_stream_ordinal,
            },
            seq: match seq {
                Some(seq) => seq,
                None => runtime.current_seq,
            },
            start_position,
            autostart,
            config: runtime.config.copy(),
            dsp_settings: runtime.dsp_settings.copy(),
        },
    )
}

/// A request to load a source.
pub struct LoadFileTask {
    pub url: String,
    pub seq: u64,
    pub audio_stream_ordinal: Option<usize>,
}

/// The number of a request, as the host counts them: not negative, and whole.
pub open spec fn request_number(seq: Option<Double>) -> int {
    match seq {
        Some(seq) => seq.truncated(),
        None => 0,
    }
}

/// The number of a request.
fn request_seq(seq: Option<Double>) -> (result: u64)
    ensures
        result == request_number(seq),
{
    match seq {
        Some(seq) => seq.max_zero().to_u64(),
        None => 0,
    }
}

/// A request to load a source.
pub fn load_file(url: String, seq: Option<Double>) -> (result: LoadFileTask)
    ensures
        result.url == url,
        result.seq == request_number(seq),
        result.audio_stream_ordinal is None,
{
    LoadFileTask { url, seq: request_seq(seq), audio_stream_ordinal: None }
}

/// A request to load one track of a source.
pub fn load_mkv_track(url: String, track_id: i64, seq: Option<Double>) -> (result: LoadFileTask)
    ensures
        result.url == url,
        result.seq == request_number(seq),
        result.audio_stream_ordinal is None == (track_id <= 0),
        track_id > 0 ==> result.audio_stream_ordinal == Some((track_id - 1) as usize),
{
    LoadFileTask {
        url,
        seq: request_seq(seq),
        audio_stream_ordinal: audio_stream_ordinal_from_track_id(track_id),
    }
}

impl LoadFileTask {
    /// What becomes of the request: the session is stopped, and the requested source is to
    /// be opened from its start, paused.
    pub open spec fn begun(
        self,
        before: Player,
        after: Player,
        before_commands: Seq<Command>,
        after_commands: Seq<Command>,
        result: Result<SourceRequest, PlayerError>,
    ) -> bool {
        match before.runtime {
            None => result == Err::<SourceRequest, PlayerError>(PlayerError::NotInitialized),
            Some(runtime) => {
                &&& after.runtime == Some(runtime.stopped())
                &&& after_commands == before_commands + runtime.stop_commands()
                &&& result matches Ok(request) && request_for(
                    runtime,
                    Some(self.url),
                    self.audio_stream_ordinal,
                    Some(self.seq),
                    Double { bits: 0 },
                    false,
                    request,
                )
            },
        }
    }

    /// Stops the session and says what to open: the requested source from its start,
    /// paused.
    pub fn compute(&self, player: &mut Player, commands: &mut Vec<Command>) -> (result: Result<
        SourceRequest,
        PlayerError,
    >)
        ensures
            old(player).wf() ==> final(player).wf(),
            old(player).refuses(*final(player), old(commands)@, final(commands)@),
            self.begun(*old(player), *final(player), old(commands)@, final(commands)@, result),
    {
        match &mut player.runtime {
            None => Err(PlayerError::NotInitialized),
            Some(runtime) => take_current_for_replace(
                runtime,
                Some(self.url.clone()),
                self.audio_stream_ordinal,
                Some(self.seq),
                zero(),
                false,
                commands,
            ),
        }
    }
}

/// Where a source loops and this is its session, stops it and says what to open:
/// the same source from its start, playing.
pub fn restart_loop_if_enabled(
    player: &mut Player,
    session: u64,
    commands: &mut Vec<Command>,
) -> (result: Option<SourceRequest>)
    ensures
        old(player).wf() ==> final(player).wf(),
        match result {
            Some(request) => {
                &&& old(player).runtime matches Some(runtime) && runtime.restarts(session)
                    && request_for(runtime, None, None, None, Double { bits: 0 }, true, request)
                    && final(player).runtime == Some(
                    runtime.stopped().at(Double { bits: 0 }),
                ) && final(commands)@ == old(commands)@ + runtime.stop_commands()
            },
            None => {
                &&& old(player).runtime matches Some(runtime) ==> !runtime.restarts(session)
                &&& *final(player) == *old(player)
                &&& final(commands)@ == old(commands)@
            },
        },
{
    match &mut player.runtime {
        None => None,
        Some(runtime) => {
            if !runtime.loop_file {
                return None;
            }
            match runtime.session {
                Some(current) => {
                    if current.id != session {
                        return None;
                    }
                },
                None => {
                    return None;
                },
            }
            let url: String = match &runtime.current_url {
                Some(url) => url.clone(),
                None => {
                    return None;
                },
            };
            let request: SourceRequest = SourceRequest {
                url,
                audio_stream_ordinal: runtime.current_audio_stream_ordinal,
                seq: runtime.current_seq,
                start_position: zero(),
                autostart: true,
                config: runtime.config.copy(),
                dsp_settings: runtime.dsp_settings.copy(),
            };
            runtime.stop_session(commands);
            runtime.state.time_pos = zero();
            Some(request)
        },
    }
}

/// What is left to be done once it is said that a source could not be played again, for
/// that reason.
pub open spec fn loop_failure_told(
    before: Seq<Command>,
    after: Seq<Command>,
    reason: Seq<char>,
) -> bool {
    exists|text: String|
        text@ == reason && after == before.push(
            Command::Emit(#[trigger] decode_error(Notice::LoopRestartFailed(text))),
        )
}

/// Takes up a source that was to be played again, where it could be opened. Otherwise
/// the host hears of the failure, as its runtime shows the error.
pub fn finish_loop_restart(
    player: &mut Player,
    prepared: Result<PreparedSource, String>,
    commands: &mut Vec<Command>,
)
    ensures
        old(player).wf() ==> final(player).wf(),
        match prepared {
            Err(reason) => {
                &&& *final(player) == *old(player)
                &&& loop_failure_told(
                    old(commands)@,
                    final(commands)@,
                    PlayerError::Outside(reason).shown(),
                )
            },
            Ok(source) => match old(player).runtime {
                None => {
                    &&& *final(player) == *old(player)
                    &&& loop_failure_told(
                        old(commands)@,
                        final(commands)@,
                        PlayerError::NotInitialized.shown(),
                    )
                },
                Some(runtime) => {
                    &&& final(player).runtime == Some(runtime.loaded(source))
                    &&& final(commands)@ == old(commands)@ + runtime.loaded_commands(source)
                },
            },
        },
{
    match replace_source_async(player, prepared, commands) {
        Ok(_) => {},
        Err(error) => {
            commands.push(
                Command::Emit(emit_decode_error(Notice::LoopRestartFailed(error.display()))),
            );
        },
    }
}

/// What the signal thread is to do.
pub struct SignalStep {
    /// Open this source again.
    pub restart: Option<SourceRequest>,
    /// Wait for the next signal.
    pub go_on: bool,
}

/// What becomes of a signal of a session whose position in seconds is given, and which is
/// to stop or not: `restart` is the source to open again, and `go_on` says whether to wait
/// for the next signal.
pub open spec fn signal_taken(
    before: Player,
    session: u64,
    signal: PlaybackSignal,
    position: Double,
    stopped: bool,
    after: Player,
    before_commands: Seq<Command>,
    after_commands: Seq<Command>,
    restart: Option<SourceRequest>,
    go_on: bool,
) -> bool {
    match signal {
        PlaybackSignal::TimeUpdate => {
            &&& after == before
            &&& after_commands == before_commands.push(
                Command::Emit(PlayerEvent::TimeUpdate(position)),
            )
            &&& restart is None
            &&& go_on == !stopped
        },
        PlaybackSignal::PlaybackEnd => {
            &&& !go_on
            &&& match before.runtime {
                Some(runtime) if runtime.restarts(session) => {
                    &&& restart matches Some(request) && request_for(
                        runtime,
                        None,
                        None,
                        None,
                        Double { bits: 0 },
                        true,
                        request,
                    )
                    &&& after.runtime == Some(runtime.stopped().at(Double { bits: 0 }))
                    &&& after_commands == before_commands + runtime.stop_commands()
                },
                _ => {
                    &&& restart is None
                    &&& after == before
                    &&& after_commands == before_commands.push(
                        Command::Emit(PlayerEvent::PlaybackEnd),
                    )
                },
            }
        },
        PlaybackSignal::Stop => {
            &&& after == before
            &&& after_commands == before_commands
            &&& restart is None
            &&& !go_on
        },
    }
}

/// Takes a signal of a session whose position in seconds is given, and which is to
/// stop or not. The host hears of the position; and of the end of the source,
/// unless it is played again.
pub fn handle_signal(
    player: &mut Player,
    session: u64,
    signal: PlaybackSignal,
    position: Double,
    stopped: bool,
    commands: &mut Vec<Command>,
) -> (result: SignalStep)
    ensures
        old(player).wf() ==> final(player).wf(),
        signal_taken(
            *old(player),
            session,
            signal,
            position,
            stopped,
            *final(player),
            old(commands)@,
            final(commands)@,
            result.restart,
            result.go_on,
        ),
{
    match signal {
        PlaybackSignal::TimeUpdate => {
            commands.push(Command::Emit(PlayerEvent::TimeUpdate(position)));
            SignalStep { restart: None, go_on: !stopped }
        },
        PlaybackSignal::PlaybackEnd => {
            let restart: Option<SourceRequest> = restart_loop_if_enabled(player, session, commands);
            if restart.is_none() {
                commands.push(Command::Emit(PlayerEvent::PlaybackEnd));
            }
            SignalStep { restart, go_on: false }
        },
        PlaybackSignal::Stop => SignalStep { restart: None, go_on: false },
    }
}

/// A request for the tracks of a source.
pub struct GetTrackListTask {
    pub url: Option<String>,
}

/// A request for the tracks of the source in use.
pub fn get_track_list(player: &Player) -> (result: GetTrackListTask)
    ensures
        result.url == match player.runtime {
            Some(runtime) => runtime.current_url,
            None => None,
        },
{
    GetTrackListTask {
        url: match &player.runtime {
            Some(runtime) => clone_text(&runtime.current_url),
            None => None,
        },
    }
}

impl GetTrackListTask {
    /// The tracks: one audio track where there is a source.
    pub fn compute(&self) -> (result: Vec<TrackInfo>)
        ensures
            self.url is None ==> result@.len() == 0,
            self.url is Some ==> {
                &&& result@.len() == 1
                &&& result@[0].id == 1
                &&& result@[0].kind@ == "audio"@
                &&& result@[0].selected
                &&& result@[0].title is None
                &&& result@[0].lang is None
            },
    {
        match &self.url {
            Some(url) => list_tracks_for_url(url.as_str()),
            None => Vec::new(),
        }
    }
}

/// A request to play.
pub struct PlayTask;

/// A request to play.
pub fn play() -> (result: PlayTask)
    ensures
        result == PlayTask,
{
    PlayTask
}

impl PlayTask {
    /// What becomes of the request: the player plays, where there is a source.
    pub open spec fn taken(
        self,
        before: Player,
        after: Player,
        before_commands: Seq<Command>,
        after_commands: Seq<Command>,
        result: Result<(), PlayerError>,
    ) -> bool {
        match before.runtime {
            None => result == Err::<(), PlayerError>(PlayerError::NotInitialized),
            Some(runtime) => if runtime.session is None {
                &&& result == Err::<(), PlayerError>(PlayerError::NoSource)
                &&& after == before
                &&& after_commands == before_commands
            } else {
                &&& result is Ok
                &&& after.runtime == Some(runtime.resumed())
                &&& after_commands == before_commands + runtime.pause_commands(false)
                    + runtime.resumed().state_commands()
            },
        }
    }

    /// Plays, where there is a source.
    pub fn compute(&self, player: &mut Player, commands: &mut Vec<Command>) -> (result: Result<
        (),
        PlayerError,
    >)
        ensures
            old(player).wf() ==> final(player).wf(),
            old(player).refuses(*final(player), old(commands)@, final(commands)@),
            self.taken(*old(player), *final(player), old(commands)@, final(commands)@, result),
    {
        match &mut player.runtime {
            None => Err(PlayerError::NotInitialized),
            Some(runtime) => {
                if runtime.session.is_none() {
                    return Err(PlayerError::NoSource);
                }
                resume(runtime, commands);
                Ok(())
            },
        }
    }
}

/// Lets the session play, if there is one, and tells the host that the player
/// plays.
pub(crate) fn resume(runtime: &mut PlayerRuntime, commands: &mut Vec<Command>)
    ensures
        *final(runtime) == old(runtime).resumed(),
        final(commands)@ == old(commands)@ + old(runtime).pause_commands(false)
            + old(runtime).resumed().state_commands(),
{
    let ghost before = commands@;
    match runtime.session {
        Some(session) => {
            commands.push(Command::SetPaused { session: session.id, paused: false });
        },
        None => {},
    }
    assert(commands@ =~= before + runtime.pause_commands(false));
    runtime.state.playing = true;
    runtime.state.paused = false;
    commands.push(Command::Emit(PlayerEvent::StateChange(runtime.state)));
    assert(commands@ =~= before + old(runtime).pause_commands(false)
        + old(runtime).resumed().state_commands());
}

/// What becomes of a request to pause.
pub open spec fn paused_on_request(
    before: Player,
    after: Player,
    before_commands: Seq<Command>,
    after_commands: Seq<Command>,
    result: Result<(), PlayerError>,
) -> bool {
    match before.runtime {
        None => result == Err::<(), PlayerError>(PlayerError::NotInitialized),
        Some(runtime) => {
            &&& result is Ok
            &&& after.runtime == Some(runtime.held())
            &&& after_commands == before_commands + runtime.pause_commands(true)
                + runtime.held().state_commands()
        },
    }
}

/// Pauses.
pub fn pause(player: &mut Player, commands: &mut Vec<Command>) -> (result: Result<(), PlayerError>)
    ensures
        old(player).wf() ==> final(player).wf(),
        old(player).refuses(*final(player), old(commands)@, final(commands)@),
        paused_on_request(*old(player), *final(player), old(commands)@, final(commands)@, result),
{
    let ghost before = commands@;
    let ghost runtime_before = player.runtime->0;
    match &mut player.runtime {
        None => Err(PlayerError::NotInitialized),
        Some(runtime) => {
            match runtime.session {
                Some(session) => {
                    commands.push(Command::SetPaused { session: session.id, paused: true });
                },
                None => {},
            }
            assert(commands@ =~= before + runtime_before.pause_commands(true));
            runtime.state.playing = false;
            runtime.state.paused = true;
            commands.push(Command::Emit(PlayerEvent::StateChange(runtime.state)));
            assert(commands@ =~= before + runtime_before.pause_commands(true)
                + runtime_before.held().state_commands());
            Ok(())
        },
    }
}

/// What becomes of a request to stop.
pub open spec fn stopped_on_request(
    before: Player,
    after: Player,
    before_commands: Seq<Command>,
    after_commands: Seq<Command>,
    result: Result<(), PlayerError>,
) -> bool {
    match before.runtime {
        None => result == Err::<(), PlayerError>(PlayerError::NotInitialized),
        Some(runtime) => {
            &&& result is Ok
            &&& after.runtime == Some(runtime.stopped().at(Double { bits: 0 }))
            &&& after_commands == before_commands + runtime.stop_commands()
                + runtime.stopped().at(Double { bits: 0 }).state_commands()
        },
    }
}

/// Stops: the session is over, and the position is the start.
pub fn stop(player: &mut Player, commands: &mut Vec<Command>) -> (result: Result<(), PlayerError>)
    ensures
        old(player).wf() ==> final(player).wf(),
        old(player).refuses(*final(player), old(commands)@, final(commands)@),
        stopped_on_request(*old(player), *final(player), old(commands)@, final(commands)@, result),
{
    let ghost before = commands@;
    let ghost runtime_before = player.runtime->0;
    match &mut player.runtime {
        None => Err(PlayerError::NotInitialized),
        Some(runtime) => {
            runtime.stop_session(commands);
            runtime.state.time_pos = zero();
            commands.push(Command::Emit(PlayerEvent::StateChange(runtime.state)));
            assert(commands@ =~= before + runtime_before.stop_commands()
                + runtime_before.stopped().at(Double { bits: 0 }).state_commands());
            Ok(())
        },
    }
}

/// What becomes of a request for the state, where the session is at that position.
pub open spec fn state_told(
    position: Double,
    before: Player,
    after: Player,
    result: Result<PlayerState, PlayerError>,
) -> bool {
    match before.runtime {
        None => {
            &&& result == Err::<PlayerState, PlayerError>(PlayerError::NotInitialized)
            &&& after == before
        },
        Some(runtime) => {
            let now = if runtime.session is Some {
                runtime.at(position)
            } else {
                runtime
            };
            &&& after.runtime == Some(now)
            &&& result == Ok::<PlayerState, PlayerError>(now.state)
        },
    }
}

/// The state of the player. Where there is a session, `position` is its position
/// in seconds.
pub fn get_state(player: &mut Player, position: Double) -> (result: Result<
    PlayerState,
    PlayerError,
>)
    ensures
        old(player).wf() ==> final(player).wf(),
        state_told(position, *old(player), *final(player), result),
{
    match &mut player.runtime {
        None => Err(PlayerError::NotInitialized),
        Some(runtime) => {
            if runtime.session.is_some() {
                runtime.state.time_pos = position;
            }
            Ok(runtime.state)
        },
    }
}

/// What becomes of a request to play the source again at its end, or not to.
pub open spec fn loop_set(
    loop_file: bool,
    before: Player,
    after: Player,
    result: Result<(), PlayerError>,
) -> bool {
    match before.runtime {
        None => {
            &&& result == Err::<(), PlayerError>(PlayerError::NotInitialized)
            &&& after == before
        },
        Some(runtime) => {
            &&& result is Ok
            &&& after.runtime == Some(PlayerRuntime { loop_file, ..runtime })
        },
    }
}

/// Whether the source is played again at its end.
pub fn set_loop_file(player: &mut Player, loop_file: bool) -> (result: Result<(), PlayerError>)
    ensures
        old(player).wf() ==> final(player).wf(),
        loop_set(loop_file, *old(player), *final(player), result),
{
    match &mut player.runtime {
        None => Err(PlayerError::NotInitialized),
        Some(runtime) => {
            runtime.loop_file = loop_file;
            Ok(())
        },
    }
}

/// The audio filter in use.
pub fn get_audio_filter(player: &Player) -> (result: Result<String, PlayerError>)
    ensures
        result == match player.runtime {
            None => Err::<String, PlayerError>(PlayerError::NotInitialized),
            Some(runtime) => Ok(runtime.audio_filter),
        },
{
    match &player.runtime {
        None => Err(PlayerError::NotInitialized),
        Some(runtime) => Ok(runtime.audio_filter.clone()),
    }
}

/// Pausing undoes playing: a player that was paused is as it was before.
pub proof fn pausing_undoes_playing(runtime: PlayerRuntime)
    requires
        runtime.wf(),
        runtime.state.paused,
    ensures
        runtime.resumed().wf(),
        runtime.resumed().held() == runtime,
{
}

/// A session is stopped once: after that there is none, and stopping again does
/// nothing more.
pub proof fn a_session_is_stopped_once(runtime: PlayerRuntime)
    ensures
        runtime.stopped().session is None,
        runtime.stopped().stop_commands() == Seq::<Command>::empty(),
        runtime.stopped().stopped() == runtime.stopped(),
        forall|session: u64| !runtime.stopped().is_current(session),
{
}

/// A source that loops stays the source in use: what its restart opens, taken up,
/// has the same address, stream and number, and plays from the start.
pub proof fn a_loop_plays_the_same_source(
    runtime: PlayerRuntime,
    request: SourceRequest,
    prepared: PreparedSource,
)
    requires
        runtime.current_url is Some,
        request_for(runtime, None, None, None, Double { bits: 0 }, true, request),
        prepared.url == request.url,
        prepared.audio_stream_ordinal == request.audio_stream_ordinal,
        prepared.seq == request.seq,
        prepared.start_position == request.start_position.positive_part(),
        prepared.autostart == request.autostart,
    ensures
        ({
            let now = runtime.stopped().at(Double { bits: 0 }).loaded(prepared);
            &&& now.current_url == runtime.current_url
            &&& now.current_audio_stream_ordinal == runtime.current_audio_stream_ordinal
            &&& now.current_seq == runtime.current_seq
            &&& now.state.time_pos == Double { bits: 0 }
            &&& now.state.playing && !now.state.paused
            &&& now.loop_file == runtime.loop_file
            &&& now.dsp_settings == runtime.dsp_settings
        }),
{
}

/// The end of a session that is no longer the current one starts nothing.
pub proof fn old_sessions_do_not_restart(
    runtime: PlayerRuntime,
    prepared: PreparedSource,
    session: u64,
)
    requires
        session != prepared.session.id,
    ensures
        !runtime.loaded(prepared).restarts(session),
        !runtime.stopped().restarts(session),
{
}

/// Commands for one session leave the shared state of another as it is.
pub proof fn sessions_are_apart(command: Command, session: u64, shared: SharedView)
    requires
        match command {
            Command::SetPaused { session: id, .. } => id != session,
            Command::SetVolume { session: id, .. } => id != session,
            Command::SetSpeed { session: id, .. } => id != session,
            Command::RequestDecodeStop { session: id } => id != session,
            Command::ResumeDecoding { session: id, .. } => id != session,
            _ => true,
        },
    ensures
        command.effect(session, shared) == shared,
{
}

/// The session plays where the player does: after the commands of playing it is not
/// paused, and after those of pausing it is.
pub proof fn the_session_follows_the_player(runtime: PlayerRuntime, shared: SharedView)
    requires
        runtime.session is Some,
    ensures
        ({
            let id = runtime.session->0.id;
            let played = runtime.pause_commands(false) + runtime.resumed().state_commands();
            let paused = runtime.pause_commands(true) + runtime.held().state_commands();
            &&& effects(played, id, shared) == (SharedView { paused: false, ..shared })
            &&& effects(paused, id, shared) == (SharedView { paused: true, ..shared })
            &&& runtime.resumed().state.paused == effects(played, id, shared).paused
            &&& runtime.held().state.paused == effects(paused, id, shared).paused
        }),
{
    let id = runtime.session->0.id;
    let played = runtime.pause_commands(false) + runtime.resumed().state_commands();
    let paused = runtime.pause_commands(true) + runtime.held().state_commands();
    reveal_with_fuel(effects, 3);
    assert(played.drop_first().first() == runtime.resumed().state_commands()[0]);
    assert(paused.drop_first().first() == runtime.held().state_commands()[0]);
}

/// A request to open a source carries the settings of the player unchanged: the speed,
/// every gain of the equalizer, the normalization and the impulse response, and the whole
/// configuration. What the caller gives is what is opened, and what is left out is that of
/// the source in use.
pub proof fn a_request_carries_the_settings(
    runtime: PlayerRuntime,
    url: Option<String>,
    audio_stream_ordinal: Option<usize>,
    seq: Option<u64>,
    start_position: Double,
    autostart: bool,
    request: SourceRequest,
)
    requires
        request_for(
            runtime,
            url,
            audio_stream_ordinal,
            seq,
            start_position,
            autostart,
            request,
        ),
    ensures
        request.dsp_settings.speed == runtime.dsp_settings.speed,
        request.dsp_settings.equalizer@.len() == runtime.dsp_settings.equalizer@.len(),
        forall|i: int|
            0 <= i < runtime.dsp_settings.equalizer@.len() ==> request.dsp_settings.equalizer@[i]
                == runtime.dsp_settings.equalizer@[i],
        request.dsp_settings.normalization_gain_db == runtime.dsp_settings.normalization_gain_db,
        request.dsp_settings.spatial == runtime.dsp_settings.spatial,
        request.config.audio_device == runtime.config.audio_device,
        request.config.exclusive_output == runtime.config.exclusive_output,
        request.config.audio_buffer_secs == runtime.config.audio_buffer_secs,
        request.config.network_timeout_secs == runtime.config.network_timeout_secs,
        request.config.http_proxy == runtime.config.http_proxy,
        url matches Some(url) ==> request.url == url,
        url is None ==> runtime.current_url == Some(request.url),
        audio_stream_ordinal is Some ==> request.audio_stream_ordinal == audio_stream_ordinal,
        audio_stream_ordinal is None ==> request.audio_stream_ordinal
            == runtime.current_audio_stream_ordinal,
        seq matches Some(seq) ==> request.seq == seq,
        seq is None ==> request.seq == runtime.current_seq,
        request.start_position == start_position,
        request.autostart == autostart,
{
}

/// The shared state of a source that is opened has the speed of the request, plays where
/// the source is to start by itself, and starts with nothing queued, played, ended or to
/// stop; the flag that interrupts the decoder is lowered, and no signal waits.
pub proof fn a_source_starts_as_requested(request: SourceRequest, sample_rate: u32)
    ensures
        ({
            let shared = request.session_state(sample_rate);
            &&& shared.speed == request.dsp_settings.speed
            &&& shared.paused == !request.autostart
            &&& shared.sample_rate == sample_rate
            &&& shared.volume.bits == 0x3f80_0000
            &&& shared.queue.len() == 0
            &&& shared.played == 0
            &&& shared.last_time_event == 0
            &&& !shared.stop && !shared.output_stop && !shared.decode_stop
            &&& !shared.output_started
            &&& !shared.eof && !shared.decode_failed && !shared.end_reported
            &&& !shared.queue_changed
            &&& shared.interrupt == Some(false)
            &&& shared.signals matches Some(waiting) && waiting.len() == 0
            &&& shared.capacity >= sample_rate / 10
        }),
{
}

/// A source that is opened for the player plays at the speed of the player, whichever it
/// is and whatever is opened.
pub proof fn a_source_plays_at_the_speed_of_the_player(
    runtime: PlayerRuntime,
    url: Option<String>,
    audio_stream_ordinal: Option<usize>,
    seq: Option<u64>,
    start_position: Double,
    autostart: bool,
    request: SourceRequest,
    sample_rate: u32,
)
    requires
        request_for(
            runtime,
            url,
            audio_stream_ordinal,
            seq,
            start_position,
            autostart,
            request,
        ),
    ensures
        request.session_state(sample_rate).speed == runtime.dsp_settings.speed,
        request.session_state(sample_rate).paused == !autostart,
{
}

/// A source that was opened and taken up is the one that was asked for: it has the
/// address, the stream, the number and the position of the request, and all its threads.
pub proof fn what_was_requested_is_taken_up(
    runtime: PlayerRuntime,
    request: SourceRequest,
    duration: Double,
    id: u64,
    sample_rate: u32,
)
    ensures
        ({
            let now = runtime.loaded(request.opened(duration, id, sample_rate));
            &&& now.current_url == Some(request.url)
            &&& now.current_audio_stream_ordinal == request.audio_stream_ordinal
            &&& now.current_seq == request.seq
            &&& now.state.duration == duration
            &&& now.state.playing == request.autostart
            &&& now.state.paused == !request.autostart
            &&& 0 < request.start_position.bits <= 0x7ff0_0000_0000_0000 ==> now.state.time_pos
                == request.start_position
            &&& request.start_position.bits == 0 || request.start_position.bits
                > 0x7ff0_0000_0000_0000 ==> now.state.time_pos.bits == 0
            &&& now.session matches Some(session) && session.id == id && session.sample_rate
                == sample_rate && session.output_thread && session.decode_thread
                && session.position_thread
        }),
{
}

/// Taking up a source leaves the configuration, the settings, the loop, the filter and the
/// request for an impulse response as they are.
pub proof fn taking_up_a_source_keeps_the_settings(
    runtime: PlayerRuntime,
    prepared: PreparedSource,
)
    ensures
        ({
            let now = runtime.loaded(prepared);
            &&& now.session == Some(prepared.session)
            &&& now.current_url == Some(prepared.url)
            &&& now.current_audio_stream_ordinal == prepared.audio_stream_ordinal
            &&& now.current_seq == prepared.seq
            &&& now.state.duration == prepared.duration
            &&& now.state.time_pos == prepared.start_position
            &&& now.state.playing == prepared.autostart
            &&& now.state.paused == !prepared.autostart
            &&& runtime.same_settings(now)
        }),
{
}

/// The host hears of a source in this order: how long it is, that it is loaded, and the
/// state of the player with it.
pub proof fn the_host_hears_of_a_source(runtime: PlayerRuntime, prepared: PreparedSource)
    ensures
        ({
            let told = runtime.loaded_commands(prepared);
            &&& told.len() == 3
            &&& told[0] matches Command::Emit(PlayerEvent::DurationChange(duration)) && duration
                == prepared.duration
            &&& told[1] matches Command::Emit(PlayerEvent::FileLoaded { url, seq }) && url
                == prepared.url && seq == prepared.seq
            &&& told[2] matches Command::Emit(PlayerEvent::StateChange(state)) && state.duration
                == prepared.duration && state.time_pos == prepared.start_position
                && state.playing == prepared.autostart && state.paused == !prepared.autostart
        }),
{
}

/// Playing, pausing and stopping change whether the player plays, stopping the session
/// too, and nothing else; moving changes the position alone. The host is told the state as
/// it is.
pub proof fn playing_and_stopping_keep_the_rest(runtime: PlayerRuntime, position: Double)
    ensures
        runtime.resumed().state.playing && !runtime.resumed().state.paused,
        !runtime.held().state.playing && runtime.held().state.paused,
        !runtime.stopped().state.playing && runtime.stopped().state.paused,
        runtime.resumed().state.time_pos == runtime.state.time_pos,
        runtime.resumed().state.duration == runtime.state.duration,
        runtime.held().state.time_pos == runtime.state.time_pos,
        runtime.held().state.duration == runtime.state.duration,
        runtime.stopped().state.time_pos == runtime.state.time_pos,
        runtime.stopped().state.duration == runtime.state.duration,
        runtime.at(position).state.time_pos == position,
        runtime.at(position).state.playing == runtime.state.playing,
        runtime.at(position).state.paused == runtime.state.paused,
        runtime.at(position).state.duration == runtime.state.duration,
        runtime.resumed().session == runtime.session,
        runtime.held().session == runtime.session,
        runtime.stopped().session is None,
        runtime.at(position).session == runtime.session,
        runtime.same_source(runtime.resumed()),
        runtime.same_source(runtime.held()),
        runtime.same_source(runtime.stopped()),
        runtime.same_source(runtime.at(position)),
        runtime.same_settings(runtime.resumed()),
        runtime.same_settings(runtime.held()),
        runtime.same_settings(runtime.stopped()),
        runtime.same_settings(runtime.at(position)),
        runtime.state_commands().len() == 1,
        runtime.state_commands()[0] == Command::Emit(PlayerEvent::StateChange(runtime.state)),
{
}

/// Stopping and pausing reach the session in use, and none where there is none.
pub proof fn commands_go_to_the_session_in_use(runtime: PlayerRuntime, paused: bool)
    ensures
        match runtime.session {
            Some(session) => {
                &&& runtime.stop_commands().len() == 1
                &&& runtime.stop_commands()[0] == Command::StopSession(session)
                &&& runtime.pause_commands(paused).len() == 1
                &&& runtime.pause_commands(paused)[0] == (Command::SetPaused {
                    session: session.id,
                    paused,
                })
            },
            None => {
                &&& runtime.stop_commands().len() == 0
                &&& runtime.pause_commands(paused).len() == 0
            },
        },
{
}

/// A source is played again exactly where it loops and the session that ended is the one
/// in use.
pub proof fn a_source_is_played_again_where_it_loops(runtime: PlayerRuntime, session: u64)
    ensures
        runtime.restarts(session) <==> {
            &&& runtime.loop_file
            &&& runtime.current_url is Some
            &&& match runtime.session {
                Some(current) => current.id == session,
                None => false,
            }
        },
{
}

/// A player as it is initialized has no source, is paused at the start, does not loop and
/// has no filter and no request for an impulse response.
pub proof fn a_new_player_has_no_source(
    runtime: PlayerRuntime,
    config: PlayerConfig,
    settings: DspSettings,
    default_spatial_mix: Single,
)
    requires
        runtime.is_fresh(config, settings, default_spatial_mix),
    ensures
        runtime.session is None,
        runtime.current_url is None,
        runtime.current_audio_stream_ordinal is None,
        runtime.current_seq == 0,
        !runtime.state.playing,
        runtime.state.paused,
        runtime.state.duration.bits == 0,
        runtime.state.time_pos.bits == 0,
        !runtime.loop_file,
        runtime.audio_filter@.len() == 0,
        !runtime.spectrum_signal_logged,
        runtime.spatial_request_seq == 0,
        runtime.spatial_mix == default_spatial_mix,
        runtime.default_spatial_mix == default_spatial_mix,
        runtime.config == config,
        runtime.dsp_settings == settings,
{
}

/// What a command does to the shared state of its session: it pauses, sets the volume or
/// the speed, and nothing else; stops the decoder and interrupts it; or empties the queue
/// for a decoder that goes on at the position, with its flag lowered.
pub proof fn a_command_does_what_it_says(
    session: u64,
    shared: SharedView,
    paused: bool,
    level: Single,
    position: Double,
    settings: DspSettings,
)
    ensures
        (Command::SetPaused { session, paused }).effect(session, shared) == (SharedView {
            paused,
            ..shared
        }),
        (Command::SetVolume { session, volume: level }).effect(session, shared) == (SharedView {
            volume: level,
            ..shared
        }),
        (Command::SetSpeed { session, speed: level }).effect(session, shared) == (SharedView {
            speed: level,
            ..shared
        }),
        ({
            let after = (Command::RequestDecodeStop { session }).effect(session, shared);
            &&& after.decode_stop
            &&& after.interrupt is Some == shared.interrupt is Some
            &&& shared.interrupt is Some ==> after.interrupt == Some(true)
            &&& shared.same_progress(after)
            &&& shared.same_settings(after)
        }),
        ({
            let after = (Command::ResumeDecoding { session, position, settings }).effect(
                session,
                shared,
            );
            &&& after.played == samples_until(position, shared.sample_rate)
            &&& after.last_time_event == after.played
            &&& after.queue.len() == 0
            &&& !after.decode_stop && !after.eof && !after.decode_failed && !after.end_reported
            &&& after.interrupt == Some(false)
            &&& after.stop == shared.stop
            &&& shared.same_settings(after)
        }),
{
}

/// All the threads that are attached are waited for, and no others: the decoder first,
/// whom the output waits for, and the signal thread last.
pub proof fn threads_are_waited_for_in_order(session: PlaybackSession)
    ensures
        session.workers().contains(Worker::Decode) == session.decode_thread,
        session.workers().contains(Worker::Output) == session.output_thread,
        session.workers().contains(Worker::Position) == session.position_thread,
        session.workers().no_duplicates(),
        session.decode_thread ==> session.workers().first() == Worker::Decode,
        session.position_thread ==> session.workers().last() == Worker::Position,
{
    let workers = session.workers();
    if session.decode_thread {
        assert(workers[0] == Worker::Decode);
    }
    if session.output_thread {
        let place = if session.decode_thread {
            1int
        } else {
            0int
        };
        assert(workers[place] == Worker::Output);
    }
    if session.position_thread {
        assert(workers[workers.len() - 1] == Worker::Position);
    }
}

/// The number of a request is the largest whole number that is not above the one the host
/// gave, and none for a number below zero, for what is not a number and where the host
/// gave none.
pub proof fn requests_are_numbered_by_whole_numbers(seq: Double)
    ensures
        request_number(None) == 0,
        seq.negative() || seq.not_a_number() ==> request_number(Some(seq)) == 0,
        !seq.negative() && seq.exponent() < 1087 ==> request_number(Some(seq)) * pow2(1074)
            <= units(seq) < (request_number(Some(seq)) + 1) * pow2(1074),
{
    if !seq.negative() && seq.exponent() < 1087 {
        truncation_rounds_down(seq);
    }
}

/// A time update is told the host as the position of the session, and changes nothing; the
/// thread waits on unless the session is to stop.
pub proof fn a_time_update_is_told(
    before: Player,
    session: u64,
    position: Double,
    stopped: bool,
    after: Player,
    before_commands: Seq<Command>,
    after_commands: Seq<Command>,
    restart: Option<SourceRequest>,
    go_on: bool,
)
    requires
        signal_taken(
            before,
            session,
            PlaybackSignal::TimeUpdate,
            position,
            stopped,
            after,
            before_commands,
            after_commands,
            restart,
            go_on,
        ),
    ensures
        after == before,
        restart is None,
        go_on == !stopped,
        after_commands.len() == before_commands.len() + 1,
        after_commands.drop_last() == before_commands,
        after_commands.last() == Command::Emit(PlayerEvent::TimeUpdate(position)),
{
}

/// At its end a source is played again or the host hears of the end, never both and never
/// neither. It is played again where it loops and the session is still the one in use: the
/// same source from its start, playing, with the settings of the player, after the session
/// was stopped. The thread is done either way.
pub proof fn a_source_ends_or_is_played_again(
    before: Player,
    session: u64,
    position: Double,
    stopped: bool,
    after: Player,
    before_commands: Seq<Command>,
    after_commands: Seq<Command>,
    restart: Option<SourceRequest>,
    go_on: bool,
)
    requires
        signal_taken(
            before,
            session,
            PlaybackSignal::PlaybackEnd,
            position,
            stopped,
            after,
            before_commands,
            after_commands,
            restart,
            go_on,
        ),
    ensures
        !go_on,
        restart is Some <==> match before.runtime {
            Some(runtime) => runtime.loop_file && runtime.current_url is Some
                && match runtime.session {
                Some(current) => current.id == session,
                None => false,
            },
            None => false,
        },
        restart is None ==> after == before && after_commands == before_commands.push(
            Command::Emit(PlayerEvent::PlaybackEnd),
        ),
        restart matches Some(request) ==> {
            let runtime = before.runtime->0;
            &&& runtime.current_url == Some(request.url)
            &&& request.audio_stream_ordinal == runtime.current_audio_stream_ordinal
            &&& request.seq == runtime.current_seq
            &&& request.start_position.bits == 0
            &&& request.autostart
            &&& request.dsp_settings.speed == runtime.dsp_settings.speed
            &&& request.dsp_settings.equalizer@ == runtime.dsp_settings.equalizer@
            &&& request.dsp_settings.normalization_gain_db
                == runtime.dsp_settings.normalization_gain_db
            &&& request.dsp_settings.spatial == runtime.dsp_settings.spatial
            &&& request.config == runtime.config
            &&& after_commands == before_commands.push(Command::StopSession(runtime.session->0))
            &&& after.runtime matches Some(now) && now.session is None && now.state.paused
                && !now.state.playing && now.state.time_pos.bits == 0 && now.loop_file
                && runtime.same_source(now) && runtime.same_settings(now)
        },
{
}

/// A request to stop ends the signal thread, and nothing else comes of it.
pub proof fn a_stop_ends_the_signal_thread(
    before: Player,
    session: u64,
    position: Double,
    stopped: bool,
    after: Player,
    before_commands: Seq<Command>,
    after_commands: Seq<Command>,
    restart: Option<SourceRequest>,
    go_on: bool,
)
    requires
        signal_taken(
            before,
            session,
            PlaybackSignal::Stop,
            position,
            stopped,
            after,
            before_commands,
            after_commands,
            restart,
            go_on,
        ),
    ensures
        !go_on,
        restart is None,
        after == before,
        after_commands == before_commands,
{
}

/// Loading a source opens what was asked for: that address from its start, paused, under
/// the number of the request, with the settings of the player. The session in use is
/// stopped before, and the player stays paused at its position until the source is there.
pub proof fn a_load_opens_what_was_asked_for(
    task: LoadFileTask,
    before: Player,
    after: Player,
    before_commands: Seq<Command>,
    after_commands: Seq<Command>,
    result: Result<SourceRequest, PlayerError>,
)
    requires
        before.runtime is Some,
        task.begun(before, after, before_commands, after_commands, result),
    ensures
        result is Ok,
        after.runtime is Some,
        ({
            let request = result->Ok_0;
            let runtime = before.runtime->0;
            let now = after.runtime->0;
            &&& request.url == task.url
            &&& request.seq == task.seq
            &&& task.audio_stream_ordinal is Some ==> request.audio_stream_ordinal
                == task.audio_stream_ordinal
            &&& task.audio_stream_ordinal is None ==> request.audio_stream_ordinal
                == runtime.current_audio_stream_ordinal
            &&& request.start_position.bits == 0
            &&& !request.autostart
            &&& request.dsp_settings.speed == runtime.dsp_settings.speed
            &&& request.dsp_settings.equalizer@ == runtime.dsp_settings.equalizer@
            &&& request.dsp_settings.normalization_gain_db
                == runtime.dsp_settings.normalization_gain_db
            &&& request.dsp_settings.spatial == runtime.dsp_settings.spatial
            &&& request.config == runtime.config
            &&& now.session is None && now.state.paused && !now.state.playing
            &&& now.state.time_pos == runtime.state.time_pos
            &&& runtime.same_source(now) && runtime.same_settings(now)
            &&& runtime.session matches Some(session) ==> after_commands == before_commands.push(
                Command::StopSession(session),
            )
            &&& runtime.session is None ==> after_commands == before_commands
        }),
{
}

/// Playing after a stop is refused, for there is no source; the player stays as it is.
pub proof fn nothing_plays_after_a_stop(
    before: Player,
    stopped: Player,
    after: Player,
    commands: Seq<Command>,
    stopped_commands: Seq<Command>,
    after_commands: Seq<Command>,
    stop_result: Result<(), PlayerError>,
    result: Result<(), PlayerError>,
)
    requires
        before.runtime is Some,
        stopped_on_request(before, stopped, commands, stopped_commands, stop_result),
        PlayTask.taken(stopped, after, stopped_commands, after_commands, result),
    ensures
        stop_result is Ok,
        result == Err::<(), PlayerError>(PlayerError::NoSource),
        after == stopped,
        after_commands == stopped_commands,
        stopped.runtime matches Some(now) && now.session is None && now.state.paused
            && !now.state.playing && now.state.time_pos.bits == 0 && now.state.duration
            == before.runtime->0.state.duration,
        stopped_commands.last() == Command::Emit(
            PlayerEvent::StateChange(stopped.runtime->0.state),
        ),
        before.runtime->0.session matches Some(session) ==> stopped_commands.len()
            == commands.len() + 2 && stopped_commands[commands.len() as int]
            == Command::StopSession(session),
        before.runtime->0.session is None ==> stopped_commands.len() == commands.len() + 1,
{
}

/// Playing and pausing a source, one after the other: the session does each in its turn,
/// and the host hears the state of the player each time. In the end the player is paused
/// where it was.
pub proof fn playing_then_pausing(
    before: Player,
    playing: Player,
    after: Player,
    commands: Seq<Command>,
    playing_commands: Seq<Command>,
    after_commands: Seq<Command>,
    play_result: Result<(), PlayerError>,
    result: Result<(), PlayerError>,
)
    requires
        before.runtime matches Some(runtime) && runtime.session is Some,
        PlayTask.taken(before, playing, commands, playing_commands, play_result),
        paused_on_request(playing, after, playing_commands, after_commands, result),
    ensures
        play_result is Ok,
        result is Ok,
        ({
            let id = before.runtime->0.session->0.id;
            let n = commands.len() as int;
            &&& playing.runtime matches Some(now) && now.state.playing && !now.state.paused
                && now.session == before.runtime->0.session && now.state.time_pos
                == before.runtime->0.state.time_pos
            &&& after.runtime matches Some(now) && !now.state.playing && now.state.paused
                && now.session == before.runtime->0.session && now.state.time_pos
                == before.runtime->0.state.time_pos
            &&& playing_commands.len() == n + 2
            &&& playing_commands[n] == (Command::SetPaused { session: id, paused: false })
            &&& playing_commands[n + 1] == Command::Emit(
                PlayerEvent::StateChange(playing.runtime->0.state),
            )
            &&& after_commands.len() == n + 4
            &&& after_commands[n + 2] == (Command::SetPaused { session: id, paused: true })
            &&& after_commands[n + 3] == Command::Emit(
                PlayerEvent::StateChange(after.runtime->0.state),
            )
        }),
{
}

/// The host gets the state as it is, at the position of the session where there is one,
/// playing or not; asking changes nothing else.
pub proof fn the_state_is_told_as_it_is(
    position: Double,
    before: Player,
    after: Player,
    result: Result<PlayerState, PlayerError>,
)
    requires
        before.runtime is Some,
        state_told(position, before, after, result),
    ensures
        result is Ok,
        after.runtime is Some,
        ({
            let runtime = before.runtime->0;
            let now = after.runtime->0;
            let state = result->Ok_0;
            &&& state.time_pos == if runtime.session is Some {
                position
            } else {
                runtime.state.time_pos
            }
            &&& state.playing == runtime.state.playing
            &&& state.paused == runtime.state.paused
            &&& state.duration == runtime.state.duration
            &&& now.state == state
            &&& now.session == runtime.session
            &&& runtime.same_source(now)
            &&& runtime.same_settings(now)
        }),
{
}

/// A source that could be opened is taken up and the host hears of it; one that could not
/// be changes nothing, and the caller hears why.
pub proof fn an_opened_source_is_taken_up(
    prepared: Result<PreparedSource, String>,
    before: Player,
    after: Player,
    before_commands: Seq<Command>,
    after_commands: Seq<Command>,
    result: Result<(), PlayerError>,
)
    requires
        before.runtime is Some,
        source_replaced(prepared, before, after, before_commands, after_commands, result),
    ensures
        match prepared {
            Err(reason) => {
                &&& result == Err::<(), PlayerError>(PlayerError::Outside(reason))
                &&& after == before
                &&& after_commands == before_commands
            },
            Ok(source) => {
                let n = before_commands.len() as int;
                &&& result is Ok
                &&& after.runtime matches Some(now) && now.session == Some(source.session)
                    && now.current_url == Some(source.url) && now.current_audio_stream_ordinal
                    == source.audio_stream_ordinal && now.current_seq == source.seq
                    && now.state.time_pos == source.start_position && now.state.duration
                    == source.duration && now.state.playing == source.autostart
                    && now.state.paused == !source.autostart
                    && (before.runtime->0).same_settings(now)
                &&& after_commands.len() == n + 3
                &&& after_commands[n] == Command::Emit(
                    PlayerEvent::DurationChange(source.duration),
                )
                &&& after_commands[n + 1] == Command::Emit(
                    PlayerEvent::FileLoaded { url: source.url, seq: source.seq },
                )
                &&& after_commands[n + 2] == Command::Emit(
                    PlayerEvent::StateChange(after.runtime->0.state),
                )
            },
        },
{
}

/// Whether a source is played again is what was last asked for: the session in use is
/// played again at its end exactly where that was to, and nothing else of the player
/// changes.
pub proof fn the_last_request_for_a_loop_counts(
    loop_file: bool,
    before: Player,
    after: Player,
    result: Result<(), PlayerError>,
)
    requires
        before.runtime matches Some(runtime) && runtime.session is Some
            && runtime.current_url is Some,
        loop_set(loop_file, before, after, result),
    ensures
        result is Ok,
        after.runtime is Some,
        ({
            let runtime = before.runtime->0;
            let now = after.runtime->0;
            &&& now.restarts(runtime.session->0.id) == loop_file
            &&& now.session == runtime.session
            &&& now.state == runtime.state
            &&& runtime.same_source(now)
            &&& now.dsp_settings == runtime.dsp_settings
            &&& now.config == runtime.config
        }),
{
}

} // verus!
