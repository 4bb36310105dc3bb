//! Seeking: with the decoder at hand where that works, else by opening the source
//! anew.

use vstd::prelude::*;

use crate::events::{LogLevel, Notice, PlayerError, PlayerEvent};
use crate::float_bits::Double;
use crate::player::{
    effects, Command, PlaybackSession, Player, PlayerRuntime, PreparedSource, SourceRequest,
};
use crate::settings::{clone_text, DspSettings, PlayerConfig};
use crate::shared::{samples_until, SharedView};

verus! {

/// A request to go to a position.
pub struct SeekTask {
    /// The position in seconds.
    pub position: Double,
}

/// What is known when a seek begins.
pub struct SeekPlan {
    pub session: u64,
    /// The decoding thread was attached; the host waits for it.
    pub decode_thread: bool,
    /// Where to go, in seconds: not before the start.
    pub position: Double,
    pub was_paused: bool,
    pub url: Option<String>,
    pub audio_stream_ordinal: Option<usize>,
    pub seq: u64,
    pub config: PlayerConfig,
    pub dsp_settings: DspSettings,
}

/// What became of the decoder.
pub enum SeekReply {
    /// The decoding thread handed no decoder back.
    NoDecoder,
    /// The decoder is at the position.
    Sought,
    /// The decoder could not go there, for this reason.
    Failed(String),
}

/// A request to go to a position in seconds.
pub fn seek(time: Double) -> (result: SeekTask)
    ensures
        result.position == time,
{
    SeekTask { position: time }
}

impl PlayerRuntime {
    /// Without the decoding thread attached.
    pub open spec fn without_decoder(self) -> PlayerRuntime {
        match self.session {
            Some(session) => PlayerRuntime {
                session: Some(PlaybackSession { decode_thread: false, ..session }),
                ..self
            },
            None => self,
        }
    }

    /// With the decoding thread attached.
    pub open spec fn with_decoder(self) -> PlayerRuntime {
        match self.session {
            Some(session) => PlayerRuntime {
                session: Some(PlaybackSession { decode_thread: true, ..session }),
                ..self
            },
            None => self,
        }
    }
}

impl SeekTask {
    /// The plan for the seek.
    pub open spec fn planned(
        self,
        runtime: PlayerRuntime,
        was_paused: bool,
        plan: SeekPlan,
    ) -> bool {
        &&& runtime.session matches Some(session) && plan.session == session.id
            && plan.decode_thread == session.decode_thread
        &&& plan.position == self.position.positive_part()
        &&& plan.was_paused == was_paused
        &&& plan.url == runtime.current_url
        &&& plan.audio_stream_ordinal == runtime.current_audio_stream_ordinal
        &&& plan.seq == runtime.current_seq
        &&& plan.config == runtime.config
        &&& plan.dsp_settings.same(runtime.dsp_settings)
    }

    /// What becomes of the seek as it begins.
    pub open spec fn begun(
        self,
        before: Player,
        was_paused: bool,
        after: Player,
        before_commands: Seq<Command>,
        after_commands: Seq<Command>,
        result: Result<Option<SeekPlan>, PlayerError>,
    ) -> bool {
        match before.runtime {
            None => result == Err::<Option<SeekPlan>, PlayerError>(
                PlayerError::NotInitialized,
            ),
            Some(runtime) => match runtime.session {
                None => {
                    &&& result matches Ok(None)
                    &&& after == before
                    &&& after_commands == before_commands
                },
                Some(session) => {
                    &&& result matches Ok(Some(plan)) && self.planned(
                        runtime,
                        was_paused,
                        plan,
                    )
                    &&& after.runtime == Some(runtime.without_decoder())
                    &&& after_commands == before_commands + seq![
                        Command::SetPaused { session: session.id, paused: true },
                        Command::RequestDecodeStop { session: session.id },
                    ]
                },
            },
        }
    }

    /// Begins the seek: the session is paused and its decoder asked to stop. Where
    /// there is a session, `was_paused` says whether it is paused; without one
    /// there is nothing to do.
    pub fn compute(
        &self,
        player: &mut Player,
        was_paused: bool,
        commands: &mut Vec<Command>,
    ) -> (result: Result<Option<SeekPlan>, PlayerError>)
        ensures
            old(player).wf() ==> final(player).wf(),
            old(player).refuses(*final(player), old(commands)@, final(commands)@),
            self.begun(
                *old(player),
                was_paused,
                *final(player),
                old(commands)@,
                final(commands)@,
                result,
            ),
    {
        let ghost before = commands@;
        match &mut player.runtime {
            None => Err(PlayerError::NotInitialized),
            Some(runtime) => {
                let session: PlaybackSession = match runtime.session {
                    Some(session) => session,
                    None => {
                        return Ok(None);
                    },
                };
                commands.push(Command::SetPaused { session: session.id, paused: true });
                commands.push(Command::RequestDecodeStop { session: session.id });
                assert(commands@ =~= before + seq![
                    Command::SetPaused { session: session.id, paused: true },
                    Command::RequestDecodeStop { session: session.id },
                ]);
                runtime.session = Some(
                    PlaybackSession {
                        id: session.id,
                        sample_rate: session.sample_rate,
                        output_thread: session.output_thread,
                        decode_thread: false,
                        position_thread: session.position_thread,
                    },
                );
                Ok(
                    Some(
                        SeekPlan {
                            session: session.id,
                            decode_thread: session.decode_thread,
                            position: self.position.max_zero(),
                            was_paused,
                            url: clone_text(&runtime.current_url),
                            audio_stream_ordinal: runtime.current_audio_stream_ordinal,
                            seq: runtime.current_seq,
                            config: runtime.config.copy(),
                            dsp_settings: runtime.dsp_settings.copy(),
                        },
                    ),
                )
            },
        }
    }
}

impl SeekPlan {
    /// What going on with the decoder at hand takes.
    pub open spec fn resume_commands(self) -> Seq<Command> {
        seq![
            Command::ResumeDecoding {
                session: self.session,
                position: self.position,
                settings: self.dsp_settings,
            },
            Command::SetPaused { session: self.session, paused: self.was_paused },
            Command::Emit(PlayerEvent::TimeUpdate(self.position)),
        ]
    }

    /// What tells the host that the decoder at hand was no use.
    pub open spec fn failure_commands(self, reply: SeekReply) -> Seq<Command> {
        match reply {
            SeekReply::Failed(reason) => seq![
                Command::Emit(
                    PlayerEvent::Log {
                        level: LogLevel::Warn,
                        notice: Notice::SeekReuseFailed(reason),
                    },
                ),
            ],
            _ => Seq::empty(),
        }
    }

    /// What opens the source anew.
    pub open spec fn reopens(self, request: SourceRequest) -> bool {
        &&& Some(request.url) == self.url
        &&& request.audio_stream_ordinal == self.audio_stream_ordinal
        &&& request.seq == self.seq
        &&& request.start_position == self.position
        &&& request.autostart == !self.was_paused
        &&& request.config == self.config
        &&& request.dsp_settings == self.dsp_settings
    }

    /// The player after the session of the plan is stopped, if it is still the
    /// current one.
    pub open spec fn released(self, runtime: PlayerRuntime) -> PlayerRuntime {
        if runtime.is_current(self.session) {
            runtime.stopped()
        } else {
            runtime
        }
    }

    pub open spec fn release_commands(self, runtime: PlayerRuntime) -> Seq<Command> {
        if runtime.is_current(self.session) {
            runtime.stop_commands()
        } else {
            Seq::empty()
        }
    }

    /// What becomes of the seek once it is known what became of the decoder.
    pub open spec fn finished(
        self,
        before: Player,
        reply: SeekReply,
        after: Player,
        before_commands: Seq<Command>,
        after_commands: Seq<Command>,
        result: Result<Option<SourceRequest>, PlayerError>,
    ) -> bool {
        &&& reply is Sought ==> match before.runtime {
            None => {
                &&& result == Err::<Option<SourceRequest>, PlayerError>(
                    PlayerError::NotInitialized,
                )
                &&& after == before
                &&& after_commands == before_commands
            },
            Some(runtime) => {
                &&& result matches Ok(None)
                &&& if runtime.is_current(self.session) {
                    &&& after.runtime == Some(
                        runtime.with_decoder().at(self.position),
                    )
                    &&& after_commands == before_commands + self.resume_commands()
                } else {
                    &&& after == before
                    &&& after_commands == before_commands
                }
            },
        }
        &&& !(reply is Sought) ==> match self.url {
            None => {
                &&& result matches Ok(None)
                &&& after == before
                &&& after_commands == before_commands + self.failure_commands(reply)
            },
            Some(_) => match before.runtime {
                None => {
                    &&& result == Err::<Option<SourceRequest>, PlayerError>(
                        PlayerError::NotInitialized,
                    )
                    &&& after == before
                    &&& after_commands == before_commands + self.failure_commands(reply)
                },
                Some(runtime) => {
                    &&& after.runtime == Some(self.released(runtime))
                    &&& after_commands == before_commands + self.failure_commands(reply)
                        + self.release_commands(runtime)
                    &&& result matches Ok(Some(request)) && self.reopens(request)
                },
            },
        }
    }

    /// Goes on once it is known what became of the decoder. Where it is at the
    /// position, the session goes on with it, if it is still the current one.
    /// Otherwise the session is stopped, and the result says what to open.
    pub fn finish(
        self,
        player: &mut Player,
        reply: SeekReply,
        commands: &mut Vec<Command>,
    ) -> (result: Result<Option<SourceRequest>, PlayerError>)
        ensures
            old(player).wf() ==> final(player).wf(),
            self.finished(
                *old(player),
                reply,
                *final(player),
                old(commands)@,
                final(commands)@,
                result,
            ),
    {
        let ghost before = commands@;
        let ghost plan = self;
        let ghost runtime_before = player.runtime->0;
        match reply {
            SeekReply::Sought => {
                match &mut player.runtime {
                    None => {
                        return Err(PlayerError::NotInitialized);
                    },
                    Some(runtime) => {
                        let session: PlaybackSession = match runtime.session {
                            Some(session) => session,
                            None => {
                                return Ok(None);
                            },
                        };
                        if session.id != self.session {
                            return Ok(None);
                        }
                        commands.push(
                            Command::ResumeDecoding {
                                session: session.id,
                                position: self.position,
                                settings: self.dsp_settings,
                            },
                        );
                        runtime.session = Some(
                            PlaybackSession {
                                id: session.id,
                                sample_rate: session.sample_rate,
                                output_thread: session.output_thread,
                                decode_thread: true,
                                position_thread: session.position_thread,
                            },
                        );
                        commands.push(
                            Command::SetPaused { session: session.id, paused: self.was_paused },
                        );
                        runtime.state.time_pos = self.position;
                        commands.push(Command::Emit(PlayerEvent::TimeUpdate(self.position)));
                        assert(commands@ =~= before + plan.resume_commands());
                        return Ok(None);
                    },
                }
            },
            SeekReply::NoDecoder => {},
            SeekReply::Failed(reason) => {
                commands.push(
                    Command::Emit(
                        PlayerEvent::Log {
                            level: LogLevel::Warn,
                            notice: Notice::SeekReuseFailed(reason),
                        },
                    ),
                );
            },
        }
        assert(commands@ =~= before + plan.failure_commands(reply));
        let url: String = match self.url {
            Some(url) => url,
            None => {
                return Ok(None);
            },
        };
        match &mut player.runtime {
            None => {
                return Err(PlayerError::NotInitialized);
            },
            Some(runtime) => {
                let current: bool = match runtime.session {
                    Some(session) => session.id == self.session,
                    None => false,
                };
                if current {
                    runtime.stop_session(commands);
                }
                assert(commands@ =~= before + plan.failure_commands(reply)
                    + plan.release_commands(runtime_before));
            },
        }
        Ok(
            Some(
                SourceRequest {
                    url,
                    audio_stream_ordinal: self.audio_stream_ordinal,
                    seq: self.seq,
                    start_position: self.position,
                    autostart: !self.was_paused,
                    config: self.config,
                    dsp_settings: self.dsp_settings,
                },
            ),
        )
    }
}

/// A seek leaves a source playing or paused as it was, whichever way it goes: the
/// session goes on with the pause it had, and a source that is opened anew starts by
/// itself exactly where the session was not paused.
pub proof fn a_seek_keeps_the_pause(plan: SeekPlan, request: SourceRequest)
    requires
        plan.reopens(request),
    ensures
        plan.resume_commands()[1] == (Command::SetPaused {
            session: plan.session,
            paused: plan.was_paused,
        }),
        request.autostart == !plan.was_paused,
{
}

/// A seek that succeeds brings the player to the position, and leaves its source and
/// its threads as they were.
pub proof fn a_seek_keeps_the_source(
    task: SeekTask,
    runtime: PlayerRuntime,
    was_paused: bool,
    plan: SeekPlan,
)
    requires
        task.planned(runtime, was_paused, plan),
        runtime.session->0.decode_thread,
    ensures
        runtime.without_decoder().is_current(plan.session),
        runtime.without_decoder().with_decoder().at(plan.position) == runtime.at(plan.position),
        plan.position == task.position.positive_part(),
{
}

/// Where a seek opens the source anew, the player comes to the same source at the
/// position, and plays exactly where it was not paused before.
pub proof fn a_reopened_source_is_the_same(
    task: SeekTask,
    runtime: PlayerRuntime,
    was_paused: bool,
    plan: SeekPlan,
    request: SourceRequest,
    prepared: PreparedSource,
)
    requires
        task.planned(runtime, was_paused, plan),
        plan.reopens(request),
        prepared.url == request.url,
        prepared.audio_stream_ordinal == request.audio_stream_ordinal,
        prepared.seq == request.seq,
        prepared.start_position == request.start_position.positive_part(),
        prepared.autostart == request.autostart,
    ensures
        ({
            let now = plan.released(runtime.without_decoder()).loaded(prepared);
            &&& now.session == Some(prepared.session)
            &&& now.current_url == runtime.current_url
            &&& now.current_audio_stream_ordinal == runtime.current_audio_stream_ordinal
            &&& now.current_seq == runtime.current_seq
            &&& now.state.time_pos == task.position.positive_part()
            &&& now.state.paused == was_paused && now.state.playing == !was_paused
            &&& now.config == runtime.config
            &&& now.dsp_settings == runtime.dsp_settings
        }),
{
}

/// What a seek with the decoder at hand makes of the shared state: while the decoder
/// seeks, the session is paused and its decoder asked to stop; afterwards the session is
/// paused exactly where it was, its queue is empty, its decoder may go on, unless
/// everything is to stop, and its position is the one that was sought.
pub proof fn a_seek_moves_the_session(
    task: SeekTask,
    runtime: PlayerRuntime,
    shared: SharedView,
    plan: SeekPlan,
)
    requires
        task.planned(runtime, shared.paused, plan),
    ensures
        ({
            let begun = effects(
                seq![
                    Command::SetPaused { session: plan.session, paused: true },
                    Command::RequestDecodeStop { session: plan.session },
                ],
                plan.session,
                shared,
            );
            let resumed = effects(plan.resume_commands(), plan.session, begun);
            &&& begun.paused && begun.stopping_decoding()
            &&& shared.interrupt is Some ==> begun.interrupt == Some(true)
            &&& resumed.paused == shared.paused
            &&& resumed.queue.len() == 0
            &&& resumed.stopping_decoding() == shared.stop
            &&& resumed.interrupt == Some(false)
            &&& resumed.played == samples_until(plan.position, shared.sample_rate)
            &&& resumed.last_time_event == resumed.played
            &&& resumed.signals == shared.signals
            &&& !resumed.eof && !resumed.end_reported
            &&& resumed.speed == shared.speed && resumed.volume == shared.volume
        }),
{
    reveal_with_fuel(effects, 4);
    let beginning = seq![
        Command::SetPaused { session: plan.session, paused: true },
        Command::RequestDecodeStop { session: plan.session },
    ];
    let resuming = plan.resume_commands();
    assert(beginning.drop_first().first() == beginning[1]);
    assert(resuming.drop_first().first() == resuming[1]);
    assert(resuming.drop_first().drop_first().first() == resuming[2]);
}

/// A seek knows the source in use and its settings, each as it is when it begins, and goes
/// to the position that was asked for, or to the start for one that is not above zero.
pub proof fn a_seek_knows_the_source(
    task: SeekTask,
    runtime: PlayerRuntime,
    was_paused: bool,
    plan: SeekPlan,
)
    requires
        task.planned(runtime, was_paused, plan),
    ensures
        runtime.session matches Some(session) && session.id == plan.session
            && session.decode_thread == plan.decode_thread,
        plan.was_paused == was_paused,
        plan.url == runtime.current_url,
        plan.audio_stream_ordinal == runtime.current_audio_stream_ordinal,
        plan.seq == runtime.current_seq,
        plan.config == runtime.config,
        plan.dsp_settings.speed == runtime.dsp_settings.speed,
        plan.dsp_settings.equalizer@ == runtime.dsp_settings.equalizer@,
        plan.dsp_settings.normalization_gain_db == runtime.dsp_settings.normalization_gain_db,
        plan.dsp_settings.spatial == runtime.dsp_settings.spatial,
        0 < task.position.bits <= 0x7ff0_0000_0000_0000 ==> plan.position == task.position,
        task.position.bits == 0 || task.position.bits > 0x7ff0_0000_0000_0000
            ==> plan.position.bits == 0,
{
}

/// A source that a seek opens anew has the settings of the player when the seek began: it
/// plays at the same speed, with the same gains and the same impulse response, from the
/// position that was sought, and is paused exactly where the session was.
pub proof fn a_reopened_source_has_the_same_settings(
    task: SeekTask,
    runtime: PlayerRuntime,
    was_paused: bool,
    plan: SeekPlan,
    request: SourceRequest,
    sample_rate: u32,
)
    requires
        task.planned(runtime, was_paused, plan),
        plan.reopens(request),
    ensures
        Some(request.url) == runtime.current_url,
        request.audio_stream_ordinal == runtime.current_audio_stream_ordinal,
        request.seq == runtime.current_seq,
        request.start_position == plan.position,
        request.autostart == !was_paused,
        request.config == runtime.config,
        request.dsp_settings.speed == runtime.dsp_settings.speed,
        request.dsp_settings.equalizer@ == runtime.dsp_settings.equalizer@,
        request.dsp_settings.normalization_gain_db == runtime.dsp_settings.normalization_gain_db,
        request.dsp_settings.spatial == runtime.dsp_settings.spatial,
        request.session_state(sample_rate).speed == runtime.dsp_settings.speed,
        request.session_state(sample_rate).paused == was_paused,
{
}

/// Going on with the decoder at hand starts it at the position with the settings of the
/// plan, gives the session its pause back, and tells the host the position, in this order.
pub proof fn a_seek_goes_on_in_order(plan: SeekPlan)
    ensures
        plan.resume_commands().len() == 3,
        plan.resume_commands()[0] == (Command::ResumeDecoding {
            session: plan.session,
            position: plan.position,
            settings: plan.dsp_settings,
        }),
        plan.resume_commands()[1] == (Command::SetPaused {
            session: plan.session,
            paused: plan.was_paused,
        }),
        plan.resume_commands()[2] == Command::Emit(PlayerEvent::TimeUpdate(plan.position)),
{
}

/// A seek that cannot use the decoder stops its own session and no other, and only one
/// that failed for a reason warns the host, of that reason.
pub proof fn a_seek_stops_its_own_session(
    plan: SeekPlan,
    runtime: PlayerRuntime,
    reason: String,
)
    ensures
        match runtime.session {
            Some(session) if session.id == plan.session => {
                &&& plan.released(runtime).session is None
                &&& plan.released(runtime).state.paused && !plan.released(runtime).state.playing
                &&& plan.release_commands(runtime) == seq![Command::StopSession(session)]
            },
            _ => plan.released(runtime) == runtime && plan.release_commands(runtime).len() == 0,
        },
        runtime.same_source(plan.released(runtime)),
        runtime.same_settings(plan.released(runtime)),
        plan.failure_commands(SeekReply::NoDecoder).len() == 0,
        plan.failure_commands(SeekReply::Failed(reason)) == seq![
            Command::Emit(
                PlayerEvent::Log {
                    level: LogLevel::Warn,
                    notice: Notice::SeekReuseFailed(reason),
                },
            ),
        ],
{
}

/// Detaching and attaching the decoding thread changes nothing else of the player.
pub proof fn only_the_decoding_thread_is_detached(runtime: PlayerRuntime)
    ensures
        runtime.same_source(runtime.without_decoder()),
        runtime.same_settings(runtime.without_decoder()),
        runtime.without_decoder().state == runtime.state,
        runtime.same_source(runtime.with_decoder()),
        runtime.same_settings(runtime.with_decoder()),
        runtime.with_decoder().state == runtime.state,
        match runtime.session {
            Some(session) => {
                &&& runtime.without_decoder().session matches Some(without)
                &&& runtime.with_decoder().session matches Some(with)
                &&& !without.decode_thread && with.decode_thread
                &&& without.id == session.id && with.id == session.id
                &&& without.sample_rate == session.sample_rate && with.sample_rate
                    == session.sample_rate
                &&& without.output_thread == session.output_thread && with.output_thread
                    == session.output_thread
                &&& without.position_thread == session.position_thread && with.position_thread
                    == session.position_thread
            },
            None => runtime.without_decoder().session is None
                && runtime.with_decoder().session is None,
        },
{
}

/// A seek begins by pausing the session in use and asking its decoder to stop, in this
/// order; the position of the player stays until the decoder is there. Without a session
/// nothing happens.
pub proof fn a_seek_begins_with_the_session_in_use(
    task: SeekTask,
    before: Player,
    was_paused: bool,
    after: Player,
    before_commands: Seq<Command>,
    after_commands: Seq<Command>,
    result: Result<Option<SeekPlan>, PlayerError>,
)
    requires
        before.runtime is Some,
        task.begun(before, was_paused, after, before_commands, after_commands, result),
    ensures
        result is Ok,
        after.runtime is Some,
        match before.runtime->0.session {
            None => result->Ok_0 is None && after == before && after_commands == before_commands,
            Some(session) => {
                &&& result->Ok_0 matches Some(plan)
                &&& plan.session == session.id
                &&& plan.was_paused == was_paused
                &&& after_commands == before_commands.push(
                    Command::SetPaused { session: session.id, paused: true },
                ).push(Command::RequestDecodeStop { session: session.id })
                &&& after.runtime->0.state == before.runtime->0.state
                &&& after.runtime->0.session matches Some(now) && now.id == session.id
                    && !now.decode_thread && now.output_thread == session.output_thread
                    && now.position_thread == session.position_thread && now.sample_rate
                    == session.sample_rate
                &&& (before.runtime->0).same_source(after.runtime->0)
                &&& (before.runtime->0).same_settings(after.runtime->0)
            },
        },
{
    assert(result->Ok_0 matches Some(plan) ==> after_commands =~= before_commands.push(
        Command::SetPaused { session: plan.session, paused: true },
    ).push(Command::RequestDecodeStop { session: plan.session }));
}

/// A seek whose decoder is at the position goes on with its own session alone: another
/// session, or none, is left as it is. The player then is at the position, with the
/// decoding thread attached, and plays or is paused as before.
pub proof fn a_seek_goes_on_with_its_own_session(
    plan: SeekPlan,
    before: Player,
    after: Player,
    before_commands: Seq<Command>,
    after_commands: Seq<Command>,
    result: Result<Option<SourceRequest>, PlayerError>,
)
    requires
        before.runtime is Some,
        plan.finished(
            before,
            SeekReply::Sought,
            after,
            before_commands,
            after_commands,
            result,
        ),
    ensures
        result matches Ok(None),
        after.runtime is Some,
        match before.runtime->0.session {
            Some(session) if session.id == plan.session => {
                let now = after.runtime->0;
                &&& now.state.time_pos == plan.position
                &&& now.state.playing == before.runtime->0.state.playing
                &&& now.state.paused == before.runtime->0.state.paused
                &&& now.state.duration == before.runtime->0.state.duration
                &&& now.session matches Some(current) && current.id == session.id
                    && current.decode_thread && current.output_thread == session.output_thread
                    && current.sample_rate == session.sample_rate
                &&& (before.runtime->0).same_source(now)
                &&& (before.runtime->0).same_settings(now)
                &&& after_commands.len() == before_commands.len() + 3
            },
            _ => after == before && after_commands == before_commands,
        },
{
}

/// A seek that cannot use the decoder opens its own source anew where it has one: at the
/// position, playing exactly where the session was not paused, with the settings it began
/// with. Its own session is stopped, another one is left as it is.
pub proof fn a_seek_without_a_decoder_opens_the_source(
    plan: SeekPlan,
    before: Player,
    reply: SeekReply,
    after: Player,
    before_commands: Seq<Command>,
    after_commands: Seq<Command>,
    result: Result<Option<SourceRequest>, PlayerError>,
)
    requires
        before.runtime is Some,
        !(reply is Sought),
        plan.finished(before, reply, after, before_commands, after_commands, result),
    ensures
        result is Ok,
        after.runtime is Some,
        result->Ok_0 is Some == plan.url is Some,
        plan.url is None ==> after == before,
        result->Ok_0 matches Some(request) ==> {
            &&& plan.url == Some(request.url)
            &&& request.audio_stream_ordinal == plan.audio_stream_ordinal
            &&& request.seq == plan.seq
            &&& request.start_position == plan.position
            &&& request.autostart == !plan.was_paused
            &&& request.config == plan.config
            &&& request.dsp_settings == plan.dsp_settings
            &&& match before.runtime->0.session {
                Some(session) if session.id == plan.session => {
                    &&& after.runtime->0.session is None
                    &&& after_commands.last() == Command::StopSession(session)
                },
                _ => after == before,
            }
            &&& (before.runtime->0).same_source(after.runtime->0)
            &&& (before.runtime->0).same_settings(after.runtime->0)
        },
{
}

} // verus!
