//! Convolution with an impulse response.

use vstd::prelude::*;

use crate::events::{LogLevel, Notice, PlayerError, PlayerEvent};
use crate::float_bits::{narrowing_keeps_singles, narrowing_keeps_zero, Double, Single};
use crate::json::{json_contents, member, number, JsonContents};
use crate::player::{Command, Player, PlayerRuntime};
use crate::settings::{clamp_spatial_mix, spatial_mix, DspSettings, PreparedSpatialEffect, ONE};
use crate::text::trimmed;

verus! {

/// What a request for an impulse response holds.
pub enum SpatialPayload {
    Null,
    Path(String),
    Object { file_path: Option<String>, mix: Option<Double> },
    Other,
}

/// An impulse response that is asked for.
pub struct SpatialRequest {
    pub file_path: String,
    pub mix: Single,
}

/// A [`SpatialPayload`] by its contents.
pub enum PayloadView {
    Null,
    Path(Seq<char>),
    Object { file_path: Option<Seq<char>>, mix: Option<Double> },
    Other,
}

/// The text of a JSON string.
pub open spec fn json_text(contents: JsonContents) -> Option<Seq<char>> {
    match contents {
        JsonContents::Text(text) => Some(text),
        _ => None,
    }
}

/// The double for a JSON number.
pub open spec fn json_number(contents: JsonContents) -> Option<Double> {
    match contents {
        JsonContents::Number(double) => double,
        _ => None,
    }
}

/// What a JSON value asks for: nothing, a path, or an object with a path and a mix.
/// A path that is no text and a mix that is no number count as missing.
pub open spec fn payload_of(contents: JsonContents) -> PayloadView {
    match contents {
        JsonContents::Null => PayloadView::Null,
        JsonContents::Text(text) => PayloadView::Path(text),
        JsonContents::Object(members) => PayloadView::Object {
            file_path: if members.dom().contains("filePath"@) {
                json_text(json_contents(members["filePath"@]))
            } else {
                None
            },
            mix: if members.dom().contains("mix"@) {
                json_number(json_contents(members["mix"@]))
            } else {
                None
            },
        },
        _ => PayloadView::Other,
    }
}

impl View for SpatialPayload {
    type V = PayloadView;

    open spec fn view(&self) -> PayloadView {
        match self {
            SpatialPayload::Null => PayloadView::Null,
            SpatialPayload::Path(path) => PayloadView::Path(path@),
            SpatialPayload::Object { file_path, mix } => PayloadView::Object {
                file_path: match file_path {
                    Some(path) => Some(path@),
                    None => None,
                },
                mix: *mix,
            },
            SpatialPayload::Other => PayloadView::Other,
        }
    }
}

impl PayloadView {
    /// The path, without white space at its ends.
    pub open spec fn path(self) -> Seq<char> {
        match self {
            PayloadView::Path(path) => trimmed(path),
            PayloadView::Object { file_path: Some(path), .. } => trimmed(path),
            _ => Seq::empty(),
        }
    }

    /// The mix: from nothing to all, and the default where none is given.
    pub open spec fn mix(self, default_mix: Single) -> Single {
        match self {
            PayloadView::Object { mix: Some(mix), .. } => mix.clamped(
                Double { bits: 0 },
                Double { bits: ONE },
            ).narrowed(),
            PayloadView::Object { mix: None, .. } => spatial_mix(default_mix),
            _ => default_mix,
        }
    }
}

/// Reads a request from a JSON value.
pub fn read_payload(payload: &serde_json::Value) -> (result: SpatialPayload)
    ensures
        result@ == payload_of(json_contents(*payload)),
{
    if payload.is_null() {
        return SpatialPayload::Null;
    }
    match payload.as_str() {
        Some(path) => {
            return SpatialPayload::Path(path.to_string());
        },
        None => {},
    }
    match payload.as_object() {
        Some(object) => {
            let file_path: Option<String> = match member(object, "filePath") {
                Some(value) => match value.as_str() {
                    Some(path) => Some(path.to_string()),
                    None => None,
                },
                None => None,
            };
            let mix: Option<Double> = match member(object, "mix") {
                Some(value) => number(value),
                None => None,
            };
            SpatialPayload::Object { file_path, mix }
        },
        None => SpatialPayload::Other,
    }
}

/// What a request asks for: an impulse response, or none where it names no path.
/// Only nothing, a text and an object are requests.
pub fn spatial_request(payload: SpatialPayload, default_mix: Single) -> (result: Result<
    Option<SpatialRequest>,
    PlayerError,
>)
    ensures
        match result {
            Err(error) => error == PlayerError::InvalidPayload && payload@ is Other,
            Ok(None) => !(payload@ is Other) && payload@.path().len() == 0,
            Ok(Some(request)) => {
                &&& !(payload@ is Other)
                &&& payload@.path().len() > 0
                &&& request.file_path@ == payload@.path()
                &&& request.mix == payload@.mix(default_mix)
            },
        },
{
    match payload {
        SpatialPayload::Null => Ok(None),
        SpatialPayload::Path(path) => {
            let path: &str = path.as_str().trim();
            if path.is_empty() {
                Ok(None)
            } else {
                Ok(Some(SpatialRequest { file_path: path.to_string(), mix: default_mix }))
            }
        },
        SpatialPayload::Object { file_path, mix } => {
            let path: String = match file_path {
                Some(path) => path.as_str().trim().to_string(),
                None => String::new(),
            };
            if path.as_str().is_empty() {
                return Ok(None);
            }
            let mix: Single = match mix {
                Some(mix) => mix.clamp(Double { bits: 0 }, Double { bits: ONE }).to_single(),
                None => clamp_spatial_mix(default_mix),
            };
            Ok(Some(SpatialRequest { file_path: path, mix }))
        },
        SpatialPayload::Other => Err(PlayerError::InvalidPayload),
    }
}

/// What a JSON value asks for.
pub fn parse_impulse_response_payload(payload: &serde_json::Value, default_mix: Single) -> (result:
    Result<Option<SpatialRequest>, PlayerError>)
    ensures
        ({
            let asked = payload_of(json_contents(*payload));
            match result {
                Err(error) => error == PlayerError::InvalidPayload && asked is Other,
                Ok(None) => !(asked is Other) && asked.path().len() == 0,
                Ok(Some(request)) => {
                    &&& !(asked is Other)
                    &&& asked.path().len() > 0
                    &&& request.file_path@ == asked.path()
                    &&& request.mix == asked.mix(default_mix)
                },
            }
        }),
{
    spatial_request(read_payload(payload), default_mix)
}

impl PlayerRuntime {
    /// With those settings.
    pub open spec fn with_settings(self, dsp_settings: DspSettings) -> PlayerRuntime {
        PlayerRuntime { dsp_settings, ..self }
    }

    /// What brings the effects of the session up to the settings.
    pub open spec fn effects_commands(self) -> Seq<Command> {
        match self.session {
            Some(session) => seq![Command::UpdateEffects { session: session.id }],
            None => Seq::empty(),
        }
    }

    /// The number of the next request for an impulse response.
    pub open spec fn next_spatial_seq(self) -> u64 {
        if self.spatial_request_seq == u64::MAX {
            0
        } else {
            (self.spatial_request_seq + 1) as u64
        }
    }

    /// Without an impulse response.
    pub open spec fn without_spatial(self) -> PlayerRuntime {
        PlayerRuntime {
            spatial_request_seq: self.next_spatial_seq(),
            dsp_settings: DspSettings { spatial: None, ..self.dsp_settings },
            ..self
        }
    }

    /// With that share of the processed signal.
    pub open spec fn with_spatial_mix(self, mix: Single) -> PlayerRuntime {
        PlayerRuntime {
            spatial_mix: spatial_mix(mix),
            dsp_settings: DspSettings {
                spatial: match self.dsp_settings.spatial {
                    Some(spatial) => Some(
                        PreparedSpatialEffect { mix: spatial_mix(mix), ..spatial },
                    ),
                    None => None,
                },
                ..self.dsp_settings
            },
            ..self
        }
    }

    /// What tells the session the share of the processed signal.
    pub open spec fn mix_commands(self, mix: Single) -> Seq<Command> {
        match self.session {
            Some(session) => seq![
                Command::SetSpatialMix { session: session.id, mix: spatial_mix(mix) },
            ],
            None => Seq::empty(),
        }
    }

    /// The sample rate that an impulse response is needed for: that of the session,
    /// else that of the device.
    pub open spec fn spatial_rate(self, device_rate: u32) -> u32 {
        match self.session {
            Some(session) => session.sample_rate,
            None => device_rate,
        }
    }

    /// The impulse response in use is the one that is asked for.
    pub open spec fn has_response(self, file_path: Seq<char>, sample_rate: u32) -> bool {
        self.dsp_settings.spatial matches Some(spatial) && spatial.file_path@ == file_path
            && spatial.sample_rate == sample_rate
    }

    /// The other player differs in its impulse response and the requests for it at most.
    pub open spec fn same_but_for_the_effect(self, other: PlayerRuntime) -> bool {
        &&& other.dsp_settings.speed == self.dsp_settings.speed
        &&& other.dsp_settings.equalizer == self.dsp_settings.equalizer
        &&& other.dsp_settings.normalization_gain_db == self.dsp_settings.normalization_gain_db
        &&& other.config == self.config
        &&& other.session == self.session
        &&& other.state == self.state
        &&& other.loop_file == self.loop_file
        &&& other.audio_filter == self.audio_filter
        &&& other.spectrum_signal_logged == self.spectrum_signal_logged
        &&& other.default_spatial_mix == self.default_spatial_mix
        &&& self.same_source(other)
    }

    /// A request for that share of the processed signal has come.
    pub open spec fn spatial_requested(self, mix: Single) -> PlayerRuntime {
        PlayerRuntime {
            spatial_request_seq: self.next_spatial_seq(),
            spatial_mix: spatial_mix(mix),
            ..self
        }
    }

    /// With a prepared impulse response, at the share that was last asked for.
    pub open spec fn with_response(self, effect: PreparedSpatialEffect) -> PlayerRuntime {
        PlayerRuntime {
            dsp_settings: DspSettings {
                spatial: Some(PreparedSpatialEffect { mix: self.spatial_mix, ..effect }),
                ..self.dsp_settings
            },
            ..self
        }
    }
}

/// Tells the session, if there is one, to take up the settings.
pub(crate) fn update_effects(runtime: &PlayerRuntime, commands: &mut Vec<Command>)
    ensures
        final(commands)@ == old(commands)@ + runtime.effects_commands(),
{
    let ghost before = commands@;
    match runtime.session {
        Some(session) => {
            commands.push(Command::UpdateEffects { session: session.id });
        },
        None => {},
    }
    assert(commands@ =~= before + runtime.effects_commands());
}

/// Puts a prepared impulse response to use.
pub fn apply_prepared_spatial_effect(
    runtime: &mut PlayerRuntime,
    spatial: PreparedSpatialEffect,
    commands: &mut Vec<Command>,
)
    ensures
        *final(runtime) == old(runtime).with_settings(
            DspSettings { spatial: Some(spatial), ..old(runtime).dsp_settings },
        ),
        final(commands)@ == old(commands)@ + old(runtime).effects_commands(),
{
    runtime.dsp_settings.spatial = Some(spatial);
    update_effects(runtime, commands);
}

/// Sets the share of the processed signal, from nothing to all.
pub fn update_spatial_mix(runtime: &mut PlayerRuntime, mix: Single, commands: &mut Vec<Command>)
    ensures
        *final(runtime) == old(runtime).with_spatial_mix(mix),
        final(commands)@ == old(commands)@ + old(runtime).mix_commands(mix),
{
    let ghost before = commands@;
    let mix: Single = clamp_spatial_mix(mix);
    runtime.spatial_mix = mix;
    match &mut runtime.dsp_settings.spatial {
        Some(spatial) => {
            spatial.mix = mix;
        },
        None => {},
    }
    match runtime.session {
        Some(session) => {
            commands.push(Command::SetSpatialMix { session: session.id, mix });
        },
        None => {},
    }
    assert(commands@ =~= before + old(runtime).mix_commands(mix));
}

/// A request for an impulse response.
pub struct SetImpulseResponseTask {
    pub payload: serde_json::Value,
}

/// A request for an impulse response.
pub fn set_impulse_response(payload: serde_json::Value) -> (result: SetImpulseResponseTask)
    ensures
        result.payload == payload,
{
    SetImpulseResponseTask { payload }
}

/// An impulse response to be prepared.
pub struct SpatialPreparation {
    pub file_path: String,
    pub mix: Single,
    pub sample_rate: u32,
    /// The number of the request.
    pub request_seq: u64,
}

impl SetImpulseResponseTask {
    /// Reads the request and takes it, as [`begin_impulse_response`] does.
    pub fn compute(
        &self,
        player: &mut Player,
        device_rate: u32,
        commands: &mut Vec<Command>,
    ) -> (result: Result<Option<SpatialPreparation>, PlayerError>)
        ensures
            old(player).wf() ==> final(player).wf(),
            ({
                let asked = payload_of(json_contents(self.payload));
                if asked is Other {
                    &&& result == Err::<Option<SpatialPreparation>, PlayerError>(
                        PlayerError::InvalidPayload,
                    )
                    &&& *final(player) == *old(player)
                    &&& final(commands)@ == old(commands)@
                } else {
                    impulse_response_begun(
                        *old(player),
                        if asked.path().len() == 0 {
                            None
                        } else {
                            Some(
                                (asked.path(), asked.mix(old(player).runtime->0.default_spatial_mix)),
                            )
                        },
                        device_rate,
                        *final(player),
                        old(commands)@,
                        final(commands)@,
                        result,
                    )
                }
            }),
    {
        let default_mix: Single = match &player.runtime {
            Some(runtime) => runtime.default_spatial_mix,
            None => Single { bits: 0 },
        };
        match parse_impulse_response_payload(&self.payload, default_mix) {
            Err(error) => Err(error),
            Ok(request) => begin_impulse_response(player, request, device_rate, commands),
        }
    }
}

/// What becomes of a request for an impulse response at that path with that share,
/// or for none: where the response in use is the one that is asked for, only its
/// share is set; else it is to be prepared.
pub open spec fn impulse_response_begun(
    before: Player,
    asked: Option<(Seq<char>, Single)>,
    device_rate: u32,
    after: Player,
    before_commands: Seq<Command>,
    after_commands: Seq<Command>,
    result: Result<Option<SpatialPreparation>, PlayerError>,
) -> bool {
    match before.runtime {
        None => {
            &&& result == Err::<Option<SpatialPreparation>, PlayerError>(
                PlayerError::NotInitialized,
            )
            &&& after == before
            &&& after_commands == before_commands
        },
        Some(runtime) => match asked {
            None => {
                &&& result matches Ok(None)
                &&& after.runtime == Some(runtime.without_spatial())
                &&& after_commands == before_commands + runtime.effects_commands() + seq![
                    Command::Emit(
                        PlayerEvent::Log {
                            level: LogLevel::Info,
                            notice: Notice::ImpulseResponseDisabled,
                        },
                    ),
                ]
            },
            Some((path, mix)) => {
                let sample_rate = runtime.spatial_rate(device_rate);
                let requested = runtime.spatial_requested(mix);
                if runtime.has_response(path, sample_rate) {
                    &&& result matches Ok(None)
                    &&& after.runtime == Some(requested.with_spatial_mix(mix))
                    &&& after_commands == before_commands + runtime.mix_commands(mix)
                } else {
                    &&& result matches Ok(Some(preparation)) && preparation.file_path@ == path
                        && preparation.mix == mix && preparation.sample_rate == sample_rate
                        && preparation.request_seq == runtime.next_spatial_seq()
                    &&& after.runtime == Some(requested)
                    &&& after_commands == before_commands
                }
            },
        },
    }
}

/// Takes a request for an impulse response, or for none; see
/// [`impulse_response_begun`]. The result says what to prepare. Without a session,
/// `device_rate` is the sample rate of the output device.
pub fn begin_impulse_response(
    player: &mut Player,
    request: Option<SpatialRequest>,
    device_rate: u32,
    commands: &mut Vec<Command>,
) -> (result: Result<Option<SpatialPreparation>, PlayerError>)
    ensures
        old(player).wf() ==> final(player).wf(),
        impulse_response_begun(
            *old(player),
            match request {
                Some(request) => Some((request.file_path@, request.mix)),
                None => None,
            },
            device_rate,
            *final(player),
            old(commands)@,
            final(commands)@,
            result,
        ),
{
    let ghost before = commands@;
    let ghost runtime_before = player.runtime->0;
    match &mut player.runtime {
        None => Err(PlayerError::NotInitialized),
        Some(runtime) => {
            runtime.spatial_request_seq = runtime.spatial_request_seq.wrapping_add(1);
            let request: SpatialRequest = match request {
                Some(request) => request,
                None => {
                    runtime.dsp_settings.spatial = None;
                    update_effects(runtime, commands);
                    commands.push(
                        Command::Emit(
                            PlayerEvent::Log {
                                level: LogLevel::Info,
                                notice: Notice::ImpulseResponseDisabled,
                            },
                        ),
                    );
                    assert(commands@ =~= before + runtime_before.effects_commands() + seq![
                        Command::Emit(
                            PlayerEvent::Log {
                                level: LogLevel::Info,
                                notice: Notice::ImpulseResponseDisabled,
                            },
                        ),
                    ]);
                    return Ok(None);
                },
            };
            runtime.spatial_mix = clamp_spatial_mix(request.mix);
            let sample_rate: u32 = match runtime.session {
                Some(session) => session.sample_rate,
                None => device_rate,
            };
            let reusable: bool = match &runtime.dsp_settings.spatial {
                Some(spatial) => spatial.file_path == request.file_path && spatial.sample_rate
                    == sample_rate,
                None => false,
            };
            if reusable {
                update_spatial_mix(runtime, request.mix, commands);
                return Ok(None);
            }
            Ok(
                Some(
                    SpatialPreparation {
                        file_path: request.file_path,
                        mix: request.mix,
                        sample_rate,
                        request_seq: runtime.spatial_request_seq,
                    },
                ),
            )
        },
    }
}

/// What becomes of an impulse response that was prepared for the request of that number,
/// or of why it could not be: where the request is still the last one, it is put to use at
/// the share that was last asked for.
pub open spec fn impulse_response_finished(
    before: Player,
    request_seq: u64,
    prepared: Result<PreparedSpatialEffect, String>,
    after: Player,
    before_commands: Seq<Command>,
    after_commands: Seq<Command>,
    result: Result<(), PlayerError>,
) -> bool {
    match prepared {
        Err(reason) => {
            &&& result == Err::<(), PlayerError>(PlayerError::Outside(reason))
            &&& after == before
            &&& after_commands == before_commands.push(
                Command::Emit(PlayerEvent::ImpulseResponseFailed(reason)),
            )
        },
        Ok(effect) => match before.runtime {
            None => {
                &&& result == Err::<(), PlayerError>(PlayerError::NotInitialized)
                &&& after == before
                &&& after_commands == before_commands
            },
            Some(runtime) => if runtime.spatial_request_seq != request_seq {
                &&& result is Ok
                &&& after == before
                &&& after_commands == before_commands.push(
                    Command::Emit(
                        PlayerEvent::Log {
                            level: LogLevel::Debug,
                            notice: Notice::StaleImpulseResponse,
                        },
                    ),
                )
            } else {
                &&& result is Ok
                &&& after.runtime == Some(runtime.with_response(effect))
                &&& after_commands == before_commands + runtime.effects_commands() + seq![
                    Command::Emit(
                        PlayerEvent::ImpulseResponseEnabled {
                            path: effect.file_path,
                            mix: runtime.spatial_mix,
                        },
                    ),
                ]
            },
        },
    }
}

/// Takes an impulse response that was prepared for the request of that number, or
/// why it could not be. One whose request is not the last one is ignored.
pub fn finish_impulse_response(
    player: &mut Player,
    request_seq: u64,
    prepared: Result<PreparedSpatialEffect, String>,
    commands: &mut Vec<Command>,
) -> (result: Result<(), PlayerError>)
    ensures
        old(player).wf() ==> final(player).wf(),
        impulse_response_finished(
            *old(player),
            request_seq,
            prepared,
            *final(player),
            old(commands)@,
            final(commands)@,
            result,
        ),
{
    let ghost before = commands@;
    let ghost runtime_before = player.runtime->0;
    let effect: PreparedSpatialEffect = match prepared {
        Err(reason) => {
            commands.push(Command::Emit(PlayerEvent::ImpulseResponseFailed(reason.clone())));
            return Err(PlayerError::Outside(reason));
        },
        Ok(effect) => effect,
    };
    match &mut player.runtime {
        None => Err(PlayerError::NotInitialized),
        Some(runtime) => {
            if runtime.spatial_request_seq != request_seq {
                commands.push(
                    Command::Emit(
                        PlayerEvent::Log {
                            level: LogLevel::Debug,
                            notice: Notice::StaleImpulseResponse,
                        },
                    ),
                );
                return Ok(());
            }
            let mut spatial: PreparedSpatialEffect = effect;
            spatial.mix = runtime.spatial_mix;
            let path: String = spatial.file_path.clone();
            let mix: Single = spatial.mix;
            apply_prepared_spatial_effect(runtime, spatial, commands);
            commands.push(Command::Emit(PlayerEvent::ImpulseResponseEnabled { path, mix }));
            assert(commands@ =~= before + runtime_before.effects_commands() + seq![
                Command::Emit(PlayerEvent::ImpulseResponseEnabled { path, mix }),
            ]);
            Ok(())
        },
    }
}

/// What becomes of a request for a share of the processed signal.
pub open spec fn mix_set(
    mix: Double,
    before: Player,
    after: Player,
    before_commands: Seq<Command>,
    after_commands: Seq<Command>,
    result: Result<(), PlayerError>,
) -> bool {
    match before.runtime {
        None => result == Err::<(), PlayerError>(PlayerError::NotInitialized),
        Some(runtime) => {
            &&& result is Ok
            &&& after.runtime == Some(runtime.with_spatial_mix(mix.narrowed()))
            &&& after_commands == before_commands + runtime.mix_commands(mix.narrowed())
        },
    }
}

/// Sets the share of the processed signal.
pub fn set_impulse_response_mix(
    player: &mut Player,
    mix: Double,
    commands: &mut Vec<Command>,
) -> (result: Result<(), PlayerError>)
    ensures
        old(player).wf() ==> final(player).wf(),
        old(player).refuses(*final(player), old(commands)@, final(commands)@),
        mix_set(mix, *old(player), *final(player), old(commands)@, final(commands)@, result),
{
    match &mut player.runtime {
        None => Err(PlayerError::NotInitialized),
        Some(runtime) => {
            update_spatial_mix(runtime, mix.to_single(), commands);
            Ok(())
        },
    }
}

/// The player after further requests: each for a response at a share, or for none.
pub open spec fn after_requests(
    runtime: PlayerRuntime,
    requests: Seq<Option<Single>>,
) -> PlayerRuntime
    decreases requests.len(),
{
    if requests.len() == 0 {
        runtime
    } else {
        let before = after_requests(runtime, requests.drop_last());
        match requests.last() {
            Some(mix) => before.spatial_requested(mix),
            None => before.without_spatial(),
        }
    }
}

/// Only the last request counts: once others have come, a response that was prepared
/// for an earlier one is ignored, whatever they ask for. (After two to the power of 64
/// others the numbers of requests come round.)
pub proof fn only_the_last_request_counts(
    runtime: PlayerRuntime,
    requests: Seq<Option<Single>>,
)
    requires
        0 < requests.len() <= u64::MAX,
    ensures
        after_requests(runtime, requests).spatial_request_seq != runtime.spatial_request_seq,
{
    requests_are_counted(runtime, requests);
}

/// The number of a request goes up by one with each, and comes round.
proof fn requests_are_counted(runtime: PlayerRuntime, requests: Seq<Option<Single>>)
    ensures
        after_requests(runtime, requests).spatial_request_seq == (runtime.spatial_request_seq
            + requests.len()) % 0x1_0000_0000_0000_0000,
    decreases requests.len(),
{
    if requests.len() > 0 {
        requests_are_counted(runtime, requests.drop_last());
    }
}

/// The share that was last set is the one at which a response is put to use, also
/// where it was set while the response was prepared.
pub proof fn last_mix_is_used(
    runtime: PlayerRuntime,
    mix: Single,
    effect: PreparedSpatialEffect,
)
    ensures
        runtime.with_spatial_mix(mix).with_response(effect).dsp_settings.spatial == Some(
            PreparedSpatialEffect { mix: spatial_mix(mix), ..effect },
        ),
        runtime.with_spatial_mix(mix).spatial_request_seq == runtime.spatial_request_seq,
{
}

/// A request for a path is answered without a preparation only where the response in use
/// afterwards is the one that was asked for: read from that path, for the sample rate of
/// the session, or of the device where there is none, and at the share that was asked for.
pub proof fn a_request_gets_the_response_it_asks_for(
    before: Player,
    path: Seq<char>,
    mix: Single,
    device_rate: u32,
    after: Player,
    before_commands: Seq<Command>,
    after_commands: Seq<Command>,
    result: Result<Option<SpatialPreparation>, PlayerError>,
)
    requires
        before.runtime is Some,
        impulse_response_begun(
            before,
            Some((path, mix)),
            device_rate,
            after,
            before_commands,
            after_commands,
            result,
        ),
    ensures
        result is Ok,
        after.runtime is Some,
        result matches Ok(None) ==> {
            &&& after.runtime->0.dsp_settings.spatial matches Some(spatial)
            &&& spatial.file_path@ == path
            &&& spatial.sample_rate == match before.runtime->0.session {
                Some(session) => session.sample_rate,
                None => device_rate,
            }
            &&& spatial.mix == spatial_mix(mix)
            &&& before.runtime->0.dsp_settings.spatial matches Some(used)
            &&& spatial.response == used.response
        },
        result matches Ok(Some(preparation)) ==> {
            &&& preparation.file_path@ == path
            &&& preparation.mix == mix
            &&& preparation.sample_rate == match before.runtime->0.session {
                Some(session) => session.sample_rate,
                None => device_rate,
            }
            &&& preparation.request_seq == after.runtime->0.spatial_request_seq
            &&& after.runtime->0.dsp_settings == before.runtime->0.dsp_settings
            &&& after_commands == before_commands
        },
{
}

/// A request for a path other than that of the response in use, or for another sample
/// rate, or where none is in use, always has the response at that path prepared.
pub proof fn another_response_is_prepared(
    before: Player,
    path: Seq<char>,
    mix: Single,
    device_rate: u32,
    after: Player,
    before_commands: Seq<Command>,
    after_commands: Seq<Command>,
    result: Result<Option<SpatialPreparation>, PlayerError>,
)
    requires
        before.runtime is Some,
        match before.runtime->0.dsp_settings.spatial {
            None => true,
            Some(spatial) => spatial.file_path@ != path || spatial.sample_rate
                != match before.runtime->0.session {
                Some(session) => session.sample_rate,
                None => device_rate,
            },
        },
        impulse_response_begun(
            before,
            Some((path, mix)),
            device_rate,
            after,
            before_commands,
            after_commands,
            result,
        ),
    ensures
        result matches Ok(Some(preparation)) && preparation.file_path@ == path && preparation.mix
            == mix,
{
}

/// A request for the response in use has nothing prepared: its share is set, and the
/// session is told of it.
pub proof fn the_response_in_use_is_kept(
    before: Player,
    spatial: PreparedSpatialEffect,
    mix: Single,
    device_rate: u32,
    after: Player,
    before_commands: Seq<Command>,
    after_commands: Seq<Command>,
    result: Result<Option<SpatialPreparation>, PlayerError>,
)
    requires
        before.runtime is Some,
        before.runtime->0.dsp_settings.spatial == Some(spatial),
        spatial.sample_rate == match before.runtime->0.session {
            Some(session) => session.sample_rate,
            None => device_rate,
        },
        impulse_response_begun(
            before,
            Some((spatial.file_path@, mix)),
            device_rate,
            after,
            before_commands,
            after_commands,
            result,
        ),
    ensures
        result matches Ok(None),
        after.runtime is Some,
        after.runtime->0.spatial_mix == spatial_mix(mix),
        before.runtime->0.session matches Some(session) ==> after_commands == before_commands.push(
            Command::SetSpatialMix { session: session.id, mix: spatial_mix(mix) },
        ),
        before.runtime->0.session is None ==> after_commands == before_commands,
{
}

/// A request for none leaves no response in use and has nothing prepared, and the session
/// and the host hear of it.
pub proof fn a_request_for_none_ends_the_effect(
    before: Player,
    device_rate: u32,
    after: Player,
    before_commands: Seq<Command>,
    after_commands: Seq<Command>,
    result: Result<Option<SpatialPreparation>, PlayerError>,
)
    requires
        before.runtime is Some,
        impulse_response_begun(
            before,
            None,
            device_rate,
            after,
            before_commands,
            after_commands,
            result,
        ),
    ensures
        result matches Ok(None),
        after.runtime is Some,
        after.runtime->0.dsp_settings.spatial is None,
        after.runtime->0.dsp_settings.speed == before.runtime->0.dsp_settings.speed,
        after.runtime->0.dsp_settings.equalizer == before.runtime->0.dsp_settings.equalizer,
        after.runtime->0.dsp_settings.normalization_gain_db
            == before.runtime->0.dsp_settings.normalization_gain_db,
        after_commands.len() == before_commands.len() + if before.runtime->0.session is Some {
            2int
        } else {
            1int
        },
        after_commands.last() == Command::Emit(
            PlayerEvent::Log { level: LogLevel::Info, notice: Notice::ImpulseResponseDisabled },
        ),
        before.runtime->0.session matches Some(session)
            ==> after_commands[before_commands.len() as int] == (Command::UpdateEffects {
            session: session.id,
        }),
{
}

/// Requests, shares and prepared responses change the effect alone: the other settings,
/// the source and the session stay.
pub proof fn the_effect_leaves_the_rest_alone(
    runtime: PlayerRuntime,
    mix: Single,
    effect: PreparedSpatialEffect,
)
    ensures
        runtime.same_but_for_the_effect(runtime.without_spatial()),
        runtime.same_but_for_the_effect(runtime.with_spatial_mix(mix)),
        runtime.same_but_for_the_effect(runtime.spatial_requested(mix)),
        runtime.same_but_for_the_effect(runtime.with_response(effect)),
        runtime.without_spatial().dsp_settings.spatial is None,
        runtime.spatial_requested(mix).dsp_settings == runtime.dsp_settings,
        runtime.spatial_requested(mix).spatial_mix == spatial_mix(mix),
        runtime.with_spatial_mix(mix).spatial_mix == spatial_mix(mix),
        match runtime.dsp_settings.spatial {
            Some(used) => runtime.with_spatial_mix(mix).dsp_settings.spatial matches Some(now)
                && now.mix == spatial_mix(mix) && now.file_path == used.file_path
                && now.sample_rate == used.sample_rate && now.response == used.response,
            None => runtime.with_spatial_mix(mix).dsp_settings.spatial is None,
        },
        runtime.with_response(effect).dsp_settings.spatial matches Some(now) && now.file_path
            == effect.file_path && now.sample_rate == effect.sample_rate && now.response
            == effect.response && now.mix == runtime.spatial_mix,
        runtime.with_response(effect).spatial_request_seq == runtime.spatial_request_seq,
{
}

/// The session in use is told of its effects and of the share, and none where there is
/// none.
pub proof fn the_session_is_told_of_the_effect(runtime: PlayerRuntime, mix: Single)
    ensures
        match runtime.session {
            Some(session) => {
                &&& runtime.effects_commands() == seq![
                    Command::UpdateEffects { session: session.id },
                ]
                &&& runtime.mix_commands(mix) == seq![
                    Command::SetSpatialMix { session: session.id, mix: spatial_mix(mix) },
                ]
            },
            None => {
                &&& runtime.effects_commands().len() == 0
                &&& runtime.mix_commands(mix).len() == 0
            },
        },
{
}

/// A share that is given is taken as it is where it is between nothing and all, and as
/// the nearer of these where it is not; where none is given it is the default one.
pub proof fn the_share_asked_for_is_taken(path: Option<Seq<char>>, mix: Double, default_mix: Single)
    ensures
        ({
            let taken = (PayloadView::Object { file_path: path, mix: Some(mix) }).mix(default_mix);
            &&& mix.bits <= 0x3ff0_0000_0000_0000 ==> taken == mix.narrowed()
            &&& mix.negative() && 0 < mix.magnitude() <= 0x7ff0_0000_0000_0000 ==> taken.bits == 0
            &&& 0x3ff0_0000_0000_0000 < mix.bits <= 0x7ff0_0000_0000_0000 ==> taken.bits
                == 0x3f80_0000
        }),
        default_mix.bits <= 0x3f80_0000 ==> (PayloadView::Object {
            file_path: path,
            mix: None,
        }).mix(default_mix) == default_mix,
        path matches Some(text) ==> PayloadView::Path(text).mix(default_mix) == default_mix,
{
    narrowing_keeps_zero(Double { bits: 0 });
    narrowing_keeps_singles(127, 0, false);
}

/// The path is the one that was given, without white space at its ends, whether it comes
/// by itself or with a share; without one there is none.
pub proof fn the_path_asked_for_is_taken(text: Seq<char>, mix: Option<Double>)
    ensures
        PayloadView::Path(text).path() == trimmed(text),
        (PayloadView::Object { file_path: Some(text), mix }).path() == trimmed(text),
        (PayloadView::Object { file_path: None, mix }).path().len() == 0,
        PayloadView::Null.path().len() == 0,
{
}

/// Nothing, a text and an object are requests, and nothing else is; an object is read by
/// its members of these names, where they are of the right kind.
pub proof fn requests_are_read_from_json(contents: JsonContents)
    ensures
        payload_of(contents) is Other <==> contents is Number || contents is Other,
        payload_of(contents) is Null <==> contents is Null,
        contents matches JsonContents::Text(text) ==> payload_of(contents) == PayloadView::Path(
            text,
        ),
        contents matches JsonContents::Object(members) ==> {
            &&& payload_of(contents) matches PayloadView::Object { file_path, mix }
            &&& !members.dom().contains("filePath"@) ==> file_path is None
            &&& !members.dom().contains("mix"@) ==> mix is None
            &&& members.dom().contains("filePath"@) ==> match json_contents(members["filePath"@]) {
                JsonContents::Text(text) => file_path == Some(text),
                _ => file_path is None,
            }
            &&& members.dom().contains("mix"@) ==> match json_contents(members["mix"@]) {
                JsonContents::Number(double) => mix == double,
                _ => mix is None,
            }
        },
{
}

/// A response that was prepared for the last request is put to use as it was prepared, at
/// the share that was last asked for; the session and the host hear of it.
pub proof fn the_response_to_the_last_request_is_used(
    before: Player,
    request_seq: u64,
    effect: PreparedSpatialEffect,
    after: Player,
    before_commands: Seq<Command>,
    after_commands: Seq<Command>,
    result: Result<(), PlayerError>,
)
    requires
        before.runtime matches Some(runtime) && runtime.spatial_request_seq == request_seq,
        impulse_response_finished(
            before,
            request_seq,
            Ok(effect),
            after,
            before_commands,
            after_commands,
            result,
        ),
    ensures
        result is Ok,
        after.runtime is Some,
        ({
            let runtime = before.runtime->0;
            &&& after.runtime->0.dsp_settings.spatial matches Some(used)
            &&& used.file_path == effect.file_path
            &&& used.sample_rate == effect.sample_rate
            &&& used.response == effect.response
            &&& used.mix == runtime.spatial_mix
            &&& runtime.same_but_for_the_effect(after.runtime->0)
            &&& after_commands.len() == before_commands.len() + if runtime.session is Some {
                2int
            } else {
                1int
            }
            &&& runtime.session matches Some(session)
                ==> after_commands[before_commands.len() as int] == (Command::UpdateEffects {
                session: session.id,
            })
            &&& after_commands.last() == Command::Emit(
                PlayerEvent::ImpulseResponseEnabled {
                    path: effect.file_path,
                    mix: runtime.spatial_mix,
                },
            )
        }),
{
}

/// A response to an earlier request, and one that could not be prepared, leave the player
/// as it is: the first is only logged, and of the second the caller and the host hear why.
pub proof fn other_responses_are_not_used(
    before: Player,
    request_seq: u64,
    prepared: Result<PreparedSpatialEffect, String>,
    after: Player,
    before_commands: Seq<Command>,
    after_commands: Seq<Command>,
    result: Result<(), PlayerError>,
)
    requires
        prepared is Ok ==> (before.runtime matches Some(runtime) ==> runtime.spatial_request_seq
            != request_seq),
        impulse_response_finished(
            before,
            request_seq,
            prepared,
            after,
            before_commands,
            after_commands,
            result,
        ),
    ensures
        after == before,
        prepared matches Err(reason) ==> result == Err::<(), PlayerError>(
            PlayerError::Outside(reason),
        ) && after_commands == before_commands.push(
            Command::Emit(PlayerEvent::ImpulseResponseFailed(reason)),
        ),
        prepared is Ok && before.runtime is None ==> result == Err::<(), PlayerError>(
            PlayerError::NotInitialized,
        ) && after_commands == before_commands,
        prepared is Ok && before.runtime is Some ==> result is Ok && after_commands
            == before_commands.push(
            Command::Emit(
                PlayerEvent::Log { level: LogLevel::Debug, notice: Notice::StaleImpulseResponse },
            ),
        ),
{
}

/// A share that is set, from nothing to all, is that of the response in use and of the next
/// one, and the session in use gets it; another share is taken as the nearer of these. The
/// response in use stays the same one.
pub proof fn the_share_that_is_set_is_used(
    mix: Double,
    before: Player,
    after: Player,
    before_commands: Seq<Command>,
    after_commands: Seq<Command>,
    result: Result<(), PlayerError>,
)
    requires
        before.runtime is Some,
        mix_set(mix, before, after, before_commands, after_commands, result),
    ensures
        result is Ok,
        after.runtime is Some,
        ({
            let runtime = before.runtime->0;
            let now = after.runtime->0;
            let set = now.spatial_mix;
            &&& mix.narrowed().bits <= 0x3f80_0000 ==> set == mix.narrowed()
            &&& 0x3f80_0000 < mix.narrowed().bits <= 0x7f80_0000 ==> set.bits == 0x3f80_0000
            &&& match runtime.dsp_settings.spatial {
                Some(used) => now.dsp_settings.spatial matches Some(spatial) && spatial.mix == set
                    && spatial.file_path == used.file_path && spatial.sample_rate
                    == used.sample_rate && spatial.response == used.response,
                None => now.dsp_settings.spatial is None,
            }
            &&& now.spatial_request_seq == runtime.spatial_request_seq
            &&& runtime.same_but_for_the_effect(now)
            &&& runtime.session matches Some(session) ==> after_commands == before_commands.push(
                Command::SetSpatialMix { session: session.id, mix: set },
            )
            &&& runtime.session is None ==> after_commands == before_commands
        }),
{
}

} // verus!
