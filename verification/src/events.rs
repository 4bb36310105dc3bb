//! What the player tells its host.

use vstd::prelude::*;

use crate::float_bits::{Double, Single};

verus! {

/// What is playing, as the host sees it.
#[derive(Clone, Copy, Debug, PartialEq, Eq, Structural)]
pub struct PlayerState {
    pub playing: bool,
    pub paused: bool,
    /// The length of the source in seconds.
    pub duration: Double,
    /// The position in the source in seconds.
    pub time_pos: Double,
}

/// The kind of an error event.
#[derive(Clone, Copy, Debug, PartialEq, Eq, Structural)]
pub enum PlayerErrorCode {
    Decode,
}

/// The level of a log event.
#[derive(Clone, Copy, Debug, PartialEq, Eq, Structural)]
pub enum LogLevel {
    Debug,
    Info,
    Warn,
}

impl LogLevel {
    /// The level as the host reads it.
    pub open spec fn text(self) -> Seq<char> {
        match self {
            LogLevel::Debug => "debug"@,
            LogLevel::Info => "info"@,
            LogLevel::Warn => "warn"@,
        }
    }

    /// The level as the host reads it.
    pub fn name(self) -> (result: &'static str)
        ensures
            result@ == self.text(),
    {
        match self {
            LogLevel::Debug => "debug",
            LogLevel::Info => "info",
            LogLevel::Warn => "warn",
        }
    }
}

/// What a log or error event says. A text inside is the reason that came from
/// outside.
#[derive(Debug)]
pub enum Notice {
    DecodeFailed(String),
    ResampleFailed(String),
    TailErrorTakenForEnd(String),
    SeekReuseFailed(String),
    LoopRestartFailed(String),
    ImpulseResponseDisabled,
    StaleImpulseResponse,
}

impl Notice {
    /// The message.
    pub open spec fn text(self) -> Seq<char> {
        match self {
            Notice::DecodeFailed(reason) => "failed to decode audio source: "@ + reason@,
            Notice::ResampleFailed(reason) => "failed to resample audio frame: "@ + reason@,
            Notice::TailErrorTakenForEnd(reason) => "treating trailing decode error as EOF: "@
                + reason@,
            Notice::SeekReuseFailed(reason) => "decoder seek reuse failed, reopening source: "@
                + reason@,
            Notice::LoopRestartFailed(reason) => "failed to restart loop playback: "@ + reason@,
            Notice::ImpulseResponseDisabled => "impulse response disabled"@,
            Notice::StaleImpulseResponse => "stale impulse response load ignored"@,
        }
    }

    /// The message.
    pub fn message(&self) -> (result: String)
        ensures
            result@ == self.text(),
    {
        match self {
            Notice::DecodeFailed(reason) => "failed to decode audio source: ".to_string().concat(
                reason.as_str(),
            ),
            Notice::ResampleFailed(reason) => "failed to resample audio frame: ".to_string().concat(
                reason.as_str(),
            ),
            Notice::TailErrorTakenForEnd(reason) =>
            "treating trailing decode error as EOF: ".to_string().concat(reason.as_str()),
            Notice::SeekReuseFailed(reason) =>
            "decoder seek reuse failed, reopening source: ".to_string().concat(reason.as_str()),
            Notice::LoopRestartFailed(reason) =>
            "failed to restart loop playback: ".to_string().concat(reason.as_str()),
            Notice::ImpulseResponseDisabled => "impulse response disabled".to_string(),
            Notice::StaleImpulseResponse => "stale impulse response load ignored".to_string(),
        }
    }
}

/// An event for the host.
#[derive(Debug)]
pub enum PlayerEvent {
    TimeUpdate(Double),
    /// The source was played to its end.
    PlaybackEnd,
    DurationChange(Double),
    FileLoaded { url: String, seq: u64 },
    StateChange(PlayerState),
    Log { level: LogLevel, notice: Notice },
    Error { code: PlayerErrorCode, notice: Notice },
    /// An impulse response could not be used, for this reason.
    ImpulseResponseFailed(String),
    /// An impulse response is in use. The host logs it.
    ImpulseResponseEnabled { path: String, mix: Single },
    /// The spectrum shows a signal for the first time. The host logs it.
    SpectrumSignal { peak: Double, rms: Double, bins: usize },
}

/// A track of a source.
#[derive(Debug)]
pub struct TrackInfo {
    pub id: i64,
    pub kind: String,
    pub selected: bool,
    pub title: Option<String>,
    pub lang: Option<String>,
}

/// Whether a spectrum can be had.
#[derive(Debug)]
pub struct SpectrumStatus {
    pub available: bool,
    pub running: bool,
    pub reason: Option<String>,
}

/// A spectrum, with the level of the samples it was taken from.
#[derive(Debug)]
pub struct SpectrumFrame {
    pub peak: Double,
    pub rms: Double,
    pub bins: Vec<Double>,
}

/// Why a command was not carried out.
#[derive(Debug)]
pub enum PlayerError {
    NotInitialized,
    NoSource,
    InvalidPayload,
    /// Work outside the player failed, for this reason.
    Outside(String),
}

impl PlayerError {
    /// The message.
    pub open spec fn text(self) -> Seq<char> {
        match self {
            PlayerError::NotInitialized => "player addon not initialized"@,
            PlayerError::NoSource => "no audio source loaded"@,
            PlayerError::InvalidPayload => "invalid impulse response payload"@,
            PlayerError::Outside(reason) => reason@,
        }
    }

    /// The message.
    pub fn message(&self) -> (result: String)
        ensures
            result@ == self.text(),
    {
        match self {
            PlayerError::NotInitialized => "player addon not initialized".to_string(),
            PlayerError::NoSource => "no audio source loaded".to_string(),
            PlayerError::InvalidPayload => "invalid impulse response payload".to_string(),
            PlayerError::Outside(reason) => reason.clone(),
        }
    }

    /// The error as the host's runtime shows it: with the status of a generic failure
    /// before the message.
    pub open spec fn shown(self) -> Seq<char> {
        if self.text().len() == 0 {
            "GenericFailure"@
        } else {
            "GenericFailure, "@ + self.text()
        }
    }

    /// The error as the host's runtime shows it.
    pub fn display(&self) -> (result: String)
        ensures
            result@ == self.shown(),
    {
        let message: String = self.message();
        if message.as_str().is_empty() {
            "GenericFailure".to_string()
        } else {
            "GenericFailure, ".to_string().concat(message.as_str())
        }
    }
}

/// A notice that has a reason ends with it, whatever the reason, after a message that says
/// what failed.
pub proof fn notices_end_with_their_reason(reason: String)
    ensures
        Notice::DecodeFailed(reason).text() == "failed to decode audio source: "@ + reason@,
        Notice::ResampleFailed(reason).text() == "failed to resample audio frame: "@ + reason@,
        Notice::TailErrorTakenForEnd(reason).text() == "treating trailing decode error as EOF: "@
            + reason@,
        Notice::SeekReuseFailed(reason).text() == "decoder seek reuse failed, reopening source: "@
            + reason@,
        Notice::LoopRestartFailed(reason).text() == "failed to restart loop playback: "@ + reason@,
        Notice::ImpulseResponseDisabled.text() == "impulse response disabled"@,
        Notice::StaleImpulseResponse.text() == "stale impulse response load ignored"@,
{
}

/// The levels read differently from one another.
pub proof fn levels_are_told_apart(a: LogLevel, b: LogLevel)
    ensures
        a.text() == b.text() <==> a == b,
        LogLevel::Warn.text() == "warn"@,
        LogLevel::Info.text() == "info"@,
        LogLevel::Debug.text() == "debug"@,
{
    reveal_strlit("debug");
    reveal_strlit("info");
    reveal_strlit("warn");
    assert("info"@[0] == 'i' && "warn"@[0] == 'w' && "debug"@[0] == 'd');
}

/// An error from outside says what it said outside, and every error is shown by its
/// message after the status, which stands alone where there is no message.
pub proof fn errors_are_shown_by_their_message(error: PlayerError, reason: String)
    ensures
        PlayerError::Outside(reason).text() == reason@,
        PlayerError::NotInitialized.text() == "player addon not initialized"@,
        PlayerError::NoSource.text() == "no audio source loaded"@,
        PlayerError::InvalidPayload.text() == "invalid impulse response payload"@,
        error.text().len() > 0 ==> error.shown() == "GenericFailure, "@ + error.text(),
        error.text().len() == 0 ==> error.shown() == "GenericFailure"@,
{
}

} // verus!
