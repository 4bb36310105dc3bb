//! The decisions of the thread that decodes a source.
//!
//! The thread reads frames, has them resampled, and pushes what the tempo
//! processor makes of them. [`DecoderData::decode_into`] takes what the outside
//! work came to and says what to do next, until the thread is done.

use vstd::prelude::*;

use crate::events::{LogLevel, Notice, PlayerErrorCode, PlayerEvent, TrackInfo};
use crate::float_bits::Single;
use crate::shared::{SharedAudio, SharedView, TARGET_CHANNELS};
use crate::tempo::{
    calls_in_two_parts, every_speed_is_accepted, normalized, Call, Piece, TempoProcessor,
    TempoRate, TempoView,
};

verus! {

/// What the work of the decoding thread came to.
#[derive(Debug)]
pub enum DecodeEvent {
    /// The thread starts.
    Started,
    /// A frame was read and resampled to these samples.
    Samples(Vec<Single>),
    /// A frame was read, and the resampler gave nothing out yet.
    NoSamples,
    /// A frame could not be resampled, for this reason.
    ResampleFailed(String),
    /// A push was made, and all samples are in the queue, or not.
    Pushed(bool),
    /// The source has no further frame.
    EndOfStream,
    /// The resampler was emptied, and still had these samples.
    Drained(Option<Vec<Single>>),
    /// What was left at the end was pushed, as far as that was possible.
    LastPushed,
    /// No frame could be read.
    Failed(ReadFailure),
}

/// How reading a frame failed. Times are in nanoseconds.
#[derive(Debug)]
pub struct ReadFailure {
    pub reason: String,
    /// The interrupt flag of the decoder is raised.
    pub interrupted: bool,
    /// The source holds invalid data.
    pub invalid_data: bool,
    /// Where in the source the failure came, where that is known.
    pub position: Option<u128>,
    /// How close to the end of the source a failure may come to be taken for it.
    pub tolerance: u128,
}

/// What the decoding thread is to do.
#[derive(Debug)]
pub enum DecodeAction {
    /// Read and resample a frame.
    Receive,
    /// Push these samples.
    Push(Vec<Piece>),
    /// Empty the resampler.
    DrainResampler,
    /// Push the first of these, then the second, whatever comes of it.
    PushLast(Vec<Piece>, Vec<Piece>),
    /// Be done, and hand the decoder back for reuse where that is said.
    Finish { keep: bool },
}

/// A [`DecodeAction`] by its contents.
pub enum DecodeStep {
    Receive,
    Push(Seq<Piece>),
    DrainResampler,
    PushLast(Seq<Piece>, Seq<Piece>),
    Finish { keep: bool },
}

impl View for DecodeAction {
    type V = DecodeStep;

    open spec fn view(&self) -> DecodeStep {
        match self {
            DecodeAction::Receive => DecodeStep::Receive,
            DecodeAction::Push(pieces) => DecodeStep::Push(pieces@),
            DecodeAction::DrainResampler => DecodeStep::DrainResampler,
            DecodeAction::PushLast(first, last) => DecodeStep::PushLast(first@, last@),
            DecodeAction::Finish { keep } => DecodeStep::Finish { keep: *keep },
        }
    }
}

/// The state of a [`DecoderData`].
pub struct DecoderView {
    pub tempo: TempoView,
    /// Samples, per channel, that the resampler gave out since the thread started.
    pub produced: u64,
    /// The length of the source in nanoseconds, where it is known.
    pub duration: Option<u128>,
}

/// An error event of the decoder.
pub open spec fn decode_error(notice: Notice) -> PlayerEvent {
    PlayerEvent::Error { code: PlayerErrorCode::Decode, notice }
}

/// A warning of the decoder.
pub open spec fn decode_warning(notice: Notice) -> PlayerEvent {
    PlayerEvent::Log { level: LogLevel::Warn, notice }
}

/// The thread goes on where nobody asks it to stop. Where somebody does, the
/// decoder is handed back, unless everything is to stop.
pub open spec fn go_on(shared: SharedView) -> DecodeStep {
    if shared.stopping_decoding() {
        give_up(shared)
    } else {
        DecodeStep::Receive
    }
}

/// The thread is done before the source is.
pub open spec fn give_up(shared: SharedView) -> DecodeStep {
    DecodeStep::Finish { keep: !shared.stop }
}

impl DecoderView {
    pub open spec fn wf(self) -> bool {
        &&& self.tempo.wf()
        &&& self.tempo.channels == TARGET_CHANNELS
    }

    /// The rate for the speed that is asked for.
    pub open spec fn rate(self, shared: SharedView) -> TempoRate {
        self.tempo.rate(shared.speed)
    }

    /// A failure is taken for the end of the source: something was decoded, the
    /// data is invalid, and the end is within the tolerance.
    pub open spec fn recoverable(self, failure: ReadFailure) -> bool {
        &&& self.produced > 0
        &&& failure.invalid_data
        &&& self.duration matches Some(duration) && failure.position matches Some(position)
            && position + failure.tolerance >= duration
    }

    /// Samples can be taken at the speed that is asked for. At every speed that can be
    /// set they can.
    pub open spec fn takes(self, shared: SharedView) -> bool {
        self.tempo.accepts(self.rate(shared))
    }

    /// Where an event brings samples, they can be taken.
    pub open spec fn admits(self, event: DecodeEvent, shared: SharedView) -> bool {
        match event {
            DecodeEvent::Samples(_) => self.takes(shared),
            DecodeEvent::Drained(Some(_)) => self.takes(shared),
            _ => true,
        }
    }

    /// What to do next.
    pub open spec fn decided(self, event: DecodeEvent, shared: SharedView) -> DecodeStep {
        match event {
            DecodeEvent::Started => go_on(shared),
            DecodeEvent::Samples(samples) => {
                let pieces = self.tempo.emitted(samples@, self.rate(shared));
                if pieces.len() == 0 {
                    go_on(shared)
                } else {
                    DecodeStep::Push(pieces)
                }
            },
            DecodeEvent::NoSamples => go_on(shared),
            DecodeEvent::ResampleFailed(_) => DecodeStep::Finish { keep: false },
            DecodeEvent::Pushed(complete) => if complete {
                go_on(shared)
            } else {
                give_up(shared)
            },
            DecodeEvent::EndOfStream => DecodeStep::DrainResampler,
            DecodeEvent::Drained(left) => {
                match left {
                    Some(samples) => DecodeStep::PushLast(
                        self.tempo.emitted(samples@, self.rate(shared)),
                        self.tempo.processed(samples@, self.rate(shared)).remainder(),
                    ),
                    None => DecodeStep::PushLast(Seq::empty(), self.tempo.remainder()),
                }
            },
            DecodeEvent::LastPushed => DecodeStep::Finish { keep: false },
            DecodeEvent::Failed(failure) => if failure.interrupted || shared.stopping_decoding() {
                give_up(shared)
            } else if self.recoverable(failure) {
                DecodeStep::DrainResampler
            } else {
                DecodeStep::Finish { keep: false }
            },
        }
    }

    /// The state of the decoder afterwards.
    pub open spec fn after(self, event: DecodeEvent, shared: SharedView) -> DecoderView {
        match event {
            DecodeEvent::Started => DecoderView { produced: 0, ..self },
            DecodeEvent::Samples(samples) => DecoderView {
                tempo: self.tempo.processed(samples@, self.rate(shared)),
                produced: if self.produced + samples@.len() / TARGET_CHANNELS as nat > u64::MAX {
                    u64::MAX
                } else {
                    (self.produced + samples@.len() / TARGET_CHANNELS as nat) as u64
                },
                ..self
            },
            DecodeEvent::Drained(left) => DecoderView {
                tempo: match left {
                    Some(samples) => self.tempo.processed(samples@, self.rate(shared)).emptied(),
                    None => self.tempo.emptied(),
                },
                ..self
            },
            _ => self,
        }
    }

    /// The failure is one that nothing can be done about.
    pub open spec fn fatal(self, failure: ReadFailure, shared: SharedView) -> bool {
        !failure.interrupted && !shared.stopping_decoding() && !self.recoverable(failure)
    }

    /// The shared state afterwards.
    pub open spec fn shared_after(self, event: DecodeEvent, shared: SharedView) -> SharedView {
        match event {
            DecodeEvent::Started => SharedView { interrupt: Some(false), ..shared },
            DecodeEvent::ResampleFailed(_) => SharedView { decode_failed: true, ..shared },
            DecodeEvent::LastPushed => SharedView { eof: true, queue_changed: true, ..shared },
            DecodeEvent::Failed(failure) => if self.fatal(failure, shared) {
                SharedView { decode_failed: true, ..shared }
            } else {
                shared
            },
            _ => shared,
        }
    }

    /// What the host is told.
    pub open spec fn told(self, event: DecodeEvent, shared: SharedView) -> Seq<PlayerEvent> {
        match event {
            DecodeEvent::ResampleFailed(reason) => seq![
                decode_error(Notice::ResampleFailed(reason)),
            ],
            DecodeEvent::Failed(failure) => if failure.interrupted || shared.stopping_decoding() {
                Seq::empty()
            } else if self.recoverable(failure) {
                seq![decode_warning(Notice::TailErrorTakenForEnd(failure.reason))]
            } else {
                seq![decode_error(Notice::DecodeFailed(failure.reason))]
            },
            _ => Seq::empty(),
        }
    }
}

/// A decoder, without the source and the resampler that it reads from.
pub struct DecoderData {
    tempo: TempoProcessor,
    produced_frames: u64,
    duration: Option<u128>,
}

impl View for DecoderData {
    type V = DecoderView;

    closed spec fn view(&self) -> DecoderView {
        DecoderView {
            tempo: self.tempo@,
            produced: self.produced_frames,
            duration: self.duration,
        }
    }
}

impl DecoderData {
    /// A decoder for a source of that length in nanoseconds, where it is known.
    pub fn new(duration: Option<u128>) -> (result: DecoderData)
        ensures
            result@.wf(),
            result@ == (DecoderView {
                tempo: TempoView::fresh(TARGET_CHANNELS as nat),
                produced: 0,
                duration,
            }),
    {
        DecoderData { tempo: TempoProcessor::new(TARGET_CHANNELS), produced_frames: 0, duration }
    }

    /// The length of the source in nanoseconds, where it is known.
    pub fn duration(&self) -> (result: Option<u128>)
        ensures
            result == self@.duration,
    {
        self.duration
    }

    /// Whether samples can be taken at the speed that is asked for.
    pub fn can_take(&self, shared: &SharedAudio) -> (result: bool)
        ensures
            result == self@.takes(shared@),
    {
        self.tempo.can_process(shared.current_speed())
    }

    /// Whether a failure to read is taken for the end of the source.
    pub fn is_recoverable_tail_error(&self, failure: &ReadFailure) -> (result: bool)
        ensures
            result == self@.recoverable(*failure),
    {
        if self.produced_frames == 0 {
            return false;
        }
        if !failure.invalid_data {
            return false;
        }
        match self.duration {
            Some(duration) => match failure.position {
                Some(position) => match position.checked_add(failure.tolerance) {
                    Some(reach) => reach >= duration,
                    None => true,
                },
                None => false,
            },
            None => false,
        }
    }

    /// Takes what the work of the decoding thread came to, and says what to do
    /// next.
    pub fn decode_into(
        &mut self,
        event: DecodeEvent,
        shared: &mut SharedAudio,
        events: &mut Vec<PlayerEvent>,
    ) -> (result: DecodeAction)
        requires
            old(self)@.wf(),
            old(self)@.admits(event, old(shared)@),
        ensures
            final(self)@.wf(),
            result@ == old(self)@.decided(event, old(shared)@),
            final(self)@ == old(self)@.after(event, old(shared)@),
            final(shared)@ == old(self)@.shared_after(event, old(shared)@),
            final(events)@ == old(events)@ + old(self)@.told(event, old(shared)@),
    {
        let ghost before = self@;
        let ghost told_before = events@;
        assert(told_before + Seq::<PlayerEvent>::empty() =~= told_before);
        match event {
            DecodeEvent::Started => {
                shared.bind_interrupt();
                self.produced_frames = 0;
                self.next_action(shared)
            },
            DecodeEvent::Samples(samples) => {
                let frames: usize = samples.len() / TARGET_CHANNELS;
                self.produced_frames = self.produced_frames.saturating_add(frames as u64);
                let pieces: Vec<Piece> = self.stretch(&samples, shared);
                if pieces.len() == 0 {
                    self.next_action(shared)
                } else {
                    DecodeAction::Push(pieces)
                }
            },
            DecodeEvent::NoSamples => self.next_action(shared),
            DecodeEvent::ResampleFailed(reason) => {
                shared.mark_decode_failed();
                events.push(emit_decode_error(Notice::ResampleFailed(reason)));
                assert(events@ =~= told_before + before.told(event, old(shared)@));
                DecodeAction::Finish { keep: false }
            },
            DecodeEvent::Pushed(complete) => if complete {
                self.next_action(shared)
            } else {
                DecodeAction::Finish { keep: !shared.is_stopped() }
            },
            DecodeEvent::EndOfStream => DecodeAction::DrainResampler,
            DecodeEvent::Drained(left) => {
                let first: Vec<Piece> = match &left {
                    Some(samples) => self.stretch(samples, shared),
                    None => Vec::new(),
                };
                let mut last: Vec<Piece> = Vec::new();
                self.tempo.flush(&mut last);
                proof {
                    match left {
                        Some(samples) => {
                            let tempo = before.tempo.processed(samples@, before.rate(shared@));
                            assert(last@ =~= tempo.remainder());
                        },
                        None => {
                            assert(last@ =~= before.tempo.remainder());
                        },
                    }
                }
                DecodeAction::PushLast(first, last)
            },
            DecodeEvent::LastPushed => {
                shared.mark_eof();
                DecodeAction::Finish { keep: false }
            },
            DecodeEvent::Failed(failure) => {
                if failure.interrupted || shared.should_stop_decoding() {
                    return DecodeAction::Finish { keep: !shared.is_stopped() };
                }
                if self.is_recoverable_tail_error(&failure) {
                    events.push(emit_decode_warning(Notice::TailErrorTakenForEnd(failure.reason)));
                    assert(events@ =~= told_before + before.told(event, old(shared)@));
                    return DecodeAction::DrainResampler;
                }
                shared.mark_decode_failed();
                events.push(emit_decode_error(Notice::DecodeFailed(failure.reason)));
                assert(events@ =~= told_before + before.told(event, old(shared)@));
                DecodeAction::Finish { keep: false }
            },
        }
    }

    /// Goes on, unless the thread is to stop.
    fn next_action(&self, shared: &SharedAudio) -> (result: DecodeAction)
        ensures
            result@ == go_on(shared@),
    {
        if shared.should_stop_decoding() {
            DecodeAction::Finish { keep: !shared.is_stopped() }
        } else {
            DecodeAction::Receive
        }
    }

    /// What the tempo processor makes of samples at the speed that is asked for.
    fn stretch(&mut self, samples: &Vec<Single>, shared: &SharedAudio) -> (result: Vec<Piece>)
        requires
            old(self)@.wf(),
            old(self)@.takes(shared@),
        ensures
            final(self)@.wf(),
            result@ == old(self)@.tempo.emitted(samples@, old(self)@.rate(shared@)),
            final(self)@ == (DecoderView {
                tempo: old(self)@.tempo.processed(samples@, old(self)@.rate(shared@)),
                ..old(self)@
            }),
    {
        let ghost before = self@;
        let mut pieces: Vec<Piece> = Vec::new();
        self.tempo.process(samples.as_slice(), shared.current_speed(), &mut pieces);
        assert(pieces@ =~= before.tempo.emitted(samples@, before.rate(shared@)));
        pieces
    }
}

/// The tracks of a source: one audio track.
pub fn list_tracks_for_url(_url: &str) -> (result: Vec<TrackInfo>)
    ensures
        result@.len() == 1,
        result@[0].id == 1,
        result@[0].kind@ == "audio"@,
        result@[0].selected,
        result@[0].title is None,
        result@[0].lang is None,
{
    let mut tracks: Vec<TrackInfo> = Vec::new();
    tracks.push(
        TrackInfo {
            id: 1,
            kind: "audio".to_string(),
            selected: true,
            title: None,
            lang: None,
        },
    );
    tracks
}

/// The place of a track among the audio streams: tracks count from one, streams
/// from zero. A track number that is not positive names no stream.
pub fn audio_stream_ordinal_from_track_id(track_id: i64) -> (result: Option<usize>)
    ensures
        result is None == (track_id <= 0),
        track_id > 0 ==> result == Some((track_id - 1) as usize),
{
    if track_id <= 0 {
        None
    } else {
        Some((track_id - 1) as usize)
    }
}

/// The event for an error of the decoder.
pub fn emit_decode_error(notice: Notice) -> (result: PlayerEvent)
    ensures
        result == decode_error(notice),
{
    PlayerEvent::Error { code: PlayerErrorCode::Decode, notice }
}

/// The event for a warning of the decoder.
pub fn emit_decode_warning(notice: Notice) -> (result: PlayerEvent)
    ensures
        result == decode_warning(notice),
{
    PlayerEvent::Log { level: LogLevel::Warn, notice }
}

/// The thread never ends unnoticed: where it is done and not everything is to stop,
/// either the decoder is handed back for reuse, or the end of the stream or a
/// failure is on record. And a decoder is never handed back where everything is to
/// stop.
pub proof fn decoding_ends_on_record(state: DecoderView, event: DecodeEvent, shared: SharedView)
    ensures
        state.decided(event, shared) matches DecodeStep::Finish { keep } ==> {
            let after = state.shared_after(event, shared);
            &&& keep ==> !shared.stop
            &&& !keep ==> shared.stop || after.eof || after.decode_failed
        },
{
}

/// The host hears of an error exactly where a failure goes on record.
pub proof fn failures_are_reported(state: DecoderView, event: DecodeEvent, shared: SharedView)
    requires
        !shared.decode_failed,
    ensures
        state.shared_after(event, shared).decode_failed == (exists|notice: Notice|
            state.told(event, shared) == seq![#[trigger] decode_error(notice)]),
{
    match event {
        DecodeEvent::ResampleFailed(reason) => {
            assert(state.told(event, shared) == seq![decode_error(Notice::ResampleFailed(reason))]);
        },
        DecodeEvent::Failed(failure) => {
            if state.fatal(failure, shared) {
                assert(state.told(event, shared) == seq![
                    decode_error(Notice::DecodeFailed(failure.reason)),
                ]);
            } else if state.told(event, shared).len() > 0 {
                assert(state.told(event, shared)[0] == decode_warning(
                    Notice::TailErrorTakenForEnd(failure.reason),
                ));
                assert forall|notice: Notice|
                    state.told(event, shared) != seq![#[trigger] decode_error(notice)] by {
                    assert(seq![decode_error(notice)][0] == decode_error(notice));
                }
            } else {
                assert forall|notice: Notice|
                    state.told(event, shared) != seq![#[trigger] decode_error(notice)] by {
                    assert(seq![decode_error(notice)].len() == 1);
                }
            }
        },
        _ => {
            assert forall|notice: Notice|
                state.told(event, shared) != seq![#[trigger] decode_error(notice)] by {
                assert(seq![decode_error(notice)].len() == 1);
            }
        },
    }
}

/// A stop request ends the thread at its next decision: whenever it would read a
/// frame, nobody has asked it to stop.
pub proof fn nothing_is_read_after_a_stop(
    state: DecoderView,
    event: DecodeEvent,
    shared: SharedView,
)
    ensures
        state.decided(event, shared) is Receive ==> !shared.stopping_decoding(),
{
}

/// Samples can be taken at every speed that can be set.
pub proof fn settable_speeds_are_taken(state: DecoderView, shared: SharedView)
    requires
        state.wf(),
        normalized(shared.speed),
    ensures
        state.takes(shared),
{
    every_speed_is_accepted(state.tempo, shared.speed, state.tempo.speed);
}

/// A decision of the decoding thread: what the work before it came to, and the shared
/// state at that moment.
pub struct Moment {
    pub event: DecodeEvent,
    pub shared: SharedView,
}

/// The course of a decoding thread, decision by decision. Between two decisions the shared
/// state may change in any way.
pub struct Course {
    pub start: DecoderView,
    pub moments: Seq<Moment>,
}

/// The event can follow the decision: it is what the work that was decided on can come to.
pub open spec fn answers(step: DecodeStep, event: DecodeEvent) -> bool {
    match step {
        DecodeStep::Receive => match event {
            DecodeEvent::Samples(_) => true,
            DecodeEvent::NoSamples => true,
            DecodeEvent::ResampleFailed(_) => true,
            DecodeEvent::EndOfStream => true,
            DecodeEvent::Failed(_) => true,
            _ => false,
        },
        DecodeStep::Push(_) => event is Pushed,
        DecodeStep::DrainResampler => event is Drained,
        DecodeStep::PushLast(_, _) => event is LastPushed,
        DecodeStep::Finish { .. } => false,
    }
}

/// What a decision has pushed, in order.
pub open spec fn pieces_of(step: DecodeStep) -> Seq<Piece> {
    match step {
        DecodeStep::Push(pieces) => pieces,
        DecodeStep::PushLast(first, last) => first + last,
        _ => Seq::empty(),
    }
}

impl Moment {
    /// What the tempo processor is to make of the event: the samples of a chunk at the
    /// speed that is asked for; at the end the last samples, and all that is still held.
    pub open spec fn calls(self) -> Seq<Call> {
        match self.event {
            DecodeEvent::Samples(samples) => seq![
                Call::Process { input: samples@, speed: self.shared.speed },
            ],
            DecodeEvent::Drained(Some(samples)) => seq![
                Call::Process { input: samples@, speed: self.shared.speed },
                Call::Flush,
            ],
            DecodeEvent::Drained(None) => seq![Call::Flush],
            _ => Seq::empty(),
        }
    }
}

impl Course {
    /// The state of the decoder before decision `n`.
    pub open spec fn state(self, n: nat) -> DecoderView
        decreases n,
    {
        if n == 0 {
            self.start
        } else {
            self.state((n - 1) as nat).after(
                self.moments[n - 1].event,
                self.moments[n - 1].shared,
            )
        }
    }

    /// Decision `n`.
    pub open spec fn step(self, n: nat) -> DecodeStep {
        self.state(n).decided(self.moments[n as int].event, self.moments[n as int].shared)
    }

    /// All that the first `n` decisions have pushed, in order.
    pub open spec fn pushed(self, n: nat) -> Seq<Piece>
        decreases n,
    {
        if n == 0 {
            Seq::empty()
        } else {
            self.pushed((n - 1) as nat) + pieces_of(self.step((n - 1) as nat))
        }
    }

    /// All that the tempo processor is to make of the first `n` events, in order.
    pub open spec fn calls(self, n: nat) -> Seq<Call>
        decreases n,
    {
        if n == 0 {
            Seq::empty()
        } else {
            self.calls((n - 1) as nat) + self.moments[n - 1].calls()
        }
    }

    /// The thread starts, and each further event comes of what was decided before.
    pub open spec fn wf(self) -> bool {
        &&& self.moments.len() > 0 ==> self.moments[0].event is Started
        &&& forall|i: nat|
            i + 1 < self.moments.len() ==> answers(
                #[trigger] self.step(i),
                self.moments[(i + 1) as int].event,
            )
    }
}

/// One decision has pushed what the tempo processor makes of its event.
proof fn one_decision_pushes_what_is_made(state: DecoderView, moment: Moment)
    ensures
        pieces_of(state.decided(moment.event, moment.shared)) == state.tempo.calls_emit(
            moment.calls(),
        ),
        state.after(moment.event, moment.shared).tempo == state.tempo.after_calls(moment.calls()),
{
    let calls = moment.calls();
    reveal_with_fuel(TempoView::calls_emit, 3);
    reveal_with_fuel(TempoView::after_calls, 3);
    if calls.len() == 2 {
        assert(calls.drop_first() =~= seq![Call::Flush]);
        assert(calls.drop_first().drop_first() =~= Seq::<Call>::empty());
    } else if calls.len() == 1 {
        assert(calls.drop_first() =~= Seq::<Call>::empty());
    }
    assert(pieces_of(state.decided(moment.event, moment.shared)) =~= state.tempo.calls_emit(calls));
}

/// Over the whole course of the thread, what is pushed is what the tempo processor makes
/// of every chunk in order, then of the samples that the resampler still had, and then
/// all that it still holds: nothing is left out, repeated or put in.
pub proof fn all_that_is_decoded_is_pushed_in_order(course: Course, n: nat)
    requires
        n <= course.moments.len(),
    ensures
        course.pushed(n) == course.start.tempo.calls_emit(course.calls(n)),
        course.state(n).tempo == course.start.tempo.after_calls(course.calls(n)),
    decreases n,
{
    if n > 0 {
        let before = (n - 1) as nat;
        let moment = course.moments[n - 1];
        all_that_is_decoded_is_pushed_in_order(course, before);
        one_decision_pushes_what_is_made(course.state(before), moment);
        calls_in_two_parts(course.start.tempo, course.calls(before), moment.calls());
    }
}

/// The end of the stream goes on record only after everything was pushed: it does so at
/// the last decision of the thread, right after the resampler and the tempo processor
/// were emptied, and every push before it was complete.
pub proof fn the_end_comes_after_all_pushes(course: Course, n: nat)
    requires
        course.wf(),
        n < course.moments.len(),
        !course.moments[n as int].shared.eof,
        course.state(n).shared_after(
            course.moments[n as int].event,
            course.moments[n as int].shared,
        ).eof,
    ensures
        n + 1 == course.moments.len(),
        n >= 1,
        course.moments[n as int].event is LastPushed,
        course.moments[n - 1].event is Drained,
        course.step((n - 1) as nat) is PushLast,
        course.pushed(n) == course.pushed(n + 1),
        course.pushed(n) == course.start.tempo.calls_emit(course.calls(n)),
        course.calls(n).last() is Flush,
        forall|i: nat|
            i < n ==> !(#[trigger] course.moments[i as int].event matches DecodeEvent::Pushed(false)),
{
    let before = (n - 1) as nat;
    assert(course.moments[n as int].event is LastPushed);
    assert(answers(course.step(before), course.moments[(before + 1) as int].event));
    assert(course.step(before) is PushLast);
    assert(course.moments[n - 1].event is Drained);
    assert(course.step(n) is Finish);
    if n + 1 < course.moments.len() {
        assert(answers(course.step(n), course.moments[(n + 1) as int].event));
    }
    all_that_is_decoded_is_pushed_in_order(course, n);
    assert(course.pushed(n + 1) =~= course.pushed(n));
    assert forall|i: nat| i < n implies !(
    #[trigger] course.moments[i as int].event matches DecodeEvent::Pushed(false)) by {
        if course.moments[i as int].event matches DecodeEvent::Pushed(false) {
            assert(course.step(i) is Finish);
            assert(answers(course.step(i), course.moments[(i + 1) as int].event));
        }
    }
}

/// A failure to read is taken for the end of the source exactly where something was
/// decoded, the data is invalid, and what is missing to the end is within the tolerance.
/// The host is then warned, and all that is held is still pushed. Any other failure goes on
/// record as an error with its reason, and the decoder is not used again.
pub proof fn a_failure_near_the_end_is_taken_for_it(
    state: DecoderView,
    failure: ReadFailure,
    shared: SharedView,
)
    requires
        !failure.interrupted,
        !shared.stop,
        !shared.decode_stop,
    ensures
        ({
            let event = DecodeEvent::Failed(failure);
            let told = state.told(event, shared);
            let near = match (state.duration, failure.position) {
                (Some(duration), Some(position)) => duration - position <= failure.tolerance,
                _ => false,
            };
            if state.produced > 0 && failure.invalid_data && near {
                &&& state.decided(event, shared) is DrainResampler
                &&& state.shared_after(event, shared) == shared
                &&& told.len() == 1
                &&& told[0] == (PlayerEvent::Log {
                    level: LogLevel::Warn,
                    notice: Notice::TailErrorTakenForEnd(failure.reason),
                })
            } else {
                &&& state.decided(event, shared) matches DecodeStep::Finish { keep } && !keep
                &&& state.shared_after(event, shared).decode_failed
                &&& told.len() == 1
                &&& told[0] == (PlayerEvent::Error {
                    code: PlayerErrorCode::Decode,
                    notice: Notice::DecodeFailed(failure.reason),
                })
            }
        }),
{
}

/// A failure that comes of an interrupt or of a stop is none: nobody hears of it, nothing
/// goes on record, and the decoder is handed back unless everything is to stop.
pub proof fn an_interrupt_is_no_failure(
    state: DecoderView,
    failure: ReadFailure,
    shared: SharedView,
)
    requires
        failure.interrupted || shared.stop || shared.decode_stop,
    ensures
        ({
            let event = DecodeEvent::Failed(failure);
            &&& state.decided(event, shared) matches DecodeStep::Finish { keep } && keep
                == !shared.stop
            &&& state.told(event, shared).len() == 0
            &&& state.shared_after(event, shared) == shared
            &&& state.after(event, shared) == state
        }),
{
}

/// As long as nobody asks it to stop, the thread reads on: when it starts, where the
/// resampler gave nothing out or the samples make up nothing yet, and once all samples are
/// in the queue. Where somebody does, it is done, and hands the decoder back unless
/// everything is to stop.
pub proof fn the_thread_reads_on_until_stopped(
    state: DecoderView,
    event: DecodeEvent,
    shared: SharedView,
)
    requires
        match event {
            DecodeEvent::Started => true,
            DecodeEvent::NoSamples => true,
            DecodeEvent::Pushed(complete) => complete,
            DecodeEvent::Samples(samples) => state.tempo.emitted(
                samples@,
                state.tempo.rate(shared.speed),
            ).len() == 0,
            _ => false,
        },
    ensures
        !shared.stop && !shared.decode_stop ==> state.decided(event, shared) is Receive,
        shared.stop || shared.decode_stop ==> (state.decided(
            event,
            shared,
        ) matches DecodeStep::Finish { keep } && keep == !shared.stop),
        state.told(event, shared).len() == 0,
{
}

/// What the tempo processor makes of samples is pushed, if that is anything.
pub proof fn samples_are_pushed(state: DecoderView, samples: Vec<Single>, shared: SharedView)
    ensures
        ({
            let pieces = state.tempo.emitted(samples@, state.tempo.rate(shared.speed));
            let event = DecodeEvent::Samples(samples);
            &&& pieces.len() > 0 ==> state.decided(event, shared) == DecodeStep::Push(pieces)
            &&& state.after(event, shared).tempo == state.tempo.processed(
                samples@,
                state.tempo.rate(shared.speed),
            )
            &&& state.shared_after(event, shared) == shared
            &&& state.told(event, shared).len() == 0
        }),
{
}

/// How the thread ends: a push that was cut short ends it, with the decoder handed back
/// unless everything is to stop; the end of the source has the resampler emptied; what was
/// pushed last puts the end on record; and a frame that could not be resampled puts a
/// failure on record, of which the host hears with its reason.
pub proof fn how_the_thread_ends(state: DecoderView, reason: String, shared: SharedView)
    ensures
        state.decided(
            DecodeEvent::Pushed(false),
            shared,
        ) matches DecodeStep::Finish { keep } && keep == !shared.stop,
        state.decided(DecodeEvent::EndOfStream, shared) is DrainResampler,
        state.shared_after(DecodeEvent::EndOfStream, shared) == shared,
        state.decided(
            DecodeEvent::LastPushed,
            shared,
        ) matches DecodeStep::Finish { keep } && !keep,
        state.shared_after(DecodeEvent::LastPushed, shared).eof,
        state.shared_after(DecodeEvent::LastPushed, shared).queue_changed,
        state.shared_after(DecodeEvent::LastPushed, shared).decode_failed == shared.decode_failed,
        state.decided(
            DecodeEvent::ResampleFailed(reason),
            shared,
        ) matches DecodeStep::Finish { keep } && !keep,
        state.shared_after(DecodeEvent::ResampleFailed(reason), shared).decode_failed,
        state.told(DecodeEvent::ResampleFailed(reason), shared).len() == 1,
        state.told(DecodeEvent::ResampleFailed(reason), shared)[0] == (PlayerEvent::Error {
            code: PlayerErrorCode::Decode,
            notice: Notice::ResampleFailed(reason),
        }),
        state.told(DecodeEvent::LastPushed, shared).len() == 0,
        state.told(DecodeEvent::EndOfStream, shared).len() == 0,
{
}

/// What the thread decides never changes what is queued, the position, the stop requests
/// or the settings; the end and a failure are put on record, never taken back. A thread
/// that starts finds its interrupt flag lowered, and no other decision touches it.
pub proof fn the_thread_leaves_the_rest_alone(
    state: DecoderView,
    event: DecodeEvent,
    shared: SharedView,
)
    ensures
        ({
            let after = state.shared_after(event, shared);
            &&& shared.same_settings(after)
            &&& after.queue == shared.queue
            &&& after.played == shared.played
            &&& after.last_time_event == shared.last_time_event
            &&& after.signals == shared.signals
            &&& after.stop == shared.stop
            &&& after.output_stop == shared.output_stop
            &&& after.output_started == shared.output_started
            &&& after.decode_stop == shared.decode_stop
            &&& after.end_reported == shared.end_reported
            &&& after.eof == (shared.eof || event is LastPushed)
            &&& shared.decode_failed ==> after.decode_failed
            &&& after.interrupt == if event is Started {
                Some(false)
            } else {
                shared.interrupt
            }
            &&& state.after(event, shared).duration == state.duration
        }),
{
}

/// The samples that the resampler gave out are counted per channel, from the start of the
/// thread on; every other event leaves the count as it is.
pub proof fn samples_are_counted(state: DecoderView, event: DecodeEvent, shared: SharedView)
    ensures
        match event {
            DecodeEvent::Started => state.after(event, shared).produced == 0,
            DecodeEvent::Samples(samples) => {
                &&& state.produced + samples@.len() / 2 <= u64::MAX ==> state.after(
                    event,
                    shared,
                ).produced == state.produced + samples@.len() / 2
                &&& state.produced + samples@.len() / 2 > u64::MAX ==> state.after(
                    event,
                    shared,
                ).produced == u64::MAX
            },
            _ => state.after(event, shared).produced == state.produced,
        },
{
}

/// At the end of the source, what is made of the samples that the resampler still had is
/// pushed first and then all that the tempo processor holds, which then holds nothing.
pub proof fn the_end_pushes_all_that_is_held(
    state: DecoderView,
    left: Option<Vec<Single>>,
    shared: SharedView,
)
    ensures
        ({
            let event = DecodeEvent::Drained(left);
            let rate = state.tempo.rate(shared.speed);
            let after = state.after(event, shared).tempo;
            &&& state.decided(event, shared) matches DecodeStep::PushLast(first, last)
            &&& match left {
                Some(samples) => first == state.tempo.emitted(samples@, rate) && last
                    == state.tempo.processed(samples@, rate).remainder(),
                None => first.len() == 0 && last == state.tempo.remainder(),
            }
            &&& after.input.len() == 0 && after.pending.len() == 0 && after.skip == 0
            &&& after.first && after.channels == state.tempo.channels
        }),
{
}

} // verus!
