//! The state that the decoder, the output and the player share about one source:
//! the queue of decoded samples, the stop requests, the end of the stream and the
//! position.
//!
//! One lock guards a [`SharedAudio`]. Whoever holds it and finds that
//! [`SharedAudio::take_queue_changed`] returns true wakes those that wait for the
//! queue.

use std::collections::VecDeque;
use vstd::arithmetic::power2::{
    lemma2_to64, lemma2_to64_rest, lemma_pow2_adds, lemma_pow2_pos, lemma_pow2_strictly_increases,
    pow2,
};
use vstd::prelude::*;

use crate::float_bits::{silence, Double, Single};
use crate::float_ops::{
    multiplying_by_zero_gives_zero, products_commute, quotients_are_near, size, times_in_samples,
    units, whole, whole_numbers_lie_at_their_value,
};

verus! {

/// Channels of the output stream.
pub const TARGET_CHANNELS: usize = 2;

/// Signals that wait for the signal thread at most.
pub const SIGNAL_CAPACITY: usize = 32;

/// The volume at which samples are put out as they are: 1, as a single.
pub const FULL_VOLUME: u32 = 0x3f80_0000;

/// What the signal thread is told.
#[derive(Clone, Copy, Debug, PartialEq, Eq, Structural)]
pub enum PlaybackSignal {
    TimeUpdate,
    PlaybackEnd,
    Stop,
}

/// How far a push came.
#[derive(Clone, Copy, Debug, PartialEq, Eq, Structural)]
pub enum PushOutcome {
    /// All samples are in the queue.
    Done,
    /// The queue is full; the samples from `offset` on are still to be pushed.
    Full { offset: usize },
    /// The decoder is to stop; the rest is not pushed.
    Stopped,
}

/// The state of a [`SharedAudio`].
pub struct SharedView {
    pub queue: Seq<Single>,
    pub capacity: nat,
    /// Those that wait for the queue have not been woken since it changed.
    pub queue_changed: bool,
    pub paused: bool,
    pub stop: bool,
    pub output_stop: bool,
    pub output_started: bool,
    pub decode_stop: bool,
    pub eof: bool,
    pub decode_failed: bool,
    pub end_reported: bool,
    pub volume: Single,
    pub sample_rate: u32,
    /// Samples played, per channel.
    pub played: u64,
    /// Where the last time update was due.
    pub last_time_event: u64,
    pub speed: Single,
    /// The interrupt flag of the decoder, where one is bound.
    pub interrupt: Option<bool>,
    /// The signals that wait, where there is a signal thread.
    pub signals: Option<Seq<PlaybackSignal>>,
}

pub open spec fn min_nat(a: nat, b: nat) -> nat {
    if a <= b {
        a
    } else {
        b
    }
}

pub open spec fn max_nat(a: nat, b: nat) -> nat {
    if a >= b {
        a
    } else {
        b
    }
}

/// The capacity of the queue: the requested time for two channels, but no less than a
/// twentieth of a second.
pub open spec fn queue_capacity(sample_rate: u32, buffer_secs: Double) -> nat {
    max_nat(
        min_nat(
            whole(sample_rate as u64).product(buffer_secs).truncated() as nat * TARGET_CHANNELS as nat,
            usize::MAX as nat,
        ),
        sample_rate as nat / 10,
    )
}

/// The samples per channel up to a position in seconds; none up to one before the
/// start.
pub open spec fn samples_until(position_secs: Double, sample_rate: u32) -> u64 {
    position_secs.positive_part().product(whole(sample_rate as u64)).truncated() as u64
}

/// The signals, with one more where there is room.
pub open spec fn with_signal(
    signals: Option<Seq<PlaybackSignal>>,
    signal: PlaybackSignal,
) -> Option<Seq<PlaybackSignal>> {
    match signals {
        Some(waiting) => if waiting.len() < SIGNAL_CAPACITY {
            Some(waiting.push(signal))
        } else {
            Some(waiting)
        },
        None => None,
    }
}

/// The interrupt flag, raised where one is bound.
pub open spec fn raised(interrupt: Option<bool>) -> Option<bool> {
    match interrupt {
        Some(_) => Some(true),
        None => None,
    }
}

impl SharedView {
    /// A fresh state.
    pub open spec fn fresh(sample_rate: u32, buffer_secs: Double, speed: Single) -> SharedView {
        SharedView {
            queue: Seq::empty(),
            capacity: queue_capacity(sample_rate, buffer_secs),
            queue_changed: false,
            paused: true,
            stop: false,
            output_stop: false,
            output_started: false,
            decode_stop: false,
            eof: false,
            decode_failed: false,
            end_reported: false,
            volume: Single { bits: FULL_VOLUME },
            sample_rate,
            played: 0,
            last_time_event: 0,
            speed,
            interrupt: None,
            signals: None,
        }
    }

    /// The queue holds no more than its capacity, and no more signals wait than
    /// may.
    pub open spec fn wf(self) -> bool {
        &&& self.queue.len() <= self.capacity <= usize::MAX
        &&& self.signals matches Some(waiting) ==> waiting.len() <= SIGNAL_CAPACITY
    }

    pub open spec fn stopping_output(self) -> bool {
        self.stop || self.output_stop
    }

    pub open spec fn stopping_decoding(self) -> bool {
        self.stop || self.decode_stop
    }

    pub open spec fn signalled(self, signal: PlaybackSignal) -> SharedView {
        SharedView { signals: with_signal(self.signals, signal), ..self }
    }

    pub open spec fn stop_requested(self) -> SharedView {
        SharedView {
            stop: true,
            output_stop: true,
            decode_stop: true,
            interrupt: raised(self.interrupt),
            queue_changed: true,
            ..self.signalled(PlaybackSignal::Stop)
        }
    }

    pub open spec fn output_stop_requested(self) -> SharedView {
        SharedView { output_stop: true, output_started: false, queue_changed: true, ..self }
    }

    pub open spec fn output_restart_prepared(self) -> SharedView {
        if self.stop {
            self
        } else {
            SharedView { output_stop: false, output_started: false, queue_changed: true, ..self }
        }
    }

    pub open spec fn decode_stop_requested(self) -> SharedView {
        SharedView {
            decode_stop: true,
            interrupt: raised(self.interrupt),
            queue_changed: true,
            ..self
        }
    }

    /// The samples that a push takes from `count` that are left: as many as there
    /// is room for, none where the decoder is to stop.
    pub open spec fn room(self, count: nat) -> nat {
        if self.stopping_decoding() || self.queue.len() >= self.capacity {
            0
        } else {
            min_nat(count, (self.capacity - self.queue.len()) as nat)
        }
    }

    pub open spec fn pushed(self, samples: Seq<Single>, offset: nat) -> SharedView {
        let count = self.room((samples.len() - offset) as nat);
        SharedView {
            queue: self.queue + samples.subrange(offset as int, (offset + count) as int),
            queue_changed: self.queue_changed || count > 0,
            ..self
        }
    }

    pub open spec fn push_outcome(self, samples: Seq<Single>, offset: nat) -> PushOutcome {
        let count = self.room((samples.len() - offset) as nat);
        if offset + count == samples.len() {
            PushOutcome::Done
        } else if self.stopping_decoding() {
            PushOutcome::Stopped
        } else {
            PushOutcome::Full { offset: (offset + count) as usize }
        }
    }

    /// The samples that leave the queue for an output of `count`.
    pub open spec fn poppable(self, count: nat) -> nat {
        min_nat(count, self.queue.len())
    }

    /// What an output of `count` samples gets: the front of the queue, then
    /// silence.
    pub open spec fn popped_samples(self, count: nat) -> Seq<Single> {
        Seq::new(
            count,
            |i: int|
                if i < self.queue.len() {
                    self.queue[i]
                } else {
                    silence()
                },
        )
    }

    /// Time updates are that many samples apart: a fifth of a second.
    pub open spec fn time_interval(self) -> nat {
        max_nat(self.sample_rate as nat / 5, 1)
    }

    /// The state after the position came to `current`: a time update is signalled
    /// where the last one is an interval ago.
    pub open spec fn time_reached(self, current: u64) -> SharedView {
        if current - self.last_time_event < self.time_interval() {
            self
        } else {
            SharedView {
                last_time_event: current,
                ..self.signalled(PlaybackSignal::TimeUpdate)
            }
        }
    }

    pub open spec fn popped(self, count: nat) -> SharedView {
        let taken = self.poppable(count);
        let frames = taken / TARGET_CHANNELS as nat;
        if taken == 0 {
            self
        } else {
            SharedView {
                queue: self.queue.skip(taken as int),
                queue_changed: true,
                played: ((self.played + frames) % 0x1_0000_0000_0000_0000) as u64,
                ..self
            }.time_reached(min_nat((self.played + frames) as nat, u64::MAX as nat) as u64)
        }
    }

    /// The position in seconds.
    pub open spec fn position_secs(self) -> Double {
        whole(self.played).over(self.sample_rate)
    }

    pub open spec fn drained(self) -> bool {
        self.eof && self.queue.len() == 0
    }

    /// The other state has the same pause, volume, speed, sample rate and capacity.
    pub open spec fn same_settings(self, other: SharedView) -> bool {
        &&& other.paused == self.paused
        &&& other.volume == self.volume
        &&& other.speed == self.speed
        &&& other.sample_rate == self.sample_rate
        &&& other.capacity == self.capacity
    }

    /// The other state has come as far: it has the same queue, the same position, the same
    /// end and the same signals.
    pub open spec fn same_progress(self, other: SharedView) -> bool {
        &&& other.queue == self.queue
        &&& other.played == self.played
        &&& other.last_time_event == self.last_time_event
        &&& other.eof == self.eof
        &&& other.decode_failed == self.decode_failed
        &&& other.end_reported == self.end_reported
        &&& other.signals == self.signals
    }

    /// The other state has the same stop requests, the same end and the same interrupt
    /// flag.
    pub open spec fn same_stops(self, other: SharedView) -> bool {
        &&& other.stop == self.stop
        &&& other.output_stop == self.output_stop
        &&& other.output_started == self.output_started
        &&& other.decode_stop == self.decode_stop
        &&& other.interrupt == self.interrupt
        &&& other.eof == self.eof
        &&& other.decode_failed == self.decode_failed
        &&& other.end_reported == self.end_reported
    }

    pub open spec fn reset_to(self, position: u64) -> SharedView {
        SharedView {
            queue: Seq::empty(),
            queue_changed: true,
            decode_stop: false,
            eof: false,
            decode_failed: false,
            end_reported: false,
            played: position,
            last_time_event: position,
            ..self
        }
    }
}

/// The state that the threads of one source share.
pub struct SharedAudio {
    queue: VecDeque<Single>,
    queue_capacity: usize,
    queue_changed: bool,
    paused: bool,
    stop: bool,
    output_stop: bool,
    output_started: bool,
    decode_stop: bool,
    eof: bool,
    decode_failed: bool,
    end_reported: bool,
    volume: Single,
    sample_rate: u32,
    played_samples: u64,
    last_time_event_samples: u64,
    speed: Single,
    interrupt: Option<bool>,
    signals: Option<VecDeque<PlaybackSignal>>,
}

impl View for SharedAudio {
    type V = SharedView;

    closed spec fn view(&self) -> SharedView {
        SharedView {
            queue: self.queue@,
            capacity: self.queue_capacity as nat,
            queue_changed: self.queue_changed,
            paused: self.paused,
            stop: self.stop,
            output_stop: self.output_stop,
            output_started: self.output_started,
            decode_stop: self.decode_stop,
            eof: self.eof,
            decode_failed: self.decode_failed,
            end_reported: self.end_reported,
            volume: self.volume,
            sample_rate: self.sample_rate,
            played: self.played_samples,
            last_time_event: self.last_time_event_samples,
            speed: self.speed,
            interrupt: self.interrupt,
            signals: match self.signals {
                Some(waiting) => Some(waiting@),
                None => None,
            },
        }
    }
}

impl SharedAudio {
    /// The state for a source at `sample_rate` with a queue of `buffer_secs` seconds:
    /// paused, at the start, at full volume.
    pub fn new(sample_rate: u32, buffer_secs: Double, speed: Single) -> (result: SharedAudio)
        ensures
            result@.wf(),
            result@ == SharedView::fresh(sample_rate, buffer_secs, speed),
    {
        let frames: u64 = Double::from_u64(sample_rate as u64).multiply(buffer_secs).to_u64();
        let samples: u128 = frames as u128 * TARGET_CHANNELS as u128;
        let wanted: usize = if samples > usize::MAX as u128 {
            usize::MAX
        } else {
            samples as usize
        };
        let least: usize = sample_rate as usize / 10;
        SharedAudio {
            queue: VecDeque::new(),
            queue_capacity: if wanted >= least {
                wanted
            } else {
                least
            },
            queue_changed: false,
            paused: true,
            stop: false,
            output_stop: false,
            output_started: false,
            decode_stop: false,
            eof: false,
            decode_failed: false,
            end_reported: false,
            volume: Single { bits: FULL_VOLUME },
            sample_rate,
            played_samples: 0,
            last_time_event_samples: 0,
            speed,
            interrupt: None,
            signals: None,
        }
    }

    /// Sets the speed for the decoder to take up.
    pub fn set_speed(&mut self, speed: Single)
        ensures
            final(self)@ == (SharedView { speed, ..old(self)@ }),
    {
        self.speed = speed;
    }

    /// The speed for the decoder to take up.
    pub fn current_speed(&self) -> (result: Single)
        ensures
            result == self@.speed,
    {
        self.speed
    }

    /// Sets the volume.
    pub fn set_volume(&mut self, volume: Single)
        ensures
            final(self)@ == (SharedView { volume, ..old(self)@ }),
    {
        self.volume = volume;
    }

    /// The volume.
    pub fn volume(&self) -> (result: Single)
        ensures
            result == self@.volume,
    {
        self.volume
    }

    /// Pauses or resumes the output.
    pub fn set_paused(&mut self, paused: bool)
        ensures
            final(self)@ == (SharedView { paused, ..old(self)@ }),
    {
        self.paused = paused;
    }

    /// Whether the output is paused.
    pub fn is_paused(&self) -> (result: bool)
        ensures
            result == self@.paused,
    {
        self.paused
    }

    /// Whether everything is to stop.
    pub fn is_stopped(&self) -> (result: bool)
        ensures
            result == self@.stop,
    {
        self.stop
    }

    /// The sample rate of the output.
    pub fn sample_rate(&self) -> (result: u32)
        ensures
            result == self@.sample_rate,
    {
        self.sample_rate
    }

    /// The length of the ring of recent samples that the spectrum is taken from:
    /// one second of two channels.
    pub fn spectrum_capacity(&self) -> (result: usize)
        requires
            self@.sample_rate * 2 <= usize::MAX,
        ensures
            result == self@.sample_rate * 2,
    {
        self.sample_rate as usize * 2
    }

    /// Asks everything to stop, for good.
    pub fn request_stop(&mut self)
        ensures
            final(self)@ == old(self)@.stop_requested(),
    {
        self.stop = true;
        self.output_stop = true;
        self.decode_stop = true;
        if self.interrupt.is_some() {
            self.interrupt = Some(true);
        }
        self.notify_signal(PlaybackSignal::Stop);
        self.queue_changed = true;
    }

    /// Asks the output to stop.
    pub fn request_output_stop(&mut self)
        ensures
            final(self)@ == old(self)@.output_stop_requested(),
    {
        self.output_stop = true;
        self.output_started = false;
        self.queue_changed = true;
    }

    /// Lets a new output start, unless everything is to stop.
    pub fn prepare_output_restart(&mut self)
        ensures
            final(self)@ == old(self)@.output_restart_prepared(),
    {
        if self.stop {
            return;
        }
        self.output_stop = false;
        self.output_started = false;
        self.queue_changed = true;
    }

    /// Whether the output is to stop.
    pub fn should_stop_output(&self) -> (result: bool)
        ensures
            result == self@.stopping_output(),
    {
        self.stop || self.output_stop
    }

    /// Notes that the output runs.
    pub fn mark_output_started(&mut self)
        ensures
            final(self)@ == (SharedView { output_started: true, ..old(self)@ }),
    {
        self.output_started = true;
    }

    /// Asks the decoder to stop, and interrupts what it reads.
    pub fn request_decode_stop(&mut self)
        ensures
            final(self)@ == old(self)@.decode_stop_requested(),
    {
        self.decode_stop = true;
        if self.interrupt.is_some() {
            self.interrupt = Some(true);
        }
        self.queue_changed = true;
    }

    /// Whether the decoder is to stop.
    pub fn should_stop_decoding(&self) -> (result: bool)
        ensures
            result == self@.stopping_decoding(),
    {
        self.stop || self.decode_stop
    }

    /// Binds the interrupt flag of a decoder, lowered.
    pub fn bind_interrupt(&mut self)
        ensures
            final(self)@ == (SharedView { interrupt: Some(false), ..old(self)@ }),
    {
        self.interrupt = Some(false);
    }

    /// Whether an interrupt flag is bound and raised.
    pub fn is_interrupted(&self) -> (result: bool)
        ensures
            result == (self@.interrupt == Some(true)),
    {
        match self.interrupt {
            Some(flag) => flag,
            None => false,
        }
    }

    /// Binds a signal thread, for which no signal waits yet.
    pub fn bind_signal_sender(&mut self)
        ensures
            final(self)@ == (SharedView { signals: Some(Seq::empty()), ..old(self)@ }),
    {
        self.signals = Some(VecDeque::new());
    }

    /// Leaves a signal for the signal thread. It is lost where there is no such
    /// thread or too many wait.
    pub fn notify_signal(&mut self, signal: PlaybackSignal)
        ensures
            final(self)@ == old(self)@.signalled(signal),
    {
        match &mut self.signals {
            Some(waiting) => {
                if waiting.len() < SIGNAL_CAPACITY {
                    waiting.push_back(signal);
                }
            },
            None => {},
        }
    }

    /// Takes the signal that has waited longest.
    pub fn next_signal(&mut self) -> (result: Option<PlaybackSignal>)
        ensures
            match result {
                Some(signal) => {
                    &&& old(self)@.signals matches Some(waiting) && waiting.len() > 0
                        && waiting[0] == signal && final(self)@ == (SharedView {
                        signals: Some(waiting.skip(1)),
                        ..old(self)@
                    })
                },
                None => {
                    &&& old(self)@.signals matches Some(waiting) ==> waiting.len() == 0
                    &&& final(self)@ == old(self)@
                },
            },
    {
        match &mut self.signals {
            Some(waiting) => waiting.pop_front(),
            None => None,
        }
    }

    /// Takes note that those that wait for the queue are to be woken.
    pub fn take_queue_changed(&mut self) -> (result: bool)
        ensures
            result == old(self)@.queue_changed,
            final(self)@ == (SharedView { queue_changed: false, ..old(self)@ }),
    {
        let changed: bool = self.queue_changed;
        self.queue_changed = false;
        changed
    }

    /// Appends the samples from `offset` on to the queue, as far as there is room.
    /// Where the outcome is [`PushOutcome::Full`] the caller waits for the queue to
    /// change and goes on from the offset it was given.
    pub fn push_samples(&mut self, samples: &[Single], offset: usize) -> (result: PushOutcome)
        requires
            offset <= samples@.len(),
        ensures
            result == old(self)@.push_outcome(samples@, offset as nat),
            final(self)@ == old(self)@.pushed(samples@, offset as nat),
            old(self)@.wf() ==> final(self)@.wf(),
    {
        let ghost before = self@;
        let ghost count = before.room((samples@.len() - offset) as nat);
        if offset == samples.len() {
            assert(self.queue@ =~= before.pushed(samples@, offset as nat).queue);
            return PushOutcome::Done;
        }
        if self.should_stop_decoding() {
            assert(self.queue@ =~= before.pushed(samples@, offset as nat).queue);
            return PushOutcome::Stopped;
        }
        if self.queue.len() >= self.queue_capacity {
            assert(self.queue@ =~= before.pushed(samples@, offset as nat).queue);
            return PushOutcome::Full { offset };
        }
        let space: usize = self.queue_capacity - self.queue.len();
        let left: usize = samples.len() - offset;
        let end: usize = if left <= space {
            samples.len()
        } else {
            offset + space
        };
        assert(end == offset + count);
        let mut i: usize = offset;
        while i < end
            invariant
                offset <= i <= end <= samples@.len(),
                self.queue@ == before.queue + samples@.subrange(offset as int, i as int),
                self@ == (SharedView { queue: self.queue@, ..before }),
            decreases end - i,
        {
            self.queue.push_back(samples[i]);
            i = i + 1;
            assert(self.queue@ =~= before.queue + samples@.subrange(offset as int, i as int));
        }
        self.queue_changed = true;
        if end == samples.len() {
            PushOutcome::Done
        } else {
            PushOutcome::Full { offset: end }
        }
    }

    /// Fills the output from the front of the queue, and with silence where the
    /// queue runs out. Returns the samples per channel that came from the queue.
    pub fn pop_into(&mut self, output: &mut [Single]) -> (result: usize)
        ensures
            final(output)@ == old(self)@.popped_samples(old(output)@.len()),
            result == old(self)@.poppable(old(output)@.len()) / TARGET_CHANNELS as nat,
            final(self)@ == old(self)@.popped(old(output)@.len()),
            old(self)@.wf() ==> final(self)@.wf(),
    {
        let ghost before = self@;
        let consumed: usize = self.take_front(output);
        if consumed > 0 {
            self.queue_changed = true;
            let frames: usize = consumed / TARGET_CHANNELS;
            let previous: u64 = self.played_samples;
            self.played_samples = previous.wrapping_add(frames as u64);
            let current: u64 = previous.saturating_add(frames as u64);
            self.notify_time_update_if_due(current);
            frames
        } else {
            assert(before.queue.skip(0) =~= before.queue);
            0
        }
    }

    /// Fills the output from the front of the queue, and with silence where the
    /// queue runs out. Returns the samples that came from the queue.
    fn take_front(&mut self, output: &mut [Single]) -> (result: usize)
        ensures
            final(output)@ == old(self)@.popped_samples(old(output)@.len()),
            result == old(self)@.poppable(old(output)@.len()),
            final(self)@ == (SharedView {
                queue: old(self)@.queue.skip(result as int),
                ..old(self)@
            }),
    {
        let ghost before = self@;
        let ghost count = output@.len();
        let length: usize = output.len();
        let mut consumed: usize = 0;
        let mut i: usize = 0;
        assert(before.queue.skip(0) =~= before.queue);
        while i < length
            invariant
                i <= length,
                length == count,
                output@.len() == count,
                consumed == min_nat(i as nat, before.queue.len()),
                forall|j: int|
                    0 <= j < i ==> output@[j] == before.popped_samples(count)[j],
                self.queue@ == before.queue.skip(consumed as int),
                self@ == (SharedView { queue: self.queue@, ..before }),
            decreases length - i,
        {
            match self.queue.pop_front() {
                Some(sample) => {
                    output[i] = sample;
                    consumed = consumed + 1;
                    assert(self.queue@ =~= before.queue.skip(consumed as int));
                },
                None => {
                    output[i] = silence();
                },
            }
            i = i + 1;
        }
        assert(output@ =~= before.popped_samples(count));
        consumed
    }

    /// Signals a time update where the last one is an interval before `current`.
    fn notify_time_update_if_due(&mut self, current: u64)
        ensures
            final(self)@ == old(self)@.time_reached(current),
    {
        let fifth: u64 = self.sample_rate as u64 / 5;
        let interval: u64 = if fifth >= 1 {
            fifth
        } else {
            1
        };
        if current.saturating_sub(self.last_time_event_samples) < interval {
            return;
        }
        self.last_time_event_samples = current;
        self.notify_signal(PlaybackSignal::TimeUpdate);
    }

    /// Notes that the stream has ended: nothing more is pushed.
    pub fn mark_eof(&mut self)
        ensures
            final(self)@ == (SharedView { eof: true, queue_changed: true, ..old(self)@ }),
    {
        self.eof = true;
        self.queue_changed = true;
    }

    /// Notes that decoding failed.
    pub fn mark_decode_failed(&mut self)
        ensures
            final(self)@ == (SharedView { decode_failed: true, ..old(self)@ }),
    {
        self.decode_failed = true;
    }

    /// Whether the stream has ended and all of it was taken.
    pub fn is_drained(&self) -> (result: bool)
        ensures
            result == self@.drained(),
    {
        self.eof && self.queue.len() == 0
    }

    /// Notes that the end was reported. True for the first to do so.
    pub fn mark_end_reported(&mut self) -> (result: bool)
        ensures
            result == !old(self)@.end_reported,
            final(self)@ == (SharedView { end_reported: true, ..old(self)@ }),
    {
        let first: bool = !self.end_reported;
        self.end_reported = true;
        first
    }

    /// The position in the source, in seconds.
    pub fn position_secs(&self) -> (result: Double)
        ensures
            result == self@.position_secs(),
    {
        Double::from_u64(self.played_samples).divide(self.sample_rate)
    }

    /// Empties the queue for a decoder that goes on at a position in seconds.
    pub fn reset_for_decode_resume(&mut self, position_secs: Double)
        ensures
            final(self)@ == old(self)@.reset_to(
                samples_until(position_secs, old(self)@.sample_rate),
            ),
    {
        let rate: Double = Double::from_u64(self.sample_rate as u64);
        let position: u64 = position_secs.max_zero().multiply(rate).to_u64();
        self.queue.clear();
        self.decode_stop = false;
        self.eof = false;
        self.decode_failed = false;
        self.end_reported = false;
        self.played_samples = position;
        self.last_time_event_samples = position;
        self.queue_changed = true;
    }
}

/// A push loses, repeats and reorders nothing: the queue followed by what is still
/// to be pushed is what it was before. All is pushed where the outcome says so, and
/// where the decoder is to stop the queue stays as it is.
pub proof fn pushing_keeps_every_sample(state: SharedView, samples: Seq<Single>, offset: nat)
    requires
        state.wf(),
        offset <= samples.len() <= usize::MAX,
    ensures
        match state.push_outcome(samples, offset) {
            PushOutcome::Done => state.pushed(samples, offset).queue == state.queue
                + samples.skip(offset as int),
            PushOutcome::Full { offset: next } => {
                &&& offset <= next < samples.len()
                &&& state.pushed(samples, offset).queue + samples.skip(next as int)
                    == state.queue + samples.skip(offset as int)
                &&& state.pushed(samples, offset).queue.len() == state.capacity
            },
            PushOutcome::Stopped => state.pushed(samples, offset) == state,
        },
{
    let after = state.pushed(samples, offset);
    match state.push_outcome(samples, offset) {
        PushOutcome::Done => {
            assert(after.queue =~= state.queue + samples.skip(offset as int));
        },
        PushOutcome::Full { offset: next } => {
            assert(after.queue + samples.skip(next as int) =~= state.queue + samples.skip(
                offset as int,
            ));
        },
        PushOutcome::Stopped => {
            assert(after.queue =~= state.queue);
        },
    }
}

/// Samples come out in the order in which they went in: where there is room, what
/// is pushed follows what was queued, and an output that takes as many empties the
/// queue.
pub proof fn pushed_samples_come_out_in_order(state: SharedView, samples: Seq<Single>)
    requires
        state.wf(),
        !state.stopping_decoding(),
        state.queue.len() + samples.len() <= state.capacity,
    ensures
        state.push_outcome(samples, 0) == PushOutcome::Done,
        state.pushed(samples, 0).popped_samples(state.queue.len() + samples.len()) == state.queue
            + samples,
        state.pushed(samples, 0).popped(state.queue.len() + samples.len()).queue.len() == 0,
{
    pushing_keeps_every_sample(state, samples, 0);
    assert(samples.skip(0) =~= samples);
    assert(state.pushed(samples, 0).popped_samples(state.queue.len() + samples.len())
        =~= state.queue + samples);
}

/// Two outputs, one after the other, get what one output of their joint length
/// gets, and leave the same queue.
pub proof fn popping_in_portions(state: SharedView, a: nat, b: nat)
    ensures
        state.popped_samples(a + b) == state.popped_samples(a) + state.popped(a).popped_samples(b),
        state.popped(a + b).queue == state.popped(a).popped(b).queue,
{
    assert(state.popped(a).queue =~= state.queue.skip(state.poppable(a) as int));
    assert(state.popped_samples(a + b) =~= state.popped_samples(a) + state.popped(
        a,
    ).popped_samples(b));
    assert(state.popped(a + b).queue =~= state.popped(a).popped(b).queue);
}

/// A pop loses, repeats and reorders nothing: what the output got from the queue,
/// followed by what is still queued, is what was queued before.
pub proof fn popping_keeps_every_sample(state: SharedView, count: nat)
    ensures
        state.popped_samples(count).take(state.poppable(count) as int) + state.popped(count).queue
            == state.queue,
{
    assert(state.popped(count).queue =~= state.queue.skip(state.poppable(count) as int));
    assert(state.popped_samples(count).take(state.poppable(count) as int) + state.popped(
        count,
    ).queue =~= state.queue);
}

/// What happens next between a decoder that pushes samples and an output that pops
/// them.
pub enum Turn {
    /// The decoder pushes on from where it came.
    Push,
    /// The output asks for that many samples.
    Pop(nat),
}

/// Where a decoder and an output have come: the shared state, the first sample that is
/// still to be pushed, and what the output got from the queue.
pub struct Passage {
    pub state: SharedView,
    pub offset: nat,
    pub out: Seq<Single>,
}

impl Passage {
    /// One turn later.
    pub open spec fn next(self, samples: Seq<Single>, turn: Turn) -> Passage {
        match turn {
            Turn::Push => Passage {
                state: self.state.pushed(samples, self.offset),
                offset: match self.state.push_outcome(samples, self.offset) {
                    PushOutcome::Done => samples.len(),
                    PushOutcome::Full { offset } => offset as nat,
                    PushOutcome::Stopped => self.offset,
                },
                ..self
            },
            Turn::Pop(count) => Passage {
                state: self.state.popped(count),
                out: self.out + self.state.popped_samples(count).take(
                    self.state.poppable(count) as int,
                ),
                ..self
            },
        }
    }

    /// After those turns.
    pub open spec fn after(self, samples: Seq<Single>, turns: Seq<Turn>) -> Passage
        decreases turns.len(),
    {
        if turns.len() == 0 {
            self
        } else {
            self.next(samples, turns.first()).after(samples, turns.drop_first())
        }
    }
}

/// However the turns of the decoder and the output fall, the output gets the samples
/// in the order in which they were pushed, none twice and none left out: what it got,
/// what is queued and what is still to be pushed make up what there was.
pub proof fn samples_pass_through_in_order(
    from: Passage,
    samples: Seq<Single>,
    turns: Seq<Turn>,
)
    requires
        from.state.wf(),
        from.offset <= samples.len() <= usize::MAX,
    ensures
        ({
            let to = from.after(samples, turns);
            &&& to.state.wf()
            &&& from.offset <= to.offset <= samples.len()
            &&& to.out + to.state.queue + samples.skip(to.offset as int) == from.out
                + from.state.queue + samples.skip(from.offset as int)
        }),
    decreases turns.len(),
{
    if turns.len() > 0 {
        let next = from.next(samples, turns.first());
        match turns.first() {
            Turn::Push => {
                pushing_keeps_every_sample(from.state, samples, from.offset);
                assert(samples.skip(samples.len() as int) =~= Seq::<Single>::empty());
                assert(next.out + next.state.queue + samples.skip(next.offset as int) =~= next.out
                    + (next.state.queue + samples.skip(next.offset as int)));
                assert(from.out + from.state.queue + samples.skip(from.offset as int) =~= from.out
                    + (from.state.queue + samples.skip(from.offset as int)));
                assert(next.state.queue + samples.skip(next.offset as int) =~= from.state.queue
                    + samples.skip(from.offset as int));
            },
            Turn::Pop(count) => {
                popping_keeps_every_sample(from.state, count);
                let got = from.state.popped_samples(count).take(
                    from.state.poppable(count) as int,
                );
                assert(next.out + next.state.queue =~= from.out + (got + next.state.queue));
            },
        }
        samples_pass_through_in_order(next, samples, turns.drop_first());
    }
}

/// The position advances by the frames that left the queue.
pub proof fn position_advances_by_consumed_frames(state: SharedView, count: nat)
    requires
        state.played + state.poppable(count) / TARGET_CHANNELS as nat <= u64::MAX,
    ensures
        state.popped(count).played == state.played + state.poppable(count)
            / TARGET_CHANNELS as nat,
{
}

/// The end of the stream is seen only after the queue was emptied: an output
/// finishes the stream exactly where the stream has ended and the output takes all
/// that is queued.
pub proof fn end_is_seen_after_draining(state: SharedView, count: nat)
    ensures
        state.popped(count).drained() == (state.eof && state.queue.len() <= count),
{
}

/// A stop is for good: whatever follows, the output and the decoder are to stop.
pub proof fn a_stop_is_final(
    state: SharedView,
    samples: Seq<Single>,
    offset: nat,
    count: nat,
    position: u64,
)
    requires
        state.stop,
    ensures
        state.stopping_output(),
        state.stopping_decoding(),
        state.stop_requested().stop,
        state.output_stop_requested().stop,
        state.output_restart_prepared() == state,
        state.decode_stop_requested().stop,
        state.pushed(samples, offset).stop,
        state.popped(count).stop,
        state.reset_to(position).stop,
{
}

/// Every operation keeps the queue within its capacity and the signals within
/// theirs.
pub proof fn every_operation_keeps_the_bounds(
    state: SharedView,
    samples: Seq<Single>,
    offset: nat,
    count: nat,
    position: u64,
    signal: PlaybackSignal,
)
    requires
        state.wf(),
        offset <= samples.len(),
    ensures
        state.signalled(signal).wf(),
        state.stop_requested().wf(),
        state.output_stop_requested().wf(),
        state.output_restart_prepared().wf(),
        state.decode_stop_requested().wf(),
        state.pushed(samples, offset).wf(),
        state.popped(count).wf(),
        state.reset_to(position).wf(),
{
}

/// A request to stop reaches the output, the decoder and the signal thread, unless
/// too many signals wait already, and raises the bound interrupt flag.
pub proof fn a_stop_reaches_everyone(state: SharedView)
    requires
        state.wf(),
    ensures
        state.stop_requested().wf(),
        state.stop_requested().stopping_output(),
        state.stop_requested().stopping_decoding(),
        state.interrupt is Some ==> state.stop_requested().interrupt == Some(true),
        state.signals matches Some(waiting) ==> waiting.len() < SIGNAL_CAPACITY
            ==> state.stop_requested().signals == Some(waiting.push(PlaybackSignal::Stop)),
{
}

/// Stopping the output is undone by preparing its restart, as long as not
/// everything is to stop.
pub proof fn output_can_restart(state: SharedView)
    requires
        !state.stop,
    ensures
        !state.output_stop_requested().output_restart_prepared().stopping_output(),
        state.output_stop_requested().stopping_output(),
{
}

/// An output signals at most one time update, and only where the position came an
/// interval or more past the last one.
pub proof fn time_updates_are_an_interval_apart(state: SharedView, count: nat)
    ensures
        ({
            let after = state.popped(count);
            let taken = if count <= state.queue.len() {
                count
            } else {
                state.queue.len()
            };
            let current = if state.played + taken / 2 <= u64::MAX {
                state.played + taken / 2
            } else {
                u64::MAX as int
            };
            let apart = current - state.last_time_event;
            let due = taken > 0 && apart >= 1 && apart >= state.sample_rate as nat / 5;
            &&& after.last_time_event == if due {
                current as u64
            } else {
                state.last_time_event
            }
            &&& after.signals == if due {
                with_signal(state.signals, PlaybackSignal::TimeUpdate)
            } else {
                state.signals
            }
        }),
{
}

/// A decoder that goes on elsewhere finds the queue empty and the end neither
/// reached nor reported, and the position, from which the next time update is counted,
/// is where it goes on. The speed, the volume, the pause, the output, the interrupt flag
/// and the signals stay.
pub proof fn resuming_starts_afresh(state: SharedView, position: u64)
    ensures
        state.reset_to(position).queue.len() == 0,
        !state.reset_to(position).drained(),
        !state.reset_to(position).end_reported,
        !state.reset_to(position).eof,
        !state.reset_to(position).decode_failed,
        !state.reset_to(position).decode_stop,
        state.reset_to(position).played == position,
        state.reset_to(position).last_time_event == position,
        state.reset_to(position).stop == state.stop,
        state.reset_to(position).output_stop == state.output_stop,
        state.reset_to(position).output_started == state.output_started,
        state.reset_to(position).interrupt == state.interrupt,
        state.reset_to(position).signals == state.signals,
        state.reset_to(position).stopping_decoding() == state.stop,
        state.reset_to(position).paused == state.paused,
        state.reset_to(position).speed == state.speed,
        state.reset_to(position).volume == state.volume,
        state.wf() ==> state.reset_to(position).wf(),
{
}

/// After decoding goes on elsewhere, time updates are counted from there: whatever was
/// played and signalled before, an output of samples that were queued since signals a time
/// update exactly where it takes a fifth of a second of them or more.
pub proof fn time_updates_go_on_where_decoding_does(
    state: SharedView,
    position: u64,
    queue: Seq<Single>,
    count: nat,
)
    requires
        queue.len() > 0,
        count > 0,
        position + queue.len() <= u64::MAX,
    ensures
        ({
            let after = SharedView { queue, ..state.reset_to(position) }.popped(count);
            let taken = if count <= queue.len() {
                count
            } else {
                queue.len()
            };
            let due = taken / 2 >= 1 && taken / 2 >= state.sample_rate as nat / 5;
            &&& state.reset_to(position).last_time_event == position
            &&& after.played == position + taken / 2
            &&& after.last_time_event == if due {
                position + taken / 2
            } else {
                position as int
            }
            &&& !due ==> after.signals == state.signals
            &&& due ==> match state.signals {
                Some(waiting) => after.signals == Some(
                    if waiting.len() < 32 {
                        waiting.push(PlaybackSignal::TimeUpdate)
                    } else {
                        waiting
                    },
                ),
                None => after.signals is None,
            }
        }),
{
}

/// The decoder is told to stop pushing exactly where it is to stop and samples are left.
pub proof fn a_push_is_stopped_by_a_stop_alone(
    state: SharedView,
    samples: Seq<Single>,
    offset: nat,
)
    requires
        state.wf(),
        offset <= samples.len() <= usize::MAX,
    ensures
        (state.push_outcome(samples, offset) == PushOutcome::Stopped) == (offset < samples.len()
            && (state.stop || state.decode_stop)),
        !state.stop && !state.decode_stop ==> (state.push_outcome(samples, offset)
            == PushOutcome::Done) == (state.queue.len() + (samples.len() - offset)
            <= state.capacity || offset == samples.len()),
{
}

/// An output gets as many samples as it has room for: those of the queue in their order,
/// and silence from where the queue ends.
pub proof fn an_output_is_filled_up_with_silence(state: SharedView, count: nat, i: int)
    requires
        0 <= i < count,
    ensures
        state.popped_samples(count).len() == count,
        i < state.queue.len() ==> state.popped_samples(count)[i] == state.queue[i],
        i >= state.queue.len() ==> state.popped_samples(count)[i] == (Single { bits: 0 }),
{
}

/// What leaves the queue for an output leaves it from the front, and what stays does so in
/// its order.
pub proof fn an_output_takes_the_front(state: SharedView, count: nat, i: int)
    ensures
        state.popped(count).queue.len() == if count <= state.queue.len() {
            state.queue.len() - count
        } else {
            0
        },
        0 <= i < state.queue.len() - count ==> state.popped(count).queue[i] == state.queue[i
            + count],
{
}

/// Signals wait in the order in which they were left, 32 of them at most; one that comes
/// when so many wait is lost, and the ones that wait stay.
pub proof fn signals_wait_in_order(state: SharedView, signal: PlaybackSignal)
    ensures
        match state.signals {
            Some(waiting) => state.signalled(signal) == (SharedView {
                signals: Some(
                    if waiting.len() < 32 {
                        waiting.push(signal)
                    } else {
                        waiting
                    },
                ),
                ..state
            }),
            None => state.signalled(signal) == state,
        },
{
}

/// Whatever else happens, the pause, the volume, the speed, the sample rate and the
/// capacity change by none of these operations.
pub proof fn settings_stay_as_they_are(
    state: SharedView,
    samples: Seq<Single>,
    offset: nat,
    count: nat,
    position: u64,
    signal: PlaybackSignal,
)
    ensures
        state.same_settings(state.signalled(signal)),
        state.same_settings(state.stop_requested()),
        state.same_settings(state.output_stop_requested()),
        state.same_settings(state.output_restart_prepared()),
        state.same_settings(state.decode_stop_requested()),
        state.same_settings(state.pushed(samples, offset)),
        state.same_settings(state.popped(count)),
        state.same_settings(state.reset_to(position)),
{
}

/// Stopping or restarting the output leaves the decoder alone, and stopping the decoder
/// leaves the output alone; neither stops everything, and what is queued, the position and
/// the end stay as they are.
pub proof fn a_stop_concerns_its_own_thread(state: SharedView)
    ensures
        state.output_stop_requested().output_stop,
        !state.output_stop_requested().output_started,
        state.decode_stop_requested().decode_stop,
        state.interrupt is Some ==> state.decode_stop_requested().interrupt == Some(true),
        state.interrupt is None ==> state.decode_stop_requested().interrupt is None,
        !state.stop ==> !state.output_restart_prepared().output_stop
            && !state.output_restart_prepared().output_started,
        state.decode_stop_requested().output_stop == state.output_stop,
        state.decode_stop_requested().output_started == state.output_started,
        state.output_stop_requested().decode_stop == state.decode_stop,
        state.output_stop_requested().interrupt == state.interrupt,
        state.output_restart_prepared().decode_stop == state.decode_stop,
        state.output_restart_prepared().interrupt == state.interrupt,
        state.same_progress(state.output_stop_requested()),
        state.same_progress(state.output_restart_prepared()),
        state.same_progress(state.decode_stop_requested()),
        state.stop_requested().stop,
        state.stop_requested().queue == state.queue,
        state.stop_requested().played == state.played,
        state.stop_requested().eof == state.eof,
        state.output_stop_requested().stop == state.stop,
        state.decode_stop_requested().stop == state.stop,
{
}

/// Pushing and popping leave the stop requests, the end and the interrupt flag alone, and
/// pushing the position and the signals too.
pub proof fn samples_leave_the_rest_alone(
    state: SharedView,
    samples: Seq<Single>,
    offset: nat,
    count: nat,
)
    ensures
        state.same_stops(state.pushed(samples, offset)),
        state.same_stops(state.popped(count)),
        state.pushed(samples, offset).played == state.played,
        state.pushed(samples, offset).last_time_event == state.last_time_event,
        state.pushed(samples, offset).signals == state.signals,
{
}

/// Those that wait for the queue are to be woken where it changed and where one of them
/// is asked to stop, and a note that they are is not taken back by a push or a pop.
pub proof fn a_change_wakes_those_that_wait(
    state: SharedView,
    samples: Seq<Single>,
    offset: nat,
    count: nat,
    position: u64,
)
    requires
        state.wf(),
        offset <= samples.len(),
    ensures
        state.pushed(samples, offset).queue_changed == (state.queue_changed || state.pushed(
            samples,
            offset,
        ).queue.len() != state.queue.len()),
        state.popped(count).queue_changed == (state.queue_changed || state.popped(
            count,
        ).queue.len() != state.queue.len()),
        state.reset_to(position).queue_changed,
        state.stop_requested().queue_changed,
        state.output_stop_requested().queue_changed,
        state.decode_stop_requested().queue_changed,
        !state.stop ==> state.output_restart_prepared().queue_changed,
{
}

/// The queue holds the time that was asked for, in samples of two channels, but for
/// rounding, and a tenth of the sample rate at least. (The time is in units of the least
/// positive double, of which a second has two to the power of 1074. Times of two to the
/// power of 30 seconds and more are left out.)
pub proof fn the_queue_holds_the_time_asked_for(sample_rate: u32, buffer_secs: Double)
    requires
        !buffer_secs.negative(),
        buffer_secs.exponent() < 1053,
    ensures
        ({
            let capacity = queue_capacity(sample_rate, buffer_secs) as int;
            let exact = 2 * (sample_rate * units(buffer_secs));
            let second = pow2(1074);
            &&& sample_rate / 10 <= capacity <= usize::MAX
            &&& capacity > sample_rate / 10 ==> capacity * second * 0x20_0000_0000_0000 <= exact
                * 0x20_0000_0000_0001 + 0x20_0000_0000_0000
            &&& capacity < usize::MAX ==> exact * 0x1f_ffff_ffff_ffff < (capacity + 2) * second
                * 0x20_0000_0000_0000 + 0x20_0000_0000_0000
        }),
{
    times_in_samples(sample_rate, buffer_secs);
    let count = whole(sample_rate as u64).product(buffer_secs).truncated();
    let capacity = queue_capacity(sample_rate, buffer_secs) as int;
    let second = pow2(1074);
    lemma_pow2_pos(1074);
    let exact = sample_rate * units(buffer_secs);
    if capacity > sample_rate / 10 {
        assert(capacity <= 2 * count);
        assert(capacity * second * 0x20_0000_0000_0000 <= 2 * (count * second
            * 0x20_0000_0000_0000)) by (nonlinear_arith)
            requires
                capacity <= 2 * count,
                second > 0,
        ;
    }
    if capacity < usize::MAX {
        assert(capacity >= 2 * count);
        assert(2 * ((count + 1) * second * 0x20_0000_0000_0000) <= (capacity + 2) * second
            * 0x20_0000_0000_0000) by (nonlinear_arith)
            requires
                capacity >= 2 * count,
                second > 0,
        ;
    }
}

/// Decoding goes on at the sample of the position that was sought: the sample rate times
/// the position without the fraction, but for rounding, and at the start for a position
/// before it.
pub proof fn positions_become_samples(position_secs: Double, sample_rate: u32)
    ensures
        position_secs.negative() || position_secs.not_a_number() ==> samples_until(
            position_secs,
            sample_rate,
        ) == 0,
        !position_secs.negative() && position_secs.exponent() < 1053 ==> {
            let count = samples_until(position_secs, sample_rate) as int;
            let exact = sample_rate * units(position_secs);
            let second = pow2(1074);
            &&& count * second * 0x20_0000_0000_0000 <= exact * 0x20_0000_0000_0001
                + 0x10_0000_0000_0000
            &&& exact * 0x1f_ffff_ffff_ffff < (count + 1) * second * 0x20_0000_0000_0000
                + 0x10_0000_0000_0000
        },
{
    if position_secs.negative() || position_secs.not_a_number() {
        whole_numbers_lie_at_their_value(sample_rate as u64);
        multiplying_by_zero_gives_zero(whole(sample_rate as u64));
        products_commute(whole(sample_rate as u64), Double { bits: 0 });
    } else if position_secs.exponent() < 1053 {
        times_in_samples(sample_rate, position_secs);
    }
}

/// The position in seconds times the sample rate is the number of samples that were
/// played, but for rounding.
pub proof fn the_position_is_what_was_played(state: SharedView)
    requires
        state.sample_rate > 0,
        state.played < 0x20_0000_0000_0000,
    ensures
        size(
            units(state.position_secs()) * state.sample_rate - state.played * pow2(1074),
        ) * 0x20_0000_0000_0000 <= state.played * pow2(1074),
        !state.position_secs().not_a_number(),
{
    let played = state.played as int;
    let rate = state.sample_rate as int;
    let one = pow2(1074) as int;
    let p = units(state.position_secs());
    whole_numbers_lie_at_their_value(state.played);
    quotients_are_near(whole(state.played), state.sample_rate);
    lemma2_to64();
    lemma2_to64_rest();
    lemma_pow2_adds(53, 32);
    lemma_pow2_strictly_increases(85, 1074);
    if played == 0 {
        assert(played * one == 0) by (nonlinear_arith)
            requires
                played == 0,
        ;
        assert(p * rate == 0) by (nonlinear_arith)
            requires
                -rate <= 2 * (p * rate) <= rate,
                rate > 0,
        ;
    } else {
        assert(played * one >= 0x20_0000_0000_0000 * rate) by (nonlinear_arith)
            requires
                played >= 1,
                one >= 0x20_0000_0000_0000 * 0x1_0000_0000,
                0 < rate <= 0xffff_ffff,
        ;
    }
}

} // verus!
