//! Changing the speed of interleaved audio without changing its pitch, by
//! synchronous overlap-add.
//!
//! The input is cut into frames that overlap by half a frame in the output. How
//! far apart two frames start in the input decides the speed. The processor says
//! which input samples make up each output sample; a sample of an overlap is a
//! [`Piece::Blend`] of two input samples with their place in the cross-fade.

use vstd::arithmetic::div_mod::{
    lemma_fundamental_div_mod, lemma_fundamental_div_mod_converse,
};
use vstd::arithmetic::power2::{
    lemma2_to64, lemma2_to64_rest, lemma_pow2_adds, lemma_pow2_pos, lemma_pow2_strictly_increases,
    pow2,
};
use vstd::prelude::*;

use crate::float_bits::{
    clamped_lies_in_range, narrowing_is_monotonic, narrowing_keeps_singles, silence, Double,
    Single, SINGLE_INFINITY, SINGLE_SIGN,
};
use crate::float_ops::{
    multiplying_by_512_is_exact, normal_singles_widen_exactly, nothing_is_apart_from_itself,
    thousandths_are_told_apart,
};

verus! {

/// Samples of a frame, per channel.
pub const FRAME_SIZE: usize = 1024;

/// Samples by which two neighbouring frames overlap, per channel: half a frame.
pub const OVERLAP: usize = 512;

/// The lowest speed, 0.25, as a double.
pub const SPEED_LOW: u64 = 0x3fd0_0000_0000_0000;

/// The highest speed, 4, as a double.
pub const SPEED_HIGH: u64 = 0x4010_0000_0000_0000;

/// The lowest speed, 0.25, as a single.
pub const SPEED_LOW_SINGLE: u32 = 0x3e80_0000;

/// The highest speed, 4, as a single.
pub const SPEED_HIGH_SINGLE: u32 = 0x4080_0000;

/// Speed 1, as a single.
pub const NORMAL_SPEED: u32 = 0x3f80_0000;

/// Speeds that differ by no more than this are taken for one: 0.001, as a single.
pub const SPEED_TOLERANCE: u32 = 0x3a83_126f;

/// Half a frame, 512, as a double.
pub const HALF_FRAME: u64 = 0x4080_0000_0000_0000;

/// A speed between the lowest and the highest, or what a request for something
/// that is not a number sets.
pub open spec fn normalized(speed: Single) -> bool {
    speed.not_a_number() || SPEED_LOW_SINGLE <= speed.bits <= SPEED_HIGH_SINGLE
}

/// Whether a speed is normalized.
pub fn is_normalized(speed: Single) -> (result: bool)
    ensures
        result == normalized(speed),
{
    !is_speed(speed) || (SPEED_LOW_SINGLE <= speed.bits && speed.bits <= SPEED_HIGH_SINGLE)
}

/// The speed that a request for `value` sets: the value, brought into the range of
/// speeds, as a single.
pub fn normalize_speed(value: Double) -> (result: Single)
    ensures
        result == value.clamped(
            Double { bits: SPEED_LOW },
            Double { bits: SPEED_HIGH },
        ).narrowed(),
        normalized(result),
        result.not_a_number() == value.not_a_number(),
{
    let clamped: Double = value.clamp(Double { bits: SPEED_LOW }, Double { bits: SPEED_HIGH });
    proof {
        if !value.not_a_number() {
            clamped_lies_in_range(
                value,
                Double { bits: SPEED_LOW },
                Double { bits: SPEED_HIGH },
            );
            narrowing_is_monotonic(Double { bits: SPEED_LOW }, clamped);
            narrowing_is_monotonic(clamped, Double { bits: SPEED_HIGH });
            narrowing_keeps_singles(125, 0, false);
            narrowing_keeps_singles(129, 0, false);
        }
    }
    clamped.to_single()
}

/// One output sample.
#[derive(Clone, Copy, Debug, PartialEq, Eq, Structural)]
pub enum Piece {
    /// An input sample as it is.
    Plain(Single),
    /// The equal-power cross-fade from `prev` to `next` at position `step` of `steps`:
    /// `prev` by the cosine and `next` by the sine of `step + 1` parts in `steps + 1`
    /// of a right angle.
    Blend { prev: Single, next: Single, step: usize, steps: usize },
}

/// A requested speed, and what follows from it.
#[derive(Clone, Copy, Debug, PartialEq, Eq, Structural)]
pub struct TempoRate {
    pub speed: Single,
    /// The speed is so close to 1 that the input passes through.
    pub bypass: bool,
    /// The speed differs from the one that the processor last took up.
    pub changed: bool,
    /// The samples, per channel, that the input advances while the output advances
    /// by half a frame.
    pub advance: usize,
}

impl TempoRate {
    /// What follows from a request for `speed` where `current` is in use. Input
    /// passes through where the speed differs from 1 by less than 0.001; the speed is
    /// a new one where it differs from the current one by more than that; and at
    /// speed `x` the input advances by the whole part of 512 times `x`. A speed that
    /// is not a number is neither close to 1 nor a new one, and does not advance.
    pub open spec fn at(speed: Single, current: Single) -> TempoRate {
        let advance = speed.widened().product(Double { bits: HALF_FRAME }).truncated();
        TempoRate {
            speed,
            bypass: speed.apart(Single { bits: NORMAL_SPEED }).less(
                Single { bits: SPEED_TOLERANCE },
            ),
            changed: Single { bits: SPEED_TOLERANCE }.less(speed.apart(current)),
            advance: if advance > usize::MAX {
                usize::MAX
            } else {
                advance as usize
            },
        }
    }

    /// What follows from a request for `speed` where `current` is in use.
    pub fn for_speed(speed: Single, current: Single) -> (result: TempoRate)
        ensures
            result == TempoRate::at(speed, current),
    {
        let tolerance: Single = Single { bits: SPEED_TOLERANCE };
        let advance: u64 = speed.to_double().multiply(Double { bits: HALF_FRAME }).to_u64();
        TempoRate {
            speed,
            bypass: speed.distance(Single { bits: NORMAL_SPEED }).is_less(tolerance),
            changed: tolerance.is_less(speed.distance(current)),
            advance: if advance > usize::MAX as u64 {
                usize::MAX
            } else {
                advance as usize
            },
        }
    }
}

/// Whether a speed is a number.
fn is_speed(speed: Single) -> (result: bool)
    ensures
        result == !speed.not_a_number(),
{
    if speed.bits >= SINGLE_SIGN {
        speed.bits - SINGLE_SIGN <= SINGLE_INFINITY
    } else {
        speed.bits <= SINGLE_INFINITY
    }
}

/// The state of a [`TempoProcessor`].
pub struct TempoView {
    pub channels: nat,
    /// Input that no frame has passed over yet.
    pub input: Seq<Single>,
    /// Samples of later input that the last frame has passed over already.
    pub skip: nat,
    /// The second half of the last frame, held back for its cross-fade.
    pub pending: Seq<Single>,
    /// No frame was taken since the last start.
    pub first: bool,
    pub speed: Single,
}

/// What taking frames from a buffer leaves and emits.
pub struct Run {
    pub out: Seq<Piece>,
    pub first: bool,
    pub pending: Seq<Single>,
    pub rest: Seq<Single>,
    /// By how much the last frame leads past the end of the buffer.
    pub skip: nat,
}

/// Samples, each passed on as it is.
pub open spec fn plain(samples: Seq<Single>) -> Seq<Piece> {
    Seq::new(samples.len(), |i: int| Piece::Plain(samples[i]))
}

/// The cross-fade from one stretch of samples to another.
pub open spec fn blend(prev: Seq<Single>, next: Seq<Single>) -> Seq<Piece> {
    Seq::new(
        prev.len(),
        |i: int|
            Piece::Blend {
                prev: prev[i],
                next: next[i],
                step: i as usize,
                steps: prev.len() as usize,
            },
    )
}

/// Takes frames of twice `overlap` samples from `buffer`, one every `hop` samples,
/// while a whole frame is there. The first half of a frame is emitted, cross-faded
/// with the second half of the frame before; the second half of the last frame
/// stays pending. Where the hop leads past the end of the buffer, the rest of it is
/// still to be skipped.
pub open spec fn run(
    first: bool,
    pending: Seq<Single>,
    buffer: Seq<Single>,
    overlap: nat,
    hop: nat,
) -> Run
    decreases buffer.len(),
{
    if overlap == 0 || buffer.len() < 2 * overlap || hop == 0 {
        Run { out: Seq::empty(), first, pending, rest: buffer, skip: 0 }
    } else {
        let half = buffer.take(overlap as int);
        let head = if first {
            plain(half)
        } else {
            blend(pending, half)
        };
        let later = buffer.subrange(overlap as int, 2 * overlap as int);
        if hop > buffer.len() {
            Run {
                out: head,
                first: false,
                pending: later,
                rest: Seq::empty(),
                skip: (hop - buffer.len()) as nat,
            }
        } else {
            let then = run(false, later, buffer.skip(hop as int), overlap, hop);
            Run { out: head + then.out, ..then }
        }
    }
}

/// How many of `len` samples are skipped where `skip` are to be.
pub open spec fn skipped(skip: nat, len: nat) -> nat {
    if skip < len {
        skip
    } else {
        len
    }
}

impl TempoView {
    pub open spec fn overlap(self) -> nat {
        OVERLAP as nat * self.channels
    }

    pub open spec fn frame(self) -> nat {
        FRAME_SIZE as nat * self.channels
    }

    /// What follows from a request for `speed`, given the speed last taken up.
    pub open spec fn rate(self, speed: Single) -> TempoRate {
        TempoRate::at(speed, self.speed)
    }

    /// The distance of two frames in the input, in interleaved samples.
    pub open spec fn hop(self, rate: TempoRate) -> nat {
        (if rate.advance == 0 {
            1
        } else {
            rate.advance as nat
        }) * self.channels
    }

    /// Between two calls, less than a frame of input waits, none of it while input is
    /// still to be skipped, and what is pending is half a frame, or nothing before the
    /// first frame.
    pub open spec fn wf(self) -> bool {
        &&& self.frame() <= usize::MAX
        &&& self.input.len() == 0 || self.input.len() < self.frame()
        &&& self.skip > 0 ==> self.input.len() == 0
        &&& self.first ==> self.pending.len() == 0
        &&& !self.first ==> self.pending.len() == self.overlap()
    }

    /// The processor as it is made: with nothing held, at speed 1.
    pub open spec fn fresh(channels: nat) -> TempoView {
        TempoView {
            channels,
            input: Seq::empty(),
            skip: 0,
            pending: Seq::empty(),
            first: true,
            speed: Single { bits: NORMAL_SPEED },
        }
    }

    /// The state from which input at this rate is taken: as it is, or emptied
    /// where the rate passes input through or is a new one.
    pub open spec fn started(self, rate: TempoRate) -> TempoView {
        if rate.bypass || rate.changed {
            TempoView { speed: rate.speed, ..self.emptied() }
        } else {
            self
        }
    }

    /// What is emitted before input at this rate is taken, where the state is emptied: all
    /// that is held, the pending samples and then the waiting input, as they are.
    pub open spec fn released(self, rate: TempoRate) -> Seq<Piece> {
        if rate.bypass || rate.changed {
            plain(self.pending) + plain(self.input)
        } else {
            Seq::empty()
        }
    }

    /// The frames that input at this rate completes.
    pub open spec fn taken(self, input: Seq<Single>, rate: TempoRate) -> Run {
        let start = self.started(rate);
        let passed = skipped(start.skip, input.len());
        run(
            start.first,
            start.pending,
            start.input + input.skip(passed as int),
            self.overlap(),
            self.hop(rate),
        )
    }

    /// The state after input was processed.
    pub open spec fn processed(self, input: Seq<Single>, rate: TempoRate) -> TempoView {
        let start = self.started(rate);
        if rate.bypass {
            start
        } else {
            let taken = self.taken(input, rate);
            TempoView {
                input: taken.rest,
                skip: (start.skip - skipped(start.skip, input.len()) + taken.skip) as nat,
                pending: taken.pending,
                first: taken.first,
                ..start
            }
        }
    }

    /// What processing input emits.
    pub open spec fn emitted(self, input: Seq<Single>, rate: TempoRate) -> Seq<Piece> {
        self.released(rate) + if rate.bypass {
            plain(input)
        } else {
            self.taken(input, rate).out
        }
    }

    /// Input at this rate can be processed: it passes through, or there is a
    /// channel and the distance of two frames can be counted.
    pub open spec fn accepts(self, rate: TempoRate) -> bool {
        rate.bypass || {
            &&& self.channels > 0
            &&& self.hop(rate) <= usize::MAX
        }
    }

    /// The waiting input, filled up with silence to a whole frame.
    pub open spec fn padded(self) -> Seq<Single> {
        self.input + Seq::new((self.frame() - self.input.len()) as nat, |i: int| silence())
    }

    /// What the end of the stream emits.
    pub open spec fn remainder(self) -> Seq<Piece> {
        if self.input.len() > 0 && self.first {
            plain(self.padded())
        } else if self.input.len() > 0 {
            blend(self.pending, self.padded().take(self.overlap() as int)) + plain(
                self.padded().skip(self.overlap() as int),
            )
        } else {
            plain(self.pending)
        }
    }

    /// The state with nothing waiting and nothing pending.
    pub open spec fn emptied(self) -> TempoView {
        TempoView { input: Seq::empty(), skip: 0, pending: Seq::empty(), first: true, ..self }
    }
}

/// A speed changer for interleaved samples.
pub struct TempoProcessor {
    channels: usize,
    input_buffer: Vec<Single>,
    skip: usize,
    pending_output: Vec<Single>,
    is_first_frame: bool,
    current_speed: Single,
}

impl View for TempoProcessor {
    type V = TempoView;

    closed spec fn view(&self) -> TempoView {
        TempoView {
            channels: self.channels as nat,
            input: self.input_buffer@,
            skip: self.skip as nat,
            pending: self.pending_output@,
            first: self.is_first_frame,
            speed: self.current_speed,
        }
    }
}

/// Appends the samples from `from` to `to` as they are.
fn push_plain(samples: &[Single], from: usize, to: usize, output: &mut Vec<Piece>)
    requires
        from <= to <= samples@.len(),
    ensures
        final(output)@ == old(output)@ + plain(samples@.subrange(from as int, to as int)),
{
    let mut i: usize = from;
    while i < to
        invariant
            from <= i <= to <= samples@.len(),
            output@ == old(output)@ + plain(samples@.subrange(from as int, i as int)),
        decreases to - i,
    {
        output.push(Piece::Plain(samples[i]));
        i = i + 1;
        assert(output@ =~= old(output)@ + plain(samples@.subrange(from as int, i as int)));
    }
    assert(output@ =~= old(output)@ + plain(samples@.subrange(from as int, to as int)));
}

/// Appends the cross-fade from `prev` to the samples at `from`.
fn push_blend(prev: &Vec<Single>, samples: &Vec<Single>, from: usize, output: &mut Vec<Piece>)
    requires
        from + prev@.len() <= samples@.len(),
    ensures
        final(output)@ == old(output)@ + blend(
            prev@,
            samples@.subrange(from as int, from + prev@.len()),
        ),
{
    let steps: usize = prev.len();
    let total: usize = samples.len();
    let ghost next = samples@.subrange(from as int, from + prev@.len());
    let mut i: usize = 0;
    while i < steps
        invariant
            i <= steps,
            steps == prev@.len(),
            from + steps <= total,
            total == samples@.len(),
            next == samples@.subrange(from as int, from + prev@.len()),
            output@ == old(output)@ + blend(prev@, next).take(i as int),
        decreases steps - i,
    {
        output.push(
            Piece::Blend { prev: prev[i], next: samples[from + i], step: i, steps },
        );
        i = i + 1;
        assert(output@ =~= old(output)@ + blend(prev@, next).take(i as int));
    }
    assert(blend(prev@, next).take(steps as int) =~= blend(prev@, next));
}

/// The samples from `from` to `to`.
fn copy_range(samples: &Vec<Single>, from: usize, to: usize) -> (result: Vec<Single>)
    requires
        from <= to <= samples@.len(),
    ensures
        result@ == samples@.subrange(from as int, to as int),
{
    let mut result: Vec<Single> = Vec::new();
    let mut i: usize = from;
    while i < to
        invariant
            from <= i <= to <= samples@.len(),
            result@ == samples@.subrange(from as int, i as int),
        decreases to - i,
    {
        result.push(samples[i]);
        i = i + 1;
        assert(result@ =~= samples@.subrange(from as int, i as int));
    }
    result
}

impl TempoProcessor {
    /// A processor for that many interleaved channels, at speed 1.
    pub fn new(channels: usize) -> (result: TempoProcessor)
        requires
            FRAME_SIZE * channels <= usize::MAX,
        ensures
            result@.wf(),
            result@ == TempoView::fresh(channels as nat),
    {
        TempoProcessor {
            channels,
            input_buffer: Vec::new(),
            skip: 0,
            pending_output: Vec::new(),
            is_first_frame: true,
            current_speed: Single { bits: NORMAL_SPEED },
        }
    }

    /// The speed that the processor last took up.
    pub fn current_speed(&self) -> (result: Single)
        ensures
            result == self@.speed,
    {
        self.current_speed
    }

    /// What follows from a request for `speed`, given the speed last taken up.
    pub fn rate(&self, speed: Single) -> (result: TempoRate)
        ensures
            result == self@.rate(speed),
    {
        TempoRate::for_speed(speed, self.current_speed)
    }

    /// Whether input at this speed can be processed.
    pub fn can_process(&self, speed: Single) -> (result: bool)
        ensures
            result == self@.accepts(self@.rate(speed)),
    {
        let rate: TempoRate = self.rate(speed);
        if rate.bypass {
            return true;
        }
        if self.channels == 0 {
            return false;
        }
        let advance: usize = if rate.advance == 0 {
            1
        } else {
            rate.advance
        };
        assert(self@.hop(rate) == advance * self.channels);
        advance.checked_mul(self.channels).is_some()
    }

    /// Processes interleaved input at the given speed, and appends what it emits.
    pub fn process(&mut self, input: &[Single], speed: Single, output: &mut Vec<Piece>)
        requires
            old(self)@.wf(),
            old(self)@.accepts(old(self)@.rate(speed)),
        ensures
            final(self)@.wf(),
            final(self)@ == old(self)@.processed(input@, old(self)@.rate(speed)),
            final(output)@ == old(output)@ + old(self)@.emitted(input@, old(self)@.rate(speed)),
    {
        let rate: TempoRate = self.rate(speed);
        let ghost before = self@;
        let ghost base = output@;
        if rate.bypass || rate.changed {
            self.release(output);
            self.current_speed = rate.speed;
        }
        assert(self@ == before.started(rate));
        assert(output@ =~= base + before.released(rate));
        if rate.bypass {
            push_plain(input, 0, input.len(), output);
            assert(input@.subrange(0, input@.len() as int) =~= input@);
            assert(output@ =~= base + before.emitted(input@, rate));
            return;
        }
        self.feed(input);
        let advance: usize = if rate.advance == 0 {
            1
        } else {
            rate.advance
        };
        assert(before.hop(rate) == advance * self.channels);
        assert(advance * self.channels > 0) by (nonlinear_arith)
            requires
                advance > 0,
                self.channels > 0,
        ;
        self.take_frames(advance * self.channels, output);
        assert(output@ =~= base + before.emitted(input@, rate));
        assert(self@ == before.processed(input@, rate));
    }

    /// Appends input to what waits, without the samples that are to be skipped.
    fn feed(&mut self, input: &[Single])
        ensures
            ({
                let passed = skipped(old(self)@.skip, input@.len());
                final(self)@ == (TempoView {
                    input: old(self)@.input + input@.skip(passed as int),
                    skip: (old(self)@.skip - passed) as nat,
                    ..old(self)@
                })
            }),
    {
        let ghost start = self@;
        let passed: usize = if self.skip < input.len() {
            self.skip
        } else {
            input.len()
        };
        let ghost fed = input@.skip(passed as int);
        self.skip = self.skip - passed;
        let ghost still = self.skip as nat;
        let mut i: usize = passed;
        assert(self.input_buffer@ =~= start.input + fed.take(0));
        while i < input.len()
            invariant
                passed <= i <= input@.len(),
                fed == input@.skip(passed as int),
                self.input_buffer@ == start.input + fed.take(i - passed),
                self@ == (TempoView { input: self.input_buffer@, skip: still, ..start }),
            decreases input@.len() - i,
        {
            self.input_buffer.push(input[i]);
            i = i + 1;
            assert(self.input_buffer@ =~= start.input + fed.take(i - passed));
        }
        assert(fed.take(input@.len() - passed) =~= fed);
    }

    /// Takes all frames from the waiting input, one every `hop` samples, and appends what
    /// they emit.
    fn take_frames(&mut self, hop: usize, output: &mut Vec<Piece>)
        requires
            old(self)@.channels > 0,
            old(self)@.frame() <= usize::MAX,
            old(self)@.skip > 0 ==> old(self)@.input.len() == 0,
            old(self)@.first ==> old(self)@.pending.len() == 0,
            !old(self)@.first ==> old(self)@.pending.len() == old(self)@.overlap(),
            hop > 0,
        ensures
            final(self)@.wf(),
            ({
                let whole = run(
                    old(self)@.first,
                    old(self)@.pending,
                    old(self)@.input,
                    old(self)@.overlap(),
                    hop as nat,
                );
                &&& final(output)@ == old(output)@ + whole.out
                &&& final(self)@ == (TempoView {
                    input: whole.rest,
                    skip: old(self)@.skip + whole.skip,
                    pending: whole.pending,
                    first: whole.first,
                    ..old(self)@
                })
            }),
    {
        let ghost start = self@;
        let ghost base = output@;
        let ghost buffer = start.input;
        let ghost ov = start.overlap();
        let ghost whole = run(start.first, start.pending, buffer, ov, hop as nat);
        let overlap: usize = OVERLAP * self.channels;
        let frame: usize = FRAME_SIZE * self.channels;
        let mut position: usize = 0;
        assert(buffer.skip(0) =~= buffer);
        while self.input_buffer.len() - position >= frame
            invariant
                self.input_buffer@ == buffer,
                position <= buffer.len(),
                overlap == ov,
                frame == 2 * overlap,
                hop > 0,
                overlap > 0,
                self.channels == start.channels,
                self.current_speed == start.speed,
                self.is_first_frame ==> self.pending_output@.len() == 0,
                !self.is_first_frame ==> self.pending_output@.len() == overlap,
                self.skip > 0 ==> position == buffer.len(),
                ({
                    let now = run(
                        self.is_first_frame,
                        self.pending_output@,
                        buffer.skip(position as int),
                        ov,
                        hop as nat,
                    );
                    &&& output@ + now.out == base + whole.out
                    &&& now.first == whole.first
                    &&& now.pending == whole.pending
                    &&& now.rest == whole.rest
                    &&& self.skip + now.skip == start.skip + whole.skip
                }),
            decreases buffer.len() - position,
        {
            let ghost left = buffer.skip(position as int);
            let ghost sofar = output@;
            let ghost now = run(self.is_first_frame, self.pending_output@, left, ov, hop as nat);
            assert(left.take(overlap as int) =~= buffer.subrange(
                position as int,
                position + overlap,
            ));
            assert(left.subrange(overlap as int, 2 * overlap) =~= buffer.subrange(
                position + overlap,
                position + frame,
            ));
            if self.is_first_frame {
                push_plain(self.input_buffer.as_slice(), position, position + overlap, output);
                self.is_first_frame = false;
            } else {
                push_blend(&self.pending_output, &self.input_buffer, position, output);
            }
            self.pending_output = copy_range(
                &self.input_buffer,
                position + overlap,
                position + frame,
            );
            let ahead: usize = self.input_buffer.len() - position;
            if hop > ahead {
                self.skip = hop - ahead;
                position = self.input_buffer.len();
                assert(buffer.skip(position as int) =~= Seq::<Single>::empty());
            } else {
                assert(left.skip(hop as int) =~= buffer.skip(position + hop));
                position = position + hop;
            }
            let ghost then = run(
                false,
                self.pending_output@,
                buffer.skip(position as int),
                ov,
                hop as nat,
            );
            assert(output@ + then.out =~= sofar + now.out);
        }
        let rest: Vec<Single> = self.input_buffer.split_off(position);
        self.input_buffer = rest;
        assert(self.input_buffer@ =~= buffer.skip(position as int));
        assert(output@ =~= base + whole.out);
    }

    /// Appends all that is held as it is, the pending samples and then the waiting input,
    /// and empties the processor.
    fn release(&mut self, output: &mut Vec<Piece>)
        ensures
            final(self)@ == old(self)@.emptied(),
            final(output)@ == old(output)@ + (plain(old(self)@.pending) + plain(
                old(self)@.input,
            )),
    {
        let ghost before = self@;
        let ghost base = output@;
        push_plain(self.pending_output.as_slice(), 0, self.pending_output.len(), output);
        push_plain(self.input_buffer.as_slice(), 0, self.input_buffer.len(), output);
        assert(before.pending.subrange(0, before.pending.len() as int) =~= before.pending);
        assert(before.input.subrange(0, before.input.len() as int) =~= before.input);
        assert(output@ =~= base + (plain(before.pending) + plain(before.input)));
        self.input_buffer = Vec::new();
        self.skip = 0;
        self.pending_output = Vec::new();
        self.is_first_frame = true;
    }

    /// Ends the stream: appends what is still held, the waiting input filled up
    /// with silence to a last frame, and starts anew.
    pub fn flush(&mut self, output: &mut Vec<Piece>)
        requires
            old(self)@.wf(),
        ensures
            final(self)@.wf(),
            final(self)@ == old(self)@.emptied(),
            final(output)@ == old(output)@ + old(self)@.remainder(),
    {
        let ghost before = self@;
        let ghost base = output@;
        let frame: usize = FRAME_SIZE * self.channels;
        let overlap: usize = OVERLAP * self.channels;
        if self.input_buffer.len() > 0 {
            while self.input_buffer.len() < frame
                invariant
                    before.input.len() <= self.input_buffer@.len() <= frame,
                    self.input_buffer@ == before.padded().take(
                        self.input_buffer@.len() as int,
                    ),
                    frame == before.frame(),
                    before.wf(),
                    before.input.len() > 0,
                    self.pending_output@ == before.pending,
                    self.is_first_frame == before.first,
                    self.channels == before.channels,
                    self.current_speed == before.speed,
                decreases frame - self.input_buffer@.len(),
            {
                self.input_buffer.push(silence());
                assert(self.input_buffer@ =~= before.padded().take(
                    self.input_buffer@.len() as int,
                ));
            }
            assert(before.padded().take(frame as int) =~= before.padded());
            if self.is_first_frame {
                push_plain(self.input_buffer.as_slice(), 0, frame, output);
                assert(before.padded().subrange(0, frame as int) =~= before.padded());
            } else {
                push_blend(&self.pending_output, &self.input_buffer, 0, output);
                assert(before.padded().subrange(0, overlap as int) =~= before.padded().take(
                    overlap as int,
                ));
                push_plain(self.input_buffer.as_slice(), overlap, frame, output);
                assert(before.padded().subrange(overlap as int, frame as int)
                    =~= before.padded().skip(overlap as int));
            }
            assert(output@ =~= base + before.remainder());
        } else {
            push_plain(self.pending_output.as_slice(), 0, self.pending_output.len(), output);
            assert(before.pending.subrange(0, before.pending.len() as int) =~= before.pending);
        }
        self.input_buffer = Vec::new();
        self.skip = 0;
        self.pending_output = Vec::new();
        self.is_first_frame = true;
        assert(self@ == before.emptied());
    }
}

/// Taking frames stops with less than a frame left, and what is left is the end of
/// the buffer. Where something is still to be skipped, nothing is left.
pub proof fn run_leaves_less_than_a_frame(
    first: bool,
    pending: Seq<Single>,
    buffer: Seq<Single>,
    overlap: nat,
    hop: nat,
)
    requires
        overlap > 0,
        hop > 0,
    ensures
        ({
            let whole = run(first, pending, buffer, overlap, hop);
            &&& whole.rest.len() < 2 * overlap
            &&& whole.rest.len() <= buffer.len()
            &&& whole.rest == buffer.skip(buffer.len() - whole.rest.len())
            &&& whole.skip < hop
            &&& whole.skip > 0 ==> whole.rest.len() == 0
        }),
    decreases buffer.len(),
{
    let rest = run(first, pending, buffer, overlap, hop).rest;
    if buffer.len() < 2 * overlap {
        assert(buffer.skip(0) =~= buffer);
    } else if hop > buffer.len() {
        assert(rest =~= buffer.skip(buffer.len() as int));
    } else {
        let next = buffer.skip(hop as int);
        let half = buffer.subrange(overlap as int, 2 * overlap as int);
        run_leaves_less_than_a_frame(false, half, next, overlap, hop);
        assert(next.skip(next.len() - rest.len()) =~= buffer.skip(buffer.len() - rest.len()));
    }
}

/// The time scale: the samples emitted are to the samples consumed, those still to be
/// skipped among them, as half a frame is to the hop. At twice the speed the hop is a
/// frame, and half as many samples come out as went in.
pub proof fn output_is_in_proportion_to_consumed_input(
    first: bool,
    pending: Seq<Single>,
    buffer: Seq<Single>,
    overlap: nat,
    hop: nat,
)
    requires
        overlap > 0,
        hop > 0,
        !first ==> pending.len() == overlap,
    ensures
        ({
            let whole = run(first, pending, buffer, overlap, hop);
            whole.out.len() * hop == (buffer.len() - whole.rest.len() + whole.skip) * overlap
        }),
    decreases buffer.len(),
{
    let whole = run(first, pending, buffer, overlap, hop);
    if buffer.len() < 2 * overlap {
        assert(whole.out.len() * hop == 0 && (buffer.len() - whole.rest.len() + whole.skip)
            * overlap == 0) by (nonlinear_arith)
            requires
                whole.out.len() == 0,
                whole.rest.len() == buffer.len(),
                whole.skip == 0,
        ;
    } else if hop > buffer.len() {
        assert(whole.out.len() * hop == (buffer.len() - whole.rest.len() + whole.skip) * overlap)
            by (nonlinear_arith)
            requires
                whole.out.len() == overlap,
                whole.rest.len() == 0,
                whole.skip == hop - buffer.len(),
        ;
    } else {
        let next = buffer.skip(hop as int);
        let half = buffer.subrange(overlap as int, 2 * overlap as int);
        let then = run(false, half, next, overlap, hop);
        output_is_in_proportion_to_consumed_input(false, half, next, overlap, hop);
        assert(whole.out.len() == overlap + then.out.len());
        assert(whole.out.len() * hop == (buffer.len() - whole.rest.len() + whole.skip) * overlap)
            by (nonlinear_arith)
            requires
                whole.out.len() == overlap + then.out.len(),
                whole.rest.len() == then.rest.len(),
                whole.skip == then.skip,
                next.len() == buffer.len() - hop,
                then.out.len() * hop == (next.len() - then.rest.len() + then.skip) * overlap,
        ;
    }
}

/// Every emitted sample by its place: sample `i` of half frame `j` is the
/// cross-fade from the second half of frame `j - 1` to the first half of frame `j`,
/// where frame `j` starts `j * hop` samples into the buffer. The first half frame
/// fades from the pending samples, or is passed on as it is where nothing came
/// before.
pub proof fn output_samples_by_place(
    first: bool,
    pending: Seq<Single>,
    buffer: Seq<Single>,
    overlap: nat,
    hop: nat,
    j: nat,
    i: nat,
)
    requires
        overlap > 0,
        hop > 0,
        !first ==> pending.len() == overlap,
        i < overlap,
        j * hop + 2 * overlap <= buffer.len(),
    ensures
        j * overlap + i < run(first, pending, buffer, overlap, hop).out.len(),
        run(first, pending, buffer, overlap, hop).out[(j * overlap + i) as int] == if j == 0
            && first {
            Piece::Plain(buffer[i as int])
        } else {
            Piece::Blend {
                prev: if j == 0 {
                    pending[i as int]
                } else {
                    buffer[(j - 1) * hop + overlap + i]
                },
                next: buffer[(j * hop + i) as int],
                step: i as usize,
                steps: overlap as usize,
            }
        },
    decreases buffer.len(),
{
    let whole = run(first, pending, buffer, overlap, hop);
    assert(0 <= j * hop) by (nonlinear_arith);
    if j == 0 {
        assert(j * overlap == 0 && j * hop == 0) by (nonlinear_arith)
            requires
                j == 0,
        ;
    } else {
        let k = (j - 1) as nat;
        assert(k * hop + hop == j * hop && k * hop >= 0) by (nonlinear_arith)
            requires
                k == j - 1,
                k >= 0,
        ;
        assert(k * overlap + overlap == j * overlap) by (nonlinear_arith)
            requires
                k == j - 1,
        ;
        let next = buffer.skip(hop as int);
        let half = buffer.subrange(overlap as int, 2 * overlap as int);
        let then = run(false, half, next, overlap, hop);
        output_samples_by_place(false, half, next, overlap, hop, k, i);
        assert(whole.out[(j * overlap + i) as int] == then.out[(k * overlap + i) as int]);
        if k > 0 {
            assert((k - 1) * hop + hop == k * hop) by (nonlinear_arith);
            assert(0 <= (k - 1) * hop) by (nonlinear_arith)
                requires
                    k > 0,
            ;
        } else {
            assert(k * hop == 0) by (nonlinear_arith)
                requires
                    k == 0,
            ;
        }
    }
}

/// Taking frames from a stream does not depend on how the stream is cut: taking
/// them from a first part, and then from what that left together with a second
/// part, emits and leaves what taking them from the whole does.
proof fn run_is_chunk_independent(
    first: bool,
    pending: Seq<Single>,
    a: Seq<Single>,
    b: Seq<Single>,
    overlap: nat,
    hop: nat,
)
    requires
        overlap > 0,
        hop > 0,
    ensures
        ({
            let one = run(first, pending, a, overlap, hop);
            let passed = skipped(one.skip, b.len());
            let two = run(
                one.first,
                one.pending,
                one.rest + b.skip(passed as int),
                overlap,
                hop,
            );
            let whole = run(first, pending, a + b, overlap, hop);
            &&& whole.out == one.out + two.out
            &&& whole.first == two.first
            &&& whole.pending == two.pending
            &&& whole.rest == two.rest
            &&& whole.skip == one.skip - passed + two.skip
        }),
    decreases a.len(),
{
    let one = run(first, pending, a, overlap, hop);
    let passed = skipped(one.skip, b.len());
    let left = one.rest + b.skip(passed as int);
    let two = run(one.first, one.pending, left, overlap, hop);
    let whole = run(first, pending, a + b, overlap, hop);
    if a.len() < 2 * overlap {
        assert(left =~= a + b);
        assert(whole.out =~= one.out + two.out);
    } else {
        let half = a.subrange(overlap as int, 2 * overlap as int);
        assert((a + b).take(overlap as int) =~= a.take(overlap as int));
        assert((a + b).subrange(overlap as int, 2 * overlap as int) =~= half);
        if hop > a.len() {
            if hop > a.len() + b.len() {
                assert(left =~= Seq::<Single>::empty());
                assert(whole.rest =~= two.rest);
            } else {
                assert((a + b).skip(hop as int) =~= left);
            }
            assert(whole.out =~= one.out + two.out);
        } else {
            let next = a.skip(hop as int);
            run_is_chunk_independent(false, half, next, b, overlap, hop);
            assert((a + b).skip(hop as int) =~= next + b);
            assert(whole.out =~= one.out + two.out);
        }
    }
}

/// The same of a processor in the midst of a stream, which may have input to skip.
proof fn taking_is_chunk_independent(
    start: TempoView,
    a: Seq<Single>,
    b: Seq<Single>,
    rate: TempoRate,
)
    requires
        start.wf(),
        start.accepts(rate),
        !rate.bypass,
        !rate.changed,
    ensures
        ({
            let after = start.processed(a, rate);
            let one = start.taken(a, rate);
            let two = after.taken(b, rate);
            let whole = start.taken(a + b, rate);
            &&& whole.out == one.out + two.out
            &&& whole.first == two.first
            &&& whole.pending == two.pending
            &&& whole.rest == two.rest
            &&& start.skip - skipped(start.skip, (a + b).len()) + whole.skip == after.skip
                - skipped(after.skip, b.len()) + two.skip
        }),
{
    let overlap = start.overlap();
    let hop = start.hop(rate);
    assert(overlap > 0 && hop > 0) by (nonlinear_arith)
        requires
            overlap == 512 * start.channels,
            hop == (if rate.advance == 0 {
                1
            } else {
                rate.advance as nat
            }) * start.channels,
            start.channels > 0,
    ;
    let fed = start.input + a.skip(skipped(start.skip, a.len()) as int);
    if start.skip > a.len() {
        assert(fed =~= Seq::<Single>::empty());
        let ahead = skipped(start.skip, (a + b).len());
        let more = skipped((start.skip - a.len()) as nat, b.len());
        assert(start.input + (a + b).skip(ahead as int) =~= fed + b.skip(more as int));
        let one = start.taken(a, rate);
        let whole = start.taken(a + b, rate);
        assert(one.out + whole.out =~= whole.out);
    } else {
        run_is_chunk_independent(start.first, start.pending, fed, b, overlap, hop);
        assert(start.input + (a + b).skip(start.skip as int) =~= fed + b);
    }
}

/// A stream can be processed in any portions: two portions at one speed, one after
/// the other, emit what the two as one portion emit, and leave the same state.
pub proof fn processing_is_chunk_independent(
    state: TempoView,
    a: Seq<Single>,
    b: Seq<Single>,
    rate: TempoRate,
)
    requires
        state.wf(),
        state.accepts(rate),
    ensures
        ({
            let same = TempoRate { changed: false, ..rate };
            let after = state.processed(a, rate);
            &&& state.processed(a + b, rate) == after.processed(b, same)
            &&& state.emitted(a + b, rate) == state.emitted(a, rate) + after.emitted(b, same)
        }),
{
    let same = TempoRate { changed: false, ..rate };
    let start = state.started(rate);
    let after = state.processed(a, rate);
    if rate.bypass {
        assert(after.released(same) =~= Seq::<Piece>::empty());
        assert(state.emitted(a + b, rate) =~= state.emitted(a, rate) + after.emitted(b, same));
    } else {
        taking_is_chunk_independent(start, a, b, same);
        assert(start.taken(a, same) == state.taken(a, rate));
        assert(start.taken(a + b, same) == state.taken(a + b, rate));
        assert(start.processed(a, same) == after);
        assert(state.emitted(a + b, rate) =~= state.emitted(a, rate) + after.emitted(b, same));
    }
}

/// Every speed that can be set is accepted, whatever the state, as long as twice a
/// frame can be counted.
pub proof fn every_speed_is_accepted(state: TempoView, speed: Single, current: Single)
    requires
        normalized(speed),
        state.channels > 0,
        2 * state.frame() <= usize::MAX,
    ensures
        state.accepts(TempoRate::at(speed, current)),
{
    let rate = TempoRate::at(speed, current);
    speeds_advance_by_two_frames_at_most(speed, current);
    assert(state.hop(rate) <= 2 * state.frame()) by (nonlinear_arith)
        requires
            state.hop(rate) == (if rate.advance == 0 {
                1
            } else {
                rate.advance as nat
            }) * state.channels,
            state.frame() == 1024 * state.channels,
            rate.advance <= 2048,
    ;
}

/// At the speeds that can be set the input advances by no more than two frames while
/// the output advances by half a frame.
pub proof fn speeds_advance_by_two_frames_at_most(speed: Single, current: Single)
    requires
        normalized(speed),
    ensures
        TempoRate::at(speed, current).advance <= 2 * FRAME_SIZE,
{
    if !speed.not_a_number() {
        let wide = speed.widened();
        normal_singles_widen_exactly(speed);
        multiplying_by_512_is_exact(wide);
        let product = wide.product(Double { bits: HALF_FRAME });
        assert(product.exponent() == wide.exponent() + 9);
        assert(product.significand() == wide.significand());
        lemma2_to64();
        lemma2_to64_rest();
        let shift = (1075 - product.exponent()) as nat;
        let significand = product.significand();
        let divisor = pow2(shift) as int;
        if shift > 41 {
            if shift > 42 {
                lemma_pow2_strictly_increases(42, shift);
            }
            assert(0 <= significand / divisor <= 2048) by (nonlinear_arith)
                requires
                    0 <= significand < 0x20_0000_0000_0000,
                    divisor >= 0x400_0000_0000,
            ;
        } else {
            assert(speed.bits == SPEED_HIGH_SINGLE);
            assert(significand / divisor == 2048) by (nonlinear_arith)
                requires
                    significand == 0x10_0000_0000_0000,
                    divisor == 0x200_0000_0000,
            ;
        }
        assert(product.truncated() == significand / divisor);
        assert(0 <= product.truncated() <= 2048);
    } else {
        assert(speed.widened().product(Double { bits: HALF_FRAME }).truncated() == 0);
    }
}

/// Input passes through bit for bit, after what was held, also bit for bit, and leaves
/// nothing held: nothing comes out at the end, nor before what passes through next.
pub proof fn bypass_returns_input(state: TempoView, input: Seq<Single>, rate: TempoRate)
    requires
        rate.bypass,
    ensures
        state.emitted(input, rate) == plain(state.pending) + plain(state.input) + plain(input),
        state == state.emptied() ==> state.emitted(input, rate) == plain(input),
        state.processed(input, rate) == (TempoView { speed: rate.speed, ..state.emptied() }),
        state.processed(input, rate).remainder() == Seq::<Piece>::empty(),
{
    assert(plain(Seq::<Single>::empty()) =~= Seq::<Piece>::empty());
    assert(state.emitted(input, rate) =~= plain(state.pending) + plain(state.input) + plain(
        input,
    ));
    if state == state.emptied() {
        assert(state.emitted(input, rate) =~= plain(input));
    }
}

/// A new speed starts afresh, and no sample is lost to it: all that was held comes out as
/// it is, the pending samples and then the waiting input, followed by what a processor
/// that never had other input emits.
pub proof fn a_new_speed_starts_afresh(state: TempoView, input: Seq<Single>, rate: TempoRate)
    requires
        rate.changed || rate.bypass,
    ensures
        ({
            let fresh = TempoView { speed: rate.speed, ..TempoView::fresh(state.channels) };
            let same = TempoRate { changed: false, ..rate };
            &&& state.emitted(input, rate) == plain(state.pending) + plain(state.input)
                + fresh.emitted(input, same)
            &&& state.processed(input, rate) == fresh.processed(input, same)
        }),
{
    let fresh = TempoView { speed: rate.speed, ..TempoView::fresh(state.channels) };
    let same = TempoRate { changed: false, ..rate };
    assert(fresh.released(same) =~= Seq::<Piece>::empty());
    assert(state.emitted(input, rate) =~= plain(state.pending) + plain(state.input)
        + fresh.emitted(input, same));
}

/// Every sample that waits comes out at the end of the stream: sample `i` as it is before
/// the first frame, else cross-faded with the pending one in the first half of the frame
/// and as it is in the second.
pub proof fn waiting_input_comes_out(state: TempoView, i: int)
    requires
        state.wf(),
        0 <= i < state.input.len(),
    ensures
        i < state.remainder().len(),
        state.remainder()[i] == if !state.first && i < state.overlap() {
            Piece::Blend {
                prev: state.pending[i],
                next: state.input[i],
                step: i as usize,
                steps: state.overlap() as usize,
            }
        } else {
            Piece::Plain(state.input[i])
        },
{
}

/// The end of the stream emits a whole frame where input waits, else what is pending:
/// nothing exactly where nothing is held. A second end then emits nothing.
pub proof fn the_end_emits_what_is_held(state: TempoView)
    requires
        state.wf(),
    ensures
        state.remainder().len() == if state.input.len() > 0 {
            state.frame()
        } else {
            state.pending.len()
        },
        state.remainder().len() == 0 <==> state.input.len() == 0 && state.pending.len() == 0,
        state.emptied().remainder() == Seq::<Piece>::empty(),
{
}

/// A call of a processor.
pub enum Call {
    Process { input: Seq<Single>, speed: Single },
    Flush,
}

impl TempoView {
    /// After one call.
    pub open spec fn after_call(self, call: Call) -> TempoView {
        match call {
            Call::Process { input, speed } => self.processed(input, self.rate(speed)),
            Call::Flush => self.emptied(),
        }
    }

    /// What one call emits.
    pub open spec fn call_emits(self, call: Call) -> Seq<Piece> {
        match call {
            Call::Process { input, speed } => self.emitted(input, self.rate(speed)),
            Call::Flush => self.remainder(),
        }
    }

    /// What calls emit, one after the other.
    pub open spec fn calls_emit(self, calls: Seq<Call>) -> Seq<Piece>
        decreases calls.len(),
    {
        if calls.len() == 0 {
            Seq::empty()
        } else {
            self.call_emits(calls.first()) + self.after_call(calls.first()).calls_emit(
                calls.drop_first(),
            )
        }
    }

    /// After calls, one after the other.
    pub open spec fn after_calls(self, calls: Seq<Call>) -> TempoView
        decreases calls.len(),
    {
        if calls.len() == 0 {
            self
        } else {
            self.after_call(calls.first()).after_calls(calls.drop_first())
        }
    }

    /// The two hold the same samples, whatever speeds they last took up.
    pub open spec fn holds_same(self, other: TempoView) -> bool {
        self == (TempoView { speed: self.speed, ..other })
    }

    /// Through those calls, the two take each speed for a new one or for the one in use
    /// alike, at least wherever they hold samples.
    pub open spec fn decides_alike(self, other: TempoView, calls: Seq<Call>) -> bool
        decreases calls.len(),
    {
        calls.len() == 0 || {
            &&& calls.first() matches Call::Process { speed, .. } ==> self == self.emptied()
                || self.rate(speed).changed == other.rate(speed).changed
            &&& self.after_call(calls.first()).decides_alike(
                other.after_call(calls.first()),
                calls.drop_first(),
            )
        }
    }
}

/// Processors that hold the same samples and decide alike emit the same.
proof fn same_samples_same_output(a: TempoView, b: TempoView, calls: Seq<Call>)
    requires
        a.holds_same(b),
        a.decides_alike(b, calls),
    ensures
        a.calls_emit(calls) == b.calls_emit(calls),
    decreases calls.len(),
{
    if calls.len() > 0 {
        one_call_alike(a, b, calls.first());
        same_samples_same_output(
            a.after_call(calls.first()),
            b.after_call(calls.first()),
            calls.drop_first(),
        );
    }
}

/// One call on processors that hold the same samples: they emit the same and hold the
/// same afterwards, where they decide alike or hold nothing.
proof fn one_call_alike(a: TempoView, b: TempoView, call: Call)
    requires
        a.holds_same(b),
        call matches Call::Process { speed, .. } ==> a == a.emptied() || a.rate(speed).changed
            == b.rate(speed).changed,
    ensures
        a.call_emits(call) == b.call_emits(call),
        a.after_call(call).holds_same(b.after_call(call)),
{
    assert(a.remainder() == b.remainder());
    match call {
        Call::Process { input, speed } => {
            let ra = a.rate(speed);
            let rb = b.rate(speed);
            assert(ra.bypass == rb.bypass && ra.advance == rb.advance);
            assert(a.released(ra) =~= b.released(rb));
            assert(a.started(ra).holds_same(b.started(rb)));
            assert(a.taken(input, ra) == b.taken(input, rb));
        },
        Call::Flush => {},
    }
}

/// A flushed processor acts as a fresh one. The next call emits the same, at any speed,
/// and so do all later ones for as long as both decide alike whether a speed is a new
/// one. (Without that they can part: where the kept speed was 2, a fresh processor takes
/// 2.0005 for a new speed and then does not take 2.0012 for one, the flushed one the
/// other way round.)
pub proof fn a_flushed_processor_acts_as_a_fresh_one(state: TempoView, calls: Seq<Call>)
    requires
        state.emptied().decides_alike(TempoView::fresh(state.channels), calls),
    ensures
        state.emptied().calls_emit(calls) == TempoView::fresh(state.channels).calls_emit(calls),
{
    same_samples_same_output(state.emptied(), TempoView::fresh(state.channels), calls);
}

/// The first call on a flushed processor emits what it emits on a fresh one, and leaves
/// the same samples held.
pub proof fn the_first_call_after_a_flush(state: TempoView, call: Call)
    ensures
        state.emptied().call_emits(call) == TempoView::fresh(state.channels).call_emits(call),
        state.emptied().after_call(call).holds_same(
            TempoView::fresh(state.channels).after_call(call),
        ),
{
    one_call_alike(state.emptied(), TempoView::fresh(state.channels), call);
}

/// Where all later calls ask for one speed, a flushed processor acts as a fresh one
/// through all of them.
pub proof fn a_flushed_processor_at_one_speed(state: TempoView, calls: Seq<Call>, speed: Single)
    requires
        forall|i: int|
            0 <= i < calls.len() ==> (#[trigger] calls[i] matches Call::Process { speed: s, .. }
                ==> s == speed),
    ensures
        state.emptied().calls_emit(calls) == TempoView::fresh(state.channels).calls_emit(calls),
{
    one_speed_is_decided_alike(state.emptied(), TempoView::fresh(state.channels), calls, speed);
    a_flushed_processor_acts_as_a_fresh_one(state, calls);
}

proof fn one_speed_is_decided_alike(
    a: TempoView,
    b: TempoView,
    calls: Seq<Call>,
    speed: Single,
)
    requires
        a.holds_same(b),
        a == a.emptied() || (!a.rate(speed).changed && !b.rate(speed).changed),
        forall|i: int|
            0 <= i < calls.len() ==> (#[trigger] calls[i] matches Call::Process { speed: s, .. }
                ==> s == speed),
    ensures
        a.decides_alike(b, calls),
    decreases calls.len(),
{
    if calls.len() > 0 {
        let call = calls[0];
        one_call_alike(a, b, call);
        nothing_is_apart_from_itself(speed);
        assert forall|i: int| 0 <= i < calls.drop_first().len() implies (
        #[trigger] calls.drop_first()[i] matches Call::Process { speed: s, .. } ==> s == speed) by {
            assert(calls.drop_first()[i] == calls[i + 1]);
        }
        one_speed_is_decided_alike(
            a.after_call(call),
            b.after_call(call),
            calls.drop_first(),
            speed,
        );
    }
}

/// Calls in two parts emit and leave what they do as one.
pub proof fn calls_in_two_parts(state: TempoView, a: Seq<Call>, b: Seq<Call>)
    ensures
        state.calls_emit(a + b) == state.calls_emit(a) + state.after_calls(a).calls_emit(b),
        state.after_calls(a + b) == state.after_calls(a).after_calls(b),
    decreases a.len(),
{
    if a.len() == 0 {
        assert(a + b =~= b);
        assert(state.calls_emit(a) + state.calls_emit(b) =~= state.calls_emit(b));
    } else {
        assert((a + b).drop_first() =~= a.drop_first() + b);
        calls_in_two_parts(state.after_call(a.first()), a.drop_first(), b);
        assert(state.calls_emit(a + b) =~= state.calls_emit(a) + state.after_calls(a).calls_emit(b));
    }
}

/// Where input waits at the end of the stream, the frame that it begins is filled up with
/// silence, whether or not a frame was taken before: from the end of the input on, a sample
/// of the first half is the cross-fade from the pending one to silence after a first
/// frame, and every other one is silence.
pub proof fn the_last_frame_is_filled_up_with_silence(state: TempoView, i: int)
    requires
        state.wf(),
        0 < state.input.len() <= i < 1024 * state.channels,
    ensures
        state.remainder().len() == 1024 * state.channels,
        state.remainder()[i] == if !state.first && i < 512 * state.channels {
            Piece::Blend {
                prev: state.pending[i],
                next: Single { bits: 0 },
                step: i as usize,
                steps: (512 * state.channels) as usize,
            }
        } else {
            Piece::Plain(Single { bits: 0 })
        },
{
}

/// Where no input waits at the end of the stream, the pending half of the last frame comes
/// out as it is.
pub proof fn the_pending_half_comes_out(state: TempoView, i: int)
    requires
        state.input.len() == 0,
        0 <= i < state.pending.len(),
    ensures
        state.remainder().len() == state.pending.len(),
        state.remainder()[i] == Piece::Plain(state.pending[i]),
{
}

/// The end of the stream leaves nothing behind but the channels and the speed.
pub proof fn the_end_leaves_nothing(state: TempoView)
    ensures
        state.emptied().input.len() == 0,
        state.emptied().pending.len() == 0,
        state.emptied().skip == 0,
        state.emptied().first,
        state.emptied().channels == state.channels,
        state.emptied().speed == state.speed,
{
}

/// What passes through does so sample by sample.
pub proof fn what_passes_through_is_unchanged(samples: Seq<Single>, i: int)
    requires
        0 <= i < samples.len(),
    ensures
        plain(samples).len() == samples.len(),
        plain(samples)[i] == Piece::Plain(samples[i]),
{
}

/// What is held when input passes through or the speed is a new one comes out sample by
/// sample, the pending samples first.
pub proof fn what_is_held_comes_out_unchanged(
    state: TempoView,
    input: Seq<Single>,
    rate: TempoRate,
    i: int,
)
    requires
        rate.bypass || rate.changed,
        0 <= i < state.pending.len() + state.input.len(),
    ensures
        i < state.emitted(input, rate).len(),
        state.emitted(input, rate)[i] == Piece::Plain((state.pending + state.input)[i]),
        state.started(rate).input.len() == 0,
        state.started(rate).pending.len() == 0,
        state.started(rate).skip == 0,
        state.started(rate).first,
        state.started(rate).speed == rate.speed,
        state.started(rate).channels == state.channels,
{
}

/// Where the speed is that in use, nothing is emitted or dropped before the input is
/// taken.
pub proof fn the_same_speed_goes_on(state: TempoView, input: Seq<Single>, rate: TempoRate)
    requires
        !rate.bypass,
        !rate.changed,
    ensures
        state.started(rate) == state,
        state.emitted(input, rate) == state.taken(input, rate).out,
        state.processed(input, rate).speed == state.speed,
        state.processed(input, rate).channels == state.channels,
{
    assert(state.emitted(input, rate) =~= state.taken(input, rate).out);
}

/// What is left after the last frame, `j`, that a buffer has: its second half is pending,
/// and what follows the start of the next one waits, or is still to be skipped where that
/// is past the end of the buffer. Half a frame was emitted for every frame.
pub proof fn the_last_frame_stays_pending(
    first: bool,
    pending: Seq<Single>,
    buffer: Seq<Single>,
    overlap: nat,
    hop: nat,
    j: nat,
)
    requires
        overlap > 0,
        hop > 0,
        !first ==> pending.len() == overlap,
        j * hop + 2 * overlap <= buffer.len() < (j + 1) * hop + 2 * overlap,
    ensures
        ({
            let whole = run(first, pending, buffer, overlap, hop);
            let next = (j + 1) * hop;
            &&& !whole.first
            &&& whole.out.len() == (j + 1) * overlap
            &&& whole.pending == buffer.subrange(
                (j * hop + overlap) as int,
                (j * hop + 2 * overlap) as int,
            )
            &&& next <= buffer.len() ==> whole.rest == buffer.skip(next as int) && whole.skip == 0
            &&& next > buffer.len() ==> whole.rest.len() == 0 && whole.skip == next
                - buffer.len()
        }),
    decreases j,
{
    let whole = run(first, pending, buffer, overlap, hop);
    let later = buffer.subrange(overlap as int, 2 * overlap as int);
    assert(0 <= j * hop) by (nonlinear_arith);
    assert((j + 1) * hop == j * hop + hop && (j + 1) * overlap == j * overlap + overlap)
        by (nonlinear_arith);
    if j == 0 {
        assert(j * hop == 0 && j * overlap == 0) by (nonlinear_arith)
            requires
                j == 0,
        ;
        if hop <= buffer.len() {
            less_than_a_frame_waits(false, later, buffer.skip(hop as int), overlap, hop);
        }
    } else {
        let k = (j - 1) as nat;
        assert(k * hop + hop == j * hop && k * overlap + overlap == j * overlap && (k + 1) * hop
            == j * hop && (k + 1) * overlap == j * overlap && k * hop >= 0) by (nonlinear_arith)
            requires
                k == j - 1,
                k >= 0,
        ;
        let next = buffer.skip(hop as int);
        the_last_frame_stays_pending(false, later, next, overlap, hop, k);
        assert(next.subrange((k * hop + overlap) as int, (k * hop + 2 * overlap) as int)
            =~= buffer.subrange((j * hop + overlap) as int, (j * hop + 2 * overlap) as int));
        if (j + 1) * hop <= buffer.len() {
            assert(next.skip((j * hop) as int) =~= buffer.skip(((j + 1) * hop) as int));
        }
    }
}

/// A buffer with less than a frame waits as it is, and nothing is emitted.
pub proof fn less_than_a_frame_waits(
    first: bool,
    pending: Seq<Single>,
    buffer: Seq<Single>,
    overlap: nat,
    hop: nat,
)
    requires
        buffer.len() < 2 * overlap,
    ensures
        ({
            let whole = run(first, pending, buffer, overlap, hop);
            &&& whole.out.len() == 0
            &&& whole.rest == buffer
            &&& whole.pending == pending
            &&& whole.first == first
            &&& whole.skip == 0
        }),
{
}

/// Input that the last frame has passed over is skipped, and what follows it joins the
/// waiting input: the frames are taken from both.
pub proof fn input_joins_what_waits(state: TempoView, input: Seq<Single>, rate: TempoRate)
    requires
        state.wf(),
        !rate.bypass,
        !rate.changed,
    ensures
        state.skip >= input.len() && state.input.len() < 1024 * state.channels ==> {
            &&& state.emitted(input, rate).len() == 0
            &&& state.processed(input, rate) == (TempoView {
                skip: (state.skip - input.len()) as nat,
                ..state
            })
        },
        state.skip <= input.len() ==> state.emitted(input, rate) == (TempoView {
            skip: 0,
            ..state
        }).emitted(input.skip(state.skip as int), rate),
        state.skip <= input.len() ==> state.processed(input, rate) == (TempoView {
            skip: 0,
            ..state
        }).processed(input.skip(state.skip as int), rate),
{
    let start = TempoView { skip: 0, ..state };
    if state.skip >= input.len() && state.input.len() < 1024 * state.channels {
        assert(state.input + input.skip(input.len() as int) =~= state.input);
    }
    if state.skip <= input.len() {
        let rest = input.skip(state.skip as int);
        assert(rest.skip(0) =~= rest);
        assert(start.emitted(rest, rate) =~= state.emitted(input, rate));
    }
}

/// Every sample that a new processor emits, by its place: sample `i` of half frame `j` is
/// the cross-fade from the second half of frame `j - 1` of the input to the first half of
/// frame `j`. Frames are 1024 samples of every channel long and start as far apart as the
/// rate advances, by one sample at least. The first half frame is passed on as it is.
pub proof fn a_stream_by_place(
    channels: nat,
    input: Seq<Single>,
    rate: TempoRate,
    j: nat,
    i: nat,
)
    requires
        channels > 0,
        !rate.bypass,
        i < 512 * channels,
        j * ((if rate.advance == 0 {
            1
        } else {
            rate.advance as nat
        }) * channels) + 1024 * channels <= input.len(),
    ensures
        ({
            let half = 512 * channels;
            let hop = (if rate.advance == 0 {
                1
            } else {
                rate.advance as nat
            }) * channels;
            let out = TempoView::fresh(channels).emitted(input, rate);
            &&& j * half + i < out.len()
            &&& out[(j * half + i) as int] == if j == 0 {
                Piece::Plain(input[i as int])
            } else {
                Piece::Blend {
                    prev: input[(j - 1) * hop + half + i],
                    next: input[(j * hop + i) as int],
                    step: i as usize,
                    steps: half as usize,
                }
            }
        }),
{
    let state = TempoView::fresh(channels);
    let half = 512 * channels;
    let hop = (if rate.advance == 0 {
        1
    } else {
        rate.advance as nat
    }) * channels;
    assert(hop > 0) by (nonlinear_arith)
        requires
            hop == (if rate.advance == 0 {
                1
            } else {
                rate.advance as nat
            }) * channels,
            channels > 0,
    ;
    output_samples_by_place(true, Seq::empty(), input, half, hop, j, i);
    assert(Seq::<Single>::empty() + input.skip(0) =~= input);
    assert(state.emitted(input, rate) =~= state.taken(input, rate).out);
}

/// While the output advances by half a frame, the input advances by the whole part of 512
/// times the speed: the speed is its significand, with the leading one, times two to the
/// power of its exponent field less 150. What is not a number does not advance, passes
/// nothing through and is no new speed.
pub proof fn the_advance_is_in_proportion_to_the_speed(speed: Single, current: Single)
    ensures
        SPEED_LOW_SINGLE <= speed.bits <= SPEED_HIGH_SINGLE ==> TempoRate::at(
            speed,
            current,
        ).advance == (0x80_0000 + speed.bits % 0x80_0000) / pow2(
            (141 - speed.bits / 0x80_0000) as nat,
        ) as int,
        speed.not_a_number() ==> {
            let rate = TempoRate::at(speed, current);
            rate.advance == 0 && !rate.bypass && !rate.changed
        },
        TempoRate::at(speed, current).speed == speed,
{
    if speed.not_a_number() {
        assert(speed.widened().product(Double { bits: HALF_FRAME }).truncated() == 0);
    } else if SPEED_LOW_SINGLE <= speed.bits <= SPEED_HIGH_SINGLE {
        let wide = speed.widened();
        normal_singles_widen_exactly(speed);
        multiplying_by_512_is_exact(wide);
        let product = wide.product(Double { bits: HALF_FRAME });
        assert(product.exponent() == wide.exponent() + 9);
        assert(product.significand() == wide.significand());
        speeds_advance_by_two_frames_at_most(speed, current);
        lemma2_to64();
        lemma2_to64_rest();
        let s = (0x80_0000 + speed.bits % 0x80_0000) as int;
        let e = (speed.bits / 0x80_0000) as int;
        let shift = (1075 - product.exponent()) as nat;
        let d = pow2((141 - e) as nat) as int;
        assert(wide.exponent() == e + 896);
        assert(wide.significand() == s * 0x2000_0000);
        assert(shift == 141 - e + 29);
        lemma_pow2_adds((141 - e) as nat, 29);
        lemma_pow2_pos((141 - e) as nat);
        assert(s / d == (s * 0x2000_0000) / (d * 0x2000_0000)) by {
            lemma_fundamental_div_mod(s, d);
            let q = s / d;
            let r = s % d;
            assert(s * 0x2000_0000 == q * (d * 0x2000_0000) + r * 0x2000_0000)
                by (nonlinear_arith)
                requires
                    s == d * q + r,
            ;
            lemma_fundamental_div_mod_converse(
                s * 0x2000_0000,
                d * 0x2000_0000,
                q,
                r * 0x2000_0000,
            );
        }
        assert(product.truncated() == s / d);
    }
}

/// A speed in units of two to the power of -25: its significand, with the leading one,
/// times a power of two.
pub open spec fn speed_units(speed: Single) -> int {
    (0x80_0000 + speed.bits % 0x80_0000) * pow2((speed.bits / 0x80_0000 - 125) as nat)
}

/// Among the speeds that can be set, input passes through at those less than a thousandth
/// from 1, and a speed is a new one where it is more than a thousandth from the one in use.
/// (In units of two to the power of -25, of which 1 has 33554432 and a thousandth between
/// 33554 and 33555.)
pub proof fn speeds_are_compared_by_their_value(speed: Single, current: Single)
    requires
        0x3e80_0000 <= speed.bits <= 0x4080_0000,
        0x3e80_0000 <= current.bits <= 0x4080_0000,
    ensures
        ({
            let rate = TempoRate::at(speed, current);
            let from_one = speed_units(speed) - 33554432;
            let from_current = speed_units(speed) - speed_units(current);
            &&& rate.bypass == (-33554 <= from_one <= 33554)
            &&& rate.changed == !(-33554 <= from_current <= 33554)
        }),
{
    let one = Single { bits: NORMAL_SPEED };
    lemma2_to64();
    assert(one.bits % 0x80_0000 == 0 && one.bits / 0x80_0000 == 127);
    assert(0x80_0000 * pow2(2) == 33554432) by (nonlinear_arith)
        requires
            pow2(2) == 4,
    ;
    assert(speed_units(one) == 33554432);
    thousandths_are_told_apart(speed, one);
    thousandths_are_told_apart(speed, current);
}

} // verus!
