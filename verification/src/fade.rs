//! Fading the volume from one level to another in steps.

use vstd::arithmetic::div_mod::lemma_fundamental_div_mod;
use vstd::arithmetic::power2::{
    lemma2_to64, lemma2_to64_rest, lemma_pow2_adds, lemma_pow2_pos, lemma_pow2_strictly_increases,
    pow2,
};
use vstd::prelude::*;

use crate::controls::{push_volume, set_volume};
use crate::events::{PlayerError, PlayerEvent};
use crate::float_bits::{power_of_two, zero, Double, DOUBLE_INFINITY};
use crate::float_ops::{
    a_number_over_itself_is_one, adding_zero_changes_nothing, multiplying_by_one_changes_nothing,
    multiplying_by_zero_gives_zero, opposites_cancel, opposites_have_opposite_units,
    products_are_near, quotients_are_near, size, size_by_exponent, sums_are_near, units, whole,
    whole_numbers_lie_at_their_value,
};
use crate::player::{effects, resume, Command, Player, PlayerRuntime};
use crate::settings::volume_level;
use crate::shared::SharedView;

verus! {

/// The time from one step of a fade to the next, in milliseconds.
pub const STEP_MILLIS: u64 = 16;

/// A request to fade the volume.
#[derive(Clone, Copy, Debug, PartialEq, Eq, Structural)]
pub struct FadeTask {
    /// The volume at the start, in percent.
    pub from: Double,
    /// The volume at the end, in percent.
    pub to: Double,
    pub duration_ms: Double,
    /// Start to play before the fade.
    pub start_playback: bool,
}

/// A fade that has begun: the next step, and the last one.
#[derive(Clone, Copy, Debug, PartialEq, Eq, Structural)]
pub struct FadeRun {
    pub next: Option<u32>,
    pub steps: u32,
}

/// The least number of steps of 16 milliseconds that last as long as the fade: at
/// least one, and no more than a `u32` can count. A duration of 16 times two to the
/// power of 32 or more has an exponent field of at least 1059, and one below 16 one
/// of at most 1026.
pub open spec fn fade_steps(duration: Double) -> int {
    if duration.not_a_number() || duration.negative() || duration.exponent() < 1027 {
        1
    } else if duration.exponent() >= 1059 {
        u32::MAX as int
    } else {
        let unit = pow2((1079 - duration.exponent()) as nat) as int;
        let steps = (duration.significand() + unit - 1) / unit;
        if steps > u32::MAX {
            u32::MAX as int
        } else {
            steps
        }
    }
}

/// The number of steps of a fade.
pub fn step_count(duration: Double) -> (result: u32)
    ensures
        result == fade_steps(duration),
        result >= 1,
{
    let (negative, exponent, significand): (bool, u64, u64) = duration.parts();
    if !duration.place().0 || negative || exponent < 1027 {
        return 1;
    }
    if exponent >= 1059 {
        return u32::MAX;
    }
    let shift: u32 = (1079 - exponent) as u32;
    let unit: u64 = power_of_two(shift);
    proof {
        lemma2_to64();
        lemma2_to64_rest();
        lemma_pow2_strictly_increases(20, shift as nat);
        if shift < 52 {
            lemma_pow2_strictly_increases(shift as nat, 52);
        }
    }
    let steps: u64 = (significand + unit - 1) / unit;
    assert(steps >= 1) by (nonlinear_arith)
        requires
            steps == (significand + unit - 1) / unit as int,
            significand >= 1,
            unit >= 1,
    ;
    if steps > u32::MAX as u64 {
        u32::MAX
    } else {
        steps as u32
    }
}

/// A request to fade from one volume to another.
pub fn fade(from: Double, to: Double, duration_ms: Double) -> (result: FadeTask)
    ensures
        result == (FadeTask { from, to, duration_ms, start_playback: false }),
{
    FadeTask { from, to, duration_ms, start_playback: false }
}

/// A request to fade out from the volume in use.
pub fn pause_with_fade(saved_volume: Double, duration_ms: Double) -> (result: FadeTask)
    ensures
        result == (FadeTask {
            from: saved_volume,
            to: Double { bits: 0 },
            duration_ms,
            start_playback: false,
        }),
{
    FadeTask { from: saved_volume, to: zero(), duration_ms, start_playback: false }
}

/// A request to play and fade in to a volume.
pub fn play_with_fade(target_volume: Double, duration_ms: Double) -> (result: FadeTask)
    ensures
        result == (FadeTask {
            from: Double { bits: 0 },
            to: target_volume,
            duration_ms,
            start_playback: true,
        }),
{
    FadeTask { from: zero(), to: target_volume, duration_ms, start_playback: true }
}

/// Ends a fade at its next step.
pub fn cancel_fade(player: &Player, commands: &mut Vec<Command>) -> (result: Result<
    (),
    PlayerError,
>)
    ensures
        match player.runtime {
            None => {
                &&& result == Err::<(), PlayerError>(PlayerError::NotInitialized)
                &&& final(commands)@ == old(commands)@
            },
            Some(_) => {
                &&& result is Ok
                &&& final(commands)@ == old(commands)@.push(Command::SetFadeStop(true))
            },
        },
{
    match &player.runtime {
        None => Err(PlayerError::NotInitialized),
        Some(_) => {
            commands.push(Command::SetFadeStop(true));
            Ok(())
        },
    }
}

impl FadeTask {
    /// The fade as it begins: where playing starts, the first volume is set then.
    pub open spec fn begun(self) -> FadeRun {
        FadeRun {
            next: Some(
                if self.start_playback {
                    1
                } else {
                    0
                },
            ),
            steps: fade_steps(self.duration_ms) as u32,
        }
    }

    /// The volume in percent at a step: as far from the first to the last as the step is
    /// from none to all of them.
    pub open spec fn volume(self, step: u32, steps: u32) -> Double {
        self.from.plus(self.to.minus(self.from).product(whole(step as u64).over(steps)))
    }

    /// The volume in percent at a step.
    pub fn volume_at(&self, step: u32, steps: u32) -> (result: Double)
        ensures
            result == self.volume(step, steps),
    {
        let part: Double = Double::from_u64(step as u64).divide(steps);
        self.from.sum(self.to.difference(self.from).multiply(part))
    }

    /// What becomes of the next step of the fade.
    pub open spec fn stepped(
        self,
        before: FadeRun,
        player: Player,
        cancelled: bool,
        after: FadeRun,
        before_commands: Seq<Command>,
        after_commands: Seq<Command>,
        result: Result<bool, PlayerError>,
    ) -> bool {
        &&& after.steps == before.steps
        &&& if cancelled || before.left().len() == 0 {
            &&& result == Ok::<bool, PlayerError>(false)
            &&& after.left() == Seq::<int>::empty()
            &&& after_commands == before_commands
        } else {
            &&& after.left() == before.left().skip(1)
            &&& match player.runtime {
                None => {
                    &&& result == Err::<bool, PlayerError>(PlayerError::NotInitialized)
                    &&& after_commands == before_commands
                },
                Some(runtime) => {
                    &&& result == Ok::<bool, PlayerError>(true)
                    &&& after_commands == before_commands + runtime.volume_commands(
                        self.volume(before.left()[0] as u32, before.steps),
                    )
                },
            }
        }
    }

    /// Takes the next step of the fade, unless it is over or was cancelled: sets the
    /// volume of the step. True where a step was taken; the next one is due
    /// [`STEP_MILLIS`] later.
    pub fn step(
        &self,
        run: &mut FadeRun,
        player: &Player,
        cancelled: bool,
        commands: &mut Vec<Command>,
    ) -> (result: Result<bool, PlayerError>)
        ensures
            self.stepped(
                *old(run),
                *player,
                cancelled,
                *final(run),
                old(commands)@,
                final(commands)@,
                result,
            ),
    {
        match run.next_step(cancelled) {
            None => Ok(false),
            Some(step) => match set_volume(player, self.volume_at(step, run.steps), commands) {
                Ok(_) => Ok(true),
                Err(error) => Err(error),
            },
        }
    }

    /// What beginning the fade takes.
    pub open spec fn begin_commands(self, runtime: PlayerRuntime) -> Seq<Command> {
        seq![Command::SetFadeStop(false)] + if self.start_playback {
            runtime.volume_commands(self.from) + runtime.pause_commands(false)
                + runtime.resumed().state_commands()
        } else {
            Seq::empty()
        }
    }

    /// What becomes of the request as the fade begins.
    pub open spec fn begins(
        self,
        before: Player,
        after: Player,
        before_commands: Seq<Command>,
        after_commands: Seq<Command>,
        result: Result<FadeRun, PlayerError>,
    ) -> bool {
        match before.runtime {
            None => result == Err::<FadeRun, PlayerError>(PlayerError::NotInitialized),
            Some(runtime) => {
                &&& result == Ok::<FadeRun, PlayerError>(self.begun())
                &&& after.runtime == Some(
                    if self.start_playback {
                        runtime.resumed()
                    } else {
                        runtime
                    },
                )
                &&& after_commands == before_commands + self.begin_commands(runtime)
            },
        }
    }

    /// Begins the fade: an earlier cancellation no longer counts, and where that is
    /// asked for, the first volume is set and playing starts.
    pub fn compute(&self, player: &mut Player, commands: &mut Vec<Command>) -> (result: Result<
        FadeRun,
        PlayerError,
    >)
        ensures
            old(player).wf() ==> final(player).wf(),
            old(player).refuses(*final(player), old(commands)@, final(commands)@),
            self.begins(*old(player), *final(player), old(commands)@, final(commands)@, result),
    {
        let ghost before = commands@;
        let ghost runtime_before = player.runtime->0;
        match &mut player.runtime {
            None => Err(PlayerError::NotInitialized),
            Some(runtime) => {
                commands.push(Command::SetFadeStop(false));
                let steps: u32 = step_count(self.duration_ms);
                if self.start_playback {
                    push_volume(runtime, self.from, commands);
                    resume(runtime, commands);
                }
                assert(commands@ =~= before + self.begin_commands(runtime_before));
                Ok(
                    FadeRun {
                        next: Some(
                            if self.start_playback {
                                1
                            } else {
                                0
                            },
                        ),
                        steps,
                    },
                )
            },
        }
    }
}

impl FadeRun {
    /// The steps that are left where nobody cancels.
    pub open spec fn left(self) -> Seq<int> {
        match self.next {
            Some(next) => if next <= self.steps {
                Seq::new((self.steps - next + 1) as nat, |i: int| next + i)
            } else {
                Seq::empty()
            },
            None => Seq::empty(),
        }
    }

    /// The next step at which to set the volume, and none where the fade is over or
    /// was cancelled.
    pub fn next_step(&mut self, cancelled: bool) -> (result: Option<u32>)
        ensures
            final(self).steps == old(self).steps,
            match result {
                Some(step) => {
                    &&& !cancelled
                    &&& old(self).left().len() > 0
                    &&& step == old(self).left()[0]
                    &&& final(self).left() == old(self).left().skip(1)
                },
                None => {
                    &&& cancelled || old(self).left().len() == 0
                    &&& final(self).left() == Seq::<int>::empty()
                },
            },
    {
        let ghost before = self.left();
        match self.next {
            Some(step) => {
                if cancelled || step > self.steps {
                    self.next = None;
                    return None;
                }
                self.next = if step < self.steps {
                    Some(step + 1)
                } else {
                    None
                };
                assert(self.left() =~= before.skip(1));
                Some(step)
            },
            None => None,
        }
    }
}

/// A fade that nobody cancels sets the volume at every step in order, from the first
/// volume, or right after it where that was set when playing started, to the last
/// one.
pub proof fn a_fade_reaches_its_end(task: FadeTask)
    ensures
        ({
            let left = task.begun().left();
            let first = if task.start_playback {
                1int
            } else {
                0int
            };
            &&& left.len() == fade_steps(task.duration_ms) + 1 - first
            &&& forall|i: int| 0 <= i < left.len() ==> left[i] == first + i
            &&& left.len() > 0
            &&& left.last() == fade_steps(task.duration_ms)
        }),
{
    let duration = task.duration_ms;
    if !(duration.not_a_number() || duration.negative() || duration.exponent() < 1027
        || duration.exponent() >= 1059) {
        let shift = (1079 - duration.exponent()) as nat;
        lemma2_to64();
        lemma_pow2_strictly_increases(20, shift);
        let unit = pow2(shift) as int;
        assert((duration.significand() + unit - 1) / unit >= 1) by (nonlinear_arith)
            requires
                duration.significand() >= 1,
                unit >= 1,
        ;
    }
}

/// A fade starts at its first volume.
pub proof fn a_fade_starts_at_its_first_volume(task: FadeTask, steps: u32)
    requires
        steps > 0,
        task.from.magnitude() < DOUBLE_INFINITY,
        task.to.minus(task.from).magnitude() < DOUBLE_INFINITY,
    ensures
        task.from.magnitude() != 0 ==> task.volume(0, steps) == task.from,
        task.from.magnitude() == 0 ==> task.volume(0, steps).magnitude() == 0,
{
    let difference = task.to.minus(task.from);
    assert(whole(0).over(steps) == Double { bits: 0 });
    multiplying_by_zero_gives_zero(difference);
    adding_zero_changes_nothing(task.from, difference.product(Double { bits: 0 }));
}

/// A fade to or from silence ends at its last volume. (Between two other volumes the last
/// step can miss it by the rounding of their difference.)
pub proof fn a_fade_to_or_from_silence_ends_at_its_last_volume(task: FadeTask, steps: u32)
    requires
        steps > 0,
        task.from.magnitude() < DOUBLE_INFINITY,
        task.to.magnitude() < DOUBLE_INFINITY,
        task.from.magnitude() == 0 || task.to.magnitude() == 0,
    ensures
        task.to.magnitude() != 0 ==> task.volume(steps, steps) == task.to,
        task.to.magnitude() == 0 ==> task.volume(steps, steps).magnitude() == 0,
{
    let difference = task.to.minus(task.from);
    a_number_over_itself_is_one(steps);
    if task.from.magnitude() == 0 {
        adding_zero_changes_nothing(task.to, task.from.opposite());
        multiplying_by_one_changes_nothing(difference);
        adding_zero_changes_nothing(difference, task.from);
        if difference.magnitude() == 0 {
            adding_zero_changes_nothing(task.from, difference);
        }
    } else {
        adding_zero_changes_nothing(task.from.opposite(), task.to);
        multiplying_by_one_changes_nothing(difference);
        opposites_cancel(task.from);
    }
}

/// How rounding errors add up on the way from `from` by a part of `way`: the rounded way
/// is `apart`, the part `part` in units of one over `one`, the rounded product `moved` and
/// the rounded sum `there`.
proof fn errors_add_up(
    from: int,
    way: int,
    apart: int,
    part: int,
    moved: int,
    there: int,
    step: int,
    steps: int,
    one: int,
)
    requires
        0 <= step <= steps,
        0 < steps,
        0 < one,
        part >= 0,
        size(apart - way) * 0x20_0000_0000_0000 <= size(way),
        size(part * steps - step * one) * 0x20_0000_0000_0000 <= step * one,
        size(moved * one - apart * part) * 0x20_0000_0000_0000 <= size(apart * part) + one
            * 0x10_0000_0000_0000,
        size(there - (from + moved)) * 0x20_0000_0000_0000 <= size(from + moved),
    ensures
        size(apart) <= 2 * size(way),
        size(moved) <= 8 * size(way) + 1,
        size(there * steps - (from * steps + way * step)) * 0x20_0000_0000_0000 <= steps * (size(
            from,
        ) + 16 * size(way) + 0x40_0000_0000_0000),
{
    way_moved(way, apart, part, moved, step, steps, one);
    let e = moved * steps - way * step;
    let w = size(way) as int;
    let f = size(from) as int;
    let b = 0x20_0000_0000_0000int;
    let d = there - (from + moved);
    assert(there * steps - (from * steps + way * step) == d * steps + e) by (nonlinear_arith)
        requires
            d == there - (from + moved),
            e == moved * steps - way * step,
    ;
    let dn = size(d) as int;
    assert(dn * b <= f + 8 * w + 1);
    assert(size(d * steps) == dn * steps) by {
        product_of_sizes(d, steps);
    }
    assert((dn * steps) * b <= steps * (f + 8 * w + 1)) by (nonlinear_arith)
        requires
            dn * b <= f + 8 * w + 1,
            steps > 0,
    ;
    assert(steps * (f + 8 * w + 1) + steps * (7 * w + b) <= steps * (f + 16 * w + 2 * b))
        by (nonlinear_arith)
        requires
            steps > 0,
            w >= 0,
            b == 0x20_0000_0000_0000int,
    ;
}

proof fn product_of_sizes(x: int, y: int)
    ensures
        size(x * y) == size(x) * size(y),
{
    assert(size(x * y) == size(x) * size(y)) by (nonlinear_arith)
        requires
            size(x) == if x < 0 { -x } else { x },
            size(y) == if y < 0 { -y } else { y },
            size(x * y) == if x * y < 0 { -(x * y) } else { x * y },
    ;
}

proof fn way_moved(way: int, apart: int, part: int, moved: int, step: int, steps: int, one: int)
    requires
        0 <= step <= steps,
        0 < steps,
        0 < one,
        part >= 0,
        size(apart - way) * 0x20_0000_0000_0000 <= size(way),
        size(part * steps - step * one) * 0x20_0000_0000_0000 <= step * one,
        size(moved * one - apart * part) * 0x20_0000_0000_0000 <= size(apart * part) + one
            * 0x10_0000_0000_0000,
    ensures
        size(apart) <= 2 * size(way),
        size(moved * steps - way * step) * 0x20_0000_0000_0000 <= steps * (7 * size(way)
            + 0x20_0000_0000_0000),
        size(moved) <= 8 * size(way) + 1,
{
    let b = 0x20_0000_0000_0000int;
    let a = size(apart) as int;
    let w = size(way) as int;
    let p = moved * one - apart * part;
    let q = part * steps - step * one;
    let pn = size(p) as int;
    let qn = size(q) as int;
    // What the product misses, brought to the scale of the steps.
    let c = moved * steps - apart * step;
    assert(c * one == steps * p + apart * q) by (nonlinear_arith)
        requires
            c == moved * steps - apart * step,
            p == moved * one - apart * part,
            q == part * steps - step * one,
    ;
    product_of_sizes(steps, p);
    product_of_sizes(apart, q);
    product_of_sizes(c, one);
    product_of_sizes(apart, part);
    let cn = size(c) as int;
    assert(cn * one <= steps * pn + a * qn);
    assert(part * steps <= 2 * (step * one));
    assert((steps * pn) * b <= steps * (a * part) + steps * (one * b)) by (nonlinear_arith)
        requires
            pn * b <= a * part + one * b,
            steps > 0,
    ;
    assert(steps * (a * part) <= 2 * (a * (step * one))) by (nonlinear_arith)
        requires
            part * steps <= 2 * (step * one),
            a >= 0,
    ;
    assert((a * qn) * b <= a * (step * one)) by (nonlinear_arith)
        requires
            qn * b <= step * one,
            a >= 0,
    ;
    assert((cn * one) * b <= (3 * (a * step) + steps * b) * one) by (nonlinear_arith)
        requires
            cn * one <= steps * pn + a * qn,
            (steps * pn) * b <= 2 * (a * (step * one)) + steps * (one * b),
            (a * qn) * b <= a * (step * one),
            b == 0x20_0000_0000_0000int,
    ;
    assert(cn * b <= 3 * (a * step) + steps * b) by (nonlinear_arith)
        requires
            (cn * one) * b <= (3 * (a * step) + steps * b) * one,
            one > 0,
    ;
    // What the rounded way misses.
    let d = apart - way;
    let dn = size(d) as int;
    product_of_sizes(d, step);
    assert(moved * steps - way * step == c + d * step) by (nonlinear_arith)
        requires
            c == moved * steps - apart * step,
            d == apart - way,
    ;
    let en = size(moved * steps - way * step) as int;
    assert(en <= cn + dn * step);
    assert(a <= 2 * w);
    assert((dn * step) * b <= w * step) by (nonlinear_arith)
        requires
            dn * b <= w,
            step >= 0,
    ;
    assert(3 * (a * step) + w * step <= steps * (7 * w)) by (nonlinear_arith)
        requires
            a <= 2 * w,
            w >= 0,
            0 <= step <= steps,
    ;
    assert(en * b <= steps * (7 * w + b)) by (nonlinear_arith)
        requires
            en <= cn + dn * step,
            cn * b <= 3 * (a * step) + steps * b,
            (dn * step) * b <= w * step,
            3 * (a * step) + w * step <= steps * (7 * w),
            b > 0,
    ;
    // How far the product can be.
    let m = size(moved) as int;
    product_of_sizes(moved, steps);
    product_of_sizes(way, step);
    assert(m * steps <= w * step + en);
    assert(en <= steps * (7 * w + 1)) by (nonlinear_arith)
        requires
            en * b <= steps * (7 * w + b),
            b == 0x20_0000_0000_0000int,
            w >= 0,
            steps > 0,
    ;
    assert(m <= 8 * w + 1) by (nonlinear_arith)
        requires
            m * steps <= w * step + en,
            en <= steps * (7 * w + 1),
            step <= steps,
            w >= 0,
            steps > 0,
    ;
}

/// At every step the volume is as far from the first to the last as the step is from none
/// to all of them: it is the first volume plus that part of the difference, but for
/// rounding. (In units of the least positive double. The error is no more than four units
/// and the part of two to the power of 53 of the first volume and of 16 times the
/// difference. Volumes of two to the power of 900 and more are left out.)
pub proof fn a_fade_is_even(task: FadeTask, step: u32, steps: u32)
    requires
        0 < steps,
        step <= steps,
        task.from.exponent() < 1923,
        task.to.exponent() < 1923,
    ensures
        task.volume(step, steps).magnitude() < DOUBLE_INFINITY,
        ({
            let from = units(task.from);
            let way = units(task.to) - units(task.from);
            let error = units(task.volume(step, steps)) * steps - (from * steps + way * step);
            size(error) * 0x20_0000_0000_0000 <= steps * (size(from) + 16 * size(way)
                + 0x40_0000_0000_0000)
        }),
{
    let from = units(task.from);
    let way = units(task.to) - units(task.from);
    let difference = task.to.minus(task.from);
    let share = whole(step as u64).over(steps);
    let product = difference.product(share);
    let one = pow2(1074);
    lemma_pow2_pos(1074);
    size_by_exponent(task.from, 1924);
    size_by_exponent(task.to, 1924);
    powers_that_matter();
    // The difference.
    opposites_have_opposite_units(task.from);
    sums_are_near(task.to, task.from.opposite());
    // The part of the steps.
    whole_numbers_lie_at_their_value(step as u64);
    quotients_are_near(whole(step as u64), steps);
    let part = units(share);
    part_of_the_steps(step as int, steps as int, part, one as int);
    product_of_sizes(units(difference), part);
    let apart = units(difference);
    assert(size(apart) * size(part) <= one * pow2(2096)) by (nonlinear_arith)
        requires
            size(apart) <= pow2(1980),
            size(part) <= 2 * one,
            pow2(2096) >= 2 * pow2(1980),
    ;
    products_are_near(difference, share);
    let moved = units(product);
    way_moved(way, apart, part, moved, step as int, steps as int, one as int);
    sums_are_near(task.from, product);
    errors_add_up(
        from,
        way,
        apart,
        part,
        moved,
        units(task.volume(step, steps)),
        step as int,
        steps as int,
        one as int,
    );
}

/// From one step to the next the volume moves by the same part of the difference, but for
/// rounding.
pub proof fn a_fade_moves_by_equal_steps(task: FadeTask, step: u32, steps: u32)
    requires
        0 < steps,
        step < steps,
        task.from.exponent() < 1923,
        task.to.exponent() < 1923,
    ensures
        ({
            let from = units(task.from);
            let way = units(task.to) - units(task.from);
            let moved = units(task.volume((step + 1) as u32, steps)) - units(
                task.volume(step, steps),
            );
            size(moved * steps - way) * 0x20_0000_0000_0000 <= 2 * (steps * (size(from) + 16 * size(
                way,
            ) + 0x40_0000_0000_0000))
        }),
{
    let from = units(task.from);
    let way = units(task.to) - units(task.from);
    a_fade_is_even(task, step, steps);
    a_fade_is_even(task, (step + 1) as u32, steps);
    let here = units(task.volume(step, steps));
    let there = units(task.volume((step + 1) as u32, steps));
    assert((there - here) * steps - way == (there * steps - (from * steps + way * (step + 1))) - (
    here * steps - (from * steps + way * step))) by (nonlinear_arith);
}

/// The steps of a fade last as long as it was to, and one step fewer would not: a step
/// takes 16 milliseconds. A fade has one step at least, and no more than a `u32` counts.
pub proof fn the_steps_last_as_long_as_the_fade(duration: Double)
    ensures
        STEP_MILLIS == 16,
        1 <= fade_steps(duration) <= u32::MAX,
        duration.not_a_number() || duration.negative() ==> fade_steps(duration) == 1,
        duration.bits == DOUBLE_INFINITY ==> fade_steps(duration) == u32::MAX,
        duration.bits < DOUBLE_INFINITY && fade_steps(duration) < u32::MAX ==> units(duration)
            <= fade_steps(duration) * (16 * pow2(1074)),
        duration.bits < DOUBLE_INFINITY && fade_steps(duration) > 1 ==> units(duration) > (
        fade_steps(duration) - 1) * (16 * pow2(1074)),
{
    let steps = fade_steps(duration);
    let e = duration.exponent() as int;
    let step = 16 * pow2(1074);
    lemma2_to64();
    lemma_pow2_adds(4, 1074);
    lemma_pow2_pos(1078);
    if duration.bits < DOUBLE_INFINITY {
        if e < 1027 {
            size_by_exponent(duration, 1026);
            assert(step == 1 * step);
        } else if e >= 1059 {
            lemma_pow2_adds(52, (e - 1) as nat);
            lemma2_to64_rest();
            lemma_pow2_adds(32, 1078);
            if e > 1059 {
                lemma_pow2_strictly_increases(1110, (51 + e) as nat);
            }
            lemma_pow2_pos((e - 1) as nat);
            assert(units(duration) >= pow2(1110)) by (nonlinear_arith)
                requires
                    units(duration) == duration.significand() * pow2((e - 1) as nat),
                    duration.significand() >= 0x10_0000_0000_0000,
                    pow2((51 + e) as nat) == 0x10_0000_0000_0000 * pow2((e - 1) as nat),
                    pow2((51 + e) as nat) >= pow2(1110),
            ;
            assert((steps - 1) * step < pow2(1110)) by (nonlinear_arith)
                requires
                    steps <= 0xffff_ffff,
                    step == pow2(1078),
                    pow2(1110) == 0x1_0000_0000 * pow2(1078),
                    pow2(1078) > 0,
            ;
        } else {
            let shift = (1079 - e) as nat;
            let unit = pow2(shift) as int;
            let scale = pow2((e - 1) as nat) as int;
            lemma_pow2_pos(shift);
            lemma_pow2_pos((e - 1) as nat);
            lemma_pow2_adds(shift, (e - 1) as nat);
            let s = duration.significand() as int;
            let up = (s + unit - 1) / unit;
            lemma_fundamental_div_mod(s + unit - 1, unit);
            assert((up - 1) * unit < s <= up * unit) by (nonlinear_arith)
                requires
                    s + unit - 1 == unit * up + (s + unit - 1) % unit,
                    0 <= (s + unit - 1) % unit < unit,
            ;
            assert((up - 1) * step < s * scale <= up * step) by (nonlinear_arith)
                requires
                    (up - 1) * unit < s <= up * unit,
                    step == unit * scale,
                    scale > 0,
            ;
            assert(up >= 1) by (nonlinear_arith)
                requires
                    s <= up * unit,
                    s > 0,
                    unit > 0,
            ;
            assert(steps <= up);
            assert((steps - 1) * step <= (up - 1) * step) by (nonlinear_arith)
                requires
                    steps <= up,
                    step > 0,
            ;
        }
    }
}

/// Some powers of two in order.
proof fn powers_that_matter()
    ensures
        4 * pow2(1976) <= pow2(1980),
        16 * pow2(1980) <= pow2(2096),
        pow2(1976) >= 16,
        pow2(1074) >= 0x20_0000_0000_0000 * 0x1_0000_0000,
{
    lemma2_to64();
    lemma2_to64_rest();
    lemma_pow2_adds(4, 1976);
    lemma_pow2_adds(4, 1980);
    lemma_pow2_strictly_increases(1984, 2096);
    lemma_pow2_strictly_increases(4, 1976);
    lemma_pow2_adds(53, 32);
    lemma_pow2_strictly_increases(85, 1074);
}

/// The rounded part of the steps misses the exact one by no more than rounding can.
proof fn part_of_the_steps(step: int, steps: int, part: int, one: int)
    requires
        0 <= step <= steps,
        0 < steps <= u32::MAX,
        one >= 0x20_0000_0000_0000 * 0x1_0000_0000,
        size(step * one) < 0x20_0000_0000_0000 * steps ==> 2 * size(part * steps - step * one)
            <= steps,
        size(step * one) >= 0x20_0000_0000_0000 * steps ==> size(part * steps - step * one)
            * 0x20_0000_0000_0000 <= size(step * one),
    ensures
        0 <= part <= 2 * one,
        size(part * steps - step * one) * 0x20_0000_0000_0000 <= step * one,
{
    if step == 0 {
        assert(step * one == 0) by (nonlinear_arith)
            requires
                step == 0,
        ;
        assert(part == 0) by (nonlinear_arith)
            requires
                2 * size(part * steps) <= steps,
                size(part * steps) == if part * steps < 0 { -(part * steps) } else { part * steps },
                steps > 0,
        ;
        assert(part * steps == 0) by (nonlinear_arith)
            requires
                part == 0,
        ;
    } else {
        assert(step * one >= 0x20_0000_0000_0000 * steps) by (nonlinear_arith)
            requires
                step >= 1,
                one >= 0x20_0000_0000_0000 * 0x1_0000_0000,
                0 < steps <= 0xffff_ffff,
        ;
        assert(0 <= part * steps <= 2 * (step * one));
        assert(0 <= part <= 2 * one) by (nonlinear_arith)
            requires
                0 <= part * steps <= 2 * (step * one),
                0 < step <= steps,
                one > 0,
        ;
    }
}

/// A step of a fade sets the volume of the session in use to that of the step, and is no
/// longer left; a fade that is over or cancelled sets nothing and has no step left.
pub proof fn a_step_sets_the_volume(
    task: FadeTask,
    before: FadeRun,
    player: Player,
    cancelled: bool,
    after: FadeRun,
    before_commands: Seq<Command>,
    after_commands: Seq<Command>,
    result: Result<bool, PlayerError>,
)
    requires
        player.runtime is Some,
        task.stepped(before, player, cancelled, after, before_commands, after_commands, result),
    ensures
        after.steps == before.steps,
        ({
            let over = cancelled || match before.next {
                Some(next) => next > before.steps,
                None => true,
            };
            &&& result == Ok::<bool, PlayerError>(!over)
            &&& over ==> after.left().len() == 0 && after_commands == before_commands
            &&& !over ==> after.left().len() + 1 == before.left().len()
            &&& !over ==> match player.runtime->0.session {
                Some(session) => after_commands == before_commands.push(
                    Command::SetVolume {
                        session: session.id,
                        volume: volume_level(task.volume(before.next->0, before.steps)),
                    },
                ),
                None => after_commands == before_commands,
            }
        }),
{
}

/// A fade begins by lowering the flag that would end it. One that starts to play sets the
/// first volume before it lets the session play, and tells the host the state; another one
/// does nothing more.
pub proof fn how_a_fade_begins(task: FadeTask, runtime: PlayerRuntime, shared: SharedView)
    ensures
        ({
            let commands = task.begin_commands(runtime);
            &&& commands.len() >= 1
            &&& commands[0] == Command::SetFadeStop(false)
            &&& !task.start_playback ==> commands.len() == 1
            &&& task.start_playback ==> (commands.last() matches Command::Emit(
                PlayerEvent::StateChange(state),
            ) && state.playing && !state.paused && state.time_pos == runtime.state.time_pos)
            &&& task.start_playback ==> (runtime.session matches Some(session) ==> {
                &&& commands.len() == 4
                &&& commands[1] == (Command::SetVolume {
                    session: session.id,
                    volume: volume_level(task.from),
                })
                &&& commands[2] == (Command::SetPaused { session: session.id, paused: false })
                &&& effects(commands, session.id, shared) == (SharedView {
                    volume: volume_level(task.from),
                    paused: false,
                    ..shared
                })
            })
        }),
{
    let commands = task.begin_commands(runtime);
    if task.start_playback && runtime.session is Some {
        reveal_with_fuel(effects, 5);
        assert(commands.drop_first().first() == commands[1]);
        assert(commands.drop_first().drop_first().first() == commands[2]);
        assert(commands.drop_first().drop_first().drop_first().first() == commands[3]);
    }
}

/// A fade that begins has all its steps before it, the first one aside where its volume is
/// set at once because the fade starts to play; only then the player plays. Nothing else of
/// the player changes.
pub proof fn a_fade_begins_with_all_its_steps(
    task: FadeTask,
    before: Player,
    after: Player,
    before_commands: Seq<Command>,
    after_commands: Seq<Command>,
    result: Result<FadeRun, PlayerError>,
)
    requires
        before.runtime is Some,
        task.begins(before, after, before_commands, after_commands, result),
    ensures
        result is Ok,
        after.runtime is Some,
        ({
            let run = result->Ok_0;
            let runtime = before.runtime->0;
            let now = after.runtime->0;
            &&& run.steps == fade_steps(task.duration_ms)
            &&& run.next == Some(
                if task.start_playback {
                    1u32
                } else {
                    0u32
                },
            )
            &&& task.start_playback ==> now.state.playing && !now.state.paused
            &&& !task.start_playback ==> now.state == runtime.state
            &&& now.state.time_pos == runtime.state.time_pos
            &&& now.session == runtime.session
            &&& runtime.same_source(now)
            &&& runtime.same_settings(now)
            &&& after_commands.len() > before_commands.len()
            &&& after_commands[before_commands.len() as int] == Command::SetFadeStop(false)
        }),
{
    the_steps_last_as_long_as_the_fade(task.duration_ms);
}

} // verus!
