//! The settings of the player and of its signal processing.

use vstd::prelude::*;

use crate::float_bits::{
    clamped_lies_in_range, narrowing_is_monotonic, narrowing_keeps_singles, narrowing_keeps_zero,
    Double, Single,
};
use crate::float_ops::{
    quotients_are_near, quotients_are_numbers, size, size_by_exponent, units,
};

verus! {

/// The lowest network timeout in seconds, 1.
pub const TIMEOUT_LOW: u64 = 0x3ff0_0000_0000_0000;

/// The highest network timeout in seconds, 300.
pub const TIMEOUT_HIGH: u64 = 0x4072_c000_0000_0000;

/// The lowest gain of an equalizer band in decibel, -12.
pub const BAND_LOW: u64 = 0xc028_0000_0000_0000;

/// The highest gain of an equalizer band in decibel, 12.
pub const BAND_HIGH: u64 = 0x4028_0000_0000_0000;

/// The lowest normalization gain in decibel, -24.
pub const GAIN_LOW: u64 = 0xc038_0000_0000_0000;

/// The highest normalization gain in decibel, 24.
pub const GAIN_HIGH: u64 = 0x4038_0000_0000_0000;

/// The highest volume, 1.5.
pub const VOLUME_HIGH: u64 = 0x3ff8_0000_0000_0000;

/// One, as a double.
pub const ONE: u64 = 0x3ff0_0000_0000_0000;

/// One, as a single.
pub const ONE_SINGLE: u32 = 0x3f80_0000;

/// A copy of an optional text.
pub(crate) fn clone_text(text: &Option<String>) -> (result: Option<String>)
    ensures
        result == *text,
{
    match text {
        Some(text) => Some(text.clone()),
        None => None,
    }
}

/// How sources are read and put out.
#[derive(Debug)]
pub struct PlayerConfig {
    pub audio_device: String,
    pub exclusive_output: bool,
    /// The length of the queue of decoded samples in seconds.
    pub audio_buffer_secs: Double,
    pub network_timeout_secs: Double,
    pub http_proxy: Option<String>,
}

impl PlayerConfig {
    /// The same configuration.
    pub fn copy(&self) -> (result: PlayerConfig)
        ensures
            result == *self,
    {
        PlayerConfig {
            audio_device: self.audio_device.clone(),
            exclusive_output: self.exclusive_output,
            audio_buffer_secs: self.audio_buffer_secs,
            network_timeout_secs: self.network_timeout_secs,
            http_proxy: clone_text(&self.http_proxy),
        }
    }
}

/// An impulse response that was read and prepared for a sample rate.
#[derive(Debug)]
pub struct PreparedSpatialEffect {
    pub file_path: String,
    pub mix: Single,
    pub sample_rate: u32,
    /// The number under which the host keeps the prepared response.
    pub response: u64,
}

impl PreparedSpatialEffect {
    /// The same effect.
    pub fn copy(&self) -> (result: PreparedSpatialEffect)
        ensures
            result == *self,
    {
        PreparedSpatialEffect {
            file_path: self.file_path.clone(),
            mix: self.mix,
            sample_rate: self.sample_rate,
            response: self.response,
        }
    }
}

/// What is done to the samples.
#[derive(Debug)]
pub struct DspSettings {
    pub speed: Single,
    /// The gain of each equalizer band in decibel.
    pub equalizer: Vec<Single>,
    pub normalization_gain_db: Single,
    pub spatial: Option<PreparedSpatialEffect>,
}

impl DspSettings {
    /// Two settings that are the same.
    pub open spec fn same(self, other: DspSettings) -> bool {
        &&& self.speed == other.speed
        &&& self.equalizer@ == other.equalizer@
        &&& self.normalization_gain_db == other.normalization_gain_db
        &&& self.spatial == other.spatial
    }

    /// The same settings.
    pub fn copy(&self) -> (result: DspSettings)
        ensures
            result.same(*self),
    {
        let mut equalizer: Vec<Single> = Vec::new();
        let mut i: usize = 0;
        while i < self.equalizer.len()
            invariant
                i <= self.equalizer@.len(),
                equalizer@ == self.equalizer@.take(i as int),
            decreases self.equalizer@.len() - i,
        {
            equalizer.push(self.equalizer[i]);
            i = i + 1;
            assert(equalizer@ =~= self.equalizer@.take(i as int));
        }
        assert(equalizer@ =~= self.equalizer@);
        DspSettings {
            speed: self.speed,
            equalizer,
            normalization_gain_db: self.normalization_gain_db,
            spatial: match &self.spatial {
                Some(spatial) => Some(spatial.copy()),
                None => None,
            },
        }
    }
}

/// The gain of an equalizer band for a request of `value`.
pub open spec fn band_gain(value: Double) -> Single {
    value.clamped(Double { bits: BAND_LOW }, Double { bits: BAND_HIGH }).narrowed()
}

/// The gains of `bands` equalizer bands for requested values: those that are
/// requested, clamped, and zero for the rest.
pub open spec fn band_gains(values: Seq<Double>, bands: nat) -> Seq<Single> {
    Seq::new(
        bands,
        |i: int|
            if i < values.len() {
                band_gain(values[i])
            } else {
                Single { bits: 0 }
            },
    )
}

/// The gains of `bands` equalizer bands for requested values.
pub(crate) fn equalizer_gains(values: &Vec<Double>, bands: usize) -> (result: Vec<Single>)
    ensures
        result@ == band_gains(values@, bands as nat),
{
    let mut gains: Vec<Single> = Vec::new();
    let mut i: usize = 0;
    while i < bands
        invariant
            i <= bands,
            gains@ == band_gains(values@, bands as nat).take(i as int),
        decreases bands - i,
    {
        let gain: Single = if i < values.len() {
            values[i].clamp(Double { bits: BAND_LOW }, Double { bits: BAND_HIGH }).to_single()
        } else {
            Single { bits: 0 }
        };
        gains.push(gain);
        i = i + 1;
        assert(gains@ =~= band_gains(values@, bands as nat).take(i as int));
    }
    assert(gains@ =~= band_gains(values@, bands as nat));
    gains
}

/// The normalization gain for a request of `value`.
pub open spec fn normalization_gain(value: Double) -> Single {
    value.clamped(Double { bits: GAIN_LOW }, Double { bits: GAIN_HIGH }).narrowed()
}

/// The volume for a request of that many percent of the full volume.
pub open spec fn volume_level(percent: Double) -> Single {
    percent.over(100).clamped(Double { bits: 0 }, Double { bits: VOLUME_HIGH }).narrowed()
}

/// The network timeout for a request of `seconds`.
pub open spec fn network_timeout(seconds: Double) -> Double {
    seconds.clamped(Double { bits: TIMEOUT_LOW }, Double { bits: TIMEOUT_HIGH })
}

/// The share of the processed signal, brought into the range from nothing to all.
pub open spec fn spatial_mix(mix: Single) -> Single {
    mix.clamped(Single { bits: 0 }, Single { bits: ONE_SINGLE })
}

/// The share of the processed signal, brought into the range from nothing to all.
pub fn clamp_spatial_mix(mix: Single) -> (result: Single)
    ensures
        result == spatial_mix(mix),
{
    mix.clamp(Single { bits: 0 }, Single { bits: ONE_SINGLE })
}

/// Whatever is requested, an equalizer band stays within 12 decibel and the
/// normalization within 24, up and down, and the volume between nothing and one
/// and a half times the full volume.
pub proof fn levels_stay_in_range(value: Double)
    requires
        !value.not_a_number(),
    ensures
        !band_gain(value).not_a_number(),
        -(0x4140_0000int) <= band_gain(value).rank() <= 0x4140_0000,
        !normalization_gain(value).not_a_number(),
        -(0x41c0_0000int) <= normalization_gain(value).rank() <= 0x41c0_0000,
        !volume_level(value).not_a_number(),
        0 <= volume_level(value).rank() <= 0x3fc0_0000,
{
    range_is_kept(value, Double { bits: BAND_LOW }, Double { bits: BAND_HIGH });
    range_is_kept(value, Double { bits: GAIN_LOW }, Double { bits: GAIN_HIGH });
    quotients_are_numbers(value, 100);
    range_is_kept(value.over(100), Double { bits: 0 }, Double { bits: VOLUME_HIGH });
    narrowing_keeps_singles(130, 0x40_0000, true);
    narrowing_keeps_singles(130, 0x40_0000, false);
    narrowing_keeps_singles(131, 0x40_0000, true);
    narrowing_keeps_singles(131, 0x40_0000, false);
    narrowing_keeps_singles(127, 0x40_0000, false);
    narrowing_keeps_zero(Double { bits: 0 });
}

proof fn range_is_kept(value: Double, low: Double, high: Double)
    requires
        !value.not_a_number(),
        !low.not_a_number(),
        !high.not_a_number(),
        low.rank() <= high.rank(),
    ensures
        !value.clamped(low, high).narrowed().not_a_number(),
        low.narrowed().rank() <= value.clamped(low, high).narrowed().rank()
            <= high.narrowed().rank(),
{
    clamped_lies_in_range(value, low, high);
    narrowing_is_monotonic(low, value.clamped(low, high));
    narrowing_is_monotonic(value.clamped(low, high), high);
}

/// The network timeout stays between 1 and 300 seconds.
pub proof fn network_timeout_stays_in_range(seconds: Double)
    requires
        !seconds.not_a_number(),
    ensures
        TIMEOUT_LOW <= network_timeout(seconds).bits <= TIMEOUT_HIGH,
{
}

/// The share of the processed signal stays between nothing and all.
pub proof fn spatial_mix_stays_in_range(mix: Single)
    requires
        !mix.not_a_number(),
    ensures
        0 <= spatial_mix(mix).rank() <= ONE_SINGLE,
        spatial_mix(spatial_mix(mix)) == spatial_mix(mix),
{
}

/// Copies of settings are the same in every part.
pub proof fn same_settings_are_the_same_in_every_part(a: DspSettings, b: DspSettings)
    requires
        a.same(b),
    ensures
        a.speed == b.speed,
        a.equalizer@ == b.equalizer@,
        a.normalization_gain_db == b.normalization_gain_db,
        a.spatial == b.spatial,
{
}

/// A gain that is asked for is taken as it is within its range, and as the nearer end of
/// the range outside: 12 decibel up and down for a band of the equalizer, and 24 for the
/// normalization.
pub proof fn gains_in_range_are_kept(value: Double)
    ensures
        value.magnitude() <= 0x4028_0000_0000_0000 ==> band_gain(value) == value.narrowed(),
        0x4028_0000_0000_0000 < value.magnitude() <= 0x7ff0_0000_0000_0000 ==> band_gain(value).bits
            == if value.negative() {
            0xc140_0000u32
        } else {
            0x4140_0000u32
        },
        value.magnitude() <= 0x4038_0000_0000_0000 ==> normalization_gain(value)
            == value.narrowed(),
        0x4038_0000_0000_0000 < value.magnitude() <= 0x7ff0_0000_0000_0000 ==> normalization_gain(
            value,
        ).bits == if value.negative() {
            0xc1c0_0000u32
        } else {
            0x41c0_0000u32
        },
        value.not_a_number() ==> band_gain(value) == value.narrowed() && normalization_gain(value)
            == value.narrowed(),
{
    narrowing_keeps_singles(130, 0x40_0000, true);
    narrowing_keeps_singles(130, 0x40_0000, false);
    narrowing_keeps_singles(131, 0x40_0000, true);
    narrowing_keeps_singles(131, 0x40_0000, false);
}

/// Every band takes the value at its own place, bands without one are flat, and there are
/// as many as before.
pub proof fn bands_take_their_own_values(values: Seq<Double>, bands: nat, i: int)
    requires
        0 <= i < bands,
    ensures
        band_gains(values, bands).len() == bands,
        i >= values.len() ==> band_gains(values, bands)[i].bits == 0,
        i < values.len() && values[i].magnitude() <= 0x4028_0000_0000_0000 ==> band_gains(
            values,
            bands,
        )[i] == values[i].narrowed(),
        i < values.len() && 0x4028_0000_0000_0000 < values[i].magnitude()
            <= 0x7ff0_0000_0000_0000 ==> band_gains(values, bands)[i].bits
            == if values[i].negative() {
            0xc140_0000u32
        } else {
            0x4140_0000u32
        },
{
    if i < values.len() {
        gains_in_range_are_kept(values[i]);
    }
}

/// A timeout from 1 to 300 seconds is taken as it is, a shorter one as 1 second and a
/// longer one as 300 seconds.
pub proof fn timeouts_in_range_are_kept(seconds: Double)
    ensures
        0x3ff0_0000_0000_0000 <= seconds.bits <= 0x4072_c000_0000_0000 ==> network_timeout(seconds)
            == seconds,
        seconds.bits < 0x3ff0_0000_0000_0000 ==> network_timeout(seconds).bits
            == 0x3ff0_0000_0000_0000,
        seconds.negative() && seconds.magnitude() <= 0x7ff0_0000_0000_0000 ==> network_timeout(
            seconds,
        ).bits == 0x3ff0_0000_0000_0000,
        0x4072_c000_0000_0000 < seconds.bits <= 0x7ff0_0000_0000_0000 ==> network_timeout(
            seconds,
        ).bits == 0x4072_c000_0000_0000,
        seconds.not_a_number() ==> network_timeout(seconds) == seconds,
{
}

/// A share from nothing to all is taken as it is, and another one as the nearer of these.
pub proof fn shares_in_range_are_kept(mix: Single)
    ensures
        mix.bits <= 0x3f80_0000 ==> spatial_mix(mix) == mix,
        0x3f80_0000 < mix.bits <= 0x7f80_0000 ==> spatial_mix(mix).bits == 0x3f80_0000,
        mix.negative() && 0 < mix.magnitude() <= 0x7f80_0000 ==> spatial_mix(mix).bits == 0,
        mix.not_a_number() ==> spatial_mix(mix) == mix,
{
}

/// The volume is a hundredth of the percent that were asked for, but for rounding: first to
/// a double, then to a single. It is nothing for less than nothing, and one and a half for
/// more than 150 percent.
pub proof fn the_volume_is_a_hundredth_of_the_percent(percent: Double)
    requires
        percent.exponent() < 2040,
    ensures
        ({
            let part = percent.over(100);
            &&& size(units(part) * 100 - units(percent)) * 0x20_0000_0000_0000 <= size(
                units(percent),
            ) + 100 * 0x10_0000_0000_0000
            &&& part.bits <= 0x3ff8_0000_0000_0000 ==> volume_level(percent) == part.narrowed()
            &&& 0x3ff8_0000_0000_0000 < part.bits <= 0x7ff0_0000_0000_0000 ==> volume_level(
                percent,
            ).bits == 0x3fc0_0000
            &&& percent.negative() ==> volume_level(percent).magnitude() == 0
        }),
{
    size_by_exponent(percent, 2039);
    quotients_are_near(percent, 100);
    quotients_are_numbers(percent, 100);
    narrowing_keeps_singles(127, 0x40_0000, false);
    narrowing_keeps_zero(Double { bits: 0 });
    narrowing_keeps_zero(Double { bits: 0x8000_0000_0000_0000 });
}

} // verus!
