//! Skeletal animation: clips of translation, rotation and scale channels over
//! a node hierarchy.
//!
//! The library validates channels and selects the keys that a time falls
//! between; blending the selected values is left to the caller.

use vstd::prelude::*;

use crate::scalar::{is_finite, is_nan, less, less_or_equal, Scalar};
use crate::search::{first_some, first_some_none, first_some_stays, outcome};

verus! {

/// The parent entry of a node that has none.
pub const NO_PARENT: usize = usize::MAX;

/// The pattern of the squared length at or below which a quaternion counts as
/// zero (one millionth of a millionth).
pub const ZERO_LENGTH_SQUARED: u32 = 0x2b8c_bccc;

/// A local transform: translation, rotation (xyzw) and scale.
#[derive(Clone, Copy, Debug)]
pub struct NodeTrs {
    pub translation: [Scalar; 3],
    pub rotation: [Scalar; 4],
    pub scale: [Scalar; 3],
}

/// The property of a node that a channel drives.
#[derive(Clone, Copy, Debug, PartialEq, Eq, Structural)]
pub enum ChannelPath {
    Translation,
    Rotation,
    Scale,
}

/// How values between two keys are found.
#[derive(Clone, Copy, Debug, PartialEq, Eq, Structural)]
pub enum Interpolation {
    Linear,
    Step,
}

/// Why a channel cannot be sampled.
#[derive(Clone, Copy, Debug, PartialEq, Eq, Structural)]
pub enum ChannelValidationError {
    NoKeyTimes,
    InvalidKeyTimes,
    UnsortedKeyTimes,
    ValueCountOverflow,
    ValueCountMismatch { values: usize, keys: usize, components: usize },
    NonFiniteValues,
    MalformedRotationKey { key: usize },
    InvalidRotationKey { key: usize },
}

/// Keys of one property of one node.
#[derive(Debug)]
pub struct Channel {
    pub node: usize,
    pub path: ChannelPath,
    pub interpolation: Interpolation,
    pub times: Vec<Scalar>,
    /// Three numbers per key for translation and scale, four (xyzw) for
    /// rotation.
    pub values: Vec<Scalar>,
}

/// A named set of channels that play together.
#[derive(Debug)]
pub struct Clip {
    pub name: String,
    pub duration: Scalar,
    pub channels: Vec<Channel>,
}

/// How far between two keys a sample lies.
#[derive(Clone, Copy, Debug, PartialEq)]
pub enum Blend {
    /// At the first of the two.
    Start,
    /// At `(time - start) / (end - start)` of the way, or at the first of the
    /// two if `end - start` is not positive.
    Between { time: Scalar, start: Scalar, end: Scalar },
}

/// The two key values that a sample lies between.
#[derive(Clone, Copy, Debug)]
#[allow(inconsistent_fields)]
pub enum Sample {
    Translation { from: [Scalar; 3], to: [Scalar; 3], blend: Blend },
    Rotation { from: [Scalar; 4], to: [Scalar; 4], blend: Blend },
    Scale { from: [Scalar; 3], to: [Scalar; 3], blend: Blend },
}

/// Whether `after` is `before` with a sample written into the property that it
/// is of: `lerp` mixes translations and scales, `slerp` rotations.
pub open spec fn is_applied<
    L: Fn([Scalar; 3], [Scalar; 3], Blend) -> [Scalar; 3],
    S: Fn([Scalar; 4], [Scalar; 4], Blend) -> [Scalar; 4],
>(sample: Sample, lerp: L, slerp: S, before: NodeTrs, after: NodeTrs) -> bool {
    match sample {
        Sample::Translation { from, to, blend } => {
            &&& call_ensures(lerp, (from, to, blend), after.translation)
            &&& after == NodeTrs { translation: after.translation, ..before }
        },
        Sample::Rotation { from, to, blend } => {
            &&& call_ensures(slerp, (from, to, blend), after.rotation)
            &&& after == NodeTrs { rotation: after.rotation, ..before }
        },
        Sample::Scale { from, to, blend } => {
            &&& call_ensures(lerp, (from, to, blend), after.scale)
            &&& after == NodeTrs { scale: after.scale, ..before }
        },
    }
}

impl Sample {
    /// `trs` with the sample written into the property that it is of.
    pub fn apply<
        L: Fn([Scalar; 3], [Scalar; 3], Blend) -> [Scalar; 3],
        S: Fn([Scalar; 4], [Scalar; 4], Blend) -> [Scalar; 4],
    >(self, lerp: &L, slerp: &S, trs: NodeTrs) -> (posed: NodeTrs)
        requires
            forall|from: [Scalar; 3], to: [Scalar; 3], blend: Blend| #[trigger]
                call_requires(*lerp, (from, to, blend)),
            forall|from: [Scalar; 4], to: [Scalar; 4], blend: Blend| #[trigger]
                call_requires(*slerp, (from, to, blend)),
        ensures
            is_applied(self, *lerp, *slerp, trs, posed),
    {
        match self {
            Sample::Translation { from, to, blend } => NodeTrs {
                translation: lerp(from, to, blend),
                ..trs
            },
            Sample::Rotation { from, to, blend } => NodeTrs {
                rotation: slerp(from, to, blend),
                ..trs
            },
            Sample::Scale { from, to, blend } => NodeTrs { scale: lerp(from, to, blend), ..trs },
        }
    }
}

/// How many numbers one key of `path` takes.
pub open spec fn values_per_key(path: ChannelPath) -> nat {
    match path {
        ChannelPath::Translation => 3,
        ChannelPath::Rotation => 4,
        ChannelPath::Scale => 3,
    }
}

/// Whether some key time is negative, infinite or NaN.
pub open spec fn has_invalid_time(times: Seq<Scalar>) -> bool {
    exists|i: int| 0 <= i < times.len() && invalid_time(#[trigger] times[i])
}

pub open spec fn invalid_time(time: Scalar) -> bool {
    !is_finite(time) || less(time, Scalar { bits: 0 })
}

/// Whether some key time does not lie after the one before it.
pub open spec fn has_unsorted_time(times: Seq<Scalar>) -> bool {
    exists|i: int| 0 <= i < times.len() - 1 && #[trigger] unsorted_at(times, i)
}

pub open spec fn unsorted_at(times: Seq<Scalar>, i: int) -> bool {
    less_or_equal(times[i + 1], times[i])
}

/// Whether some value is infinite or NaN.
pub open spec fn has_non_finite(values: Seq<Scalar>) -> bool {
    exists|i: int| 0 <= i < values.len() && !is_finite(#[trigger] values[i])
}

/// What is wrong with the shape or the values of a channel, if anything.
pub open spec fn shape_error(path: ChannelPath, times: Seq<Scalar>, values: Seq<Scalar>) -> Option<
    ChannelValidationError,
> {
    let keys = times.len();
    let components = values_per_key(path);
    if keys == 0 {
        Some(ChannelValidationError::NoKeyTimes)
    } else if has_invalid_time(times) {
        Some(ChannelValidationError::InvalidKeyTimes)
    } else if has_unsorted_time(times) {
        Some(ChannelValidationError::UnsortedKeyTimes)
    } else if keys * components > usize::MAX {
        Some(ChannelValidationError::ValueCountOverflow)
    } else if values.len() != keys * components {
        Some(
            ChannelValidationError::ValueCountMismatch {
                values: values.len() as usize,
                keys: keys as usize,
                components: components as usize,
            },
        )
    } else if has_non_finite(values) {
        Some(ChannelValidationError::NonFiniteValues)
    } else {
        None
    }
}

/// What is wrong with the shape or the values of `channel`, if anything.
pub open spec fn channel_error(channel: Channel) -> Option<ChannelValidationError> {
    shape_error(channel.path, channel.times@, channel.values@)
}

/// Whether a squared length is that of a quaternion that can be normalised.
pub open spec fn usable_length_squared(length_squared: Scalar) -> bool {
    is_finite(length_squared) && less(Scalar { bits: ZERO_LENGTH_SQUARED }, length_squared)
}

/// Where the value of rotation key `key` starts: the only value of the key, or
/// the middle one of three.
pub open spec fn rotation_value_start(key: int, cubic_spline: bool) -> int {
    if cubic_spline {
        (key * 3 + 1) * 4
    } else {
        key * 4
    }
}

/// What is wrong with rotation key `key`, whose value has the squared length
/// `length_squared`.
pub open spec fn rotation_key_error(
    values: Seq<Scalar>,
    key: int,
    cubic_spline: bool,
    length_squared: Scalar,
) -> Option<ChannelValidationError> {
    if rotation_value_start(key, cubic_spline) + 4 > values.len() {
        Some(ChannelValidationError::MalformedRotationKey { key: key as usize })
    } else if !usable_length_squared(length_squared) {
        Some(ChannelValidationError::InvalidRotationKey { key: key as usize })
    } else {
        None
    }
}

/// What is wrong with the rotation keys of a channel, if anything: the first
/// malformed or unusable key.
pub open spec fn rotation_keys_error(
    path: ChannelPath,
    keys: nat,
    values: Seq<Scalar>,
    cubic_spline: bool,
    lengths_squared: Seq<Scalar>,
) -> Option<ChannelValidationError> {
    if path == ChannelPath::Rotation {
        first_some(
            keys,
            |key: int| rotation_key_error(values, key, cubic_spline, lengths_squared[key]),
        )
    } else {
        None
    }
}

/// What is wrong with the rotation keys of `channel`, if anything.
pub open spec fn rotation_error(
    channel: Channel,
    cubic_spline: bool,
    lengths_squared: Seq<Scalar>,
) -> Option<ChannelValidationError> {
    rotation_keys_error(
        channel.path,
        channel.times@.len(),
        channel.values@,
        cubic_spline,
        lengths_squared,
    )
}

/// Whether `t` is sampled between the keys `lo` and `hi`: at the first key up
/// to its time, at the last key from its time on, else at two neighbours
/// around `t`.
pub open spec fn spans(times: Seq<Scalar>, t: Scalar, lo: int, hi: int) -> bool {
    let last = times.len() - 1;
    if less_or_equal(t, times[0]) {
        lo == 0 && hi == 0
    } else if less_or_equal(times[last], t) {
        lo == last && hi == last
    } else {
        &&& 0 <= lo
        &&& hi == lo + 1
        &&& hi <= last
        &&& less_or_equal(times[lo], t)
        &&& !less_or_equal(times[hi], t)
    }
}

/// How a sample at `t` between the keys `lo` and `hi` is blended.
pub open spec fn blend_between(channel: Channel, t: Scalar, lo: int, hi: int) -> Blend {
    if lo == hi || channel.interpolation == Interpolation::Step {
        Blend::Start
    } else {
        Blend::Between { time: t, start: channel.times@[lo], end: channel.times@[hi] }
    }
}

/// Whether `value` is the translation or scale of key `key`.
pub open spec fn three_at(values: Seq<Scalar>, key: int, value: [Scalar; 3]) -> bool {
    value@ =~= values.subrange(key * 3, key * 3 + 3)
}

/// Whether `value` is the rotation of key `key`.
pub open spec fn four_at(values: Seq<Scalar>, key: int, value: [Scalar; 4]) -> bool {
    value@ =~= values.subrange(key * 4, key * 4 + 4)
}

/// Whether `sample` holds the values of the keys `lo` and `hi` of `channel`,
/// and the blend at `t`.
pub open spec fn sample_of(channel: Channel, t: Scalar, lo: int, hi: int, sample: Sample) -> bool {
    let blended = blend_between(channel, t, lo, hi);
    match sample {
        Sample::Translation { from, to, blend } => {
            &&& channel.path == ChannelPath::Translation
            &&& three_at(channel.values@, lo, from)
            &&& three_at(channel.values@, hi, to)
            &&& blend == blended
        },
        Sample::Rotation { from, to, blend } => {
            &&& channel.path == ChannelPath::Rotation
            &&& four_at(channel.values@, lo, from)
            &&& four_at(channel.values@, hi, to)
            &&& blend == blended
        },
        Sample::Scale { from, to, blend } => {
            &&& channel.path == ChannelPath::Scale
            &&& three_at(channel.values@, lo, from)
            &&& three_at(channel.values@, hi, to)
            &&& blend == blended
        },
    }
}

/// Whether a sample of `channel` at `t` changes anything: the time and the
/// first key are finite and every key has its values.
pub open spec fn can_sample(channel: Channel, t: Scalar) -> bool {
    &&& channel.times@.len() > 0
    &&& is_finite(t)
    &&& is_finite(channel.times@[0])
    &&& channel.times@.len() * values_per_key(channel.path) <= channel.values@.len()
}

pub(crate) fn any_invalid_time(times: &Vec<Scalar>) -> (found: bool)
    ensures
        found == has_invalid_time(times@),
{
    let mut i: usize = 0;
    while i < times.len()
        invariant
            i <= times.len(),
            forall|k: int| 0 <= k < i ==> !invalid_time(#[trigger] times@[k]),
        decreases times.len() - i,
    {
        if !times[i].is_finite() || times[i].less(Scalar::zero()) {
            assert(invalid_time(times@[i as int]));
            return true;
        }
        i += 1;
    }
    false
}

pub(crate) fn any_unsorted_time(times: &Vec<Scalar>) -> (found: bool)
    ensures
        found == has_unsorted_time(times@),
{
    if times.len() == 0 {
        return false;
    }
    let mut i: usize = 0;
    while i < times.len() - 1
        invariant
            i < times.len(),
            forall|k: int| 0 <= k < i ==> !#[trigger] unsorted_at(times@, k),
        decreases times.len() - i,
    {
        if times[i + 1].less_or_equal(times[i]) {
            assert(unsorted_at(times@, i as int));
            return true;
        }
        i += 1;
    }
    false
}

fn any_non_finite(values: &Vec<Scalar>) -> (found: bool)
    ensures
        found == has_non_finite(values@),
{
    let mut i: usize = 0;
    while i < values.len()
        invariant
            i <= values.len(),
            forall|k: int| 0 <= k < i ==> is_finite(#[trigger] values@[k]),
        decreases values.len() - i,
    {
        if !values[i].is_finite() {
            return true;
        }
        i += 1;
    }
    false
}

impl ChannelPath {
    /// How many numbers one key takes.
    pub fn components(self) -> (count: usize)
        ensures
            count == values_per_key(self),
    {
        match self {
            ChannelPath::Translation => 3,
            ChannelPath::Rotation => 4,
            ChannelPath::Scale => 3,
        }
    }
}

impl Channel {
    /// Checks what sampling relies on: key times that exist, are finite and
    /// not negative and rise strictly, and a finite value for each of them.
    pub fn validate(&self) -> (result: Result<(), ChannelValidationError>)
        ensures
            result == outcome(channel_error(*self)),
    {
        if self.times.len() == 0 {
            return Err(ChannelValidationError::NoKeyTimes);
        }
        if any_invalid_time(&self.times) {
            return Err(ChannelValidationError::InvalidKeyTimes);
        }
        if any_unsorted_time(&self.times) {
            return Err(ChannelValidationError::UnsortedKeyTimes);
        }
        let components: usize = self.path.components();
        match self.times.len().checked_mul(components) {
            None => Err(ChannelValidationError::ValueCountOverflow),
            Some(expected) => {
                if self.values.len() != expected {
                    Err(
                        ChannelValidationError::ValueCountMismatch {
                            values: self.values.len(),
                            keys: self.times.len(),
                            components,
                        },
                    )
                } else if any_non_finite(&self.values) {
                    Err(ChannelValidationError::NonFiniteValues)
                } else {
                    Ok(())
                }
            },
        }
    }

    /// Checks authored rotation keys: each has its value (the middle one of
    /// each cubic-spline triplet) and the value can be normalised.
    /// `lengths_squared` holds the squared length of each key's value; the
    /// entry of a key without a value is not looked at.
    pub fn validate_rotation_keys(
        &self,
        cubic_spline: bool,
        lengths_squared: &[Scalar],
    ) -> (result: Result<(), ChannelValidationError>)
        requires
            lengths_squared.len() == self.times.len(),
        ensures
            result == outcome(rotation_error(*self, cubic_spline, lengths_squared@)),
    {
        if self.path != ChannelPath::Rotation {
            return Ok(());
        }
        let ghost check = |key: int|
            rotation_key_error(self.values@, key, cubic_spline, lengths_squared@[key]);
        let mut key: usize = 0;
        while key < self.times.len()
            invariant
                self.path == ChannelPath::Rotation,
                lengths_squared.len() == self.times.len(),
                key <= self.times.len(),
                check == |key: int|
                    rotation_key_error(self.values@, key, cubic_spline, lengths_squared@[key]),
                first_some(key as nat, check) is None,
            decreases self.times.len() - key,
        {
            let usable = is_usable(lengths_squared[key]);
            if !rotation_value_fits(&self.values, key, cubic_spline) {
                assert(check(key as int) == Some(
                    ChannelValidationError::MalformedRotationKey { key },
                ));
                proof {
                    first_some_stays((key + 1) as nat, self.times@.len(), check);
                }
                return Err(ChannelValidationError::MalformedRotationKey { key });
            }
            if !usable {
                assert(check(key as int) == Some(
                    ChannelValidationError::InvalidRotationKey { key },
                ));
                proof {
                    first_some_stays((key + 1) as nat, self.times@.len(), check);
                }
                return Err(ChannelValidationError::InvalidRotationKey { key });
            }
            assert(check(key as int) is None);
            key += 1;
        }
        Ok(())
    }

    /// The keys around `t`.
    fn key_span(&self, t: Scalar) -> (span: (usize, usize))
        requires
            self.times.len() > 0,
            is_finite(t),
            is_finite(self.times@[0]),
        ensures
            span.0 <= span.1 < self.times.len(),
            spans(self.times@, t, span.0 as int, span.1 as int),
    {
        let last: usize = self.times.len() - 1;
        if t.less_or_equal(self.times[0]) {
            return (0, 0);
        }
        if self.times[last].less_or_equal(t) {
            return (last, last);
        }
        let mut lo: usize = 0;
        let mut hi: usize = last;
        while hi - lo > 1
            invariant
                last == self.times.len() - 1,
                lo < hi <= last,
                less_or_equal(self.times@[lo as int], t),
                !less_or_equal(self.times@[hi as int], t),
            decreases hi - lo,
        {
            let middle: usize = lo + (hi - lo) / 2;
            if self.times[middle].less_or_equal(t) {
                lo = middle;
            } else {
                hi = middle;
            }
        }
        (lo, hi)
    }

    fn three(&self, key: usize) -> (value: [Scalar; 3])
        requires
            key * 3 + 3 <= self.values.len(),
        ensures
            three_at(self.values@, key as int, value),
    {
        let i: usize = key * 3;
        [self.values[i], self.values[i + 1], self.values[i + 2]]
    }

    fn four(&self, key: usize) -> (value: [Scalar; 4])
        requires
            key * 4 + 4 <= self.values.len(),
        ensures
            four_at(self.values@, key as int, value),
    {
        let i: usize = key * 4;
        [self.values[i], self.values[i + 1], self.values[i + 2], self.values[i + 3]]
    }

    /// The two key values that `t` lies between and how to blend them, or
    /// `None` if the channel leaves its node alone at `t`.
    pub fn sample(&self, t: Scalar) -> (sample: Option<Sample>)
        ensures
            sample is Some <==> can_sample(*self, t),
            sample matches Some(taken) ==> exists|lo: int, hi: int|
                spans(self.times@, t, lo, hi) && 0 <= lo <= hi < self.times.len()
                    && #[trigger] sample_of(*self, t, lo, hi, taken),
    {
        if self.times.len() == 0 {
            return None;
        }
        let components: usize = self.path.components();
        let available: usize = self.values.len();
        let required: usize = match self.times.len().checked_mul(components) {
            Some(required) => required,
            None => {
                return None;
            },
        };
        if !t.is_finite() || !self.times[0].is_finite() || available < required {
            return None;
        }
        let (lo, hi) = self.key_span(t);
        let blend = if lo == hi || self.interpolation == Interpolation::Step {
            Blend::Start
        } else {
            Blend::Between { time: t, start: self.times[lo], end: self.times[hi] }
        };
        proof {
            let keys = self.times@.len() as int;
            assert(lo * components + components <= keys * components) by (nonlinear_arith)
                requires
                    lo + 1 <= keys,
                    components >= 0,
            ;
            assert(hi * components + components <= keys * components) by (nonlinear_arith)
                requires
                    hi + 1 <= keys,
                    components >= 0,
            ;
        }
        let taken = match self.path {
            ChannelPath::Translation => Sample::Translation {
                from: self.three(lo),
                to: self.three(hi),
                blend,
            },
            ChannelPath::Rotation => Sample::Rotation {
                from: self.four(lo),
                to: self.four(hi),
                blend,
            },
            ChannelPath::Scale => Sample::Scale { from: self.three(lo), to: self.three(hi), blend },
        };
        assert(sample_of(*self, t, lo as int, hi as int, taken));
        Some(taken)
    }
}

/// Whether the value of rotation key `key` lies within `values`.
fn rotation_value_fits(values: &Vec<Scalar>, key: usize, cubic_spline: bool) -> (fits: bool)
    ensures
        fits == (rotation_value_start(key as int, cubic_spline) + 4 <= values@.len()),
{
    let available: usize = values.len();
    let stride: usize = if cubic_spline {
        3
    } else {
        1
    };
    let middle: usize = if cubic_spline {
        1
    } else {
        0
    };
    match key.checked_mul(stride) {
        None => false,
        Some(first) => match first.checked_add(middle) {
            None => false,
            Some(value) => match value.checked_mul(4) {
                None => false,
                Some(start) => match start.checked_add(4) {
                    None => false,
                    Some(end) => end <= available,
                },
            },
        },
    }
}

/// Whether a squared length is that of a quaternion that can be normalised.
pub fn is_usable(length_squared: Scalar) -> (usable: bool)
    ensures
        usable == usable_length_squared(length_squared),
{
    length_squared.is_finite() && Scalar { bits: ZERO_LENGTH_SQUARED }.less(length_squared)
}

/// The time at which a clip of length `duration` is sampled for the clock
/// `t`. `wrapped` is the remainder of `t` by `duration`, brought into range.
pub open spec fn clip_time(duration: Scalar, t: Scalar, looping: bool, wrapped: Scalar) -> Scalar {
    let zero = Scalar { bits: 0 };
    if !less(zero, duration) {
        zero
    } else if looping {
        wrapped
    } else if less(t, zero) {
        zero
    } else if less(duration, t) {
        duration
    } else {
        t
    }
}

impl Clip {
    /// The time to sample the clip at for the clock `t`: `wrapped` if it
    /// loops, else `t` held within the clip, and zero for a clip without
    /// length. `wrapped` is the remainder of `t` by the duration, brought into
    /// range.
    pub fn local_time(&self, t: Scalar, looping: bool, wrapped: Scalar) -> (time: Scalar)
        ensures
            time == clip_time(self.duration, t, looping, wrapped),
            !looping && less(Scalar { bits: 0 }, self.duration) && !is_nan(t) ==> {
                &&& !less(time, Scalar { bits: 0 })
                &&& !less(self.duration, time)
            },
    {
        let zero = Scalar::zero();
        if !zero.less(self.duration) {
            zero
        } else if looping {
            wrapped
        } else if t.less(zero) {
            zero
        } else if self.duration.less(t) {
            self.duration
        } else {
            t
        }
    }
}

/// What an instance plays.
#[derive(Clone, Copy, Debug)]
pub struct AnimState {
    pub clip: usize,
    pub time: Scalar,
    pub speed: Scalar,
    pub looping: bool,
}

impl Default for AnimState {
    fn default() -> (state: Self)
        ensures
            state.clip == 0,
            state.time.bits == 0,
            state.speed.bits == 0x3f80_0000,
            state.looping,
    {
        AnimState { clip: 0, time: Scalar::zero(), speed: Scalar::one(), looping: true }
    }
}

impl AnimState {
    /// The clip that is played, if there is one.
    pub fn played<'a>(&self, clips: &'a [Clip]) -> (clip: Option<&'a Clip>)
        ensures
            clip == (if self.clip < clips@.len() {
                Some(&clips@[self.clip as int])
            } else {
                None
            }),
    {
        if self.clip < clips.len() {
            Some(&clips[self.clip])
        } else {
            None
        }
    }
}

/// Key times that pass validation rise strictly over any distance.
pub proof fn validated_times_rise(times: Seq<Scalar>, i: int, j: int)
    requires
        !has_invalid_time(times),
        !has_unsorted_time(times),
        0 <= i < j < times.len(),
    ensures
        less(times[i], times[j]),
    decreases j - i,
{
    assert(!unsorted_at(times, j - 1));
    assert(!invalid_time(times[j - 1]));
    assert(!invalid_time(times[j]));
    if i < j - 1 {
        validated_times_rise(times, i, j - 1);
    }
}

/// A channel that passes validation is sampled at every finite time.
pub proof fn validated_channels_sample(channel: Channel, t: Scalar)
    requires
        channel_error(channel) is None,
        is_finite(t),
    ensures
        can_sample(channel, t),
{
    assert(!invalid_time(channel.times@[0]));
}

/// The keys around a time are unique for a channel that passes validation.
pub proof fn validated_spans_are_unique(
    channel: Channel,
    t: Scalar,
    lo: int,
    hi: int,
    other_lo: int,
    other_hi: int,
)
    requires
        channel_error(channel) is None,
        spans(channel.times@, t, lo, hi),
        spans(channel.times@, t, other_lo, other_hi),
    ensures
        lo == other_lo,
        hi == other_hi,
{
    let times = channel.times@;
    if lo < other_lo && hi <= times.len() - 1 && lo + 1 == hi {
        if hi < other_lo {
            validated_times_rise(times, hi, other_lo);
        }
    }
    if other_lo < lo && other_lo + 1 == other_hi {
        if other_hi < lo {
            validated_times_rise(times, other_hi, lo);
        }
    }
}

/// A time at a key is sampled at that key alone or from it on.
pub proof fn key_times_start_their_span(channel: Channel, key: int, lo: int, hi: int)
    requires
        channel_error(channel) is None,
        0 <= key < channel.times@.len(),
        spans(channel.times@, channel.times@[key], lo, hi),
    ensures
        lo == key,
{
    let times = channel.times@;
    let t = times[key];
    assert(!invalid_time(t));
    assert(!invalid_time(times[0]));
    if key > 0 {
        validated_times_rise(times, 0, key);
    }
    if key < times.len() - 1 {
        validated_times_rise(times, key, times.len() - 1);
    }
    if key > 0 && key < times.len() - 1 {
        if lo < key {
            if hi < key {
                validated_times_rise(times, hi, key);
            }
        }
        if lo > key {
            validated_times_rise(times, key, lo);
        }
    }
}

/// A sample before the first key or after the last holds that key; between two
/// keys it holds the last key that is not after it and the key that follows.
pub proof fn samples_lie_between_their_keys(channel: Channel, t: Scalar, lo: int, hi: int)
    requires
        channel_error(channel) is None,
        is_finite(t),
        spans(channel.times@, t, lo, hi),
    ensures
        ({
            let times = channel.times@;
            &&& 0 <= lo <= hi < times.len()
            &&& forall|key: int| 0 <= key < lo ==> less(#[trigger] times[key], t)
            &&& forall|key: int| hi < key < times.len() ==> less(t, #[trigger] times[key])
            &&& lo == hi ==> lo == 0 || lo == times.len() - 1
            &&& lo == hi && 0 < lo ==> !less(t, times[lo])
            &&& lo == hi && lo < times.len() - 1 ==> !less(times[lo], t)
            &&& lo < hi ==> hi == lo + 1 && !less(t, times[lo]) && less(t, times[hi])
        }),
{
    let times = channel.times@;
    let last = times.len() - 1;
    assert forall|key: int| 0 <= key < times.len() implies is_finite(#[trigger] times[key]) by {
        assert(!invalid_time(times[key]));
    }
    assert forall|key: int| 0 <= key < lo implies less(#[trigger] times[key], t) by {
        validated_times_rise(times, key, lo);
    }
    assert forall|key: int| hi < key < times.len() implies less(t, #[trigger] times[key]) by {
        validated_times_rise(times, hi, key);
    }
}

/// A sample holds the values of its two keys, component by component, in the
/// property of its channel. It blends where the channel is not stepped and the
/// keys differ, by the time between their times.
pub proof fn samples_hold_their_values(
    channel: Channel,
    t: Scalar,
    lo: int,
    hi: int,
    sample: Sample,
    c: int,
)
    requires
        sample_of(channel, t, lo, hi, sample),
        can_sample(channel, t),
        0 <= lo <= hi < channel.times@.len(),
        0 <= c,
    ensures
        match sample {
            Sample::Translation { from, to, blend } | Sample::Scale { from, to, blend } => {
                &&& c < 3 ==> from@[c] == channel.values@[3 * lo + c] && to@[c]
                    == channel.values@[3 * hi + c]
                &&& channel.path is Translation == sample is Translation
                &&& channel.path is Scale == sample is Scale
            },
            Sample::Rotation { from, to, blend } => {
                &&& c < 4 ==> from@[c] == channel.values@[4 * lo + c] && to@[c]
                    == channel.values@[4 * hi + c]
                &&& channel.path is Rotation
            },
        },
        ({
            let blend = match sample {
                Sample::Translation { blend, .. } => blend,
                Sample::Rotation { blend, .. } => blend,
                Sample::Scale { blend, .. } => blend,
            };
            match blend {
                Blend::Start => lo == hi || channel.interpolation is Step,
                Blend::Between { time, start, end } => {
                    &&& lo != hi && channel.interpolation is Linear
                    &&& time == t
                    &&& start == channel.times@[lo]
                    &&& end == channel.times@[hi]
                },
            }
        }),
{
    let values = channel.values@;
    let keys = channel.times@.len() as int;
    let n = values_per_key(channel.path) as int;
    assert(lo * n + n <= keys * n && hi * n + n <= keys * n) by (nonlinear_arith)
        requires
            lo + 1 <= keys,
            hi + 1 <= keys,
            n >= 0,
    ;
    assert(3 * lo == lo * 3 && 3 * hi == hi * 3 && 4 * lo == lo * 4 && 4 * hi == hi * 4);
    match sample {
        Sample::Translation { from, to, blend } => {
            assert(c < 3 ==> from@[c] == values.subrange(lo * 3, lo * 3 + 3)[c]);
            assert(c < 3 ==> to@[c] == values.subrange(hi * 3, hi * 3 + 3)[c]);
        },
        Sample::Scale { from, to, blend } => {
            assert(c < 3 ==> from@[c] == values.subrange(lo * 3, lo * 3 + 3)[c]);
            assert(c < 3 ==> to@[c] == values.subrange(hi * 3, hi * 3 + 3)[c]);
        },
        Sample::Rotation { from, to, blend } => {
            assert(c < 4 ==> from@[c] == values.subrange(lo * 4, lo * 4 + 4)[c]);
            assert(c < 4 ==> to@[c] == values.subrange(hi * 4, hi * 4 + 4)[c]);
        },
    }
}

/// A sample changes the property that it is of and no other.
pub proof fn samples_change_one_property<
    L: Fn([Scalar; 3], [Scalar; 3], Blend) -> [Scalar; 3],
    S: Fn([Scalar; 4], [Scalar; 4], Blend) -> [Scalar; 4],
>(sample: Sample, lerp: L, slerp: S, before: NodeTrs, after: NodeTrs)
    requires
        is_applied(sample, lerp, slerp, before, after),
    ensures
        !(sample is Translation) ==> after.translation == before.translation,
        !(sample is Rotation) ==> after.rotation == before.rotation,
        !(sample is Scale) ==> after.scale == before.scale,
        sample matches Sample::Translation { from, to, blend } ==> call_ensures(
            lerp,
            (from, to, blend),
            after.translation,
        ),
        sample matches Sample::Rotation { from, to, blend } ==> call_ensures(
            slerp,
            (from, to, blend),
            after.rotation,
        ),
        sample matches Sample::Scale { from, to, blend } ==> call_ensures(
            lerp,
            (from, to, blend),
            after.scale,
        ),
{
}

/// A channel passes validation exactly if it has keys, their times are finite
/// and not negative and rise strictly, and it has three finite numbers per key,
/// four for a rotation.
pub proof fn valid_channels_can_be_played(channel: Channel)
    ensures
        channel_error(channel) is None <==> {
            let (times, values) = (channel.times@, channel.values@);
            let components: nat = if channel.path is Rotation {
                4
            } else {
                3
            };
            &&& times.len() > 0
            &&& forall|i: int|
                0 <= i < times.len() ==> is_finite(#[trigger] times[i]) && !less(
                    times[i],
                    Scalar { bits: 0 },
                )
            &&& forall|i: int, j: int|
                0 <= i < j < times.len() ==> less(#[trigger] times[i], #[trigger] times[j])
            &&& values.len() == times.len() * components
            &&& forall|i: int| 0 <= i < values.len() ==> is_finite(#[trigger] values[i])
        },
{
    let (times, values) = (channel.times@, channel.values@);
    assert(values.len() <= usize::MAX) by {
        assert(channel.values.len() <= usize::MAX);
    }
    if channel_error(channel) is None {
        assert forall|i: int| 0 <= i < times.len() implies is_finite(#[trigger] times[i]) && !less(
            times[i],
            Scalar { bits: 0 },
        ) by {
            assert(!invalid_time(times[i]));
        }
        assert forall|i: int, j: int| 0 <= i < j < times.len() implies less(
            #[trigger] times[i],
            #[trigger] times[j],
        ) by {
            validated_times_rise(times, i, j);
        }
    } else {
        if has_unsorted_time(times) {
            let i = choose|i: int| 0 <= i < times.len() - 1 && #[trigger] unsorted_at(times, i);
            assert(!less(times[i], times[i + 1]));
        }
        if has_invalid_time(times) {
            let i = choose|i: int| 0 <= i < times.len() && invalid_time(#[trigger] times[i]);
            assert(invalid_time(times[i]));
        }
    }
}

/// Rotation keys pass validation exactly if each has its four numbers, those of
/// a cubic spline in the middle of three groups, and a finite squared length
/// above a millionth of a millionth.
pub proof fn valid_rotations_can_be_normalised(
    channel: Channel,
    cubic_spline: bool,
    lengths_squared: Seq<Scalar>,
)
    requires
        channel.path is Rotation,
    ensures
        rotation_error(channel, cubic_spline, lengths_squared) is None <==> forall|key: int|
            0 <= key < channel.times@.len() ==> {
                &&& is_finite(#[trigger] lengths_squared[key])
                &&& less(Scalar { bits: 0x2b8c_bccc }, lengths_squared[key])
                &&& if cubic_spline {
                    12 * key + 8 <= channel.values@.len()
                } else {
                    4 * key + 4 <= channel.values@.len()
                }
            },
{
    let check = |key: int|
        rotation_key_error(channel.values@, key, cubic_spline, lengths_squared[key]);
    first_some_none(channel.times@.len(), check);
    if rotation_error(channel, cubic_spline, lengths_squared) is None {
        assert forall|key: int| 0 <= key < channel.times@.len() implies {
            &&& is_finite(#[trigger] lengths_squared[key])
            &&& less(Scalar { bits: 0x2b8c_bccc }, lengths_squared[key])
            &&& if cubic_spline {
                12 * key + 8 <= channel.values@.len()
            } else {
                4 * key + 4 <= channel.values@.len()
            }
        } by {
            assert(check(key) is None);
        }
    } else {
        let key = choose|key: int|
            0 <= key < channel.times@.len() && (#[trigger] check(key)) is Some;
        assert(check(key) is Some);
        assert(lengths_squared[key] == lengths_squared[key]);
    }
}

/// A clip that is held is sampled at the clock while that lies within it, at its
/// start before and at its end after; one that loops at the wrapped clock; one
/// without length at zero.
pub proof fn clocks_are_held_within_the_clip(
    duration: Scalar,
    t: Scalar,
    looping: bool,
    wrapped: Scalar,
)
    ensures
        ({
            let zero = Scalar { bits: 0 };
            let time = clip_time(duration, t, looping, wrapped);
            &&& !less(zero, duration) ==> time == zero
            &&& less(zero, duration) && looping ==> time == wrapped
            &&& less(zero, duration) && !looping && !less(t, zero) && !less(duration, t) ==> time
                == t
            &&& less(zero, duration) && !looping && less(t, zero) ==> time == zero
            &&& less(zero, duration) && !looping && less(duration, t) ==> time == duration
        }),
{
}

} // verus!
