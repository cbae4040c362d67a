//! Animation clips from the channels of a file.

use vstd::prelude::*;

use crate::anim::{
    rotation_keys_error, shape_error, Channel, ChannelPath, ChannelValidationError, Clip,
    Interpolation,
};
use crate::scalar::{equal, is_nan, less, Scalar};
use crate::search::{first_some, first_some_stays, or_else};
use crate::source::{
    is_measured, text_of, SourceAnimation, SourceChannel, SourceInterpolation, SourceModel,
    SourceOutputs,
};

verus! {

/// The values of cubic-spline outputs, which come as in-tangent, value and
/// out-tangent; other outputs are values already.
pub open spec fn stripped<T>(values: Seq<T>, cubic: bool) -> Seq<T> {
    if cubic {
        Seq::new((values.len() / 3) as nat, |k: int| values[k * 3 + 1])
    } else {
        values
    }
}

/// Keeps only the values of cubic-spline outputs.
pub fn strip_cubic<T: Copy>(values: &Vec<T>, cubic: bool) -> (kept: Vec<T>)
    ensures
        kept@ == stripped(values@, cubic),
{
    let mut kept: Vec<T> = Vec::new();
    let total: usize = values.len();
    let count: usize = if cubic {
        total / 3
    } else {
        total
    };
    let mut k: usize = 0;
    while k < count
        invariant
            k <= count,
            total == values@.len(),
            count == (if cubic {
                total / 3
            } else {
                total
            }),
            kept@ =~= stripped(values@, cubic).take(k as int),
            stripped(values@, cubic).len() == count,
        decreases count - k,
    {
        let at: usize = if cubic {
            k * 3 + 1
        } else {
            k
        };
        kept.push(values[at]);
        k += 1;
    }
    assert(kept@ =~= stripped(values@, cubic));
    kept
}

/// The numbers of `rows` of three, one after the other.
pub open spec fn flat3(rows: Seq<[Scalar; 3]>) -> Seq<Scalar> {
    Seq::new(rows.len() * 3, |k: int| rows[k / 3]@[k % 3])
}

/// The numbers of `rows` of four, one after the other.
pub open spec fn flat4(rows: Seq<[Scalar; 4]>) -> Seq<Scalar> {
    Seq::new(rows.len() * 4, |k: int| rows[k / 4]@[k % 4])
}

/// The numbers of translations or scales, without tangents.
pub fn flatten3(values: &Vec<[Scalar; 3]>, cubic: bool) -> (flat: Vec<Scalar>)
    ensures
        flat@ == flat3(stripped(values@, cubic)),
{
    let rows = strip_cubic(values, cubic);
    let mut flat: Vec<Scalar> = Vec::new();
    let mut i: usize = 0;
    while i < rows.len()
        invariant
            i <= rows@.len(),
            flat@ =~= flat3(rows@).take(i * 3),
        decreases rows@.len() - i,
    {
        let row: [Scalar; 3] = rows[i];
        flat.push(row[0]);
        flat.push(row[1]);
        flat.push(row[2]);
        i += 1;
    }
    assert(flat@ =~= flat3(rows@));
    flat
}

/// The numbers of rotations, without tangents.
pub fn flatten4(values: &Vec<[Scalar; 4]>, cubic: bool) -> (flat: Vec<Scalar>)
    ensures
        flat@ == flat4(stripped(values@, cubic)),
{
    let rows = strip_cubic(values, cubic);
    let mut flat: Vec<Scalar> = Vec::new();
    let mut i: usize = 0;
    while i < rows.len()
        invariant
            i <= rows@.len(),
            flat@ =~= flat4(rows@).take(i * 4),
        decreases rows@.len() - i,
    {
        let row: [Scalar; 4] = rows[i];
        flat.push(row[0]);
        flat.push(row[1]);
        flat.push(row[2]);
        flat.push(row[3]);
        i += 1;
    }
    assert(flat@ =~= flat4(rows@));
    flat
}

/// Why a channel cannot be played.
#[derive(Clone, Copy, Debug, PartialEq, Eq, Structural)]
pub enum ClipError {
    UnreadableKeys,
    NoKeys,
    TooFewCubicKeys,
    UnreadableOutputs,
    Channel(ChannelValidationError),
}

/// The property, the values and the squared lengths that a channel plays, or
/// nothing for morph weights.
pub open spec fn played_values(channel: SourceChannel, cubic: bool) -> Option<
    (ChannelPath, Seq<Scalar>, Seq<Scalar>),
> {
    match channel.outputs {
        Some(SourceOutputs::Translations(values)) => Some(
            (ChannelPath::Translation, flat3(stripped(values@, cubic)), seq![]),
        ),
        Some(SourceOutputs::Scales(values)) => Some(
            (ChannelPath::Scale, flat3(stripped(values@, cubic)), seq![]),
        ),
        Some(SourceOutputs::Rotations(values)) => Some(
            (
                ChannelPath::Rotation,
                flat4(stripped(values@, cubic)),
                stripped(channel.lengths_squared@, cubic),
            ),
        ),
        _ => None,
    }
}

/// Whether a channel of the file is a cubic spline.
pub open spec fn is_cubic(channel: SourceChannel) -> bool {
    channel.sampler.interpolation == SourceInterpolation::CubicSpline
}

/// Whether `played` is what a channel of the file plays. Cubic splines become
/// linear over their values.
pub open spec fn plays(channel: SourceChannel, played: Channel) -> bool {
    &&& channel.times matches Some(times)
    &&& played_values(channel, is_cubic(channel)) matches Some((path, values, lengths))
    &&& played.node == channel.target.node
    &&& played.path == path
    &&& played.interpolation == (if channel.sampler.interpolation == SourceInterpolation::Step {
        Interpolation::Step
    } else {
        Interpolation::Linear
    })
    &&& played.times@ == times@
    &&& played.values@ == values
}

/// Why a channel of the file cannot be played, if so.
pub open spec fn channel_failure(channel: SourceChannel) -> Option<ClipError> {
    match channel.times {
        None => Some(ClipError::UnreadableKeys),
        Some(times) => if times@.len() == 0 {
            Some(ClipError::NoKeys)
        } else if is_cubic(channel) && times@.len() < 2 {
            Some(ClipError::TooFewCubicKeys)
        } else if channel.outputs is None {
            Some(ClipError::UnreadableOutputs)
        } else {
            match played_values(channel, is_cubic(channel)) {
                None => None,
                Some((path, values, lengths)) => match or_else(
                    shape_error(path, times@, values),
                    rotation_keys_error(path, times@.len(), values, false, lengths),
                ) {
                    Some(error) => Some(ClipError::Channel(error)),
                    None => None,
                },
            }
        },
    }
}

fn copy_numbers(values: &Vec<Scalar>) -> (copy: Vec<Scalar>)
    ensures
        copy@ == values@,
{
    let mut copy: Vec<Scalar> = Vec::new();
    let mut i: usize = 0;
    while i < values.len()
        invariant
            i <= values@.len(),
            copy@ =~= values@.take(i as int),
        decreases values@.len() - i,
    {
        copy.push(values[i]);
        i += 1;
    }
    assert(copy@ =~= values@);
    copy
}

/// What a channel of the file plays: nothing if it drives morph weights.
fn play_channel(channel: &SourceChannel) -> (result: Result<Option<Channel>, ClipError>)
    requires
        is_measured(*channel),
    ensures
        match result {
            Ok(Some(played)) => channel_failure(*channel) is None && plays(*channel, played),
            Ok(None) => channel_failure(*channel) is None && played_values(
                *channel,
                is_cubic(*channel),
            ) is None,
            Err(error) => channel_failure(*channel) == Some(error),
        },
{
    let times = match &channel.times {
        None => {
            return Err(ClipError::UnreadableKeys);
        },
        Some(times) => times,
    };
    if times.len() == 0 {
        return Err(ClipError::NoKeys);
    }
    let interpolation = if channel.sampler.interpolation == SourceInterpolation::Step {
        Interpolation::Step
    } else {
        Interpolation::Linear
    };
    let cubic = channel.sampler.interpolation == SourceInterpolation::CubicSpline;
    if cubic && times.len() < 2 {
        return Err(ClipError::TooFewCubicKeys);
    }
    let no_lengths: Vec<Scalar> = Vec::new();
    assert(no_lengths@ =~= seq![]);
    let (path, values, lengths) = match &channel.outputs {
        None => {
            return Err(ClipError::UnreadableOutputs);
        },
        Some(SourceOutputs::MorphTargetWeights) => {
            return Ok(None);
        },
        Some(SourceOutputs::Translations(values)) => (
            ChannelPath::Translation,
            flatten3(values, cubic),
            no_lengths,
        ),
        Some(SourceOutputs::Scales(values)) => (
            ChannelPath::Scale,
            flatten3(values, cubic),
            no_lengths,
        ),
        Some(SourceOutputs::Rotations(values)) => (
            ChannelPath::Rotation,
            flatten4(values, cubic),
            strip_cubic(&channel.lengths_squared, cubic),
        ),
    };
    let played = Channel {
        node: channel.target.node,
        path,
        interpolation,
        times: copy_numbers(times),
        values,
    };
    assert(plays(*channel, played));
    match played.validate() {
        Err(error) => {
            return Err(ClipError::Channel(error));
        },
        Ok(()) => {},
    }
    if path == ChannelPath::Rotation {
        assert(lengths@.len() * 4 == played.values@.len());
        assert(lengths@.len() == played.times@.len());
        match played.validate_rotation_keys(false, lengths.as_slice()) {
            Err(error) => {
                return Err(ClipError::Channel(error));
            },
            Ok(()) => {},
        }
    }
    Ok(Some(played))
}

/// Which of the first `count` channels are played.
pub open spec fn played_channels(channels: Seq<SourceChannel>, count: nat) -> Seq<int>
    decreases count,
{
    if count == 0 {
        Seq::empty()
    } else {
        let earlier = played_channels(channels, (count - 1) as nat);
        let last = channels[count - 1];
        if played_values(last, is_cubic(last)) is Some {
            earlier.push(count - 1)
        } else {
            earlier
        }
    }
}

/// The larger of a duration and the last of `times`.
pub open spec fn later(duration: Scalar, times: Option<Vec<Scalar>>) -> Scalar {
    match times {
        Some(times) => if times@.len() > 0 && less(duration, times@.last()) {
            times@.last()
        } else {
            duration
        },
        None => duration,
    }
}

/// The last key time of the first `count` channels, at least zero.
pub open spec fn longest(channels: Seq<SourceChannel>, count: nat) -> Scalar
    decreases count,
{
    if count == 0 {
        Scalar { bits: 0 }
    } else {
        later(longest(channels, (count - 1) as nat), channels[count - 1].times)
    }
}

/// Whether `clip` is an animation of the file: its name, or "anim" without
/// one, its last key time, and its channels without those of morph weights.
pub open spec fn is_clip(animation: SourceAnimation, clip: Clip) -> bool {
    let channels = animation.channels@;
    let played = played_channels(channels, channels.len());
    &&& clip.name@ == (match text_of(animation.name) {
        Some(name) => name,
        None => "anim"@,
    })
    &&& clip.duration == longest(channels, channels.len())
    &&& clip.channels@.len() == played.len()
    &&& forall|j: int|
        0 <= j < played.len() ==> plays(channels[played[j]], #[trigger] clip.channels@[j])
}

/// The first channel of an animation that cannot be played, and why.
pub open spec fn animation_failure(animation: SourceAnimation) -> Option<(usize, ClipError)> {
    first_some(
        animation.channels@.len(),
        |k: int|
            match channel_failure(animation.channels@[k]) {
                Some(error) => Some((k as usize, error)),
                None => None,
            },
    )
}

fn build_clip(animation: &SourceAnimation) -> (result: Result<Clip, (usize, ClipError)>)
    requires
        forall|k: int|
            0 <= k < animation.channels@.len() ==> is_measured(#[trigger] animation.channels@[k]),
    ensures
        match result {
            Ok(clip) => animation_failure(*animation) is None && is_clip(*animation, clip),
            Err(failure) => animation_failure(*animation) == Some(failure),
        },
{
    let ghost source = animation.channels@;
    let ghost check = |k: int|
        match channel_failure(animation.channels@[k]) {
            Some(error) => Some((k as usize, error)),
            None => None,
        };
    let mut channels: Vec<Channel> = Vec::new();
    let mut duration = Scalar::zero();
    let mut k: usize = 0;
    while k < animation.channels.len()
        invariant
            k <= animation.channels@.len(),
            source == animation.channels@,
            forall|k: int|
                0 <= k < animation.channels@.len() ==> is_measured(
                    #[trigger] animation.channels@[k],
                ),
            check == (|k: int|
                match channel_failure(animation.channels@[k]) {
                    Some(error) => Some((k as usize, error)),
                    None => None,
                }),
            animation_failure(*animation) == first_some(source.len(), check),
            first_some(k as nat, check) is None,
            duration == longest(source, k as nat),
            channels@.len() == played_channels(source, k as nat).len(),
            forall|j: int|
                0 <= j < channels@.len() ==> plays(
                    source[played_channels(source, k as nat)[j]],
                    #[trigger] channels@[j],
                ),
        decreases animation.channels@.len() - k,
    {
        let channel = &animation.channels[k];
        if let Some(times) = &channel.times {
            if times.len() > 0 {
                let last: Scalar = times[times.len() - 1];
                if duration.less(last) {
                    duration = last;
                }
            }
        }
        match play_channel(channel) {
            Ok(Some(played)) => {
                channels.push(played);
            },
            Ok(None) => {},
            Err(error) => {
                assert(check(k as int) == Some((k, error)));
                proof {
                    first_some_stays((k + 1) as nat, source.len(), check);
                }
                return Err((k, error));
            },
        }
        assert(check(k as int) is None);
        k += 1;
    }
    let name: String = match &animation.name {
        Some(name) => name.clone(),
        None => "anim".to_owned(),
    };
    Ok(Clip { name, duration, channels })
}

/// The first channel of a model that cannot be played, and why.
pub open spec fn clip_failure(animations: Seq<SourceAnimation>) -> Option<
    (usize, usize, ClipError),
> {
    first_some(
        animations.len(),
        |i: int|
            match animation_failure(animations[i]) {
                Some((channel, error)) => Some((i as usize, channel, error)),
                None => None,
            },
    )
}

/// Whether `clips` are the animations of a model.
pub open spec fn are_clips(animations: Seq<SourceAnimation>, clips: Seq<Clip>) -> bool {
    &&& clips.len() == animations.len()
    &&& forall|i: int| 0 <= i < clips.len() ==> is_clip(animations[i], #[trigger] clips[i])
}

/// The clips of a model, in order: fails with the animation and the channel
/// that cannot be played.
pub fn build_clips(model: &SourceModel) -> (result: Result<Vec<Clip>, (usize, usize, ClipError)>)
    requires
        model.measured(),
    ensures
        match result {
            Ok(clips) => clip_failure(model.animations@) is None && are_clips(
                model.animations@,
                clips@,
            ),
            Err(failure) => clip_failure(model.animations@) == Some(failure),
        },
{
    let ghost animations = model.animations@;
    let ghost check = |i: int|
        match animation_failure(model.animations@[i]) {
            Some((channel, error)) => Some((i as usize, channel, error)),
            None => None,
        };
    let mut clips: Vec<Clip> = Vec::new();
    let mut i: usize = 0;
    while i < model.animations.len()
        invariant
            i <= model.animations@.len(),
            model.measured(),
            animations == model.animations@,
            check == (|i: int|
                match animation_failure(model.animations@[i]) {
                    Some((channel, error)) => Some((i as usize, channel, error)),
                    None => None,
                }),
            clip_failure(animations) == first_some(animations.len(), check),
            first_some(i as nat, check) is None,
            clips@.len() == i,
            forall|k: int| 0 <= k < i ==> is_clip(animations[k], #[trigger] clips@[k]),
        decreases model.animations@.len() - i,
    {
        assert forall|k: int| 0 <= k < animations[i as int].channels@.len() implies is_measured(
            #[trigger] animations[i as int].channels@[k],
        ) by {
            assert(is_measured(model.animations@[i as int].channels@[k]));
        }
        match build_clip(&model.animations[i]) {
            Ok(clip) => {
                clips.push(clip);
            },
            Err((channel, error)) => {
                assert(check(i as int) == Some((i, channel, error)));
                proof {
                    first_some_stays((i + 1) as nat, animations.len(), check);
                }
                return Err((i, channel, error));
            },
        }
        assert(check(i as int) is None);
        i += 1;
    }
    Ok(clips)
}

/// What is played has passed validation: every channel of a clip can be
/// sampled at every finite time.
pub proof fn played_channels_are_valid(channel: SourceChannel, played: Channel, t: Scalar)
    requires
        channel_failure(channel) is None,
        plays(channel, played),
        crate::scalar::is_finite(t),
    ensures
        crate::anim::channel_error(played) is None,
        crate::anim::can_sample(played, t),
{
    crate::anim::validated_channels_sample(played, t);
}

proof fn longest_facts(channels: Seq<SourceChannel>, count: nat)
    ensures
        !is_nan(longest(channels, count)),
        forall|k: int|
            0 <= k < count && ((#[trigger] channels[k]).times matches Some(times) && times@.len()
                > 0) ==> !less(longest(channels, count), channels[k].times.unwrap()@.last()),
        longest(channels, count).bits == 0 || exists|k: int|
            0 <= k < count && ((#[trigger] channels[k]).times matches Some(times) && times@.len()
                > 0 && longest(channels, count) == times@.last()),
    decreases count,
{
    if count > 0 {
        longest_facts(channels, (count - 1) as nat);
        let earlier = longest(channels, (count - 1) as nat);
        if longest(channels, count) == earlier && earlier.bits != 0 {
            let k = choose|k: int|
                0 <= k < count - 1 && ((#[trigger] channels[k]).times matches Some(times)
                    && times@.len() > 0 && earlier == times@.last());
            assert(channels[k].times is Some);
        } else if longest(channels, count) != earlier {
            assert(channels[count - 1].times is Some);
        }
    }
}

/// A clip lasts until the latest last key of the channels of its animation: no
/// channel has a later one, and some channel has that one, unless it is zero.
pub proof fn clips_last_until_their_latest_key(animation: SourceAnimation, clip: Clip)
    requires
        is_clip(animation, clip),
    ensures
        forall|k: int|
            0 <= k < animation.channels@.len() && ((
            #[trigger] animation.channels@[k]).times matches Some(times) && times@.len() > 0)
                ==> !less(
                clip.duration,
                animation.channels@[k].times.unwrap()@.last(),
            ),
        clip.duration.bits == 0 || exists|k: int|
            0 <= k < animation.channels@.len() && ((
            #[trigger] animation.channels@[k]).times matches Some(times) && times@.len() > 0
                && clip.duration == times@.last()),
{
    longest_facts(animation.channels@, animation.channels@.len());
}

/// How long a clip lasts does not depend on the order of the channels: clips of
/// animations that have the same keys last equally long.
pub proof fn clips_with_the_same_keys_last_alike(
    first: SourceAnimation,
    second: SourceAnimation,
    first_clip: Clip,
    second_clip: Clip,
)
    requires
        is_clip(first, first_clip),
        is_clip(second, second_clip),
        forall|i: int|
            0 <= i < first.channels@.len() ==> exists|j: int|
                0 <= j < second.channels@.len() && (#[trigger] second.channels@[j]).times == (
                #[trigger] first.channels@[i]).times,
        forall|j: int|
            0 <= j < second.channels@.len() ==> exists|i: int|
                0 <= i < first.channels@.len() && (#[trigger] first.channels@[i]).times == (
                #[trigger] second.channels@[j]).times,
        forall|i: int|
            0 <= i < first.channels@.len() && ((#[trigger] first.channels@[i]).times matches Some(
                times,
            ) && times@.len() > 0) ==> !is_nan(first.channels@[i].times.unwrap()@.last())
                && !less(first.channels@[i].times.unwrap()@.last(), Scalar { bits: 0 }),
    ensures
        equal(first_clip.duration, second_clip.duration),
{
    longest_facts(first.channels@, first.channels@.len());
    longest_facts(second.channels@, second.channels@.len());
    if first_clip.duration.bits != 0 {
        let i = choose|i: int|
            0 <= i < first.channels@.len() && ((#[trigger] first.channels@[i]).times matches Some(
                times,
            ) && times@.len() > 0 && first_clip.duration == times@.last());
        let j = choose|j: int|
            0 <= j < second.channels@.len() && (#[trigger] second.channels@[j]).times
                == first.channels@[i].times;
        assert(second.channels@[j].times is Some);
        assert(!less(second_clip.duration, first_clip.duration));
    }
    if second_clip.duration.bits != 0 {
        let j = choose|j: int|
            0 <= j < second.channels@.len() && ((
            #[trigger] second.channels@[j]).times matches Some(times) && times@.len() > 0
                && second_clip.duration == times@.last());
        let i = choose|i: int|
            0 <= i < first.channels@.len() && (#[trigger] first.channels@[i]).times
                == second.channels@[j].times;
        assert(first.channels@[i].times is Some);
        assert(!less(first_clip.duration, second_clip.duration));
    }
}

proof fn played_channels_facts(channels: Seq<SourceChannel>, count: nat)
    ensures
        ({
            let played = played_channels(channels, count);
            &&& forall|j: int|
                0 <= j < played.len() ==> 0 <= #[trigger] played[j] < count && drives_a_node(
                    channels[played[j]],
                )
            &&& forall|a: int, b: int|
                0 <= a < b < played.len() ==> #[trigger] played[a] < #[trigger] played[b]
            &&& forall|k: int|
                0 <= k < count && drives_a_node(#[trigger] channels[k]) ==> played.contains(k)
        }),
    decreases count,
{
    if count > 0 {
        played_channels_facts(channels, (count - 1) as nat);
        let earlier = played_channels(channels, (count - 1) as nat);
        let played = played_channels(channels, count);
        assert forall|k: int|
            0 <= k < count && drives_a_node(#[trigger] channels[k]) implies played.contains(k) by {
            if k < count - 1 {
                let j = choose|j: int| 0 <= j < earlier.len() && earlier[j] == k;
                assert(played[j] == k);
            } else {
                assert(played[earlier.len() as int] == k);
            }
        }
    }
}

/// Whether the outputs of a channel are translations, rotations or scales.
pub open spec fn drives_a_node(channel: SourceChannel) -> bool {
    channel.outputs matches Some(outputs) && !(outputs is MorphTargetWeights)
}

/// Every channel of an animation that drives a node is played by its clip.
pub proof fn driving_channels_are_played(animation: SourceAnimation, clip: Clip, k: int)
    requires
        is_clip(animation, clip),
        0 <= k < animation.channels@.len(),
        drives_a_node(animation.channels@[k]),
    ensures
        exists|j: int|
            0 <= j < clip.channels@.len() && plays(
                animation.channels@[k],
                #[trigger] clip.channels@[j],
            ),
{
    let channels = animation.channels@;
    let played = played_channels(channels, channels.len());
    played_channels_facts(channels, channels.len());
    let j = choose|j: int| 0 <= j < played.len() && played[j] == k;
    assert(plays(channels[played[j]], clip.channels@[j]));
}

/// A clip plays nothing but the channels of its animation that drive a node, in
/// their order.
pub proof fn played_channels_keep_their_order(
    animation: SourceAnimation,
    clip: Clip,
    first: int,
    second: int,
)
    requires
        is_clip(animation, clip),
        0 <= first < second < clip.channels@.len(),
    ensures
        exists|a: int, b: int|
            0 <= a < b < animation.channels@.len() && #[trigger] plays(
                animation.channels@[a],
                clip.channels@[first],
            ) && #[trigger] plays(animation.channels@[b], clip.channels@[second]),
{
    let channels = animation.channels@;
    let played = played_channels(channels, channels.len());
    played_channels_facts(channels, channels.len());
    let (a, b) = (played[first], played[second]);
    assert(plays(channels[a], clip.channels@[first]));
    assert(plays(channels[b], clip.channels@[second]));
}

/// A played channel moves the node of its channel in the file, at its times, in
/// steps only if the file says so.
pub proof fn played_channels_keep_their_keys(channel: SourceChannel, played: Channel)
    requires
        plays(channel, played),
    ensures
        played.node == channel.target.node,
        channel.times is Some,
        played.times@ == channel.times.unwrap()@,
        played.interpolation is Step <==> channel.sampler.interpolation is Step,
        played.path is Translation <==> channel.outputs.unwrap() is Translations,
        played.path is Rotation <==> channel.outputs.unwrap() is Rotations,
        played.path is Scale <==> channel.outputs.unwrap() is Scales,
{
}

/// The values of a played channel are those of the file, key by key; of a cubic
/// spline, whose outputs come in threes, the middle ones.
pub proof fn played_channels_keep_their_values(
    channel: SourceChannel,
    played: Channel,
    key: int,
    component: int,
)
    requires
        plays(channel, played),
        0 <= key,
        0 <= component,
    ensures
        ({
            let cubic = channel.sampler.interpolation is CubicSpline;
            let output = if cubic {
                3 * key + 1
            } else {
                key
            };
            match channel.outputs.unwrap() {
                SourceOutputs::Translations(values) | SourceOutputs::Scales(values) => component < 3
                    && (if cubic {
                    3 * key + 2
                } else {
                    key
                }) < values@.len() ==> 3 * key + component < played.values@.len()
                    && played.values@[3 * key + component] == values@[output]@[component],
                SourceOutputs::Rotations(values) => component < 4 && (if cubic {
                    3 * key + 2
                } else {
                    key
                }) < values@.len() ==> 4 * key + component < played.values@.len()
                    && played.values@[4 * key + component] == values@[output]@[component],
                SourceOutputs::MorphTargetWeights => true,
            }
        }),
{
    assert((3 * key + component) / 3 == key || component >= 3);
    assert((3 * key + component) % 3 == component || component >= 3);
    assert((4 * key + component) / 4 == key || component >= 4);
    assert((4 * key + component) % 4 == component || component >= 4);
}

/// A clip has the name of its animation, and "anim" without one.
pub proof fn clips_keep_their_name(animation: SourceAnimation, clip: Clip)
    requires
        is_clip(animation, clip),
    ensures
        animation.name matches Some(name) ==> clip.name@ == name@,
        animation.name is None ==> clip.name@ == seq!['a', 'n', 'i', 'm'],
{
    reveal_strlit("anim");
    assert("anim"@ =~= seq!['a', 'n', 'i', 'm']);
}

} // verus!
