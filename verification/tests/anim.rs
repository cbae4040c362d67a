use glam::{Mat4, Quat, Vec3};
use pocket3d::anim::{
    AnimState, Blend, Channel, ChannelPath, ChannelValidationError, Clip, Interpolation, NodeTrs,
    Sample, NO_PARENT,
};
use pocket3d::scalar::Scalar;
use pocket3d::skeleton::{node_parents, parents_first_order, Skeleton};

fn scalar(value: f32) -> Scalar {
    Scalar {
        bits: value.to_bits(),
    }
}

fn scalars(values: &[f32]) -> Vec<Scalar> {
    values.iter().map(|&value| scalar(value)).collect()
}

fn float(value: Scalar) -> f32 {
    f32::from_bits(value.bits)
}

fn vec3(value: [Scalar; 3]) -> Vec3 {
    Vec3::new(float(value[0]), float(value[1]), float(value[2]))
}

/// A local transform with the arithmetic done in floats.
#[derive(Clone, Copy, Debug, PartialEq)]
struct Pose {
    translation: Vec3,
    rotation: Quat,
    scale: Vec3,
}

const IDENTITY: Pose = Pose {
    translation: Vec3::ZERO,
    rotation: Quat::IDENTITY,
    scale: Vec3::ONE,
};

impl Pose {
    fn matrix(&self) -> Mat4 {
        Mat4::from_scale_rotation_translation(self.scale, self.rotation, self.translation)
    }

    fn of(trs: &NodeTrs) -> Self {
        Pose {
            translation: vec3(trs.translation),
            rotation: Quat::from_array(trs.rotation.map(float)),
            scale: vec3(trs.scale),
        }
    }

    fn trs(&self) -> NodeTrs {
        NodeTrs {
            translation: self.translation.to_array().map(scalar),
            rotation: self.rotation.to_array().map(scalar),
            scale: self.scale.to_array().map(scalar),
        }
    }
}

fn fraction(blend: Blend) -> f32 {
    match blend {
        Blend::Start => 0.0,
        Blend::Between { time, start, end } => {
            let span = float(end) - float(start);
            if span > 0.0 {
                (float(time) - float(start)) / span
            } else {
                0.0
            }
        }
    }
}

fn quat(value: [Scalar; 4]) -> Quat {
    let q = Quat::from_array(value.map(float));
    if !q.length_squared().is_finite() || q.length_squared() <= 1.0e-12 {
        Quat::IDENTITY
    } else {
        q.normalize()
    }
}

fn apply(sample: Sample, pose: &mut Pose) {
    *pose = Pose::of(&sample.apply(&lerp, &slerp, pose.trs()));
}

fn sample(channel: &Channel, t: f32, pose: &mut Pose) {
    if let Some(taken) = channel.sample(scalar(t)) {
        apply(taken, pose);
    }
}

fn wrap(t: Scalar, duration: Scalar) -> Scalar {
    let duration = float(duration);
    let remainder = float(t) % duration;
    scalar(if remainder < 0.0 {
        remainder + duration
    } else {
        remainder
    })
}

fn lerp(from: [Scalar; 3], to: [Scalar; 3], blend: Blend) -> [Scalar; 3] {
    let mixed = vec3(from).lerp(vec3(to), fraction(blend));
    mixed.to_array().map(scalar)
}

fn slerp(from: [Scalar; 4], to: [Scalar; 4], blend: Blend) -> [Scalar; 4] {
    let mixed = quat(from).slerp(quat(to), fraction(blend));
    mixed.to_array().map(scalar)
}

fn sample_locals(skeleton: &Skeleton, clip: Option<&Clip>, t: f32, looping: bool) -> Vec<Pose> {
    let mut locals = vec![IDENTITY.trs(); 7];
    skeleton.sample_locals(clip, scalar(t), looping, wrap, lerp, slerp, &mut locals);
    locals.iter().map(Pose::of).collect()
}

fn channel(path: ChannelPath, values: &[f32]) -> Channel {
    Channel {
        node: 0,
        path,
        interpolation: Interpolation::Linear,
        times: scalars(&[0.0, 1.0, 2.0]),
        values: scalars(values),
    }
}

fn lengths_squared(channel: &Channel) -> Vec<Scalar> {
    (0..channel.times.len())
        .map(|key| {
            let value = channel.values.get(key * 4..key * 4 + 4).unwrap_or(&[]);
            scalar(value.iter().map(|v| float(*v) * float(*v)).sum::<f32>())
        })
        .collect()
}

#[test]
fn sample_ignores_nonfinite_first_timestamp() {
    let channel = Channel {
        node: 0,
        path: ChannelPath::Translation,
        interpolation: Interpolation::Linear,
        times: scalars(&[f32::NAN]),
        values: scalars(&[1.0, 2.0, 3.0]),
    };
    let mut output = IDENTITY;
    sample(&channel, 0.0, &mut output);
    assert_eq!(output.translation, IDENTITY.translation);
}

#[test]
fn validation_reports_shape_and_value_errors_without_desktop_dependencies() {
    let mut ch = channel(
        ChannelPath::Translation,
        &[0.0, 0.0, 0.0, 1.0, 0.0, 0.0, 2.0, 0.0, 0.0],
    );
    assert_eq!(ch.validate(), Ok(()));
    ch.times.clear();
    assert_eq!(ch.validate(), Err(ChannelValidationError::NoKeyTimes));
    ch.times = scalars(&[0.0, f32::NAN, 2.0]);
    assert_eq!(ch.validate(), Err(ChannelValidationError::InvalidKeyTimes));
    ch.times = scalars(&[0.0, 0.0, 2.0]);
    assert_eq!(ch.validate(), Err(ChannelValidationError::UnsortedKeyTimes));
    ch.times = scalars(&[0.0, 1.0, 2.0]);
    ch.values.pop();
    assert!(matches!(
        ch.validate(),
        Err(ChannelValidationError::ValueCountMismatch { values: 8, .. })
    ));
    ch.values.push(scalar(f32::INFINITY));
    assert_eq!(ch.validate(), Err(ChannelValidationError::NonFiniteValues));
}

#[test]
fn rotation_validation_and_sampling_protect_zero_overflow_and_malformed_keys() {
    let mut ch = channel(
        ChannelPath::Rotation,
        &[0.0, 0.0, 0.0, 1.0, 0.0, 0.0, 0.0, 1.0, 0.0, 0.0, 0.0, 1.0],
    );
    ch.values[4..8].fill(scalar(0.0));
    assert_eq!(
        ch.validate_rotation_keys(false, &lengths_squared(&ch)),
        Err(ChannelValidationError::InvalidRotationKey { key: 1 })
    );
    let mut local = IDENTITY;
    sample(&ch, 1.0, &mut local);
    assert_eq!(local.rotation, Quat::IDENTITY);
    ch.values[4..8].fill(scalar(f32::MAX));
    assert_eq!(
        ch.validate_rotation_keys(false, &lengths_squared(&ch)),
        Err(ChannelValidationError::InvalidRotationKey { key: 1 })
    );
    sample(&ch, 1.0, &mut local);
    assert_eq!(local.rotation, Quat::IDENTITY);
    ch.values.truncate(3);
    assert_eq!(
        ch.validate_rotation_keys(false, &lengths_squared(&ch)),
        Err(ChannelValidationError::MalformedRotationKey { key: 0 })
    );
    local.rotation = Quat::from_rotation_x(0.3);
    let prior = local.rotation;
    sample(&ch, 0.5, &mut local);
    assert_eq!(local.rotation, prior);
}

#[test]
fn nonfinite_sampling_inputs_and_bad_nodes_leave_rest_locals_unchanged() {
    let mut ch = channel(
        ChannelPath::Translation,
        &[0.0, 0.0, 0.0, 1.0, 0.0, 0.0, 2.0, 0.0, 0.0],
    );
    let mut local = Pose {
        translation: Vec3::Y,
        ..IDENTITY
    };
    sample(&ch, f32::NAN, &mut local);
    assert_eq!(local.translation, Vec3::Y);
    ch.times[0] = scalar(f32::INFINITY);
    sample(&ch, 0.5, &mut local);
    assert_eq!(local.translation, Vec3::Y);
    ch.times[0] = scalar(0.0);
    ch.node = 9;
    let skeleton = Skeleton {
        parents: vec![usize::MAX],
        order: vec![0],
        rest: vec![local.trs()],
    };
    let clip = Clip {
        name: "bad-node".into(),
        duration: scalar(2.0),
        channels: vec![ch],
    };
    let locals = sample_locals(&skeleton, Some(&clip), 0.5, false);
    assert_eq!(locals[0].translation, Vec3::Y);
}

#[test]
fn linear_step_endpoints_and_positive_negative_wrapping_keep_existing_math() {
    let mut ch = channel(
        ChannelPath::Translation,
        &[0.0, 0.0, 0.0, 2.0, 0.0, 0.0, 4.0, 0.0, 0.0],
    );
    let mut local = IDENTITY;
    sample(&ch, 0.5, &mut local);
    assert_eq!(local.translation, Vec3::X);
    sample(&ch, 1.0, &mut local);
    assert_eq!(local.translation, Vec3::X * 2.0);
    sample(&ch, 2.0, &mut local);
    assert_eq!(local.translation, Vec3::X * 4.0);
    ch.interpolation = Interpolation::Step;
    sample(&ch, 0.99, &mut local);
    assert_eq!(local.translation, Vec3::ZERO);
    sample(&ch, 1.0, &mut local);
    assert_eq!(local.translation, Vec3::X * 2.0);
    ch.interpolation = Interpolation::Linear;
    let skeleton = Skeleton {
        parents: vec![usize::MAX],
        order: vec![0],
        rest: vec![IDENTITY.trs()],
    };
    let clip = Clip {
        name: "loop".into(),
        duration: scalar(2.0),
        channels: vec![ch],
    };
    let locals = sample_locals(&skeleton, Some(&clip), 2.5, true);
    assert_eq!(locals[0].translation, Vec3::X);
    let locals = sample_locals(&skeleton, Some(&clip), -0.5, true);
    assert_eq!(locals[0].translation, Vec3::X * 3.0);
    let locals = sample_locals(&skeleton, Some(&clip), 2.5, false);
    assert_eq!(locals[0].translation, Vec3::X * 4.0);
}

#[test]
fn globals_multiply_parent_before_local() {
    let rest = [
        Pose {
            rotation: Quat::from_rotation_z(0.3),
            scale: Vec3::new(1.2, 0.7, 1.0),
            ..IDENTITY
        },
        Pose {
            translation: Vec3::X,
            rotation: Quat::from_rotation_y(-0.4),
            ..IDENTITY
        },
        Pose {
            translation: Vec3::Y,
            ..IDENTITY
        },
    ];
    let skeleton = Skeleton {
        parents: vec![usize::MAX, 0, 1],
        order: vec![0, 1, 2],
        rest: rest.iter().map(Pose::trs).collect(),
    };
    let locals: Vec<Mat4> = rest.iter().map(Pose::matrix).collect();
    let mut globals = vec![];
    skeleton.globals_from_locals(&locals, Mat4::IDENTITY, |a, b| a * b, &mut globals);
    assert_eq!(globals[1], globals[0] * rest[1].matrix());
    assert_eq!(globals[2], globals[1] * rest[2].matrix());
}

#[test]
fn sampled_node_transform_accumulates_animated_ancestors() {
    let rest = [
        Pose {
            translation: Vec3::X,
            ..IDENTITY
        },
        Pose {
            translation: Vec3::Y * 2.0,
            ..IDENTITY
        },
        Pose {
            translation: Vec3::Z * 3.0,
            ..IDENTITY
        },
    ];
    let skeleton = Skeleton {
        parents: vec![usize::MAX, 0, 1],
        rest: rest.iter().map(Pose::trs).collect(),
        order: vec![0, 1, 2],
    };
    let clips = vec![Clip {
        name: "Reach".to_owned(),
        duration: scalar(1.0),
        channels: vec![Channel {
            node: 1,
            path: ChannelPath::Translation,
            interpolation: Interpolation::Linear,
            times: scalars(&[0.0, 1.0]),
            values: scalars(&[0.0, 2.0, 0.0, 0.0, 4.0, 0.0]),
        }],
    }];
    let anim = AnimState {
        clip: 0,
        time: scalar(0.5),
        speed: scalar(1.0),
        looping: false,
    };
    let node_transform = |node: usize| {
        let locals = sample_locals(
            &skeleton,
            anim.played(&clips),
            float(anim.time),
            anim.looping,
        );
        let locals: Vec<Mat4> = locals.iter().map(Pose::matrix).collect();
        skeleton.node_transform(node, &locals, Mat4::IDENTITY, |a, b| a * b)
    };

    let socket = node_transform(2).unwrap();
    let translation = socket.transform_point3(Vec3::ZERO);
    assert!(translation.distance(Vec3::new(1.0, 3.0, 3.0)) < 1e-6);
    assert!(node_transform(3).is_none());
    assert!(node_transform(usize::MAX).is_none());
}

#[test]
fn channel_errors_say_what_is_wrong() {
    assert_eq!(
        ChannelValidationError::ValueCountMismatch {
            values: 8,
            keys: 3,
            components: 3
        }
        .message(),
        "animation channel value count 8 does not match 3 key(s) of 3 component(s)"
    );
    assert_eq!(
        ChannelValidationError::InvalidRotationKey { key: 12 }.message(),
        "animation rotation key 12 has a zero or non-finite quaternion"
    );
    assert_eq!(
        ChannelValidationError::NoKeyTimes.message(),
        "animation channel has no key times"
    );
    assert_eq!(
        ChannelValidationError::MalformedRotationKey { key: 0 }.message(),
        "animation rotation key 0 has malformed quaternion values"
    );
}

#[test]
fn key_times_select_their_own_key() {
    let ch = channel(
        ChannelPath::Scale,
        &[1.0, 1.0, 1.0, 2.0, 2.0, 2.0, 3.0, 3.0, 3.0],
    );
    match ch.sample(scalar(1.5)) {
        Some(Sample::Scale { from, to, blend }) => {
            assert_eq!(from, scalars(&[2.0, 2.0, 2.0])[..]);
            assert_eq!(to, scalars(&[3.0, 3.0, 3.0])[..]);
            assert_eq!(
                blend,
                Blend::Between {
                    time: scalar(1.5),
                    start: scalar(1.0),
                    end: scalar(2.0)
                }
            );
        }
        other => panic!("unexpected sample {other:?}"),
    }
    match ch.sample(scalar(-1.0)) {
        Some(Sample::Scale { from, to, blend }) => {
            assert_eq!(from, to);
            assert_eq!(blend, Blend::Start);
        }
        other => panic!("unexpected sample {other:?}"),
    }
}

#[test]
fn cubic_rotation_keys_are_checked_at_their_middle_value() {
    let mut values = vec![0.0; 24];
    values[7] = 1.0;
    values[19] = 1.0;
    let mut ch = channel(ChannelPath::Rotation, &values);
    ch.times.pop();
    assert_eq!(ch.validate_rotation_keys(true, &scalars(&[1.0, 1.0])), Ok(()));
    assert_eq!(
        ch.validate_rotation_keys(true, &scalars(&[1.0, 0.0])),
        Err(ChannelValidationError::InvalidRotationKey { key: 1 })
    );
    ch.path = ChannelPath::Translation;
    assert_eq!(ch.validate_rotation_keys(true, &scalars(&[0.0, 0.0])), Ok(()));
}

#[test]
fn clip_time_stays_inside_the_clip() {
    let clip = Clip {
        name: "still".into(),
        duration: scalar(0.0),
        channels: vec![],
    };
    assert_eq!(clip.local_time(scalar(3.0), true, scalar(9.0)).bits, 0);
    let clip = Clip {
        name: "walk".into(),
        duration: scalar(2.0),
        channels: vec![],
    };
    assert_eq!(clip.local_time(scalar(-3.0), false, scalar(1.0)).bits, 0);
    assert_eq!(clip.local_time(scalar(1.5), false, scalar(9.0)), scalar(1.5));
    assert_eq!(clip.local_time(scalar(5.0), true, scalar(1.0)), scalar(1.0));
}

#[test]
fn a_pose_starts_at_rest_and_changes_only_what_a_channel_names() {
    let rest = Pose {
        translation: Vec3::Y,
        rotation: Quat::from_rotation_x(0.5),
        scale: Vec3::splat(2.0),
    };
    let skeleton = Skeleton {
        parents: vec![NO_PARENT, 0],
        order: vec![0, 1],
        rest: vec![rest.trs(), rest.trs()],
    };
    let still = sample_locals(&skeleton, None, 1.0, true);
    assert_eq!(still.len(), 2);
    assert_eq!(still, vec![rest, rest]);
    let mut beyond = channel(ChannelPath::Translation, &[9.0; 9]);
    beyond.node = 2;
    let clip = Clip {
        name: "grow".into(),
        duration: scalar(2.0),
        channels: vec![
            channel(
                ChannelPath::Scale,
                &[1.0, 1.0, 1.0, 2.0, 2.0, 2.0, 3.0, 3.0, 3.0],
            ),
            beyond,
            channel(ChannelPath::Scale, &[4.0; 9]),
        ],
    };
    let posed = sample_locals(&skeleton, Some(&clip), 3.5, true);
    assert_eq!(posed.len(), 2);
    assert_eq!(posed[1], rest);
    // The last channel of a node counts.
    assert_eq!(posed[0].scale, Vec3::splat(4.0));
    assert_eq!(posed[0].translation, rest.translation);
    assert_eq!(posed[0].rotation, rest.rotation);
}

#[test]
fn a_forest_is_ordered_whole_and_once() {
    let children = vec![vec![], vec![0, 4], vec![3], vec![], vec![]];
    let parents = node_parents(&children);
    let order = parents_first_order(&children, &parents).unwrap();
    assert_eq!(order, vec![1, 0, 4, 2, 3]);
    // A node with two parents is walked twice.
    let shared = vec![vec![2], vec![2], vec![]];
    let parents = node_parents(&shared);
    assert_eq!(
        parents_first_order(&shared, &parents),
        Some(vec![0, 2, 1, 2])
    );
}

#[test]
fn equal_scalars_are_equal_numbers() {
    assert_eq!(scalar(0.0), scalar(-0.0));
    assert_ne!(scalar(f32::NAN), scalar(f32::NAN));
    assert_ne!(scalar(1.0), scalar(2.0));
    assert_eq!(scalar(1.5), scalar(1.5));
}

#[test]
fn hierarchy_order_puts_parents_first_and_finds_cycles() {
    let children = vec![vec![2, 1], vec![], vec![3], vec![]];
    let parents = node_parents(&children);
    assert_eq!(parents, vec![NO_PARENT, 0, 0, 2]);
    let order = parents_first_order(&children, &parents).unwrap();
    assert_eq!(order.len(), 4);
    for (at, node) in order.iter().enumerate() {
        if parents[*node] != NO_PARENT {
            assert!(order[..at].contains(&parents[*node]));
        }
    }
    let cyclic = vec![vec![1], vec![2], vec![1]];
    let parents = node_parents(&cyclic);
    assert_eq!(parents_first_order(&cyclic, &parents), None);
    let rootless = vec![vec![1], vec![0]];
    let parents = node_parents(&rootless);
    assert_eq!(parents_first_order(&rootless, &parents), Some(vec![]));
}

#[test]
fn default_playback_loops_the_first_clip_at_full_speed() {
    let state = AnimState::default();
    assert_eq!(state.clip, 0);
    assert_eq!(float(state.time), 0.0);
    assert_eq!(float(state.speed), 1.0);
    assert!(state.looping);
    assert!(state.played(&[]).is_none());
}
