//! Packing the model instances of a frame into shared device buffers.

use vstd::prelude::*;

use crate::search::{first_some, first_some_none, first_some_stays, or_else};
use crate::text::{decimal, push_decimal, push_text};

verus! {

/// The bytes that an instance takes.
pub const INSTANCE_STRIDE: u64 = 256;

/// The bytes that a joint matrix takes.
pub const JOINT_MATRIX_BYTES: u64 = 64;

/// `size` rounded up to a multiple of `alignment`.
pub open spec fn aligned(size: int, alignment: int) -> int {
    size + (alignment - size % alignment) % alignment
}

proof fn aligned_bounds(size: int, alignment: int)
    requires
        0 <= size,
        0 < alignment,
    ensures
        size <= aligned(size, alignment) < size + alignment,
        aligned(size, alignment) % alignment == 0,
        aligned(size, alignment) == alignment * ((size / alignment) + if size % alignment == 0 {
            0int
        } else {
            1int
        }),
{
    let rest = size % alignment;
    let whole = size / alignment;
    assert(0 <= rest < alignment && size == alignment * whole + rest) by (nonlinear_arith)
        requires
            0 < alignment,
            rest == size % alignment,
            whole == size / alignment,
    ;
    if rest == 0 {
        assert(alignment % alignment == 0) by (nonlinear_arith)
            requires
                0 < alignment,
        ;
    } else {
        assert((alignment - rest) % alignment == alignment - rest) by (nonlinear_arith)
            requires
                0 < rest < alignment,
        ;
        assert(alignment * whole + alignment == alignment * (whole + 1)) by (nonlinear_arith);
        assert((alignment * (whole + 1)) % alignment == 0) by (nonlinear_arith)
            requires
                0 < alignment,
        ;
    }
}

/// Rounding up gives the smallest multiple of the alignment that is not below
/// the size.
pub proof fn aligned_is_the_smallest_multiple(size: int, alignment: int, multiple: int)
    requires
        0 <= size,
        0 < alignment,
    ensures
        size <= aligned(size, alignment),
        aligned(size, alignment) % alignment == 0,
        multiple % alignment == 0 && size <= multiple ==> aligned(size, alignment) <= multiple,
{
    aligned_bounds(size, alignment);
    if multiple % alignment == 0 && size <= multiple && multiple < aligned(size, alignment) {
        let q = multiple / alignment;
        let p = size / alignment + if size % alignment == 0 {
            0int
        } else {
            1int
        };
        assert(multiple == alignment * q) by (nonlinear_arith)
            requires
                0 < alignment,
                multiple % alignment == 0,
                q == multiple / alignment,
        ;
        assert(q < p) by (nonlinear_arith)
            requires
                0 < alignment,
                alignment * q < alignment * p,
        ;
        assert(alignment * q <= alignment * p - alignment) by (nonlinear_arith)
            requires
                0 < alignment,
                q < p,
        ;
    }
}

/// `size` rounded up to a multiple of `alignment`.
pub fn aligned_size(size: u64, alignment: u64) -> (rounded: u64)
    requires
        0 < alignment,
        aligned(size as int, alignment as int) <= u64::MAX,
    ensures
        rounded == aligned(size as int, alignment as int),
{
    proof {
        aligned_bounds(size as int, alignment as int);
    }
    let rest: u64 = size % alignment;
    let padding: u64 = (alignment - rest) % alignment;
    size + padding
}

/// Why a frame cannot be packed.
#[derive(Clone, Copy, Debug, PartialEq, Eq, Structural)]
pub enum FrameError {
    /// The bytes of a palette cannot be counted.
    PaletteOverflow,
    /// A palette does not fit into one binding.
    PaletteTooLarge { joints: usize, bytes: u64, binding_limit: u64 },
    /// The start of a palette cannot be counted.
    OffsetOverflow,
    /// The start of a palette is no dynamic offset.
    OffsetOutOfRange { offset: u64 },
    /// The end of a palette cannot be counted.
    SizeOverflow,
    /// The palettes do not fit into one buffer.
    FrameTooLarge { required: u64, limit: u64 },
    /// The end of the last binding cannot be counted.
    BindingOverflow,
    /// The palettes and the range of the last binding do not fit into one
    /// buffer.
    BindingTooLarge { required: u64, limit: u64 },
    /// The palettes do not fit into memory.
    Unaddressable,
    /// The instances or their materials are no dynamic offsets.
    TooManyDraws,
}

/// The text of an error.
pub open spec fn frame_error_text(error: FrameError) -> Seq<char> {
    match error {
        FrameError::PaletteOverflow => "joint palette byte size overflows"@,
        FrameError::PaletteTooLarge { joints, bytes, binding_limit } => "joint palette requires "@
            + decimal(joints as nat) + " joints ("@ + decimal(bytes as nat)
            + " bytes), but the device storage binding supports "@ + decimal(binding_limit as nat)
            + " bytes ("@ + decimal((binding_limit / JOINT_MATRIX_BYTES) as nat) + " joints)"@,
        FrameError::OffsetOverflow => "joint buffer offset overflows"@,
        FrameError::OffsetOutOfRange { offset } => "joint dynamic offset "@ + decimal(offset as nat)
            + " exceeds u32 range"@,
        FrameError::SizeOverflow => "joint buffer size overflows"@,
        FrameError::FrameTooLarge { required, limit } => "frame joint palettes require "@ + decimal(
            required as nat,
        ) + " bytes, but the device max_buffer_size is "@ + decimal(limit as nat) + " bytes"@,
        FrameError::BindingOverflow => "joint binding end overflows"@,
        FrameError::BindingTooLarge { required, limit } => "frame joint palettes require "@
            + decimal(required as nat)
            + " bytes including the shared binding range, but the device max_buffer_size is "@
            + decimal(limit as nat) + " bytes"@,
        FrameError::Unaddressable => "joint buffer size exceeds addressable memory"@,
        FrameError::TooManyDraws => "frame draw offsets exceed u32 range"@,
    }
}

impl FrameError {
    /// The text of the error.
    pub fn message(&self) -> (text: String)
        ensures
            text@ == frame_error_text(*self),
    {
        let mut text = String::new();
        match *self {
            FrameError::PaletteOverflow => push_text(
                &mut text,
                "joint palette byte size overflows",
            ),
            FrameError::PaletteTooLarge { joints, bytes, binding_limit } => {
                push_text(&mut text, "joint palette requires ");
                push_decimal(&mut text, joints as u64);
                push_text(&mut text, " joints (");
                push_decimal(&mut text, bytes);
                push_text(&mut text, " bytes), but the device storage binding supports ");
                push_decimal(&mut text, binding_limit);
                push_text(&mut text, " bytes (");
                push_decimal(&mut text, binding_limit / JOINT_MATRIX_BYTES);
                push_text(&mut text, " joints)");
            },
            FrameError::OffsetOverflow => push_text(&mut text, "joint buffer offset overflows"),
            FrameError::OffsetOutOfRange { offset } => {
                push_text(&mut text, "joint dynamic offset ");
                push_decimal(&mut text, offset);
                push_text(&mut text, " exceeds u32 range");
            },
            FrameError::SizeOverflow => push_text(&mut text, "joint buffer size overflows"),
            FrameError::FrameTooLarge { required, limit } => {
                push_text(&mut text, "frame joint palettes require ");
                push_decimal(&mut text, required);
                push_text(&mut text, " bytes, but the device max_buffer_size is ");
                push_decimal(&mut text, limit);
                push_text(&mut text, " bytes");
            },
            FrameError::BindingOverflow => push_text(&mut text, "joint binding end overflows"),
            FrameError::BindingTooLarge { required, limit } => {
                push_text(&mut text, "frame joint palettes require ");
                push_decimal(&mut text, required);
                push_text(
                    &mut text,
                    " bytes including the shared binding range, but the device max_buffer_size is ",
                );
                push_decimal(&mut text, limit);
                push_text(&mut text, " bytes");
            },
            FrameError::Unaddressable => push_text(
                &mut text,
                "joint buffer size exceeds addressable memory",
            ),
            FrameError::TooManyDraws => push_text(
                &mut text,
                "frame draw offsets exceed u32 range",
            ),
        }
        assert(text@ =~= frame_error_text(*self));
        text
    }
}

/// What is wrong with a palette of `count` joints.
pub open spec fn palette_error(count: int, binding_limit: u64) -> Option<FrameError> {
    let bytes = count * JOINT_MATRIX_BYTES;
    if bytes > u64::MAX {
        Some(FrameError::PaletteOverflow)
    } else if bytes > binding_limit {
        Some(
            FrameError::PaletteTooLarge {
                joints: count as usize,
                bytes: bytes as u64,
                binding_limit,
            },
        )
    } else {
        None
    }
}

/// The bytes of a palette of `count` joints, if one binding can hold them.
pub fn joint_palette_bytes(count: usize, binding_limit: u64) -> (bytes: Result<u64, FrameError>)
    ensures
        match palette_error(count as int, binding_limit) {
            Some(error) => bytes == Err::<u64, FrameError>(error),
            None => bytes == Ok::<u64, FrameError>((count * JOINT_MATRIX_BYTES) as u64),
        },
{
    let joints: u64 = count as u64;
    if joints > u64::MAX / JOINT_MATRIX_BYTES {
        return Err(FrameError::PaletteOverflow);
    }
    let bytes: u64 = joints * JOINT_MATRIX_BYTES;
    if bytes > binding_limit {
        return Err(FrameError::PaletteTooLarge { joints: count, bytes, binding_limit });
    }
    Ok(bytes)
}

/// What is wrong with a palette that follows `end` bytes of other palettes.
pub open spec fn offset_error(
    end: int,
    alignment: int,
    palette_bytes: int,
    buffer_limit: u64,
) -> Option<FrameError> {
    let offset = aligned(end, alignment);
    if offset > u64::MAX {
        Some(FrameError::OffsetOverflow)
    } else if offset > u32::MAX {
        Some(FrameError::OffsetOutOfRange { offset: offset as u64 })
    } else if offset + palette_bytes > u64::MAX {
        Some(FrameError::SizeOverflow)
    } else if offset + palette_bytes > buffer_limit {
        Some(
            FrameError::FrameTooLarge {
                required: (offset + palette_bytes) as u64,
                limit: buffer_limit,
            },
        )
    } else {
        None
    }
}

/// Where a palette that follows `end` bytes of other palettes starts and ends.
pub fn joint_palette_offset(
    end: u64,
    alignment: u64,
    palette_bytes: u64,
    buffer_limit: u64,
) -> (range: Result<(u32, u64), FrameError>)
    requires
        0 < alignment,
    ensures
        match offset_error(end as int, alignment as int, palette_bytes as int, buffer_limit) {
            Some(error) => range == Err::<(u32, u64), FrameError>(error),
            None => range == Ok::<(u32, u64), FrameError>(
                (
                    aligned(end as int, alignment as int) as u32,
                    (aligned(end as int, alignment as int) + palette_bytes) as u64,
                ),
            ),
        },
{
    proof {
        aligned_bounds(end as int, alignment as int);
    }
    let rest: u64 = end % alignment;
    let padding: u64 = (alignment - rest) % alignment;
    if padding > u64::MAX - end {
        return Err(FrameError::OffsetOverflow);
    }
    let offset: u64 = end + padding;
    if offset > u32::MAX as u64 {
        return Err(FrameError::OffsetOutOfRange { offset });
    }
    if palette_bytes > u64::MAX - offset {
        return Err(FrameError::SizeOverflow);
    }
    let next_end: u64 = offset + palette_bytes;
    if next_end > buffer_limit {
        return Err(FrameError::FrameTooLarge { required: next_end, limit: buffer_limit });
    }
    Ok((offset as u32, next_end))
}

/// The first of `power`, twice `power`, four times `power`, ... that is not
/// below `size`.
pub open spec fn doubled_up_to(power: nat, size: nat) -> nat
    decreases
            (if power < size {
                size - power
            } else {
                0
            }),
{
    if power == 0 || power >= size {
        power
    } else {
        doubled_up_to(2 * power, size)
    }
}

/// The smallest power of two that is not below `size`.
pub open spec fn next_power(size: nat) -> nat {
    doubled_up_to(1, size)
}

proof fn doubled_up_to_bounds(power: nat, size: nat)
    requires
        0 < power,
    ensures
        doubled_up_to(power, size) >= size,
        doubled_up_to(power, size) >= power,
        power < size ==> doubled_up_to(power, size) < 2 * size,
    decreases
            (if power < size {
                size - power
            } else {
                0
            }),
{
    if power < size {
        doubled_up_to_bounds(2 * power, size);
    }
}

/// The next power of two holds `size` and is less than twice as large.
pub proof fn next_power_bounds(size: nat)
    ensures
        size <= next_power(size),
        1 < size ==> next_power(size) < 2 * size,
{
    doubled_up_to_bounds(1, size);
}

/// The smallest power of two that is not below `size`, if there is one.
fn checked_next_power(size: u64) -> (power: Option<u64>)
    ensures
        match power {
            Some(power) => power == next_power(size as nat),
            None => next_power(size as nat) > u64::MAX,
        },
{
    let mut power: u64 = 1;
    while power < size
        invariant
            0 < power,
            doubled_up_to(power as nat, size as nat) == next_power(size as nat),
        decreases
                (if power < size {
                    size - power
                } else {
                    0
                }),
    {
        if power > u64::MAX / 2 {
            proof {
                doubled_up_to_bounds(2 * power as nat, size as nat);
            }
            return None;
        }
        power = 2 * power;
    }
    Some(power)
}

/// The capacity that a buffer has after `required` bytes went into it.
pub open spec fn grown(required: int, current: u64) -> int {
    if required > current {
        next_power(required as nat) as int
    } else {
        current as int
    }
}

/// The capacity that a buffer below a limit has after `required` bytes went
/// into it.
pub open spec fn grown_within(required: int, current: u64, limit: u64) -> int {
    if required <= current {
        current as int
    } else if next_power(required as nat) < limit {
        next_power(required as nat) as int
    } else {
        limit as int
    }
}

/// The capacity of the joint buffer for `required` bytes: the next power of
/// two, but never above the limit.
pub fn joint_buffer_capacity(required: u64, current: u64, limit: u64) -> (capacity: Result<
    u64,
    FrameError,
>)
    ensures
        if required > limit {
            capacity == Err::<u64, FrameError>(FrameError::FrameTooLarge { required, limit })
        } else {
            capacity == Ok::<u64, FrameError>(grown_within(required as int, current, limit) as u64)
        },
{
    if required > limit {
        return Err(FrameError::FrameTooLarge { required, limit });
    }
    if required <= current {
        return Ok(current);
    }
    Ok(
        match checked_next_power(required) {
            Some(power) => if power < limit {
                power
            } else {
                limit
            },
            None => limit,
        },
    )
}

/// What a model instance brings into a frame.
#[derive(Clone, Copy, Debug, PartialEq, Eq, Structural)]
pub struct FrameInstance {
    /// The length of its joint palette.
    pub joints: usize,
    /// The number of its primitives.
    pub primitives: usize,
}

/// The limits that a frame is packed within.
#[derive(Clone, Copy, Debug, PartialEq, Eq, Structural)]
pub struct FrameLimits {
    /// The largest storage binding.
    pub binding_limit: u64,
    /// The largest buffer.
    pub buffer_limit: u64,
    /// The alignment of dynamic storage offsets.
    pub joint_alignment: u64,
    /// The bytes that the material of a primitive takes.
    pub material_stride: u64,
}

/// The buffers that frames are packed into.
#[derive(Clone, Copy, Debug, PartialEq, Eq, Structural)]
pub struct ModelBuffers {
    pub instance_capacity: u64,
    pub joints_capacity: u64,
    /// The range that the joint binding covers from a dynamic offset on.
    pub joint_binding_size: u64,
    pub material_instance_capacity: u64,
}

/// The dynamic offsets of an instance.
#[derive(Clone, Debug, PartialEq, Eq)]
pub struct DrawOffsets {
    pub instance: u32,
    pub joints: u32,
    /// One per primitive.
    pub materials: Vec<u32>,
}

/// How a frame is packed.
#[derive(Clone, Debug, PartialEq, Eq)]
pub struct FramePlan {
    pub draws: Vec<DrawOffsets>,
    pub instance_bytes: u64,
    pub joint_bytes: u64,
    pub material_bytes: u64,
    /// Which buffers are to be created anew, at their new capacity.
    pub recreate_instances: bool,
    pub recreate_joints: bool,
    pub recreate_materials: bool,
    /// Whether the binding of the three buffers is to be created anew.
    pub recreate_binding: bool,
}

/// The bytes of the palette of instance `i`.
pub open spec fn palette_bytes(instances: Seq<FrameInstance>, i: int) -> int {
    instances[i].joints * JOINT_MATRIX_BYTES
}

/// Where the palette of instance `i` starts.
pub open spec fn joint_start(instances: Seq<FrameInstance>, alignment: int, i: nat) -> int
    decreases i, 1nat,
{
    aligned(joint_end(instances, alignment, i), alignment)
}

/// Where the palettes of the first `count` instances end.
pub open spec fn joint_end(instances: Seq<FrameInstance>, alignment: int, count: nat) -> int
    decreases count, 0nat,
{
    if count == 0 {
        0
    } else {
        joint_start(instances, alignment, (count - 1) as nat) + palette_bytes(instances, count - 1)
    }
}

/// The largest palette of the first `count` instances, or a single matrix.
pub open spec fn binding_size(instances: Seq<FrameInstance>, count: nat) -> int
    decreases count,
{
    if count == 0 {
        JOINT_MATRIX_BYTES as int
    } else {
        let before = binding_size(instances, (count - 1) as nat);
        if palette_bytes(instances, count - 1) > before {
            palette_bytes(instances, count - 1)
        } else {
            before
        }
    }
}

/// The number of primitives of the first `count` instances.
pub open spec fn primitive_total(instances: Seq<FrameInstance>, count: nat) -> nat
    decreases count,
{
    if count == 0 {
        0
    } else {
        primitive_total(instances, (count - 1) as nat) + instances[count - 1].primitives as nat
    }
}

/// Where the binding of the last palette ends.
pub open spec fn binding_end(instances: Seq<FrameInstance>, alignment: int) -> int {
    joint_start(instances, alignment, (instances.len() - 1) as nat) + binding_size(
        instances,
        instances.len(),
    )
}

/// The joint bytes of a frame: up to the last palette and its binding.
pub open spec fn joint_bytes(instances: Seq<FrameInstance>, alignment: int) -> int {
    let end = joint_end(instances, alignment, instances.len());
    let bound = binding_end(instances, alignment);
    if instances.len() == 0 {
        0
    } else if end < bound {
        bound
    } else {
        end
    }
}

/// What is wrong with the palette of instance `i`.
pub open spec fn instance_error(
    instances: Seq<FrameInstance>,
    limits: FrameLimits,
    i: int,
) -> Option<FrameError> {
    let alignment = limits.joint_alignment as int;
    or_else(
        palette_error(instances[i].joints as int, limits.binding_limit),
        or_else(
            offset_error(
                joint_end(instances, alignment, i as nat),
                alignment,
                palette_bytes(instances, i),
                limits.buffer_limit,
            ),
            if joint_end(instances, alignment, (i + 1) as nat) > usize::MAX {
                Some(FrameError::Unaddressable)
            } else {
                None
            },
        ),
    )
}

/// What is wrong with the range of the last binding.
pub open spec fn binding_error(instances: Seq<FrameInstance>, limits: FrameLimits) -> Option<
    FrameError,
> {
    let end = binding_end(instances, limits.joint_alignment as int);
    if end > u64::MAX {
        Some(FrameError::BindingOverflow)
    } else if end > limits.buffer_limit {
        Some(FrameError::BindingTooLarge { required: end as u64, limit: limits.buffer_limit })
    } else if end > usize::MAX {
        Some(FrameError::Unaddressable)
    } else {
        None
    }
}

/// What is wrong with a frame: its draws, then its palettes in order, then the
/// last binding.
pub open spec fn frame_error(instances: Seq<FrameInstance>, limits: FrameLimits) -> Option<
    FrameError,
> {
    if instances.len() == 0 {
        None
    } else if instances.len() * INSTANCE_STRIDE > u32::MAX || primitive_total(
        instances,
        instances.len(),
    ) * limits.material_stride > u32::MAX {
        Some(FrameError::TooManyDraws)
    } else {
        or_else(
            first_some(instances.len(), |i: int| instance_error(instances, limits, i)),
            binding_error(instances, limits),
        )
    }
}

/// Whether `draw` holds the offsets of instance `i`.
pub open spec fn is_draw(
    instances: Seq<FrameInstance>,
    limits: FrameLimits,
    i: int,
    draw: DrawOffsets,
) -> bool {
    &&& draw.instance == i * INSTANCE_STRIDE
    &&& draw.joints == joint_start(instances, limits.joint_alignment as int, i as nat)
    &&& draw.materials@.len() == instances[i].primitives
    &&& forall|k: int|
        0 <= k < draw.materials@.len() ==> #[trigger] draw.materials@[k] == (primitive_total(
            instances,
            i as nat,
        ) + k) * limits.material_stride
}

/// The buffers after a frame went into them.
pub open spec fn buffers_after(
    instances: Seq<FrameInstance>,
    limits: FrameLimits,
    buffers: ModelBuffers,
) -> ModelBuffers {
    if instances.len() == 0 {
        buffers
    } else {
        ModelBuffers {
            instance_capacity: grown(
                instances.len() * INSTANCE_STRIDE,
                buffers.instance_capacity,
            ) as u64,
            joints_capacity: grown_within(
                joint_bytes(instances, limits.joint_alignment as int),
                buffers.joints_capacity,
                limits.buffer_limit,
            ) as u64,
            joint_binding_size: binding_size(instances, instances.len()) as u64,
            material_instance_capacity: grown(
                primitive_total(instances, instances.len()) * limits.material_stride,
                buffers.material_instance_capacity,
            ) as u64,
        }
    }
}

/// Whether `plan` packs a frame.
pub open spec fn is_frame_plan(
    instances: Seq<FrameInstance>,
    limits: FrameLimits,
    buffers: ModelBuffers,
    plan: FramePlan,
) -> bool {
    let after = buffers_after(instances, limits, buffers);
    &&& plan.draws@.len() == instances.len()
    &&& forall|i: int|
        0 <= i < plan.draws@.len() ==> is_draw(instances, limits, i, #[trigger] plan.draws@[i])
    &&& plan.instance_bytes == instances.len() * INSTANCE_STRIDE
    &&& plan.joint_bytes == joint_bytes(instances, limits.joint_alignment as int)
    &&& plan.material_bytes == primitive_total(instances, instances.len()) * limits.material_stride
    &&& plan.recreate_instances == (plan.instance_bytes > buffers.instance_capacity)
    &&& plan.recreate_joints == (plan.joint_bytes > buffers.joints_capacity)
    &&& plan.recreate_materials == (plan.material_bytes > buffers.material_instance_capacity)
    &&& plan.recreate_binding == (plan.recreate_instances || plan.recreate_joints
        || plan.recreate_materials || after.joint_binding_size != buffers.joint_binding_size)
}

proof fn joint_ends_grow(instances: Seq<FrameInstance>, alignment: int, count: nat)
    requires
        0 < alignment,
    ensures
        0 <= joint_end(instances, alignment, count) <= joint_start(instances, alignment, count),
        joint_start(instances, alignment, count) % alignment == 0,
    decreases count,
{
    if count > 0 {
        joint_ends_grow(instances, alignment, (count - 1) as nat);
    }
    aligned_bounds(joint_end(instances, alignment, count), alignment);
}

proof fn primitive_totals_grow(instances: Seq<FrameInstance>, earlier: nat, count: nat)
    requires
        earlier <= count,
    ensures
        primitive_total(instances, earlier) <= primitive_total(instances, count),
    decreases count,
{
    if earlier < count {
        primitive_totals_grow(instances, earlier, (count - 1) as nat);
    }
}

proof fn binding_size_covers(instances: Seq<FrameInstance>, i: int, count: nat)
    ensures
        JOINT_MATRIX_BYTES <= binding_size(instances, count),
        0 <= i < count ==> palette_bytes(instances, i) <= binding_size(instances, count),
    decreases count,
{
    if count > 0 {
        binding_size_covers(instances, i, (count - 1) as nat);
    }
}

proof fn joint_starts_grow(instances: Seq<FrameInstance>, alignment: int, i: nat, j: nat)
    requires
        0 < alignment,
        i < j,
    ensures
        joint_start(instances, alignment, i) + palette_bytes(instances, i as int) <= joint_start(
            instances,
            alignment,
            j,
        ),
    decreases j,
{
    joint_ends_grow(instances, alignment, j);
    if i + 1 < j {
        joint_starts_grow(instances, alignment, i, (j - 1) as nat);
    }
}

/// The palettes of a frame lie apart at aligned offsets, and whatever dynamic
/// offset a draw uses, the shared binding range stays inside the joint bytes.
pub proof fn palettes_lie_apart(
    instances: Seq<FrameInstance>,
    limits: FrameLimits,
    i: int,
    j: int,
)
    requires
        0 < limits.joint_alignment,
        0 <= i < j < instances.len(),
    ensures
        ({
            let alignment = limits.joint_alignment as int;
            &&& joint_start(instances, alignment, i as nat) % alignment == 0
            &&& joint_start(instances, alignment, i as nat) + palette_bytes(instances, i)
                <= joint_start(instances, alignment, j as nat)
            &&& joint_start(instances, alignment, i as nat) + binding_size(
                instances,
                instances.len(),
            ) <= joint_bytes(instances, alignment)
            &&& joint_start(instances, alignment, j as nat) + binding_size(
                instances,
                instances.len(),
            ) <= joint_bytes(instances, alignment)
            &&& palette_bytes(instances, i) <= binding_size(instances, instances.len())
        }),
{
    let alignment = limits.joint_alignment as int;
    joint_ends_grow(instances, alignment, i as nat);
    joint_starts_grow(instances, alignment, i as nat, j as nat);
    let last = (instances.len() - 1) as nat;
    if j < last {
        joint_starts_grow(instances, alignment, j as nat, last);
    }
    binding_size_covers(instances, i, instances.len());
}

/// After a frame went into the buffers, each one holds what the frame wrote:
/// every binding range of a draw lies inside the joint buffer.
pub proof fn buffers_hold_the_frame(
    instances: Seq<FrameInstance>,
    limits: FrameLimits,
    buffers: ModelBuffers,
)
    requires
        0 < limits.joint_alignment,
        0 < instances.len(),
        frame_error(instances, limits) is None,
    ensures
        ({
            let after = buffers_after(instances, limits, buffers);
            &&& instances.len() * INSTANCE_STRIDE <= after.instance_capacity
            &&& joint_bytes(instances, limits.joint_alignment as int) <= after.joints_capacity
            &&& primitive_total(instances, instances.len()) * limits.material_stride
                <= after.material_instance_capacity
            &&& after.joints_capacity <= limits.buffer_limit || after.joints_capacity
                == buffers.joints_capacity
        }),
{
    packed_sizes(instances, limits);
    next_power_bounds((instances.len() * INSTANCE_STRIDE) as nat);
    next_power_bounds(
        (primitive_total(instances, instances.len()) * limits.material_stride) as nat,
    );
    next_power_bounds(joint_bytes(instances, limits.joint_alignment as int) as nat);
}

proof fn packed_sizes(instances: Seq<FrameInstance>, limits: FrameLimits)
    requires
        0 < limits.joint_alignment,
        0 < instances.len(),
        frame_error(instances, limits) is None,
    ensures
        0 <= joint_bytes(instances, limits.joint_alignment as int) <= limits.buffer_limit,
        0 <= primitive_total(instances, instances.len()) * limits.material_stride <= u32::MAX,
        0 <= binding_size(instances, instances.len()) <= u64::MAX,
{
    let check = |i: int| instance_error(instances, limits, i);
    first_some_none(instances.len(), check);
    assert(check(instances.len() - 1) is None);
    joint_ends_grow(instances, limits.joint_alignment as int, instances.len());
    joint_ends_grow(instances, limits.joint_alignment as int, (instances.len() - 1) as nat);
    binding_size_covers(instances, 0, instances.len());
    assert(0 <= primitive_total(instances, instances.len()) * limits.material_stride)
        by (nonlinear_arith)
        requires
            0 <= primitive_total(instances, instances.len()),
            0 <= limits.material_stride,
    ;
}

/// The offsets of the materials of `count` primitives.
fn material_offsets(first: u64, count: usize, stride: u64) -> (offsets: Vec<u32>)
    requires
        (first + count) * stride <= u32::MAX,
    ensures
        offsets@.len() == count,
        forall|k: int| 0 <= k < count ==> #[trigger] offsets@[k] == (first + k) * stride,
{
    let mut offsets: Vec<u32> = Vec::new();
    let mut k: usize = 0;
    while k < count
        invariant
            k <= count,
            offsets@.len() == k,
            (first + count) * stride <= u32::MAX,
            forall|m: int| 0 <= m < k ==> #[trigger] offsets@[m] == (first + m) * stride,
        decreases count - k,
    {
        assert((first + k) * stride <= (first + count) * stride) by (nonlinear_arith)
            requires
                k < count,
                0 <= stride,
        ;
        assert(stride >= 1 ==> first + k <= (first + k) * stride) by (nonlinear_arith)
            requires
                0 <= first + k,
        ;
        let offset: u32 = if stride == 0 {
            assert((first + k) * stride == 0) by (nonlinear_arith)
                requires
                    stride == 0,
            ;
            0
        } else {
            ((first + k as u64) * stride) as u32
        };
        offsets.push(offset);
        k += 1;
    }
    offsets
}

/// Counts the primitives of all instances, if their materials are dynamic
/// offsets.
fn count_primitives(instances: &[FrameInstance], stride: u64) -> (total: Option<u64>)
    requires
        0 < stride,
    ensures
        match total {
            Some(total) => total == primitive_total(instances@, instances@.len()) && total * stride
                <= u32::MAX,
            None => primitive_total(instances@, instances@.len()) * stride > u32::MAX,
        },
{
    let mut total: u64 = 0;
    let mut i: usize = 0;
    while i < instances.len()
        invariant
            i <= instances@.len(),
            0 < stride,
            total == primitive_total(instances@, i as nat),
        decreases instances@.len() - i,
    {
        let primitives: u64 = instances[i].primitives as u64;
        proof {
            primitive_totals_grow(instances@, (i + 1) as nat, instances@.len());
        }
        if primitives > u64::MAX - total {
            proof {
                let all = primitive_total(instances@, instances@.len());
                assert(all <= all * stride) by (nonlinear_arith)
                    requires
                        0 < stride,
                        0 <= all,
                ;
            }
            return None;
        }
        total = total + primitives;
        i += 1;
    }
    assert(total * stride <= u64::MAX * u64::MAX) by (nonlinear_arith)
        requires
            total <= u64::MAX,
            stride <= u64::MAX,
    ;
    let bytes: u128 = (total as u128) * (stride as u128);
    if bytes > u32::MAX as u128 {
        None
    } else {
        Some(total)
    }
}

/// Packs a frame: computes every dynamic offset and grows the buffers as far as
/// the frame needs it. A frame that cannot be packed changes nothing.
pub fn pack_frame(
    instances: &[FrameInstance],
    limits: &FrameLimits,
    buffers: &mut ModelBuffers,
) -> (packed: Result<FramePlan, FrameError>)
    requires
        0 < limits.joint_alignment,
        0 < limits.material_stride,
    ensures
        match frame_error(instances@, *limits) {
            Some(error) => packed == Err::<FramePlan, FrameError>(error) && *final(buffers) == *old(
                buffers,
            ),
            None => packed matches Ok(plan) && is_frame_plan(
                instances@,
                *limits,
                *old(buffers),
                plan,
            ) && *final(buffers) == buffers_after(instances@, *limits, *old(buffers)),
        },
{
    let mut draws: Vec<DrawOffsets> = Vec::new();
    if instances.len() == 0 {
        assert(primitive_total(instances@, 0) * limits.material_stride == 0) by (nonlinear_arith)
            requires
                primitive_total(instances@, 0) == 0,
        ;
        return Ok(
            FramePlan {
                draws,
                instance_bytes: 0,
                joint_bytes: 0,
                material_bytes: 0,
                recreate_instances: false,
                recreate_joints: false,
                recreate_materials: false,
                recreate_binding: false,
            },
        );
    }
    if instances.len() as u64 > u32::MAX as u64 / INSTANCE_STRIDE {
        return Err(FrameError::TooManyDraws);
    }
    let total: u64 = match count_primitives(instances, limits.material_stride) {
        Some(total) => total,
        None => {
            return Err(FrameError::TooManyDraws);
        },
    };
    let ghost alignment = limits.joint_alignment as int;
    let ghost check = |i: int| instance_error(instances@, *limits, i);
    let mut end: u64 = 0;
    let mut joint_binding_size: u64 = JOINT_MATRIX_BYTES;
    let mut last_start: u64 = 0;
    let mut first_primitive: u64 = 0;
    let mut i: usize = 0;
    while i < instances.len()
        invariant
            i <= instances@.len(),
            0 < limits.joint_alignment,
            0 < limits.material_stride,
            alignment == limits.joint_alignment,
            instances@.len() * INSTANCE_STRIDE <= u32::MAX,
            total == primitive_total(instances@, instances@.len()),
            total * limits.material_stride <= u32::MAX,
            check == (|i: int| instance_error(instances@, *limits, i)),
            first_some(i as nat, check) is None,
            frame_error(instances@, *limits) == or_else(
                first_some(instances@.len(), check),
                binding_error(instances@, *limits),
            ),
            *buffers == *old(buffers),
            end == joint_end(instances@, alignment, i as nat),
            joint_binding_size == binding_size(instances@, i as nat),
            0 < i ==> last_start == joint_start(instances@, alignment, (i - 1) as nat),
            first_primitive == primitive_total(instances@, i as nat),
            draws@.len() == i,
            forall|k: int|
                0 <= k < i ==> is_draw(instances@, *limits, k, #[trigger] draws@[k]),
        decreases instances@.len() - i,
    {
        let instance = instances[i];
        let bytes: u64 = match joint_palette_bytes(instance.joints, limits.binding_limit) {
            Ok(bytes) => bytes,
            Err(error) => {
                proof {
                    assert(check(i as int) == Some(error));
                    first_some_stays((i + 1) as nat, instances@.len(), check);
                }
                return Err(error);
            },
        };
        if bytes > joint_binding_size {
            joint_binding_size = bytes;
        }
        let (start, next_end) = match joint_palette_offset(
            end,
            limits.joint_alignment,
            bytes,
            limits.buffer_limit,
        ) {
            Ok(range) => range,
            Err(error) => {
                proof {
                    assert(check(i as int) == Some(error));
                    first_some_stays((i + 1) as nat, instances@.len(), check);
                }
                return Err(error);
            },
        };
        assert(next_end == joint_end(instances@, alignment, (i + 1) as nat));
        if next_end > usize::MAX as u64 {
            proof {
                assert(check(i as int) == Some(FrameError::Unaddressable));
                first_some_stays((i + 1) as nat, instances@.len(), check);
            }
            return Err(FrameError::Unaddressable);
        }
        assert(check(i as int) is None);
        proof {
            primitive_totals_grow(instances@, (i + 1) as nat, instances@.len());
            assert((first_primitive + instance.primitives) * limits.material_stride <= total
                * limits.material_stride) by (nonlinear_arith)
                requires
                    first_primitive + instance.primitives <= total,
                    0 < limits.material_stride,
            ;
        }
        let materials = material_offsets(
            first_primitive,
            instance.primitives,
            limits.material_stride,
        );
        draws.push(
            DrawOffsets {
                instance: (i as u64 * INSTANCE_STRIDE) as u32,
                joints: start,
                materials,
            },
        );
        end = next_end;
        last_start = start as u64;
        first_primitive = first_primitive + instance.primitives as u64;
        i += 1;
    }
    proof {
        binding_size_covers(instances@, 0, instances@.len());
        joint_ends_grow(instances@, alignment, (instances@.len() - 1) as nat);
    }
    if joint_binding_size > u64::MAX - last_start {
        return Err(FrameError::BindingOverflow);
    }
    let need: u64 = last_start + joint_binding_size;
    if need > limits.buffer_limit {
        return Err(FrameError::BindingTooLarge { required: need, limit: limits.buffer_limit });
    }
    if need > usize::MAX as u64 {
        return Err(FrameError::Unaddressable);
    }
    let joint_bytes: u64 = if end < need {
        need
    } else {
        end
    };
    proof {
        packed_sizes(instances@, *limits);
        next_power_bounds((instances@.len() * INSTANCE_STRIDE) as nat);
        next_power_bounds((total * limits.material_stride) as nat);
    }
    let instance_bytes: u64 = instances.len() as u64 * INSTANCE_STRIDE;
    let material_bytes: u64 = total * limits.material_stride;
    let recreate_instances = instance_bytes > buffers.instance_capacity;
    let recreate_joints = joint_bytes > buffers.joints_capacity;
    let recreate_materials = material_bytes > buffers.material_instance_capacity;
    let recreate_binding = recreate_instances || recreate_joints || recreate_materials
        || joint_binding_size != buffers.joint_binding_size;
    if recreate_instances {
        if let Some(capacity) = checked_next_power(instance_bytes) {
            buffers.instance_capacity = capacity;
        }
    }
    if recreate_joints {
        if let Ok(capacity) = joint_buffer_capacity(
            joint_bytes,
            buffers.joints_capacity,
            limits.buffer_limit,
        ) {
            buffers.joints_capacity = capacity;
        }
    }
    buffers.joint_binding_size = joint_binding_size;
    if recreate_materials {
        if let Some(capacity) = checked_next_power(material_bytes) {
            buffers.material_instance_capacity = capacity;
        }
    }
    Ok(
        FramePlan {
            draws,
            instance_bytes,
            joint_bytes,
            material_bytes,
            recreate_instances,
            recreate_joints,
            recreate_materials,
            recreate_binding,
        },
    )
}

/// What a frame draws after packing: its models and its view model, or neither
/// if they could not be packed.
pub open spec fn drawn(packed: Result<FramePlan, FrameError>, has_viewmodel: bool) -> (
    Option<FramePlan>,
    bool,
) {
    match packed {
        Ok(plan) => (Some(plan), has_viewmodel),
        Err(_) => (None, false),
    }
}

/// The plan by which the models of a frame are drawn, if any are, and whether
/// its view model is. A frame that could not be packed is drawn without both.
pub fn drawn_frame(packed: Result<FramePlan, FrameError>, has_viewmodel: bool) -> (frame: (
    Option<FramePlan>,
    bool,
))
    ensures
        frame == drawn(packed, has_viewmodel),
{
    match packed {
        Ok(plan) => (Some(plan), has_viewmodel),
        Err(_) => (None, false),
    }
}

/// The capacity of a vertex buffer after `required` bytes went into it, and
/// whether the buffer is to be created anew.
pub fn grow_vertex_buffer(required: u64, current: u64) -> (growth: (u64, bool))
    requires
        next_power(required as nat) <= u64::MAX,
    ensures
        growth.0 == grown(required as int, current),
        growth.1 == (required > current),
{
    if required > current {
        match checked_next_power(required) {
            Some(capacity) => (capacity, true),
            None => (current, true),
        }
    } else {
        (current, false)
    }
}

/// The records of a frame follow each other: each draw reads the instance record
/// behind that of the draw before it, and its palette lies behind that of the
/// draw before it, at the first aligned offset.
pub proof fn draws_follow_each_other(
    instances: Seq<FrameInstance>,
    limits: FrameLimits,
    buffers: ModelBuffers,
    plan: FramePlan,
    i: int,
)
    requires
        is_frame_plan(instances, limits, buffers, plan),
        0 < limits.joint_alignment,
        0 <= i,
        i + 1 < instances.len(),
    ensures
        ({
            let (draw, next) = (plan.draws@[i], plan.draws@[i + 1]);
            let end = draw.joints + instances[i].joints * 64;
            &&& plan.draws@[0].instance == 0
            &&& plan.draws@[0].joints == 0
            &&& next.instance == draw.instance + 256
            &&& next.joints as int % limits.joint_alignment as int == 0
            &&& end <= next.joints < end + limits.joint_alignment
        }),
{
    let alignment = limits.joint_alignment as int;
    assert(is_draw(instances, limits, 0, plan.draws@[0]));
    assert(is_draw(instances, limits, i, plan.draws@[i]));
    assert(is_draw(instances, limits, i + 1, plan.draws@[i + 1]));
    let end = joint_end(instances, alignment, (i + 1) as nat);
    aligned_is_the_smallest_multiple(0, alignment, 0);
    let quotient = end / alignment;
    assert(quotient * alignment <= end < (quotient + 1) * alignment) by (nonlinear_arith)
        requires
            quotient == end / alignment,
            0 < alignment,
    ;
    let multiple = if quotient * alignment == end {
        quotient * alignment
    } else {
        (quotient + 1) * alignment
    };
    assert(multiple % alignment == 0) by {
        vstd::arithmetic::div_mod::lemma_mod_multiples_basic(quotient, alignment);
        vstd::arithmetic::div_mod::lemma_mod_multiples_basic(quotient + 1, alignment);
    }
    assert((quotient + 1) * alignment == quotient * alignment + alignment) by (nonlinear_arith);
    aligned_is_the_smallest_multiple(end, alignment, multiple);
}

/// Every primitive of a frame has a material record of its own: those of a draw
/// follow each other, and those of the next draw follow them.
pub proof fn material_records_follow_each_other(
    instances: Seq<FrameInstance>,
    limits: FrameLimits,
    buffers: ModelBuffers,
    plan: FramePlan,
    i: int,
    k: int,
)
    requires
        is_frame_plan(instances, limits, buffers, plan),
        0 <= i < instances.len(),
        0 <= k < instances[i].primitives,
    ensures
        ({
            let materials = plan.draws@[i].materials@;
            &&& materials.len() == instances[i].primitives
            &&& i == 0 && k == 0 ==> materials[k] == 0
            &&& k + 1 < materials.len() ==> materials[k + 1] == materials[k]
                + limits.material_stride
            &&& k + 1 == materials.len() && i + 1 < instances.len() && 0 < instances[i
                + 1].primitives ==> plan.draws@[i + 1].materials@[0] == materials[k]
                + limits.material_stride
            &&& k + 1 == materials.len() && i + 1 == instances.len() ==> plan.material_bytes
                == materials[k] + limits.material_stride
        }),
{
    let before = primitive_total(instances, i as nat) as int;
    let stride = limits.material_stride as int;
    assert(is_draw(instances, limits, i, plan.draws@[i]));
    assert(plan.draws@[i].materials@[k] == (before + k) * stride);
    assert((before + k + 1) * stride == (before + k) * stride + stride) by (nonlinear_arith);
    if i == 0 && k == 0 {
        assert((before + k) * stride == 0) by (nonlinear_arith)
            requires
                before == 0,
                k == 0,
        ;
    }
    if k + 1 < plan.draws@[i].materials@.len() {
        assert(plan.draws@[i].materials@[k + 1] == (before + (k + 1)) * stride);
    } else if i + 1 < instances.len() && 0 < instances[i + 1].primitives {
        assert(is_draw(instances, limits, i + 1, plan.draws@[i + 1]));
        assert(primitive_total(instances, (i + 1) as nat) == before + k + 1);
        assert(plan.draws@[i + 1].materials@[0] == (primitive_total(instances, (i + 1) as nat) + 0)
            * stride);
    } else if i + 1 == instances.len() {
        assert(primitive_total(instances, instances.len()) == before + k + 1);
    }
}

proof fn binding_size_is_attained(instances: Seq<FrameInstance>, count: nat)
    requires
        count <= instances.len(),
    ensures
        binding_size(instances, count) == 64 || exists|i: int|
            0 <= i < count && binding_size(instances, count) == (#[trigger] instances[i]).joints
                * 64,
        64 <= binding_size(instances, count),
        forall|i: int|
            0 <= i < count ==> (#[trigger] instances[i]).joints * 64 <= binding_size(
                instances,
                count,
            ),
    decreases count,
{
    if count > 0 {
        binding_size_is_attained(instances, (count - 1) as nat);
        assert(palette_bytes(instances, count - 1) == instances[count - 1].joints * 64);
    }
}

/// The bytes of a frame end with its last draw: its instance record, its palette
/// and the binding range that every draw reads from its palette on, which is as
/// long as the longest palette of the frame and holds at least one matrix.
pub proof fn frames_end_with_their_last_draw(
    instances: Seq<FrameInstance>,
    limits: FrameLimits,
    buffers: ModelBuffers,
    plan: FramePlan,
    i: int,
)
    requires
        is_frame_plan(instances, limits, buffers, plan),
        0 < limits.joint_alignment,
        0 <= i < instances.len(),
        frame_error(instances, limits) is None,
    ensures
        ({
            let last = plan.draws@.last();
            let bound = buffers_after(instances, limits, buffers).joint_binding_size;
            &&& plan.instance_bytes == last.instance + 256
            &&& plan.joint_bytes == last.joints + bound
            &&& instances[i].joints * 64 <= bound
            &&& 64 <= bound
            &&& bound == 64 || exists|j: int|
                0 <= j < instances.len() && bound == (#[trigger] instances[j]).joints * 64
        }),
{
    let last = instances.len() - 1;
    assert(is_draw(instances, limits, last, plan.draws@[last]));
    binding_size_is_attained(instances, instances.len());
    packed_sizes(instances, limits);
}

/// A frame without models needs no bytes and leaves the buffers alone.
pub proof fn empty_frames_change_nothing(
    limits: FrameLimits,
    buffers: ModelBuffers,
    plan: FramePlan,
)
    requires
        is_frame_plan(Seq::empty(), limits, buffers, plan),
    ensures
        frame_error(Seq::empty(), limits) is None,
        buffers_after(Seq::empty(), limits, buffers) == buffers,
        plan.draws@.len() == 0,
        plan.instance_bytes == 0 && plan.joint_bytes == 0 && plan.material_bytes == 0,
        !plan.recreate_instances && !plan.recreate_joints && !plan.recreate_materials,
        !plan.recreate_binding,
{
    vstd::arithmetic::mul::lemma_mul_basics(limits.material_stride as int);
}

/// A buffer is made anew only where the frame does not fit into it, and then it
/// is large enough and, but for the limit of the device, less than twice as
/// large; a buffer that is kept keeps its capacity. What reads the buffers is
/// bound anew where one of them or the length of the palettes changes.
pub proof fn buffers_grow_when_they_must(
    instances: Seq<FrameInstance>,
    limits: FrameLimits,
    buffers: ModelBuffers,
    plan: FramePlan,
)
    requires
        is_frame_plan(instances, limits, buffers, plan),
        0 < limits.joint_alignment,
        0 < limits.material_stride,
        frame_error(instances, limits) is None,
    ensures
        ({
            let after = buffers_after(instances, limits, buffers);
            &&& plan.recreate_instances <==> buffers.instance_capacity < plan.instance_bytes
            &&& plan.recreate_joints <==> buffers.joints_capacity < plan.joint_bytes
            &&& plan.recreate_materials <==> buffers.material_instance_capacity
                < plan.material_bytes
            &&& plan.recreate_binding <==> plan.recreate_instances || plan.recreate_joints
                || plan.recreate_materials || after.joint_binding_size
                != buffers.joint_binding_size
            &&& !plan.recreate_instances ==> after.instance_capacity == buffers.instance_capacity
            &&& !plan.recreate_joints ==> after.joints_capacity == buffers.joints_capacity
            &&& !plan.recreate_materials ==> after.material_instance_capacity
                == buffers.material_instance_capacity
            &&& plan.instance_bytes <= after.instance_capacity
            &&& plan.joint_bytes <= after.joints_capacity
            &&& plan.material_bytes <= after.material_instance_capacity
            &&& plan.recreate_instances ==> after.instance_capacity < 2 * plan.instance_bytes
            &&& plan.recreate_joints ==> after.joints_capacity < 2 * plan.joint_bytes
                && after.joints_capacity <= limits.buffer_limit
            &&& plan.recreate_materials && 1 < plan.material_bytes
                ==> after.material_instance_capacity < 2 * plan.material_bytes
        }),
{
    if instances.len() > 0 {
        let alignment = limits.joint_alignment as int;
        packed_sizes(instances, limits);
        binding_size_is_attained(instances, instances.len());
        joint_ends_grow(instances, alignment, (instances.len() - 1) as nat);
        let materials = primitive_total(instances, instances.len()) * limits.material_stride;
        next_power_bounds((instances.len() * INSTANCE_STRIDE) as nat);
        next_power_bounds(materials as nat);
        next_power_bounds(joint_bytes(instances, alignment) as nat);
    } else {
        vstd::arithmetic::mul::lemma_mul_basics(limits.material_stride as int);
    }
}

/// A frame is accepted only where everything can be addressed: its instance and
/// material records within 32 bits, each palette within the binding limit of the
/// device, and each palette with its binding range within the buffer limit.
pub proof fn accepted_frames_fit_the_device(
    instances: Seq<FrameInstance>,
    limits: FrameLimits,
    i: int,
)
    requires
        0 < limits.joint_alignment,
        frame_error(instances, limits) is None,
        0 <= i < instances.len(),
    ensures
        instances.len() * 256 <= u32::MAX,
        primitive_total(instances, instances.len()) * limits.material_stride <= u32::MAX,
        instances[i].joints * 64 <= limits.binding_limit,
        joint_start(instances, limits.joint_alignment as int, i as nat) <= u32::MAX,
        joint_bytes(instances, limits.joint_alignment as int) <= limits.buffer_limit,
        joint_bytes(instances, limits.joint_alignment as int) <= usize::MAX,
{
    let check = |i: int| instance_error(instances, limits, i);
    first_some_none(instances.len(), check);
    assert(check(i) is None);
    assert(check(instances.len() - 1) is None);
    packed_sizes(instances, limits);
}

/// A frame that fits the device is not refused.
pub proof fn fitting_frames_are_accepted(instances: Seq<FrameInstance>, limits: FrameLimits)
    requires
        0 < limits.joint_alignment,
        instances.len() * 256 <= u32::MAX,
        primitive_total(instances, instances.len()) * limits.material_stride <= u32::MAX,
        joint_bytes(instances, limits.joint_alignment as int) <= limits.buffer_limit,
        joint_bytes(instances, limits.joint_alignment as int) <= usize::MAX,
        forall|i: int|
            0 <= i < instances.len() ==> {
                &&& (#[trigger] instances[i]).joints * 64 <= limits.binding_limit
                &&& joint_start(instances, limits.joint_alignment as int, i as nat) <= u32::MAX
            },
    ensures
        frame_error(instances, limits) is None,
{
    if instances.len() > 0 {
        let alignment = limits.joint_alignment as int;
        let check = |i: int| instance_error(instances, limits, i);
        assert forall|i: int| 0 <= i < instances.len() implies #[trigger] check(i) is None by {
            assert(instances[i].joints * 64 <= limits.binding_limit);
            let last = (instances.len() - 1) as nat;
            joint_ends_grow(instances, alignment, i as nat);
            if i < last {
                joint_starts_grow(instances, alignment, i as nat, last);
            }
            joint_ends_grow(instances, alignment, last);
            binding_size_is_attained(instances, instances.len());
            assert(joint_end(instances, alignment, (i + 1) as nat) == joint_start(
                instances,
                alignment,
                i as nat,
            ) + palette_bytes(instances, i));
        }
        first_some_none(instances.len(), check);
    }
}

/// A palette is too large exactly where its matrices need more bytes than a
/// binding holds, and the error names both.
pub proof fn large_palettes_are_refused(count: int, binding_limit: u64)
    requires
        0 <= count <= usize::MAX,
    ensures
        palette_error(count, binding_limit) is None <==> count * 64 <= binding_limit,
        palette_error(count, binding_limit) matches Some(
            FrameError::PaletteTooLarge { joints, bytes, binding_limit: limit },
        ) ==> joints == count && bytes == count * 64 && limit == binding_limit,
        count * 64 > u64::MAX ==> palette_error(count, binding_limit) == Some(
            FrameError::PaletteOverflow,
        ),
{
}

} // verus!
