//! Morph weights of an instance and which meshes they displace.

use vstd::prelude::*;

use crate::anim::ZERO_LENGTH_SQUARED;
use crate::layout::MorphMesh;
use crate::scalar::{equal, less, magnitude, Scalar};

verus! {

/// The pattern of the weight below which a target has no effect (one ten
/// thousandth).
pub const SMALLEST_WEIGHT: u32 = 0x38d1_b717;

/// Whether bit `slot` is set.
pub open spec fn has_bit(bits: u64, slot: int) -> bool {
    (bits >> slot as u64) & 1u64 == 1u64
}

/// The morph weights of an instance, per morph mesh and target, and the meshes
/// that changed since their vertices were last uploaded.
#[derive(Debug)]
pub struct MorphState {
    pub weights: Vec<Vec<Scalar>>,
    /// A bit per mesh; meshes beyond the bits count as changed with any other.
    pub dirty: u64,
}

/// The weights of a state.
pub open spec fn weight_rows(state: MorphState) -> Seq<Seq<Scalar>> {
    state.weights@.map_values(|row: Vec<Scalar>| row@)
}

/// Whether a state has the target.
pub open spec fn has_target(state: MorphState, mesh_slot: int, target: int) -> bool {
    0 <= mesh_slot < state.weights@.len() && 0 <= target < state.weights@[mesh_slot]@.len()
}

/// Whether the vertices of a mesh are to be uploaded.
pub open spec fn needs_upload(state: MorphState, mesh_slot: int) -> bool {
    state.dirty != 0 && (mesh_slot >= 64 || has_bit(state.dirty, mesh_slot))
}

/// Whether a weight displaces anything.
pub open spec fn is_active(weight: Scalar) -> bool {
    !less(Scalar { bits: magnitude(weight) as u32 }, Scalar { bits: SMALLEST_WEIGHT })
}

proof fn marking_sets_one_bit(bits: u64, slot: u64, other: u64)
    requires
        slot < 64,
        other < 64,
    ensures
        ((bits | (1u64 << slot)) >> other) & 1u64 == 1u64 <==> ((bits >> other) & 1u64 == 1u64
            || other == slot),
        bits | (1u64 << slot) != 0,
{
    assert(((bits | (1u64 << slot)) >> other) & 1u64 == 1u64 <==> ((bits >> other) & 1u64 == 1u64
        || other == slot)) by (bit_vector)
        requires
            slot < 64,
            other < 64,
    ;
    assert(bits | (1u64 << slot) != 0) by (bit_vector)
        requires
            slot < 64,
    ;
}

proof fn marking_all_sets_each_bit(bits: u64, other: u64)
    requires
        other < 64,
    ensures
        ((bits | 0xffff_ffff_ffff_ffffu64) >> other) & 1u64 == 1u64,
        bits | 0xffff_ffff_ffff_ffffu64 != 0,
{
    assert(((bits | 0xffff_ffff_ffff_ffffu64) >> other) & 1u64 == 1u64) by (bit_vector)
        requires
            other < 64,
    ;
    assert(bits | 0xffff_ffff_ffff_ffffu64 != 0) by (bit_vector);
}

impl MorphState {
    /// The state of an instance at rest, if its model has morph targets.
    pub fn at_rest(meshes: &[MorphMesh]) -> (state: Option<Self>)
        ensures
            match state {
                Some(state) => {
                    &&& meshes@.len() > 0
                    &&& state.dirty == 0
                    &&& weight_rows(state) == Seq::new(
                        meshes@.len(),
                        |i: int|
                            Seq::new(meshes@[i].target_count as nat, |k: int| Scalar { bits: 0 }),
                    )
                },
                None => meshes@.len() == 0,
            },
    {
        if meshes.len() == 0 {
            return None;
        }
        let mut weights: Vec<Vec<Scalar>> = Vec::new();
        let mut i: usize = 0;
        while i < meshes.len()
            invariant
                i <= meshes@.len(),
                weights@.len() == i,
                forall|k: int|
                    0 <= k < i ==> (#[trigger] weights@[k])@ == Seq::new(
                        meshes@[k].target_count as nat,
                        |m: int| Scalar { bits: 0 },
                    ),
            decreases meshes@.len() - i,
        {
            let mut row: Vec<Scalar> = Vec::new();
            let count: usize = meshes[i].target_count;
            let mut k: usize = 0;
            while k < count
                invariant
                    k <= count,
                    row@ =~= Seq::new(k as nat, |m: int| Scalar { bits: 0 }),
                decreases count - k,
            {
                row.push(Scalar::zero());
                k += 1;
            }
            weights.push(row);
            i += 1;
        }
        let state = MorphState { weights, dirty: 0 };
        proof {
            let rows = Seq::new(
                meshes@.len(),
                |i: int| Seq::new(meshes@[i].target_count as nat, |k: int| Scalar { bits: 0 }),
            );
            assert(weight_rows(state) =~= rows);
        }
        Some(state)
    }

    /// Sets a weight and marks its mesh, unless the weight is that already. A
    /// mesh or target that is not there changes nothing; a mesh beyond the
    /// marks marks all.
    pub fn set_weight(&mut self, mesh_slot: usize, target: usize, weight: Scalar)
        ensures
            if has_target(*old(self), mesh_slot as int, target as int) && !equal(
                old(self).weights@[mesh_slot as int]@[target as int],
                weight,
            ) {
                &&& weight_rows(*final(self)) == weight_rows(*old(self)).update(
                    mesh_slot as int,
                    weight_rows(*old(self))[mesh_slot as int].update(target as int, weight),
                )
                &&& forall|other: int|
                    0 <= other ==> #[trigger] needs_upload(*final(self), other) == (needs_upload(
                        *old(self),
                        other,
                    ) || other == mesh_slot || other >= 64 || mesh_slot >= 64)
            } else {
                *final(self) == *old(self)
            },
    {
        if mesh_slot >= self.weights.len() || target >= self.weights[mesh_slot].len() {
            return;
        }
        if self.weights[mesh_slot][target].equal(weight) {
            return;
        }
        self.weights[mesh_slot][target] = weight;
        let ghost before = self.dirty;
        let mark: u64 = if mesh_slot < 64 {
            1u64 << mesh_slot as u64
        } else {
            0xffff_ffff_ffff_ffff
        };
        self.dirty = self.dirty | mark;
        proof {
            assert(weight_rows(*self) =~= weight_rows(*old(self)).update(
                mesh_slot as int,
                weight_rows(*old(self))[mesh_slot as int].update(target as int, weight),
            ));
            assert forall|other: int| 0 <= other implies #[trigger] needs_upload(*self, other) == (
            needs_upload(*old(self), other) || other == mesh_slot || other >= 64 || mesh_slot
                >= 64) by {
                let clipped: u64 = if other < 64 {
                    other as u64
                } else {
                    0
                };
                if mesh_slot < 64 {
                    marking_sets_one_bit(before, mesh_slot as u64, clipped);
                } else {
                    marking_all_sets_each_bit(before, clipped);
                }
                assert(other < 64 && before == 0 ==> (before >> other as u64) & 1u64 == 0) by {
                    zero_has_no_bits(clipped);
                }
            }
        }
    }

    /// The weight of a target, or zero.
    pub fn weight(&self, mesh_slot: usize, target: usize) -> (weight: Scalar)
        ensures
            weight == (if has_target(*self, mesh_slot as int, target as int) {
                self.weights@[mesh_slot as int]@[target as int]
            } else {
                Scalar { bits: 0 }
            }),
    {
        if mesh_slot >= self.weights.len() || target >= self.weights[mesh_slot].len() {
            return Scalar::zero();
        }
        self.weights[mesh_slot][target]
    }
}

/// The meshes below `count` whose vertices are to be uploaded, in order.
pub open spec fn uploads(state: MorphState, count: nat) -> Seq<usize>
    decreases count,
{
    if count == 0 {
        Seq::empty()
    } else {
        let before = uploads(state, (count - 1) as nat);
        if needs_upload(state, count - 1) {
            before.push((count - 1) as usize)
        } else {
            before
        }
    }
}

/// The first `count` weights that displace anything, with their targets.
pub open spec fn active_weights(weights: Seq<Scalar>, count: nat) -> Seq<(usize, Scalar)>
    decreases count,
{
    if count == 0 {
        Seq::empty()
    } else {
        let before = active_weights(weights, (count - 1) as nat);
        let weight = if count - 1 < weights.len() {
            weights[count - 1]
        } else {
            Scalar { bits: 0 }
        };
        if is_active(weight) {
            before.push(((count - 1) as usize, weight))
        } else {
            before
        }
    }
}

impl MorphState {
    /// Which meshes changed since the last call, in order. Nothing is marked
    /// afterwards.
    pub fn take_uploads(&mut self) -> (slots: Vec<usize>)
        ensures
            slots@ == uploads(*old(self), old(self).weights@.len()),
            final(self).weights == old(self).weights,
            final(self).dirty == 0,
    {
        let dirty: u64 = self.dirty;
        self.dirty = 0;
        let mut slots: Vec<usize> = Vec::new();
        let mut i: usize = 0;
        while i < self.weights.len()
            invariant
                i <= self.weights@.len(),
                dirty == old(self).dirty,
                self.weights == old(self).weights,
                self.dirty == 0,
                slots@ == uploads(*old(self), i as nat),
            decreases self.weights@.len() - i,
        {
            let marked = if i >= 64 {
                dirty != 0
            } else {
                dirty != 0 && (dirty >> i as u64) & 1u64 == 1u64
            };
            if marked {
                slots.push(i);
            }
            i += 1;
        }
        slots
    }

    /// The targets of a mesh that displace anything, among the first `count`.
    pub fn active_targets(&self, mesh_slot: usize, count: usize) -> (targets: Vec<(usize, Scalar)>)
        requires
            mesh_slot < self.weights@.len(),
        ensures
            targets@ == active_weights(self.weights@[mesh_slot as int]@, count as nat),
    {
        let mut targets: Vec<(usize, Scalar)> = Vec::new();
        let mut i: usize = 0;
        while i < count
            invariant
                i <= count,
                mesh_slot < self.weights@.len(),
                targets@ == active_weights(self.weights@[mesh_slot as int]@, i as nat),
            decreases count - i,
        {
            let weight = self.weight(mesh_slot, i);
            let size = if weight.bits >= crate::scalar::SIGN {
                Scalar { bits: weight.bits - crate::scalar::SIGN }
            } else {
                weight
            };
            if !size.less(Scalar { bits: SMALLEST_WEIGHT }) {
                targets.push((i, weight));
            }
            i += 1;
        }
        targets
    }
}

/// A weight that is set reads back, and reads of other targets stay the same.
pub proof fn set_weights_read_back(
    before: MorphState,
    after: MorphState,
    mesh_slot: int,
    target: int,
    weight: Scalar,
    other_slot: int,
    other_target: int,
)
    requires
        has_target(before, mesh_slot, target),
        weight_rows(after) == weight_rows(before).update(
            mesh_slot,
            weight_rows(before)[mesh_slot].update(target, weight),
        ),
        has_target(before, other_slot, other_target),
    ensures
        has_target(after, other_slot, other_target),
        after.weights@[other_slot]@[other_target] == (if other_slot == mesh_slot && other_target
            == target {
            weight
        } else {
            before.weights@[other_slot]@[other_target]
        }),
{
    let rows = weight_rows(before);
    let row = rows[mesh_slot].update(target, weight);
    assert(weight_rows(after).len() == rows.len());
    assert(weight_rows(after)[other_slot] == after.weights@[other_slot]@);
    assert(rows[other_slot] == before.weights@[other_slot]@);
}

/// The first `count` deltas that displace their vertex.
pub open spec fn displaced(
    deltas: Seq<[Scalar; 3]>,
    lengths_squared: Seq<Scalar>,
    count: nat,
) -> Seq<(u32, [Scalar; 3])>
    decreases count,
{
    if count == 0 {
        Seq::empty()
    } else {
        let before = displaced(deltas, lengths_squared, (count - 1) as nat);
        if less(Scalar { bits: ZERO_LENGTH_SQUARED }, lengths_squared[count - 1]) {
            before.push(((count - 1) as u32, deltas[count - 1]))
        } else {
            before
        }
    }
}

/// The deltas of a target that displace their vertex, with the vertices.
pub fn sparse_deltas(deltas: &[[Scalar; 3]], lengths_squared: &[Scalar]) -> (sparse: Vec<
    (u32, [Scalar; 3]),
>)
    requires
        deltas@.len() == lengths_squared@.len(),
        deltas@.len() <= u32::MAX,
    ensures
        sparse@ == displaced(deltas@, lengths_squared@, deltas@.len()),
{
    let mut sparse: Vec<(u32, [Scalar; 3])> = Vec::new();
    let mut i: usize = 0;
    while i < deltas.len()
        invariant
            i <= deltas@.len(),
            deltas@.len() == lengths_squared@.len(),
            deltas@.len() <= u32::MAX,
            sparse@ == displaced(deltas@, lengths_squared@, i as nat),
        decreases deltas@.len() - i,
    {
        if (Scalar { bits: ZERO_LENGTH_SQUARED }).less(lengths_squared[i]) {
            sparse.push((i as u32, deltas[i]));
        }
        i += 1;
    }
    sparse
}

proof fn zero_has_no_bits(other: u64)
    requires
        other < 64,
    ensures
        (0u64 >> other) & 1u64 == 0,
{
    assert((0u64 >> other) & 1u64 == 0) by (bit_vector)
        requires
            other < 64,
    ;
}

proof fn active_weights_facts(weights: Seq<Scalar>, count: nat)
    requires
        count <= usize::MAX,
    ensures
        ({
            let listed = active_weights(weights, count);
            &&& forall|j: int|
                0 <= j < listed.len() ==> {
                    &&& (#[trigger] listed[j]).0 < count
                    &&& listed[j].0 < weights.len()
                    &&& listed[j].1 == weights[listed[j].0 as int]
                    &&& magnitude(listed[j].1) >= 0x38d1_b717
                }
            &&& forall|a: int, b: int|
                0 <= a < b < listed.len() ==> (#[trigger] listed[a]).0 < (#[trigger] listed[b]).0
            &&& forall|i: int|
                0 <= i < count && i < weights.len() && magnitude(#[trigger] weights[i])
                    >= 0x38d1_b717 ==> listed.contains((i as usize, weights[i]))
        }),
    decreases count,
{
    if count > 0 {
        active_weights_facts(weights, (count - 1) as nat);
        let earlier = active_weights(weights, (count - 1) as nat);
        let listed = active_weights(weights, count);
        assert forall|i: int|
            0 <= i < count && i < weights.len() && magnitude(#[trigger] weights[i])
                >= 0x38d1_b717 implies listed.contains((i as usize, weights[i])) by {
            if i < count - 1 {
                let j = choose|j: int|
                    0 <= j < earlier.len() && earlier[j] == (i as usize, weights[i]);
                assert(listed[j] == earlier[j]);
            } else {
                assert(listed[earlier.len() as int] == (i as usize, weights[i]));
            }
        }
    }
}

/// The targets that displace anything are exactly those among the first `count`
/// whose weight is at least a ten thousandth in size, each with its weight.
pub proof fn active_targets_are_the_weighted_ones(
    weights: Seq<Scalar>,
    count: usize,
    target: usize,
    weight: Scalar,
)
    ensures
        active_weights(weights, count as nat).contains((target, weight)) <==> (target < count
            && target < weights.len() && weights[target as int] == weight && magnitude(weight)
            >= 0x38d1_b717),
{
    active_weights_facts(weights, count as nat);
    let listed = active_weights(weights, count as nat);
    if listed.contains((target, weight)) {
        let j = choose|j: int| 0 <= j < listed.len() && listed[j] == (target, weight);
        assert(listed[j].0 == target);
    }
}

/// The targets that displace anything come in order, none twice.
pub proof fn active_targets_rise(weights: Seq<Scalar>, count: usize, a: int, b: int)
    requires
        0 <= a < b < active_weights(weights, count as nat).len(),
    ensures
        active_weights(weights, count as nat)[a].0 < active_weights(weights, count as nat)[b].0,
{
    active_weights_facts(weights, count as nat);
}

proof fn uploads_facts(state: MorphState, count: nat)
    requires
        count <= usize::MAX,
    ensures
        ({
            let listed = uploads(state, count);
            &&& forall|j: int|
                0 <= j < listed.len() ==> (#[trigger] listed[j]) < count && needs_upload(
                    state,
                    listed[j] as int,
                )
            &&& forall|a: int, b: int|
                0 <= a < b < listed.len() ==> #[trigger] listed[a] < #[trigger] listed[b]
            &&& forall|i: int|
                0 <= i < count && #[trigger] needs_upload(state, i) ==> listed.contains(i as usize)
        }),
    decreases count,
{
    if count > 0 {
        uploads_facts(state, (count - 1) as nat);
        let earlier = uploads(state, (count - 1) as nat);
        let listed = uploads(state, count);
        assert forall|i: int|
            0 <= i < count && #[trigger] needs_upload(state, i) implies listed.contains(
            i as usize,
        ) by {
            if i < count - 1 {
                let j = choose|j: int| 0 <= j < earlier.len() && earlier[j] == i as usize;
                assert(listed[j] == earlier[j]);
            } else {
                assert(listed[earlier.len() as int] == i as usize);
            }
        }
    }
}

/// The meshes that are uploaded are exactly those with a mark: their own bit, or
/// any bit for a mesh beyond the bits.
pub proof fn uploads_are_the_marked_meshes(state: MorphState, slot: usize)
    ensures
        uploads(state, state.weights@.len()).contains(slot) <==> {
            &&& slot < state.weights@.len()
            &&& state.dirty != 0
            &&& slot < 64 ==> (state.dirty >> slot as u64) & 1u64 == 1u64
        },
{
    assert(state.weights.len() <= usize::MAX);
    uploads_facts(state, state.weights@.len());
    let listed = uploads(state, state.weights@.len());
    if listed.contains(slot) {
        let j = choose|j: int| 0 <= j < listed.len() && listed[j] == slot;
        assert(listed[j] < state.weights@.len());
    }
    if slot < 64 {
        zero_has_no_bits(slot as u64);
    }
    if needs_upload(state, slot as int) && slot < state.weights@.len() {
        assert(listed.contains(slot as int as usize));
    }
}

/// The meshes that are uploaded come in order, none twice.
pub proof fn uploads_rise(state: MorphState, a: int, b: int)
    requires
        0 <= a < b < uploads(state, state.weights@.len()).len(),
    ensures
        uploads(state, state.weights@.len())[a] < uploads(state, state.weights@.len())[b],
{
    assert(state.weights.len() <= usize::MAX);
    uploads_facts(state, state.weights@.len());
}

proof fn displaced_facts(
    deltas: Seq<[Scalar; 3]>,
    lengths_squared: Seq<Scalar>,
    count: nat,
)
    requires
        count <= u32::MAX,
    ensures
        ({
            let listed = displaced(deltas, lengths_squared, count);
            &&& forall|j: int|
                0 <= j < listed.len() ==> {
                    &&& (#[trigger] listed[j]).0 < count
                    &&& listed[j].1 == deltas[listed[j].0 as int]
                    &&& less(Scalar { bits: 0x2b8c_bccc }, lengths_squared[listed[j].0 as int])
                }
            &&& forall|a: int, b: int|
                0 <= a < b < listed.len() ==> (#[trigger] listed[a]).0 < (#[trigger] listed[b]).0
            &&& forall|i: int|
                0 <= i < count && less(
                    Scalar { bits: 0x2b8c_bccc },
                    #[trigger] lengths_squared[i],
                ) ==> listed.contains((i as u32, deltas[i]))
        }),
    decreases count,
{
    if count > 0 {
        displaced_facts(deltas, lengths_squared, (count - 1) as nat);
        let earlier = displaced(deltas, lengths_squared, (count - 1) as nat);
        let listed = displaced(deltas, lengths_squared, count);
        assert forall|i: int|
            0 <= i < count && less(
                Scalar { bits: 0x2b8c_bccc },
                #[trigger] lengths_squared[i],
            ) implies listed.contains((i as u32, deltas[i])) by {
            if i < count - 1 {
                let j = choose|j: int|
                    0 <= j < earlier.len() && earlier[j] == (i as u32, deltas[i]);
                assert(listed[j] == earlier[j]);
            } else {
                assert(listed[earlier.len() as int] == (i as u32, deltas[i]));
            }
        }
    }
}

/// The deltas that are kept of a target are exactly those longer than a
/// millionth, each with its vertex.
pub proof fn kept_deltas_are_the_long_ones(
    deltas: Seq<[Scalar; 3]>,
    lengths_squared: Seq<Scalar>,
    vertex: u32,
    delta: [Scalar; 3],
)
    requires
        deltas.len() == lengths_squared.len(),
        deltas.len() <= u32::MAX,
    ensures
        displaced(deltas, lengths_squared, deltas.len()).contains((vertex, delta)) <==> (vertex
            < deltas.len() && deltas[vertex as int] == delta && less(
            Scalar { bits: 0x2b8c_bccc },
            lengths_squared[vertex as int],
        )),
{
    displaced_facts(deltas, lengths_squared, deltas.len());
    let listed = displaced(deltas, lengths_squared, deltas.len());
    if listed.contains((vertex, delta)) {
        let j = choose|j: int| 0 <= j < listed.len() && listed[j] == (vertex, delta);
        assert(listed[j].0 == vertex);
    }
}

/// The deltas that are kept come in the order of their vertices, none twice.
pub proof fn kept_deltas_rise(
    deltas: Seq<[Scalar; 3]>,
    lengths_squared: Seq<Scalar>,
    a: int,
    b: int,
)
    requires
        deltas.len() <= u32::MAX,
        0 <= a < b < displaced(deltas, lengths_squared, deltas.len()).len(),
    ensures
        displaced(deltas, lengths_squared, deltas.len())[a].0 < displaced(
            deltas,
            lengths_squared,
            deltas.len(),
        )[b].0,
{
    displaced_facts(deltas, lengths_squared, deltas.len());
}

} // verus!
