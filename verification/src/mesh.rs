//! Skin bindings.

use vstd::prelude::*;

verus! {

/// Joint-to-node mapping and inverse bind transforms, in vertex influence
/// order.
#[derive(Debug)]
pub struct Skin<M> {
    /// The node of each joint.
    pub joints: Vec<usize>,
    pub inverse_bind: Vec<M>,
}

/// Whether `matrix` maps a joint with the global transform `global` and the
/// inverse bind transform `bind` into object space, or into the space of
/// `model`.
pub open spec fn is_joint_matrix<M, F: Fn(M, M) -> M>(
    compose: F,
    model: Option<M>,
    global: M,
    bind: M,
    matrix: M,
) -> bool {
    match model {
        None => call_ensures(compose, (global, bind), matrix),
        Some(model) => exists|placed: M| #[trigger]
            call_ensures(compose, (model, global), placed) && call_ensures(
                compose,
                (placed, bind),
                matrix,
            ),
    }
}

impl<M: Copy> Skin<M> {
    /// The joint matrices in influence order: `compose` puts its first
    /// argument before its second. `None` keeps the object-space palette,
    /// `Some(model)` maps the globals into an output space.
    pub fn matrices<F: Fn(M, M) -> M>(
        &self,
        globals: &[M],
        model: Option<M>,
        compose: F,
    ) -> (palette: Vec<M>)
        requires
            self.joints@.len() == self.inverse_bind@.len(),
            forall|k: int|
                0 <= k < self.joints@.len() ==> #[trigger] self.joints@[k] < globals@.len(),
            forall|a: M, b: M| #[trigger] call_requires(compose, (a, b)),
        ensures
            palette@.len() == self.joints@.len(),
            forall|k: int|
                0 <= k < palette@.len() ==> is_joint_matrix(
                    compose,
                    model,
                    globals@[self.joints@[k] as int],
                    self.inverse_bind@[k],
                    #[trigger] palette@[k],
                ),
    {
        let mut palette: Vec<M> = Vec::new();
        let mut k: usize = 0;
        while k < self.joints.len()
            invariant
                k <= self.joints.len(),
                palette@.len() == k,
                self.joints@.len() == self.inverse_bind@.len(),
                forall|k: int|
                    0 <= k < self.joints@.len() ==> #[trigger] self.joints@[k] < globals@.len(),
                forall|a: M, b: M| #[trigger] call_requires(compose, (a, b)),
                forall|k: int|
                    0 <= k < palette@.len() ==> is_joint_matrix(
                        compose,
                        model,
                        globals@[self.joints@[k] as int],
                        self.inverse_bind@[k],
                        #[trigger] palette@[k],
                    ),
            decreases self.joints.len() - k,
        {
            let global: M = globals[self.joints[k]];
            let placed: M = match model {
                None => global,
                Some(model) => compose(model, global),
            };
            palette.push(compose(placed, self.inverse_bind[k]));
            k += 1;
        }
        palette
    }
}

/// A joint matrix takes a vertex out of its bind pose first and then where the
/// joint stands; into the space of a model it goes last.
pub proof fn joint_matrices_leave_the_bind_pose_first<M, F: Fn(M, M) -> M>(
    compose: F,
    model: M,
    global: M,
    bind: M,
    matrix: M,
)
    ensures
        is_joint_matrix(compose, None, global, bind, matrix) <==> call_ensures(
            compose,
            (global, bind),
            matrix,
        ),
        is_joint_matrix(compose, Some(model), global, bind, matrix) ==> exists|placed: M|
            #[trigger] call_ensures(compose, (model, global), placed) && call_ensures(
                compose,
                (placed, bind),
                matrix,
            ),
{
}

} // verus!
