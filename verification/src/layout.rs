//! Pass orchestration: the error a pass can raise, the validation that
//! precedes every pass, and the order in which the solve and rounding
//! steps run.

use vstd::prelude::*;

use crate::tree::TaffyTree;

verus! {

/// The one error this layer raises: the caller supplied a node key
/// that is absent from the tree. It is detected before any work
/// begins, so a failed pass mutates nothing.
#[derive(Debug, Clone, Copy, PartialEq, Eq, Structural)]
pub enum LayoutError {
    /// The supplied key does not refer to a live node.
    InvalidInputNode(usize),
}

/// What a pass entry point returns.
pub type LayoutResult = Result<(), LayoutError>;

impl<T> TaffyTree<T> {
    /// Validate the root key of a pass before any work begins: a key
    /// of a removed node, or one from another tree, is rejected with
    /// `InvalidInputNode`, and exactly the live keys are accepted.
    pub fn validate_pass_root(&self, node_key: usize) -> (r: LayoutResult)
        ensures
            r is Ok <==> self.live(node_key as int),
            r is Err ==> r == Err::<(), LayoutError>(LayoutError::InvalidInputNode(node_key)),
    {
        if self.contains(node_key) {
            Ok(())
        } else {
            Err(LayoutError::InvalidInputNode(node_key))
        }
    }

    /// Run one full pass: validate the root key, hand the tree to the
    /// given solve step, and afterwards to the given rounding step
    /// exactly when the tree the solve left behind is configured to
    /// round. A stale key is rejected before any step runs, with the
    /// tree untouched. On success the final tree is pinned to the
    /// steps' own contracts: it is what the solve step (and, when
    /// rounding, the rounding step after it) made of the tree, so a
    /// caller learns of the result whatever its steps ensure.
    pub fn compute_layout_with<S, R>(&mut self, node_key: usize, solve: S, round: R) -> (r:
        LayoutResult) where
        S: FnOnce(&mut TaffyTree<T>, usize),
        R: FnOnce(&mut TaffyTree<T>, usize),

        requires
            forall|t: &mut TaffyTree<T>| call_requires(solve, (t, node_key)),
            forall|t: &mut TaffyTree<T>| call_requires(round, (t, node_key)),
        ensures
            r is Ok <==> old(self).live(node_key as int),
            r is Err ==> *final(self) == *old(self) && r == Err::<(), LayoutError>(
                LayoutError::InvalidInputNode(node_key),
            ),
            r is Ok ==> exists|t1: &mut TaffyTree<T>|
                {
                    &&& mut_ref_current(t1) == *old(self)
                    &&& #[trigger] call_ensures(solve, (t1, node_key), ())
                    &&& if mut_ref_future(t1)@.config.use_rounding {
                        exists|t2: &mut TaffyTree<T>|
                            {
                                &&& mut_ref_current(t2) == mut_ref_future(t1)
                                &&& #[trigger] call_ensures(round, (t2, node_key), ())
                                &&& *final(self) == mut_ref_future(t2)
                            }
                    } else {
                        *final(self) == mut_ref_future(t1)
                    }
                },
    {
        if !self.contains(node_key) {
            return Err(LayoutError::InvalidInputNode(node_key));
        }
        solve(self, node_key);
        if self.config().use_rounding {
            round(self, node_key);
        }
        Ok(())
    }

    /// Run one full pass from the tree's own root, which is always
    /// live, so this cannot fail; the final tree is pinned to the
    /// steps' contracts as in `compute_layout_with`.
    pub fn compute_layout<S, R>(&mut self, solve: S, round: R) -> (r: LayoutResult) where
        S: FnOnce(&mut TaffyTree<T>, usize),
        R: FnOnce(&mut TaffyTree<T>, usize),

        requires
            old(self).wf(),
            forall|t: &mut TaffyTree<T>| call_requires(solve, (t, 0usize)),
            forall|t: &mut TaffyTree<T>| call_requires(round, (t, 0usize)),
        ensures
            r is Ok,
            exists|t1: &mut TaffyTree<T>|
                {
                    &&& mut_ref_current(t1) == *old(self)
                    &&& #[trigger] call_ensures(solve, (t1, 0usize), ())
                    &&& if mut_ref_future(t1)@.config.use_rounding {
                        exists|t2: &mut TaffyTree<T>|
                            {
                                &&& mut_ref_current(t2) == mut_ref_future(t1)
                                &&& #[trigger] call_ensures(round, (t2, 0usize), ())
                                &&& *final(self) == mut_ref_future(t2)
                            }
                    } else {
                        *final(self) == mut_ref_future(t1)
                    }
                },
    {
        let root = self.root_key();
        self.compute_layout_with(root, solve, round)
    }
}

} // verus!
