//! The identity bridge between the tree's node keys and the layout
//! engine's node ids, and the configuration trait a pass reads.
//!
//! The engine addresses nodes by an opaque id that wraps a `u64`; the
//! tree addresses them by `usize` keys. The two conversions are total,
//! allocation-free reinterpretations of the same number, so converting
//! a key to an id and back yields the key again. Whether an id refers
//! to a live node is for the caller to check.

use vstd::prelude::*;

verus! {

/// The layout engine's node identifier, declared so that it can stand
/// in verified signatures; to the proofs it is an opaque value.
#[verifier::external_type_specification]
#[verifier::external_body]
pub struct ExNodeId(taffy::NodeId);

/// The numeric value a node id wraps: what taffy's
/// `impl From<NodeId> for u64` returns.
pub uninterp spec fn node_id_value(id: taffy::NodeId) -> u64;

/// Relies on taffy's `impl From<usize> for NodeId`: the id wraps the
/// key's numeric value.
#[verifier::external_body]
fn node_id_of_key(key: usize) -> (id: taffy::NodeId)
    ensures
        node_id_value(id) == key as u64,
{
    taffy::NodeId::from(key)
}

/// Relies on taffy's `impl From<NodeId> for usize`: the wrapped value
/// is returned, narrowed with `as`; the bound keeps the narrowing
/// lossless.
#[verifier::external_body]
fn key_of_node_id(id: taffy::NodeId) -> (key: usize)
    requires
        node_id_value(id) <= usize::MAX,
    ensures
        key as u64 == node_id_value(id),
{
    usize::from(id)
}

/// Conversion from a tree node key to the engine's node id.
pub trait IntoNodeId: Sized {
    /// The numeric value the conversion carries over.
    spec fn id_value(&self) -> u64;

    /// The engine id wrapping this key's numeric value.
    fn into_node_id(self) -> (id: taffy::NodeId)
        ensures
            node_id_value(id) == self.id_value(),
    ;
}

impl IntoNodeId for usize {
    open spec fn id_value(&self) -> u64 {
        *self as u64
    }

    fn into_node_id(self) -> (id: taffy::NodeId) {
        node_id_of_key(self)
    }
}

/// Conversion from the engine's node id back to a tree node key.
pub trait IntoNodeKey: Sized {
    /// The numeric value the conversion carries over.
    spec fn key_value(&self) -> u64;

    /// The key wrapping the same numeric value.
    fn into_node_key(self) -> (key: usize)
        requires
            self.key_value() <= usize::MAX,
        ensures
            key as u64 == self.key_value(),
    ;
}

impl IntoNodeKey for taffy::NodeId {
    open spec fn key_value(&self) -> u64 {
        node_id_value(*self)
    }

    fn into_node_key(self) -> (key: usize) {
        key_of_node_id(self)
    }
}

/// Configuration a pass reads from the tree's context.
pub trait TaffyConfig {
    /// Whether the rounding pass runs after the solve.
    fn use_rounding(&self) -> bool;
}

} // verus!
