//! An adapter that lets an arena-based composition tree be laid out by a
//! constraint-based box-layout engine, with a per-node measurement cache
//! that is invalidated precisely when its inputs change.

pub mod cache;
pub mod geometry;
pub mod impls;
pub mod layout;
pub mod node;
pub mod traits;
pub mod tree;

pub use impls::TaffyConfig;
pub use layout::{LayoutError, LayoutResult};
pub use node::{LayoutNode, Style};
pub use tree::{TaffyTree, TaffyTreeView};

