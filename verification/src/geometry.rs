//! Plain-value geometry carried through the adapter.
//!
//! The adapter never computes with geometry. It stores the values the
//! solver commits, compares layout inputs for exact equality when it
//! consults a node's cache, and hands the values back out. A scalar is
//! therefore carried as the raw bit pattern of the engine's 32-bit
//! float: an opaque `u32` that supports exactly the operations the
//! adapter needs, storage and equality.

use vstd::prelude::*;

verus! {

/// One geometry scalar: the raw bit pattern of the engine's 32-bit float.
pub type ScalarBits = u32;

/// A width/height pair of scalars.
#[derive(Debug, Clone, Copy, PartialEq, Eq, Structural)]
pub struct SizeBits {
    pub width: ScalarBits,
    pub height: ScalarBits,
}

impl SizeBits {
    /// The zero size (the bit pattern of `0.0` is all zeros).
    pub fn zero() -> (s: Self)
        ensures
            s == (SizeBits { width: 0, height: 0 }),
    {
        SizeBits { width: 0, height: 0 }
    }
}

/// A point: an x/y pair of scalars.
#[derive(Debug, Clone, Copy, PartialEq, Eq, Structural)]
pub struct PointBits {
    pub x: ScalarBits,
    pub y: ScalarBits,
}

impl PointBits {
    /// The origin.
    pub fn zero() -> (p: Self)
        ensures
            p == (PointBits { x: 0, y: 0 }),
    {
        PointBits { x: 0, y: 0 }
    }
}

/// A per-edge set of scalars (borders, padding, margins, overflow rectangles).
#[derive(Debug, Clone, Copy, PartialEq, Eq, Structural)]
pub struct RectBits {
    pub left: ScalarBits,
    pub right: ScalarBits,
    pub top: ScalarBits,
    pub bottom: ScalarBits,
}

impl RectBits {
    /// The all-zero rectangle.
    pub fn zero() -> (r: Self)
        ensures
            r == (RectBits { left: 0, right: 0, top: 0, bottom: 0 }),
    {
        RectBits { left: 0, right: 0, top: 0, bottom: 0 }
    }
}

/// A width/height pair where either axis may still be unresolved.
///
/// An axis that an ancestor has already resolved carries `Some(bits)`;
/// an axis the node must still size itself carries `None`.
#[derive(Debug, Clone, Copy, PartialEq, Eq)]
pub struct KnownDimensions {
    pub width: Option<ScalarBits>,
    pub height: Option<ScalarBits>,
}

impl KnownDimensions {
    /// Neither axis resolved.
    pub fn none() -> (k: Self)
        ensures
            k == (KnownDimensions { width: None, height: None }),
    {
        KnownDimensions { width: None, height: None }
    }
}

/// The space a layout computation may fill along one axis.
#[derive(Debug, Clone, Copy, PartialEq, Eq, Structural)]
pub enum AvailableSpace {
    /// A definite number of pixels.
    Definite(ScalarBits),
    /// Indefinite: lay out under a min-content constraint.
    MinContent,
    /// Indefinite: lay out under a max-content constraint.
    MaxContent,
}

/// The available space on both axes.
#[derive(Debug, Clone, Copy, PartialEq, Eq, Structural)]
pub struct AvailableSizes {
    pub width: AvailableSpace,
    pub height: AvailableSpace,
}

/// What a layout computation is asked to produce.
#[derive(Debug, Clone, Copy, PartialEq, Eq, Structural)]
pub enum RunMode {
    /// Compute a full layout and commit it.
    PerformLayout,
    /// Only determine the node's size.
    ComputeSize,
    /// An ancestor is hidden: produce a zero-size layout for the subtree.
    PerformHiddenLayout,
}

/// The first and last baselines of a node, when it has any.
#[derive(Debug, Clone, Copy, PartialEq, Eq)]
pub struct Baselines {
    pub first: Option<ScalarBits>,
    pub last: Option<ScalarBits>,
}

impl Baselines {
    /// No baselines.
    pub fn none() -> (b: Self)
        ensures
            b == (Baselines { first: None, last: None }),
    {
        Baselines { first: None, last: None }
    }
}

/// A margin that later siblings may collapse with.
#[derive(Debug, Clone, Copy, PartialEq, Eq, Structural)]
pub struct MarginSet {
    pub positive: ScalarBits,
    pub negative: ScalarBits,
}

impl MarginSet {
    /// The zero margin set.
    pub fn zero() -> (m: Self)
        ensures
            m == (MarginSet { positive: 0, negative: 0 }),
    {
        MarginSet { positive: 0, negative: 0 }
    }
}

/// Committed per-node geometry: position, size and box properties as the
/// solver resolved them.
#[derive(Debug, Clone, Copy, PartialEq, Eq, Structural)]
pub struct Layout {
    /// Paint order of the node relative to its siblings.
    pub order: u32,
    /// The top-left corner of the node, relative to its parent.
    pub location: PointBits,
    /// The width and height of the node.
    pub size: SizeBits,
    /// The scrollable overflow rectangle of the node's content.
    pub scrollable_overflow_rect: RectBits,
    /// The size reserved for scrollbars on each axis.
    pub scrollbar_size: SizeBits,
    /// The resolved border thickness of each edge.
    pub border: RectBits,
    /// The resolved padding of each edge.
    pub padding: RectBits,
    /// The resolved margin of each edge.
    pub margin: RectBits,
}

impl Layout {
    /// The all-zero layout a node carries before any pass has run.
    pub fn new() -> (l: Self)
        ensures
            l == Layout::with_order_spec(0),
    {
        Layout {
            order: 0,
            location: PointBits { x: 0, y: 0 },
            size: SizeBits { width: 0, height: 0 },
            scrollable_overflow_rect: RectBits { left: 0, right: 0, top: 0, bottom: 0 },
            scrollbar_size: SizeBits { width: 0, height: 0 },
            border: RectBits { left: 0, right: 0, top: 0, bottom: 0 },
            padding: RectBits { left: 0, right: 0, top: 0, bottom: 0 },
            margin: RectBits { left: 0, right: 0, top: 0, bottom: 0 },
        }
    }

    /// A zero layout with the given paint order.
    pub open spec fn with_order_spec(order: u32) -> Layout {
        Layout {
            order,
            location: PointBits { x: 0, y: 0 },
            size: SizeBits { width: 0, height: 0 },
            scrollable_overflow_rect: RectBits { left: 0, right: 0, top: 0, bottom: 0 },
            scrollbar_size: SizeBits { width: 0, height: 0 },
            border: RectBits { left: 0, right: 0, top: 0, bottom: 0 },
            padding: RectBits { left: 0, right: 0, top: 0, bottom: 0 },
            margin: RectBits { left: 0, right: 0, top: 0, bottom: 0 },
        }
    }

    /// A zero layout with the given paint order.
    pub fn with_order(order: u32) -> (l: Self)
        ensures
            l == Layout::with_order_spec(order),
    {
        Layout {
            order,
            location: PointBits { x: 0, y: 0 },
            size: SizeBits { width: 0, height: 0 },
            scrollable_overflow_rect: RectBits { left: 0, right: 0, top: 0, bottom: 0 },
            scrollbar_size: SizeBits { width: 0, height: 0 },
            border: RectBits { left: 0, right: 0, top: 0, bottom: 0 },
            padding: RectBits { left: 0, right: 0, top: 0, bottom: 0 },
            margin: RectBits { left: 0, right: 0, top: 0, bottom: 0 },
        }
    }
}

/// What one layout computation returns to the computation above it.
#[derive(Debug, Clone, Copy, PartialEq, Eq)]
pub struct LayoutOutput {
    /// The size of the node.
    pub size: SizeBits,
    /// The scrollable overflow rectangle of the node's content.
    pub scrollable_overflow_rect: RectBits,
    /// The node's baselines, when it has any.
    pub baselines: Baselines,
    /// The top margin later block-layout siblings may collapse with.
    pub top_margin: MarginSet,
    /// The bottom margin later block-layout siblings may collapse with.
    pub bottom_margin: MarginSet,
    /// Whether block-layout margins may collapse straight through this node.
    pub margins_can_collapse_through: bool,
}

impl LayoutOutput {
    /// The all-zero output produced for hidden nodes.
    pub open spec fn hidden_spec() -> LayoutOutput {
        LayoutOutput {
            size: SizeBits { width: 0, height: 0 },
            scrollable_overflow_rect: RectBits { left: 0, right: 0, top: 0, bottom: 0 },
            baselines: Baselines { first: None, last: None },
            top_margin: MarginSet { positive: 0, negative: 0 },
            bottom_margin: MarginSet { positive: 0, negative: 0 },
            margins_can_collapse_through: false,
        }
    }

    /// The all-zero output produced for hidden nodes.
    pub fn hidden() -> (o: Self)
        ensures
            o == LayoutOutput::hidden_spec(),
    {
        LayoutOutput {
            size: SizeBits { width: 0, height: 0 },
            scrollable_overflow_rect: RectBits { left: 0, right: 0, top: 0, bottom: 0 },
            baselines: Baselines { first: None, last: None },
            top_margin: MarginSet { positive: 0, negative: 0 },
            bottom_margin: MarginSet { positive: 0, negative: 0 },
            margins_can_collapse_through: false,
        }
    }
}

/// Everything a parent hands down into one layout computation that the
/// adapter itself reads: the run mode, and the cache key parts.
#[derive(Debug, Clone, Copy, PartialEq, Eq)]
pub struct LayoutInput {
    /// What the computation is asked to produce.
    pub run_mode: RunMode,
    /// Dimensions already resolved by an ancestor.
    pub known_dimensions: KnownDimensions,
    /// The space the computation may fill.
    pub available_space: AvailableSizes,
}

} // verus!
