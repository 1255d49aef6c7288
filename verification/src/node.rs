//! The per-node layout payload: style, committed geometry, cache, and an
//! optional user context for leaf measurement.

use vstd::prelude::*;

use crate::cache::{spec_cache_empty, spec_cache_get, spec_cache_store, Cache, CacheEntry, CacheKey};
use crate::geometry::{Layout, LayoutOutput};

verus! {

/// Which layout algorithm lays out a node's children.
#[derive(Debug, Clone, Copy, PartialEq, Eq, Structural)]
pub enum Display {
    /// Block layout.
    Block,
    /// Block layout in a new formatting context of its own.
    FlowRoot,
    /// Flexbox layout.
    Flex,
    /// CSS Grid layout.
    Grid,
    /// The node and its whole subtree are hidden and take no space.
    Hidden,
}

/// The main axis of a flexbox container.
#[derive(Debug, Clone, Copy, PartialEq, Eq, Structural)]
pub enum FlexDirection {
    /// Lay items out along +x.
    Row,
    /// Lay items out along +y.
    Column,
    /// Lay items out along -x.
    RowReverse,
    /// Lay items out along -y.
    ColumnReverse,
}

/// The box-model configuration of one node, reduced to what the adapter
/// itself reads: the display mode that picks the layout algorithm, and
/// the flex direction that describes a flexbox container. Everything
/// else in a node's styling is input to the solver alone and stays with
/// the caller that owns the node.
#[derive(Debug, Clone, Copy, PartialEq, Eq, Structural)]
pub struct Style {
    /// Which algorithm lays out the node's children.
    pub display: Display,
    /// The main axis, read when the node is a flexbox container.
    pub flex_direction: FlexDirection,
}

impl Default for Style {
    /// Flexbox in row direction, as the engine defaults.
    fn default() -> (s: Self)
        ensures
            s == (Style { display: Display::Flex, flex_direction: FlexDirection::Row }),
    {
        Style { display: Display::Flex, flex_direction: FlexDirection::Row }
    }
}

/// The fields of a layout payload, for contracts.
pub struct LayoutNodeView<T> {
    /// The node's box-model configuration.
    pub style: Style,
    /// The last geometry the solver committed, at sub-pixel precision.
    pub unrounded_layout: Layout,
    /// The last geometry the rounding pass committed.
    pub final_layout: Layout,
    /// The slots of the node's memo table.
    pub cache: Seq<Option<CacheEntry>>,
    /// The optional user payload handed to leaf measurement.
    pub context: Option<T>,
}

/// One node's layout payload. It is created when the node is given a
/// style and lives exactly as long as the node; geometry is written only
/// by the solver and the rounding pass, and the cache is cleared
/// whenever the style changes or the node is marked dirty.
#[derive(Debug)]
pub struct LayoutNode<T> {
    /// The node's box-model configuration.
    style: Style,
    /// The last geometry the solver committed, at sub-pixel precision.
    unrounded_layout: Layout,
    /// The last geometry the rounding pass committed.
    final_layout: Layout,
    /// The node's memo table of layout results.
    cache: Cache,
    /// The optional user payload handed to leaf measurement.
    context: Option<T>,
}

impl<T> View for LayoutNode<T> {
    type V = LayoutNodeView<T>;

    closed spec fn view(&self) -> LayoutNodeView<T> {
        LayoutNodeView {
            style: self.style,
            unrounded_layout: self.unrounded_layout,
            final_layout: self.final_layout,
            cache: self.cache@,
            context: self.context,
        }
    }
}

impl<T> LayoutNodeView<T> {
    /// The same payload with another style.
    pub open spec fn with_style(self, style: Style) -> Self {
        LayoutNodeView {
            style,
            unrounded_layout: self.unrounded_layout,
            final_layout: self.final_layout,
            cache: self.cache,
            context: self.context,
        }
    }

    /// The same payload with other cache contents.
    pub open spec fn with_cache(self, cache: Seq<Option<CacheEntry>>) -> Self {
        LayoutNodeView {
            style: self.style,
            unrounded_layout: self.unrounded_layout,
            final_layout: self.final_layout,
            cache,
            context: self.context,
        }
    }

    /// The same payload with other solver geometry.
    pub open spec fn with_unrounded_layout(self, layout: Layout) -> Self {
        LayoutNodeView {
            style: self.style,
            unrounded_layout: layout,
            final_layout: self.final_layout,
            cache: self.cache,
            context: self.context,
        }
    }

    /// The same payload with other rounded geometry.
    pub open spec fn with_final_layout(self, layout: Layout) -> Self {
        LayoutNodeView {
            style: self.style,
            unrounded_layout: self.unrounded_layout,
            final_layout: layout,
            cache: self.cache,
            context: self.context,
        }
    }
}

/// The slots of a cache with nothing stored.
pub open spec fn spec_empty_cache() -> Seq<Option<CacheEntry>> {
    Seq::new(crate::cache::CACHE_SLOTS as nat, |i: int| None)
}

/// What setting a style leaves of a payload: an equal style changes
/// nothing, a different one replaces the style and empties the cache.
pub open spec fn spec_set_style_data<T>(d: LayoutNodeView<T>, style: Style) -> LayoutNodeView<T> {
    if d.style == style {
        d
    } else {
        d.with_style(style).with_cache(spec_empty_cache())
    }
}

/// A payload as it is first created: the given style and context, zero
/// geometry, and an empty cache.
pub open spec fn spec_fresh_node<T>(style: Style, context: Option<T>) -> LayoutNodeView<T> {
    LayoutNodeView {
        style,
        unrounded_layout: Layout::with_order_spec(0),
        final_layout: Layout::with_order_spec(0),
        cache: spec_empty_cache(),
        context,
    }
}

impl<T> LayoutNode<T> {
    /// A fresh payload with the given style and no context.
    pub fn new(style: Style) -> (n: Self)
        ensures
            n@ == spec_fresh_node::<T>(style, None),
    {
        let n = LayoutNode {
            style,
            unrounded_layout: Layout::new(),
            final_layout: Layout::new(),
            cache: Cache::new(),
            context: None,
        };
        proof {
            assert(n@.cache =~= spec_fresh_node::<T>(style, None).cache);
        }
        n
    }

    /// A fresh payload with the given style and user context.
    pub fn with_context(style: Style, context: T) -> (n: Self)
        ensures
            n@ == spec_fresh_node::<T>(style, Some(context)),
    {
        let n = LayoutNode {
            style,
            unrounded_layout: Layout::new(),
            final_layout: Layout::new(),
            cache: Cache::new(),
            context: Some(context),
        };
        proof {
            assert(n@.cache =~= spec_fresh_node::<T>(style, n@.context).cache);
        }
        n
    }

    /// The node's style.
    pub fn get_style(&self) -> (r: &Style)
        ensures
            *r == self@.style,
    {
        &self.style
    }

    /// Replace the node's style.
    ///
    /// Setting a different style drops every cached result, since each
    /// was computed for the old style; setting an equal style leaves the
    /// payload untouched, so the next pass can still hit the cache.
    pub fn set_style(&mut self, style: Style)
        ensures
            final(self)@.style == style,
            final(self)@.unrounded_layout == old(self)@.unrounded_layout,
            final(self)@.final_layout == old(self)@.final_layout,
            final(self)@.context == old(self)@.context,
            old(self)@.style == style ==> final(self)@ == old(self)@,
            old(self)@.style != style ==> spec_cache_empty(final(self)@.cache),
    {
        if self.style != style {
            self.style = style;
            self.cache.clear();
        }
    }

    /// Drop every cached result, whatever made the node stale. Running
    /// it again changes nothing further.
    pub fn mark_dirty(&mut self)
        ensures
            final(self)@.style == old(self)@.style,
            final(self)@.unrounded_layout == old(self)@.unrounded_layout,
            final(self)@.final_layout == old(self)@.final_layout,
            final(self)@.context == old(self)@.context,
            spec_cache_empty(final(self)@.cache),
    {
        self.cache.clear();
    }

    /// The display mode that picks the layout algorithm.
    pub fn get_display(&self) -> (d: Display)
        ensures
            d == self@.style.display,
    {
        self.style.display
    }

    /// A borrow of the user context, if the node carries one.
    pub fn get_node_context(&self) -> (r: Option<&T>)
        ensures
            r is Some <==> self@.context is Some,
            r matches Some(c) ==> *c == self@.context->0,
    {
        self.context.as_ref()
    }

    /// The geometry the solver last committed.
    pub fn get_unrounded_layout(&self) -> (r: &Layout)
        ensures
            *r == self@.unrounded_layout,
    {
        &self.unrounded_layout
    }

    /// Commit solver geometry; only the solver calls this.
    pub fn set_unrounded_layout(&mut self, layout: &Layout)
        ensures
            final(self)@.style == old(self)@.style,
            final(self)@.unrounded_layout == *layout,
            final(self)@.final_layout == old(self)@.final_layout,
            final(self)@.cache == old(self)@.cache,
            final(self)@.context == old(self)@.context,
    {
        self.unrounded_layout = *layout;
    }

    /// The geometry the rounding pass last committed.
    pub fn get_final_layout(&self) -> (r: &Layout)
        ensures
            *r == self@.final_layout,
    {
        &self.final_layout
    }

    /// Commit rounded geometry; only the rounding pass calls this.
    pub fn set_final_layout(&mut self, layout: &Layout)
        ensures
            final(self)@.style == old(self)@.style,
            final(self)@.unrounded_layout == old(self)@.unrounded_layout,
            final(self)@.final_layout == *layout,
            final(self)@.cache == old(self)@.cache,
            final(self)@.context == old(self)@.context,
    {
        self.final_layout = *layout;
    }

    /// Exact-match lookup in the node's cache.
    pub fn cache_get(&self, key: &CacheKey) -> (r: Option<LayoutOutput>)
        ensures
            r == spec_cache_get(self@.cache, *key),
    {
        self.cache.get(key)
    }

    /// Insert or overwrite a cached result.
    pub fn cache_store(&mut self, key: CacheKey, output: LayoutOutput)
        ensures
            final(self)@.style == old(self)@.style,
            final(self)@.unrounded_layout == old(self)@.unrounded_layout,
            final(self)@.final_layout == old(self)@.final_layout,
            final(self)@.cache == spec_cache_store(old(self)@.cache, key, output),
            final(self)@.context == old(self)@.context,
    {
        self.cache.store(key, output);
    }

    /// Drop every cached result.
    pub fn cache_clear(&mut self)
        ensures
            final(self)@.style == old(self)@.style,
            final(self)@.unrounded_layout == old(self)@.unrounded_layout,
            final(self)@.final_layout == old(self)@.final_layout,
            final(self)@.context == old(self)@.context,
            spec_cache_empty(final(self)@.cache),
    {
        self.cache.clear();
    }

    /// The style as the solver's container-level view.
    pub fn get_core_container_style(&self) -> (r: &Style)
        ensures
            *r == self@.style,
    {
        &self.style
    }

    /// The style as a block container's view.
    pub fn get_block_container_style(&self) -> (r: &Style)
        ensures
            *r == self@.style,
    {
        &self.style
    }

    /// The style as a block item's view.
    pub fn get_block_item_style(&self) -> (r: &Style)
        ensures
            *r == self@.style,
    {
        &self.style
    }

    /// The style as a flexbox container's view.
    pub fn get_flexbox_container_style(&self) -> (r: &Style)
        ensures
            *r == self@.style,
    {
        &self.style
    }

    /// The style as a flexbox item's view.
    pub fn get_flexbox_item_style(&self) -> (r: &Style)
        ensures
            *r == self@.style,
    {
        &self.style
    }

    /// The style as a grid container's view.
    pub fn get_grid_container_style(&self) -> (r: &Style)
        ensures
            *r == self@.style,
    {
        &self.style
    }

    /// The style as a grid item's view.
    pub fn get_grid_item_style(&self) -> (r: &Style)
        ensures
            *r == self@.style,
    {
        &self.style
    }
}

} // verus!
