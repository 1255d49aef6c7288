//! Behaviour of the tree adapter on its own plain-value model: caching,
//! invalidation, dispatch, traversal order, the hidden pass, and the
//! stale-key error.

use compose_taffy::geometry::{
    AvailableSizes, AvailableSpace, KnownDimensions, Layout, LayoutInput, LayoutOutput, PointBits,
    RunMode, SizeBits,
};
use compose_taffy::node::{Display, FlexDirection};
use compose_taffy::tree::{LayoutAlgorithm, LayoutStep};
use compose_taffy::{LayoutError, Style, TaffyConfig, TaffyTree, TaffyTreeView};

fn flex_style() -> Style {
    Style { display: Display::Flex, flex_direction: FlexDirection::Row }
}

fn style(display: Display, flex_direction: FlexDirection) -> Style {
    Style { display, flex_direction }
}

fn perform_layout_input() -> LayoutInput {
    LayoutInput {
        run_mode: RunMode::PerformLayout,
        known_dimensions: KnownDimensions { width: None, height: None },
        available_space: AvailableSizes {
            width: AvailableSpace::MaxContent,
            height: AvailableSpace::MaxContent,
        },
    }
}

fn compute_size_input(width: Option<u32>) -> LayoutInput {
    LayoutInput {
        run_mode: RunMode::ComputeSize,
        known_dimensions: KnownDimensions { width, height: None },
        available_space: AvailableSizes {
            width: AvailableSpace::Definite(100f32.to_bits()),
            height: AvailableSpace::MinContent,
        },
    }
}

fn output_with_width(width: u32) -> LayoutOutput {
    let mut out = LayoutOutput::hidden();
    out.size = SizeBits { width, height: 7 };
    out
}

#[test]
fn config_defaults_and_toggles() {
    assert!(TaffyConfig::new().use_rounding);
    assert!(TaffyConfig::default().use_rounding);
    assert!(!TaffyConfig::new().with_rounding(false).use_rounding);
    let mut config = TaffyConfig::new().with_rounding(false);
    config.enable_rounding();
    assert!(config.use_rounding);
    config.disable_rounding();
    assert!(!config.use_rounding);
}

#[test]
fn cached_result_is_returned_exactly() {
    let mut tree: TaffyTree<()> = TaffyTree::new(TaffyConfig::new(), flex_style());
    let input = perform_layout_input();
    let out = output_with_width(42);
    assert!(matches!(
        tree.begin_child_layout(0, &input),
        LayoutStep::Compute(LayoutAlgorithm::Leaf)
    ));
    tree.finish_child_layout(0, &input, out);
    match tree.begin_child_layout(0, &input) {
        LayoutStep::Cached(cached) => assert_eq!(cached, out),
        LayoutStep::Compute(_) => panic!("expected a cache hit"),
    }
}

#[test]
fn different_inputs_do_not_hit_the_cache() {
    let mut tree: TaffyTree<()> = TaffyTree::new(TaffyConfig::new(), flex_style());
    let stored = compute_size_input(Some(100f32.to_bits()));
    tree.finish_child_layout(0, &stored, output_with_width(1));
    let other_width = compute_size_input(Some(50f32.to_bits()));
    assert!(matches!(tree.begin_child_layout(0, &other_width), LayoutStep::Compute(_)));
    let no_width = compute_size_input(None);
    assert!(matches!(tree.begin_child_layout(0, &no_width), LayoutStep::Compute(_)));
    let full = perform_layout_input();
    assert!(matches!(tree.begin_child_layout(0, &full), LayoutStep::Compute(_)));
}

#[test]
fn hidden_pass_results_are_never_cached() {
    let mut tree: TaffyTree<()> = TaffyTree::new(TaffyConfig::new(), flex_style());
    let mut input = perform_layout_input();
    input.run_mode = RunMode::PerformHiddenLayout;
    assert!(matches!(
        tree.begin_child_layout(0, &input),
        LayoutStep::Compute(LayoutAlgorithm::Hidden)
    ));
    tree.finish_child_layout(0, &input, output_with_width(9));
    assert!(matches!(
        tree.begin_child_layout(0, &input),
        LayoutStep::Compute(LayoutAlgorithm::Hidden)
    ));
}

#[test]
fn style_change_invalidates_cache() {
    let mut tree: TaffyTree<()> = TaffyTree::new(TaffyConfig::new(), flex_style());
    let input = compute_size_input(Some(100f32.to_bits()));
    tree.finish_child_layout(0, &input, output_with_width(64));
    tree.set_style(0, style(Display::Grid, FlexDirection::Row));
    assert!(matches!(tree.begin_child_layout(0, &input), LayoutStep::Compute(_)));
}

#[test]
fn equal_style_keeps_cache_warm() {
    let mut tree: TaffyTree<()> = TaffyTree::new(TaffyConfig::new(), flex_style());
    let input = compute_size_input(Some(100f32.to_bits()));
    let out = output_with_width(64);
    tree.finish_child_layout(0, &input, out);
    tree.set_style(0, flex_style());
    match tree.begin_child_layout(0, &input) {
        LayoutStep::Cached(cached) => assert_eq!(cached, out),
        LayoutStep::Compute(_) => panic!("equal style must not drop the cache"),
    }
}

#[test]
fn mark_dirty_clears_and_is_idempotent() {
    let mut tree: TaffyTree<()> = TaffyTree::new(TaffyConfig::new(), flex_style());
    let input = perform_layout_input();
    tree.finish_child_layout(0, &input, output_with_width(3));
    tree.mark_dirty(0);
    assert!(matches!(tree.begin_child_layout(0, &input), LayoutStep::Compute(_)));
    tree.mark_dirty(0);
    assert!(matches!(tree.begin_child_layout(0, &input), LayoutStep::Compute(_)));
}

#[test]
fn memoized_dispatch_descends_once() {
    let mut tree: TaffyTree<()> = TaffyTree::new(TaffyConfig::new(), flex_style());
    let leaf = tree.add_child(0, flex_style());
    let input = perform_layout_input();
    let mut descents: usize = 0;
    let mut results: Vec<LayoutOutput> = Vec::new();
    for _ in 0..2 {
        let out = match tree.begin_child_layout(leaf, &input) {
            LayoutStep::Cached(out) => out,
            LayoutStep::Compute(_) => {
                descents += 1;
                let out = output_with_width(11);
                tree.finish_child_layout(leaf, &input, out);
                out
            }
        };
        results.push(out);
    }
    assert_eq!(descents, 1);
    assert_eq!(results[0], results[1]);
}

#[test]
fn children_keep_insertion_order() {
    let mut tree: TaffyTree<()> = TaffyTree::new(TaffyConfig::new(), flex_style());
    let c1 = tree.add_child(0, flex_style());
    let c2 = tree.add_child(0, flex_style());
    let c3 = tree.add_child(0, flex_style());
    assert_eq!(tree.child_ids(0), vec![c1, c2, c3]);
    assert_eq!(tree.child_count(0), 3);
    assert_eq!(tree.get_child_id(0, 0), c1);
    assert_eq!(tree.get_child_id(0, 1), c2);
    assert_eq!(tree.get_child_id(0, 2), c3);
    let view = TaffyTreeView::new(&tree);
    assert_eq!(view.child_ids(0), vec![c1, c2, c3]);
}

#[test]
fn removed_keys_stay_stale() {
    let mut tree: TaffyTree<()> = TaffyTree::new(TaffyConfig::new(), flex_style());
    let c1 = tree.add_child(0, flex_style());
    let c2 = tree.add_child(0, flex_style());
    tree.remove(c1);
    assert!(!tree.contains(c1));
    assert!(tree.contains(c2));
    assert_eq!(tree.child_ids(0), vec![c2]);
    let c3 = tree.add_child(0, flex_style());
    assert_ne!(c3, c1);
    assert_eq!(tree.child_ids(0), vec![c2, c3]);
}

#[test]
fn stale_key_is_rejected_without_mutation() {
    let mut tree: TaffyTree<()> = TaffyTree::new(TaffyConfig::new(), flex_style());
    let stale = tree.add_child(0, flex_style());
    tree.remove(stale);
    assert_eq!(tree.validate_pass_root(stale), Err(LayoutError::InvalidInputNode(stale)));
    assert_eq!(tree.validate_pass_root(0), Ok(()));

    let layout_before = *tree.get_unrounded_layout(0);
    let solver_ran = std::cell::Cell::new(false);
    let result = tree.compute_layout_with(
        stale,
        |_t: &mut TaffyTree<()>, _k: usize| solver_ran.set(true),
        |_t: &mut TaffyTree<()>, _k: usize| solver_ran.set(true),
    );
    assert_eq!(result, Err(LayoutError::InvalidInputNode(stale)));
    assert!(!solver_ran.get());
    assert_eq!(*tree.get_unrounded_layout(0), layout_before);
}

#[test]
fn pass_runs_solve_then_round_when_rounding() {
    let mut tree: TaffyTree<()> = TaffyTree::new(TaffyConfig::new(), flex_style());
    let steps: std::cell::RefCell<Vec<&'static str>> = std::cell::RefCell::new(Vec::new());
    let result = tree.compute_layout(
        |_t: &mut TaffyTree<()>, _k: usize| steps.borrow_mut().push("solve"),
        |_t: &mut TaffyTree<()>, _k: usize| steps.borrow_mut().push("round"),
    );
    assert_eq!(result, Ok(()));
    assert_eq!(*steps.borrow(), vec!["solve", "round"]);
}

#[test]
fn pass_skips_rounding_when_disabled() {
    let config = TaffyConfig::new().with_rounding(false);
    let mut tree: TaffyTree<()> = TaffyTree::new(config, flex_style());
    let steps: std::cell::RefCell<Vec<&'static str>> = std::cell::RefCell::new(Vec::new());
    let result = tree.compute_layout(
        |_t: &mut TaffyTree<()>, _k: usize| steps.borrow_mut().push("solve"),
        |_t: &mut TaffyTree<()>, _k: usize| steps.borrow_mut().push("round"),
    );
    assert_eq!(result, Ok(()));
    assert_eq!(*steps.borrow(), vec!["solve"]);
}

#[test]
fn hidden_pass_zeroes_the_whole_subtree() {
    let mut tree: TaffyTree<()> = TaffyTree::new(TaffyConfig::new(), flex_style());
    let child = tree.add_child(0, style(Display::Grid, FlexDirection::Row));
    let grandchild = tree.add_child(child, flex_style());
    let mut committed = Layout::new();
    committed.order = 2;
    committed.location = PointBits { x: 10f32.to_bits(), y: 20f32.to_bits() };
    committed.size = SizeBits { width: 30f32.to_bits(), height: 40f32.to_bits() };
    for key in [0, child, grandchild] {
        tree.set_unrounded_layout(key, &committed);
    }
    let input = perform_layout_input();
    tree.finish_child_layout(child, &input, output_with_width(5));

    tree.perform_hidden_layout(0);
    for key in [0, child, grandchild] {
        assert_eq!(*tree.get_unrounded_layout(key), Layout::new());
    }
    // the caches were dropped with the geometry
    assert!(matches!(tree.begin_child_layout(child, &input), LayoutStep::Compute(_)));
}

#[test]
fn hidden_pass_leaves_siblings_alone() {
    let mut tree: TaffyTree<()> = TaffyTree::new(TaffyConfig::new(), flex_style());
    let hidden = tree.add_child(0, style(Display::Hidden, FlexDirection::Row));
    let visible = tree.add_child(0, flex_style());
    let mut committed = Layout::new();
    committed.size = SizeBits { width: 30f32.to_bits(), height: 40f32.to_bits() };
    tree.set_unrounded_layout(hidden, &committed);
    tree.set_unrounded_layout(visible, &committed);

    tree.perform_hidden_layout(hidden);
    assert_eq!(*tree.get_unrounded_layout(hidden), Layout::new());
    assert_eq!(*tree.get_unrounded_layout(visible), committed);
}

#[test]
fn dispatch_selects_by_display_and_children() {
    let mut tree: TaffyTree<()> = TaffyTree::new(TaffyConfig::new(), flex_style());
    let block = tree.add_child(0, style(Display::Block, FlexDirection::Row));
    let flow_root = tree.add_child(0, style(Display::FlowRoot, FlexDirection::Row));
    let flex = tree.add_child(0, flex_style());
    let grid = tree.add_child(0, style(Display::Grid, FlexDirection::Row));
    let hidden = tree.add_child(0, style(Display::Hidden, FlexDirection::Row));
    for container in [block, flow_root, flex, grid] {
        tree.add_child(container, flex_style());
    }
    tree.add_child(hidden, flex_style());
    let leaf = tree.add_child(0, style(Display::Block, FlexDirection::Row));

    let input = perform_layout_input();
    let algorithm = |tree: &TaffyTree<()>, key: usize| match tree.begin_child_layout(key, &input) {
        LayoutStep::Compute(algorithm) => algorithm,
        LayoutStep::Cached(_) => panic!("nothing was cached"),
    };
    assert_eq!(algorithm(&tree, block), LayoutAlgorithm::Block);
    assert_eq!(algorithm(&tree, flow_root), LayoutAlgorithm::Block);
    assert_eq!(algorithm(&tree, flex), LayoutAlgorithm::Flexbox);
    assert_eq!(algorithm(&tree, grid), LayoutAlgorithm::Grid);
    assert_eq!(algorithm(&tree, hidden), LayoutAlgorithm::Hidden);
    assert_eq!(algorithm(&tree, leaf), LayoutAlgorithm::Leaf);
}

#[test]
fn debug_labels_classify_nodes() {
    let mut tree: TaffyTree<()> = TaffyTree::new(TaffyConfig::new(), flex_style());
    let block = tree.add_child(0, style(Display::Block, FlexDirection::Row));
    let flow_root = tree.add_child(0, style(Display::FlowRoot, FlexDirection::Row));
    let row = tree.add_child(0, style(Display::Flex, FlexDirection::RowReverse));
    let column = tree.add_child(0, style(Display::Flex, FlexDirection::Column));
    let grid = tree.add_child(0, style(Display::Grid, FlexDirection::Row));
    let hidden = tree.add_child(0, style(Display::Hidden, FlexDirection::Row));
    let leaf = tree.add_child(0, style(Display::Grid, FlexDirection::Row));
    for container in [block, flow_root, row, column, grid, hidden] {
        tree.add_child(container, flex_style());
    }

    assert_eq!(tree.get_debug_label(0), "FLEX ROW");
    assert_eq!(tree.get_debug_label(block), "BLOCK");
    assert_eq!(tree.get_debug_label(flow_root), "FLOW-ROOT");
    assert_eq!(tree.get_debug_label(row), "FLEX ROW");
    assert_eq!(tree.get_debug_label(column), "FLEX COL");
    assert_eq!(tree.get_debug_label(grid), "GRID");
    assert_eq!(tree.get_debug_label(hidden), "NONE");
    assert_eq!(tree.get_debug_label(leaf), "LEAF");
    let view = TaffyTreeView::new(&tree);
    assert_eq!(view.get_debug_label(column), "FLEX COL");
}

#[test]
fn final_layout_read_follows_rounding_config() {
    let mut unrounded = Layout::new();
    unrounded.size = SizeBits { width: 10.4f32.to_bits(), height: 10.4f32.to_bits() };
    let mut rounded = Layout::new();
    rounded.size = SizeBits { width: 10f32.to_bits(), height: 10f32.to_bits() };

    let mut rounding_tree: TaffyTree<()> = TaffyTree::new(TaffyConfig::new(), flex_style());
    rounding_tree.set_unrounded_layout(0, &unrounded);
    rounding_tree.set_final_layout(0, &rounded);
    assert_eq!(*rounding_tree.get_final_layout(0), rounded);
    let view = TaffyTreeView::new(&rounding_tree);
    assert_eq!(*view.get_final_layout(0), rounded);

    let config = TaffyConfig::new().with_rounding(false);
    let mut raw_tree: TaffyTree<()> = TaffyTree::new(config, flex_style());
    raw_tree.set_unrounded_layout(0, &unrounded);
    raw_tree.set_final_layout(0, &rounded);
    assert_eq!(*raw_tree.get_final_layout(0), unrounded);
}

#[test]
fn node_context_reaches_leaf_measurement() {
    let mut tree: TaffyTree<&'static str> = TaffyTree::new(TaffyConfig::new(), flex_style());
    let leaf = tree.add_child_with_context(0, flex_style(), "measured text");
    assert_eq!(tree.get_node_context(leaf), Some(&"measured text"));
    assert_eq!(tree.get_node_context(0), None);
}

#[test]
fn distinct_input_classes_occupy_distinct_slots() {
    let mut tree: TaffyTree<()> = TaffyTree::new(TaffyConfig::new(), flex_style());
    // a full-layout result and measurements under different known
    // dimensions live in different slots and do not evict one another
    let full = perform_layout_input();
    let with_width = compute_size_input(Some(100f32.to_bits()));
    let without_width = compute_size_input(None);
    tree.finish_child_layout(0, &full, output_with_width(1));
    tree.finish_child_layout(0, &with_width, output_with_width(2));
    tree.finish_child_layout(0, &without_width, output_with_width(3));
    for (input, width) in [(&full, 1), (&with_width, 2), (&without_width, 3)] {
        match tree.begin_child_layout(0, input) {
            LayoutStep::Cached(cached) => assert_eq!(cached.size.width, width),
            LayoutStep::Compute(_) => panic!("stored entry was evicted"),
        }
    }
}

#[test]
fn payload_tracks_style_and_cache() {
    let mut node: compose_taffy::LayoutNode<u8> = compose_taffy::LayoutNode::new(flex_style());
    assert_eq!(*node.get_style(), flex_style());
    assert_eq!(node.get_display(), Display::Flex);
    assert_eq!(node.get_node_context(), None);

    let input = perform_layout_input();
    let key = compose_taffy::cache::CacheKey {
        known_dimensions: input.known_dimensions,
        available_space: input.available_space,
        run_mode: input.run_mode,
    };
    assert_eq!(node.cache_get(&key), None);
    node.cache_store(key, output_with_width(8));
    assert_eq!(node.cache_get(&key), Some(output_with_width(8)));

    // an equal style is a no-op, a different one clears the cache
    node.set_style(flex_style());
    assert_eq!(node.cache_get(&key), Some(output_with_width(8)));
    node.set_style(style(Display::Block, FlexDirection::Row));
    assert_eq!(node.cache_get(&key), None);

    let with_context = compose_taffy::LayoutNode::with_context(flex_style(), 7u8);
    assert_eq!(with_context.get_node_context(), Some(&7u8));
}
