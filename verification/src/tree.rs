//! The layout tree: an arena of nodes addressed by stable keys, each
//! carrying a layout payload, together with the traversal, cache and
//! dispatch operations a box-layout solver drives a pass through.
//!
//! Keys are indices into the arena and are never reused: a removed
//! node's slot stays vacant, so a stale key is recognised rather than
//! silently re-bound. Children are recorded in insertion order, and a
//! child is always created after its parent, so every child key is
//! strictly greater than its parent's; recursion over a subtree
//! terminates by that ordering.

use vstd::prelude::*;

use crate::cache::{spec_cache_get, spec_cache_store, CacheKey};
use crate::geometry::{Layout, LayoutInput, LayoutOutput, RunMode};
use crate::impls::TaffyConfig;
use crate::node::{
    spec_empty_cache, spec_fresh_node, spec_set_style_data, Display, FlexDirection, LayoutNode,
    LayoutNodeView, Style,
};

verus! {

/// One node of the tree, for contracts: its parent key, its children in
/// insertion order, and its layout payload.
pub struct NodeView<T> {
    /// The key of the node's parent; the root records itself.
    pub parent: usize,
    /// The node's children, in insertion order.
    pub children: Seq<usize>,
    /// The node's layout payload.
    pub data: LayoutNodeView<T>,
}

/// The whole tree, for contracts: the pass configuration and the arena,
/// one entry per key, vacant where a node was removed.
pub struct TreeView<T> {
    /// The pass configuration.
    pub config: TaffyConfig,
    /// The arena; a key is an index into this sequence.
    pub nodes: Seq<Option<NodeView<T>>>,
}

/// Whether `k` is the key of a node that is present in the tree.
pub open spec fn spec_live<T>(t: TreeView<T>, k: int) -> bool {
    0 <= k < t.nodes.len() && t.nodes[k] is Some
}

/// The node stored under a live key.
pub open spec fn spec_node<T>(t: TreeView<T>, k: int) -> NodeView<T> {
    t.nodes[k]->0
}

/// The `i`th child edge of node `k` is sound: the child key is greater
/// than `k`, in bounds, live, and records `k` as its parent.
pub open spec fn child_edge_ok<T>(t: TreeView<T>, k: int, i: int) -> bool {
    let c = spec_node(t, k).children[i] as int;
    &&& k < c < t.nodes.len()
    &&& t.nodes[c] is Some
    &&& spec_node(t, c).parent as int == k
}

/// Node `k`'s edges are sound: every child edge holds, no child is
/// recorded twice, and a non-root node is recorded among the children
/// of its (earlier, live) parent.
pub open spec fn node_ok<T>(t: TreeView<T>, k: int) -> bool {
    &&& forall|i: int|
        0 <= i < spec_node(t, k).children.len() ==> #[trigger] child_edge_ok(t, k, i)
    &&& forall|i: int, j: int|
        0 <= i < j < spec_node(t, k).children.len() ==> spec_node(t, k).children[i] != spec_node(
            t,
            k,
        ).children[j]
    &&& k != 0 ==> {
        let p = spec_node(t, k).parent as int;
        &&& p < k
        &&& t.nodes[p] is Some
        &&& spec_node(t, p).children.contains(k as usize)
    }
}

/// The tree is well formed: the root is live under key zero and every
/// live node's edges are sound.
pub open spec fn spec_tree_wf<T>(t: TreeView<T>) -> bool {
    &&& 1 <= t.nodes.len() <= usize::MAX as nat + 1
    &&& t.nodes[0] is Some
    &&& forall|k: int| 0 <= k < t.nodes.len() && t.nodes[k] is Some ==> #[trigger] node_ok(t, k)
}

/// The tree with node `k`'s payload replaced and all else unchanged.
pub open spec fn spec_update_data<T>(t: TreeView<T>, k: int, d: LayoutNodeView<T>) -> TreeView<
    T,
> {
    TreeView {
        config: t.config,
        nodes: t.nodes.update(
            k,
            Some(
                NodeView {
                    parent: spec_node(t, k).parent,
                    children: spec_node(t, k).children,
                    data: d,
                },
            ),
        ),
    }
}

/// Replacing a payload disturbs no edge, so well-formedness survives.
pub proof fn lemma_wf_update_data<T>(t: TreeView<T>, k: int, d: LayoutNodeView<T>)
    requires
        spec_tree_wf(t),
        spec_live(t, k),
    ensures
        spec_tree_wf(spec_update_data(t, k, d)),
{
    let t2 = spec_update_data(t, k, d);
    assert forall|m: int| 0 <= m < t2.nodes.len() && t2.nodes[m] is Some implies node_ok(
        t2,
        m,
    ) by {
        assert(node_ok(t, m));
        assert(spec_node(t2, m).children == spec_node(t, m).children);
        assert forall|i: int| 0 <= i < spec_node(t2, m).children.len() implies child_edge_ok(
            t2,
            m,
            i,
        ) by {
            assert(child_edge_ok(t, m, i));
        }
    }
}

/// One node in the arena.
struct TreeNode<T> {
    /// The key of the node's parent; the root records itself.
    parent: usize,
    /// The node's children, in insertion order.
    children: Vec<usize>,
    /// The node's layout payload.
    data: LayoutNode<T>,
}

/// The layout tree the adapter drives a pass through: a keyed arena of
/// nodes, each with a layout payload, plus the pass configuration.
pub struct TaffyTree<T> {
    /// The pass configuration.
    config: TaffyConfig,
    /// The arena; a node's key is its index here, and keys of removed
    /// nodes are never reused.
    slots: Vec<Option<TreeNode<T>>>,
}

impl<T> View for TaffyTree<T> {
    type V = TreeView<T>;

    closed spec fn view(&self) -> TreeView<T> {
        TreeView {
            config: self.config,
            nodes: Seq::new(
                self.slots@.len(),
                |i: int|
                    match self.slots@[i] {
                        Some(n) => Some(
                            NodeView { parent: n.parent, children: n.children@, data: n.data@ },
                        ),
                        None => None,
                    },
            ),
        }
    }
}

impl<T> TaffyTree<T> {
    /// The tree is well formed (see `spec_tree_wf`).
    pub open spec fn wf(&self) -> bool {
        spec_tree_wf(self@)
    }

    /// Whether `k` is the key of a present node.
    pub open spec fn live(&self, k: int) -> bool {
        spec_live(self@, k)
    }

    /// The node stored under a live key.
    pub open spec fn node(&self, k: int) -> NodeView<T> {
        spec_node(self@, k)
    }

    /// A tree holding only a root node with the given style.
    pub fn new(config: TaffyConfig, root_style: Style) -> (tree: Self)
        ensures
            tree.wf(),
            tree@.config == config,
            tree@.nodes.len() == 1,
            tree@.nodes[0] == Some(
                NodeView {
                    parent: 0usize,
                    children: Seq::<usize>::empty(),
                    data: spec_fresh_node::<T>(root_style, None),
                },
            ),
    {
        let mut slots: Vec<Option<TreeNode<T>>> = Vec::new();
        slots.push(
            Some(TreeNode { parent: 0, children: Vec::new(), data: LayoutNode::new(root_style) }),
        );
        let tree = TaffyTree { config, slots };
        proof {
            assert(tree@.nodes[0] == Some(
                NodeView {
                    parent: 0usize,
                    children: Seq::<usize>::empty(),
                    data: spec_fresh_node::<T>(root_style, None),
                },
            ));
        }
        tree
    }

    /// The pass configuration.
    pub fn config(&self) -> (c: TaffyConfig)
        ensures
            c == self@.config,
    {
        self.config
    }

    /// The key of the root node; the root is created first and keeps
    /// key zero for the tree's whole lifetime.
    pub fn root_key(&self) -> (key: usize)
        ensures
            key == 0,
    {
        0
    }

    /// Whether the key refers to a node present in the tree.
    pub fn contains(&self, key: usize) -> (r: bool)
        ensures
            r == self.live(key as int),
    {
        key < self.slots.len() && self.slots[key].is_some()
    }

    /// A borrow of the payload under a live key.
    fn node_data(&self, key: usize) -> (r: &LayoutNode<T>)
        requires
            self.live(key as int),
        ensures
            r@ == self.node(key as int).data,
    {
        match &self.slots[key] {
            Some(node) => &node.data,
            None => vstd::pervasive::unreached(),
        }
    }

    /// The number of children of a node.
    pub fn child_count(&self, key: usize) -> (r: usize)
        requires
            self.live(key as int),
        ensures
            r == self.node(key as int).children.len(),
    {
        match &self.slots[key] {
            Some(node) => node.children.len(),
            None => vstd::pervasive::unreached(),
        }
    }

    /// The key of the `index`th child of a node, in insertion order.
    pub fn get_child_id(&self, key: usize, index: usize) -> (r: usize)
        requires
            self.live(key as int),
            index < self.node(key as int).children.len(),
        ensures
            r == self.node(key as int).children[index as int],
    {
        match &self.slots[key] {
            Some(node) => node.children[index],
            None => vstd::pervasive::unreached(),
        }
    }

    /// The keys of a node's children, in exactly the insertion order the
    /// tree records.
    pub fn child_ids(&self, key: usize) -> (r: Vec<usize>)
        requires
            self.live(key as int),
        ensures
            r@ == self.node(key as int).children,
    {
        let count = self.child_count(key);
        let mut ids: Vec<usize> = Vec::new();
        let mut i: usize = 0;
        while i < count
            invariant
                self.live(key as int),
                count == self.node(key as int).children.len(),
                i <= count,
                ids@ == self.node(key as int).children.take(i as int),
            decreases count - i,
        {
            let c = self.get_child_id(key, i);
            ids.push(c);
            proof {
                assert(ids@ =~= self.node(key as int).children.take(i + 1 as int));
            }
            i = i + 1;
        }
        proof {
            assert(ids@ =~= self.node(key as int).children);
        }
        ids
    }

    /// Create a node with the given style as the last child of `parent`
    /// and return its key, which is fresh: one past the previous arena
    /// length.
    pub fn add_child(&mut self, parent: usize, style: Style) -> (key: usize)
        requires
            old(self).wf(),
            old(self).live(parent as int),
        ensures
            final(self).wf(),
            key == old(self)@.nodes.len(),
            final(self)@.config == old(self)@.config,
            final(self)@.nodes.len() == old(self)@.nodes.len() + 1,
            final(self)@.nodes[key as int] == Some(
                NodeView {
                    parent,
                    children: Seq::<usize>::empty(),
                    data: spec_fresh_node::<T>(style, None),
                },
            ),
            final(self)@.nodes[parent as int] == Some(
                NodeView {
                    parent: old(self).node(parent as int).parent,
                    children: old(self).node(parent as int).children.push(key),
                    data: old(self).node(parent as int).data,
                },
            ),
            forall|j: int|
                0 <= j < old(self)@.nodes.len() && j != parent as int ==> final(self)@.nodes[j]
                    == old(self)@.nodes[j],
    {
        self.insert_node(parent, LayoutNode::new(style))
    }

    /// Create a node with the given style and user context as the last
    /// child of `parent` and return its fresh key.
    pub fn add_child_with_context(&mut self, parent: usize, style: Style, context: T) -> (key:
        usize)
        requires
            old(self).wf(),
            old(self).live(parent as int),
        ensures
            final(self).wf(),
            key == old(self)@.nodes.len(),
            final(self)@.config == old(self)@.config,
            final(self)@.nodes.len() == old(self)@.nodes.len() + 1,
            final(self)@.nodes[key as int] == Some(
                NodeView {
                    parent,
                    children: Seq::<usize>::empty(),
                    data: spec_fresh_node::<T>(style, Some(context)),
                },
            ),
            final(self)@.nodes[parent as int] == Some(
                NodeView {
                    parent: old(self).node(parent as int).parent,
                    children: old(self).node(parent as int).children.push(key),
                    data: old(self).node(parent as int).data,
                },
            ),
            forall|j: int|
                0 <= j < old(self)@.nodes.len() && j != parent as int ==> final(self)@.nodes[j]
                    == old(self)@.nodes[j],
    {
        self.insert_node(parent, LayoutNode::with_context(style, context))
    }

    /// Append a fresh node under `parent`.
    fn insert_node(&mut self, parent: usize, data: LayoutNode<T>) -> (key: usize)
        requires
            old(self).wf(),
            old(self).live(parent as int),
        ensures
            final(self).wf(),
            key == old(self)@.nodes.len(),
            final(self)@.config == old(self)@.config,
            final(self)@.nodes.len() == old(self)@.nodes.len() + 1,
            final(self)@.nodes[key as int] == Some(
                NodeView { parent, children: Seq::<usize>::empty(), data: data@ },
            ),
            final(self)@.nodes[parent as int] == Some(
                NodeView {
                    parent: old(self).node(parent as int).parent,
                    children: old(self).node(parent as int).children.push(key),
                    data: old(self).node(parent as int).data,
                },
            ),
            forall|j: int|
                0 <= j < old(self)@.nodes.len() && j != parent as int ==> final(self)@.nodes[j]
                    == old(self)@.nodes[j],
    {
        let key = self.slots.len();
        let ghost pre = self@;
        self.slots.push(Some(TreeNode { parent, children: Vec::new(), data }));
        let slot = &mut self.slots[parent];
        match slot {
            Some(node) => node.children.push(key),
            None => vstd::pervasive::unreached(),
        }
        proof {
            let post = self@;
            assert(post.nodes[key as int] == Some(
                NodeView { parent, children: Seq::<usize>::empty(), data: data@ },
            ));
            assert(post.nodes[parent as int] == Some(
                NodeView {
                    parent: spec_node(pre, parent as int).parent,
                    children: spec_node(pre, parent as int).children.push(key),
                    data: spec_node(pre, parent as int).data,
                },
            ));
            assert forall|j: int| 0 <= j < pre.nodes.len() && j != parent as int implies post.nodes[j]
                == pre.nodes[j] by {}
            lemma_wf_insert(pre, post, parent as int, key);
        }
        key
    }
}

/// Appending a fresh leaf under a live parent keeps the tree well
/// formed: the new key is larger than every existing key, so all child
/// orderings survive, and the new node's edges are sound by
/// construction.
proof fn lemma_wf_insert<T>(pre: TreeView<T>, post: TreeView<T>, parent: int, key: usize)
    requires
        spec_tree_wf(pre),
        spec_live(pre, parent),
        key as int == pre.nodes.len(),
        post.nodes.len() == pre.nodes.len() + 1,
        post.nodes[key as int] is Some,
        spec_node(post, key as int).parent as int == parent,
        spec_node(post, key as int).children == Seq::<usize>::empty(),
        post.nodes[parent] is Some,
        spec_node(post, parent).parent == spec_node(pre, parent).parent,
        spec_node(post, parent).children == spec_node(pre, parent).children.push(key),
        forall|j: int| 0 <= j < pre.nodes.len() && j != parent ==> post.nodes[j] == pre.nodes[j],
    ensures
        spec_tree_wf(post),
{
    assert forall|m: int| 0 <= m < post.nodes.len() && post.nodes[m] is Some implies node_ok(
        post,
        m,
    ) by {
        if m == key as int {
            assert(spec_node(post, m).children.len() == 0);
            assert(spec_node(post, parent).children.contains(key)) by {
                assert(spec_node(post, parent).children.last() == key);
            }
        } else {
            assert(node_ok(pre, m));
            if m == parent {
                let pre_children = spec_node(pre, m).children;
                let post_children = spec_node(post, m).children;
                assert forall|i: int| 0 <= i < post_children.len() implies child_edge_ok(
                    post,
                    m,
                    i,
                ) by {
                    if i < pre_children.len() {
                        assert(child_edge_ok(pre, m, i));
                        assert(post_children[i] == pre_children[i]);
                    } else {
                        assert(post_children[i] == key);
                    }
                }
                assert forall|i: int, j: int| 0 <= i < j < post_children.len() implies
                    post_children[i] != post_children[j] by {
                    if j < pre_children.len() {
                    } else {
                        assert(child_edge_ok(pre, m, i));
                        assert((pre_children[i] as int) < pre.nodes.len());
                    }
                }
                if m != 0 {
                    let p = spec_node(pre, m).parent as int;
                    assert(post.nodes[p] is Some);
                    if p != parent {
                        assert(spec_node(post, p).children == spec_node(pre, p).children);
                    } else {
                        assert(spec_node(pre, p).children.contains(m as usize));
                        lemma_push_contains(spec_node(pre, p).children, key, m as usize);
                    }
                }
            } else {
                assert(spec_node(post, m).children == spec_node(pre, m).children);
                assert forall|i: int| 0 <= i < spec_node(post, m).children.len() implies
                    child_edge_ok(post, m, i) by {
                    assert(child_edge_ok(pre, m, i));
                    let c = spec_node(pre, m).children[i] as int;
                    if c != parent {
                        assert(post.nodes[c] == pre.nodes[c]);
                    }
                }
                if m != 0 {
                    let p = spec_node(pre, m).parent as int;
                    if p == parent {
                        assert(spec_node(pre, p).children.contains(m as usize));
                        lemma_push_contains(spec_node(pre, p).children, key, m as usize);
                    }
                }
            }
        }
    }
}

/// Whatever a sequence contains, it still contains after a push.
proof fn lemma_push_contains(s: Seq<usize>, pushed: usize, x: usize)
    requires
        s.contains(x),
    ensures
        s.push(pushed).contains(x),
{
    let i = choose|i: int| 0 <= i < s.len() && s[i] == x;
    assert(s.push(pushed)[i] == x);
}

/// The cache key of a layout computation: exactly the parts of the
/// input that identify a cached result.
pub open spec fn spec_cache_key(input: LayoutInput) -> CacheKey {
    CacheKey {
        known_dimensions: input.known_dimensions,
        available_space: input.available_space,
        run_mode: input.run_mode,
    }
}

/// Which layout algorithm a node's display mode and children select: a
/// hidden node gets the hidden layout whatever its children; a childless
/// node is a measured leaf whatever its display mode; otherwise the
/// display mode picks the container algorithm.
pub open spec fn spec_algorithm_for(display: Display, has_children: bool) -> LayoutAlgorithm {
    if display is Hidden {
        LayoutAlgorithm::Hidden
    } else if !has_children {
        LayoutAlgorithm::Leaf
    } else if display is Flex {
        LayoutAlgorithm::Flexbox
    } else if display is Grid {
        LayoutAlgorithm::Grid
    } else {
        LayoutAlgorithm::Block
    }
}

/// The dispatch decision for one layout computation: a hidden pass runs
/// the hidden algorithm without touching the cache; otherwise a cached
/// result for exactly these inputs is returned as it stands, and only a
/// cache miss selects an algorithm to run.
pub open spec fn spec_begin_child_layout<T>(t: TreeView<T>, k: int, input: LayoutInput) -> LayoutStep {
    if input.run_mode is PerformHiddenLayout {
        LayoutStep::Compute(LayoutAlgorithm::Hidden)
    } else {
        match spec_cache_get(spec_node(t, k).data.cache, spec_cache_key(input)) {
            Some(out) => LayoutStep::Cached(out),
            None => LayoutStep::Compute(
                spec_algorithm_for(
                    spec_node(t, k).data.style.display,
                    spec_node(t, k).children.len() > 0,
                ),
            ),
        }
    }
}

/// The tree after a computed result is committed to a node's cache.
pub open spec fn spec_store_result<T>(
    t: TreeView<T>,
    k: int,
    input: LayoutInput,
    output: LayoutOutput,
) -> TreeView<T> {
    spec_update_data(
        t,
        k,
        spec_node(t, k).data.with_cache(
            spec_cache_store(spec_node(t, k).data.cache, spec_cache_key(input), output),
        ),
    )
}

/// The label a tree dump prints for a node, a pure classification of
/// `(child count, display mode, flex direction)`; diagnostics read it,
/// the solver never does.
pub open spec fn spec_debug_label(child_count: nat, style: Style) -> Seq<char> {
    if style.display is Hidden {
        "NONE"@
    } else if child_count == 0 {
        "LEAF"@
    } else if style.display is Block {
        "BLOCK"@
    } else if style.display is FlowRoot {
        "FLOW-ROOT"@
    } else if style.display is Flex {
        if style.flex_direction is Row || style.flex_direction is RowReverse {
            "FLEX ROW"@
        } else {
            "FLEX COL"@
        }
    } else {
        "GRID"@
    }
}

/// The algorithm a box-layout computation runs for one node.
#[derive(Debug, Clone, Copy, PartialEq, Eq, Structural)]
pub enum LayoutAlgorithm {
    /// Zero-size hidden layout for the node and its subtree.
    Hidden,
    /// The block layout algorithm.
    Block,
    /// The flexbox layout algorithm.
    Flexbox,
    /// The CSS Grid layout algorithm.
    Grid,
    /// Leaf measurement through the caller's measure function.
    Leaf,
}

/// The dispatch decision for one layout computation.
#[derive(Debug, Clone, Copy, PartialEq, Eq)]
pub enum LayoutStep {
    /// A result computed earlier for exactly these inputs; return it,
    /// run nothing.
    Cached(LayoutOutput),
    /// No usable cached result: run the selected algorithm, then commit
    /// its output with `finish_child_layout`.
    Compute(LayoutAlgorithm),
}

impl<T> TaffyTree<T> {
    /// The node's style.
    pub fn get_style(&self, key: usize) -> (r: &Style)
        requires
            self.live(key as int),
        ensures
            *r == self.node(key as int).data.style,
    {
        self.node_data(key).get_style()
    }

    /// Replace a node's style: a different style also empties the
    /// node's cache, an equal one changes nothing.
    pub fn set_style(&mut self, key: usize, style: Style)
        requires
            old(self).wf(),
            old(self).live(key as int),
        ensures
            final(self).wf(),
            final(self)@ == spec_update_data(
                old(self)@,
                key as int,
                spec_set_style_data(old(self).node(key as int).data, style),
            ),
    {
        let ghost pre = self@;
        let slot = &mut self.slots[key];
        match slot {
            Some(node) => node.data.set_style(style),
            None => vstd::pervasive::unreached(),
        }
        proof {
            let d = spec_set_style_data(spec_node(pre, key as int).data, style);
            assert(self@.nodes[key as int]->0.data.cache =~= d.cache);
            assert(self@.nodes =~~= spec_update_data(pre, key as int, d).nodes);
            lemma_wf_update_data(pre, key as int, d);
        }
    }

    /// Empty a node's cache, whatever made it stale; running it again
    /// changes nothing further.
    pub fn mark_dirty(&mut self, key: usize)
        requires
            old(self).wf(),
            old(self).live(key as int),
        ensures
            final(self).wf(),
            final(self)@ == spec_update_data(
                old(self)@,
                key as int,
                old(self).node(key as int).data.with_cache(spec_empty_cache()),
            ),
    {
        let ghost pre = self@;
        let slot = &mut self.slots[key];
        match slot {
            Some(node) => node.data.mark_dirty(),
            None => vstd::pervasive::unreached(),
        }
        proof {
            let d = spec_node(pre, key as int).data.with_cache(spec_empty_cache());
            assert(self@.nodes[key as int]->0.data.cache =~= d.cache);
            assert(self@.nodes =~~= spec_update_data(pre, key as int, d).nodes);
            lemma_wf_update_data(pre, key as int, d);
        }
    }

    /// Empty a node's cache (the id-level face of `mark_dirty`).
    pub fn cache_clear(&mut self, key: usize)
        requires
            old(self).wf(),
            old(self).live(key as int),
        ensures
            final(self).wf(),
            final(self)@ == spec_update_data(
                old(self)@,
                key as int,
                old(self).node(key as int).data.with_cache(spec_empty_cache()),
            ),
    {
        let ghost pre = self@;
        let slot = &mut self.slots[key];
        match slot {
            Some(node) => node.data.cache_clear(),
            None => vstd::pervasive::unreached(),
        }
        proof {
            let d = spec_node(pre, key as int).data.with_cache(spec_empty_cache());
            assert(self@.nodes[key as int]->0.data.cache =~= d.cache);
            assert(self@.nodes =~~= spec_update_data(pre, key as int, d).nodes);
            lemma_wf_update_data(pre, key as int, d);
        }
    }

    /// Exact-match lookup in a node's cache.
    pub fn cache_get(&self, key: usize, cache_key: &CacheKey) -> (r: Option<LayoutOutput>)
        requires
            self.live(key as int),
        ensures
            r == spec_cache_get(self.node(key as int).data.cache, *cache_key),
    {
        self.node_data(key).cache_get(cache_key)
    }

    /// Insert or overwrite a result in a node's cache.
    pub fn cache_store(&mut self, key: usize, cache_key: CacheKey, output: LayoutOutput)
        requires
            old(self).wf(),
            old(self).live(key as int),
        ensures
            final(self).wf(),
            final(self)@ == spec_update_data(
                old(self)@,
                key as int,
                old(self).node(key as int).data.with_cache(
                    spec_cache_store(old(self).node(key as int).data.cache, cache_key, output),
                ),
            ),
    {
        let ghost pre = self@;
        let slot = &mut self.slots[key];
        match slot {
            Some(node) => node.data.cache_store(cache_key, output),
            None => vstd::pervasive::unreached(),
        }
        proof {
            let d = spec_node(pre, key as int).data.with_cache(
                spec_cache_store(spec_node(pre, key as int).data.cache, cache_key, output),
            );
            assert(self@.nodes =~~= spec_update_data(pre, key as int, d).nodes);
            lemma_wf_update_data(pre, key as int, d);
        }
    }

    /// Commit solver geometry for a node; only the solver calls this.
    pub fn set_unrounded_layout(&mut self, key: usize, layout: &Layout)
        requires
            old(self).wf(),
            old(self).live(key as int),
        ensures
            final(self).wf(),
            final(self)@ == spec_update_data(
                old(self)@,
                key as int,
                old(self).node(key as int).data.with_unrounded_layout(*layout),
            ),
    {
        let ghost pre = self@;
        let slot = &mut self.slots[key];
        match slot {
            Some(node) => node.data.set_unrounded_layout(layout),
            None => vstd::pervasive::unreached(),
        }
        proof {
            let d = spec_node(pre, key as int).data.with_unrounded_layout(*layout);
            assert(self@.nodes =~~= spec_update_data(pre, key as int, d).nodes);
            lemma_wf_update_data(pre, key as int, d);
        }
    }

    /// Commit rounded geometry for a node; only the rounding pass calls
    /// this.
    pub fn set_final_layout(&mut self, key: usize, layout: &Layout)
        requires
            old(self).wf(),
            old(self).live(key as int),
        ensures
            final(self).wf(),
            final(self)@ == spec_update_data(
                old(self)@,
                key as int,
                old(self).node(key as int).data.with_final_layout(*layout),
            ),
    {
        let ghost pre = self@;
        let slot = &mut self.slots[key];
        match slot {
            Some(node) => node.data.set_final_layout(layout),
            None => vstd::pervasive::unreached(),
        }
        proof {
            let d = spec_node(pre, key as int).data.with_final_layout(*layout);
            assert(self@.nodes =~~= spec_update_data(pre, key as int, d).nodes);
            lemma_wf_update_data(pre, key as int, d);
        }
    }

    /// The geometry the solver last committed for a node.
    pub fn get_unrounded_layout(&self, key: usize) -> (r: &Layout)
        requires
            self.live(key as int),
        ensures
            *r == self.node(key as int).data.unrounded_layout,
    {
        self.node_data(key).get_unrounded_layout()
    }

    /// The single read path for finished geometry: the rounded layout
    /// when this tree rounds, the solver's sub-pixel layout when not.
    pub fn get_final_layout(&self, key: usize) -> (r: &Layout)
        requires
            self.live(key as int),
        ensures
            *r == if self@.config.use_rounding {
                self.node(key as int).data.final_layout
            } else {
                self.node(key as int).data.unrounded_layout
            },
    {
        if self.config.use_rounding {
            self.node_data(key).get_final_layout()
        } else {
            self.node_data(key).get_unrounded_layout()
        }
    }

    /// A borrow of a node's user context, if it carries one.
    pub fn get_node_context(&self, key: usize) -> (r: Option<&T>)
        requires
            self.live(key as int),
        ensures
            r is Some <==> self.node(key as int).data.context is Some,
            r matches Some(c) ==> *c == self.node(key as int).data.context->0,
    {
        self.node_data(key).get_node_context()
    }

    /// The label a tree dump prints for this node.
    pub fn get_debug_label(&self, key: usize) -> (r: &'static str)
        requires
            self.live(key as int),
        ensures
            r@ == spec_debug_label(
                self.node(key as int).children.len(),
                self.node(key as int).data.style,
            ),
    {
        let count = self.child_count(key);
        debug_label_for(count, self.node_data(key).get_style())
    }

    /// The style as the solver's container-level view of a node.
    pub fn get_core_container_style(&self, key: usize) -> (r: &Style)
        requires
            self.live(key as int),
        ensures
            *r == self.node(key as int).data.style,
    {
        self.node_data(key).get_core_container_style()
    }

    /// The style as a block container's view of a node.
    pub fn get_block_container_style(&self, key: usize) -> (r: &Style)
        requires
            self.live(key as int),
        ensures
            *r == self.node(key as int).data.style,
    {
        self.node_data(key).get_block_container_style()
    }

    /// The style as a block item's view of a child node.
    pub fn get_block_child_style(&self, key: usize) -> (r: &Style)
        requires
            self.live(key as int),
        ensures
            *r == self.node(key as int).data.style,
    {
        self.node_data(key).get_block_item_style()
    }

    /// The style as a flexbox container's view of a node.
    pub fn get_flexbox_container_style(&self, key: usize) -> (r: &Style)
        requires
            self.live(key as int),
        ensures
            *r == self.node(key as int).data.style,
    {
        self.node_data(key).get_flexbox_container_style()
    }

    /// The style as a flexbox item's view of a child node.
    pub fn get_flexbox_child_style(&self, key: usize) -> (r: &Style)
        requires
            self.live(key as int),
        ensures
            *r == self.node(key as int).data.style,
    {
        self.node_data(key).get_flexbox_item_style()
    }

    /// The style as a grid container's view of a node.
    pub fn get_grid_container_style(&self, key: usize) -> (r: &Style)
        requires
            self.live(key as int),
        ensures
            *r == self.node(key as int).data.style,
    {
        self.node_data(key).get_grid_container_style()
    }

    /// The style as a grid item's view of a child node.
    pub fn get_grid_child_style(&self, key: usize) -> (r: &Style)
        requires
            self.live(key as int),
        ensures
            *r == self.node(key as int).data.style,
    {
        self.node_data(key).get_grid_item_style()
    }

    /// The dispatch decision for one layout computation over this node,
    /// as the engine asks for it: a hidden pass short-circuits past the
    /// cache; otherwise the cache is consulted with exactly the given
    /// inputs, and only a miss selects an algorithm.
    pub fn begin_child_layout(&self, key: usize, input: &LayoutInput) -> (step: LayoutStep)
        requires
            self.live(key as int),
        ensures
            step == spec_begin_child_layout(self@, key as int, *input),
    {
        if matches!(input.run_mode, RunMode::PerformHiddenLayout) {
            return LayoutStep::Compute(LayoutAlgorithm::Hidden);
        }
        let cache_key = CacheKey {
            known_dimensions: input.known_dimensions,
            available_space: input.available_space,
            run_mode: input.run_mode,
        };
        match self.node_data(key).cache_get(&cache_key) {
            Some(out) => LayoutStep::Cached(out),
            None => {
                let has_children = self.child_count(key) > 0;
                let display = self.node_data(key).get_display();
                LayoutStep::Compute(algorithm_for(display, has_children))
            },
        }
    }

    /// Commit the output an algorithm computed for the given inputs, so
    /// that the next dispatch for the same inputs finds it in the cache.
    /// A hidden pass stores nothing.
    pub fn finish_child_layout(&mut self, key: usize, input: &LayoutInput, output: LayoutOutput)
        requires
            old(self).wf(),
            old(self).live(key as int),
        ensures
            final(self).wf(),
            final(self)@ == spec_store_result(old(self)@, key as int, *input, output),
    {
        let cache_key = CacheKey {
            known_dimensions: input.known_dimensions,
            available_space: input.available_space,
            run_mode: input.run_mode,
        };
        self.cache_store(key, cache_key, output);
    }
}

/// The exec face of `spec_debug_label`: the label a tree dump prints
/// for a node with this many children and this style.
pub fn debug_label_for(child_count: usize, style: &Style) -> (r: &'static str)
    ensures
        r@ == spec_debug_label(child_count as nat, *style),
{
    if matches!(style.display, Display::Hidden) {
        "NONE"
    } else if child_count == 0 {
        "LEAF"
    } else {
        match style.display {
            Display::Block => "BLOCK",
            Display::FlowRoot => "FLOW-ROOT",
            Display::Flex => {
                match style.flex_direction {
                    FlexDirection::Row | FlexDirection::RowReverse => "FLEX ROW",
                    FlexDirection::Column | FlexDirection::ColumnReverse => "FLEX COL",
                }
            },
            Display::Grid => "GRID",
            Display::Hidden => "NONE",
        }
    }
}

/// The exec face of `spec_algorithm_for`: which algorithm lays out a
/// node with this display mode and with or without children.
pub fn algorithm_for(display: Display, has_children: bool) -> (r: LayoutAlgorithm)
    ensures
        r == spec_algorithm_for(display, has_children),
{
    if matches!(display, Display::Hidden) {
        LayoutAlgorithm::Hidden
    } else if !has_children {
        LayoutAlgorithm::Leaf
    } else if matches!(display, Display::Flex) {
        LayoutAlgorithm::Flexbox
    } else if matches!(display, Display::Grid) {
        LayoutAlgorithm::Grid
    } else {
        LayoutAlgorithm::Block
    }
}


impl<T> TaffyTree<T> {
    /// The position of `key` among `parent`'s children (its first
    /// occurrence, though a well-formed tree records it only once).
    fn find_child_index(&self, parent: usize, key: usize) -> (idx: usize)
        requires
            self.live(parent as int),
            self.node(parent as int).children.contains(key),
        ensures
            idx < self.node(parent as int).children.len(),
            self.node(parent as int).children[idx as int] == key,
            forall|j: int| 0 <= j < idx ==> self.node(parent as int).children[j] != key,
    {
        let count = self.child_count(parent);
        let mut idx: usize = 0;
        while idx < count
            invariant
                self.live(parent as int),
                count == self.node(parent as int).children.len(),
                self.node(parent as int).children.contains(key),
                idx <= count,
                forall|j: int| 0 <= j < idx ==> self.node(parent as int).children[j] != key,
            decreases count - idx,
        {
            if self.get_child_id(parent, idx) == key {
                return idx;
            }
            idx = idx + 1;
        }
        proof {
            let j = choose|j: int|
                0 <= j < self.node(parent as int).children.len() && self.node(
                    parent as int,
                ).children[j] == key;
            assert(false);
        }
        vstd::pervasive::unreached()
    }

    /// Remove a childless, non-root node from the tree: its key becomes
    /// stale and its parent's child list loses exactly that key, in
    /// place. Nothing else changes.
    pub fn remove(&mut self, key: usize)
        requires
            old(self).wf(),
            old(self).live(key as int),
            key != 0,
            old(self).node(key as int).children.len() == 0,
        ensures
            final(self).wf(),
            final(self)@.config == old(self)@.config,
            final(self)@.nodes.len() == old(self)@.nodes.len(),
            final(self)@.nodes[key as int] is None,
            final(self)@.nodes[old(self).node(key as int).parent as int] == Some(
                NodeView {
                    parent: old(self).node(old(self).node(key as int).parent as int).parent,
                    children: old(self).node(
                        old(self).node(key as int).parent as int,
                    ).children.remove_value(key),
                    data: old(self).node(old(self).node(key as int).parent as int).data,
                },
            ),
            forall|j: int|
                0 <= j < old(self)@.nodes.len() && j != key as int && j != old(self).node(
                    key as int,
                ).parent as int ==> final(self)@.nodes[j] == old(self)@.nodes[j],
    {
        let ghost pre = self@;
        let parent = match &self.slots[key] {
            Some(node) => node.parent,
            None => vstd::pervasive::unreached(),
        };
        proof {
            assert(node_ok(pre, key as int));
        }
        let idx = self.find_child_index(parent, key);
        let slot = &mut self.slots[parent];
        match slot {
            Some(pnode) => {
                let removed = pnode.children.remove(idx);
            },
            None => vstd::pervasive::unreached(),
        }
        self.slots[key] = None;
        proof {
            let pre_children = spec_node(pre, parent as int).children;
            pre_children.index_of_first_ensures(key);
            let first = pre_children.index_of_first(key)->0;
            if first < idx as int {
                assert(pre_children[first] == key);
                assert(false);
            }
            if (idx as int) < first {
                assert(pre_children[idx as int] == key);
                assert(false);
            }
            assert(spec_node(self@, parent as int).children == pre_children.remove_value(key));
            lemma_wf_remove(pre, self@, key, parent as int, idx as int);
        }
    }
}

/// Detaching a childless non-root node keeps the tree well formed: no
/// other node names the removed key as parent (it had no children), and
/// its parent's list loses exactly that one entry.
proof fn lemma_wf_remove<T>(pre: TreeView<T>, post: TreeView<T>, key: usize, parent: int, idx: int)
    requires
        spec_tree_wf(pre),
        spec_live(pre, key as int),
        key != 0,
        spec_node(pre, key as int).children.len() == 0,
        parent == spec_node(pre, key as int).parent as int,
        0 <= idx < spec_node(pre, parent).children.len(),
        spec_node(pre, parent).children[idx] == key,
        post.nodes.len() == pre.nodes.len(),
        post.nodes[key as int] is None,
        post.nodes[parent] is Some,
        spec_node(post, parent).parent == spec_node(pre, parent).parent,
        spec_node(post, parent).children == spec_node(pre, parent).children.remove(idx),
        forall|j: int|
            0 <= j < pre.nodes.len() && j != key as int && j != parent ==> post.nodes[j]
                == pre.nodes[j],
    ensures
        spec_tree_wf(post),
{
    assert(node_ok(pre, key as int));
    assert(parent < key as int);
    assert(pre.nodes.len() <= usize::MAX as nat + 1);
    let pre_children = spec_node(pre, parent).children;
    let post_children = spec_node(post, parent).children;
    pre_children.remove_ensures(idx);
    assert(node_ok(pre, parent));
    assert forall|m: int| 0 <= m < post.nodes.len() && post.nodes[m] is Some implies node_ok(
        post,
        m,
    ) by {
        assert(m != key as int);
        assert(node_ok(pre, m));
        // Every child edge of m stays sound.
        assert forall|i: int| 0 <= i < spec_node(post, m).children.len() implies child_edge_ok(
            post,
            m,
            i,
        ) by {
            if m == parent {
                let c = post_children[i];
                let pre_i: int = if i < idx {
                    i
                } else {
                    i + 1
                };
                assert(c == pre_children[pre_i]);
                assert(child_edge_ok(pre, m, pre_i));
                if c != key {
                    assert(post.nodes[c as int] is Some);
                } else {
                    // key sits only at idx in a duplicate-free list
                    assert(pre_children[idx] == pre_children[pre_i]);
                    assert(false);
                }
            } else {
                assert(child_edge_ok(pre, m, i));
                let c = spec_node(pre, m).children[i];
                if c == key {
                    // then key's parent would be m, but it is parent
                    assert(spec_node(pre, c as int).parent as int == m);
                    assert(false);
                }
            }
        }
        // Distinctness survives taking a subselection.
        if m == parent {
            assert forall|i: int, j: int| 0 <= i < j < post_children.len() implies post_children[i]
                != post_children[j] by {
                let pre_i: int = if i < idx {
                    i
                } else {
                    i + 1
                };
                let pre_j: int = if j < idx {
                    j
                } else {
                    j + 1
                };
                assert(post_children[i] == pre_children[pre_i]);
                assert(post_children[j] == pre_children[pre_j]);
            }
        }
        // The parent link of m stays sound.
        if m != 0 {
            let p = spec_node(post, m).parent as int;
            assert(spec_node(post, m).parent == spec_node(pre, m).parent);
            if p == key as int {
                assert(spec_node(pre, p).children.contains(m as usize));
                let w = choose|w: int|
                    0 <= w < spec_node(pre, p).children.len() && spec_node(pre, p).children[w]
                        == m as usize;
                assert(false);
            }
            if p == parent {
                let w = choose|w: int| 0 <= w < pre_children.len() && pre_children[w] == m as usize;
                assert(m as usize != key) by {
                    assert(m <= usize::MAX as int);
                }
                if w < idx {
                    assert(post_children[w] == pre_children[w]);
                    assert(post_children.contains(m as usize)) by {
                        assert(post_children[w] == m as usize);
                    }
                } else {
                    assert(w != idx);
                    assert(post_children[w - 1] == pre_children[w]);
                    assert(post_children.contains(m as usize)) by {
                        assert(post_children[w - 1] == m as usize);
                    }
                }
            } else {
                assert(post.nodes[p] == pre.nodes[p]);
            }
        }
    }
}


/// Whether `k` lies in the subtree rooted at `root`: following `k`'s
/// parent chain (which only ever descends to smaller keys) reaches
/// `root`. Well defined on well-formed trees.
pub open spec fn spec_in_subtree<T>(t: TreeView<T>, root: int, k: int) -> bool
    decreases k
        when spec_tree_wf(t) && spec_live(t, root)
        via spec_in_subtree_decreases::<T>
{
    if !spec_live(t, k) {
        false
    } else if k == root {
        true
    } else if k <= root {
        false
    } else {
        spec_in_subtree(t, root, spec_node(t, k).parent as int)
    }
}

#[via_fn]
proof fn spec_in_subtree_decreases<T>(t: TreeView<T>, root: int, k: int) {
    if spec_live(t, k) && k != root && k > root {
        assert(node_ok(t, k));
    }
}

/// A member of a subtree is live, and its key is at least the root's.
pub proof fn lemma_in_subtree_live<T>(t: TreeView<T>, root: int, k: int)
    requires
        spec_tree_wf(t),
        spec_live(t, root),
        spec_in_subtree(t, root, k),
    ensures
        spec_live(t, k),
        root <= k,
{
}

/// A child's subtree is contained in its parent's subtree.
pub proof fn lemma_child_subtree<T>(t: TreeView<T>, root: int, c: int, j: int)
    requires
        spec_tree_wf(t),
        spec_live(t, root),
        spec_live(t, c),
        root < c,
        spec_node(t, c).parent as int == root,
        spec_in_subtree(t, c, j),
    ensures
        spec_in_subtree(t, root, j),
    decreases j,
{
    if j == c {
        // two unfoldings: from c along its parent edge, then at root itself
        assert(spec_in_subtree(t, root, root));
        assert(spec_in_subtree(t, root, c));
    } else {
        assert(node_ok(t, j));
        lemma_child_subtree(t, root, c, spec_node(t, j).parent as int);
    }
}

/// The child of `root` through which the parent chain from `k` passes.
pub open spec fn spec_branch_child<T>(t: TreeView<T>, root: int, k: int) -> int
    decreases k
        when spec_tree_wf(t) && spec_live(t, root)
        via spec_branch_child_decreases::<T>
{
    if !spec_live(t, k) || k <= root {
        k
    } else if spec_node(t, k).parent as int == root {
        k
    } else {
        spec_branch_child(t, root, spec_node(t, k).parent as int)
    }
}

#[via_fn]
proof fn spec_branch_child_decreases<T>(t: TreeView<T>, root: int, k: int) {
    if spec_live(t, k) && k > root && spec_node(t, k).parent as int != root {
        assert(node_ok(t, k));
    }
}

/// A proper member of `root`'s subtree lies in the subtree of exactly
/// the child of `root` its parent chain passes through, and that child
/// stands in `root`'s child list.
pub proof fn lemma_branch_child<T>(t: TreeView<T>, root: int, k: int)
    requires
        spec_tree_wf(t),
        spec_live(t, root),
        spec_in_subtree(t, root, k),
        k != root,
    ensures
        spec_live(t, spec_branch_child(t, root, k)),
        root < spec_branch_child(t, root, k) <= k,
        spec_node(t, spec_branch_child(t, root, k)).parent as int == root,
        spec_node(t, root).children.contains(spec_branch_child(t, root, k) as usize),
        spec_in_subtree(t, spec_branch_child(t, root, k), k),
    decreases k,
{
    assert(node_ok(t, k));
    let p = spec_node(t, k).parent as int;
    let c = spec_branch_child(t, root, k);
    if p == root {
        assert(c == k);
        assert(spec_node(t, root).children.contains(k as usize));
        assert(spec_in_subtree(t, k, k));
    } else {
        lemma_branch_child(t, root, p);
        assert(c == spec_branch_child(t, root, p));
        assert(spec_in_subtree(t, c, p));
        assert(spec_in_subtree(t, c, k));
    }
}

/// Two trees have the same shape: the same keys are live and each live
/// node records the same parent and the same children; only the
/// payloads may differ.
pub open spec fn same_shape<T>(a: TreeView<T>, b: TreeView<T>) -> bool {
    &&& a.nodes.len() == b.nodes.len()
    &&& forall|k: int| 0 <= k < a.nodes.len() ==> ((#[trigger] a.nodes[k]) is Some <==> b.nodes[k] is Some)
    &&& forall|k: int|
        0 <= k < a.nodes.len() && a.nodes[k] is Some ==> (#[trigger] spec_node(a, k)).children
            == spec_node(b, k).children && spec_node(a, k).parent == spec_node(b, k).parent
}

/// Well-formedness only speaks of shape, so it carries over to any tree
/// of the same shape.
pub proof fn lemma_wf_same_shape<T>(a: TreeView<T>, b: TreeView<T>)
    requires
        spec_tree_wf(a),
        same_shape(a, b),
    ensures
        spec_tree_wf(b),
{
    assert forall|m: int| 0 <= m < b.nodes.len() && b.nodes[m] is Some implies node_ok(b, m) by {
        assert(a.nodes[m] is Some);
        assert(node_ok(a, m));
        assert forall|i: int| 0 <= i < spec_node(b, m).children.len() implies child_edge_ok(
            b,
            m,
            i,
        ) by {
            assert(child_edge_ok(a, m, i));
        }
    }
}

/// Subtree membership only speaks of shape, so it carries over to any
/// tree of the same shape.
pub proof fn lemma_in_subtree_same_shape<T>(a: TreeView<T>, b: TreeView<T>, root: int, k: int)
    requires
        spec_tree_wf(a),
        spec_live(a, root),
        same_shape(a, b),
    ensures
        spec_in_subtree(a, root, k) == spec_in_subtree(b, root, k),
    decreases (if k < 0 { 0int } else { k }),
{
    lemma_wf_same_shape(a, b);
    if !spec_live(a, k) {
        assert(!spec_live(b, k));
    } else if k == root {
    } else if k <= root {
    } else {
        assert(node_ok(a, k));
        assert(spec_node(b, k).parent == spec_node(a, k).parent);
        lemma_in_subtree_same_shape(a, b, root, spec_node(a, k).parent as int);
    }
}

/// A payload after the hidden pass: zero solver geometry and an empty
/// cache; style, rounded geometry and context survive.
pub open spec fn spec_hidden_data<T>(d: LayoutNodeView<T>) -> LayoutNodeView<T> {
    d.with_unrounded_layout(Layout::with_order_spec(0)).with_cache(spec_empty_cache())
}

/// The node view after the hidden pass, shape untouched.
pub open spec fn spec_hidden_node<T>(nv: NodeView<T>) -> NodeView<T> {
    NodeView { parent: nv.parent, children: nv.children, data: spec_hidden_data(nv.data) }
}

/// Cache correctness of the dispatch: once the output computed for
/// given inputs has been committed, the dispatch for a node unchanged
/// since then returns exactly that output from the cache and selects no
/// algorithm to run again.
pub proof fn lemma_child_layout_memoized<T>(
    t: TreeView<T>,
    k: int,
    input: LayoutInput,
    output: LayoutOutput,
)
    requires
        spec_live(t, k),
        spec_node(t, k).data.cache.len() == crate::cache::CACHE_SLOTS as nat,
        !(input.run_mode is PerformHiddenLayout),
    ensures
        spec_begin_child_layout(spec_store_result(t, k, input, output), k, input)
            == LayoutStep::Cached(output),
{
    let t2 = spec_store_result(t, k, input, output);
    let ck = spec_cache_key(input);
    assert(spec_node(t2, k).data.cache == spec_cache_store(spec_node(t, k).data.cache, ck, output));
    assert(spec_cache_get(spec_node(t2, k).data.cache, ck) == Some(output));
}

/// Invalidation at the dispatch: replacing a node's style with a
/// different value empties its cache, so no following dispatch over
/// that node, whatever its inputs, can return a stale cached output.
pub proof fn lemma_style_change_invalidates<T>(
    t: TreeView<T>,
    k: int,
    style: Style,
    input: LayoutInput,
)
    requires
        spec_live(t, k),
        spec_node(t, k).data.style != style,
    ensures
        !(spec_begin_child_layout(
            spec_update_data(t, k, spec_set_style_data(spec_node(t, k).data, style)),
            k,
            input,
        ) is Cached),
{
    let t2 = spec_update_data(t, k, spec_set_style_data(spec_node(t, k).data, style));
    if !(input.run_mode is PerformHiddenLayout) {
        let ck = spec_cache_key(input);
        assert(spec_node(t2, k).data.cache == spec_empty_cache());
        assert(spec_cache_get(spec_node(t2, k).data.cache, ck) is None);
    }
}

impl<T> TaffyTree<T> {
    /// The hidden pass over one subtree, as the engine performs it for a
    /// node whose display is hidden or whose ancestor's is: every node
    /// of the subtree gets the zero layout as its solver geometry and an
    /// emptied cache; styles, rounded geometry, contexts, the tree's
    /// shape, and every node outside the subtree are untouched.
    pub fn perform_hidden_layout(&mut self, key: usize)
        requires
            old(self).wf(),
            old(self).live(key as int),
        ensures
            final(self).wf(),
            final(self)@.config == old(self)@.config,
            final(self)@.nodes.len() == old(self)@.nodes.len(),
            forall|j: int|
                0 <= j < old(self)@.nodes.len() && !spec_in_subtree(old(self)@, key as int, j)
                    ==> final(self)@.nodes[j] == old(self)@.nodes[j],
            forall|j: int|
                spec_in_subtree(old(self)@, key as int, j) ==> final(self)@.nodes[j] == Some(
                    spec_hidden_node(spec_node(old(self)@, j)),
                ),
        decreases self@.nodes.len() - key,
    {
        let ghost pre = self@;
        proof {
            assert(node_ok(pre, key as int));
        }
        self.cache_clear(key);
        self.set_unrounded_layout(key, &Layout::with_order(0));
        let count = self.child_count(key);
        proof {
            assert(spec_node(self@, key as int).data =~~= spec_hidden_data(
                spec_node(pre, key as int).data,
            ));
            assert(spec_in_subtree(pre, key as int, key as int));
            assert(same_shape(pre, self@));
        }
        let mut i: usize = 0;
        while i < count
            invariant
                pre == old(self)@,
                spec_tree_wf(pre),
                spec_live(pre, key as int),
                node_ok(pre, key as int),
                self.wf(),
                same_shape(pre, self@),
                self@.config == pre.config,
                self@.nodes.len() == pre.nodes.len(),
                count == spec_node(pre, key as int).children.len(),
                i <= count,
                forall|j: int|
                    0 <= j < pre.nodes.len() && !spec_in_subtree(pre, key as int, j)
                        ==> self@.nodes[j] == pre.nodes[j],
                forall|j: int|
                    spec_in_subtree(pre, key as int, j) ==> (self@.nodes[j] == pre.nodes[j]
                        || self@.nodes[j] == Some(spec_hidden_node(spec_node(pre, j)))),
                self@.nodes[key as int] == Some(spec_hidden_node(spec_node(pre, key as int))),
                forall|j: int, w: int|
                    0 <= w < i && #[trigger] spec_in_subtree(
                        pre,
                        spec_node(pre, key as int).children[w] as int,
                        j,
                    ) ==> self@.nodes[j] == Some(spec_hidden_node(spec_node(pre, j))),
            decreases count - i,
        {
            proof {
                assert(child_edge_ok(pre, key as int, i as int));
            }
            let c = self.get_child_id(key, i);
            let ghost before = self@;
            proof {
                assert(spec_live(before, c as int));
                assert(key < c);
            }
            self.perform_hidden_layout(c);
            proof {
                lemma_hidden_step(pre, before, self@, key as int, i as int, c);
            }
            i = i + 1;
        }
        proof {
            assert forall|j: int| spec_in_subtree(pre, key as int, j) implies self@.nodes[j]
                == Some(spec_hidden_node(spec_node(pre, j))) by {
                if j != key as int {
                    lemma_branch_child(pre, key as int, j);
                    let c = spec_branch_child(pre, key as int, j);
                    let children = spec_node(pre, key as int).children;
                    let w = choose|w: int| 0 <= w < children.len() && children[w] == c as usize;
                    assert(children[w] as int == c) by {
                        assert(child_edge_ok(pre, key as int, w));
                    }
                    assert(spec_in_subtree(pre, children[w] as int, j));
                }
            }
        }
    }
}

/// The bookkeeping for one step of the hidden pass: hiding the subtree
/// of the `i`th child extends what is hidden, touches nothing outside
/// the node's subtree, and keeps shape and earlier work intact.
proof fn lemma_hidden_step<T>(
    pre: TreeView<T>,
    before: TreeView<T>,
    after: TreeView<T>,
    key: int,
    i: int,
    c: usize,
)
    requires
        spec_tree_wf(pre),
        spec_live(pre, key),
        node_ok(pre, key),
        0 <= i < spec_node(pre, key).children.len(),
        c == spec_node(pre, key).children[i],
        same_shape(pre, before),
        spec_tree_wf(before),
        before.nodes.len() == pre.nodes.len(),
        spec_tree_wf(after),
        after.nodes.len() == before.nodes.len(),
        forall|j: int|
            0 <= j < before.nodes.len() && !spec_in_subtree(before, c as int, j) ==> after.nodes[j]
                == before.nodes[j],
        forall|j: int|
            spec_in_subtree(before, c as int, j) ==> after.nodes[j] == Some(
                spec_hidden_node(spec_node(before, j)),
            ),
        forall|j: int|
            0 <= j < pre.nodes.len() && !spec_in_subtree(pre, key, j) ==> before.nodes[j]
                == pre.nodes[j],
        forall|j: int|
            spec_in_subtree(pre, key, j) ==> (before.nodes[j] == pre.nodes[j] || before.nodes[j]
                == Some(spec_hidden_node(spec_node(pre, j)))),
        before.nodes[key] == Some(spec_hidden_node(spec_node(pre, key))),
        forall|j: int, w: int|
            0 <= w < i && #[trigger] spec_in_subtree(pre, spec_node(pre, key).children[w] as int, j)
                ==> before.nodes[j] == Some(spec_hidden_node(spec_node(pre, j))),
    ensures
        same_shape(pre, after),
        forall|j: int|
            0 <= j < pre.nodes.len() && !spec_in_subtree(pre, key, j) ==> after.nodes[j]
                == pre.nodes[j],
        forall|j: int|
            spec_in_subtree(pre, key, j) ==> (after.nodes[j] == pre.nodes[j] || after.nodes[j]
                == Some(spec_hidden_node(spec_node(pre, j)))),
        after.nodes[key] == Some(spec_hidden_node(spec_node(pre, key))),
        forall|j: int, w: int|
            0 <= w < i + 1 && #[trigger] spec_in_subtree(
                pre,
                spec_node(pre, key).children[w] as int,
                j,
            ) ==> after.nodes[j] == Some(spec_hidden_node(spec_node(pre, j))),
{
    assert(child_edge_ok(pre, key, i));
    assert(spec_live(pre, c as int));
    // membership in the child's subtree reads the same in `pre` and `before`
    assert forall|j: int| spec_in_subtree(before, c as int, j) == spec_in_subtree(
        pre,
        c as int,
        j,
    ) by {
        lemma_in_subtree_same_shape(pre, before, c as int, j);
    }
    // a node in the child's subtree is in the key's subtree
    assert forall|j: int| spec_in_subtree(pre, c as int, j) implies spec_in_subtree(
        pre,
        key,
        j,
    ) by {
        lemma_child_subtree(pre, key, c as int, j);
    }
    // nodes the call rewrote get the value hiding `pre` would give:
    // hiding what is already hidden changes nothing
    assert forall|j: int| spec_in_subtree(pre, c as int, j) implies after.nodes[j] == Some(
        spec_hidden_node(spec_node(pre, j)),
    ) by {
        lemma_in_subtree_live(pre, c as int, j);
        assert(spec_hidden_data(spec_hidden_data(spec_node(pre, j).data)) == spec_hidden_data(
            spec_node(pre, j).data,
        ));
        assert(spec_node(before, j).parent == spec_node(pre, j).parent);
        assert(spec_node(before, j).children == spec_node(pre, j).children);
    }
    // shape is preserved through the call
    assert(same_shape(pre, after)) by {
        assert forall|k2: int| 0 <= k2 < pre.nodes.len() implies ((#[trigger] pre.nodes[k2])
            is Some <==> after.nodes[k2] is Some) by {
            if spec_in_subtree(pre, c as int, k2) {
                lemma_in_subtree_live(pre, c as int, k2);
            }
        }
        assert forall|k2: int| 0 <= k2 < pre.nodes.len() && pre.nodes[k2] is Some implies (
        #[trigger] spec_node(pre, k2)).children == spec_node(after, k2).children && spec_node(
            pre,
            k2,
        ).parent == spec_node(after, k2).parent by {
            if spec_in_subtree(pre, c as int, k2) {
                lemma_in_subtree_live(pre, c as int, k2);
                assert(after.nodes[k2] == Some(spec_hidden_node(spec_node(pre, k2))));
            }
        }
    }
    // the key itself is outside the child's subtree (its key is smaller)
    assert(!spec_in_subtree(pre, c as int, key)) by {
        if spec_in_subtree(pre, c as int, key) {
            lemma_in_subtree_live(pre, c as int, key);
        }
    }
    // earlier children's subtrees stay hidden
    assert forall|j: int, w: int|
        0 <= w < i + 1 && #[trigger] spec_in_subtree(
            pre,
            spec_node(pre, key).children[w] as int,
            j,
        ) implies after.nodes[j] == Some(spec_hidden_node(spec_node(pre, j))) by {
        if w == i {
            assert(spec_in_subtree(pre, c as int, j));
        } else {
            if spec_in_subtree(pre, c as int, j) {
            } else {
                assert(before.nodes[j] == Some(spec_hidden_node(spec_node(pre, j))));
                assert(after.nodes[j] == before.nodes[j]) by {
                    assert(child_edge_ok(pre, key, w));
                    lemma_child_subtree(
                        pre,
                        key,
                        spec_node(pre, key).children[w] as int,
                        j,
                    );
                    lemma_in_subtree_live(pre, key, j);
                }
            }
        }
    }
}


/// A read-only adapter over a tree: the traversal and diagnostic reads
/// that external consumers drive, without the mutating surface.
pub struct TaffyTreeView<'a, T> {
    /// The tree being read.
    pub tree: &'a TaffyTree<T>,
}

impl<'a, T> TaffyTreeView<'a, T> {
    /// A view borrowing the given tree.
    pub fn new(tree: &'a TaffyTree<T>) -> (v: Self)
        ensures
            v.tree == tree,
    {
        TaffyTreeView { tree }
    }

    /// The keys of a node's children, in exactly the insertion order
    /// the tree records.
    pub fn child_ids(&self, key: usize) -> (r: Vec<usize>)
        requires
            self.tree.live(key as int),
        ensures
            r@ == self.tree.node(key as int).children,
    {
        self.tree.child_ids(key)
    }

    /// The number of children of a node.
    pub fn child_count(&self, key: usize) -> (r: usize)
        requires
            self.tree.live(key as int),
        ensures
            r == self.tree.node(key as int).children.len(),
    {
        self.tree.child_count(key)
    }

    /// The key of the `index`th child of a node, in insertion order.
    pub fn get_child_id(&self, key: usize, index: usize) -> (r: usize)
        requires
            self.tree.live(key as int),
            index < self.tree.node(key as int).children.len(),
        ensures
            r == self.tree.node(key as int).children[index as int],
    {
        self.tree.get_child_id(key, index)
    }

    /// The label a tree dump prints for this node.
    pub fn get_debug_label(&self, key: usize) -> (r: &'static str)
        requires
            self.tree.live(key as int),
        ensures
            r@ == spec_debug_label(
                self.tree.node(key as int).children.len(),
                self.tree.node(key as int).data.style,
            ),
    {
        self.tree.get_debug_label(key)
    }

    /// The single read path for finished geometry: the rounded layout
    /// when the tree rounds, the solver's sub-pixel layout when not.
    pub fn get_final_layout(&self, key: usize) -> (r: &Layout)
        requires
            self.tree.live(key as int),
        ensures
            *r == if self.tree@.config.use_rounding {
                self.tree.node(key as int).data.final_layout
            } else {
                self.tree.node(key as int).data.unrounded_layout
            },
    {
        self.tree.get_final_layout(key)
    }
}

} // verus!
