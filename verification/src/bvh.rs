use vstd::prelude::*;

verus! {

/// How the primitives of a node are split between its children.
#[derive(Debug, Clone, Copy, PartialEq, Eq, Structural)]
pub enum SplitMethod {
    /// By the surface area heuristic.
    Sah,
}

/// What a node of the hierarchy under construction is.
pub enum BvhNodeKind<B> {
    /// A leaf: the primitives `first_prim_offset .. first_prim_offset + num_prims` of the
    /// ordered primitive list.
    Leaf { first_prim_offset: usize, num_prims: usize },
    /// An interior node, split along `split_axis` (0, 1 or 2 for x, y, z).
    Interior { split_axis: u8, left: Box<BvhBuildNode<B>>, right: Box<BvhBuildNode<B>> },
}

/// A node of the hierarchy under construction, with its bounds.
pub struct BvhBuildNode<B> {
    pub bounds: B,
    pub kind: BvhNodeKind<B>,
}

impl<B> BvhBuildNode<B> {
    /// A leaf over `num_prims` primitives from `first_prim_offset` on.
    pub fn new_leaf(first_prim_offset: usize, num_prims: usize, bounds: B) -> (node: Self)
        ensures
            node.bounds == bounds,
            node.kind == (BvhNodeKind::Leaf::<B> { first_prim_offset, num_prims }),
    {
        BvhBuildNode { bounds, kind: BvhNodeKind::Leaf { first_prim_offset, num_prims } }
    }

    /// An interior node over two children; `bounds` are the joined bounds of the children.
    pub fn new_interior(
        axis: u8,
        left: Box<BvhBuildNode<B>>,
        right: Box<BvhBuildNode<B>>,
        bounds: B,
    ) -> (node: Self)
        ensures
            node.bounds == bounds,
            node.kind == (BvhNodeKind::Interior { split_axis: axis, left, right }),
    {
        BvhBuildNode { bounds, kind: BvhNodeKind::Interior { split_axis: axis, left, right } }
    }
}

/// A node of the flattened hierarchy. A node with `num_prims > 0` is a leaf over the
/// primitives `offset .. offset + num_prims`; any other node is interior, its first child
/// directly follows it and its second child is at `offset`.
#[derive(Debug, Clone, Copy)]
pub struct LinearBvhNode<B> {
    pub bounds: B,
    pub offset: u32,
    pub num_prims: u16,
    pub axis: u8,
}

impl<B> LinearBvhNode<B> {
    /// A flattened node.
    pub fn new(bounds: B, offset: u32, num_prims: u16, axis: u8) -> (node: Self)
        ensures
            node == (LinearBvhNode { bounds, offset, num_prims, axis }),
    {
        LinearBvhNode { bounds, offset, num_prims, axis }
    }

    /// The bounds of the node.
    pub fn bounds(&self) -> (b: &B)
        ensures
            *b == self.bounds,
    {
        &self.bounds
    }
}

/// The number of nodes of a hierarchy.
pub open spec fn node_count<B>(n: BvhBuildNode<B>) -> nat
    decreases n,
{
    match n.kind {
        BvhNodeKind::Leaf { .. } => 1,
        BvhNodeKind::Interior { left, right, .. } => 1 + node_count(*left) + node_count(*right),
    }
}

/// The depth of a hierarchy: 1 for a leaf.
pub open spec fn node_depth<B>(n: BvhBuildNode<B>) -> nat
    decreases n,
{
    match n.kind {
        BvhNodeKind::Leaf { .. } => 1,
        BvhNodeKind::Interior { left, right, .. } => 1 + vstd::math::max(
            node_depth(*left) as int,
            node_depth(*right) as int,
        ) as nat,
    }
}

/// The flattened form of the hierarchy `n` whose root lands at position `base`: the nodes in
/// depth-first order, each interior node followed by its first subtree and pointing at its
/// second.
pub open spec fn flattened<B>(n: BvhBuildNode<B>, base: int) -> Seq<LinearBvhNode<B>>
    decreases n,
{
    match n.kind {
        BvhNodeKind::Leaf { first_prim_offset, num_prims } => seq![
            LinearBvhNode {
                bounds: n.bounds,
                offset: first_prim_offset as u32,
                num_prims: num_prims as u16,
                axis: 0,
            },
        ],
        BvhNodeKind::Interior { split_axis, left, right } => seq![
            LinearBvhNode {
                bounds: n.bounds,
                offset: (base + 1 + node_count(*left)) as u32,
                num_prims: 0,
                axis: split_axis,
            },
        ] + flattened(*left, base + 1) + flattened(*right, base + 1 + node_count(*left)),
    }
}

proof fn lemma_flattened_len<B>(n: BvhBuildNode<B>, base: int)
    ensures
        flattened(n, base).len() == node_count(n),
    decreases n,
{
    match n.kind {
        BvhNodeKind::Leaf { .. } => {},
        BvhNodeKind::Interior { left, right, .. } => {
            lemma_flattened_len(*left, base + 1);
            lemma_flattened_len(*right, base + 1 + node_count(*left));
        },
    }
}

/// Each node of the hierarchy keeps its own bounds in the flattened form: the entry at the
/// position of a node carries that node's bounds (an interior node's joined bounds, never a
/// child's). A leaf's entry holds its primitive range; an interior node's entry holds its
/// axis and the position of its second child, its first child follows it, and both
/// children's subtrees are laid out from their positions in the same way.
pub proof fn law_flattened_nodes_keep_their_bounds<B>(n: BvhBuildNode<B>, base: int)
    ensures
        flattened(n, base).len() == node_count(n),
        flattened(n, base)[0].bounds == n.bounds,
        n.kind matches BvhNodeKind::Leaf { first_prim_offset, num_prims } ==> {
            &&& flattened(n, base)[0].offset == first_prim_offset as u32
            &&& flattened(n, base)[0].num_prims == num_prims as u16
        },
        n.kind matches BvhNodeKind::Interior { split_axis, left, right } ==> {
            let second = base + 1 + node_count(*left);
            &&& flattened(n, base)[0].num_prims == 0
            &&& flattened(n, base)[0].axis == split_axis
            &&& flattened(n, base)[0].offset == second as u32
            &&& flattened(n, base)[1].bounds == left.bounds
            &&& flattened(n, base)[second - base].bounds == right.bounds
            &&& forall|j: int|
                0 <= j < node_count(*left) ==> #[trigger] flattened(n, base)[1 + j] == flattened(
                    *left,
                    base + 1,
                )[j]
            &&& forall|j: int|
                0 <= j < node_count(*right) ==> #[trigger] flattened(n, base)[second - base + j]
                    == flattened(*right, second)[j]
        },
    decreases n,
{
    lemma_flattened_len(n, base);
    match n.kind {
        BvhNodeKind::Leaf { .. } => {},
        BvhNodeKind::Interior { split_axis, left, right } => {
            let second = base + 1 + node_count(*left);
            law_flattened_nodes_keep_their_bounds(*left, base + 1);
            law_flattened_nodes_keep_their_bounds(*right, second);
            let l = flattened(*left, base + 1);
            let r = flattened(*right, second);
            let fl = flattened(n, base);
            assert forall|j: int| 0 <= j < node_count(*left) implies #[trigger] fl[1 + j] == l[j] by {}
            assert forall|j: int| 0 <= j < node_count(*right) implies #[trigger] fl[second - base + j]
                == r[j] by {}
            assert(fl[1] == l[0]);
            assert(fl[second - base] == r[0]);
        },
    }
}

/// Flattens the hierarchy `node` into `linear_nodes` in depth-first order, its root at
/// position `*offset`; advances `*offset` past its nodes and returns the root's position.
pub fn flatten_bvh_tree<B: Copy>(
    node: &BvhBuildNode<B>,
    offset: &mut u32,
    linear_nodes: &mut Vec<LinearBvhNode<B>>,
) -> (my_offset: u32)
    requires
        old(linear_nodes)@.len() == *old(offset),
        *old(offset) + node_count(*node) <= u32::MAX,
    ensures
        my_offset == *old(offset),
        *final(offset) == *old(offset) + node_count(*node),
        final(linear_nodes)@ == old(linear_nodes)@ + flattened(*node, *old(offset) as int),
    decreases node,
{
    let my_offset = *offset;
    *offset = *offset + 1;
    match &node.kind {
        BvhNodeKind::Leaf { first_prim_offset, num_prims } => {
            linear_nodes.push(
                LinearBvhNode::new(
                    node.bounds,
                    #[verifier::truncate]
                    (*first_prim_offset as u32),
                    #[verifier::truncate]
                    (*num_prims as u16),
                    0,
                ),
            );
            proof {
                assert(flattened(*node, my_offset as int) == seq![
                    LinearBvhNode {
                        bounds: node.bounds,
                        offset: *first_prim_offset as u32,
                        num_prims: *num_prims as u16,
                        axis: 0u8,
                    },
                ]);
            }
        },
        BvhNodeKind::Interior { split_axis, left, right } => {
            linear_nodes.push(LinearBvhNode::new(node.bounds, 0, 0, *split_axis));
            let ghost after_root = linear_nodes@;
            proof {
                lemma_flattened_len(**left, my_offset + 1);
            }
            flatten_bvh_tree(left, offset, linear_nodes);
            let ghost after_left = linear_nodes@;
            let right_child_offset = flatten_bvh_tree(right, offset, linear_nodes);
            let ghost after_right = linear_nodes@;
            let mut root = linear_nodes[my_offset as usize];
            root.offset = right_child_offset;
            linear_nodes.set(my_offset as usize, root);
            proof {
                let l = flattened(**left, my_offset + 1);
                let r = flattened(**right, my_offset + 1 + node_count(**left));
                let head = LinearBvhNode {
                    bounds: node.bounds,
                    offset: (my_offset + 1 + node_count(**left)) as u32,
                    num_prims: 0u16,
                    axis: *split_axis,
                };
                assert(after_root == old(linear_nodes)@.push(
                    LinearBvhNode { bounds: node.bounds, offset: 0u32, num_prims: 0u16, axis: *split_axis },
                ));
                assert(after_right == after_root + l + r);
                assert(right_child_offset == my_offset + 1 + node_count(**left));
                assert(flattened(*node, my_offset as int) == seq![head] + l + r);
                assert(linear_nodes@ =~= old(linear_nodes)@ + (seq![head] + l + r));
            }
        },
    }
    my_offset
}

/// The items that a partition at bucket `split` keeps in front: those whose bucket (given
/// by position in `buckets`) is at most `split`, in their order.
pub open spec fn kept_in_front<T>(items: Seq<T>, buckets: Seq<usize>, split: usize) -> Seq<T>
    decreases items.len(),
{
    if items.len() == 0 {
        seq![]
    } else {
        let n = items.len() - 1;
        let front = kept_in_front(items.take(n), buckets, split);
        if buckets[n] <= split {
            front.push(items[n])
        } else {
            front
        }
    }
}

/// The items whose bucket is after `split`, in their order.
pub open spec fn after_split<T>(items: Seq<T>, buckets: Seq<usize>, split: usize) -> Seq<T>
    decreases items.len(),
{
    if items.len() == 0 {
        seq![]
    } else {
        let n = items.len() - 1;
        let rest = after_split(items.take(n), buckets, split);
        if buckets[n] <= split {
            rest
        } else {
            rest.push(items[n])
        }
    }
}

/// The order in which the partition leaves the items whose bucket is after `split` behind
/// the kept ones: an item after the split joins the end, and each kept item that arrives
/// while some are left behind moves the first of them to the end.
pub open spec fn left_behind<T>(items: Seq<T>, buckets: Seq<usize>, split: usize) -> Seq<T>
    decreases items.len(),
{
    if items.len() == 0 {
        seq![]
    } else {
        let n = items.len() - 1;
        let behind = left_behind(items.take(n), buckets, split);
        if buckets[n] <= split {
            if behind.len() == 0 {
                behind
            } else {
                behind.drop_first().push(behind[0])
            }
        } else {
            behind.push(items[n])
        }
    }
}

proof fn lemma_partition_len<T>(items: Seq<T>, buckets: Seq<usize>, split: usize)
    ensures
        kept_in_front(items, buckets, split).len() + left_behind(items, buckets, split).len()
            == items.len(),
        left_behind(items, buckets, split).len() == after_split(items, buckets, split).len(),
    decreases items.len(),
{
    if items.len() > 0 {
        lemma_partition_len(items.take(items.len() - 1), buckets, split);
    }
}

/// Partitioning rearranges the primitives and loses none: the ones it leaves behind are
/// exactly those whose bucket is after the split, and the kept ones with them are all the
/// primitives it was given.
pub proof fn law_partition_rearranges<T>(items: Seq<T>, buckets: Seq<usize>, split: usize)
    ensures
        left_behind(items, buckets, split).to_multiset() == after_split(
            items,
            buckets,
            split,
        ).to_multiset(),
        (kept_in_front(items, buckets, split) + left_behind(items, buckets, split)).to_multiset()
            == items.to_multiset(),
    decreases items.len(),
{
    broadcast use vstd::seq_lib::group_to_multiset_ensures, vstd::multiset::group_multiset_axioms;

    let front = kept_in_front(items, buckets, split);
    let behind = left_behind(items, buckets, split);
    if items.len() == 0 {
        assert(front + behind =~= items);
    } else {
        let n = items.len() - 1;
        let prev = items.take(n);
        let x = items[n];
        law_partition_rearranges(prev, buckets, split);
        let pf = kept_in_front(prev, buckets, split);
        let pb = left_behind(prev, buckets, split);
        assert(items =~= prev.push(x));
        vstd::seq_lib::lemma_multiset_commutative(pf, pb);
        vstd::seq_lib::lemma_multiset_commutative(front, behind);
        if buckets[n] <= split {
            if pb.len() > 0 {
                let rest = pb.drop_first();
                assert(pb =~= seq![pb[0]] + rest);
                vstd::seq_lib::lemma_multiset_commutative(seq![pb[0]], rest);
                assert(seq![pb[0]] =~= Seq::<T>::empty().push(pb[0]));
                assert(behind.to_multiset() =~= pb.to_multiset());
            }
            assert(behind.to_multiset() =~= pb.to_multiset());
            assert((front + behind).to_multiset() =~= items.to_multiset());
        } else {
            assert((front + behind).to_multiset() =~= items.to_multiset());
        }
    }
}

/// Moves the primitives whose bucket is at most `split_bucket` to the front, keeping their
/// order, and returns how many they are; `buckets[i]` is the bucket of `primitive_info[i]`.
/// The others follow in the order `left_behind` gives.
pub fn partition_primitives<T: Copy>(
    primitive_info: &mut [T],
    buckets: &[usize],
    split_bucket: usize,
) -> (mid: usize)
    requires
        buckets@.len() == old(primitive_info)@.len(),
    ensures
        final(primitive_info)@ == kept_in_front(old(primitive_info)@, buckets@, split_bucket)
            + left_behind(old(primitive_info)@, buckets@, split_bucket),
        mid == kept_in_front(old(primitive_info)@, buckets@, split_bucket).len(),
{
    let ghost orig = primitive_info@;
    let mut mid: usize = 0;
    let mut i: usize = 0;
    while i < primitive_info.len()
        invariant
            primitive_info@.len() == orig.len(),
            buckets@.len() == orig.len(),
            i <= orig.len(),
            mid == kept_in_front(orig.take(i as int), buckets@, split_bucket).len(),
            primitive_info@ == kept_in_front(orig.take(i as int), buckets@, split_bucket)
                + left_behind(orig.take(i as int), buckets@, split_bucket) + orig.skip(i as int),
        decreases orig.len() - i,
    {
        let ghost before = orig.take(i as int);
        let ghost after = orig.take(i + 1);
        let ghost front = kept_in_front(before, buckets@, split_bucket);
        let ghost behind = left_behind(before, buckets@, split_bucket);
        proof {
            assert(after.take(i as int) =~= before);
            lemma_partition_len(before, buckets@, split_bucket);
            assert(orig.skip(i as int) =~= seq![orig[i as int]] + orig.skip(i + 1));
        }
        if buckets[i] <= split_bucket {
            let a = primitive_info[mid];
            let b = primitive_info[i];
            primitive_info[mid] = b;
            primitive_info[i] = a;
            mid = mid + 1;
            proof {
                if behind.len() == 0 {
                    assert(primitive_info@ =~= front.push(orig[i as int]) + behind + orig.skip(
                        i + 1,
                    ));
                } else {
                    assert(primitive_info@ =~= front.push(orig[i as int]) + behind.drop_first().push(
                        behind[0],
                    ) + orig.skip(i + 1));
                }
            }
        } else {
            proof {
                assert(primitive_info@ =~= front + behind.push(orig[i as int]) + orig.skip(i + 1));
            }
        }
        i = i + 1;
    }
    proof {
        assert(orig.take(orig.len() as int) =~= orig);
        assert(orig.skip(orig.len() as int) =~= Seq::<T>::empty());
        assert(primitive_info@ =~= kept_in_front(orig, buckets@, split_bucket) + left_behind(
            orig,
            buckets@,
            split_bucket,
        ));
    }
    mid
}

/// A hierarchy under construction is well formed over `prim_count` primitives: every split
/// axis names x, y or z, and every leaf holds at least one and at most `u16::MAX` primitives,
/// all of them among the first `prim_count`.
pub open spec fn build_tree_wf<B>(n: BvhBuildNode<B>, prim_count: nat) -> bool
    decreases n,
{
    match n.kind {
        BvhNodeKind::Leaf { first_prim_offset, num_prims } => {
            &&& 1 <= num_prims <= u16::MAX
            &&& first_prim_offset + num_prims <= prim_count
            &&& first_prim_offset <= u32::MAX
        },
        BvhNodeKind::Interior { split_axis, left, right } => {
            &&& split_axis < 3
            &&& build_tree_wf(*left, prim_count)
            &&& build_tree_wf(*right, prim_count)
        },
    }
}

/// The flattened node at position `i` of `nodes` keeps its links within `lo .. hi`: an
/// interior node names an axis and has its second child after its first child (at `i + 1`)
/// and before `hi`; a leaf's primitives lie among the first `prim_count`.
pub open spec fn node_links_within<B>(
    nodes: Seq<LinearBvhNode<B>>,
    i: int,
    hi: int,
    prim_count: nat,
) -> bool {
    let e = nodes[i];
    &&& e.num_prims == 0 ==> e.axis < 3 && i + 1 < e.offset < hi
    &&& e.num_prims > 0 ==> e.offset + e.num_prims <= prim_count
}

/// A flattened hierarchy is well formed over `prim_count` primitives: every link of every
/// node stays within the hierarchy and every primitive range within the primitives.
pub open spec fn layout_wf<B>(nodes: Seq<LinearBvhNode<B>>, prim_count: nat) -> bool {
    forall|i: int|
        0 <= i < nodes.len() ==> #[trigger] node_links_within(nodes, i, nodes.len() as int, prim_count)
}

/// Whether `nodes` is a well-formed layout over `prim_count` primitives.
pub fn layout_is_wf<B>(nodes: &Vec<LinearBvhNode<B>>, prim_count: usize) -> (b: bool)
    ensures
        b == layout_wf(nodes@, prim_count as nat),
{
    let len = nodes.len();
    let mut i: usize = 0;
    while i < len
        invariant
            i <= len,
            len == nodes@.len(),
            forall|j: int|
                0 <= j < i ==> #[trigger] node_links_within(nodes@, j, len as int, prim_count as nat),
        decreases len - i,
    {
        let e = &nodes[i];
        let fits = if e.num_prims == 0 {
            e.axis < 3 && i + 1 < e.offset as usize && (e.offset as usize) < len
        } else {
            (e.offset as u64) + (e.num_prims as u64) <= prim_count as u64
        };
        if !fits {
            proof {
                assert(!node_links_within(nodes@, i as int, len as int, prim_count as nat));
            }
            return false;
        }
        i = i + 1;
    }
    true
}

proof fn lemma_node_count_positive<B>(n: BvhBuildNode<B>)
    ensures
        node_count(n) >= 1,
{
}

/// Every node of the flattened form of `n` placed at `base` keeps its links within the
/// positions `base .. base + node_count(n)`.
proof fn lemma_flattened_links<B>(n: BvhBuildNode<B>, base: int, prim_count: nat)
    requires
        build_tree_wf(n, prim_count),
        0 <= base,
        base + node_count(n) <= u32::MAX,
    ensures
        flattened(n, base).len() == node_count(n),
        forall|j: int|
            0 <= j < node_count(n) ==> {
                let e = #[trigger] flattened(n, base)[j];
                &&& e.num_prims == 0 ==> e.axis < 3 && base + j + 1 < e.offset < base + node_count(n)
                &&& e.num_prims > 0 ==> e.offset + e.num_prims <= prim_count
            },
    decreases n,
{
    lemma_flattened_len(n, base);
    match n.kind {
        BvhNodeKind::Leaf { .. } => {},
        BvhNodeKind::Interior { split_axis, left, right } => {
            let bl = base + 1;
            let br = base + 1 + node_count(*left);
            lemma_flattened_links(*left, bl, prim_count);
            lemma_flattened_links(*right, br, prim_count);
            lemma_node_count_positive(*left);
            lemma_node_count_positive(*right);
            let l = flattened(*left, bl);
            let r = flattened(*right, br);
            let fl = flattened(n, base);
            assert forall|j: int| 0 <= j < node_count(n) implies {
                let e = #[trigger] fl[j];
                &&& e.num_prims == 0 ==> e.axis < 3 && base + j + 1 < e.offset < base + node_count(n)
                &&& e.num_prims > 0 ==> e.offset + e.num_prims <= prim_count
            } by {
                if j == 0 {
                } else if j < 1 + node_count(*left) {
                    assert(fl[j] == l[j - 1]);
                } else {
                    assert(fl[j] == r[j - 1 - node_count(*left)]);
                }
            }
        },
    }
}

/// Flattening a well-formed hierarchy gives a well-formed layout.
pub proof fn law_flattened_layout_wf<B>(n: BvhBuildNode<B>, prim_count: nat)
    requires
        build_tree_wf(n, prim_count),
        node_count(n) <= u32::MAX,
    ensures
        flattened(n, 0).len() == node_count(n),
        layout_wf(flattened(n, 0), prim_count),
{
    lemma_flattened_links(n, 0, prim_count);
    let fl = flattened(n, 0);
    assert forall|i: int| 0 <= i < fl.len() implies #[trigger] node_links_within(
        fl,
        i,
        fl.len() as int,
        prim_count,
    ) by {
        let e = fl[i];
    }
}

/// What one step of a traversal does.
pub enum TraversalStep {
    /// The node's bounds were hit and it is a leaf: test the primitives `start .. end`.
    /// Where `finished` holds, nothing is left to visit afterwards.
    Visit { start: usize, end: usize, finished: bool },
    /// The node was interior and hit: its children were scheduled.
    Descend,
    /// Nothing is left to visit.
    Finished,
}

/// A front-to-back traversal of a flattened hierarchy: the node to test next and the nodes
/// scheduled after it.
pub struct BvhTraversal {
    current: usize,
    to_visit: Vec<usize>,
}

/// What a traversal denotes: the node to test next, and the scheduled nodes (the last one is
/// taken first).
pub struct BvhTraversalView {
    pub current: usize,
    pub to_visit: Seq<usize>,
}

impl View for BvhTraversal {
    type V = BvhTraversalView;

    closed spec fn view(&self) -> BvhTraversalView {
        BvhTraversalView { current: self.current, to_visit: self.to_visit@ }
    }
}

/// How many nodes a traversal can hold scheduled at once.
pub const TO_VISIT_CAPACITY: usize = 64;

/// A step of the traversal `t` at `node` has room for what it schedules: a hit interior
/// node schedules one more node.
pub open spec fn push_fits<B>(t: BvhTraversalView, node: LinearBvhNode<B>, hit: bool) -> bool {
    hit && node.num_prims == 0 ==> t.to_visit.len() < TO_VISIT_CAPACITY
}

/// Every position that the traversal holds is a node of a layout with `len` nodes.
pub open spec fn traversal_within(t: BvhTraversalView, len: nat) -> bool {
    &&& t.current < len
    &&& forall|i: int| 0 <= i < t.to_visit.len() ==> #[trigger] t.to_visit[i] < len
}

/// One traversal step: the traversal after it, and what the caller is to do. `hit` is whether
/// the ray hits the bounds of the current node; `dir_is_neg[a]` whether the ray runs towards
/// decreasing coordinates along axis `a`. An interior node schedules the child on the far
/// side and moves to the near one; a leaf, or a missed node, moves to the last scheduled
/// node.
pub open spec fn traversal_step_spec<B>(
    t: BvhTraversalView,
    node: LinearBvhNode<B>,
    hit: bool,
    dir_is_neg: Seq<bool>,
) -> (BvhTraversalView, TraversalStep) {
    let popped = BvhTraversalView {
        current: t.to_visit.last(),
        to_visit: t.to_visit.drop_last(),
    };
    if hit && node.num_prims == 0 {
        if dir_is_neg[node.axis as int] {
            (
                BvhTraversalView {
                    current: node.offset as usize,
                    to_visit: t.to_visit.push((t.current + 1) as usize),
                },
                TraversalStep::Descend,
            )
        } else {
            (
                BvhTraversalView {
                    current: (t.current + 1) as usize,
                    to_visit: t.to_visit.push(node.offset as usize),
                },
                TraversalStep::Descend,
            )
        }
    } else if hit {
        let finished = t.to_visit.len() == 0;
        (
            if finished { t } else { popped },
            TraversalStep::Visit {
                start: node.offset as usize,
                end: (node.offset + node.num_prims) as usize,
                finished,
            },
        )
    } else if t.to_visit.len() == 0 {
        (t, TraversalStep::Finished)
    } else {
        (popped, TraversalStep::Descend)
    }
}

proof fn lemma_pop_within(t: BvhTraversalView, len: nat)
    requires
        traversal_within(t, len),
        t.to_visit.len() > 0,
    ensures
        traversal_within(
            BvhTraversalView { current: t.to_visit.last(), to_visit: t.to_visit.drop_last() },
            len,
        ),
{
    assert(t.to_visit[t.to_visit.len() - 1] < len);
}

impl BvhTraversal {
    /// A traversal that starts at the root.
    pub fn new() -> (t: Self)
        ensures
            t@.current == 0,
            t@.to_visit == Seq::<usize>::empty(),
    {
        BvhTraversal { current: 0, to_visit: Vec::new() }
    }

    /// The position of the node to test next.
    pub fn current_node(&self) -> (i: usize)
        ensures
            i == self@.current,
    {
        self.current
    }

    /// How many nodes are scheduled.
    pub fn scheduled(&self) -> (n: usize)
        ensures
            n == self@.to_visit.len(),
    {
        self.to_visit.len()
    }

    /// Takes one step, given whether the ray hits the current node's bounds.
    pub fn advance<B>(
        &mut self,
        nodes: &Vec<LinearBvhNode<B>>,
        prim_count: usize,
        hit: bool,
        dir_is_neg: [bool; 3],
    ) -> (step: TraversalStep)
        requires
            layout_wf(nodes@, prim_count as nat),
            traversal_within(old(self)@, nodes@.len()),
            push_fits(old(self)@, nodes@[old(self)@.current as int], hit),
        ensures
            (final(self)@, step) == traversal_step_spec(
                old(self)@,
                nodes@[old(self)@.current as int],
                hit,
                dir_is_neg@,
            ),
            traversal_within(final(self)@, nodes@.len()),
            step matches TraversalStep::Visit { start, end, .. } ==> start <= end <= prim_count,
    {
        let node = &nodes[self.current];
        let ghost before = self.to_visit@;
        proof {
            assert(node_links_within(nodes@, self.current as int, nodes@.len() as int, prim_count as nat));
        }
        if hit {
            if node.num_prims > 0 {
                let start = node.offset as usize;
                let end = start + node.num_prims as usize;
                if self.to_visit.len() == 0 {
                    return TraversalStep::Visit { start, end, finished: true };
                }
                self.current = self.to_visit.pop().unwrap();
                proof {
                    lemma_pop_within(old(self)@, nodes@.len());
                }
                TraversalStep::Visit { start, end, finished: false }
            } else {
                let axis = node.axis as usize;
                if dir_is_neg[axis] {
                    self.to_visit.push(self.current + 1);
                    self.current = node.offset as usize;
                } else {
                    self.to_visit.push(node.offset as usize);
                    self.current = self.current + 1;
                }
                proof {
                    assert forall|i: int| 0 <= i < self.to_visit@.len() implies #[trigger]
                        self.to_visit@[i] < nodes@.len() by {
                        if i < before.len() {
                            assert(self.to_visit@[i] == before[i]);
                        }
                    }
                }
                TraversalStep::Descend
            }
        } else {
            if self.to_visit.len() == 0 {
                return TraversalStep::Finished;
            }
            self.current = self.to_visit.pop().unwrap();
            proof {
                lemma_pop_within(old(self)@, nodes@.len());
            }
            TraversalStep::Descend
        }
    }
}

/// One step of a traversal of `nodes` as a state machine: `None` once nothing is left to
/// visit. `hits(i)` says whether the ray hits the bounds of node `i`. The second component
/// lists the primitive ranges that the step hands out.
pub open spec fn traversal_machine_step<B>(
    s: Option<BvhTraversalView>,
    nodes: Seq<LinearBvhNode<B>>,
    hits: spec_fn(int) -> bool,
    dir_is_neg: Seq<bool>,
) -> (Option<BvhTraversalView>, Seq<(int, int)>) {
    match s {
        None => (None, seq![]),
        Some(t) => {
            let (t2, step) = traversal_step_spec(
                t,
                nodes[t.current as int],
                hits(t.current as int),
                dir_is_neg,
            );
            match step {
                TraversalStep::Visit { start, end, finished } => (
                    if finished { None } else { Some(t2) },
                    seq![(start as int, end as int)],
                ),
                TraversalStep::Descend => (Some(t2), seq![]),
                TraversalStep::Finished => (None, seq![]),
            }
        },
    }
}

/// The primitive ranges that `k` steps of a traversal hand out, in order.
pub open spec fn traversal_run<B>(
    s: Option<BvhTraversalView>,
    nodes: Seq<LinearBvhNode<B>>,
    hits: spec_fn(int) -> bool,
    dir_is_neg: Seq<bool>,
    k: nat,
) -> Seq<(int, int)>
    decreases k,
{
    if k == 0 {
        seq![]
    } else {
        let (s2, out) = traversal_machine_step(s, nodes, hits, dir_is_neg);
        out + traversal_run(s2, nodes, hits, dir_is_neg, (k - 1) as nat)
    }
}

/// The traversal after `k` steps; `None` once it is finished.
pub open spec fn traversal_state<B>(
    s: Option<BvhTraversalView>,
    nodes: Seq<LinearBvhNode<B>>,
    hits: spec_fn(int) -> bool,
    dir_is_neg: Seq<bool>,
    k: nat,
) -> Option<BvhTraversalView>
    decreases k,
{
    if k == 0 {
        s
    } else {
        traversal_state(
            traversal_machine_step(s, nodes, hits, dir_is_neg).0,
            nodes,
            hits,
            dir_is_neg,
            (k - 1) as nat,
        )
    }
}

/// Each of the first `k` steps of a traversal has room for what it schedules.
pub open spec fn run_fits<B>(
    s: Option<BvhTraversalView>,
    nodes: Seq<LinearBvhNode<B>>,
    hits: spec_fn(int) -> bool,
    dir_is_neg: Seq<bool>,
    k: nat,
) -> bool
    decreases k,
{
    if k == 0 {
        true
    } else {
        &&& (s matches Some(t) ==> push_fits(t, nodes[t.current as int], hits(t.current as int)))
        &&& run_fits(
            traversal_machine_step(s, nodes, hits, dir_is_neg).0,
            nodes,
            hits,
            dir_is_neg,
            (k - 1) as nat,
        )
    }
}

/// The leaves of the hierarchy `n` (placed at `base`) that a ray reaches: those whose bounds,
/// and the bounds of every node above them, are hit; an interior node's subtrees come near
/// side first, as `dir_is_neg` decides along the node's axis. Each leaf is given by its range
/// of primitives.
pub open spec fn reached_leaves<B>(
    n: BvhBuildNode<B>,
    base: int,
    hits: spec_fn(int) -> bool,
    dir_is_neg: Seq<bool>,
) -> Seq<(int, int)>
    decreases n,
{
    if !hits(base) {
        seq![]
    } else {
        match n.kind {
            BvhNodeKind::Leaf { first_prim_offset, num_prims } => seq![
                (first_prim_offset as int, first_prim_offset + num_prims),
            ],
            BvhNodeKind::Interior { split_axis, left, right } => {
                let l = reached_leaves(*left, base + 1, hits, dir_is_neg);
                let r = reached_leaves(*right, base + 1 + node_count(*left), hits, dir_is_neg);
                if dir_is_neg[split_axis as int] {
                    r + l
                } else {
                    l + r
                }
            },
        }
    }
}

/// The number of steps that a traversal spends in the hierarchy `n` placed at `base`.
pub open spec fn traversal_steps<B>(n: BvhBuildNode<B>, base: int, hits: spec_fn(int) -> bool) -> nat
    decreases n,
{
    if !hits(base) {
        1
    } else {
        match n.kind {
            BvhNodeKind::Leaf { .. } => 1,
            BvhNodeKind::Interior { left, right, .. } => 1 + traversal_steps(*left, base + 1, hits)
                + traversal_steps(*right, base + 1 + node_count(*left), hits),
        }
    }
}

/// The traversal once the scheduled nodes `to_visit` are what is left.
pub open spec fn resume(to_visit: Seq<usize>) -> Option<BvhTraversalView> {
    if to_visit.len() == 0 {
        None
    } else {
        Some(BvhTraversalView { current: to_visit.last(), to_visit: to_visit.drop_last() })
    }
}

/// A traversal that starts at the root of the hierarchy `n`, placed at `base` in `nodes`,
/// with `to_visit` scheduled, hands out the leaves of `n` that the ray reaches and then goes
/// on with `to_visit`.
proof fn lemma_traversal_of_subtree<B>(
    n: BvhBuildNode<B>,
    base: int,
    nodes: Seq<LinearBvhNode<B>>,
    prim_count: nat,
    hits: spec_fn(int) -> bool,
    dir_is_neg: Seq<bool>,
    to_visit: Seq<usize>,
    m: nat,
)
    requires
        build_tree_wf(n, prim_count),
        0 <= base,
        base + node_count(n) <= nodes.len(),
        nodes.len() <= u32::MAX,
        prim_count <= usize::MAX,
        dir_is_neg.len() == 3,
        forall|j: int| 0 <= j < node_count(n) ==> nodes[base + j] == #[trigger] flattened(n, base)[j],
    ensures
        traversal_run(
            Some(BvhTraversalView { current: base as usize, to_visit }),
            nodes,
            hits,
            dir_is_neg,
            traversal_steps(n, base, hits) + m,
        ) == reached_leaves(n, base, hits, dir_is_neg) + traversal_run(
            resume(to_visit),
            nodes,
            hits,
            dir_is_neg,
            m,
        ),
        traversal_state(
            Some(BvhTraversalView { current: base as usize, to_visit }),
            nodes,
            hits,
            dir_is_neg,
            traversal_steps(n, base, hits) + m,
        ) == traversal_state(resume(to_visit), nodes, hits, dir_is_neg, m),
        to_visit.len() + node_depth(n) <= TO_VISIT_CAPACITY + 1 ==> run_fits(
            Some(BvhTraversalView { current: base as usize, to_visit }),
            nodes,
            hits,
            dir_is_neg,
            traversal_steps(n, base, hits) + m,
        ) == run_fits(resume(to_visit), nodes, hits, dir_is_neg, m),
    decreases n,
{
    lemma_flattened_len(n, base);
    let t = BvhTraversalView { current: base as usize, to_visit };
    let s = Some(t);
    let k = traversal_steps(n, base, hits) + m;
    assert(nodes[base] == flattened(n, base)[0]);
    let node = nodes[base];
    let (s2, out) = traversal_machine_step(s, nodes, hits, dir_is_neg);
    assert(traversal_run(s, nodes, hits, dir_is_neg, k) == out + traversal_run(
        s2,
        nodes,
        hits,
        dir_is_neg,
        (k - 1) as nat,
    ));
    assert(traversal_state(s, nodes, hits, dir_is_neg, k) == traversal_state(
        s2,
        nodes,
        hits,
        dir_is_neg,
        (k - 1) as nat,
    ));
    assert(run_fits(s, nodes, hits, dir_is_neg, k) == (push_fits(t, node, hits(base))
        && run_fits(s2, nodes, hits, dir_is_neg, (k - 1) as nat)));
    if !hits(base) {
        assert(out =~= Seq::<(int, int)>::empty());
        assert(s2 == resume(to_visit));
        assert(reached_leaves(n, base, hits, dir_is_neg) =~= Seq::<(int, int)>::empty());
        assert(out + traversal_run(s2, nodes, hits, dir_is_neg, m) =~= traversal_run(
            resume(to_visit),
            nodes,
            hits,
            dir_is_neg,
            m,
        ));
    } else {
        match n.kind {
            BvhNodeKind::Leaf { first_prim_offset, num_prims } => {
                assert(node.num_prims == num_prims as u16);
                assert(node.offset == first_prim_offset as u32);
                assert(node.num_prims as int == num_prims);
                assert(node.offset as int == first_prim_offset);
                assert(node.num_prims > 0);
                assert(s2 == resume(to_visit));
                assert(node.offset as usize as int == first_prim_offset);
                assert((node.offset + node.num_prims) as usize as int == first_prim_offset
                    + num_prims);
                assert(out =~= seq![(first_prim_offset as int, first_prim_offset + num_prims)]);
                assert(reached_leaves(n, base, hits, dir_is_neg) == out);
                assert(k - 1 == m);
            },
            BvhNodeKind::Interior { split_axis, left, right } => {
                let bl = base + 1;
                let br = base + 1 + node_count(*left);
                lemma_flattened_len(*left, bl);
                lemma_flattened_len(*right, br);
                let l = flattened(*left, bl);
                let r = flattened(*right, br);
                let fl = flattened(n, base);
                assert forall|j: int| 0 <= j < node_count(*left) implies nodes[bl + j]
                    == #[trigger] l[j] by {
                    assert(fl[1 + j] == l[j]);
                    assert(nodes[base + (1 + j)] == fl[1 + j]);
                }
                assert forall|j: int| 0 <= j < node_count(*right) implies nodes[br + j]
                    == #[trigger] r[j] by {
                    assert(fl[1 + node_count(*left) + j] == r[j]);
                    assert(nodes[base + (1 + node_count(*left) + j)] == fl[1 + node_count(*left) + j]);
                }
                assert(node.num_prims == 0);
                assert(node.offset as int == br);
                assert(out =~= Seq::<(int, int)>::empty());
                let sl = traversal_steps(*left, bl, hits);
                let sr = traversal_steps(*right, br, hits);
                let ll = reached_leaves(*left, bl, hits, dir_is_neg);
                let rl = reached_leaves(*right, br, hits, dir_is_neg);
                if dir_is_neg[split_axis as int] {
                    // The far child first: the second subtree, then the first.
                    let pushed = to_visit.push(bl as usize);
                    assert(s2 == Some(BvhTraversalView { current: br as usize, to_visit: pushed }));
                    lemma_traversal_of_subtree(
                        *right,
                        br,
                        nodes,
                        prim_count,
                        hits,
                        dir_is_neg,
                        pushed,
                        sl + m,
                    );
                    assert(pushed.drop_last() =~= to_visit);
                    assert(resume(pushed) == Some(BvhTraversalView { current: bl as usize, to_visit }));
                    lemma_traversal_of_subtree(
                        *left,
                        bl,
                        nodes,
                        prim_count,
                        hits,
                        dir_is_neg,
                        to_visit,
                        m,
                    );
                    assert((k - 1) as nat == sr + (sl + m));
                    assert(reached_leaves(n, base, hits, dir_is_neg) == rl + ll);
                    assert(out + traversal_run(s2, nodes, hits, dir_is_neg, (k - 1) as nat) =~= (
                    rl + ll) + traversal_run(resume(to_visit), nodes, hits, dir_is_neg, m));
                } else {
                    let pushed = to_visit.push(br as usize);
                    assert(s2 == Some(BvhTraversalView { current: bl as usize, to_visit: pushed }));
                    lemma_traversal_of_subtree(
                        *left,
                        bl,
                        nodes,
                        prim_count,
                        hits,
                        dir_is_neg,
                        pushed,
                        sr + m,
                    );
                    assert(pushed.drop_last() =~= to_visit);
                    assert(resume(pushed) == Some(BvhTraversalView { current: br as usize, to_visit }));
                    lemma_traversal_of_subtree(
                        *right,
                        br,
                        nodes,
                        prim_count,
                        hits,
                        dir_is_neg,
                        to_visit,
                        m,
                    );
                    assert((k - 1) as nat == sl + (sr + m));
                    assert(reached_leaves(n, base, hits, dir_is_neg) == ll + rl);
                    assert(out + traversal_run(s2, nodes, hits, dir_is_neg, (k - 1) as nat) =~= (
                    ll + rl) + traversal_run(resume(to_visit), nodes, hits, dir_is_neg, m));
                }
            },
        }
    }
}

/// A traversal of a flattened well-formed hierarchy hands out exactly the leaves that the
/// ray reaches (those whose bounds and all of whose ancestors' bounds are hit), each once,
/// nearest subtree first; it is finished after `traversal_steps` steps, and further steps
/// hand out nothing. Where the hierarchy is at most one deeper than the room for scheduled
/// nodes, no step runs out of that room.
pub proof fn law_traversal_hands_out_reached_leaves<B>(
    n: BvhBuildNode<B>,
    prim_count: nat,
    hits: spec_fn(int) -> bool,
    dir_is_neg: Seq<bool>,
    extra: nat,
)
    requires
        build_tree_wf(n, prim_count),
        node_count(n) <= u32::MAX,
        prim_count <= usize::MAX,
        dir_is_neg.len() == 3,
    ensures
        traversal_run(
            Some(BvhTraversalView { current: 0, to_visit: Seq::empty() }),
            flattened(n, 0),
            hits,
            dir_is_neg,
            traversal_steps(n, 0, hits) + extra,
        ) == reached_leaves(n, 0, hits, dir_is_neg),
        traversal_state(
            Some(BvhTraversalView { current: 0, to_visit: Seq::empty() }),
            flattened(n, 0),
            hits,
            dir_is_neg,
            traversal_steps(n, 0, hits),
        ) is None,
        node_depth(n) <= TO_VISIT_CAPACITY + 1 ==> run_fits(
            Some(BvhTraversalView { current: 0, to_visit: Seq::empty() }),
            flattened(n, 0),
            hits,
            dir_is_neg,
            traversal_steps(n, 0, hits) + extra,
        ),
{
    let nodes = flattened(n, 0);
    lemma_flattened_len(n, 0);
    assert forall|j: int| 0 <= j < node_count(n) implies nodes[0 + j] == #[trigger] flattened(
        n,
        0,
    )[j] by {}
    lemma_traversal_of_subtree(n, 0, nodes, prim_count, hits, dir_is_neg, Seq::empty(), extra);
    lemma_traversal_of_subtree(n, 0, nodes, prim_count, hits, dir_is_neg, Seq::empty(), 0);
    lemma_run_finished(nodes, hits, dir_is_neg, extra);
    lemma_finished_run_fits(nodes, hits, dir_is_neg, extra);
    assert(reached_leaves(n, 0, hits, dir_is_neg) + Seq::<(int, int)>::empty() =~= reached_leaves(
        n,
        0,
        hits,
        dir_is_neg,
    ));
}

proof fn lemma_run_finished<B>(
    nodes: Seq<LinearBvhNode<B>>,
    hits: spec_fn(int) -> bool,
    dir_is_neg: Seq<bool>,
    k: nat,
)
    ensures
        traversal_run(None, nodes, hits, dir_is_neg, k) == Seq::<(int, int)>::empty(),
    decreases k,
{
    if k > 0 {
        lemma_run_finished(nodes, hits, dir_is_neg, (k - 1) as nat);
        assert(traversal_run(None, nodes, hits, dir_is_neg, k) =~= Seq::<(int, int)>::empty());
    }
}

proof fn lemma_finished_run_fits<B>(
    nodes: Seq<LinearBvhNode<B>>,
    hits: spec_fn(int) -> bool,
    dir_is_neg: Seq<bool>,
    k: nat,
)
    ensures
        run_fits(None, nodes, hits, dir_is_neg, k),
    decreases k,
{
    if k > 0 {
        lemma_finished_run_fits(nodes, hits, dir_is_neg, (k - 1) as nat);
    }
}

} // verus!
