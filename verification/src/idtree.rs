//! The node tree: each node has a parent, a layer (its depth, 0 when it is
//! not on the tree) and the list of its children.
//!
//! Node 0 is never on the tree; a root (layer 1) has parent 0.
use vstd::prelude::*;

verus! {

#[derive(Debug)]
pub struct TreeNode {
    pub parent: usize,
    pub layer: usize,
    pub children: Vec<usize>,
}

#[derive(Debug)]
pub struct IdTree {
    pub nodes: Vec<TreeNode>,
}

/// The layers, parents and children of the nodes form a tree whose roots are
/// the nodes of layer 1; nodes off the tree (layer 0) have no children.
pub open spec fn tree_wf(t: Seq<TreeNode>) -> bool {
    &&& 0 < t.len() <= usize::MAX
    &&& t[0].layer == 0
    &&& forall|x: int| 0 <= x < t.len() ==> (#[trigger] t[x]).children@.no_duplicates()
    &&& forall|x: int| 0 <= x < t.len() && (#[trigger] t[x]).layer == 0 ==> t[x].children@.len() == 0
    &&& forall|x: int, k: int|
        #![trigger t[x].children@[k]]
        0 <= x < t.len() && 0 <= k < t[x].children@.len() ==> {
            let c = t[x].children@[k] as int;
            &&& 0 < c < t.len()
            &&& t[c].parent == x
            &&& t[c].layer == t[x].layer + 1
        }
    &&& forall|x: int| 0 < x < t.len() && t[x].layer > 1 ==> #[trigger] listed_by_parent(t, x)
    &&& forall|x: int| 0 <= x < t.len() && (#[trigger] t[x]).layer == 1 ==> t[x].parent == 0 && x != 0
}

/// The parent of `x` is a node (other than 0) whose children list holds `x`.
pub open spec fn listed_by_parent(t: Seq<TreeNode>, x: int) -> bool {
    let p = t[x].parent as int;
    &&& 0 < p < t.len()
    &&& t[p].children@.contains(x as usize)
}

/// The parent of `x` is a node of a smaller layer, so walking up from `x` ends.
pub open spec fn steps_up(t: Seq<TreeNode>, x: int) -> bool {
    &&& 0 <= x < t.len()
    &&& 0 <= t[x].parent < t.len()
    &&& t[t[x].parent as int].layer < t[x].layer
}

/// The ancestor of `x` on layer `l` (or `x` itself when its layer is at most `l`).
pub open spec fn ancestor_at(t: Seq<TreeNode>, x: int, l: int) -> int
    decreases t[x].layer,
{
    if 0 <= x < t.len() && t[x].layer > l && steps_up(t, x) {
        ancestor_at(t, t[x].parent as int, l)
    } else {
        x
    }
}

/// `x` is `id` or a descendant of `id`, and `id` is on the tree.
pub open spec fn in_subtree(t: Seq<TreeNode>, x: int, id: int) -> bool {
    &&& 0 <= x < t.len()
    &&& 0 <= id < t.len()
    &&& t[id].layer > 0
    &&& t[x].layer >= t[id].layer
    &&& ancestor_at(t, x, t[id].layer as int) == id
}

/// In a well-formed tree a node on the tree above layer 1 steps up to its parent.
pub proof fn lemma_steps_up(t: Seq<TreeNode>, x: int)
    requires
        tree_wf(t),
        0 <= x < t.len(),
        t[x].layer > 1,
    ensures
        steps_up(t, x),
        t[t[x].parent as int].layer == t[x].layer - 1,
        t[x].parent > 0,
{
    let p = t[x].parent as int;
    assert(t[x].layer > 1);
    assert(x != 0);
    assert(listed_by_parent(t, x));
    let k = choose|k: int| 0 <= k < t[p].children@.len() && t[p].children@[k] == x as usize;
    assert(t[p].children@[k] == x as usize);
}

/// The ancestor of a node on the tree at a layer `l >= 1` below its own lies on layer `l`.
pub proof fn lemma_ancestor_layer(t: Seq<TreeNode>, x: int, l: int)
    requires
        tree_wf(t),
        0 <= x < t.len(),
        1 <= l <= t[x].layer,
    ensures
        0 < ancestor_at(t, x, l) < t.len(),
        t[ancestor_at(t, x, l)].layer == l,
    decreases t[x].layer,
{
    if t[x].layer > l {
        lemma_steps_up(t, x);
        lemma_ancestor_layer(t, t[x].parent as int, l);
    } else {
        assert(x != 0);
    }
}

/// Walking up to layer `l` passes through the ancestor on layer `m >= l`.
pub proof fn lemma_ancestor_trans(t: Seq<TreeNode>, x: int, l: int, m: int)
    requires
        tree_wf(t),
        0 <= x < t.len(),
        1 <= l <= m <= t[x].layer,
    ensures
        ancestor_at(t, x, l) == ancestor_at(t, ancestor_at(t, x, m), l),
    decreases t[x].layer,
{
    if t[x].layer > m {
        lemma_steps_up(t, x);
        lemma_ancestor_trans(t, t[x].parent as int, l, m);
    }
}

/// A child of a node on the tree is in the subtree of that node and of itself,
/// and the subtree of the child lies in the subtree of the node.
pub proof fn lemma_child_subtree(t: Seq<TreeNode>, id: int, k: int, x: int)
    requires
        tree_wf(t),
        0 <= id < t.len(),
        t[id].layer > 0,
        0 <= k < t[id].children@.len(),
        in_subtree(t, x, t[id].children@[k] as int),
    ensures
        in_subtree(t, x, id),
        x != id,
        t[x].layer > t[id].layer,
        ancestor_at(t, x, t[id].layer + 1) == t[id].children@[k] as int,
{
    let c = t[id].children@[k] as int;
    assert(t[c].parent == id && t[c].layer == t[id].layer + 1);
    lemma_ancestor_trans(t, x, t[id].layer as int, t[c].layer as int);
    lemma_steps_up_or_root(t, c);
}

proof fn lemma_steps_up_or_root(t: Seq<TreeNode>, c: int)
    requires
        tree_wf(t),
        0 < c < t.len(),
        t[c].layer > 1,
    ensures
        ancestor_at(t, c, t[c].layer - 1) == t[c].parent as int,
{
    lemma_steps_up(t, c);
    let p = t[c].parent as int;
    assert(ancestor_at(t, p, t[c].layer - 1) == p);
}

/// A node of the subtree of `id` other than `id` lies in the subtree of the
/// child of `id` that is its ancestor.
pub proof fn lemma_subtree_child(t: Seq<TreeNode>, x: int, id: int)
    requires
        tree_wf(t),
        in_subtree(t, x, id),
        x != id,
    ensures
        t[x].layer > t[id].layer,
        t[id].children@.contains(ancestor_at(t, x, t[id].layer + 1) as usize),
        in_subtree(t, x, ancestor_at(t, x, t[id].layer + 1)),
{
    let l = t[id].layer as int;
    if t[x].layer == l {
        assert(ancestor_at(t, x, l) == x);
    }
    assert(t[x].layer > l);
    let c = ancestor_at(t, x, l + 1);
    lemma_ancestor_layer(t, x, l + 1);
    lemma_ancestor_trans(t, x, l, l + 1);
    // c is on layer l + 1 > 1, so it steps up to its parent, which is `id`
    lemma_steps_up(t, c);
    assert(listed_by_parent(t, c));
    assert(ancestor_at(t, t[c].parent as int, l) == t[c].parent as int);
    assert(ancestor_at(t, c, l) == t[c].parent as int);
    assert(t[c].parent as int == id);
    lemma_ancestor_layer(t, c, l + 1);
    assert(ancestor_at(t, c, l + 1) == c);
}

/// A node on the tree is in its own subtree.
pub proof fn lemma_subtree_self(t: Seq<TreeNode>, id: int)
    requires
        0 <= id < t.len(),
        t[id].layer > 0,
    ensures
        in_subtree(t, id, id),
{
}

/// A node of the subtree of `id` other than `id` has its parent in that subtree.
pub proof fn lemma_subtree_parent(t: Seq<TreeNode>, x: int, id: int)
    requires
        tree_wf(t),
        in_subtree(t, x, id),
        x != id,
    ensures
        steps_up(t, x),
        t[x].layer > 1,
        in_subtree(t, t[x].parent as int, id),
{
    let l = t[id].layer as int;
    if t[x].layer == l {
        assert(ancestor_at(t, x, l) == x);
    }
    lemma_steps_up(t, x);
}

impl IdTree {
    /// A tree of `n` nodes (ids `0..n`), none of them on the tree yet.
    pub fn with_capacity(n: usize) -> (r: Self)
        ensures
            r.nodes@.len() == if n == 0 { 1 } else { n as int },
            forall|x: int|
                0 <= x < r.nodes@.len() ==> (#[trigger] r.nodes@[x]).layer == 0 && r.nodes@[x].parent == 0
                    && r.nodes@[x].children@.len() == 0,
            tree_wf(r.nodes@),
    {
        let mut nodes: Vec<TreeNode> = Vec::new();
        let mut i: usize = 0;
        let m: usize = if n == 0 { 1 } else { n };
        while i < m
            invariant
                i <= m,
                nodes@.len() == i,
                forall|x: int|
                    0 <= x < i ==> (#[trigger] nodes@[x]).layer == 0 && nodes@[x].parent == 0
                        && nodes@[x].children@.len() == 0,
            decreases m - i,
        {
            nodes.push(TreeNode { parent: 0, layer: 0, children: Vec::new() });
            i = i + 1;
        }
        IdTree { nodes }
    }

    /// Number of node slots.
    pub fn len(&self) -> (r: usize)
        ensures
            r == self.nodes@.len(),
    {
        self.nodes.len()
    }

    /// The layer of `id`, or `None` when there is no slot for `id`.
    pub fn layer(&self, id: usize) -> (r: Option<usize>)
        ensures
            r == if id < self.nodes@.len() { Some(self.nodes@[id as int].layer) } else { None },
    {
        if id < self.nodes.len() {
            Some(self.nodes[id].layer)
        } else {
            None
        }
    }

    /// Puts the off-tree node `child` on the tree as the last child of
    /// `parent` (a root when `parent` is 0).
    pub fn insert_child(&mut self, child: usize, parent: usize)
        requires
            tree_wf(old(self).nodes@),
            0 < child < old(self).nodes@.len(),
            parent < old(self).nodes@.len(),
            child != parent,
            old(self).nodes@[child as int].layer == 0,
            parent == 0 || old(self).nodes@[parent as int].layer > 0,
            parent == 0 || old(self).nodes@[parent as int].layer < usize::MAX,
        ensures
            tree_wf(final(self).nodes@),
            final(self).nodes@.len() == old(self).nodes@.len(),
            final(self).nodes@[child as int].parent == parent,
            final(self).nodes@[child as int].layer == if parent == 0 { 1 } else {
                old(self).nodes@[parent as int].layer + 1
            },
            parent != 0 ==> final(self).nodes@[parent as int].children@ == old(
                self,
            ).nodes@[parent as int].children@.push(child),
            forall|x: int|
                0 <= x < final(self).nodes@.len() && x != child && (x != parent || parent == 0)
                    ==> #[trigger] final(self).nodes@[x] == old(self).nodes@[x],
    {
        let ghost t0 = self.nodes@;
        let layer: usize = if parent == 0 { 1 } else { self.nodes[parent].layer + 1 };
        let mut c = TreeNode { parent: 0, layer: 0, children: Vec::new() };
        std::mem::swap(&mut c, &mut self.nodes[child]);
        c.parent = parent;
        c.layer = layer;
        std::mem::swap(&mut c, &mut self.nodes[child]);
        if parent != 0 {
            let mut p = TreeNode { parent: 0, layer: 0, children: Vec::new() };
            std::mem::swap(&mut p, &mut self.nodes[parent]);
            p.children.push(child);
            std::mem::swap(&mut p, &mut self.nodes[parent]);
        }
        proof {
            let t = self.nodes@;
            assert(t0[child as int].children@.len() == 0);
            if parent != 0 {
                // child was off the tree, so no node listed it as a child
                assert(!t0[parent as int].children@.contains(child)) by {
                    if t0[parent as int].children@.contains(child) {
                        let k = choose|k: int|
                            0 <= k < t0[parent as int].children@.len()
                                && t0[parent as int].children@[k] == child;
                        assert(t0[child as int].layer == t0[parent as int].layer + 1);
                    }
                }
            }
            assert forall|x: int, k: int|
                #![trigger t[x].children@[k]]
                0 <= x < t.len() && 0 <= k < t[x].children@.len() implies {
                let c = t[x].children@[k] as int;
                &&& 0 < c < t.len()
                &&& t[c].parent == x
                &&& t[c].layer == t[x].layer + 1
            } by {
                if x == parent && parent != 0 {
                    if k < t0[x].children@.len() {
                        assert(t[x].children@[k] == t0[x].children@[k]);
                        let c = t0[x].children@[k] as int;
                        assert(c != child as int);
                    }
                } else if x == child as int {
                } else {
                    assert(t[x] == t0[x]);
                    let c = t0[x].children@[k] as int;
                    if c == child as int {
                        assert(t0[c].layer == t0[x].layer + 1);
                    }
                }
            }
            assert forall|x: int| 0 < x < t.len() && t[x].layer > 1 implies #[trigger] listed_by_parent(t, x) by {
                if x == child as int {
                    let n = t[parent as int].children@.len() - 1;
                    assert(t[parent as int].children@[n] == child);
                    assert(t[parent as int].children@.contains(child));
                    assert(listed_by_parent(t, x));
                } else if x == parent as int {
                    assert(t[x].layer == t0[x].layer);
                    assert(t[x].parent == t0[x].parent);
                    assert(listed_by_parent(t0, x));
                    let p = t0[x].parent as int;
                    assert(p != x);
                    if p == child as int {
                        assert(t0[p].children@.len() == 0);
                    }
                    assert(t[p] == t0[p]);
                } else {
                    assert(t[x] == t0[x]);
                    let p = t0[x].parent as int;
                    assert(listed_by_parent(t0, x));
                    if p == parent as int {
                        let k = choose|k: int|
                            0 <= k < t0[p].children@.len() && t0[p].children@[k] == x as usize;
                        assert(t[p].children@[k] == x as usize);
                    } else if p == child as int {
                        assert(t0[p].children@.len() == 0);
                    } else {
                        assert(t[p] == t0[p]);
                    }
                }
            }
            assert forall|x: int| 0 <= x < t.len() implies (#[trigger] t[x]).children@.no_duplicates() by {
                if x == parent as int && parent != 0 {
                    assert(t0[x].children@.no_duplicates());
                    assert forall|i: int, j: int|
                        0 <= i < j < t[x].children@.len() implies t[x].children@[i]
                        != t[x].children@[j] by {
                        if j == t0[x].children@.len() {
                            assert(t[x].children@[i] == t0[x].children@[i]);
                            assert(t0[x].children@.contains(t0[x].children@[i]));
                        }
                    }
                } else if x != child as int {
                    assert(t[x] == t0[x]);
                }
            }
        }
    }
}

} // verus!
