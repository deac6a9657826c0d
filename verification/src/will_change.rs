//! Nodes with a will-change transform: the system records, per node, the layer
//! at which such a node sits on the tree, and marks the node's transform dirty
//! so that its will-change matrix is computed again.
//!
//! A will-change transform created on a node that has no tree slot yet is
//! counted; when a subtree is put on the tree, its will-change nodes are
//! recorded in depth-first order, one per counted creation, until the count is
//! used up.
use vstd::prelude::*;
use crate::style_mark::StyleMark;
use crate::style_type::TY1_TRANSFORM_WILL_CHANGE;
use crate::idtree::{IdTree, TreeNode, tree_wf};

verus! {

/// The will-change bookkeeping.
#[derive(Debug)]
pub struct TransformWillChangeSys {
    /// Per node slot, the layer at which the node is recorded (0: not recorded).
    pub will_change_mark: Vec<usize>,
    /// Some will-change matrix must be computed again.
    pub dirty: bool,
    /// Will-change transforms created on nodes that had no tree slot yet.
    pub create_will_change_count: usize,
}

/// The will-change nodes of the subtree of `id`, in depth-first order (a node
/// before its children, children in order).
pub open spec fn will_change_order(t: Seq<TreeNode>, has: Seq<bool>, id: int) -> Seq<usize>
    decreases usize::MAX - t[id].layer, t[id].children@.len() + 1,
{
    if 0 <= id < t.len() {
        (if has[id] { seq![id as usize] } else { Seq::empty() }) + will_change_below(
            t,
            has,
            id,
            t[id].children@.len() as int,
        )
    } else {
        Seq::empty()
    }
}

/// The will-change nodes of the subtrees of the first `k` children of `id`,
/// in depth-first order.
pub open spec fn will_change_below(t: Seq<TreeNode>, has: Seq<bool>, id: int, k: int) -> Seq<usize>
    decreases usize::MAX - t[id].layer, k,
{
    if 0 <= id < t.len() && 0 < k <= t[id].children@.len() {
        let c = t[id].children@[k - 1] as int;
        will_change_below(t, has, id, k - 1) + if 0 <= c < t.len() && t[c].layer > t[id].layer {
            will_change_order(t, has, c)
        } else {
            Seq::empty()
        }
    } else {
        Seq::empty()
    }
}

/// The mark of `id` with its will-change transform dirty.
pub open spec fn will_change_dirty(m: StyleMark) -> StyleMark {
    StyleMark { dirty_other: m.dirty_other | TY1_TRANSFORM_WILL_CHANGE, ..m }
}

/// The records after the nodes of `ws` were recorded at their layers.
pub open spec fn recorded(t: Seq<TreeNode>, marks: Seq<usize>, ws: Seq<usize>) -> Seq<usize> {
    Seq::new(marks.len(), |x: int| if ws.contains(x as usize) { t[x].layer } else { marks[x] })
}

/// The smaller of `a` and `b`.
pub open spec fn min_int(a: int, b: int) -> int {
    if a < b { a } else { b }
}

proof fn lemma_or_idempotent(a: u64, f: u64)
    ensures
        (a | f) | f == a | f,
{
    assert((a | f) | f == a | f) by (bit_vector);
}

/// The children prefixes of `id` grow: the nodes below the first `j`
/// children come first among those below the first `k >= j` children.
proof fn lemma_below_prefix(t: Seq<TreeNode>, has: Seq<bool>, id: int, j: int, k: int)
    requires
        0 <= id < t.len(),
        0 <= j <= k <= t[id].children@.len(),
    ensures
        will_change_below(t, has, id, j).len() <= will_change_below(t, has, id, k).len(),
        will_change_below(t, has, id, k).take(will_change_below(t, has, id, j).len() as int)
            == will_change_below(t, has, id, j),
    decreases k - j,
{
    if j < k {
        lemma_below_prefix(t, has, id, j, k - 1);
        let a = will_change_below(t, has, id, k - 1);
        let b = will_change_below(t, has, id, k);
        let p = will_change_below(t, has, id, j);
        assert(b.take(a.len() as int) =~= a);
        assert(b.take(p.len() as int) =~= a.take(p.len() as int));
    } else {
        let p = will_change_below(t, has, id, j);
        assert(p.take(p.len() as int) =~= p);
    }
}

/// Taking `a.len() + k` from `a + b` is `a` then the first `k` of `b`.
proof fn lemma_take_concat(a: Seq<usize>, b: Seq<usize>, k: int)
    requires
        0 <= k <= b.len(),
    ensures
        (a + b).take(a.len() + k) == a + b.take(k),
        forall|x: usize| #[trigger] (a + b.take(k)).contains(x) <==> a.contains(x) || b.take(k).contains(x),
{
    assert((a + b).take(a.len() + k) =~= a + b.take(k));
    assert forall|x: usize| #[trigger] (a + b.take(k)).contains(x) <==> a.contains(x) || b.take(k).contains(x) by {
        let s = a + b.take(k);
        if s.contains(x) {
            let i = choose|i: int| 0 <= i < s.len() && s[i] == x;
            if i >= a.len() {
                assert(b.take(k)[i - a.len()] == x);
            }
        }
        if a.contains(x) {
            let i = choose|i: int| 0 <= i < a.len() && a[i] == x;
            assert(s[i] == x);
        }
        if b.take(k).contains(x) {
            let i = choose|i: int| 0 <= i < k && b.take(k)[i] == x;
            assert(s[a.len() + i] == x);
        }
    }
}

impl TransformWillChangeSys {
    /// Nothing recorded, nothing dirty, nothing counted; one record slot per node slot.
    pub fn new(node_count: usize) -> (r: Self)
        ensures
            r.will_change_mark@ == Seq::new(node_count as nat, |x: int| 0usize),
            !r.dirty,
            r.create_will_change_count == 0,
    {
        let mut marks: Vec<usize> = Vec::new();
        let mut i: usize = 0;
        while i < node_count
            invariant
                i <= node_count,
                marks@ == Seq::new(i as nat, |x: int| 0usize),
            decreases node_count - i,
        {
            marks.push(0);
            i = i + 1;
            assert(marks@ =~= Seq::new(i as nat, |x: int| 0usize));
        }
        TransformWillChangeSys { will_change_mark: marks, dirty: false, create_will_change_count: 0 }
    }

    /// Marks the will-change transform of `id` dirty.
    fn mark_dirty(&mut self, id: usize, style_marks: &mut Vec<Option<StyleMark>>)
        requires
            id < old(style_marks)@.len(),
            old(style_marks)@[id as int] is Some,
        ensures
            final(self).dirty,
            final(self).will_change_mark@ == old(self).will_change_mark@,
            final(self).create_will_change_count == old(self).create_will_change_count,
            final(style_marks)@ == old(style_marks)@.update(
                id as int,
                Some(will_change_dirty(old(style_marks)@[id as int]->0)),
            ),
    {
        self.dirty = true;
        let mut mark = style_marks[id].unwrap();
        mark.dirty_other = mark.dirty_other | TY1_TRANSFORM_WILL_CHANGE;
        style_marks.set(id, Some(mark));
    }

    /// A will-change transform was created on `id`. A node on the tree is
    /// marked dirty and recorded at its layer; a node with no tree slot is
    /// counted; a node off the tree is left alone.
    pub fn on_will_change_create(&mut self, id: usize, idtree: &IdTree, style_marks: &mut Vec<Option<StyleMark>>)
        requires
            old(self).will_change_mark@.len() == idtree.nodes@.len(),
            id < idtree.nodes@.len() && idtree.nodes@[id as int].layer > 0 ==> id < old(style_marks)@.len()
                && old(style_marks)@[id as int] is Some,
            id >= idtree.nodes@.len() ==> old(self).create_will_change_count < usize::MAX,
        ensures
            id >= idtree.nodes@.len() ==> final(self).create_will_change_count == old(
                self,
            ).create_will_change_count + 1 && final(self).dirty == old(self).dirty
                && final(self).will_change_mark@ == old(self).will_change_mark@
                && final(style_marks)@ == old(style_marks)@,
            id < idtree.nodes@.len() && idtree.nodes@[id as int].layer == 0 ==> final(self).create_will_change_count
                == old(self).create_will_change_count && final(self).dirty == old(self).dirty
                && final(self).will_change_mark@ == old(self).will_change_mark@
                && final(style_marks)@ == old(style_marks)@,
            id < idtree.nodes@.len() && idtree.nodes@[id as int].layer > 0 ==> final(self).create_will_change_count
                == old(self).create_will_change_count && final(self).dirty
                && final(self).will_change_mark@ == old(self).will_change_mark@.update(
                id as int,
                idtree.nodes@[id as int].layer,
            ) && final(style_marks)@ == old(style_marks)@.update(
                id as int,
                Some(will_change_dirty(old(style_marks)@[id as int]->0)),
            ),
    {
        if id < idtree.nodes.len() {
            let layer = idtree.nodes[id].layer;
            if layer > 0 {
                self.mark_dirty(id, style_marks);
                self.will_change_mark.set(id, layer);
            }
        } else {
            self.create_will_change_count = self.create_will_change_count + 1;
        }
    }

    /// The will-change transform of `id` changed: a node on the tree is
    /// marked dirty.
    pub fn on_will_change_modify(&mut self, id: usize, idtree: &IdTree, style_marks: &mut Vec<Option<StyleMark>>)
        requires
            id < idtree.nodes@.len() && idtree.nodes@[id as int].layer > 0 ==> id < old(style_marks)@.len()
                && old(style_marks)@[id as int] is Some,
        ensures
            final(self).create_will_change_count == old(self).create_will_change_count,
            final(self).will_change_mark@ == old(self).will_change_mark@,
            id < idtree.nodes@.len() && idtree.nodes@[id as int].layer > 0 ==> final(self).dirty
                && final(style_marks)@ == old(style_marks)@.update(
                id as int,
                Some(will_change_dirty(old(style_marks)@[id as int]->0)),
            ),
            !(id < idtree.nodes@.len() && idtree.nodes@[id as int].layer > 0) ==> final(self).dirty == old(
                self,
            ).dirty && final(style_marks)@ == old(style_marks)@,
    {
        if id < idtree.nodes.len() && idtree.nodes[id].layer > 0 {
            self.mark_dirty(id, style_marks);
        }
    }

    /// The will-change transform of `id` was deleted: a node with a tree slot
    /// is no longer recorded and loses its will-change matrix.
    pub fn on_will_change_delete<T>(&mut self, id: usize, idtree: &IdTree, matrices: &mut Vec<Option<T>>)
        requires
            old(self).will_change_mark@.len() == idtree.nodes@.len(),
        ensures
            final(self).create_will_change_count == old(self).create_will_change_count,
            final(self).dirty == old(self).dirty,
            id < idtree.nodes@.len() ==> final(self).will_change_mark@ == old(self).will_change_mark@.update(
                id as int,
                0,
            ) && final(matrices)@ == if id < old(matrices)@.len() {
                old(matrices)@.update(id as int, None)
            } else {
                old(matrices)@
            },
            id >= idtree.nodes@.len() ==> final(self).will_change_mark@ == old(self).will_change_mark@
                && final(matrices)@ == old(matrices)@,
    {
        if id < idtree.nodes.len() {
            self.will_change_mark.set(id, 0);
            if id < matrices.len() && matrices[id].is_some() {
                matrices.set(id, None);
            }
        }
    }

    /// Records the will-change nodes of the subtree of `id`, in depth-first
    /// order, while the count lasts: each is recorded at its layer, uses up
    /// one count, and marks `root` dirty.
    fn record_subtree(
        &mut self,
        id: usize,
        root: usize,
        idtree: &IdTree,
        has: &Vec<bool>,
        style_marks: &mut Vec<Option<StyleMark>>,
    )
        requires
            tree_wf(idtree.nodes@),
            id < idtree.nodes@.len(),
            idtree.nodes@[id as int].layer > 0,
            has@.len() == idtree.nodes@.len(),
            old(self).will_change_mark@.len() == idtree.nodes@.len(),
            old(self).create_will_change_count > 0,
            root < old(style_marks)@.len(),
            old(style_marks)@[root as int] is Some,
        ensures
            ({
                let ws = will_change_order(idtree.nodes@, has@, id as int);
                let m = min_int(old(self).create_will_change_count as int, ws.len() as int);
                &&& final(self).create_will_change_count == old(self).create_will_change_count - m
                &&& final(self).will_change_mark@ == recorded(idtree.nodes@, old(self).will_change_mark@, ws.take(m))
                &&& final(self).dirty == (old(self).dirty || m > 0)
                &&& final(style_marks)@ == if m > 0 {
                    old(style_marks)@.update(root as int, Some(will_change_dirty(old(style_marks)@[root as int]->0)))
                } else {
                    old(style_marks)@
                }
            }),
        decreases usize::MAX - idtree.nodes@[id as int].layer,
    {
        let ghost t = idtree.nodes@;
        let ghost h = has@;
        let ghost c0 = self.create_will_change_count as int;
        let ghost m0 = self.will_change_mark@;
        let ghost d0 = self.dirty;
        let ghost s0 = style_marks@;
        let ghost head: Seq<usize> = if h[id as int] { seq![id] } else { Seq::empty() };
        let ghost L = t[id as int].layer as int;
        if has[id] {
            self.mark_dirty(root, style_marks);
            self.will_change_mark.set(id, idtree.nodes[id].layer);
            self.create_will_change_count = self.create_will_change_count - 1;
            proof {
                assert(head.take(1) =~= seq![id]);
                assert(seq![id][0] == id);
                assert forall|x: int| 0 <= x < m0.len() implies #[trigger] self.will_change_mark@[x] == recorded(
                    t,
                    m0,
                    head.take(1),
                )[x] by {
                    if seq![id].contains(x as usize) {
                        let i = choose|i: int| 0 <= i < 1 && seq![id][i] == x as usize;
                    }
                }
                assert(self.will_change_mark@ =~= recorded(t, m0, head.take(1)));
            }
        } else {
            proof {
                assert(self.will_change_mark@ =~= recorded(t, m0, head.take(0)));
            }
        }
        let children = &idtree.nodes[id].children;
        let mut j: usize = 0;
        proof {
            assert(head + will_change_below(t, h, id as int, 0) =~= head);
        }
        while j < children.len() && self.create_will_change_count > 0
            invariant
                tree_wf(t),
                t == idtree.nodes@,
                h == has@,
                h.len() == t.len(),
                id < t.len(),
                L == t[id as int].layer,
                L > 0,
                *children == t[id as int].children,
                j <= children@.len(),
                root < s0.len(),
                s0[root as int] is Some,
                head == (if h[id as int] { seq![id] } else { Seq::<usize>::empty() }),
                self.will_change_mark@.len() == t.len(),
                ({
                    let p = head + will_change_below(t, h, id as int, j as int);
                    let m = min_int(c0, p.len() as int);
                    &&& self.create_will_change_count == c0 - m
                    &&& self.will_change_mark@ == recorded(t, m0, p.take(m))
                    &&& self.dirty == (d0 || m > 0)
                    &&& style_marks@ == if m > 0 {
                        s0.update(root as int, Some(will_change_dirty(s0[root as int]->0)))
                    } else {
                        s0
                    }
                }),
            decreases children@.len() - j,
        {
            let c = children[j];
            let ghost p = head + will_change_below(t, h, id as int, j as int);
            let ghost k0 = self.create_will_change_count as int;
            let ghost mk = self.will_change_mark@;
            let ghost sk = style_marks@;
            proof {
                assert(t[id as int].children@[j as int] == c);
                assert(0 < c < t.len() && t[c as int].layer == L + 1);
                assert(p.take(p.len() as int) =~= p);
            }
            self.record_subtree(c, root, idtree, has, style_marks);
            proof {
                let wc = will_change_order(t, h, c as int);
                let kc = min_int(k0, wc.len() as int);
                let p1 = head + will_change_below(t, h, id as int, j + 1);
                assert(will_change_below(t, h, id as int, j + 1) == will_change_below(t, h, id as int, j as int) + wc);
                assert(p1 =~= p + wc);
                lemma_take_concat(p, wc, kc);
                assert(min_int(c0, p1.len() as int) == p.len() + kc);
                assert(self.will_change_mark@ =~= recorded(t, m0, p1.take(p.len() + kc)));
                if kc > 0 && p.len() > 0 {
                    lemma_or_idempotent(s0[root as int]->0.dirty_other, TY1_TRANSFORM_WILL_CHANGE);
                    assert(style_marks@ =~= s0.update(root as int, Some(will_change_dirty(s0[root as int]->0))));
                }
            }
            j = j + 1;
        }
        proof {
            let ws = will_change_order(t, h, id as int);
            let p = head + will_change_below(t, h, id as int, j as int);
            lemma_below_prefix(t, h, id as int, j as int, children@.len() as int);
            let full = will_change_below(t, h, id as int, children@.len() as int);
            let part = will_change_below(t, h, id as int, j as int);
            assert(ws == head + full);
            if j < children@.len() {
                // the count ran out after the first `j` children
                assert(self.create_will_change_count == 0);
                assert(ws.take(c0) =~= p.take(c0)) by {
                    assert(full.take(part.len() as int) == part);
                    assert forall|i: int| 0 <= i < c0 implies ws.take(c0)[i] == p.take(c0)[i] by {
                        if i >= head.len() {
                            assert(full.take(part.len() as int)[i - head.len()] == full[i - head.len()]);
                        }
                    }
                }
            } else {
                assert(p == ws);
            }
        }
    }

    /// A subtree rooted at `id` was put on the tree. While creations are
    /// counted, its will-change nodes (`has`) are recorded in depth-first
    /// order, one per counted creation, and `id` is marked dirty if any was.
    pub fn on_tree_create(
        &mut self,
        id: usize,
        idtree: &IdTree,
        has: &Vec<bool>,
        style_marks: &mut Vec<Option<StyleMark>>,
    )
        requires
            tree_wf(idtree.nodes@),
            id < idtree.nodes@.len(),
            idtree.nodes@[id as int].layer > 0,
            has@.len() == idtree.nodes@.len(),
            old(self).will_change_mark@.len() == idtree.nodes@.len(),
            old(self).create_will_change_count > 0 && will_change_order(idtree.nodes@, has@, id as int).len() > 0
                ==> id < old(style_marks)@.len() && old(style_marks)@[id as int] is Some,
        ensures
            ({
                let ws = will_change_order(idtree.nodes@, has@, id as int);
                let m = min_int(old(self).create_will_change_count as int, ws.len() as int);
                &&& final(self).create_will_change_count == old(self).create_will_change_count - m
                &&& final(self).will_change_mark@ == recorded(idtree.nodes@, old(self).will_change_mark@, ws.take(m))
                &&& final(self).dirty == (old(self).dirty || m > 0)
                &&& final(style_marks)@ == if m > 0 {
                    old(style_marks)@.update(id as int, Some(will_change_dirty(old(style_marks)@[id as int]->0)))
                } else {
                    old(style_marks)@
                }
            }),
    {
        if self.create_will_change_count == 0 {
            proof {
                let ws = will_change_order(idtree.nodes@, has@, id as int);
                assert(self.will_change_mark@ =~= recorded(idtree.nodes@, self.will_change_mark@, ws.take(0)));
            }
            return ;
        }
        if id < style_marks.len() && style_marks[id].is_some() {
            self.record_subtree(id, id, idtree, has, style_marks);
        } else {
            proof {
                let ws = will_change_order(idtree.nodes@, has@, id as int);
                assert(ws.len() == 0);
                assert(self.will_change_mark@ =~= recorded(idtree.nodes@, self.will_change_mark@, ws.take(0)));
            }
        }
    }
}

} // verus!
